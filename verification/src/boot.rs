//! The whole boot sequence as one verified routine: legacy-attribution
//! bypass, both partition runs, peripheral attribution, core configuration,
//! and the validated one-way transition, with an exhaustive terminal
//! outcome for the caller.

use vstd::prelude::*;

use crate::query::{lemma_classify_after_partition, spec_window_class};
use crate::region::{locked_regions_compatible, RegionTable};
use crate::spu::{
    bypass_legacy_attribution, config_flash, config_peripherals, config_ram, SpuState,
};
use crate::transition::{
    jump_ns, spec_core_configured, spec_target, BootState, CoreRegs, StateMachine,
    TransitionConfig, TransitionTarget,
};
use crate::types::AddressRange;

verus! {

/// Flash region geometry: thirty-two 32 KiB regions from the start of the
/// address space.
pub const FLASH_REGION_SIZE: u32 = 32 * 1024;

pub const FLASH_REGION_COUNT: usize = 32;

pub const FLASH_CLASS_BASE: u32 = 0;

/// RAM region geometry: thirty-two 8 KiB regions from the RAM base.
pub const RAM_REGION_SIZE: u32 = 8 * 1024;

pub const RAM_REGION_COUNT: usize = 32;

pub const RAM_CLASS_BASE: u32 = 0x2000_0000;

/// The boundary constants configuration is rebuilt from every boot: the
/// non-secure flash and RAM windows.
pub const NS_FLASH_START: u32 = 0x0008_0000;

pub const NS_FLASH_END: u32 = 0x0010_0000;

pub const NS_RAM_START: u32 = 0x2002_0000;

pub const NS_RAM_END: u32 = 0x2004_0000;

/// Terminal outcome of the boot sequence, handled exhaustively by the
/// caller: either control permanently left for the non-secure image, or
/// the sequence aborted before anything irreversible, or (asynchronously,
/// never from `run_boot` on a fresh machine) the fault trap fired.
#[derive(Clone, Copy, PartialEq, Eq, Structural, Debug)]
pub enum BootOutcome {
    Transitioned(TransitionTarget),
    ConfigurationError,
    HardwareConflict,
    Faulted,
}

/// A boundary window the strict boot path accepts for a region table: it
/// does not wrap, starts at or above the class base, and both edges sit on
/// the region grid. (The partition engine itself also accepts unaligned
/// windows, classifying lossily by region starts; the boot path refuses
/// them outright.)
pub open spec fn spec_window_valid(t: RegionTable, w: AddressRange) -> bool {
    &&& w.wf()
    &&& t.class_base <= w.start
    &&& w.spec_aligned_to(t.class_base as int, t.region_size as int)
}

/// Everything the boot sequence validates, stated over the pre-boot
/// register file: both windows strictly valid, no locked region holding a
/// conflicting value, no pending access-error event, at least the one
/// peripheral to attribute, and the transition gate satisfied by the
/// classification the windows will program.
pub open spec fn spec_boot_accepted(
    spu0: SpuState,
    fw: AddressRange,
    rw: AddressRange,
    cfg: TransitionConfig,
) -> bool {
    &&& spec_window_valid(spu0.flash, fw)
    &&& spec_window_valid(spu0.ram, rw)
    &&& locked_regions_compatible(spu0.flash, fw, true)
    &&& locked_regions_compatible(spu0.ram, rw, false)
    &&& spu0.flash_access_error == 0
    &&& spu0.ram_access_error == 0
    &&& spu0.gpio_ports.len() > 0
    &&& cfg.non_secure_entry_base + 8 <= 0x1_0000_0000
    &&& spec_window_class(spu0.flash, fw, cfg.non_secure_entry_base as int)
        is NonSecure
    &&& spec_window_class(spu0.ram, rw, cfg.non_secure_stack_pointer as int)
        is NonSecure
}

/// Runs the one-shot boot sequence on the given capability values, in the
/// required order: attribution bypass strictly before any region write,
/// flash then RAM partitioning with their access-error checks, peripheral
/// attribution (the first port non-secure), core configuration with the
/// fault trap armed, then the validated one-way transition.
///
/// The sequence transitions exactly when the machine is fresh and the
/// whole configuration is acceptable (`spec_boot_accepted`); any detected
/// misconfiguration aborts before the irreversible call, and nothing is
/// ever retried.
pub fn run_boot(
    spu: &mut SpuState,
    core: &mut CoreRegs,
    m: &mut StateMachine,
    flash_window: &AddressRange,
    ram_window: &AddressRange,
    cfg: &TransitionConfig,
) -> (r: BootOutcome)
    requires
        old(spu).wf(),
    ensures
        final(spu).wf(),
        r is Transitioned <==> old(m).state is Init && spec_boot_accepted(*old(spu),
            *flash_window, *ram_window, *cfg),
        r is Transitioned ==> ({
            &&& r == BootOutcome::Transitioned(spec_target(*cfg))
            &&& final(m).state is Transitioned
            &&& final(spu).legacy_attribution_bypassed
            &&& crate::region::partitioned(final(spu).flash, *flash_window, true)
            &&& crate::region::partitioned(final(spu).ram, *ram_window, false)
            &&& final(spu).gpio_ports@ == old(spu).gpio_ports@.update(0,
                crate::types::SecurityAttribute::NonSecure)
            &&& *final(core) == (CoreRegs {
                transfer_barrier_done: true,
                ..spec_core_configured(*old(core), *cfg)
            })
        }),
        old(m).state is Init && !(r is Transitioned) ==> !(final(m).state is Transitioned),
        r is HardwareConflict ==> old(spu).flash_access_error != 0 || old(spu).ram_access_error
            != 0,
        r is Faulted <==> old(m).state is Faulted,
        !(old(m).state is Init) ==> ({
            &&& *final(spu) == *old(spu)
            &&& *final(core) == *old(core)
            &&& *final(m) == *old(m)
        }),
{
    match m.state {
        BootState::Init => {},
        BootState::Faulted => {
            return BootOutcome::Faulted;
        },
        _ => {
            return BootOutcome::ConfigurationError;
        },
    }

    // Strict boundary validation: an invalid or misaligned window is a
    // configuration error, detected before anything is programmed.
    if !(flash_window.start <= flash_window.end && spu.flash.class_base <= flash_window.start) {
        return BootOutcome::ConfigurationError;
    }
    if !flash_window.aligned_to(spu.flash.class_base, spu.flash.region_size) {
        return BootOutcome::ConfigurationError;
    }
    if !(ram_window.start <= ram_window.end && spu.ram.class_base <= ram_window.start) {
        return BootOutcome::ConfigurationError;
    }
    if !ram_window.aligned_to(spu.ram.class_base, spu.ram.region_size) {
        return BootOutcome::ConfigurationError;
    }

    bypass_legacy_attribution(spu);

    match config_flash(spu, flash_window) {
        Ok(()) => {},
        Err(e) => {
            return match e {
                crate::types::BootError::HardwareConflict => BootOutcome::HardwareConflict,
                _ => BootOutcome::ConfigurationError,
            };
        },
    }
    match config_ram(spu, ram_window) {
        Ok(()) => {},
        Err(e) => {
            return match e {
                crate::types::BootError::HardwareConflict => BootOutcome::HardwareConflict,
                _ => BootOutcome::ConfigurationError,
            };
        },
    }
    match config_peripherals(spu, 0, true) {
        Ok(()) => {},
        Err(_) => {
            return BootOutcome::ConfigurationError;
        },
    }
    match m.mark_regions_configured() {
        Ok(()) => {},
        Err(_) => {
            return BootOutcome::ConfigurationError;
        },
    }
    match m.configure_core(core, cfg) {
        Ok(()) => {},
        Err(_) => {
            return BootOutcome::ConfigurationError;
        },
    }

    proof {
        lemma_classify_after_partition(old(spu).flash, spu.flash, *flash_window, true,
            cfg.non_secure_entry_base as int);
        lemma_classify_after_partition(old(spu).ram, spu.ram, *ram_window, false,
            cfg.non_secure_stack_pointer as int);
    }

    match jump_ns(m, core, &spu.flash, &spu.ram, cfg) {
        Ok(target) => BootOutcome::Transitioned(target),
        Err(_) => BootOutcome::ConfigurationError,
    }
}

} // verus!
