//! The system protection unit's register file, modeled as an explicitly
//! passed capability value, and the configuration steps that program it:
//! the legacy-attribution bypass, the flash and RAM partition runs, and the
//! per-peripheral security attribute.

use vstd::prelude::*;

use crate::region::{locked_regions_compatible, partition, partitioned, RegionTable};
use crate::types::{AddressRange, BootError, SecurityAttribute};

verus! {

/// The permission-register file the boot path owns exclusively: both region
/// tables, the hardware access-error event flags that programming may
/// raise, the per-peripheral attribute registers, and the legacy
/// coarse-attribution control.
///
/// Holding it as a value keeps every register write an explicit, verified
/// update; a thin external layer mirrors the final value onto the real
/// registers.
pub struct SpuState {
    pub flash: RegionTable,
    pub ram: RegionTable,
    pub flash_access_error: u32,
    pub ram_access_error: u32,
    pub gpio_ports: Vec<SecurityAttribute>,
    pub legacy_attribution_bypassed: bool,
}

impl SpuState {
    pub open spec fn wf(self) -> bool {
        &&& self.flash.wf()
        &&& self.ram.wf()
    }
}

/// Puts the legacy coarse attribution mechanism into its all-non-secure
/// pass-through mode, ceding control to the region tables. Idempotent, and
/// touches nothing else; it must run strictly before any region
/// programming, which the boot routine's body orders.
pub fn bypass_legacy_attribution(spu: &mut SpuState)
    ensures
        final(spu).legacy_attribution_bypassed,
        final(spu).flash == old(spu).flash,
        final(spu).ram == old(spu).ram,
        final(spu).flash_access_error == old(spu).flash_access_error,
        final(spu).ram_access_error == old(spu).ram_access_error,
        final(spu).gpio_ports == old(spu).gpio_ports,
{
    spu.legacy_attribution_bypassed = true;
}

/// Partitions the flash region table against the non-secure flash window,
/// locking every flash region: flash permissions must be immutable once
/// set, so runtime tampering is impossible until the next power-on reset.
///
/// After programming, the flash access-error event flag is consulted: a
/// nonzero flag means a conflicting internal transaction occurred during
/// programming and is reported as `HardwareConflict`, never ignored.
pub fn config_flash(spu: &mut SpuState, boundary: &AddressRange) -> (r: Result<(), BootError>)
    requires
        old(spu).flash.wf(),
    ensures
        final(spu).flash.wf(),
        final(spu).flash.class_base == old(spu).flash.class_base,
        final(spu).flash.region_size == old(spu).flash.region_size,
        final(spu).flash.regions.len() == old(spu).flash.regions.len(),
        final(spu).ram == old(spu).ram,
        final(spu).flash_access_error == old(spu).flash_access_error,
        final(spu).ram_access_error == old(spu).ram_access_error,
        final(spu).gpio_ports == old(spu).gpio_ports,
        final(spu).legacy_attribution_bypassed == old(spu).legacy_attribution_bypassed,
        r is Ok <==> locked_regions_compatible(old(spu).flash, *boundary, true) && old(
            spu,
        ).flash_access_error == 0,
        locked_regions_compatible(old(spu).flash, *boundary, true) ==> partitioned(
            final(spu).flash,
            *boundary,
            true,
        ),
        !locked_regions_compatible(old(spu).flash, *boundary, true) ==> r == Err::<(), BootError>(
            BootError::ConfigurationError,
        ) && final(spu).flash == old(spu).flash,
        locked_regions_compatible(old(spu).flash, *boundary, true) && old(spu).flash_access_error
            != 0 ==> r == Err::<(), BootError>(BootError::HardwareConflict),
{
    match partition(&mut spu.flash, boundary, true) {
        Ok(()) => {
            let err_flag = spu.flash_access_error;
            if err_flag != 0 {
                Err(BootError::HardwareConflict)
            } else {
                Ok(())
            }
        },
        Err(e) => Err(e),
    }
}

/// Partitions the RAM region table against the non-secure RAM window. RAM
/// regions are deliberately left unlocked: trusted services may need to
/// adjust them later. The RAM access-error event flag is consulted exactly
/// as for flash.
pub fn config_ram(spu: &mut SpuState, boundary: &AddressRange) -> (r: Result<(), BootError>)
    requires
        old(spu).ram.wf(),
    ensures
        final(spu).ram.wf(),
        final(spu).ram.class_base == old(spu).ram.class_base,
        final(spu).ram.region_size == old(spu).ram.region_size,
        final(spu).ram.regions.len() == old(spu).ram.regions.len(),
        final(spu).flash == old(spu).flash,
        final(spu).flash_access_error == old(spu).flash_access_error,
        final(spu).ram_access_error == old(spu).ram_access_error,
        final(spu).gpio_ports == old(spu).gpio_ports,
        final(spu).legacy_attribution_bypassed == old(spu).legacy_attribution_bypassed,
        r is Ok <==> locked_regions_compatible(old(spu).ram, *boundary, false) && old(
            spu,
        ).ram_access_error == 0,
        locked_regions_compatible(old(spu).ram, *boundary, false) ==> partitioned(
            final(spu).ram,
            *boundary,
            false,
        ),
        !locked_regions_compatible(old(spu).ram, *boundary, false) ==> r == Err::<(), BootError>(
            BootError::ConfigurationError,
        ) && final(spu).ram == old(spu).ram,
        locked_regions_compatible(old(spu).ram, *boundary, false) && old(spu).ram_access_error != 0
            ==> r == Err::<(), BootError>(BootError::HardwareConflict),
{
    match partition(&mut spu.ram, boundary, false) {
        Ok(()) => {
            let err_flag = spu.ram_access_error;
            if err_flag != 0 {
                Err(BootError::HardwareConflict)
            } else {
                Ok(())
            }
        },
        Err(e) => Err(e),
    }
}

/// Assigns the security attribute of one peripheral instance by writing its
/// per-peripheral attribute register. A peripheral identifier outside the
/// register file is refused as `ConfigurationError`.
pub fn config_peripherals(spu: &mut SpuState, peripheral_id: usize, non_secure: bool) -> (r:
    Result<(), BootError>)
    ensures
        final(spu).flash == old(spu).flash,
        final(spu).ram == old(spu).ram,
        final(spu).flash_access_error == old(spu).flash_access_error,
        final(spu).ram_access_error == old(spu).ram_access_error,
        final(spu).legacy_attribution_bypassed == old(spu).legacy_attribution_bypassed,
        peripheral_id < old(spu).gpio_ports.len() ==> r is Ok && final(spu).gpio_ports@ == old(
            spu,
        ).gpio_ports@.update(
            peripheral_id as int,
            if non_secure {
                SecurityAttribute::NonSecure
            } else {
                SecurityAttribute::Secure
            },
        ),
        peripheral_id >= old(spu).gpio_ports.len() ==> r == Err::<(), BootError>(
            BootError::ConfigurationError,
        ) && final(spu).gpio_ports == old(spu).gpio_ports,
{
    if peripheral_id < spu.gpio_ports.len() {
        let attr = if non_secure {
            SecurityAttribute::NonSecure
        } else {
            SecurityAttribute::Secure
        };
        spu.gpio_ports.set(peripheral_id, attr);
        Ok(())
    } else {
        Err(BootError::ConfigurationError)
    }
}

} // verus!
