use nrf_secure::boot::{
    run_boot, BootOutcome, FLASH_CLASS_BASE, FLASH_REGION_COUNT, FLASH_REGION_SIZE,
    NS_FLASH_END, NS_FLASH_START, NS_RAM_END, NS_RAM_START, RAM_CLASS_BASE, RAM_REGION_COUNT,
    RAM_REGION_SIZE,
};
use nrf_secure::region::RegionTable;
use nrf_secure::spu::{bypass_legacy_attribution, config_flash, config_peripherals, SpuState};
use nrf_secure::transition::{BootState, CoreRegs, StateMachine, TransitionConfig};
use nrf_secure::types::{AddressRange, BootError, SecurityAttribute};

fn fresh_spu() -> SpuState {
    SpuState {
        flash: RegionTable::new(FLASH_CLASS_BASE, FLASH_REGION_SIZE, FLASH_REGION_COUNT),
        ram: RegionTable::new(RAM_CLASS_BASE, RAM_REGION_SIZE, RAM_REGION_COUNT),
        flash_access_error: 0,
        ram_access_error: 0,
        gpio_ports: vec![SecurityAttribute::Secure],
        legacy_attribution_bypassed: false,
    }
}

fn reset_core() -> CoreRegs {
    CoreRegs {
        msp_ns: 0,
        vtor_ns: 0,
        prioritize_secure_exceptions: false,
        nonbanked_exceptions_to_nonsecure: false,
        reset_request_allowed: false,
        fault_trap_enabled: false,
        trap_arm_barrier_done: false,
        transfer_barrier_done: false,
    }
}

fn flash_window() -> AddressRange {
    AddressRange { start: NS_FLASH_START, end: NS_FLASH_END }
}

fn ram_window() -> AddressRange {
    AddressRange { start: NS_RAM_START, end: NS_RAM_END }
}

fn config() -> TransitionConfig {
    TransitionConfig {
        non_secure_entry_base: NS_FLASH_START,
        non_secure_stack_pointer: 0x2003_0000,
        vector_table_base: NS_FLASH_START,
        prioritize_secure_exceptions: true,
        reset_request_allowed: false,
    }
}

#[test]
fn full_boot_transitions() {
    let mut spu = fresh_spu();
    let mut core = reset_core();
    let mut m = StateMachine::new();
    let r = run_boot(&mut spu, &mut core, &mut m, &flash_window(), &ram_window(), &config());
    match r {
        BootOutcome::Transitioned(target) => {
            assert_eq!(target.vector_table_base, NS_FLASH_START);
            assert_eq!(target.initial_stack_pointer_slot, NS_FLASH_START);
            assert_eq!(target.reset_vector_slot, NS_FLASH_START + 4);
        }
        other => panic!("expected a transition, got {:?}", other),
    }
    assert_eq!(m.state, BootState::Transitioned);
    assert!(spu.legacy_attribution_bypassed);
    assert_eq!(spu.gpio_ports[0], SecurityAttribute::NonSecure);
    assert_eq!(spu.flash.regions[16].security, SecurityAttribute::NonSecure);
    assert!(spu.flash.regions[16].locked);
    assert_eq!(spu.ram.regions[15].security, SecurityAttribute::Secure);
    assert!(!spu.ram.regions[15].locked);
    assert!(core.fault_trap_enabled);
    assert!(core.trap_arm_barrier_done);
    assert!(core.transfer_barrier_done);
    assert_eq!(core.msp_ns, 0x2003_0000);
    assert_eq!(core.vtor_ns, NS_FLASH_START);
}

#[test]
fn boot_reports_hardware_conflict_on_access_error_flag() {
    let mut spu = fresh_spu();
    spu.flash_access_error = 1;
    let mut core = reset_core();
    let mut m = StateMachine::new();
    let r = run_boot(&mut spu, &mut core, &mut m, &flash_window(), &ram_window(), &config());
    assert_eq!(r, BootOutcome::HardwareConflict);
    assert_ne!(m.state, BootState::Transitioned);
}

#[test]
fn boot_refuses_misaligned_flash_window() {
    let mut spu = fresh_spu();
    let mut core = reset_core();
    let mut m = StateMachine::new();
    let w = AddressRange { start: NS_FLASH_START + 1, end: NS_FLASH_END };
    let r = run_boot(&mut spu, &mut core, &mut m, &w, &ram_window(), &config());
    assert_eq!(r, BootOutcome::ConfigurationError);
    assert_eq!(m.state, BootState::Init);
}

#[test]
fn boot_refuses_wrapping_window() {
    let mut spu = fresh_spu();
    let mut core = reset_core();
    let mut m = StateMachine::new();
    let w = AddressRange { start: NS_FLASH_END, end: NS_FLASH_START };
    let r = run_boot(&mut spu, &mut core, &mut m, &w, &ram_window(), &config());
    assert_eq!(r, BootOutcome::ConfigurationError);
}

#[test]
fn boot_refuses_secure_entry_address() {
    let mut spu = fresh_spu();
    let mut core = reset_core();
    let mut m = StateMachine::new();
    let mut cfg = config();
    cfg.non_secure_entry_base = 0x0004_0000; // secure flash
    let r = run_boot(&mut spu, &mut core, &mut m, &flash_window(), &ram_window(), &cfg);
    assert_eq!(r, BootOutcome::ConfigurationError);
    assert_ne!(m.state, BootState::Transitioned);
}

#[test]
fn boot_on_faulted_machine_reports_fault() {
    let mut spu = fresh_spu();
    let mut core = reset_core();
    let mut m = StateMachine::new();
    m.fault();
    let r = run_boot(&mut spu, &mut core, &mut m, &flash_window(), &ram_window(), &config());
    assert_eq!(r, BootOutcome::Faulted);
    assert_eq!(m.fault_entries, 1);
}

#[test]
fn boot_without_peripheral_registers_is_refused() {
    let mut spu = fresh_spu();
    spu.gpio_ports = vec![];
    let mut core = reset_core();
    let mut m = StateMachine::new();
    let r = run_boot(&mut spu, &mut core, &mut m, &flash_window(), &ram_window(), &config());
    assert_eq!(r, BootOutcome::ConfigurationError);
}

#[test]
fn bypass_is_idempotent_and_touches_nothing_else() {
    let mut spu = fresh_spu();
    bypass_legacy_attribution(&mut spu);
    assert!(spu.legacy_attribution_bypassed);
    let flash_before = spu.flash.regions.clone();
    bypass_legacy_attribution(&mut spu);
    assert!(spu.legacy_attribution_bypassed);
    assert_eq!(spu.flash.regions, flash_before);
    assert_eq!(spu.gpio_ports, vec![SecurityAttribute::Secure]);
}

#[test]
fn config_flash_reports_conflict_but_programs_table() {
    let mut spu = fresh_spu();
    spu.flash_access_error = 0xA;
    let r = config_flash(&mut spu, &flash_window());
    assert_eq!(r, Err(BootError::HardwareConflict));
}

#[test]
fn config_peripherals_updates_attribute_and_rejects_bad_id() {
    let mut spu = fresh_spu();
    assert_eq!(config_peripherals(&mut spu, 0, true), Ok(()));
    assert_eq!(spu.gpio_ports[0], SecurityAttribute::NonSecure);
    assert_eq!(config_peripherals(&mut spu, 0, false), Ok(()));
    assert_eq!(spu.gpio_ports[0], SecurityAttribute::Secure);
    assert_eq!(
        config_peripherals(&mut spu, 5, true),
        Err(BootError::ConfigurationError)
    );
}
