//! The state transition routine: the boot state machine that configures the
//! core registers for the non-secure state and performs the validated,
//! irreversible hand-off, plus the terminal fault path.

use vstd::prelude::*;

use crate::query::spec_classify;
use crate::region::RegionTable;
use crate::types::BootError;

verus! {

/// What the secure monitor wants the non-secure world to start with.
#[derive(Clone, Copy, PartialEq, Eq, Structural, Debug)]
pub struct TransitionConfig {
    pub non_secure_entry_base: u32,
    pub non_secure_stack_pointer: u32,
    pub vector_table_base: u32,
    /// Exception priority policy: secure exceptions prioritized over
    /// non-secure ones.
    pub prioritize_secure_exceptions: bool,
    /// Whether non-secure firmware may issue a system reset request.
    pub reset_request_allowed: bool,
}

/// The core control registers the transition routine owns, modeled as a
/// capability value. The two barrier flags record the explicit ordering
/// points: one after arming the fault trap, one before the one-way call,
/// guaranteeing all permission writes are globally visible first.
#[derive(Clone, Copy, PartialEq, Eq, Structural, Debug)]
pub struct CoreRegs {
    pub msp_ns: u32,
    pub vtor_ns: u32,
    pub prioritize_secure_exceptions: bool,
    pub nonbanked_exceptions_to_nonsecure: bool,
    pub reset_request_allowed: bool,
    pub fault_trap_enabled: bool,
    pub trap_arm_barrier_done: bool,
    pub transfer_barrier_done: bool,
}

/// Boot progress. `Transitioned` and `Faulted` are terminal: after
/// `Transitioned` the secure side never again executes application logic,
/// and `Faulted` only halts.
#[derive(Clone, Copy, PartialEq, Eq, Structural, Debug)]
pub enum BootState {
    Init,
    RegionsConfigured,
    CoreConfigured,
    Transitioned,
    Faulted,
}

/// The boot state machine, with a count of fault-handler entries so the
/// one-entry-per-violation expectation is checkable.
#[derive(Clone, Copy, PartialEq, Eq, Structural, Debug)]
pub struct StateMachine {
    pub state: BootState,
    pub fault_entries: u32,
}

/// The produced entry-point ABI contract toward the non-secure image: the
/// word at `vector_table_base + 0` is the initial non-secure stack pointer
/// and the word at `vector_table_base + 4` is the reset handler entry. The
/// two slot fields are those two addresses; the external layer reads the
/// words there and must not deviate from this layout.
#[derive(Clone, Copy, PartialEq, Eq, Structural, Debug)]
pub struct TransitionTarget {
    pub vector_table_base: u32,
    pub initial_stack_pointer_slot: u32,
    pub reset_vector_slot: u32,
}

/// The core register value that leaving `RegionsConfigured` programs: stack
/// pointer and vector table from the configuration, secure-over-non-secure
/// exception priority per policy, non-banked exceptions routed non-secure,
/// reset gating per policy, the security-violation trap enabled, and the
/// barrier that arms the trap issued.
pub open spec fn spec_core_configured(c0: CoreRegs, cfg: TransitionConfig) -> CoreRegs {
    CoreRegs {
        msp_ns: cfg.non_secure_stack_pointer,
        vtor_ns: cfg.vector_table_base,
        prioritize_secure_exceptions: cfg.prioritize_secure_exceptions,
        nonbanked_exceptions_to_nonsecure: true,
        reset_request_allowed: cfg.reset_request_allowed,
        fault_trap_enabled: true,
        trap_arm_barrier_done: true,
        transfer_barrier_done: c0.transfer_barrier_done,
    }
}

/// The validation gate before the irreversible transition: the entry base
/// must leave room for the two ABI words, the entry must classify
/// `NonSecure` (or the entry gate itself `NonSecureCallable`) under the
/// just-programmed flash table, and the configured stack pointer must
/// classify `NonSecure` under the RAM table.
pub open spec fn spec_gate_ok(flash: RegionTable, ram: RegionTable, cfg: TransitionConfig) -> bool {
    &&& cfg.non_secure_entry_base + 8 <= 0x1_0000_0000
    &&& (spec_classify(flash, cfg.non_secure_entry_base as int) is NonSecure || spec_classify(
        flash,
        cfg.non_secure_entry_base as int,
    ) is NonSecureCallable)
    &&& spec_classify(ram, cfg.non_secure_stack_pointer as int) is NonSecure
}

/// The target the one-way call leaves for the external layer, fixing the
/// ABI offsets: initial stack pointer word at `base + 0`, reset handler
/// word at `base + 4`.
pub open spec fn spec_target(cfg: TransitionConfig) -> TransitionTarget {
    TransitionTarget {
        vector_table_base: cfg.non_secure_entry_base,
        initial_stack_pointer_slot: cfg.non_secure_entry_base,
        reset_vector_slot: (cfg.non_secure_entry_base + 4) as u32,
    }
}

impl StateMachine {
    /// Fresh machine at power-on.
    pub fn new() -> (m: StateMachine)
        ensures
            m.state is Init,
            m.fault_entries == 0,
    {
        StateMachine { state: BootState::Init, fault_entries: 0 }
    }

    /// Records that the region partition engine and the peripheral
    /// configurator completed with no error; only valid once, from `Init`.
    pub fn mark_regions_configured(&mut self) -> (r: Result<(), BootError>)
        ensures
            final(self).fault_entries == old(self).fault_entries,
            old(self).state is Init ==> r is Ok && final(self).state is RegionsConfigured,
            !(old(self).state is Init) ==> r == Err::<(), BootError>(
                BootError::ConfigurationError,
            ) && *final(self) == *old(self),
    {
        match self.state {
            BootState::Init => {
                self.state = BootState::RegionsConfigured;
                Ok(())
            },
            _ => Err(BootError::ConfigurationError),
        }
    }

    /// Leaves `RegionsConfigured` for `CoreConfigured` by programming the
    /// core registers for the non-secure state, enabling the
    /// security-violation fault trap, and issuing the barrier that makes
    /// the trap armed before any non-secure instruction can execute. In any
    /// other state it refuses and changes nothing.
    pub fn configure_core(&mut self, core: &mut CoreRegs, cfg: &TransitionConfig) -> (r: Result<
        (),
        BootError,
    >)
        ensures
            final(self).fault_entries == old(self).fault_entries,
            old(self).state is RegionsConfigured ==> r is Ok && final(self).state
                is CoreConfigured && *final(core) == spec_core_configured(*old(core), *cfg),
            !(old(self).state is RegionsConfigured) ==> r == Err::<(), BootError>(
                BootError::ConfigurationError,
            ) && *final(self) == *old(self) && *final(core) == *old(core),
    {
        match self.state {
            BootState::RegionsConfigured => {
                core.msp_ns = cfg.non_secure_stack_pointer;
                core.vtor_ns = cfg.vector_table_base;
                core.prioritize_secure_exceptions = cfg.prioritize_secure_exceptions;
                core.nonbanked_exceptions_to_nonsecure = true;
                core.reset_request_allowed = cfg.reset_request_allowed;
                core.fault_trap_enabled = true;
                core.trap_arm_barrier_done = true;
                self.state = BootState::CoreConfigured;
                Ok(())
            },
            _ => Err(BootError::ConfigurationError),
        }
    }

    /// The asynchronous terminal fault path: the hardware security-violation
    /// trap fired. Counts the entry and moves to `Faulted`; recovery is
    /// impossible by design, so the caller's only job afterwards is to halt.
    pub fn fault(&mut self) -> (r: BootError)
        requires
            old(self).fault_entries < u32::MAX,
        ensures
            final(self).state is Faulted,
            final(self).fault_entries == old(self).fault_entries + 1,
            r == BootError::SecurityViolation,
    {
        self.state = BootState::Faulted;
        self.fault_entries = self.fault_entries + 1;
        BootError::SecurityViolation
    }
}

/// The one-way transition out of `CoreConfigured`.
///
/// The validation gate runs first: the configured entry address and stack
/// pointer must classify non-secure under the just-programmed region tables
/// (`spec_gate_ok`); otherwise the routine aborts with `ConfigurationError`
/// and does not transition — it never proceeds on an unchecked address. In
/// particular, an entry address that classifies `Secure` is always refused.
///
/// On success the transfer barrier is recorded (all region and permission
/// writes must be globally visible before the control transfer), the
/// machine becomes `Transitioned`, and the returned target names the two
/// ABI words for the external layer to load and call; that call never
/// returns.
pub fn jump_ns(
    m: &mut StateMachine,
    core: &mut CoreRegs,
    flash: &RegionTable,
    ram: &RegionTable,
    cfg: &TransitionConfig,
) -> (r: Result<TransitionTarget, BootError>)
    requires
        flash.wf(),
        ram.wf(),
    ensures
        final(m).fault_entries == old(m).fault_entries,
        !(old(m).state is CoreConfigured) ==> r == Err::<TransitionTarget, BootError>(
            BootError::ConfigurationError,
        ) && *final(m) == *old(m) && *final(core) == *old(core),
        old(m).state is CoreConfigured && spec_gate_ok(*flash, *ram, *cfg) ==> r == Ok::<
            TransitionTarget,
            BootError,
        >(spec_target(*cfg)) && final(m).state is Transitioned && *final(core) == (CoreRegs {
            transfer_barrier_done: true,
            ..*old(core)
        }),
        old(m).state is CoreConfigured && !spec_gate_ok(*flash, *ram, *cfg) ==> r == Err::<
            TransitionTarget,
            BootError,
        >(BootError::ConfigurationError) && *final(m) == *old(m) && *final(core) == *old(core),
        spec_classify(*flash, cfg.non_secure_entry_base as int) is Secure ==> r == Err::<
            TransitionTarget,
            BootError,
        >(BootError::ConfigurationError) && *final(m) == *old(m),
{
    match m.state {
        BootState::CoreConfigured => {
            if cfg.non_secure_entry_base > 0xFFFF_FFF8u32 {
                return Err(BootError::ConfigurationError);
            }
            let entry_class = crate::query::query(flash, cfg.non_secure_entry_base);
            let entry_ok = match entry_class {
                crate::types::SecurityClassification::NonSecure => true,
                crate::types::SecurityClassification::NonSecureCallable => true,
                crate::types::SecurityClassification::Secure => false,
            };
            let stack_class = crate::query::query(ram, cfg.non_secure_stack_pointer);
            let stack_ok = match stack_class {
                crate::types::SecurityClassification::NonSecure => true,
                _ => false,
            };
            if entry_ok && stack_ok {
                core.transfer_barrier_done = true;
                m.state = BootState::Transitioned;
                Ok(TransitionTarget {
                    vector_table_base: cfg.non_secure_entry_base,
                    initial_stack_pointer_slot: cfg.non_secure_entry_base,
                    reset_vector_slot: cfg.non_secure_entry_base + 4,
                })
            } else {
                Err(BootError::ConfigurationError)
            }
        },
        _ => Err(BootError::ConfigurationError),
    }
}

} // verus!
