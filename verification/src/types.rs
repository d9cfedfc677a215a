//! Shared value types: security attributes, classification results, the
//! error taxonomy, and aligned address windows.

use vstd::prelude::*;

verus! {

/// Security attribute a memory region or peripheral is programmed with.
#[derive(Clone, Copy, PartialEq, Eq, Structural, Debug)]
pub enum SecurityAttribute {
    Secure,
    NonSecure,
}

/// Result of classifying an address or a probe: like `SecurityAttribute`,
/// plus the call-gate attribute that permits a controlled secure-to-non-secure
/// entry.
#[derive(Clone, Copy, PartialEq, Eq, Structural, Debug)]
pub enum SecurityClassification {
    Secure,
    NonSecure,
    NonSecureCallable,
}

/// Everything that can abort the boot sequence or fire after it.
///
/// * `ConfigurationError`: an invalid or misaligned boundary, an attempt to
///   reprogram a locked region differently, or a validated entry/stack
///   address that classifies as `Secure`; always detected before the
///   irreversible transition.
/// * `HardwareConflict`: a nonzero access-error event flag observed after
///   programming a region table.
/// * `SecurityViolation`: the fault trap fired after the core was
///   configured; terminal.
#[derive(Clone, Copy, PartialEq, Eq, Structural, Debug)]
pub enum BootError {
    ConfigurationError,
    HardwareConflict,
    SecurityViolation,
}

/// A contiguous half-open address window `[start, end)`.
#[derive(Clone, Copy, PartialEq, Eq, Structural, Debug)]
pub struct AddressRange {
    pub start: u32,
    pub end: u32,
}

impl AddressRange {
    /// A window is valid when it does not wrap.
    pub open spec fn wf(self) -> bool {
        self.start <= self.end
    }

    /// Membership of an address in the half-open window.
    pub open spec fn spec_contains(self, a: int) -> bool {
        self.start <= a < self.end
    }

    /// Both edges of the window fall on the region grid that starts at
    /// `class_base` and repeats every `region_size` bytes.
    pub open spec fn spec_aligned_to(self, class_base: int, region_size: int) -> bool {
        &&& (self.start - class_base) % region_size == 0
        &&& (self.end - class_base) % region_size == 0
    }

    /// Runtime membership test matching `spec_contains`.
    pub fn contains(&self, a: u32) -> (r: bool)
        ensures
            r == self.spec_contains(a as int),
    {
        self.start <= a && a < self.end
    }

    /// Runtime alignment test matching `spec_aligned_to`, for grids whose
    /// base does not exceed the window start.
    pub fn aligned_to(&self, class_base: u32, region_size: u32) -> (r: bool)
        requires
            region_size > 0,
            class_base <= self.start,
            class_base <= self.end,
        ensures
            r == self.spec_aligned_to(class_base as int, region_size as int),
    {
        (self.start - class_base) % region_size == 0 && (self.end - class_base) % region_size == 0
    }
}

} // verus!
