//! The permission query utility: address-based classification lookup over a
//! programmed region table, and the decoder for the privileged
//! address-classification probe.

use vstd::prelude::*;
use vstd::arithmetic::div_mod::{
    lemma_fundamental_div_mod, lemma_mod_bound, lemma_mod_multiples_basic, lemma_mod_is_zero,
    lemma_multiply_divide_lt, lemma_small_mod, lemma_sub_mod_noop,
};

use crate::region::{partitioned, spec_region_base, RegionTable};
use crate::types::{AddressRange, SecurityAttribute, SecurityClassification};

verus! {

/// Index of the region slot whose window contains address `a`.
pub open spec fn spec_region_index(t: RegionTable, a: int) -> int {
    (a - t.class_base) / (t.region_size as int)
}

/// Whether address `a` falls inside the table's covered class window.
pub open spec fn spec_covers(t: RegionTable, a: int) -> bool {
    t.class_base <= a < t.class_base + t.regions.len() * t.region_size
}

/// Classification of an address under a region table: the containing
/// region's attribute, or `Secure` for anything outside the covered window.
pub open spec fn spec_classify(t: RegionTable, a: int) -> SecurityClassification {
    if spec_covers(t, a) {
        match t.regions[spec_region_index(t, a)].security {
            SecurityAttribute::Secure => SecurityClassification::Secure,
            SecurityAttribute::NonSecure => SecurityClassification::NonSecure,
        }
    } else {
        SecurityClassification::Secure
    }
}

/// Read-only classification lookup for verification and diagnostics: not on
/// the boot-critical path. Region tables carry no call-gate attribute, so
/// the result is never `NonSecureCallable`.
pub fn query(t: &RegionTable, address: u32) -> (r: SecurityClassification)
    requires
        t.wf(),
    ensures
        r == spec_classify(*t, address as int),
{
    if address < t.class_base {
        return SecurityClassification::Secure;
    }
    let offset = address - t.class_base;
    let index = (offset / t.region_size) as usize;
    proof {
        lemma_covers_iff_index_in_range(*t, address as int);
    }
    if index < t.regions.len() {
        match t.regions[index].security {
            SecurityAttribute::Secure => SecurityClassification::Secure,
            SecurityAttribute::NonSecure => SecurityClassification::NonSecure,
        }
    } else {
        SecurityClassification::Secure
    }
}

/// For an address at or above the class base, the containing region's index
/// is in range exactly when the table covers the address.
proof fn lemma_covers_iff_index_in_range(t: RegionTable, a: int)
    requires
        t.wf(),
        a >= t.class_base,
    ensures
        0 <= spec_region_index(t, a),
        spec_covers(t, a) <==> spec_region_index(t, a) < t.regions.len(),
{
    let sz = t.region_size as int;
    let off = a - t.class_base;
    let n = t.regions.len() as int;
    lemma_fundamental_div_mod(off, sz);
    lemma_mod_bound(off, sz);
    assert(off / sz >= 0) by (nonlinear_arith)
        requires off >= 0, sz > 0;
    if off < n * sz {
        lemma_multiply_divide_lt(off, sz, n);
        assert(sz * n == n * sz) by (nonlinear_arith);
    }
    if off / sz < n {
        assert(sz * (off / sz) + sz <= sz * n) by (nonlinear_arith)
            requires off / sz < n, sz > 0;
        assert(sz * n == n * sz) by (nonlinear_arith);
    }
}

/// Classification law: under a table partitioned for a window whose edges
/// sit on the region grid, every covered address classifies `NonSecure`
/// exactly when it lies inside the window, and `Secure` otherwise.
/// (Addresses outside the covered class window classify `Secure` by
/// definition of `spec_classify`.)
pub proof fn lemma_query_matches_window(t: RegionTable, w: AddressRange, lock: bool, a: int)
    requires
        t.wf(),
        partitioned(t, w, lock),
        w.wf(),
        w.spec_aligned_to(t.class_base as int, t.region_size as int),
        spec_covers(t, a),
    ensures
        spec_classify(t, a) == if w.spec_contains(a) {
            SecurityClassification::NonSecure
        } else {
            SecurityClassification::Secure
        },
{
    let cb = t.class_base as int;
    let sz = t.region_size as int;
    let i = spec_region_index(t, a);
    let off = a - cb;
    lemma_covers_iff_index_in_range(t, a);
    lemma_fundamental_div_mod(off, sz);
    lemma_mod_bound(off, sz);
    let base = spec_region_base(cb, sz, i);
    assert(base == cb + i * sz);
    assert(sz * i == i * sz) by (nonlinear_arith);
    assert(base <= a < base + sz);
    lemma_mod_multiples_basic(i, sz);
    assert((base - cb) % sz == 0);
    lemma_window_membership_on_grid(cb, sz, w, base, a);
    assert(t.regions[i] == crate::region::target_descriptor(cb, sz, w, lock, i));
}

/// A window whose edges sit on the region grid contains a region's base
/// address exactly when it contains every address of that region.
proof fn lemma_window_membership_on_grid(cb: int, sz: int, w: AddressRange, base: int, a: int)
    requires
        sz > 0,
        w.wf(),
        (w.start - cb) % sz == 0,
        (w.end - cb) % sz == 0,
        (base - cb) % sz == 0,
        base <= a < base + sz,
    ensures
        w.spec_contains(base) == w.spec_contains(a),
{
    let s = w.start as int;
    let e = w.end as int;
    lemma_grid_step(cb, sz, base, s);
    lemma_grid_step(cb, sz, base, e);
    if w.spec_contains(base) {
        // base in the window: a < base + sz <= e since e is on the grid
        // strictly above base.
        assert(w.spec_contains(a));
    } else {
        if w.spec_contains(a) {
            if base < s {
                // s is on the grid strictly above base, so base + sz <= s <= a,
                // contradicting a < base + sz.
                assert(false);
            } else {
                // base >= s but not in the window, so base >= e, putting
                // a >= base >= e, contradicting a < e.
                assert(false);
            }
        }
    }
}

/// Two points on the same grid of pitch `sz` are at least `sz` apart:
/// if `base < x` then `base + sz <= x`.
proof fn lemma_grid_step(cb: int, sz: int, base: int, x: int)
    requires
        sz > 0,
        (base - cb) % sz == 0,
        (x - cb) % sz == 0,
    ensures
        base < x ==> base + sz <= x,
        x < base ==> x + sz <= base,
{
    lemma_sub_mod_noop(x - cb, base - cb, sz);
    lemma_sub_mod_noop(base - cb, x - cb, sz);
    lemma_small_mod(0nat, sz as nat);
    assert((x - base) % sz == 0);
    assert((base - x) % sz == 0);
    if base < x {
        lemma_mod_is_zero((x - base) as nat, sz as nat);
    }
    if x < base {
        lemma_mod_is_zero((base - x) as nat, sz as nat);
    }
}

/// Classification an address will have once a table with this geometry is
/// partitioned for window `w`: the containing region's base decides, so
/// this is computable from geometry alone, before any programming.
pub open spec fn spec_window_class(t: RegionTable, w: AddressRange, a: int) -> SecurityClassification {
    if spec_covers(t, a) {
        if w.spec_contains(
            spec_region_base(
                t.class_base as int,
                t.region_size as int,
                spec_region_index(t, a),
            ),
        ) {
            SecurityClassification::NonSecure
        } else {
            SecurityClassification::Secure
        }
    } else {
        SecurityClassification::Secure
    }
}

/// After partitioning, classification under the programmed table is exactly
/// the geometric classification of the window over the original geometry.
pub proof fn lemma_classify_after_partition(
    t0: RegionTable,
    t1: RegionTable,
    w: AddressRange,
    lock: bool,
    a: int,
)
    requires
        t1.wf(),
        t0.class_base == t1.class_base,
        t0.region_size == t1.region_size,
        t0.regions.len() == t1.regions.len(),
        partitioned(t1, w, lock),
    ensures
        spec_classify(t1, a) == spec_window_class(t0, w, a),
{
    if spec_covers(t1, a) {
        lemma_covers_iff_index_in_range(t1, a);
        let i = spec_region_index(t1, a);
        assert(t1.regions[i] == crate::region::target_descriptor(t1.class_base as int,
            t1.region_size as int, w, lock, i));
    }
}

/// Decodes the two flags of the privileged address-classification probe:
/// bit 22 is the "secure" flag, bit 21 the "non-secure read/write/callable"
/// flag. Callable flag set takes precedence; else the secure flag decides.
pub fn check_memory_permission(probe: u32) -> (r: SecurityClassification)
    ensures
        r == spec_decode_probe(probe),
{
    let secure = probe & 0x0040_0000u32 > 0;
    let callable = probe & 0x0020_0000u32 > 0;
    match (secure, callable) {
        (_, true) => SecurityClassification::NonSecureCallable,
        (true, false) => SecurityClassification::Secure,
        (false, false) => SecurityClassification::NonSecure,
    }
}

/// Probe decoding rule: callable flag (bit 21) set means
/// `NonSecureCallable`; else secure flag (bit 22) set means `Secure`; else
/// `NonSecure`.
pub open spec fn spec_decode_probe(probe: u32) -> SecurityClassification {
    if probe & 0x0020_0000u32 > 0 {
        SecurityClassification::NonSecureCallable
    } else if probe & 0x0040_0000u32 > 0 {
        SecurityClassification::Secure
    } else {
        SecurityClassification::NonSecure
    }
}

} // verus!
