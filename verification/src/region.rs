//! The region partition engine: fixed-size memory region descriptors, the
//! gap-free region table invariant, and the routine that programs a table
//! from a non-secure boundary window.

use vstd::prelude::*;

use crate::types::{AddressRange, BootError, SecurityAttribute};

verus! {

/// One hardware region slot's permission descriptor.
#[derive(Clone, Copy, PartialEq, Eq, Structural, Debug)]
pub struct RegionDescriptor {
    pub index: u32,
    pub base_address: u32,
    pub execute: bool,
    pub read: bool,
    pub write: bool,
    pub security: SecurityAttribute,
    pub locked: bool,
}

/// Ordered table of region descriptors for one memory class (flash or RAM),
/// with a fixed per-class region size and base.
///
/// The well-formedness invariant pins descriptor `i` to base address
/// `class_base + i * region_size`, so the table covers
/// `[class_base, class_base + len * region_size)` with no gaps or overlaps.
pub struct RegionTable {
    pub class_base: u32,
    pub region_size: u32,
    pub regions: Vec<RegionDescriptor>,
}

impl RegionTable {
    pub open spec fn wf(self) -> bool {
        &&& self.region_size > 0
        &&& self.regions.len() <= 0xFFFF_FFFF
        &&& self.class_base + self.regions.len() * self.region_size <= 0x1_0000_0000
        &&& forall|i: int|
            0 <= i < self.regions.len() ==> (#[trigger] self.regions[i]).index == i
        &&& forall|i: int|
            0 <= i < self.regions.len() ==> (#[trigger] self.regions[i]).base_address
                == self.class_base + i * self.region_size
    }

    /// Fresh table in the hardware reset state: every region `Secure`,
    /// fully enabled, unlocked.
    pub fn new(class_base: u32, region_size: u32, region_count: usize) -> (t: RegionTable)
        requires
            region_size > 0,
            region_count <= 0xFFFF_FFFF,
            class_base + region_count * region_size <= 0x1_0000_0000,
        ensures
            t.wf(),
            t.class_base == class_base,
            t.region_size == region_size,
            t.regions.len() == region_count,
            forall|i: int|
                0 <= i < region_count ==> #[trigger] t.regions[i]
                    == reset_descriptor(class_base as int, region_size as int, i),
    {
        let mut regions: Vec<RegionDescriptor> = Vec::new();
        let mut i: usize = 0;
        while i < region_count
            invariant
                i <= region_count,
                region_size > 0,
                region_count <= 0xFFFF_FFFF,
                class_base + region_count * region_size <= 0x1_0000_0000,
                regions.len() == i,
                forall|j: int|
                    0 <= j < i ==> #[trigger] regions[j]
                        == reset_descriptor(class_base as int, region_size as int, j),
            decreases region_count - i,
        {
            proof {
                lemma_region_base_fits(class_base as int, region_size as int, i as int,
                    region_count as int);
            }
            let base: u32 = class_base + (i as u32) * region_size;
            regions.push(RegionDescriptor {
                index: i as u32,
                base_address: base,
                execute: true,
                read: true,
                write: true,
                security: SecurityAttribute::Secure,
                locked: false,
            });
            i = i + 1;
        }
        proof {
            assert forall|k: int| 0 <= k < region_count implies (#[trigger] regions[k]).index == k
                && regions[k].base_address == class_base + k * region_size by {
                lemma_region_base_fits(class_base as int, region_size as int, k,
                    region_count as int);
            }
        }
        RegionTable { class_base, region_size, regions }
    }
}

/// Base address of region `i` on the grid of a memory class.
pub open spec fn spec_region_base(class_base: int, region_size: int, i: int) -> int {
    class_base + i * region_size
}

/// The descriptor a region slot holds after hardware reset.
pub open spec fn reset_descriptor(class_base: int, region_size: int, i: int) -> RegionDescriptor {
    RegionDescriptor {
        index: i as u32,
        base_address: spec_region_base(class_base, region_size, i) as u32,
        execute: true,
        read: true,
        write: true,
        security: SecurityAttribute::Secure,
        locked: false,
    }
}

/// The descriptor the partition engine programs into region slot `i` for a
/// non-secure boundary window `w`: all accesses enabled, `NonSecure` exactly
/// when the region's base address lies in `w`, locked per the class policy.
///
/// Classification goes by the region's base address alone, so a window edge
/// that is not region-size aligned still classifies every region (by its
/// containing region's start); such a window is lossy, never a partial
/// region.
pub open spec fn target_descriptor(
    class_base: int,
    region_size: int,
    w: AddressRange,
    lock: bool,
    i: int,
) -> RegionDescriptor {
    RegionDescriptor {
        index: i as u32,
        base_address: spec_region_base(class_base, region_size, i) as u32,
        execute: true,
        read: true,
        write: true,
        security: if w.spec_contains(spec_region_base(class_base, region_size, i)) {
            SecurityAttribute::NonSecure
        } else {
            SecurityAttribute::Secure
        },
        locked: lock,
    }
}

/// Every locked descriptor already holds exactly what programming for `w`
/// would write: re-programming would be a no-op on the locked slots.
pub open spec fn locked_regions_compatible(t: RegionTable, w: AddressRange, lock: bool) -> bool {
    forall|i: int|
        0 <= i < t.regions.len() && (#[trigger] t.regions[i]).locked ==> t.regions[i]
            == target_descriptor(t.class_base as int, t.region_size as int, w, lock, i)
}

/// The table holds exactly the result of programming the window `w`.
pub open spec fn partitioned(t: RegionTable, w: AddressRange, lock: bool) -> bool {
    forall|i: int|
        0 <= i < t.regions.len() ==> #[trigger] t.regions[i]
            == target_descriptor(t.class_base as int, t.region_size as int, w, lock, i)
}

proof fn lemma_region_base_fits(class_base: int, region_size: int, i: int, count: int)
    requires
        region_size > 0,
        0 <= i < count,
        class_base + count * region_size <= 0x1_0000_0000,
        class_base >= 0,
    ensures
        class_base + (i + 1) * region_size <= 0x1_0000_0000,
        0 <= spec_region_base(class_base, region_size, i),
        spec_region_base(class_base, region_size, i) + region_size <= 0x1_0000_0000,
{
    assert((i + 1) * region_size <= count * region_size) by (nonlinear_arith)
        requires i + 1 <= count, region_size > 0;
    assert(i * region_size >= 0) by (nonlinear_arith)
        requires i >= 0, region_size > 0;
    assert(i * region_size + region_size == (i + 1) * region_size) by (nonlinear_arith);
}

/// Computes the descriptor the engine is about to program for slot `i`.
fn region_target(
    class_base: u32,
    region_size: u32,
    boundary: &AddressRange,
    lock: bool,
    i: usize,
) -> (d: RegionDescriptor)
    requires
        region_size > 0,
        i <= 0xFFFF_FFFF,
        class_base + (i + 1) * region_size <= 0x1_0000_0000,
    ensures
        d == target_descriptor(class_base as int, region_size as int, *boundary, lock, i as int),
{
    proof {
        assert(i * region_size >= 0 && i * region_size + region_size == (i + 1) * region_size)
            by (nonlinear_arith)
            requires i >= 0, region_size > 0;
    }
    let base: u32 = class_base + (i as u32) * region_size;
    let security = if boundary.contains(base) {
        SecurityAttribute::NonSecure
    } else {
        SecurityAttribute::Secure
    };
    RegionDescriptor {
        index: i as u32,
        base_address: base,
        execute: true,
        read: true,
        write: true,
        security,
        locked: lock,
    }
}

/// The region partition engine.
///
/// Classifies every region slot against the boundary window and programs it
/// (execute/read/write enabled, security attribute by containment of the
/// region base, locked per `lock`). A locked slot is never silently
/// overwritten: if any locked slot would change, the whole run is refused
/// with `ConfigurationError` and the table is left untouched; if every
/// locked slot already holds its target, programming the unlocked slots
/// (and leaving the locked ones as the no-ops they are) yields exactly the
/// partitioned table.
pub fn partition(table: &mut RegionTable, boundary: &AddressRange, lock: bool) -> (r: Result<
    (),
    BootError,
>)
    requires
        old(table).wf(),
    ensures
        final(table).wf(),
        final(table).class_base == old(table).class_base,
        final(table).region_size == old(table).region_size,
        final(table).regions.len() == old(table).regions.len(),
        r is Ok <==> locked_regions_compatible(*old(table), *boundary, lock),
        r is Ok ==> partitioned(*final(table), *boundary, lock),
        r is Err ==> r == Err::<(), BootError>(BootError::ConfigurationError) && *final(table)
            == *old(table),
{
    let class_base = table.class_base;
    let region_size = table.region_size;
    let count = table.regions.len();

    // First pass: refuse the run before touching anything if a locked slot
    // would have to change.
    let mut i: usize = 0;
    while i < count
        invariant
            old(table).wf(),
            *table == *old(table),
            class_base == table.class_base,
            region_size == table.region_size,
            count == table.regions.len(),
            i <= count,
            forall|j: int|
                0 <= j < i && (#[trigger] table.regions[j]).locked ==> table.regions[j]
                    == target_descriptor(class_base as int, region_size as int, *boundary, lock,
                    j),
        decreases count - i,
    {
        if table.regions[i].locked {
            proof {
                lemma_region_base_fits(class_base as int, region_size as int, i as int,
                    count as int);
            }
            let want = region_target(class_base, region_size, boundary, lock, i);
            if !(table.regions[i] == want) {
                proof {
                    assert(old(table).regions[i as int].locked && old(table).regions[i as int]
                        != target_descriptor(class_base as int, region_size as int, *boundary,
                        lock, i as int));
                }
                return Err(BootError::ConfigurationError);
            }
        }
        i = i + 1;
    }

    // Second pass: program every unlocked slot; a locked slot already holds
    // its target, and hardware ignores writes to it anyway.
    let mut i: usize = 0;
    while i < count
        invariant
            old(table).wf(),
            class_base == old(table).class_base,
            region_size == old(table).region_size,
            count == old(table).regions.len(),
            class_base == table.class_base,
            region_size == table.region_size,
            count == table.regions.len(),
            i <= count,
            locked_regions_compatible(*old(table), *boundary, lock),
            forall|j: int|
                0 <= j < i ==> #[trigger] table.regions[j]
                    == target_descriptor(class_base as int, region_size as int, *boundary, lock,
                    j),
            forall|j: int|
                i <= j < count ==> #[trigger] table.regions[j] == old(table).regions[j],
        decreases count - i,
    {
        proof {
            lemma_region_base_fits(class_base as int, region_size as int, i as int, count as int);
        }
        let want = region_target(class_base, region_size, boundary, lock, i);
        if !table.regions[i].locked {
            table.regions.set(i, want);
        }
        i = i + 1;
    }
    proof {
        assert forall|k: int| 0 <= k < count implies (#[trigger] table.regions[k]).index == k
            && table.regions[k].base_address == class_base + k * region_size by {
            lemma_region_base_fits(class_base as int, region_size as int, k, count as int);
        }
    }
    Ok(())
}

/// Gap-freedom law: in a well-formed region table, consecutive descriptors'
/// base addresses differ by exactly the region size — the table tiles its
/// class window with no gap and no overlap.
pub proof fn lemma_region_table_gap_free(t: RegionTable)
    requires
        t.wf(),
    ensures
        forall|i: int|
            0 <= i && i + 1 < t.regions.len() ==> (#[trigger] t.regions[i + 1]).base_address
                - t.regions[i].base_address == t.region_size,
{
    assert forall|i: int| 0 <= i && i + 1 < t.regions.len() implies (#[trigger] t.regions[i
        + 1]).base_address - t.regions[i].base_address == t.region_size by {
        assert((i + 1) * t.region_size == i * t.region_size + t.region_size) by (nonlinear_arith);
        lemma_region_base_fits(t.class_base as int, t.region_size as int, i as int,
            t.regions.len() as int);
        lemma_region_base_fits(t.class_base as int, t.region_size as int, i + 1,
            t.regions.len() as int);
    }
}

/// Idempotence law, first half: a table that already holds the result of
/// partitioning for `w` is compatible with re-running the engine for `w` —
/// the re-run raises no error — and the partitioned result for `w` over a
/// fixed geometry is unique, so the re-run reproduces the identical table.
pub proof fn lemma_partition_idempotent(t: RegionTable, w: AddressRange, lock: bool)
    requires
        partitioned(t, w, lock),
    ensures
        locked_regions_compatible(t, w, lock),
{
}

/// Idempotence law, uniqueness half: two tables over the same geometry that
/// are both partitioned for the same window hold identical descriptors.
pub proof fn lemma_partition_deterministic(
    t1: RegionTable,
    t2: RegionTable,
    w: AddressRange,
    lock: bool,
)
    requires
        t1.class_base == t2.class_base,
        t1.region_size == t2.region_size,
        t1.regions.len() == t2.regions.len(),
        partitioned(t1, w, lock),
        partitioned(t2, w, lock),
    ensures
        t1.regions@ =~= t2.regions@,
{
}

/// Locking law: once a table has been partitioned with locking for `w1`,
/// re-running the engine for a window that classifies even one region
/// differently is refused (the engine reports `ConfigurationError` rather
/// than silently overwriting a locked slot).
pub proof fn lemma_locked_rerun_conflicts(
    t: RegionTable,
    w1: AddressRange,
    w2: AddressRange,
    i: int,
)
    requires
        partitioned(t, w1, true),
        0 <= i < t.regions.len(),
        w1.spec_contains(spec_region_base(t.class_base as int, t.region_size as int, i))
            != w2.spec_contains(spec_region_base(t.class_base as int, t.region_size as int, i)),
    ensures
        !locked_regions_compatible(t, w2, true),
{
    assert(t.regions[i].locked);
    assert(t.regions[i] != target_descriptor(t.class_base as int, t.region_size as int, w2, true,
        i));
}

} // verus!
