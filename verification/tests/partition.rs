use nrf_secure::boot::{FLASH_CLASS_BASE, FLASH_REGION_COUNT, FLASH_REGION_SIZE};
use nrf_secure::boot::{RAM_CLASS_BASE, RAM_REGION_COUNT, RAM_REGION_SIZE};
use nrf_secure::region::{partition, RegionTable};
use nrf_secure::types::{AddressRange, BootError, SecurityAttribute};

fn flash_table() -> RegionTable {
    RegionTable::new(FLASH_CLASS_BASE, FLASH_REGION_SIZE, FLASH_REGION_COUNT)
}

fn ram_table() -> RegionTable {
    RegionTable::new(RAM_CLASS_BASE, RAM_REGION_SIZE, RAM_REGION_COUNT)
}

#[test]
fn fresh_table_is_reset_state() {
    let t = flash_table();
    assert_eq!(t.regions.len(), 32);
    for (i, d) in t.regions.iter().enumerate() {
        assert_eq!(d.index as usize, i);
        assert_eq!(d.base_address, i as u32 * FLASH_REGION_SIZE);
        assert!(d.execute && d.read && d.write);
        assert_eq!(d.security, SecurityAttribute::Secure);
        assert!(!d.locked);
    }
}

#[test]
fn scenario_flash_window_classifies_sixteen_to_thirty_one() {
    let mut t = flash_table();
    let w = AddressRange { start: 0x0008_0000, end: 0x0010_0000 };
    assert_eq!(partition(&mut t, &w, true), Ok(()));
    for (i, d) in t.regions.iter().enumerate() {
        let expected = if (16..32).contains(&i) {
            SecurityAttribute::NonSecure
        } else {
            SecurityAttribute::Secure
        };
        assert_eq!(d.security, expected, "flash region {}", i);
        assert!(d.locked, "flash region {} must be locked", i);
    }
}

#[test]
fn scenario_ram_window_classifies_by_region_grid() {
    let mut t = ram_table();
    let w = AddressRange { start: 0x2002_0000, end: 0x2004_0000 };
    assert_eq!(partition(&mut t, &w, false), Ok(()));
    for (i, d) in t.regions.iter().enumerate() {
        let expected = if i >= 16 {
            SecurityAttribute::NonSecure
        } else {
            SecurityAttribute::Secure
        };
        assert_eq!(d.security, expected, "ram region {}", i);
        assert!(!d.locked, "ram region {} must stay unlocked", i);
    }
}

#[test]
fn gap_freedom_between_consecutive_regions() {
    let mut t = ram_table();
    let w = AddressRange { start: 0x2002_0000, end: 0x2004_0000 };
    assert_eq!(partition(&mut t, &w, false), Ok(()));
    for i in 0..t.regions.len() - 1 {
        assert_eq!(
            t.regions[i + 1].base_address - t.regions[i].base_address,
            RAM_REGION_SIZE
        );
    }
}

#[test]
fn rerun_with_identical_window_reproduces_identical_table() {
    let w = AddressRange { start: 0x0008_0000, end: 0x0010_0000 };
    let mut t = flash_table();
    assert_eq!(partition(&mut t, &w, true), Ok(()));
    let first = t.regions.clone();
    // every flash region is now locked; the re-run must be an error-free no-op
    assert_eq!(partition(&mut t, &w, true), Ok(()));
    assert_eq!(t.regions, first);
}

#[test]
fn rerun_after_locking_with_different_window_is_refused() {
    let w1 = AddressRange { start: 0x0008_0000, end: 0x0010_0000 };
    let w2 = AddressRange { start: 0x0004_0000, end: 0x0010_0000 };
    let mut t = flash_table();
    assert_eq!(partition(&mut t, &w1, true), Ok(()));
    let before = t.regions.clone();
    assert_eq!(
        partition(&mut t, &w2, true),
        Err(BootError::ConfigurationError)
    );
    assert_eq!(t.regions, before, "a refused run must not touch the table");
}

#[test]
fn unlocked_table_accepts_a_different_window() {
    let w1 = AddressRange { start: 0x2002_0000, end: 0x2004_0000 };
    let w2 = AddressRange { start: 0x2000_0000, end: 0x2002_0000 };
    let mut t = ram_table();
    assert_eq!(partition(&mut t, &w1, false), Ok(()));
    assert_eq!(partition(&mut t, &w2, false), Ok(()));
    assert_eq!(t.regions[0].security, SecurityAttribute::NonSecure);
    assert_eq!(t.regions[16].security, SecurityAttribute::Secure);
}

#[test]
fn unaligned_window_classifies_by_region_start() {
    // the engine itself is lossy on an unaligned window: a region counts as
    // non-secure only if its start address lies inside the window
    let mut t = flash_table();
    let w = AddressRange { start: 0x0008_0001, end: 0x0010_0000 };
    assert_eq!(partition(&mut t, &w, false), Ok(()));
    assert_eq!(t.regions[16].security, SecurityAttribute::Secure);
    assert_eq!(t.regions[17].security, SecurityAttribute::NonSecure);
}
