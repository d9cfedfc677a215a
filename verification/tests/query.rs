use nrf_secure::boot::{FLASH_CLASS_BASE, FLASH_REGION_COUNT, FLASH_REGION_SIZE};
use nrf_secure::query::{check_memory_permission, query};
use nrf_secure::region::{partition, RegionTable};
use nrf_secure::types::{AddressRange, SecurityClassification};

fn partitioned_flash() -> RegionTable {
    let mut t = RegionTable::new(FLASH_CLASS_BASE, FLASH_REGION_SIZE, FLASH_REGION_COUNT);
    let w = AddressRange { start: 0x0008_0000, end: 0x0010_0000 };
    partition(&mut t, &w, true).unwrap();
    t
}

#[test]
fn query_matches_window_across_flash_space() {
    let t = partitioned_flash();
    // sample the whole covered flash space: non-secure exactly inside the window
    let mut a: u32 = 0;
    while a < 0x0010_0000 {
        let expected = if (0x0008_0000..0x0010_0000).contains(&a) {
            SecurityClassification::NonSecure
        } else {
            SecurityClassification::Secure
        };
        assert_eq!(query(&t, a), expected, "address {:#x}", a);
        a += 0x1000;
    }
}

#[test]
fn query_window_edges() {
    let t = partitioned_flash();
    assert_eq!(query(&t, 0x0007_FFFF), SecurityClassification::Secure);
    assert_eq!(query(&t, 0x0008_0000), SecurityClassification::NonSecure);
    assert_eq!(query(&t, 0x000F_FFFF), SecurityClassification::NonSecure);
    assert_eq!(query(&t, 0x0010_0000), SecurityClassification::Secure);
}

#[test]
fn query_outside_coverage_is_secure() {
    let t = partitioned_flash();
    // beyond the last region (index 31) everything classifies secure
    assert_eq!(query(&t, 32 * FLASH_REGION_SIZE), SecurityClassification::Secure);
    assert_eq!(query(&t, u32::MAX), SecurityClassification::Secure);
}

#[test]
fn query_below_class_base_is_secure() {
    let mut t = RegionTable::new(0x2000_0000, 0x2000, 32);
    let w = AddressRange { start: 0x2000_0000, end: 0x2004_0000 };
    partition(&mut t, &w, false).unwrap();
    assert_eq!(query(&t, 0x1FFF_FFFF), SecurityClassification::Secure);
    assert_eq!(query(&t, 0x2000_0000), SecurityClassification::NonSecure);
}

#[test]
fn probe_callable_flag_wins() {
    // secure flag (bit 22) clear, callable flag (bit 21) set
    let probe = 1u32 << 21;
    assert_eq!(
        check_memory_permission(probe),
        SecurityClassification::NonSecureCallable
    );
    // callable wins even with the secure flag set
    assert_eq!(
        check_memory_permission((1 << 22) | (1 << 21)),
        SecurityClassification::NonSecureCallable
    );
}

#[test]
fn probe_secure_and_non_secure_flags() {
    assert_eq!(
        check_memory_permission(1u32 << 22),
        SecurityClassification::Secure
    );
    assert_eq!(check_memory_permission(0), SecurityClassification::NonSecure);
    // unrelated bits are ignored
    assert_eq!(
        check_memory_permission(0xFF9F_FFFF),
        SecurityClassification::NonSecure
    );
}
