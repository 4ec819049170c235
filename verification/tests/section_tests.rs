use ld_memory::{EnvConfig, MemoryError, MemorySection};

#[test]
fn offset_moves_origin_and_shrinks_length() {
    let section = MemorySection::new("A", 100, 200).offset(5).unwrap();
    assert_eq!(
        section.to_string(),
        "    A : ORIGIN = 0x69, LENGTH = 0xC3\n"
    );
}

#[test]
fn offset_of_whole_length_leaves_empty_section() {
    let section = MemorySection::new("A", 0, 64).offset(64).unwrap();
    assert_eq!(section.to_string(), "    A : ORIGIN = 0x40, LENGTH = 0x0\n");
}

#[test]
fn offset_past_length_is_invalid() {
    let r = MemorySection::new("A", 0, 64).offset(65);
    assert!(matches!(r, Err(MemoryError::InvalidOffset)));
}

#[test]
fn pagesize_zero_is_invalid() {
    let r = MemorySection::new("A", 0, 64).pagesize(0);
    assert!(matches!(r, Err(MemoryError::InvalidPageSize)));
}

#[test]
fn slot_index_out_of_range() {
    let r = MemorySection::new("A", 0, 0x1000).slot(2, 2);
    assert!(matches!(r, Err(MemoryError::InvalidSlotIndex)));
    let r = MemorySection::new("A", 0, 0x1000).slot(0, 0);
    assert!(matches!(r, Err(MemoryError::InvalidSlotIndex)));
}

#[test]
fn slot_collapsed_range_is_too_small() {
    let r = MemorySection::new("A", 1, 1)
        .pagesize(0x1000)
        .unwrap()
        .slot(0, 1);
    assert!(matches!(r, Err(MemoryError::RegionTooSmall)));
}

#[test]
fn slots_are_contiguous_and_aligned() {
    // origin 0x1000 .. end 0xA000, page 0x1000: usable 0x9000,
    // share 0x4800, slot length rounds down to 0x4000.
    let base = || {
        MemorySection::new("S", 0x1000, 0x9000)
            .pagesize(0x1000)
            .unwrap()
    };
    let slot0 = base().slot(0, 2).unwrap();
    let slot1 = base().slot(1, 2).unwrap();
    assert_eq!(
        slot0.to_string(),
        "    S : ORIGIN = 0x1000, LENGTH = 0x4000\n"
    );
    assert_eq!(
        slot1.to_string(),
        "    S : ORIGIN = 0x5000, LENGTH = 0x4000\n"
    );
}

#[test]
fn slot_of_misaligned_region_aligns_both_ends() {
    // origin 0x0800 aligns up to 0x1000; end 0x9800 aligns down to
    // 0x9000; usable 0x8000 over two slots of 0x4000 each.
    let slot = MemorySection::new("S", 0x0800, 0x9000)
        .pagesize(0x1000)
        .unwrap()
        .slot(1, 2)
        .unwrap();
    assert_eq!(slot.to_string(), "    S : ORIGIN = 0x5000, LENGTH = 0x4000\n");
}

#[test]
fn slot_shorter_than_a_page_is_empty() {
    let slot = MemorySection::new("S", 0, 0x1800)
        .pagesize(0x1000)
        .unwrap()
        .slot(0, 2)
        .unwrap();
    assert_eq!(slot.to_string(), "    S : ORIGIN = 0x0, LENGTH = 0x0\n");
}

#[test]
fn from_env_applies_all_steps_in_order() {
    let config = EnvConfig {
        offset: Some(0x1000),
        pagesize: Some(0x1000),
        slot: Some(1),
        num_slots: 2,
        slot_offset: 0x100,
    };
    // After the offset: origin 0x1000, length 0x9000; two slots of
    // 0x4000; slot 1 starts at 0x5000; the slot offset shifts it to
    // 0x5100 and 0x3F00 bytes.
    let section = MemorySection::new("S", 0, 0xA000)
        .from_env(&config)
        .unwrap();
    assert_eq!(
        section.to_string(),
        "    S : ORIGIN = 0x5100, LENGTH = 0x3F00\n"
    );
}

#[test]
fn from_env_without_slot_ignores_slot_fields() {
    let config = EnvConfig {
        offset: Some(0x20),
        pagesize: None,
        slot: None,
        num_slots: 2,
        slot_offset: 0x10,
    };
    let section = MemorySection::new("S", 0, 0x100).from_env(&config).unwrap();
    assert_eq!(section.to_string(), "    S : ORIGIN = 0x20, LENGTH = 0xE0\n");
}

#[test]
fn from_env_reports_first_failure() {
    let config = EnvConfig {
        offset: Some(0x200),
        pagesize: Some(0),
        slot: None,
        num_slots: 2,
        slot_offset: 0,
    };
    let r = MemorySection::new("S", 0, 0x100).from_env(&config);
    assert!(matches!(r, Err(MemoryError::InvalidOffset)));
}

#[test]
fn error_messages_name_the_failure() {
    assert_eq!(
        MemoryError::InvalidOffset.message(),
        "offset exceeds remaining length"
    );
    assert_eq!(MemoryError::InvalidPageSize.message(), "pagesize must not be zero");
    assert_eq!(MemoryError::InvalidSlotIndex.message(), "slot index out of range");
    assert_eq!(
        MemoryError::RegionTooSmall.message(),
        "page alignment leaves no usable range"
    );
    assert_eq!(
        MemoryError::NegativeResult.message(),
        "expression evaluates to negative integer"
    );
}
