use kernel::memory::{
    build_translation_table, encode_page_descriptor, AccessPermissions, AddressRange,
    AttributeFields, KernelVirtualLayout, MappingError, MemAttributes, Translation,
    TranslationDescriptor,
};

fn desc(
    name: &'static str,
    start: usize,
    end: usize,
    mem: MemAttributes,
    perms: AccessPermissions,
    xn: bool,
) -> TranslationDescriptor {
    TranslationDescriptor {
        name,
        virtual_range: AddressRange { start, end_inclusive: end },
        physical_range_translation: Translation::Identity,
        attribute_fields: AttributeFields { mem_attributes: mem, acc_perms: perms, execute_never: xn },
    }
}

fn two_region_layout() -> KernelVirtualLayout {
    let v = vec![
        desc("ro", 0x1000, 0x1FFF, MemAttributes::CacheableDRAM, AccessPermissions::ReadOnly, true),
        desc("mmio", 0x2000, 0x2FFF, MemAttributes::Device, AccessPermissions::ReadWrite, true),
    ];
    KernelVirtualLayout::new(0xFFFF, v).unwrap()
}

#[test]
fn lookup_picks_covering_descriptor_or_default() {
    let l = two_region_layout();
    let first = l.virt_addr_properties(0x1500).unwrap();
    assert_eq!(first.0, 0x1500);
    assert_eq!(
        first.1,
        AttributeFields {
            mem_attributes: MemAttributes::CacheableDRAM,
            acc_perms: AccessPermissions::ReadOnly,
            execute_never: true
        }
    );
    let second = l.virt_addr_properties(0x2500).unwrap();
    assert_eq!(second.0, 0x2500);
    assert_eq!(
        second.1,
        AttributeFields {
            mem_attributes: MemAttributes::Device,
            acc_perms: AccessPermissions::ReadWrite,
            execute_never: true
        }
    );
    let other = l.virt_addr_properties(0x5000).unwrap();
    assert_eq!(other.0, 0x5000);
    assert_eq!(
        other.1,
        AttributeFields {
            mem_attributes: MemAttributes::CacheableDRAM,
            acc_perms: AccessPermissions::ReadWrite,
            execute_never: false
        }
    );
    assert_eq!(other.1, AttributeFields::default());
}

#[test]
fn lookup_range_edges() {
    let l = two_region_layout();
    assert_eq!(l.virt_addr_properties(0x0FFF).unwrap().1, AttributeFields::default());
    assert_eq!(l.virt_addr_properties(0x1000).unwrap().1.acc_perms, AccessPermissions::ReadOnly);
    assert_eq!(l.virt_addr_properties(0x1FFF).unwrap().1.acc_perms, AccessPermissions::ReadOnly);
    assert_eq!(l.virt_addr_properties(0x2000).unwrap().1.mem_attributes, MemAttributes::Device);
    assert_eq!(l.virt_addr_properties(0x3000).unwrap().1, AttributeFields::default());
    assert_eq!(l.virt_addr_properties(0xFFFF).unwrap().1, AttributeFields::default());
}

#[test]
fn every_address_has_one_result() {
    let l = two_region_layout();
    for a in 0..=0xFFFFusize {
        let (out, attrs) = l.virt_addr_properties(a).unwrap();
        assert_eq!(out, a);
        let expected = if (0x1000..=0x1FFF).contains(&a) {
            AccessPermissions::ReadOnly
        } else {
            AccessPermissions::ReadWrite
        };
        assert_eq!(attrs.acc_perms, expected);
    }
}

#[test]
fn lookup_beyond_end_is_rejected() {
    let l = two_region_layout();
    assert_eq!(l.virt_addr_properties(0x1_0000), Err(MappingError::AddressOutOfRange));
}

#[test]
fn overlapping_descriptors_are_rejected() {
    let v = vec![
        desc("a", 0x1000, 0x1FFF, MemAttributes::CacheableDRAM, AccessPermissions::ReadOnly, false),
        desc("b", 0x1FFF, 0x2FFF, MemAttributes::Device, AccessPermissions::ReadWrite, true),
    ];
    assert!(matches!(KernelVirtualLayout::new(0xFFFF, v), Err(MappingError::Overlap(0, 1))));
    let w = vec![
        desc("a", 0x1000, 0x1FFF, MemAttributes::CacheableDRAM, AccessPermissions::ReadOnly, false),
        desc("b", 0x4000, 0x4FFF, MemAttributes::Device, AccessPermissions::ReadWrite, true),
        desc("c", 0x0000, 0x4000, MemAttributes::Device, AccessPermissions::ReadWrite, true),
    ];
    assert!(matches!(KernelVirtualLayout::new(0xFFFF, w), Err(MappingError::Overlap(0, 2))));
}

#[test]
fn misplaced_descriptors_are_rejected() {
    let reversed = vec![desc("a", 0x2000, 0x1000, MemAttributes::Device, AccessPermissions::ReadWrite, true)];
    assert!(matches!(KernelVirtualLayout::new(0xFFFF, reversed), Err(MappingError::InvalidRange(0))));
    let beyond = vec![
        desc("a", 0x1000, 0x1FFF, MemAttributes::Device, AccessPermissions::ReadWrite, true),
        desc("b", 0xF000, 0x1_0000, MemAttributes::Device, AccessPermissions::ReadWrite, true),
    ];
    assert!(matches!(KernelVirtualLayout::new(0xFFFF, beyond), Err(MappingError::InvalidRange(1))));
    let mut wrapping = desc("c", 0x1000, 0x1FFF, MemAttributes::Device, AccessPermissions::ReadWrite, true);
    wrapping.physical_range_translation = Translation::Offset(usize::MAX - 0x10);
    assert!(matches!(KernelVirtualLayout::new(0xFFFF, vec![wrapping]), Err(MappingError::InvalidRange(0))));
}

#[test]
fn empty_layout_maps_everything_by_default() {
    let l = KernelVirtualLayout::new(0xFFFF, Vec::new()).unwrap();
    assert_eq!(l.end_address(), 0xFFFF);
    assert!(l.special_ranges().is_empty());
    assert_eq!(l.virt_addr_properties(0x1234), Ok((0x1234, AttributeFields::default())));
}

#[test]
fn offset_translation_shifts_output() {
    let mut d = desc("remap", 0x4000, 0x4FFF, MemAttributes::Device, AccessPermissions::ReadWrite, true);
    d.physical_range_translation = Translation::Offset(0x9_0000);
    let l = KernelVirtualLayout::new(0xFFFF, vec![d]).unwrap();
    assert_eq!(l.virt_addr_properties(0x4000).unwrap().0, 0x9_0000);
    assert_eq!(l.virt_addr_properties(0x4123).unwrap().0, 0x9_0123);
    assert_eq!(l.virt_addr_properties(0x5000).unwrap().0, 0x5000);
}

#[test]
fn page_descriptor_encoding() {
    let ram = AttributeFields::default();
    assert_eq!(encode_page_descriptor(0, ram), 0x0040_0000_0000_0707);
    let device = AttributeFields {
        mem_attributes: MemAttributes::Device,
        acc_perms: AccessPermissions::ReadWrite,
        execute_never: true,
    };
    assert_eq!(encode_page_descriptor(0x3F00_0000, device), 0x0060_0000_3F00_0603);
    let code = AttributeFields {
        mem_attributes: MemAttributes::CacheableDRAM,
        acc_perms: AccessPermissions::ReadOnly,
        execute_never: false,
    };
    assert_eq!(encode_page_descriptor(0x8_0000, code), 0x0040_0000_0008_0787);
    assert_eq!(encode_page_descriptor(0x8_1234, code), 0x0040_0000_0008_0787);
}

#[test]
fn translation_table_covers_every_page() {
    let mut d = desc("mmio", 0x2_0000, 0x2_FFFF, MemAttributes::Device, AccessPermissions::ReadWrite, true);
    d.physical_range_translation = Translation::Identity;
    let l = KernelVirtualLayout::new(0x3_FFFF, vec![d]).unwrap();
    let t = build_translation_table(&l, 4).unwrap();
    assert_eq!(t.len(), 4);
    assert_eq!(t[0], 0x0040_0000_0000_0707);
    assert_eq!(t[1], 0x0040_0000_0001_0707);
    assert_eq!(t[2], 0x0060_0000_0002_0603);
    assert_eq!(t[3], 0x0040_0000_0003_0707);
}

#[test]
fn translation_table_capacity_exceeded() {
    let l = KernelVirtualLayout::new(0x3_FFFF, Vec::new()).unwrap();
    assert_eq!(build_translation_table(&l, 3), Err(MappingError::TableCapacityExceeded));
}

#[test]
fn translation_table_rejects_unencodable_output() {
    let mut d = desc("far", 0x0, 0xFFFF, MemAttributes::Device, AccessPermissions::ReadWrite, true);
    d.physical_range_translation = Translation::Offset(0x1_0000_0000_0000);
    let l = KernelVirtualLayout::new(0xFFFF, vec![d]).unwrap();
    assert_eq!(build_translation_table(&l, 1), Err(MappingError::UnsupportedOutputAddress));
}
