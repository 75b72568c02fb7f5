//! The Raspberry Pi 3 memory map and its virtual memory layout.

use vstd::prelude::*;
use crate::memory::{
    AccessPermissions, AddressRange, AttributeFields, KernelVirtualLayout, MemAttributes,
    Translation, TranslationDescriptor, descriptor_valid, layout_valid, ranges_overlap,
};

verus! {

/// The last address of the physical and virtual address space (4 GiB).
pub const END_INCLUSIVE: usize = 0xFFFF_FFFF;

/// The first address of the peripheral MMIO window.
pub const MMIO_START: usize = 0x3F00_0000;

/// The last address of the peripheral MMIO window.
pub const MMIO_END_INCLUSIVE: usize = 0x4000_FFFF;

/// The descriptors of the board's layout, for a kernel whose code and read-only data span
/// `[ro_start, ro_end)`.
pub open spec fn board_descriptors(ro_start: usize, ro_end: usize) -> Seq<TranslationDescriptor> {
    seq![
        TranslationDescriptor {
            name: "Kernel code and RO data",
            virtual_range: AddressRange { start: ro_start, end_inclusive: (ro_end - 1) as usize },
            physical_range_translation: Translation::Identity,
            attribute_fields: AttributeFields {
                mem_attributes: MemAttributes::CacheableDRAM,
                acc_perms: AccessPermissions::ReadOnly,
                execute_never: false,
            },
        },
        TranslationDescriptor {
            name: "Device MMIO",
            virtual_range: AddressRange { start: MMIO_START, end_inclusive: MMIO_END_INCLUSIVE },
            physical_range_translation: Translation::Identity,
            attribute_fields: AttributeFields {
                mem_attributes: MemAttributes::Device,
                acc_perms: AccessPermissions::ReadWrite,
                execute_never: true,
            },
        },
    ]
}

/// The range of kernel code and read-only data, with the exclusive end `ro_end` turned into
/// an inclusive one.
pub fn ro_range_inclusive(ro_start: usize, ro_end: usize) -> (r: AddressRange)
    requires
        ro_start < ro_end,
    ensures
        r.start == ro_start,
        r.end_inclusive == ro_end - 1,
{
    AddressRange { start: ro_start, end_inclusive: ro_end - 1 }
}

/// The range of the peripheral MMIO window.
pub fn mmio_range_inclusive() -> (r: AddressRange)
    ensures
        r.start == MMIO_START,
        r.end_inclusive == MMIO_END_INCLUSIVE,
{
    AddressRange { start: MMIO_START, end_inclusive: MMIO_END_INCLUSIVE }
}

/// The size of the address space in bytes.
pub fn addr_space_size() -> (r: usize)
    requires
        END_INCLUSIVE < usize::MAX,
    ensures
        r == END_INCLUSIVE + 1,
{
    END_INCLUSIVE + 1
}

/// The board's virtual memory layout. The kernel image's code and read-only data span
/// `[ro_start, ro_end)`, which must lie below the MMIO window.
pub fn virt_mem_layout(ro_start: usize, ro_end: usize) -> (r: KernelVirtualLayout)
    requires
        ro_start < ro_end <= MMIO_START,
    ensures
        r.wf(),
        r.end_inclusive() == END_INCLUSIVE,
        r.descriptors() == board_descriptors(ro_start, ro_end),
{
    let mut v: Vec<TranslationDescriptor> = Vec::new();
    v.push(TranslationDescriptor {
        name: "Kernel code and RO data",
        virtual_range: ro_range_inclusive(ro_start, ro_end),
        physical_range_translation: Translation::Identity,
        attribute_fields: AttributeFields {
            mem_attributes: MemAttributes::CacheableDRAM,
            acc_perms: AccessPermissions::ReadOnly,
            execute_never: false,
        },
    });
    v.push(TranslationDescriptor {
        name: "Device MMIO",
        virtual_range: mmio_range_inclusive(),
        physical_range_translation: Translation::Identity,
        attribute_fields: AttributeFields {
            mem_attributes: MemAttributes::Device,
            acc_perms: AccessPermissions::ReadWrite,
            execute_never: true,
        },
    });
    let ghost ds = board_descriptors(ro_start, ro_end);
    assert(v@ =~= ds);
    assert(layout_valid(END_INCLUSIVE, ds)) by {
        assert(descriptor_valid(ds[0], END_INCLUSIVE));
        assert(descriptor_valid(ds[1], END_INCLUSIVE));
        assert(!ranges_overlap(ds[0].virtual_range, ds[1].virtual_range));
    }
    KernelVirtualLayout::new(END_INCLUSIVE, v).unwrap()
}

} // verus!
