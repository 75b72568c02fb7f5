//! Virtual memory layout: translation descriptors, layout validation, address lookup and
//! the level-3 page table that MMU activation installs.

use vstd::prelude::*;

verus! {

/// Cacheability of a mapped range.
#[derive(Clone, Copy, Debug, PartialEq, Eq, Structural)]
pub enum MemAttributes {
    CacheableDRAM,
    Device,
}

/// Access permissions of a mapped range.
#[derive(Clone, Copy, Debug, PartialEq, Eq, Structural)]
pub enum AccessPermissions {
    ReadOnly,
    ReadWrite,
}

/// The attributes that one translation applies to a range.
#[derive(Clone, Copy, Debug, PartialEq, Eq, Structural)]
pub struct AttributeFields {
    pub mem_attributes: MemAttributes,
    pub acc_perms: AccessPermissions,
    pub execute_never: bool,
}

/// Attributes of every address that no descriptor covers: ordinary DRAM.
pub open spec fn default_attributes() -> AttributeFields {
    AttributeFields {
        mem_attributes: MemAttributes::CacheableDRAM,
        acc_perms: AccessPermissions::ReadWrite,
        execute_never: false,
    }
}

impl Default for AttributeFields {
    fn default() -> (r: Self)
        ensures
            r == default_attributes(),
    {
        AttributeFields {
            mem_attributes: MemAttributes::CacheableDRAM,
            acc_perms: AccessPermissions::ReadWrite,
            execute_never: false,
        }
    }
}

/// How a virtual range maps to physical memory.
#[derive(Clone, Copy, Debug, PartialEq, Eq, Structural)]
pub enum Translation {
    Identity,
    Offset(usize),
}

/// An inclusive address range `[start, end_inclusive]`.
#[derive(Clone, Copy, Debug, PartialEq, Eq, Structural)]
pub struct AddressRange {
    pub start: usize,
    pub end_inclusive: usize,
}

impl AddressRange {
    pub open spec fn contains_spec(self, a: int) -> bool {
        self.start <= a <= self.end_inclusive
    }

    /// Whether `a` lies in the range.
    pub fn contains(&self, a: usize) -> (r: bool)
        ensures
            r == self.contains_spec(a as int),
    {
        self.start <= a && a <= self.end_inclusive
    }
}

/// One virtual range that is mapped with attributes other than the default.
#[derive(Clone, Copy, Debug)]
pub struct TranslationDescriptor {
    pub name: &'static str,
    pub virtual_range: AddressRange,
    pub physical_range_translation: Translation,
    pub attribute_fields: AttributeFields,
}

/// Why a layout or a translation table cannot be built.
#[derive(Clone, Copy, Debug, PartialEq, Eq, Structural)]
pub enum MappingError {
    /// The descriptor at this index has `start > end`, ends beyond the address space, or
    /// translates to an output range that does not fit in an address.
    InvalidRange(usize),
    /// The descriptors at these two indices have overlapping virtual ranges.
    Overlap(usize, usize),
    /// The address lies beyond the end of the address space.
    AddressOutOfRange,
    /// The address space needs more pages than the table holds.
    TableCapacityExceeded,
    /// An output address is beyond what a page descriptor can encode.
    UnsupportedOutputAddress,
}

/// A descriptor is well placed in an address space ending at `max`.
pub open spec fn descriptor_valid(d: TranslationDescriptor, max: usize) -> bool {
    &&& d.virtual_range.start <= d.virtual_range.end_inclusive
    &&& d.virtual_range.end_inclusive <= max
    &&& match d.physical_range_translation {
        Translation::Identity => true,
        Translation::Offset(base) => base + (d.virtual_range.end_inclusive
            - d.virtual_range.start) <= usize::MAX,
    }
}

pub open spec fn ranges_overlap(a: AddressRange, b: AddressRange) -> bool {
    a.start <= b.end_inclusive && b.start <= a.end_inclusive
}

/// Every descriptor is well placed and no two distinct descriptors overlap.
pub open spec fn layout_valid(max: usize, ds: Seq<TranslationDescriptor>) -> bool {
    &&& forall|i: int| 0 <= i < ds.len() ==> #[trigger] descriptor_valid(ds[i], max)
    &&& forall|i: int, j: int|
        0 <= i < ds.len() && 0 <= j < ds.len() && i != j ==> !ranges_overlap(
            #[trigger] ds[i].virtual_range,
            #[trigger] ds[j].virtual_range,
        )
}

/// The output address of `a` under descriptor `d`, which covers `a`.
pub open spec fn translate(d: TranslationDescriptor, a: usize) -> usize {
    match d.physical_range_translation {
        Translation::Identity => a,
        Translation::Offset(base) => (base + (a - d.virtual_range.start)) as usize,
    }
}

/// Some descriptor covers `a`.
pub open spec fn covered(ds: Seq<TranslationDescriptor>, a: usize) -> bool {
    exists|i: int| 0 <= i < ds.len() && #[trigger] ds[i].virtual_range.contains_spec(a as int)
}

/// The output address and attributes of `a`: those of the descriptor covering it, or the
/// identity mapping with the default attributes.
pub open spec fn lookup(ds: Seq<TranslationDescriptor>, a: usize) -> (usize, AttributeFields) {
    if covered(ds, a) {
        let i = choose|i: int|
            0 <= i < ds.len() && #[trigger] ds[i].virtual_range.contains_spec(a as int);
        (translate(ds[i], a), ds[i].attribute_fields)
    } else {
        (a, default_attributes())
    }
}

/// In a valid layout at most one descriptor covers an address, so the lookup of an address
/// covered by descriptor `i` gives exactly descriptor `i`'s translation and attributes, and
/// the lookup of an uncovered address gives the identity and the default attributes.
pub proof fn lemma_lookup_unique(max: usize, ds: Seq<TranslationDescriptor>, a: usize, i: int)
    requires
        layout_valid(max, ds),
        0 <= i < ds.len(),
        ds[i].virtual_range.contains_spec(a as int),
    ensures
        forall|j: int|
            0 <= j < ds.len() && j != i ==> !(#[trigger] ds[j].virtual_range.contains_spec(
                a as int,
            )),
        lookup(ds, a) == (translate(ds[i], a), ds[i].attribute_fields),
{
    assert forall|j: int|
        0 <= j < ds.len() && j != i implies !(#[trigger] ds[j].virtual_range.contains_spec(
            a as int,
        )) by {
        if ds[j].virtual_range.contains_spec(a as int) {
            assert(ranges_overlap(ds[i].virtual_range, ds[j].virtual_range));
        }
    }
    assert(covered(ds, a));
}

/// The whole virtual address space: its last address and its special ranges.
pub struct KernelVirtualLayout {
    max_virt_addr_inclusive: usize,
    inner: Vec<TranslationDescriptor>,
}

impl KernelVirtualLayout {
    pub closed spec fn end_inclusive(&self) -> usize {
        self.max_virt_addr_inclusive
    }

    pub closed spec fn descriptors(&self) -> Seq<TranslationDescriptor> {
        self.inner@
    }

    pub open spec fn wf(&self) -> bool {
        layout_valid(self.end_inclusive(), self.descriptors())
    }

    /// Builds a layout, rejecting descriptors that are misplaced or overlap.
    pub fn new(max: usize, layout: Vec<TranslationDescriptor>) -> (r: Result<Self, MappingError>)
        ensures
            r is Ok <==> layout_valid(max, layout@),
            r matches Ok(l) ==> l.end_inclusive() == max && l.descriptors() == layout@,
            r matches Err(MappingError::InvalidRange(i)) ==> i < layout@.len()
                && !descriptor_valid(layout@[i as int], max),
            r matches Err(MappingError::Overlap(i, j)) ==> i < j < layout@.len() && ranges_overlap(
                layout@[i as int].virtual_range,
                layout@[j as int].virtual_range,
            ),
            r is Err ==> (r matches Err(MappingError::InvalidRange(_)) || r matches Err(
                MappingError::Overlap(_, _),
            )),
    {
        let n = layout.len();
        let mut i: usize = 0;
        while i < n
            invariant
                n == layout@.len(),
                i <= n,
                forall|k: int| 0 <= k < i ==> #[trigger] descriptor_valid(layout@[k], max),
                forall|k: int, l: int|
                    0 <= k < i && 0 <= l < i && k != l ==> !ranges_overlap(
                        #[trigger] layout@[k].virtual_range,
                        #[trigger] layout@[l].virtual_range,
                    ),
            decreases n - i,
        {
            let d = &layout[i];
            let s = d.virtual_range.start;
            let e = d.virtual_range.end_inclusive;
            if s > e || e > max {
                assert(!descriptor_valid(layout@[i as int], max));
                return Err(MappingError::InvalidRange(i));
            }
            match d.physical_range_translation {
                Translation::Identity => {},
                Translation::Offset(base) => {
                    if base > usize::MAX - (e - s) {
                        assert(!descriptor_valid(layout@[i as int], max));
                        return Err(MappingError::InvalidRange(i));
                    }
                },
            }
            let mut j: usize = 0;
            while j < i
                invariant
                    n == layout@.len(),
                    i < n,
                    j <= i,
                    s == layout@[i as int].virtual_range.start,
                    e == layout@[i as int].virtual_range.end_inclusive,
                    forall|k: int| 0 <= k < i ==> #[trigger] descriptor_valid(layout@[k], max),
                    forall|k: int, l: int|
                        0 <= k < i && 0 <= l < i && k != l ==> !ranges_overlap(
                            #[trigger] layout@[k].virtual_range,
                            #[trigger] layout@[l].virtual_range,
                        ),
                    forall|l: int| 0 <= l < j ==> !ranges_overlap(
                        #[trigger] layout@[l].virtual_range,
                        layout@[i as int].virtual_range,
                    ),
                decreases i - j,
            {
                let o = &layout[j].virtual_range;
                if o.start <= e && s <= o.end_inclusive {
                    assert(ranges_overlap(layout@[j as int].virtual_range, layout@[i as int].virtual_range));
                    assert(!layout_valid(max, layout@));
                    return Err(MappingError::Overlap(j, i));
                }
                j += 1;
            }
            assert(descriptor_valid(layout@[i as int], max));
            i += 1;
        }
        Ok(KernelVirtualLayout { max_virt_addr_inclusive: max, inner: layout })
    }

    /// The last virtual address of the space.
    pub fn end_address(&self) -> (r: usize)
        ensures
            r == self.end_inclusive(),
    {
        self.max_virt_addr_inclusive
    }

    /// The special ranges, in the order they were given.
    pub fn special_ranges(&self) -> (r: &Vec<TranslationDescriptor>)
        ensures
            r@ == self.descriptors(),
    {
        &self.inner
    }

    /// The output address and attributes of `virt_addr`.
    pub fn virt_addr_properties(&self, virt_addr: usize) -> (r: Result<
        (usize, AttributeFields),
        MappingError,
    >)
        requires
            self.wf(),
        ensures
            virt_addr > self.end_inclusive() ==> r == Err::<
                (usize, AttributeFields),
                MappingError,
            >(MappingError::AddressOutOfRange),
            virt_addr <= self.end_inclusive() ==> r == Ok::<
                (usize, AttributeFields),
                MappingError,
            >(lookup(self.descriptors(), virt_addr)),
    {
        if virt_addr > self.max_virt_addr_inclusive {
            return Err(MappingError::AddressOutOfRange);
        }
        let n = self.inner.len();
        let mut i: usize = 0;
        while i < n
            invariant
                self.wf(),
                n == self.descriptors().len(),
                i <= n,
                forall|k: int|
                    0 <= k < i ==> !(#[trigger] self.descriptors()[k].virtual_range.contains_spec(
                        virt_addr as int,
                    )),
            decreases n - i,
        {
            let d = &self.inner[i];
            if d.virtual_range.contains(virt_addr) {
                proof {
                    lemma_lookup_unique(self.end_inclusive(), self.descriptors(), virt_addr, i as int);
                    assert(descriptor_valid(self.descriptors()[i as int], self.end_inclusive()));
                }
                let out = match d.physical_range_translation {
                    Translation::Identity => virt_addr,
                    Translation::Offset(base) => base + (virt_addr - d.virtual_range.start),
                };
                return Ok((out, d.attribute_fields));
            }
            i += 1;
        }
        Ok((virt_addr, AttributeFields::default()))
    }
}

/// In a valid layout every address of the space has exactly one set of properties: the
/// lookup succeeds, and it gives the unique covering descriptor's translation and
/// attributes, or the identity mapping with the default attributes where none covers it.
pub proof fn lemma_every_address_has_one_mapping(l: &KernelVirtualLayout, a: usize)
    requires
        l.wf(),
        a <= l.end_inclusive(),
    ensures
        covered(l.descriptors(), a) ==> exists|i: int|
            0 <= i < l.descriptors().len() && l.descriptors()[i].virtual_range.contains_spec(
                a as int,
            ) && lookup(l.descriptors(), a) == (
                translate(l.descriptors()[i], a),
                l.descriptors()[i].attribute_fields,
            ) && forall|j: int|
                0 <= j < l.descriptors().len() && j != i ==> !(
                #[trigger] l.descriptors()[j].virtual_range.contains_spec(a as int)),
        !covered(l.descriptors(), a) ==> lookup(l.descriptors(), a) == (a, default_attributes()),
{
    let ds = l.descriptors();
    if covered(ds, a) {
        let i = choose|i: int| 0 <= i < ds.len() && #[trigger] ds[i].virtual_range.contains_spec(a as int);
        lemma_lookup_unique(l.end_inclusive(), ds, a, i);
    }
}

/// Size of one translation granule (64 KiB).
pub const GRANULE_SIZE: usize = 0x1_0000;

/// Output addresses must lie below this bound (48-bit physical addresses).
pub const OUTPUT_ADDR_LIMIT: u64 = 0x1_0000_0000_0000;

/// Memory attribute indirection index of a range.
pub open spec fn attr_index(a: AttributeFields) -> int {
    match a.mem_attributes {
        MemAttributes::Device => 0,
        MemAttributes::CacheableDRAM => 1,
    }
}

/// Access permission field: read-write or read-only at the kernel's level.
pub open spec fn ap_field(a: AttributeFields) -> int {
    match a.acc_perms {
        AccessPermissions::ReadWrite => 0,
        AccessPermissions::ReadOnly => 2,
    }
}

/// Shareability field: outer shareable for devices, inner shareable for memory.
pub open spec fn sh_field(a: AttributeFields) -> int {
    match a.mem_attributes {
        MemAttributes::Device => 2,
        MemAttributes::CacheableDRAM => 3,
    }
}

/// The level-3 page descriptor for a 64 KiB page at `output_addr` with attributes `a`:
/// valid (bit 0), page (bit 1), attribute index (bits 2-4), access permissions (bits 6-7),
/// shareability (bits 8-9), access flag (bit 10), output address (bits 16-47), privileged
/// execute-never (bit 53) and unprivileged execute-never (bit 54, always set).
pub open spec fn page_descriptor(output_addr: int, a: AttributeFields) -> int {
    1 + 2 + attr_index(a) * 4 + ap_field(a) * 64 + sh_field(a) * 256 + 1024 + (output_addr
        / 0x1_0000) * 0x1_0000 + (if a.execute_never {
        0x20_0000_0000_0000int
    } else {
        0int
    }) + 0x40_0000_0000_0000int
}

/// Number of 64 KiB pages that cover `[0, end]`.
pub open spec fn pages_needed(end: usize) -> int {
    end / 0x1_0000 + 1
}

/// Encodes the page descriptor for `output_addr` with attributes `a`.
pub fn encode_page_descriptor(output_addr: u64, a: AttributeFields) -> (r: u64)
    requires
        output_addr < OUTPUT_ADDR_LIMIT,
    ensures
        r == page_descriptor(output_addr as int, a),
{
    let attr_index: u64 = match a.mem_attributes {
        MemAttributes::Device => 0,
        MemAttributes::CacheableDRAM => 1,
    };
    let ap: u64 = match a.acc_perms {
        AccessPermissions::ReadWrite => 0,
        AccessPermissions::ReadOnly => 2,
    };
    let sh: u64 = match a.mem_attributes {
        MemAttributes::Device => 2,
        MemAttributes::CacheableDRAM => 3,
    };
    let pxn: u64 = if a.execute_never {
        0x20_0000_0000_0000
    } else {
        0
    };
    let page = output_addr / 0x1_0000;
    assert(page * 0x1_0000 <= output_addr) by (nonlinear_arith)
        requires
            page == output_addr / 0x1_0000,
    ;
    1 + 2 + attr_index * 4 + ap * 64 + sh * 256 + 1024 + page * 0x1_0000 + pxn + 0x40_0000_0000_0000
}

/// Builds the level-3 translation table of a layout: one descriptor per 64 KiB page from
/// address 0 to the end of the space, each with the output address and attributes that the
/// layout gives the page's first address. The table holds at most `capacity` pages.
pub fn build_translation_table(layout: &KernelVirtualLayout, capacity: usize) -> (r: Result<
    Vec<u64>,
    MappingError,
>)
    requires
        layout.wf(),
    ensures
        pages_needed(layout.end_inclusive()) > capacity ==> r == Err::<Vec<u64>, MappingError>(
            MappingError::TableCapacityExceeded,
        ),
        pages_needed(layout.end_inclusive()) <= capacity ==> (r is Ok <==> forall|k: int|
            0 <= k < pages_needed(layout.end_inclusive()) ==> (#[trigger] lookup(
                layout.descriptors(),
                (k * 0x1_0000) as usize,
            )).0 < OUTPUT_ADDR_LIMIT),
        r is Err ==> r == Err::<Vec<u64>, MappingError>(MappingError::TableCapacityExceeded)
            || r == Err::<Vec<u64>, MappingError>(MappingError::UnsupportedOutputAddress),
        r matches Ok(t) ==> t@.len() == pages_needed(layout.end_inclusive()) && forall|k: int|
            0 <= k < t@.len() ==> t@[k] == page_descriptor(
                #[trigger] lookup(layout.descriptors(), (k * 0x1_0000) as usize).0 as int,
                lookup(layout.descriptors(), (k * 0x1_0000) as usize).1,
            ),
{
    let end = layout.end_address();
    let last_page = end / GRANULE_SIZE;
    if last_page >= capacity {
        return Err(MappingError::TableCapacityExceeded);
    }
    let pages = last_page + 1;
    let mut table: Vec<u64> = Vec::new();
    let mut k: usize = 0;
    while k < pages
        invariant
            layout.wf(),
            end == layout.end_inclusive(),
            pages == pages_needed(end),
            last_page == end / 0x1_0000,
            last_page < capacity,
            k <= pages,
            table@.len() == k,
            forall|j: int|
                0 <= j < k ==> (#[trigger] lookup(layout.descriptors(), (j * 0x1_0000) as usize)).0
                    < OUTPUT_ADDR_LIMIT,
            forall|j: int|
                0 <= j < k ==> table@[j] == page_descriptor(
                    #[trigger] lookup(layout.descriptors(), (j * 0x1_0000) as usize).0 as int,
                    lookup(layout.descriptors(), (j * 0x1_0000) as usize).1,
                ),
        decreases pages - k,
    {
        assert(k * 0x1_0000 <= end) by (nonlinear_arith)
            requires
                k <= last_page,
                last_page == end / 0x1_0000,
        ;
        let addr = k * GRANULE_SIZE;
        let props = layout.virt_addr_properties(addr);
        let (out, attrs) = match props {
            Ok(p) => p,
            Err(e) => {
                return Err(e);
            },
        };
        if out as u64 >= OUTPUT_ADDR_LIMIT {
            return Err(MappingError::UnsupportedOutputAddress);
        }
        table.push(encode_page_descriptor(out as u64, attrs));
        k += 1;
    }
    Ok(table)
}

} // verus!
