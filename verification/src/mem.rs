//! Boot-time memory-map classification: turning one firmware memory
//! descriptor into the kernel's view of that region, minding the regions
//! the boot loader has kept for itself.

use vstd::prelude::*;

verus! {

/// Bytes in one page frame.
pub const PAGE_SIZE: u64 = 0x1000;

/// Firmware memory type: memory holding loader code.
pub const MEM_TYPE_LOADER_CODE: u32 = 1;

/// Firmware memory type: memory holding loader data.
pub const MEM_TYPE_LOADER_DATA: u32 = 2;

/// Firmware memory type: conventional free memory.
pub const MEM_TYPE_CONVENTIONAL: u32 = 7;

/// Firmware memory type: memory holding the firmware tables, reclaimable
/// once they are parsed.
pub const MEM_TYPE_ACPI_RECLAIM: u32 = 9;

/// One row of the firmware memory map, reduced to the fields the
/// classifier reads: the type code, the region's first physical address,
/// and its size in page frames.
#[derive(Debug, Clone, Copy, PartialEq, Eq, Structural)]
pub struct MemoryDescriptor {
    pub ty: u32,
    pub phys_start: u64,
    pub page_count: u64,
}

/// A physical region as base address and byte length.
#[derive(Debug, Clone, Copy, PartialEq, Eq, Structural)]
pub struct MemoryData {
    pub base: u64,
    pub length: u64,
}

/// A classified entry of the kernel's memory map.
#[derive(Debug, Clone, Copy, PartialEq, Eq, Structural)]
pub enum MemoryEntry {
    Usable(MemoryData),
    BootLoaderReclaimable(MemoryData),
    ACPIReclaimable(MemoryData),
}

/// The first kept region `(base, size)` whose top lies at or past `addr`,
/// in insertion order.
pub open spec fn spec_first_covering(entries: Seq<(u64, u64)>, addr: u64) -> Option<(u64, u64)>
    decreases entries.len(),
{
    if entries.len() == 0 {
        None
    } else if addr <= entries[0].0 + entries[0].1 {
        Some(entries[0])
    } else {
        spec_first_covering(entries.drop_first(), addr)
    }
}

/// What one firmware descriptor becomes in the kernel's memory map.
/// Conventional memory is usable; tables memory is reclaimable after
/// parsing; loader memory is reclaimable except for the part a kept region
/// overlaps, which is trimmed off its front, and is dropped whole when the
/// kept region reaches its top; any other type is dropped.
pub open spec fn spec_classify(entries: Seq<(u64, u64)>, desc: MemoryDescriptor) -> Option<
    MemoryEntry,
> {
    let len = desc.page_count * PAGE_SIZE;
    if desc.ty == MEM_TYPE_CONVENTIONAL {
        Some(MemoryEntry::Usable(MemoryData { base: desc.phys_start, length: len as u64 }))
    } else if desc.ty == MEM_TYPE_LOADER_CODE || desc.ty == MEM_TYPE_LOADER_DATA {
        match spec_first_covering(entries, desc.phys_start) {
            None => Some(
                MemoryEntry::BootLoaderReclaimable(
                    MemoryData { base: desc.phys_start, length: len as u64 },
                ),
            ),
            Some(e) => {
                if desc.phys_start + len > e.0 + e.1 {
                    Some(
                        MemoryEntry::BootLoaderReclaimable(
                            MemoryData {
                                base: (desc.phys_start + e.1) as u64,
                                length: (len - e.1) as u64,
                            },
                        ),
                    )
                } else {
                    None
                }
            },
        }
    } else if desc.ty == MEM_TYPE_ACPI_RECLAIM {
        Some(MemoryEntry::ACPIReclaimable(MemoryData { base: desc.phys_start, length: len as u64 }))
    } else {
        None
    }
}

/// Tracks the regions the boot loader has allocated and must keep across
/// the hand-off, and classifies firmware memory descriptors against them.
pub struct MemoryManager {
    entries: Vec<(u64, u64)>,
}

impl MemoryManager {
    /// The kept regions, in insertion order.
    pub closed spec fn spec_entries(self) -> Seq<(u64, u64)> {
        self.entries@
    }

    /// Every kept region lies within the address space: its top does not
    /// wrap.
    pub open spec fn wf(self) -> bool {
        forall|i: int|
            0 <= i < self.spec_entries().len() ==> (#[trigger] self.spec_entries()[i]).0
                + self.spec_entries()[i].1 <= u64::MAX
    }

    /// An empty allocation list.
    pub fn new() -> (r: MemoryManager)
        ensures
            r.spec_entries() == Seq::<(u64, u64)>::empty(),
            r.wf(),
    {
        MemoryManager { entries: Vec::new() }
    }

    /// Records one kept region as base address and byte size.
    pub fn allocate(&mut self, ent: (u64, u64))
        requires
            old(self).wf(),
            ent.0 + ent.1 <= u64::MAX,
        ensures
            final(self).wf(),
            final(self).spec_entries() == old(self).spec_entries().push(ent),
    {
        self.entries.push(ent);
    }

    /// Classifies one firmware memory descriptor, per `spec_classify`.  The
    /// arithmetic preconditions only rule out address arithmetic that would
    /// wrap: a region size in bytes, and for loader memory the region's top
    /// and the trim of a kept region off its front.
    pub fn mem_type_from_desc(&self, desc: &MemoryDescriptor) -> (r: Option<MemoryEntry>)
        requires
            self.wf(),
            desc.page_count * PAGE_SIZE <= u64::MAX,
            (desc.ty == MEM_TYPE_LOADER_CODE || desc.ty == MEM_TYPE_LOADER_DATA)
                ==> desc.phys_start + desc.page_count * PAGE_SIZE <= u64::MAX,
            (desc.ty == MEM_TYPE_LOADER_CODE || desc.ty == MEM_TYPE_LOADER_DATA) ==> match
                spec_first_covering(self.spec_entries(), desc.phys_start) {
                Some(e) => desc.phys_start + desc.page_count * PAGE_SIZE > e.0 + e.1 ==> e.1
                    <= desc.page_count * PAGE_SIZE,
                None => true,
            },
        ensures
            r == spec_classify(self.spec_entries(), *desc),
    {
        let length: u64 = desc.page_count * PAGE_SIZE;
        if desc.ty == MEM_TYPE_CONVENTIONAL {
            Some(MemoryEntry::Usable(MemoryData { base: desc.phys_start, length }))
        } else if desc.ty == MEM_TYPE_LOADER_CODE || desc.ty == MEM_TYPE_LOADER_DATA {
            let mut i: usize = 0;
            let mut found: Option<(u64, u64)> = None;
            proof {
                assert(self.spec_entries().skip(0) =~= self.spec_entries());
            }
            while i < self.entries.len() && found.is_none()
                invariant
                    self.wf(),
                    i <= self.spec_entries().len(),
                    match found {
                        Some(e) => spec_first_covering(self.spec_entries(), desc.phys_start)
                            == Some(e) && e.0 + e.1 <= u64::MAX,
                        None => spec_first_covering(self.spec_entries(), desc.phys_start)
                            == spec_first_covering(
                            self.spec_entries().skip(i as int),
                            desc.phys_start,
                        ),
                    },
                decreases self.spec_entries().len() - i,
            {
                let e = self.entries[i];
                proof {
                    assert(self.spec_entries().skip(i as int)[0] == e);
                    assert(self.spec_entries().skip(i as int).drop_first() =~= self
                        .spec_entries()
                        .skip(i as int + 1));
                }
                if desc.phys_start <= e.0 + e.1 {
                    found = Some(e);
                }
                i = i + 1;
            }
            proof {
                if found is None {
                    assert(self.spec_entries().skip(i as int) =~= Seq::<(u64, u64)>::empty());
                }
            }
            match found {
                None => Some(
                    MemoryEntry::BootLoaderReclaimable(
                        MemoryData { base: desc.phys_start, length },
                    ),
                ),
                Some((base, size)) => {
                    let top = desc.phys_start + length;
                    if top > base + size {
                        Some(
                            MemoryEntry::BootLoaderReclaimable(
                                MemoryData { base: desc.phys_start + size, length: length - size },
                            ),
                        )
                    } else {
                        None
                    }
                },
            }
        } else if desc.ty == MEM_TYPE_ACPI_RECLAIM {
            Some(MemoryEntry::ACPIReclaimable(MemoryData { base: desc.phys_start, length }))
        } else {
            None
        }
    }
}

} // verus!
