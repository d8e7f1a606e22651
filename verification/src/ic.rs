//! The interrupt-controller record model: every record shape the MADT body
//! can hold, and the one decode primitive that classifies a record span.
//!
//! A record starts with a 2-byte sub-header, a type tag and the record's
//! total length.  Known tags with a fixed payload shape decode into typed
//! structs; tags whose payload this layer does not interpret keep only the
//! sub-header view.  Tags 0x11 through 0x7F are specification-reserved and
//! 0x80 through 0xFF are OEM-reserved: both decode without error, as the
//! format's forward-compatibility contract demands.

use vstd::bytes::{
    spec_u16_from_le_bytes, spec_u32_from_le_bytes, spec_u64_from_le_bytes, u16_from_le_bytes,
    u32_from_le_bytes, u64_from_le_bytes,
};
use vstd::prelude::*;
use vstd::slice::slice_subrange;

verus! {

/// The 2-field sub-header every record begins with: a type tag and the
/// record's total byte length, sub-header included.
#[derive(Clone, Copy, Debug, PartialEq, Eq, Structural)]
pub struct ICHeader {
    pub type_: u8,
    pub length: u8,
}

/// Processor Local APIC record payload (tag 0).
#[derive(Clone, Copy, Debug, PartialEq, Eq, Structural)]
pub struct ProcessorLocalAPIC {
    pub header: ICHeader,
    pub proc_id: u8,
    pub apic_id: u8,
    pub flags: u32,
}

/// I/O APIC record payload (tag 1).
#[derive(Clone, Copy, Debug, PartialEq, Eq, Structural)]
pub struct IoApic {
    pub header: ICHeader,
    pub id: u8,
    pub addr: u32,
    pub gsi_base: u32,
}

/// Interrupt Source Override record payload (tag 2).
#[derive(Clone, Copy, Debug, PartialEq, Eq, Structural)]
pub struct InterruptSourceOverride {
    pub header: ICHeader,
    pub bus: u8,
    pub irq: u8,
    pub gsi: u32,
    pub flags: u16,
}

/// NMI Source record payload (tag 3).
#[derive(Clone, Copy, Debug, PartialEq, Eq, Structural)]
pub struct NMISource {
    pub header: ICHeader,
    pub flags: u16,
    pub gsi: u32,
}

/// Local APIC NMI record payload (tag 4).
#[derive(Clone, Copy, Debug, PartialEq, Eq, Structural)]
pub struct LocalAPICNMI {
    pub header: ICHeader,
    pub proc_id: u8,
    pub flags: u16,
    pub lint: u8,
}

/// Local APIC Address Override record payload (tag 5).
#[derive(Clone, Copy, Debug, PartialEq, Eq, Structural)]
pub struct LocalAPICAddrOverride {
    pub header: ICHeader,
    pub addr: u64,
}

/// One interrupt-controller record, classified by its type tag.  The closed
/// set of decoded shapes is extended by two explicit catch-alls: `Reserved`
/// for specification-reserved tags and `OemReserved` for vendor-defined
/// tags, both keeping the raw sub-header view undecoded.
#[derive(Clone, Copy, Debug, PartialEq, Eq, Structural)]
pub enum InterruptController {
    ProcessorLocalAPIC(ProcessorLocalAPIC),
    InputOutputAPIC(IoApic),
    InterruptSourceOverride(InterruptSourceOverride),
    NmiSrc(NMISource),
    LApicNmi(LocalAPICNMI),
    LApicAddrOverride(LocalAPICAddrOverride),
    IoSapic(ICHeader),
    LocalSapic(ICHeader),
    PlatformInterruptSrcs(ICHeader),
    ProcessorLocalx2APIC(ICHeader),
    Localx2APICNmi(ICHeader),
    GicCpu(ICHeader),
    GicDist(ICHeader),
    GicMsiFrame(ICHeader),
    GicRedist(ICHeader),
    GicIts(ICHeader),
    MpWakeup(ICHeader),
    Reserved(ICHeader),
    OemReserved(ICHeader),
}

/// Least record length a tag admits: the sub-header plus the fixed payload
/// of the shapes this layer decodes, and the bare sub-header for the rest.
pub open spec fn spec_min_record_len(type_: u8) -> int {
    if type_ == 0 {
        8
    } else if type_ == 1 {
        12
    } else if type_ == 2 {
        10
    } else if type_ == 3 {
        8
    } else if type_ == 4 {
        6
    } else if type_ == 5 {
        12
    } else {
        2
    }
}

/// Least record length a tag admits.
pub fn min_record_len(type_: u8) -> (r: usize)
    ensures
        r == spec_min_record_len(type_),
{
    if type_ == 0 {
        8
    } else if type_ == 1 {
        12
    } else if type_ == 2 {
        10
    } else if type_ == 3 {
        8
    } else if type_ == 4 {
        6
    } else if type_ == 5 {
        12
    } else {
        2
    }
}

/// A record span is well-formed when its declared length equals the span,
/// and the span holds at least what its tag's fixed shape needs.
pub open spec fn wf_record_span(span: Seq<u8>) -> bool {
    &&& 2 <= span.len()
    &&& span[1] as int == span.len()
    &&& spec_min_record_len(span[0]) <= span.len()
}

/// The record a well-formed span denotes.
pub open spec fn spec_decode_record(span: Seq<u8>) -> InterruptController {
    let h = ICHeader { type_: span[0], length: span[1] };
    if span[0] == 0 {
        InterruptController::ProcessorLocalAPIC(
            ProcessorLocalAPIC {
                header: h,
                proc_id: span[2],
                apic_id: span[3],
                flags: spec_u32_from_le_bytes(span.subrange(4, 8)),
            },
        )
    } else if span[0] == 1 {
        InterruptController::InputOutputAPIC(
            IoApic {
                header: h,
                id: span[2],
                addr: spec_u32_from_le_bytes(span.subrange(4, 8)),
                gsi_base: spec_u32_from_le_bytes(span.subrange(8, 12)),
            },
        )
    } else if span[0] == 2 {
        InterruptController::InterruptSourceOverride(
            InterruptSourceOverride {
                header: h,
                bus: span[2],
                irq: span[3],
                gsi: spec_u32_from_le_bytes(span.subrange(4, 8)),
                flags: spec_u16_from_le_bytes(span.subrange(8, 10)),
            },
        )
    } else if span[0] == 3 {
        InterruptController::NmiSrc(
            NMISource {
                header: h,
                flags: spec_u16_from_le_bytes(span.subrange(2, 4)),
                gsi: spec_u32_from_le_bytes(span.subrange(4, 8)),
            },
        )
    } else if span[0] == 4 {
        InterruptController::LApicNmi(
            LocalAPICNMI {
                header: h,
                proc_id: span[2],
                flags: spec_u16_from_le_bytes(span.subrange(3, 5)),
                lint: span[5],
            },
        )
    } else if span[0] == 5 {
        InterruptController::LApicAddrOverride(
            LocalAPICAddrOverride { header: h, addr: spec_u64_from_le_bytes(span.subrange(4, 12)) },
        )
    } else if span[0] == 6 {
        InterruptController::IoSapic(h)
    } else if span[0] == 7 {
        InterruptController::LocalSapic(h)
    } else if span[0] == 8 {
        InterruptController::PlatformInterruptSrcs(h)
    } else if span[0] == 9 {
        InterruptController::ProcessorLocalx2APIC(h)
    } else if span[0] == 0xA {
        InterruptController::Localx2APICNmi(h)
    } else if span[0] == 0xB {
        InterruptController::GicCpu(h)
    } else if span[0] == 0xC {
        InterruptController::GicDist(h)
    } else if span[0] == 0xD {
        InterruptController::GicMsiFrame(h)
    } else if span[0] == 0xE {
        InterruptController::GicRedist(h)
    } else if span[0] == 0xF {
        InterruptController::GicIts(h)
    } else if span[0] == 0x10 {
        InterruptController::MpWakeup(h)
    } else if span[0] <= 0x7F {
        InterruptController::Reserved(h)
    } else {
        InterruptController::OemReserved(h)
    }
}

/// Classifies and decodes one record span.  All record decoding funnels
/// through here; the caller has already bounds-checked the span against the
/// table, so the whole span is readable.
pub fn decode_record(span: &[u8]) -> (r: InterruptController)
    requires
        wf_record_span(span@),
    ensures
        r == spec_decode_record(span@),
{
    let type_ = span[0];
    let h = ICHeader { type_, length: span[1] };
    if type_ == 0 {
        InterruptController::ProcessorLocalAPIC(
            ProcessorLocalAPIC {
                header: h,
                proc_id: span[2],
                apic_id: span[3],
                flags: u32_from_le_bytes(slice_subrange(span, 4, 8)),
            },
        )
    } else if type_ == 1 {
        InterruptController::InputOutputAPIC(
            IoApic {
                header: h,
                id: span[2],
                addr: u32_from_le_bytes(slice_subrange(span, 4, 8)),
                gsi_base: u32_from_le_bytes(slice_subrange(span, 8, 12)),
            },
        )
    } else if type_ == 2 {
        InterruptController::InterruptSourceOverride(
            InterruptSourceOverride {
                header: h,
                bus: span[2],
                irq: span[3],
                gsi: u32_from_le_bytes(slice_subrange(span, 4, 8)),
                flags: u16_from_le_bytes(slice_subrange(span, 8, 10)),
            },
        )
    } else if type_ == 3 {
        InterruptController::NmiSrc(
            NMISource {
                header: h,
                flags: u16_from_le_bytes(slice_subrange(span, 2, 4)),
                gsi: u32_from_le_bytes(slice_subrange(span, 4, 8)),
            },
        )
    } else if type_ == 4 {
        InterruptController::LApicNmi(
            LocalAPICNMI {
                header: h,
                proc_id: span[2],
                flags: u16_from_le_bytes(slice_subrange(span, 3, 5)),
                lint: span[5],
            },
        )
    } else if type_ == 5 {
        InterruptController::LApicAddrOverride(
            LocalAPICAddrOverride { header: h, addr: u64_from_le_bytes(slice_subrange(span, 4, 12)) },
        )
    } else if type_ == 6 {
        InterruptController::IoSapic(h)
    } else if type_ == 7 {
        InterruptController::LocalSapic(h)
    } else if type_ == 8 {
        InterruptController::PlatformInterruptSrcs(h)
    } else if type_ == 9 {
        InterruptController::ProcessorLocalx2APIC(h)
    } else if type_ == 0xA {
        InterruptController::Localx2APICNmi(h)
    } else if type_ == 0xB {
        InterruptController::GicCpu(h)
    } else if type_ == 0xC {
        InterruptController::GicDist(h)
    } else if type_ == 0xD {
        InterruptController::GicMsiFrame(h)
    } else if type_ == 0xE {
        InterruptController::GicRedist(h)
    } else if type_ == 0xF {
        InterruptController::GicIts(h)
    } else if type_ == 0x10 {
        InterruptController::MpWakeup(h)
    } else if type_ <= 0x7F {
        InterruptController::Reserved(h)
    } else {
        InterruptController::OemReserved(h)
    }
}

/// An unknown tag is not an error: a tag in the specification-reserved range
/// decodes to `Reserved`, one in the OEM-reserved range to `OemReserved`,
/// each keeping the raw sub-header.
pub proof fn lemma_reserved_ranges(span: Seq<u8>)
    requires
        wf_record_span(span),
    ensures
        0x11 <= span[0] <= 0x7F ==> spec_decode_record(span) == InterruptController::Reserved(
            (ICHeader { type_: span[0], length: span[1] }),
        ),
        0x80 <= span[0] ==> spec_decode_record(span) == InterruptController::OemReserved(
            (ICHeader { type_: span[0], length: span[1] }),
        ),
{
}

} // verus!
