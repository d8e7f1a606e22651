//! The Multiple APIC Description Table: its fixed prefix and the lazy,
//! bounds-checked walk over its variable-length interrupt-controller
//! records.
//!
//! The record stream is self-describing: only a record's own embedded
//! length field locates the next record, so the walk is inherently
//! sequential.  A record whose declared length is shorter than its tag's
//! fixed shape, or would push the cursor past the table's declared span, is
//! structural corruption: the walk ends there rather than trusting the
//! record, so every record handed out was read in bounds.

use crate::ic::{
    decode_record, min_record_len, spec_decode_record, spec_min_record_len, wf_record_span,
    InterruptController,
};
use crate::tables::{spec_length, AcpiError, SdtHeader, SDT_HEADER_LEN};
use vstd::bytes::{spec_u32_from_le_bytes, u32_from_le_bytes};
use vstd::prelude::*;
use vstd::slice::slice_subrange;

verus! {

/// Byte length of the MADT's fixed part: the table header followed by the
/// local interrupt controller address and the flag word.
pub const MADT_HEADER_LEN: usize = 44;

/// The MADT flag word.  Bit 0 reports legacy dual-8259 presence; bits 1
/// through 31 are reserved, held opaque, and exposed by no accessor.
#[derive(Clone, Copy, Debug, PartialEq, Eq, Structural)]
pub struct MADTFlags {
    bits: u32,
}

impl MADTFlags {
    /// The raw flag word the value was built from.
    pub closed spec fn spec_bits(self) -> u32 {
        self.bits
    }

    /// Whether bit 0, and bit 0 alone, is set.
    pub open spec fn spec_pcat_compat(self) -> bool {
        self.spec_bits() & 1u32 == 1u32
    }

    /// Wraps a raw flag word.
    pub fn new(bits: u32) -> (r: MADTFlags)
        ensures
            r.spec_bits() == bits,
    {
        MADTFlags { bits }
    }

    /// Whether the platform also has the legacy dual-8259 interrupt
    /// controllers.
    pub fn pcat_compat(&self) -> (r: bool)
        ensures
            r == self.spec_pcat_compat(),
    {
        self.bits & 1 == 1
    }
}

/// The one defined flag reads only bit 0: two flag words agreeing there
/// agree on it, whatever their reserved bits hold.
pub proof fn lemma_pcat_compat_ignores_reserved(a: MADTFlags, b: MADTFlags)
    requires
        a.spec_bits() & 1 == b.spec_bits() & 1,
    ensures
        a.spec_pcat_compat() == b.spec_pcat_compat(),
{
}

/// Setting bit 0 over any reserved-bit pattern reports legacy presence;
/// clearing bit 0 over any pattern reports its absence.
pub proof fn lemma_pcat_compat_bit_isolation(f: MADTFlags, pattern: u32)
    ensures
        f.spec_bits() == pattern | 1u32 ==> f.spec_pcat_compat(),
        f.spec_bits() == pattern & !1u32 ==> !f.spec_pcat_compat(),
{
    assert((pattern | 1u32) & 1u32 == 1u32) by (bit_vector);
    assert((pattern & !1u32) & 1u32 == 0u32) by (bit_vector);
}

/// The records the table body denotes, starting at byte `cursor` of `body`:
/// records decoded in on-disk order until the body is exhausted or a record
/// fails to describe itself within bounds.
pub open spec fn spec_records_from(body: Seq<u8>, cursor: int) -> Seq<InterruptController>
    decreases body.len() - cursor,
{
    if !(0 <= cursor < body.len()) {
        Seq::empty()
    } else if cursor + 2 > body.len() {
        Seq::empty()
    } else {
        let len = body[cursor + 1] as int;
        if len < spec_min_record_len(body[cursor]) || cursor + len > body.len() {
            Seq::empty()
        } else {
            seq![spec_decode_record(body.subrange(cursor, cursor + len))] + spec_records_from(
                body,
                cursor + len,
            )
        }
    }
}

/// A record that cannot describe itself within bounds ends the denoted
/// sequence: nothing at or after it is trusted.
pub proof fn lemma_malformed_record_stops(body: Seq<u8>, cursor: int)
    requires
        0 <= cursor < body.len(),
        cursor + 2 <= body.len(),
        (body[cursor + 1] as int) < spec_min_record_len(body[cursor]) || cursor + (body[cursor
            + 1] as int) > body.len(),
    ensures
        spec_records_from(body, cursor) == Seq::<InterruptController>::empty(),
{
}

proof fn lemma_records_shift(pre: Seq<u8>, body: Seq<u8>, c: int)
    requires
        0 <= c <= body.len(),
    ensures
        spec_records_from(pre + body, pre.len() + c) == spec_records_from(body, c),
    decreases body.len() - c,
{
    let whole = pre + body;
    let wc = pre.len() + c;
    if c < body.len() {
        assert(whole[wc] == body[c]);
        if c + 2 <= body.len() {
            assert(whole[wc + 1] == body[c + 1]);
            let len = body[c + 1] as int;
            if spec_min_record_len(body[c]) <= len && c + len <= body.len() {
                assert(whole.subrange(wc, wc + len) =~= body.subrange(c, c + len));
                lemma_records_shift(pre, body, c + len);
            }
        }
    }
}

/// Iteration is complete: a body that is one well-formed record span
/// followed by more bytes denotes that record and then exactly what the
/// following bytes denote.  Applied span by span, a body built by
/// concatenating well-formed records of any lengths denotes those records,
/// in order, and nothing else.
pub proof fn lemma_records_of_concat(span: Seq<u8>, rest: Seq<u8>)
    requires
        wf_record_span(span),
    ensures
        spec_records_from(span + rest, 0) == seq![spec_decode_record(span)] + spec_records_from(
            rest,
            0,
        ),
{
    let whole = span + rest;
    assert(whole[0] == span[0]);
    assert(whole[1] == span[1]);
    assert(whole.subrange(0, span.len() as int) =~= span);
    lemma_records_shift(span, rest, 0);
}

/// A Multiple APIC Description Table, viewed over the caller's mapped
/// read-only bytes.  The view starts at the table's first byte and holds at
/// least the declared span; the fixed prefix and the record walk never read
/// past that span.
#[derive(Clone, Copy)]
pub struct Madt<'a> {
    bytes: &'a [u8],
}

impl<'a> View for Madt<'a> {
    type V = Seq<u8>;

    closed spec fn view(&self) -> Seq<u8> {
        self.bytes@
    }
}

impl<'a> Madt<'a> {
    /// The fixed prefix and the declared span both lie inside the view.
    pub open spec fn wf(self) -> bool {
        &&& MADT_HEADER_LEN <= spec_length(self@)
        &&& spec_length(self@) <= self@.len()
    }

    /// The table body: the declared span after the fixed prefix, where the
    /// interrupt-controller records lie.
    pub open spec fn spec_body(self) -> Seq<u8> {
        self@.subrange(MADT_HEADER_LEN as int, spec_length(self@) as int)
    }

    /// The records the table denotes, in on-disk order.
    pub open spec fn spec_records(self) -> Seq<InterruptController> {
        spec_records_from(self.spec_body(), 0)
    }

    /// Physical address of the legacy local interrupt controller, promoted
    /// to 64 bits.
    pub open spec fn spec_local_ic_addr(self) -> u64 {
        spec_u32_from_le_bytes(self@.subrange(36, 40)) as u64
    }

    /// The raw MADT flag word.
    pub open spec fn spec_flags_bits(self) -> u32 {
        spec_u32_from_le_bytes(self@.subrange(40, 44))
    }

    /// Takes a view of a MADT whose first byte is `bytes[0]`.  Fails exactly
    /// when the declared length cannot hold the fixed prefix or runs out of
    /// the given bytes.
    pub fn new(bytes: &'a [u8]) -> (r: Result<Madt<'a>, AcpiError>)
        ensures
            match r {
                Ok(t) => {
                    &&& t@ == bytes@
                    &&& t.wf()
                },
                Err(e) => {
                    &&& e == AcpiError::StructuralCorruption
                    &&& !(bytes@.len() >= MADT_HEADER_LEN && MADT_HEADER_LEN <= spec_length(bytes@)
                        <= bytes@.len())
                },
            },
    {
        if bytes.len() < MADT_HEADER_LEN {
            return Err(AcpiError::StructuralCorruption);
        }
        let len = u32_from_le_bytes(slice_subrange(bytes, 4, 8));
        if len < MADT_HEADER_LEN as u32 || len as usize > bytes.len() {
            return Err(AcpiError::StructuralCorruption);
        }
        Ok(Madt { bytes })
    }

    /// The table's header view.
    pub fn header(&self) -> (h: SdtHeader<'a>)
        requires
            self.wf(),
        ensures
            h@ == self@,
            h.wf(),
    {
        match SdtHeader::new(self.bytes) {
            Some(h) => h,
            None => vstd::pervasive::unreached(),
        }
    }

    /// Physical address of the legacy local interrupt controller, promoted
    /// to 64 bits.
    pub fn local_ic_addr(&self) -> (r: u64)
        requires
            self.wf(),
        ensures
            r == self.spec_local_ic_addr(),
    {
        u32_from_le_bytes(slice_subrange(self.bytes, 36, 40)) as u64
    }

    /// The MADT flag word.
    pub fn flags(&self) -> (r: MADTFlags)
        requires
            self.wf(),
        ensures
            r.spec_bits() == self.spec_flags_bits(),
    {
        MADTFlags::new(u32_from_le_bytes(slice_subrange(self.bytes, 40, 44)))
    }

    /// A fresh cursor over the table's records, positioned at the first.
    pub fn as_iter(&self) -> (it: MadtIter<'a>)
        requires
            self.wf(),
        ensures
            it.wf(),
            it.spec_body() == self.spec_body(),
            it.remaining() == self.spec_records(),
    {
        let len = u32_from_le_bytes(slice_subrange(self.bytes, 4, 8));
        MadtIter { body: slice_subrange(self.bytes, MADT_HEADER_LEN, len as usize), curr: 0 }
    }

    /// All records of the table, decoded in on-disk order.
    pub fn records(&self) -> (r: Vec<InterruptController>)
        requires
            self.wf(),
        ensures
            r@ == self.spec_records(),
    {
        let mut it = self.as_iter();
        let mut v: Vec<InterruptController> = Vec::new();
        loop
            invariant
                it.wf(),
                v@ + it.remaining() == self.spec_records(),
            ensures
                v@ == self.spec_records(),
            decreases it.spec_body().len() - it.spec_curr(),
        {
            match it.next() {
                Some(rec) => {
                    proof {
                        assert(v@.push(rec) + it.remaining() =~= v@ + (seq![rec]
                            + it.remaining()));
                        assert(seq![rec] + it.remaining() =~= seq![rec].add(
                            it.remaining(),
                        ));
                    }
                    v.push(rec);
                },
                None => {
                    proof {
                        assert(v@ + it.remaining() =~= v@);
                    }
                    break ;
                },
            }
        }
        v
    }
}

/// A cursor-based lazy walk over a MADT body.  Each call of `next` consumes
/// one record; a fresh walk needs a fresh cursor from `Madt::as_iter`.
pub struct MadtIter<'a> {
    body: &'a [u8],
    curr: usize,
}

impl<'a> MadtIter<'a> {
    /// The body bytes the cursor walks.
    pub closed spec fn spec_body(self) -> Seq<u8> {
        self.body@
    }

    /// Bytes consumed so far.
    pub closed spec fn spec_curr(self) -> int {
        self.curr as int
    }

    /// The cursor lies within the body.
    pub open spec fn wf(self) -> bool {
        0 <= self.spec_curr() <= self.spec_body().len()
    }

    /// The records not yet consumed.
    pub open spec fn remaining(self) -> Seq<InterruptController> {
        spec_records_from(self.spec_body(), self.spec_curr())
    }

    /// Consumes and yields the next record.  Yields `None` once the body is
    /// exhausted, and also at the first record that fails to describe
    /// itself within bounds: a malformed length never moves the cursor past
    /// the body, and ends the walk.
    pub fn next(&mut self) -> (r: Option<InterruptController>)
        requires
            old(self).wf(),
        ensures
            final(self).wf(),
            final(self).spec_body() == old(self).spec_body(),
            match r {
                Some(rec) => {
                    &&& old(self).remaining().len() > 0
                    &&& rec == old(self).remaining()[0]
                    &&& final(self).remaining() == old(self).remaining().drop_first()
                    &&& old(self).spec_curr() < final(self).spec_curr()
                },
                None => {
                    &&& old(self).remaining() == Seq::<InterruptController>::empty()
                    &&& final(self).remaining() == Seq::<InterruptController>::empty()
                },
            },
    {
        let total = self.body.len();
        if self.curr >= total {
            return None;
        }
        if total - self.curr < 2 {
            self.curr = total;
            return None;
        }
        let type_ = self.body[self.curr];
        let len = self.body[self.curr + 1] as usize;
        if len < min_record_len(type_) || len > total - self.curr {
            self.curr = total;
            return None;
        }
        let span = slice_subrange(self.body, self.curr, self.curr + len);
        let rec = decode_record(span);
        proof {
            assert(old(self).remaining() == seq![rec] + spec_records_from(
                old(self).spec_body(),
                old(self).spec_curr() + len,
            ));
            assert(old(self).remaining().drop_first() =~= spec_records_from(
                old(self).spec_body(),
                old(self).spec_curr() + len,
            ));
        }
        self.curr = self.curr + len;
        Some(rec)
    }
}

} // verus!
