//! The common system-description-table header, its checksum discipline, and
//! the root table that points at every other table.

use vstd::arithmetic::div_mod::{
    lemma_add_mod_noop, lemma_fundamental_div_mod_converse, lemma_mod_add_multiples_vanish,
    lemma_mod_self_0, lemma_mod_twice, lemma_small_mod,
};
use vstd::bytes::{
    spec_u32_from_le_bytes, spec_u64_from_le_bytes, u32_from_le_bytes, u64_from_le_bytes,
};
use vstd::prelude::*;
use vstd::slice::slice_subrange;

verus! {

/// Byte length of the fixed header shared by every system description table.
pub const SDT_HEADER_LEN: usize = 36;

/// Recoverable faults while reading a table.
#[derive(Clone, Copy, Debug, PartialEq, Eq, Structural)]
pub enum AcpiError {
    /// The bytes of the declared span do not sum to zero modulo 256.
    ChecksumInvalid,
    /// A declared length contradicts the bytes actually available.
    StructuralCorruption,
}

/// Sum of all bytes of `s`, as an unbounded integer.
pub open spec fn spec_sum_bytes(s: Seq<u8>) -> int
    decreases s.len(),
{
    if s.len() == 0 {
        0
    } else {
        spec_sum_bytes(s.drop_last()) + s.last()
    }
}

/// A byte span passes the table checksum when its bytes sum to zero modulo 256.
pub open spec fn spec_checksum_ok(s: Seq<u8>) -> bool {
    spec_sum_bytes(s) % 256 == 0
}

proof fn lemma_sum_bytes_nonneg(s: Seq<u8>)
    ensures
        spec_sum_bytes(s) >= 0,
    decreases s.len(),
{
    if s.len() > 0 {
        lemma_sum_bytes_nonneg(s.drop_last());
    }
}

proof fn lemma_sum_bytes_update(s: Seq<u8>, i: int, v: u8)
    requires
        0 <= i < s.len(),
    ensures
        spec_sum_bytes(s.update(i, v)) == spec_sum_bytes(s) - s[i] + v,
    decreases s.len(),
{
    let t = s.update(i, v);
    if i == s.len() - 1 {
        assert(t.drop_last() =~= s.drop_last());
    } else {
        assert(t.drop_last() =~= s.drop_last().update(i, v));
        assert(t.last() == s.last());
        lemma_sum_bytes_update(s.drop_last(), i, v);
    }
}

/// Any buffer admits a correct checksum: writing at position `i` the
/// complement of what the other bytes sum to makes the whole span pass.
pub proof fn lemma_checksum_completion(s: Seq<u8>, i: int, v: u8)
    requires
        0 <= i < s.len(),
        v as int == (256 - spec_sum_bytes(s.update(i, 0)) % 256) % 256,
    ensures
        spec_checksum_ok(s.update(i, v)),
{
    lemma_sum_bytes_update(s, i, 0);
    lemma_sum_bytes_update(s, i, v);
    let s0 = spec_sum_bytes(s.update(i, 0));
    lemma_sum_bytes_nonneg(s.update(i, 0));
    let m = s0 % 256;
    if m == 0 {
        lemma_small_mod(0, 256);
        assert(v == 0);
        lemma_add_mod_noop(s0, 0, 256);
        lemma_mod_twice(s0, 256);
    } else {
        lemma_small_mod((256 - m) as nat, 256);
        assert(v as int == 256 - m);
        lemma_add_mod_noop(s0, v as int, 256);
        lemma_small_mod(v as nat, 256);
        assert((m + (256 - m)) % 256 == 0) by {
            lemma_mod_self_0(256);
        }
    }
}

/// Flipping any single byte of a span that passes the checksum makes it
/// fail: two spans differing in exactly one byte never both pass.
pub proof fn lemma_checksum_byte_flip(s: Seq<u8>, i: int, v: u8)
    requires
        0 <= i < s.len(),
        v != s[i],
        spec_checksum_ok(s),
    ensures
        !spec_checksum_ok(s.update(i, v)),
{
    lemma_sum_bytes_update(s, i, v);
    let d = v - s[i];
    lemma_add_mod_noop(spec_sum_bytes(s), d, 256);
    lemma_mod_twice(d, 256);
    if d > 0 {
        lemma_small_mod(d as nat, 256);
    } else {
        lemma_mod_add_multiples_vanish(d, 256);
        lemma_small_mod((d + 256) as nat, 256);
    }
}

/// Reports whether `span` passes the table checksum.
pub fn checksum_valid(span: &[u8]) -> (r: bool)
    ensures
        r == spec_checksum_ok(span@),
{
    let mut acc: u32 = 0;
    let mut i: usize = 0;
    while i < span.len()
        invariant
            i <= span@.len(),
            acc == spec_sum_bytes(span@.take(i as int)) % 256,
        decreases span@.len() - i,
    {
        proof {
            lemma_sum_bytes_nonneg(span@.take(i as int));
            lemma_add_mod_noop(spec_sum_bytes(span@.take(i as int)), span@[i as int] as int, 256);
            lemma_small_mod(span@[i as int] as nat, 256);
            assert(span@.take(i as int + 1).drop_last() =~= span@.take(i as int));
            assert(span@.take(i as int + 1).last() == span@[i as int]);
        }
        acc = (acc + span[i] as u32) % 256;
        i = i + 1;
    }
    proof {
        assert(span@.take(span@.len() as int) =~= span@);
    }
    acc == 0
}

/// Signature bytes of the table whose first byte is `t[0]`.
pub open spec fn spec_signature(t: Seq<u8>) -> Seq<u8> {
    t.subrange(0, 4)
}

/// Declared total length of the table, header included.
pub open spec fn spec_length(t: Seq<u8>) -> u32 {
    spec_u32_from_le_bytes(t.subrange(4, 8))
}

/// Revision field of the header.
pub open spec fn spec_revision(t: Seq<u8>) -> u8 {
    t[8]
}

/// Stored checksum byte of the header.
pub open spec fn spec_checksum_field(t: Seq<u8>) -> u8 {
    t[9]
}

/// OEM identifier bytes of the header.
pub open spec fn spec_oem_id(t: Seq<u8>) -> Seq<u8> {
    t.subrange(10, 16)
}

/// OEM table identifier bytes of the header.
pub open spec fn spec_oem_table_id(t: Seq<u8>) -> Seq<u8> {
    t.subrange(16, 24)
}

/// OEM revision field of the header.
pub open spec fn spec_oem_revision(t: Seq<u8>) -> u32 {
    spec_u32_from_le_bytes(t.subrange(24, 28))
}

/// Creator identifier field of the header.
pub open spec fn spec_creator_id(t: Seq<u8>) -> u32 {
    spec_u32_from_le_bytes(t.subrange(28, 32))
}

/// Creator revision field of the header.
pub open spec fn spec_creator_revision(t: Seq<u8>) -> u32 {
    spec_u32_from_le_bytes(t.subrange(32, 36))
}

/// A read-only view of a system description table, starting at the table's
/// first byte.  The view may extend past the table's declared length; no
/// field accessor reads beyond the fixed header, and the checksum reads only
/// the declared span after checking that it fits.
#[derive(Clone, Copy)]
pub struct SdtHeader<'a> {
    bytes: &'a [u8],
}

impl<'a> View for SdtHeader<'a> {
    type V = Seq<u8>;

    closed spec fn view(&self) -> Seq<u8> {
        self.bytes@
    }
}

impl<'a> SdtHeader<'a> {
    /// The view holds at least the fixed header.
    pub open spec fn wf(self) -> bool {
        SDT_HEADER_LEN <= self@.len()
    }

    /// Takes a view of the bytes at and after a table's first byte.
    /// Fails exactly when they cannot hold the fixed header.
    pub fn new(bytes: &'a [u8]) -> (r: Option<SdtHeader<'a>>)
        ensures
            match r {
                Some(h) => h@ == bytes@ && h.wf(),
                None => bytes@.len() < SDT_HEADER_LEN,
            },
    {
        if bytes.len() < SDT_HEADER_LEN {
            None
        } else {
            Some(SdtHeader { bytes })
        }
    }

    /// The bytes the header was built over.
    pub fn as_bytes(&self) -> (r: &'a [u8])
        ensures
            r@ == self@,
    {
        self.bytes
    }

    /// The 4-byte signature identifying the table kind.
    pub fn signature(&self) -> (r: &'a [u8])
        requires
            self.wf(),
        ensures
            r@ == spec_signature(self@),
    {
        slice_subrange(self.bytes, 0, 4)
    }

    /// Declared total byte length of the table, header included.
    pub fn length(&self) -> (r: u32)
        requires
            self.wf(),
        ensures
            r == spec_length(self@),
    {
        u32_from_le_bytes(slice_subrange(self.bytes, 4, 8))
    }

    /// Revision field.
    pub fn revision(&self) -> (r: u8)
        requires
            self.wf(),
        ensures
            r == spec_revision(self@),
    {
        self.bytes[8]
    }

    /// Stored checksum byte.
    pub fn checksum(&self) -> (r: u8)
        requires
            self.wf(),
        ensures
            r == spec_checksum_field(self@),
    {
        self.bytes[9]
    }

    /// OEM identifier bytes.
    pub fn oem_id(&self) -> (r: &'a [u8])
        requires
            self.wf(),
        ensures
            r@ == spec_oem_id(self@),
    {
        slice_subrange(self.bytes, 10, 16)
    }

    /// OEM table identifier bytes.
    pub fn oem_table_id(&self) -> (r: &'a [u8])
        requires
            self.wf(),
        ensures
            r@ == spec_oem_table_id(self@),
    {
        slice_subrange(self.bytes, 16, 24)
    }

    /// OEM revision field.
    pub fn oem_revision(&self) -> (r: u32)
        requires
            self.wf(),
        ensures
            r == spec_oem_revision(self@),
    {
        u32_from_le_bytes(slice_subrange(self.bytes, 24, 28))
    }

    /// Creator identifier field.
    pub fn creator_id(&self) -> (r: u32)
        requires
            self.wf(),
        ensures
            r == spec_creator_id(self@),
    {
        u32_from_le_bytes(slice_subrange(self.bytes, 28, 32))
    }

    /// Creator revision field.
    pub fn creator_revision(&self) -> (r: u32)
        requires
            self.wf(),
        ensures
            r == spec_creator_revision(self@),
    {
        u32_from_le_bytes(slice_subrange(self.bytes, 32, 36))
    }

    /// Whether the table's declared span lies within the view and passes the
    /// checksum.  A table failing this is never structurally trustworthy,
    /// though its header fields stay readable.
    pub fn checksum_ok(&self) -> (r: bool)
        requires
            self.wf(),
        ensures
            r == (spec_length(self@) <= self@.len() && spec_checksum_ok(
                self@.take(spec_length(self@) as int),
            )),
    {
        let len = self.length();
        if len as usize <= self.bytes.len() {
            let r = checksum_valid(slice_subrange(self.bytes, 0, len as usize));
            proof {
                assert(self@.subrange(0, len as int) =~= self@.take(len as int));
            }
            r
        } else {
            false
        }
    }

    /// Whether the view's signature equals the 4 bytes of `sig`.
    pub fn signature_is(&self, sig: &[u8]) -> (r: bool)
        requires
            self.wf(),
            sig@.len() == 4,
        ensures
            r == (spec_signature(self@) == sig@),
    {
        bytes4_eq(slice_subrange(self.bytes, 0, 4), sig)
    }

    /// The checksum outcome as a result, `Err(ChecksumInvalid)` exactly when
    /// `checksum_ok` would report `false`.
    pub fn validate(&self) -> (r: Result<(), AcpiError>)
        requires
            self.wf(),
        ensures
            r == Ok::<(), AcpiError>(()) <==> (spec_length(self@) <= self@.len()
                && spec_checksum_ok(self@.take(spec_length(self@) as int))),
            r is Err ==> r == Err::<(), AcpiError>(AcpiError::ChecksumInvalid),
    {
        if self.checksum_ok() {
            Ok(())
        } else {
            Err(AcpiError::ChecksumInvalid)
        }
    }
}

/// Compares two 4-byte spans for equality.
fn bytes4_eq(a: &[u8], b: &[u8]) -> (r: bool)
    requires
        a@.len() == 4,
        b@.len() == 4,
    ensures
        r == (a@ == b@),
{
    let r = a[0] == b[0] && a[1] == b[1] && a[2] == b[2] && a[3] == b[3];
    proof {
        if r {
            assert(a@ =~= b@);
        }
    }
    r
}

/// Signature of the extended root table, whose pointer slots are 8 bytes wide.
pub open spec fn spec_xsdt_signature() -> Seq<u8> {
    seq![0x58u8, 0x53u8, 0x44u8, 0x54u8]
}

/// Whether the table starting at `t[0]` is the extended root table.
pub open spec fn spec_is_xsdt(t: Seq<u8>) -> bool {
    spec_signature(t) == spec_xsdt_signature()
}

/// Width in bytes of one pointer slot in the root table's body.
pub open spec fn spec_ptr_width(t: Seq<u8>) -> int {
    if spec_is_xsdt(t) {
        8
    } else {
        4
    }
}

/// Number of whole pointer slots in the root table's body.
pub open spec fn spec_entry_count(t: Seq<u8>) -> int {
    (spec_length(t) - SDT_HEADER_LEN) / spec_ptr_width(t)
}

/// Pointer value held by slot `i` of the root table's body.
pub open spec fn spec_entry(t: Seq<u8>, i: int) -> u64 {
    if spec_is_xsdt(t) {
        spec_u64_from_le_bytes(t.subrange(SDT_HEADER_LEN + 8 * i, SDT_HEADER_LEN + 8 * i + 8))
    } else {
        spec_u32_from_le_bytes(
            t.subrange(SDT_HEADER_LEN + 4 * i, SDT_HEADER_LEN + 4 * i + 4),
        ) as u64
    }
}

/// Whether the pointer value `p` denotes a readable header in `region` whose
/// signature equals `sig`.
pub open spec fn spec_entry_matches(region: Seq<u8>, p: u64, sig: Seq<u8>) -> bool {
    &&& p + SDT_HEADER_LEN <= region.len()
    &&& spec_signature(region.subrange(p as int, region.len() as int)) == sig
}

/// The root system description table: a header followed by a packed array of
/// pointer values, each the offset of another table inside the same mapped
/// read-only region.  The region stands for the span of physical memory the
/// boot layer has made safely readable; this table never maps memory itself.
#[derive(Clone, Copy)]
pub struct Rsdt<'a> {
    mem: &'a [u8],
    off: usize,
}

impl<'a> Rsdt<'a> {
    /// The whole mapped region the table lives in.
    pub closed spec fn region(self) -> Seq<u8> {
        self.mem@
    }

    /// Offset of the table's first byte inside the region.
    pub closed spec fn offset(self) -> int {
        self.off as int
    }

    /// The table's own bytes: the region from its first byte on.
    pub open spec fn table(self) -> Seq<u8> {
        self.region().subrange(self.offset(), self.region().len() as int)
    }

    /// The header span and the declared table span both lie inside the region.
    pub open spec fn wf(self) -> bool {
        &&& self.offset() + SDT_HEADER_LEN <= self.region().len()
        &&& SDT_HEADER_LEN <= spec_length(self.table())
        &&& self.offset() + spec_length(self.table()) <= self.region().len()
    }

    /// Takes a view of the root table at byte offset `off` of `mem`.  Fails
    /// exactly when the header or the declared table span would run out of
    /// the region.
    pub fn new(mem: &'a [u8], off: usize) -> (r: Result<Rsdt<'a>, AcpiError>)
        ensures
            match r {
                Ok(t) => {
                    &&& t.region() == mem@
                    &&& t.offset() == off
                    &&& t.wf()
                },
                Err(e) => {
                    &&& e == AcpiError::StructuralCorruption
                    &&& !{
                        &&& off + SDT_HEADER_LEN <= mem@.len()
                        &&& SDT_HEADER_LEN <= spec_length(
                            mem@.subrange(off as int, mem@.len() as int),
                        )
                        &&& off + spec_length(mem@.subrange(off as int, mem@.len() as int))
                            <= mem@.len()
                    }
                },
            },
    {
        if mem.len() < SDT_HEADER_LEN || off > mem.len() - SDT_HEADER_LEN {
            return Err(AcpiError::StructuralCorruption);
        }
        let len = u32_from_le_bytes(slice_subrange(mem, off + 4, off + 8));
        proof {
            assert(mem@.subrange(off + 4, off + 8) =~= mem@.subrange(
                off as int,
                mem@.len() as int,
            ).subrange(4, 8));
        }
        if len < SDT_HEADER_LEN as u32 || len as usize > mem.len() - off {
            return Err(AcpiError::StructuralCorruption);
        }
        Ok(Rsdt { mem, off })
    }

    /// The table's header view.
    pub fn header(&self) -> (h: SdtHeader<'a>)
        requires
            self.wf(),
        ensures
            h@ == self.table(),
            h.wf(),
    {
        SdtHeader { bytes: slice_subrange(self.mem, self.off, self.mem.len()) }
    }

    /// Whether this is the extended root table, with 8-byte pointer slots.
    pub fn is_extended(&self) -> (r: bool)
        requires
            self.wf(),
        ensures
            r == spec_is_xsdt(self.table()),
    {
        let n = self.mem.len();
        let sig: [u8; 4] = [0x58, 0x53, 0x44, 0x54];
        let r = bytes4_eq(
            slice_subrange(self.mem, self.off, self.off + 4),
            sig.as_slice(),
        );
        proof {
            assert(self.region().subrange(self.offset(), self.offset() + 4)
                =~= spec_signature(self.table()));
            assert(sig@ =~= spec_xsdt_signature());
        }
        r
    }

    /// The pointer values of the table's body, in slot order.
    pub fn entries(&self) -> (r: Vec<u64>)
        requires
            self.wf(),
        ensures
            r@.len() == spec_entry_count(self.table()),
            forall|j: int|
                0 <= j < r@.len() ==> r@[j] == spec_entry(self.table(), j),
    {
        let n = self.mem.len();
        let width: usize = if self.is_extended() {
            8
        } else {
            4
        };
        let len = u32_from_le_bytes(slice_subrange(self.mem, self.off + 4, self.off + 8));
        proof {
            assert(self.region().subrange(self.offset() + 4, self.offset() + 8)
                =~= self.table().subrange(4, 8));
        }
        let mut r: Vec<u64> = Vec::new();
        let mut pos: usize = SDT_HEADER_LEN;
        while width <= len as usize - pos
            invariant
                self.wf(),
                n == self.region().len(),
                width == spec_ptr_width(self.table()),
                len == spec_length(self.table()),
                SDT_HEADER_LEN <= pos <= len as usize,
                pos == SDT_HEADER_LEN + r@.len() * width,
                forall|j: int|
                    0 <= j < r@.len() ==> r@[j] == spec_entry(self.table(), j),
            decreases len as int - pos,
        {
            let ghost i = r@.len() as int;
            let p: u64 = if width == 8 {
                u64_from_le_bytes(slice_subrange(self.mem, self.off + pos, self.off + pos + 8))
            } else {
                u32_from_le_bytes(
                    slice_subrange(self.mem, self.off + pos, self.off + pos + 4),
                ) as u64
            };
            proof {
                assert(self.region().subrange(
                    self.offset() + pos,
                    self.offset() + pos + width,
                ) =~= self.table().subrange(pos as int, pos + width));
                assert(p == spec_entry(self.table(), i));
                assert((r@.len() + 1) * width == r@.len() * width + width) by (nonlinear_arith);
            }
            r.push(p);
            pos = pos + width;
        }
        proof {
            lemma_fundamental_div_mod_converse(
                spec_length(self.table()) - SDT_HEADER_LEN,
                width as int,
                r@.len() as int,
                len as int - pos,
            );
        }
        r
    }

    /// Where the first matching slot stands, scanning from slot `i` on: the
    /// least slot at or after `i` whose pointer denotes a readable header
    /// with signature `sig`.
    pub open spec fn spec_first_match(self, sig: Seq<u8>, i: int) -> Option<int>
        decreases spec_entry_count(self.table()) - i,
    {
        if i < 0 || i >= spec_entry_count(self.table()) {
            None
        } else if spec_entry_matches(self.region(), spec_entry(self.table(), i), sig) {
            Some(i)
        } else {
            self.spec_first_match(sig, i + 1)
        }
    }

    /// Looks the signature up in the pointer array: reads the header each
    /// pointer denotes and returns the first whose signature matches, in slot
    /// order.  `None` is the normal outcome of a signature that no slot
    /// denotes; a pointer whose header would run out of the region is passed
    /// over.
    pub fn find_table(&self, sig: &[u8]) -> (r: Option<SdtHeader<'a>>)
        requires
            self.wf(),
            sig@.len() == 4,
        ensures
            match r {
                Some(h) => {
                    &&& self.spec_first_match(sig@, 0) is Some
                    &&& h@ == self.region().subrange(
                        spec_entry(
                            self.table(),
                            self.spec_first_match(sig@, 0).unwrap(),
                        ) as int,
                        self.region().len() as int,
                    )
                    &&& h.wf()
                    &&& spec_signature(h@) == sig@
                },
                None => self.spec_first_match(sig@, 0) is None,
            },
    {
        let n = self.mem.len();
        let entries = self.entries();
        let mut i: usize = 0;
        while i < entries.len()
            invariant
                self.wf(),
                sig@.len() == 4,
                n == self.region().len(),
                entries@.len() == spec_entry_count(self.table()),
                forall|j: int|
                    0 <= j < entries@.len() ==> entries@[j] == spec_entry(self.table(), j),
                i <= entries@.len(),
                self.spec_first_match(sig@, 0) == self.spec_first_match(sig@, i as int),
            decreases entries@.len() - i,
        {
            let p = entries[i];
            if p <= (n - SDT_HEADER_LEN) as u64 {
                let pu = p as usize;
                proof {
                    assert(self.region().subrange(pu as int, pu + 4) =~= spec_signature(
                        self.region().subrange(pu as int, self.region().len() as int),
                    ));
                }
                if bytes4_eq(slice_subrange(self.mem, pu, pu + 4), sig) {
                    proof {
                        assert(spec_entry_matches(self.region(), p, sig@));
                    }
                    return Some(SdtHeader { bytes: slice_subrange(self.mem, pu, n) });
                }
            }
            proof {
                assert(!spec_entry_matches(self.region(), p, sig@));
            }
            i = i + 1;
        }
        None
    }
}

} // verus!
