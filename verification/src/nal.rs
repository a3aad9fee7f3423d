//! Annex-B H.264 byte streams: finding the NAL units and lifting the
//! parameter sets out of an access unit.
use crate::bytes::{append_bytes, copy_range};
use vstd::prelude::*;

verus! {

/// NAL type of a coded slice of an IDR picture.
pub const NAL_IDR: u8 = 5;

/// NAL type of a sequence parameter set.
pub const NAL_SPS: u8 = 7;

/// NAL type of a picture parameter set.
pub const NAL_PPS: u8 = 8;

/// The three bytes in front of `o` are the start code `00 00 01`.
pub open spec fn start_code_before(buf: Seq<u8>, o: int) -> bool {
    &&& 3 <= o <= buf.len()
    &&& buf[o - 3] == 0
    &&& buf[o - 2] == 0
    &&& buf[o - 1] == 1
}

/// `o` is the first NAL byte whose start code lies wholly at or behind `pos`.
pub open spec fn is_next_nal(buf: Seq<u8>, pos: int, o: int) -> bool {
    &&& pos + 3 <= o < buf.len()
    &&& start_code_before(buf, o)
    &&& forall|p: int| pos + 3 <= p < o ==> !start_code_before(buf, p)
}

/// No NAL byte has its start code at or behind `pos`.
pub open spec fn no_nal_from(buf: Seq<u8>, pos: int) -> bool {
    forall|p: int| pos + 3 <= p < buf.len() ==> !start_code_before(buf, p)
}

/// The type field of a NAL byte: its low five bits.
pub open spec fn nal_type_of(byte: u8) -> u8 {
    byte & 0x1F
}

/// The walk over the NAL units from `pos` on: for each the offset of its NAL
/// byte and its type. After a unit the search goes on behind its NAL byte.
pub open spec fn nals_from(buf: Seq<u8>, pos: int) -> Seq<(usize, u8)>
    decreases buf.len() - pos,
{
    if pos + 3 >= buf.len() {
        Seq::empty()
    } else if start_code_before(buf, pos + 3) {
        seq![((pos + 3) as usize, nal_type_of(buf[pos + 3]))] + nals_from(buf, pos + 4)
    } else {
        nals_from(buf, pos + 1)
    }
}

/// Every NAL unit of `buf`, in order.
pub open spec fn nals(buf: Seq<u8>) -> Seq<(usize, u8)> {
    nals_from(buf, 0)
}

/// `buf` holds a NAL unit of type `target`.
pub open spec fn has_nal_type(buf: Seq<u8>, target: u8) -> bool {
    exists|k: int| 0 <= k < nals(buf).len() && (#[trigger] nals(buf)[k]).1 == target
}

/// The walk from `pos` is: nothing, or the next NAL unit and then the walk
/// behind its NAL byte.
pub proof fn lemma_nals_from_next(buf: Seq<u8>, pos: int, o: int)
    requires
        0 <= pos,
        is_next_nal(buf, pos, o),
    ensures
        nals_from(buf, pos) == seq![(o as usize, nal_type_of(buf[o]))] + nals_from(buf, o + 1),
    decreases o - pos,
{
    if o != pos + 3 {
        assert(!start_code_before(buf, pos + 3));
        lemma_nals_from_next(buf, pos + 1, o);
    }
}

/// Where no NAL byte follows, the walk is empty.
pub proof fn lemma_nals_from_none(buf: Seq<u8>, pos: int)
    requires
        0 <= pos,
        no_nal_from(buf, pos),
    ensures
        nals_from(buf, pos) == Seq::<(usize, u8)>::empty(),
    decreases buf.len() - pos,
{
    if pos + 3 < buf.len() {
        assert(!start_code_before(buf, pos + 3));
        lemma_nals_from_none(buf, pos + 1);
    }
}

/// Walks the Annex-B start codes of a buffer.
pub struct NalIter<'a> {
    buf: &'a [u8],
    pos: usize,
}

impl<'a> NalIter<'a> {
    #[verifier::type_invariant]
    spec fn in_range(self) -> bool {
        self.pos <= self.buf@.len()
    }

    /// The buffer that is walked.
    pub closed spec fn buffer(self) -> Seq<u8> {
        self.buf@
    }

    /// What the walk has still to yield.
    pub closed spec fn remaining(self) -> Seq<(usize, u8)> {
        nals_from(self.buf@, self.pos as int)
    }

    /// The next NAL unit: the offset of its NAL byte and its type.
    pub fn next(&mut self) -> (r: Option<(usize, u8)>)
        ensures
            final(self).buffer() == old(self).buffer(),
            r is Some <==> old(self).remaining().len() > 0,
            r matches Some(unit) ==> unit == old(self).remaining()[0] && final(self).remaining()
                == old(self).remaining().drop_first(),
            r is None ==> final(self).remaining().len() == 0,
            r matches Some(unit) ==> unit.0 < old(self).buffer().len(),
    {
        proof {
            use_type_invariant(&*self);
        }
        let buf = self.buf;
        let ghost start: int = self.pos as int;
        while buf.len() - self.pos > 3
            invariant
                buf@ == self.buf@,
                self.buf@ == old(self).buf@,
                start == old(self).pos,
                start <= self.pos <= buf@.len(),
                forall|p: int| start + 3 <= p < self.pos + 3 ==> !start_code_before(buf@, p),
            decreases buf@.len() - self.pos,
        {
            let i: usize = self.pos;
            if buf[i] == 0 && buf[i + 1] == 0 {
                let nt_off: usize = if buf[i + 2] == 0 && buf[i + 3] == 1 {
                    i + 4
                } else if buf[i + 2] == 1 {
                    i + 3
                } else {
                    self.pos = i + 1;
                    continue;
                };
                if nt_off >= buf.len() {
                    proof {
                        assert(no_nal_from(buf@, start));
                        assert(no_nal_from(buf@, i as int));
                        lemma_nals_from_none(buf@, start);
                        lemma_nals_from_none(buf@, i as int);
                    }
                    return None;
                }
                let nal_type: u8 = buf[nt_off] & 0x1F;
                proof {
                    assert(start_code_before(buf@, nt_off as int));
                    assert(is_next_nal(buf@, start, nt_off as int));
                    lemma_nals_from_next(buf@, start, nt_off as int);
                }
                self.pos = nt_off + 1;
                assert(self.remaining() =~= old(self).remaining().drop_first());
                return Some((nt_off, nal_type));
            } else {
                self.pos = i + 1;
            }
        }
        proof {
            assert(no_nal_from(buf@, start));
            lemma_nals_from_none(buf@, start);
        }
        None
    }
}

/// Walk Annex-B start codes and yield (offset of NAL byte, NAL type).
pub fn iter_nals<'a>(buf: &'a [u8]) -> (it: NalIter<'a>)
    ensures
        it.buffer() == buf@,
        it.remaining() == nals(buf@),
{
    NalIter { buf, pos: 0 }
}

/// Every NAL unit of `buf`, in order.
pub fn collect_nals(buf: &[u8]) -> (units: Vec<(usize, u8)>)
    ensures
        units@ == nals(buf@),
        forall|k: int| 0 <= k < units@.len() ==> (#[trigger] units@[k]).0 < buf@.len(),
{
    let mut it = iter_nals(buf);
    let mut units: Vec<(usize, u8)> = Vec::new();
    loop
        invariant
            it.buffer() == buf@,
            units@ + it.remaining() == nals(buf@),
            forall|k: int| 0 <= k < units@.len() ==> (#[trigger] units@[k]).0 < buf@.len(),
        ensures
            it.remaining().len() == 0,
        decreases it.remaining().len(),
    {
        let ghost before = it.remaining();
        match it.next() {
            Some(unit) => {
                units.push(unit);
                proof {
                    assert(before =~= seq![before[0]] + before.drop_first());
                    assert(units@ + it.remaining() =~= nals(buf@));
                }
            },
            None => {
                proof {
                    assert(before.len() == 0);
                    assert(before =~= it.remaining());
                }
                break;
            },
        }
    }
    assert(units@ =~= nals(buf@));
    units
}

/// Whether an Annex-B stream holds a NAL unit of type `target`.
pub fn annexb_contains_nal_type(buf: &[u8], target: u8) -> (found: bool)
    ensures
        found == has_nal_type(buf@, target),
{
    let mut it = iter_nals(buf);
    let ghost mut seen: int = 0;
    loop
        invariant
            it.buffer() == buf@,
            0 <= seen <= nals(buf@).len(),
            it.remaining() == nals(buf@).skip(seen),
            forall|k: int| 0 <= k < seen ==> (#[trigger] nals(buf@)[k]).1 != target,
        decreases nals(buf@).len() - seen,
    {
        match it.next() {
            Some(unit) => {
                let nal_type: u8 = unit.1;
                assert(nals(buf@)[seen].1 == nal_type);
                if nal_type == target {
                    return true;
                }
                proof {
                    assert(nals(buf@).skip(seen).drop_first() =~= nals(buf@).skip(seen + 1));
                    seen = seen + 1;
                }
            },
            None => {
                return false;
            },
        }
    }
}

/// Scan an Annex-B H.264 byte stream for an IDR (NAL type 5).
pub fn annexb_has_idr(buf: &[u8]) -> (found: bool)
    ensures
        found == has_nal_type(buf@, NAL_IDR),
        found == has_nal_type(buf@, 5),
{
    annexb_contains_nal_type(buf, NAL_IDR)
}

/// Where the start code in front of the NAL byte at `o` begins: four bytes
/// back for `00 00 00 01`, three for `00 00 01`, at `o` itself for neither.
pub open spec fn unit_start(buf: Seq<u8>, o: int) -> int {
    if start_code_before(buf, o) && o >= 4 && buf[o - 4] == 0 {
        o - 4
    } else if start_code_before(buf, o) {
        o - 3
    } else {
        o
    }
}

/// Walk backwards from `nal_byte_offset` to find where the matching Annex-B
/// start code (00 00 01 or 00 00 00 01) begins.
pub fn find_start_code_before(buf: &[u8], nal_byte_offset: usize) -> (start: usize)
    requires
        nal_byte_offset <= buf@.len(),
    ensures
        start == unit_start(buf@, nal_byte_offset as int),
{
    if nal_byte_offset >= 4 && buf[nal_byte_offset - 4] == 0 && buf[nal_byte_offset - 3] == 0
        && buf[nal_byte_offset - 2] == 0 && buf[nal_byte_offset - 1] == 1 {
        nal_byte_offset - 4
    } else if nal_byte_offset >= 3 && buf[nal_byte_offset - 3] == 0 && buf[nal_byte_offset - 2] == 0
        && buf[nal_byte_offset - 1] == 1 {
        nal_byte_offset - 3
    } else {
        nal_byte_offset
    }
}

/// Where the `k`th NAL unit ends: at the start code of the next one, or at
/// the end of the buffer.
pub open spec fn unit_end(buf: Seq<u8>, k: int) -> int {
    if k + 1 < nals(buf).len() {
        unit_start(buf, nals(buf)[k + 1].0 as int)
    } else {
        buf.len() as int
    }
}

/// The bytes of the `k`th NAL unit, its start code in front.
pub open spec fn unit_bytes(buf: Seq<u8>, k: int) -> Seq<u8> {
    buf.subrange(unit_start(buf, nals(buf)[k].0 as int), unit_end(buf, k))
}

/// Index of the last unit of type `t` among `units`, -1 where there is none.
pub open spec fn last_of_type(units: Seq<(usize, u8)>, t: u8) -> int
    decreases units.len(),
{
    if units.len() == 0 {
        -1
    } else if units.last().1 == t {
        units.len() - 1
    } else {
        last_of_type(units.drop_last(), t)
    }
}

/// The parameter sets of an access unit: its last SPS followed by its last
/// PPS, each with its start code; none unless both are there.
pub open spec fn sps_pps_of(buf: Seq<u8>) -> Option<Seq<u8>> {
    let sps = last_of_type(nals(buf), NAL_SPS);
    let pps = last_of_type(nals(buf), NAL_PPS);
    if sps >= 0 && pps >= 0 {
        Some(unit_bytes(buf, sps) + unit_bytes(buf, pps))
    } else {
        None
    }
}

/// What `last_of_type` points at.
pub proof fn lemma_last_of_type(units: Seq<(usize, u8)>, t: u8)
    ensures
        -1 <= last_of_type(units, t) < units.len(),
        last_of_type(units, t) >= 0 ==> units[last_of_type(units, t)].1 == t,
        forall|k: int| last_of_type(units, t) < k < units.len() ==> (#[trigger] units[k]).1 != t,
    decreases units.len(),
{
    if units.len() > 0 && units.last().1 != t {
        let init = units.drop_last();
        lemma_last_of_type(init, t);
        assert forall|k: int| last_of_type(units, t) < k < units.len() implies (
        #[trigger] units[k]).1 != t by {
            if k < units.len() - 1 {
                assert(init[k] == units[k]);
            }
        }
    }
}

/// Each unit of the walk has a start code in front of its NAL byte, and the
/// next unit is the first one behind that byte.
pub proof fn lemma_walk(buf: Seq<u8>, pos: int, k: int)
    requires
        0 <= pos,
        buf.len() <= usize::MAX,
        0 <= k < nals_from(buf, pos).len(),
    ensures
        ({
            let units = nals_from(buf, pos);
            let o = units[k].0 as int;
            &&& pos + 3 <= o < buf.len()
            &&& start_code_before(buf, o)
            &&& units[k].1 == nal_type_of(buf[o])
            &&& k + 1 < units.len() ==> is_next_nal(buf, o + 1, units[k + 1].0 as int)
            &&& k + 1 == units.len() ==> no_nal_from(buf, o + 1)
        }),
    decreases buf.len() - pos,
{
    let units = nals_from(buf, pos);
    if start_code_before(buf, pos + 3) {
        let rest = nals_from(buf, pos + 4);
        assert(units == seq![((pos + 3) as usize, nal_type_of(buf[pos + 3]))] + rest);
        if k == 0 {
            lemma_first(buf, pos + 4);
            if units.len() > 1 {
                assert(units[1] == rest[0]);
            }
        } else {
            lemma_walk(buf, pos + 4, k - 1);
            assert(units[k] == rest[k - 1]);
            if k + 1 < units.len() {
                assert(units[k + 1] == rest[k]);
            }
        }
    } else {
        lemma_walk(buf, pos + 1, k);
    }
}

/// The head of the walk is the next NAL unit.
pub proof fn lemma_first(buf: Seq<u8>, pos: int)
    requires
        0 <= pos,
        buf.len() <= usize::MAX,
    ensures
        nals_from(buf, pos).len() > 0 ==> is_next_nal(buf, pos, nals_from(buf, pos)[0].0 as int),
        nals_from(buf, pos).len() == 0 ==> no_nal_from(buf, pos),
    decreases buf.len() - pos,
{
    if pos + 3 < buf.len() && !start_code_before(buf, pos + 3) {
        lemma_first(buf, pos + 1);
    }
}

/// Each unit lies in the buffer, its end behind its start.
pub proof fn lemma_unit_range(buf: Seq<u8>, k: int)
    requires
        buf.len() <= usize::MAX,
        0 <= k < nals(buf).len(),
    ensures
        0 <= unit_start(buf, nals(buf)[k].0 as int) < nals(buf)[k].0,
        nals(buf)[k].0 <= unit_end(buf, k) <= buf.len(),
{
    lemma_walk(buf, 0, k);
    if k + 1 < nals(buf).len() {
        lemma_walk(buf, 0, k + 1);
    }
}

/// Extract the SPS and PPS units from an Annex-B blob, including their start
/// codes. Returns None if either is missing.
pub fn extract_sps_pps(buf: &[u8]) -> (r: Option<Vec<u8>>)
    ensures
        r is Some <==> sps_pps_of(buf@) is Some,
        r matches Some(out) ==> sps_pps_of(buf@) == Some(out@),
{
    let len: usize = buf.len();
    let units = collect_nals(buf);
    let mut sps_range: Option<(usize, usize)> = None;
    let mut pps_range: Option<(usize, usize)> = None;
    let mut idx: usize = 0;
    while idx < units.len()
        invariant
            idx <= units@.len(),
            len == buf@.len(),
            units@ == nals(buf@),
            forall|k: int| 0 <= k < units@.len() ==> (#[trigger] units@[k]).0 < buf@.len(),
            sps_range == range_of(buf@, last_of_type(units@.take(idx as int), NAL_SPS)),
            pps_range == range_of(buf@, last_of_type(units@.take(idx as int), NAL_PPS)),
        decreases units@.len() - idx,
    {
        let nt_off: usize = units[idx].0;
        let nal_type: u8 = units[idx].1;
        let start: usize = find_start_code_before(buf, nt_off);
        let end: usize = if idx + 1 < units.len() {
            find_start_code_before(buf, units[idx + 1].0)
        } else {
            len
        };
        proof {
            assert(units@.take(idx + 1).drop_last() =~= units@.take(idx as int));
        }
        if nal_type == NAL_SPS {
            sps_range = Some((start, end));
        } else if nal_type == NAL_PPS {
            pps_range = Some((start, end));
        }
        idx = idx + 1;
    }
    proof {
        assert(units@.take(idx as int) =~= units@);
        lemma_last_of_type(units@, NAL_SPS);
        lemma_last_of_type(units@, NAL_PPS);
    }
    match (sps_range, pps_range) {
        (Some((s1, e1)), Some((s2, e2))) => {
            proof {
                lemma_unit_range(buf@, last_of_type(units@, NAL_SPS));
                lemma_unit_range(buf@, last_of_type(units@, NAL_PPS));
            }
            let mut out: Vec<u8> = copy_range(buf, s1, e1);
            append_bytes(&mut out, &buf[s2..e2]);
            Some(out)
        },
        _ => None,
    }
}

/// The byte range of unit `k`, none for -1.
spec fn range_of(buf: Seq<u8>, k: int) -> Option<(usize, usize)> {
    if k >= 0 {
        Some((unit_start(buf, nals(buf)[k].0 as int) as usize, unit_end(buf, k) as usize))
    } else {
        None
    }
}

} // verus!
