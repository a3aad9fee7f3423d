//! What the NAL walk keeps when units are cut out and put together.
use crate::nal::{
    has_nal_type, is_next_nal, last_of_type, lemma_last_of_type,
    lemma_nals_from_next, lemma_nals_from_none, lemma_unit_range, lemma_walk, nals,
    nals_from, no_nal_from, sps_pps_of, start_code_before, unit_bytes, unit_end, unit_start,
    NAL_PPS, NAL_SPS,
};
use vstd::prelude::*;

verus! {

/// `units` with every offset moved back by `n`.
pub open spec fn shifted(units: Seq<(usize, u8)>, n: int) -> Seq<(usize, u8)> {
    Seq::new(units.len(), |i: int| ((units[i].0 + n) as usize, units[i].1))
}

/// `buf` opens with a start code, `00 00 01` or `00 00 00 01`.
pub open spec fn opens_with_start_code(buf: Seq<u8>) -> bool {
    start_code_before(buf, 3) || (buf.len() >= 4 && buf[0] == 0 && start_code_before(buf, 4))
}

/// `buf` ends in a start code that no NAL byte follows.
pub open spec fn ends_in_bare_start_code(buf: Seq<u8>) -> bool {
    start_code_before(buf, buf.len() as int)
}

proof fn lemma_concat_behind(a: Seq<u8>, b: Seq<u8>, q: int)
    requires
        0 <= q,
        a.len() + b.len() <= usize::MAX,
    ensures
        nals_from(a + b, a.len() + q) == shifted(nals_from(b, q), a.len() as int),
    decreases b.len() - q,
{
    let c = a + b;
    let n = a.len() as int;
    if q + 3 < b.len() {
        assert(start_code_before(c, n + q + 3) == start_code_before(b, q + 3));
        if start_code_before(b, q + 3) {
            lemma_concat_behind(a, b, q + 4);
            assert(nals_from(c, n + q) =~= shifted(nals_from(b, q), n));
        } else {
            lemma_concat_behind(a, b, q + 1);
        }
    } else {
        assert(nals_from(c, n + q) =~= shifted(nals_from(b, q), n));
    }
}

/// Where `a` and `b` are put together, a start code forms that neither holds in
/// front of a NAL byte: it ends with `a`, or begins in it and ends in `b`.
pub open spec fn straddles(a: Seq<u8>, b: Seq<u8>) -> bool {
    exists|o: int|
        a.len() <= o < a.len() + b.len() && o <= a.len() + 2 && #[trigger] start_code_before(
            a + b,
            o,
        )
}

/// No start code forms in front of a buffer that opens with one, as long as the
/// other does not end in one that still waits for its NAL byte.
pub proof fn lemma_no_straddle(a: Seq<u8>, b: Seq<u8>)
    requires
        opens_with_start_code(b),
        !ends_in_bare_start_code(a),
    ensures
        !straddles(a, b),
{
    let c = a + b;
    let n = a.len() as int;
    assert(c[n] == b[0] && c[n + 1] == b[1]);
    assert(start_code_before(c, n) == start_code_before(a, n));
}

proof fn lemma_concat_from(a: Seq<u8>, b: Seq<u8>, pos: int)
    requires
        0 <= pos <= a.len(),
        a.len() + b.len() <= usize::MAX,
        !straddles(a, b),
    ensures
        nals_from(a + b, pos) == nals_from(a, pos) + shifted(nals(b), a.len() as int),
    decreases a.len() - pos,
{
    let c = a + b;
    let n = a.len() as int;
    if pos == n {
        lemma_concat_behind(a, b, 0);
        assert(nals_from(a, pos) =~= Seq::empty());
        assert(nals_from(c, pos) =~= nals_from(a, pos) + shifted(nals(b), n));
    } else if pos + 3 < n {
        assert(start_code_before(c, pos + 3) == start_code_before(a, pos + 3));
        if start_code_before(a, pos + 3) {
            lemma_concat_from(a, b, pos + 4);
            assert(nals_from(c, pos) =~= nals_from(a, pos) + shifted(nals(b), n));
        } else {
            lemma_concat_from(a, b, pos + 1);
        }
    } else if pos + 3 < c.len() {
        assert(!start_code_before(c, pos + 3));
        lemma_concat_from(a, b, pos + 1);
        assert(nals_from(a, pos) =~= nals_from(a, pos + 1));
    } else {
        assert(nals_from(a, pos) =~= Seq::empty());
        assert(nals(b) =~= Seq::empty());
        assert(nals_from(c, pos) =~= nals_from(a, pos) + shifted(nals(b), n));
    }
}

/// Putting two buffers behind each other puts the two walks behind each other,
/// as long as no start code forms where they meet.
pub proof fn law_concat(a: Seq<u8>, b: Seq<u8>)
    requires
        a.len() + b.len() <= usize::MAX,
        !straddles(a, b),
    ensures
        nals(a + b) == nals(a) + shifted(nals(b), a.len() as int),
{
    lemma_concat_from(a, b, 0);
}

proof fn lemma_prefix_from(a: Seq<u8>, b: Seq<u8>, pos: int)
    requires
        0 <= pos,
    ensures
        nals_from(a, pos).is_prefix_of(nals_from(a + b, pos)),
    decreases a.len() - pos,
{
    let c = a + b;
    if pos + 3 < a.len() {
        assert(start_code_before(c, pos + 3) == start_code_before(a, pos + 3));
        if start_code_before(a, pos + 3) {
            lemma_prefix_from(a, b, pos + 4);
        } else {
            lemma_prefix_from(a, b, pos + 1);
        }
    }
}

/// Whatever is put behind a buffer, its units stay, and stay in front.
pub proof fn law_units_stay_in_front(a: Seq<u8>, b: Seq<u8>)
    ensures
        nals(a).is_prefix_of(nals(a + b)),
{
    lemma_prefix_from(a, b, 0);
}

/// A NAL unit of a type other than 0, cut out with its start code, is a
/// buffer with just that unit.
pub proof fn law_unit_stands_alone(buf: Seq<u8>, k: int)
    requires
        buf.len() <= usize::MAX,
        0 <= k < nals(buf).len(),
        nals(buf)[k].1 != 0,
    ensures
        opens_with_start_code(unit_bytes(buf, k)),
        nals(unit_bytes(buf, k)) == seq![
            (
                (nals(buf)[k].0 - unit_start(buf, nals(buf)[k].0 as int)) as usize,
                nals(buf)[k].1,
            ),
        ],
        ends_in_bare_start_code(unit_bytes(buf, k)) ==> ends_in_bare_start_code(buf),
{
    let o = nals(buf)[k].0 as int;
    let s = unit_start(buf, o);
    let e = unit_end(buf, k);
    let u = unit_bytes(buf, k);
    lemma_walk(buf, 0, k);
    lemma_unit_range(buf, k);
    let first = buf[o];
    assert(first & 0x1F != 0 ==> first != 0) by (bit_vector);
    assert(first & 0x1F == nals(buf)[k].1);
    if k + 1 < nals(buf).len() {
        lemma_walk(buf, 0, k + 1);
        let next = nals(buf)[k + 1].0 as int;
        assert(is_next_nal(buf, o + 1, next));
        assert(e != o);
    }
    assert(u.len() == e - s);
    assert(forall|i: int| 0 <= i < u.len() ==> u[i] == buf[s + i]);
    assert(start_code_before(u, o - s));
    assert(is_next_nal(u, 0, o - s));
    lemma_nals_from_next(u, 0, o - s);
    assert(no_nal_from(u, o - s + 1)) by {
        assert forall|p: int| o - s + 1 + 3 <= p < u.len() implies !start_code_before(u, p) by {
            if start_code_before(u, p) {
                assert(start_code_before(buf, s + p));
            }
        }
    }
    lemma_nals_from_none(u, o - s + 1);
    assert(nals(u) =~= seq![((o - s) as usize, nals(buf)[k].1)]);
    if start_code_before(u, u.len() as int) {
        assert(start_code_before(buf, e));
        assert(u[u.len() - 3] == 0);
    }
}

/// The extracted parameter sets open with the start code of an SPS. Where the
/// access unit does not end in a bare start code, they are one SPS followed
/// by one PPS and nothing else, and do not end in a bare start code either.
pub proof fn law_extracted_parameter_sets(buf: Seq<u8>)
    requires
        buf.len() <= usize::MAX / 2,
        sps_pps_of(buf) is Some,
    ensures
        opens_with_start_code(sps_pps_of(buf)->0),
        has_nal_type(sps_pps_of(buf)->0, NAL_SPS),
        !ends_in_bare_start_code(buf) ==> ({
            let units = nals(sps_pps_of(buf)->0);
            &&& units.len() == 2
            &&& units[0].1 == NAL_SPS
            &&& units[1].1 == NAL_PPS
            &&& !ends_in_bare_start_code(sps_pps_of(buf)->0)
        }),
{
    let k1 = last_of_type(nals(buf), NAL_SPS);
    let k2 = last_of_type(nals(buf), NAL_PPS);
    lemma_last_of_type(nals(buf), NAL_SPS);
    lemma_last_of_type(nals(buf), NAL_PPS);
    law_unit_stands_alone(buf, k1);
    law_unit_stands_alone(buf, k2);
    lemma_unit_range(buf, k1);
    lemma_unit_range(buf, k2);
    let a = unit_bytes(buf, k1);
    let b = unit_bytes(buf, k2);
    let out = a + b;
    lemma_open_stays(a, b);
    lemma_sps_first(buf);
    assert(nals(out)[0].1 == NAL_SPS);
    if !ends_in_bare_start_code(buf) {
        lemma_no_straddle(a, b);
        law_concat(a, b);
        let c = b.len() as int;
        assert(b.len() >= 4) by {
            lemma_walk(b, 0, 0);
        }
        if ends_in_bare_start_code(out) {
            assert(start_code_before(b, c));
        }
    }
}

/// What opens with a start code still does with more behind it.
proof fn lemma_open_stays(a: Seq<u8>, b: Seq<u8>)
    requires
        opens_with_start_code(a),
    ensures
        opens_with_start_code(a + b),
{
    let c = a + b;
    assert(forall|i: int| 0 <= i < a.len() ==> c[i] == a[i]);
    if start_code_before(a, 3) {
        assert(start_code_before(c, 3));
    } else {
        assert(start_code_before(c, 4));
    }
}

/// The first unit of the extracted parameter sets is the SPS.
pub proof fn lemma_sps_first(buf: Seq<u8>)
    requires
        buf.len() <= usize::MAX / 2,
        sps_pps_of(buf) is Some,
    ensures
        nals(sps_pps_of(buf)->0).len() > 0,
        nals(sps_pps_of(buf)->0)[0].1 == NAL_SPS,
{
    let k1 = last_of_type(nals(buf), NAL_SPS);
    let k2 = last_of_type(nals(buf), NAL_PPS);
    lemma_last_of_type(nals(buf), NAL_SPS);
    lemma_last_of_type(nals(buf), NAL_PPS);
    law_unit_stands_alone(buf, k1);
    lemma_unit_range(buf, k1);
    lemma_unit_range(buf, k2);
    law_units_stay_in_front(unit_bytes(buf, k1), unit_bytes(buf, k2));
    assert(nals(sps_pps_of(buf)->0)[0] == nals(unit_bytes(buf, k1))[0]);
}

/// The extracted parameter sets are at most twice as long as their source.
pub proof fn lemma_parameter_sets_len(buf: Seq<u8>)
    requires
        buf.len() <= usize::MAX,
        sps_pps_of(buf) is Some,
    ensures
        sps_pps_of(buf)->0.len() <= 2 * buf.len(),
{
    lemma_last_of_type(nals(buf), NAL_SPS);
    lemma_last_of_type(nals(buf), NAL_PPS);
    lemma_unit_range(buf, last_of_type(nals(buf), NAL_SPS));
    lemma_unit_range(buf, last_of_type(nals(buf), NAL_PPS));
}

/// Every unit stands behind a start code, and its type is what the low five bits
/// of its NAL byte say.
pub proof fn law_units_stand_behind_start_codes(buf: Seq<u8>, k: int)
    requires
        buf.len() <= usize::MAX,
        0 <= k < nals(buf).len(),
    ensures
        ({
            let o = nals(buf)[k].0 as int;
            &&& 3 <= o < buf.len()
            &&& buf[o - 3] == 0
            &&& buf[o - 2] == 0
            &&& buf[o - 1] == 1
            &&& nals(buf)[k].1 as int == buf[o] as int % 32
            &&& k + 1 < nals(buf).len() ==> o + 4 <= nals(buf)[k + 1].0
        }),
{
    lemma_walk(buf, 0, k);
    let b = buf[nals(buf)[k].0 as int];
    assert(b & 0x1F == b % 32) by (bit_vector);
}

/// A start code from `pos` on is walked over by no unit but one that it stands
/// in front of or that begins inside of it.
proof fn lemma_found(buf: Seq<u8>, pos: int, o: int)
    requires
        0 <= pos,
        pos + 3 <= o < buf.len() <= usize::MAX,
        start_code_before(buf, o),
    ensures
        exists|k: int|
            0 <= k < nals_from(buf, pos).len() && o - 3 <= (#[trigger] nals_from(buf, pos)[k]).0
                <= o,
    decreases buf.len() - pos,
{
    let units = nals_from(buf, pos);
    if start_code_before(buf, pos + 3) {
        let rest = nals_from(buf, pos + 4);
        if pos + 3 >= o - 3 {
            assert(o - 3 <= units[0].0 <= o);
        } else {
            lemma_found(buf, pos + 4, o);
            let k = choose|k: int|
                0 <= k < rest.len() && o - 3 <= (#[trigger] rest[k]).0 <= o;
            assert(units[k + 1] == rest[k]);
        }
    } else {
        lemma_found(buf, pos + 1, o);
    }
}

/// Every start code is found: where `00 00 01` stands in front of a byte, there
/// is a unit with that NAL byte, unless one of the two zeros is the NAL byte of
/// a unit itself.
pub proof fn law_every_start_code_is_found(buf: Seq<u8>, o: int)
    requires
        3 <= o < buf.len() <= usize::MAX,
        buf[o - 3] == 0,
        buf[o - 2] == 0,
        buf[o - 1] == 1,
    ensures
        exists|k: int|
            0 <= k < nals(buf).len() && ((#[trigger] nals(buf)[k]).0 == o || (nals(buf)[k].1 == 0
                && o - 3 <= nals(buf)[k].0 <= o - 2)),
{
    assert(start_code_before(buf, o));
    lemma_found(buf, 0, o);
    let k = choose|k: int|
        0 <= k < nals_from(buf, 0).len() && o - 3 <= (#[trigger] nals_from(buf, 0)[k]).0 <= o;
    law_units_stand_behind_start_codes(buf, k);
    let unit = nals(buf)[k];
    assert(unit.0 != o - 1);
    assert(unit.0 == o || (unit.1 == 0 && o - 3 <= unit.0 <= o - 2));
}

/// A type is there just where some unit has it: a start code in front of a NAL
/// byte with that type shows it, unless a unit begins inside of the start code.
pub proof fn law_type_is_seen(buf: Seq<u8>, o: int, target: u8)
    requires
        3 <= o < buf.len() <= usize::MAX,
        buf[o - 3] == 0,
        buf[o - 2] == 0,
        buf[o - 1] == 1,
        buf[o] as int % 32 == target,
        !has_nal_type(buf, 0),
    ensures
        has_nal_type(buf, target),
{
    law_every_start_code_is_found(buf, o);
    let k = choose|k: int|
        0 <= k < nals(buf).len() && ((#[trigger] nals(buf)[k]).0 == o || (nals(buf)[k].1 == 0 && o
            - 3 <= nals(buf)[k].0 <= o - 2));
    assert(nals(buf)[k].1 != 0);
    law_units_stand_behind_start_codes(buf, k);
}

/// A type that is there belongs to a byte behind a start code.
pub proof fn law_type_has_a_start_code(buf: Seq<u8>, target: u8)
    requires
        buf.len() <= usize::MAX,
        has_nal_type(buf, target),
    ensures
        exists|o: int|
            3 <= o < buf.len() && buf[o - 3] == 0 && buf[o - 2] == 0 && buf[o - 1] == 1
                && #[trigger] buf[o] as int % 32 == target,
{
    let k = choose|k: int| 0 <= k < nals(buf).len() && (#[trigger] nals(buf)[k]).1 == target;
    law_units_stand_behind_start_codes(buf, k);
    let o = nals(buf)[k].0 as int;
    assert(buf[o] as int % 32 == target);
}

/// A unit is cut with its whole start code: three bytes, or four where another
/// zero stands in front of them.
pub proof fn law_start_code_is_cut_whole(buf: Seq<u8>, k: int)
    requires
        buf.len() <= usize::MAX,
        0 <= k < nals(buf).len(),
    ensures
        ({
            let o = nals(buf)[k].0 as int;
            let s = unit_start(buf, o);
            &&& o - 4 <= s <= o - 3
            &&& s >= 0
            &&& s == o - 4 ==> buf[s] == 0
            &&& s == o - 3 && s > 0 ==> buf[s - 1] != 0
        }),
{
    lemma_walk(buf, 0, k);
}

/// Units follow each other without a gap, and the last reaches to the end: what
/// was cut makes up the buffer again.
pub proof fn law_units_follow_without_a_gap(buf: Seq<u8>, k: int)
    requires
        buf.len() <= usize::MAX,
        0 <= k < nals(buf).len(),
    ensures
        k + 1 < nals(buf).len() ==> unit_bytes(buf, k) + unit_bytes(buf, k + 1) == buf.subrange(
            unit_start(buf, nals(buf)[k].0 as int),
            unit_end(buf, k + 1),
        ),
        k + 1 == nals(buf).len() ==> unit_bytes(buf, k) == buf.skip(
            unit_start(buf, nals(buf)[k].0 as int),
        ),
{
    lemma_unit_range(buf, k);
    if k + 1 < nals(buf).len() {
        lemma_unit_range(buf, k + 1);
        lemma_walk(buf, 0, k);
        assert(unit_bytes(buf, k) + unit_bytes(buf, k + 1) =~= buf.subrange(
            unit_start(buf, nals(buf)[k].0 as int),
            unit_end(buf, k + 1),
        ));
    } else {
        assert(unit_bytes(buf, k) =~= buf.skip(unit_start(buf, nals(buf)[k].0 as int)));
    }
}

/// Parameter sets are found just where the buffer has an SPS (type 7) and a PPS
/// (type 8), and they are the last of either: no later unit has its type.
pub proof fn law_parameter_sets_are_the_last_ones(buf: Seq<u8>)
    ensures
        sps_pps_of(buf) is Some <==> has_nal_type(buf, 7) && has_nal_type(buf, 8),
        sps_pps_of(buf) is Some ==> exists|i: int, j: int|
            {
                &&& 0 <= i < nals(buf).len()
                &&& 0 <= j < nals(buf).len()
                &&& nals(buf)[i].1 == 7
                &&& nals(buf)[j].1 == 8
                &&& forall|k: int| i < k < nals(buf).len() ==> (#[trigger] nals(buf)[k]).1 != 7
                &&& forall|k: int| j < k < nals(buf).len() ==> (#[trigger] nals(buf)[k]).1 != 8
                &&& sps_pps_of(buf)->0 == #[trigger] unit_bytes(buf, i) + #[trigger] unit_bytes(
                    buf,
                    j,
                )
            },
{
    let i = last_of_type(nals(buf), NAL_SPS);
    let j = last_of_type(nals(buf), NAL_PPS);
    lemma_last_of_type(nals(buf), NAL_SPS);
    lemma_last_of_type(nals(buf), NAL_PPS);
    if i >= 0 && j >= 0 {
        assert(sps_pps_of(buf)->0 == unit_bytes(buf, i) + unit_bytes(buf, j));
    }
}

/// Looking back from any byte, a start code is found just where one ends there,
/// and it is found from its first byte on.
pub proof fn law_start_code_in_front_of_a_byte(buf: Seq<u8>, o: int)
    requires
        0 <= o <= buf.len(),
    ensures
        ({
            let s = unit_start(buf, o);
            &&& 0 <= s <= o
            &&& s == o || buf.subrange(s, o) == seq![0u8, 0u8, 1u8] || buf.subrange(s, o) == seq![
                0u8,
                0u8,
                0u8,
                1u8,
            ]
            &&& s == o <==> !(o >= 3 && buf[o - 3] == 0 && buf[o - 2] == 0 && buf[o - 1] == 1)
            &&& s == o - 4 <==> o >= 4 && buf[o - 4] == 0 && buf[o - 3] == 0 && buf[o - 2] == 0
                && buf[o - 1] == 1
        }),
{
    let s = unit_start(buf, o);
    if s == o - 3 {
        assert(buf.subrange(s, o) =~= seq![0u8, 0u8, 1u8]);
    } else if s == o - 4 {
        assert(buf.subrange(s, o) =~= seq![0u8, 0u8, 0u8, 1u8]);
    }
}

} // verus!
