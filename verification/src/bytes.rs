//! Small helpers on byte vectors.
use vstd::prelude::*;

verus! {

/// Appends `tail` to `out`.
pub fn append_bytes(out: &mut Vec<u8>, tail: &[u8])
    ensures
        final(out)@ == old(out)@ + tail@,
{
    let ghost before = out@;
    out.extend_from_slice(tail);
    assert(out@ =~= before + tail@);
}

/// The bytes of `buf` from `start` up to, not including, `end`.
pub fn copy_range(buf: &[u8], start: usize, end: usize) -> (out: Vec<u8>)
    requires
        start <= end <= buf@.len(),
    ensures
        out@ == buf@.subrange(start as int, end as int),
{
    let mut out: Vec<u8> = Vec::new();
    append_bytes(&mut out, &buf[start..end]);
    assert(out@ =~= buf@.subrange(start as int, end as int));
    out
}

} // verus!
