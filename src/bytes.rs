//! Big-endian fields of a byte sequence, and in-place updates of them.
use vstd::prelude::*;

verus! {

/// The 16-bit big-endian value stored at `off`.
pub open spec fn be16(s: Seq<u8>, off: int) -> nat {
    (s[off] as nat) * 256 + (s[off + 1] as nat)
}

/// `s` with the bytes of `b` written from `off` on.
pub open spec fn splice(s: Seq<u8>, off: int, b: Seq<u8>) -> Seq<u8> {
    Seq::new(s.len(), |i: int| if off <= i < off + b.len() { b[i - off] } else { s[i] })
}

/// The two big-endian bytes of a 16-bit value.
pub open spec fn be16_bytes(v: u16) -> Seq<u8> {
    seq![(v / 256) as u8, (v % 256) as u8]
}

/// `s` with the 16-bit big-endian value `v` written at `off`.
pub open spec fn put_be16(s: Seq<u8>, off: int, v: u16) -> Seq<u8> {
    splice(s, off, be16_bytes(v))
}

/// Reads the 16-bit big-endian value at `off`.
pub fn read_be16(s: &[u8], off: usize) -> (r: u16)
    requires
        off + 2 <= s@.len(),
    ensures
        r as nat == be16(s@, off as int),
{
    (s[off] as u16) * 256 + (s[off + 1] as u16)
}

/// Writes the 16-bit big-endian value `v` at `off`.
pub fn write_be16(s: &mut Vec<u8>, off: usize, v: u16)
    requires
        off + 2 <= old(s)@.len(),
    ensures
        final(s)@ == put_be16(old(s)@, off as int, v),
{
    let _len = s.len();
    s[off] = (v / 256) as u8;
    s[off + 1] = (v % 256) as u8;
    assert(s@ =~= put_be16(old(s)@, off as int, v));
}

/// Writes the bytes of `b` from `off` on.
pub fn write_bytes(s: &mut Vec<u8>, off: usize, b: &[u8])
    requires
        off + b@.len() <= old(s)@.len(),
    ensures
        final(s)@ == splice(old(s)@, off as int, b@),
{
    let _len = s.len();
    let mut i: usize = 0;
    while i < b.len()
        invariant
            i <= b@.len(),
            _len == old(s)@.len(),
            off + b@.len() <= old(s)@.len(),
            s@ == splice(old(s)@, off as int, b@.subrange(0, i as int)),
        decreases b@.len() - i,
    {
        s[off + i] = b[i];
        i = i + 1;
        assert(s@ =~= splice(old(s)@, off as int, b@.subrange(0, i as int)));
    }
    assert(b@.subrange(0, b@.len() as int) =~= b@);
}

} // verus!
