use vstd::prelude::*;

verus! {

/// The 16-bit big-endian value stored at byte offset `off` of `s`.
pub open spec fn spec_half_word(s: Seq<u8>, off: int) -> u16
    recommends
        0 <= off,
        off + 2 <= s.len(),
{
    (256 * s[off] + s[off + 1]) as u16
}

/// Reads the 16-bit big-endian value at `offset`.
pub fn read_half_word(bytes: &Vec<u8>, offset: usize) -> (r: u16)
    requires
        offset + 2 <= bytes@.len(),
    ensures
        r == spec_half_word(bytes@, offset as int),
{
    let n: usize = bytes.len();
    assert(offset + 2 <= n);
    let b0 = bytes[offset] as u16;
    let b1 = bytes[offset + 1] as u16;
    b0 * 256 + b1
}

/// Writes `value` at `offset` as big endian; no other byte changes.
pub fn write_half_word(bytes: &mut Vec<u8>, offset: usize, value: u16)
    requires
        offset + 2 <= old(bytes)@.len(),
    ensures
        final(bytes)@.len() == old(bytes)@.len(),
        spec_half_word(final(bytes)@, offset as int) == value,
        forall|i: int|
            0 <= i < old(bytes)@.len() && !(offset <= i < offset + 2) ==> final(bytes)@[i]
                == old(bytes)@[i],
    no_unwind
{
    let n: usize = bytes.len();
    assert(offset + 2 <= n);
    let hi = (value / 256) as u8;
    let lo = (value % 256) as u8;
    vstd::std_specs::core::index_set(bytes, offset, hi);
    vstd::std_specs::core::index_set(bytes, offset + 1, lo);
}

} // verus!
