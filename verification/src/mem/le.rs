use vstd::prelude::*;

verus! {

/// The 16-bit little-endian value stored at byte offset `off` of `s`.
pub open spec fn spec_half_word(s: Seq<u8>, off: int) -> u16
    recommends
        0 <= off,
        off + 2 <= s.len(),
{
    (s[off] + 256 * s[off + 1]) as u16
}

/// The 32-bit little-endian value stored at byte offset `off` of `s`.
pub open spec fn spec_word(s: Seq<u8>, off: int) -> u32
    recommends
        0 <= off,
        off + 4 <= s.len(),
{
    (s[off] + 256 * s[off + 1] + 65536 * s[off + 2] + 16777216 * s[off + 3]) as u32
}

/// Reads the 16-bit little-endian value at `offset`.
pub fn read_half_word(bytes: &Vec<u8>, offset: usize) -> (r: u16)
    requires
        offset + 2 <= bytes@.len(),
    ensures
        r == spec_half_word(bytes@, offset as int),
{
    let n: usize = bytes.len();
    assert(offset + 2 <= n);
    let b0 = bytes[offset] as u16;
    let b1 = bytes[offset + 1] as u16;
    b0 + b1 * 256
}

/// Reads the 32-bit little-endian value at `offset`.
pub fn read_word(bytes: &Vec<u8>, offset: usize) -> (r: u32)
    requires
        offset + 4 <= bytes@.len(),
    ensures
        r == spec_word(bytes@, offset as int),
{
    let n: usize = bytes.len();
    assert(offset + 4 <= n);
    let b0 = bytes[offset] as u32;
    let b1 = bytes[offset + 1] as u32;
    let b2 = bytes[offset + 2] as u32;
    let b3 = bytes[offset + 3] as u32;
    b0 + b1 * 256 + b2 * 65536 + b3 * 16777216
}

/// Writes `value` at `offset` as little endian; no other byte changes.
pub fn write_half_word(bytes: &mut Vec<u8>, offset: usize, value: u16)
    requires
        offset + 2 <= old(bytes)@.len(),
    ensures
        final(bytes)@.len() == old(bytes)@.len(),
        spec_half_word(final(bytes)@, offset as int) == value,
        forall|i: int|
            0 <= i < old(bytes)@.len() && !(offset <= i < offset + 2) ==> final(bytes)@[i]
                == old(bytes)@[i],
    no_unwind
{
    let n: usize = bytes.len();
    assert(offset + 2 <= n);
    let lo = (value % 256) as u8;
    let hi = (value / 256) as u8;
    vstd::std_specs::core::index_set(bytes, offset, lo);
    vstd::std_specs::core::index_set(bytes, offset + 1, hi);
}

/// Writes `value` at `offset` as little endian; no other byte changes.
pub fn write_word(bytes: &mut Vec<u8>, offset: usize, value: u32)
    requires
        offset + 4 <= old(bytes)@.len(),
    ensures
        final(bytes)@.len() == old(bytes)@.len(),
        spec_word(final(bytes)@, offset as int) == value,
        forall|i: int|
            0 <= i < old(bytes)@.len() && !(offset <= i < offset + 4) ==> final(bytes)@[i]
                == old(bytes)@[i],
    no_unwind
{
    let n: usize = bytes.len();
    assert(offset + 4 <= n);
    let b0 = (value % 256) as u8;
    let r1 = value / 256;
    let b1 = (r1 % 256) as u8;
    let r2 = r1 / 256;
    let b2 = (r2 % 256) as u8;
    let b3 = (r2 / 256) as u8;
    vstd::std_specs::core::index_set(bytes, offset, b0);
    vstd::std_specs::core::index_set(bytes, offset + 1, b1);
    vstd::std_specs::core::index_set(bytes, offset + 2, b2);
    vstd::std_specs::core::index_set(bytes, offset + 3, b3);
}

} // verus!
