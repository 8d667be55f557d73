use vstd::prelude::*;

use super::error::{PlatformError, Result};

verus! {

/// The little-endian `u16` stored at `offset` of `s`.
pub open spec fn le_u16(s: Seq<u8>, offset: int) -> u16 {
    (s[offset] as u16) | ((s[offset + 1] as u16) << 8)
}

/// The little-endian `u32` stored at `offset` of `s`.
pub open spec fn le_u32(s: Seq<u8>, offset: int) -> u32 {
    (s[offset] as u32) | ((s[offset + 1] as u32) << 8) | ((s[offset + 2] as u32) << 16) | ((s[offset
        + 3] as u32) << 24)
}

/// The two little-endian bytes of `v`.
pub open spec fn u16_le(v: u16) -> Seq<u8> {
    seq![(v & 0xff) as u8, (v >> 8) as u8]
}

/// The four little-endian bytes of `v`.
pub open spec fn u32_le(v: u32) -> Seq<u8> {
    seq![(v & 0xff) as u8, ((v >> 8) & 0xff) as u8, ((v >> 16) & 0xff) as u8, (v >> 24) as u8]
}

/// `n` zero bytes.
pub open spec fn zeros(n: nat) -> Seq<u8> {
    Seq::new(n, |i: int| 0u8)
}

/// Whether every byte of `s` in `[offset, offset + length)` is zero.
pub open spec fn all_zero(s: Seq<u8>, offset: int, length: int) -> bool {
    forall|i: int| offset <= i < offset + length ==> s[i] == 0
}

/// Reading back the bytes written for a `u32` gives the `u32`.
pub proof fn lemma_le_u32_at(s: Seq<u8>, offset: int, v: u32)
    requires
        0 <= offset,
        offset + 4 <= s.len(),
        s.subrange(offset, offset + 4) == u32_le(v),
    ensures
        le_u32(s, offset) == v,
{
    assert(s[offset] == s.subrange(offset, offset + 4)[0]);
    assert(s[offset + 1] == s.subrange(offset, offset + 4)[1]);
    assert(s[offset + 2] == s.subrange(offset, offset + 4)[2]);
    assert(s[offset + 3] == s.subrange(offset, offset + 4)[3]);
    assert(((v & 0xff) as u8 as u32) | ((((v >> 8) & 0xff) as u8 as u32) << 8) | ((((v >> 16)
        & 0xff) as u8 as u32) << 16) | (((v >> 24) as u8 as u32) << 24) == v) by (bit_vector);
}

/// Reading back the bytes written for a `u16` gives the `u16`.
pub proof fn lemma_le_u16_at(s: Seq<u8>, offset: int, v: u16)
    requires
        0 <= offset,
        offset + 2 <= s.len(),
        s.subrange(offset, offset + 2) == u16_le(v),
    ensures
        le_u16(s, offset) == v,
{
    assert(s[offset] == s.subrange(offset, offset + 2)[0]);
    assert(s[offset + 1] == s.subrange(offset, offset + 2)[1]);
    assert(((v & 0xff) as u8 as u16) | (((v >> 8) as u8 as u16) << 8) == v) by (bit_vector);
}

/// Fails unless `bytes` holds at least `expected` bytes.
pub fn require_length(bytes: &[u8], expected: usize) -> (r: Result<()>)
    ensures
        bytes@.len() >= expected ==> r == Ok::<(), PlatformError>(()),
        bytes@.len() < expected ==> r == Err::<(), PlatformError>(
            PlatformError::InvalidImageLength { expected, actual: bytes@.len() as usize },
        ),
{
    if bytes.len() < expected {
        return Err(PlatformError::InvalidImageLength { expected, actual: bytes.len() });
    }
    Ok(())
}

/// Reads the little-endian `u16` at `offset`.
pub fn read_u16(bytes: &[u8], offset: usize) -> (r: Result<u16>)
    requires
        offset + 2 <= usize::MAX,
    ensures
        offset + 2 <= bytes@.len() ==> r == Ok::<u16, PlatformError>(le_u16(bytes@, offset as int)),
        offset + 2 > bytes@.len() ==> r == Err::<u16, PlatformError>(
            PlatformError::InvalidImageLength {
                expected: (offset + 2) as usize,
                actual: bytes@.len() as usize,
            },
        ),
{
    let end = offset + 2;
    if end > bytes.len() {
        return Err(PlatformError::InvalidImageLength { expected: end, actual: bytes.len() });
    }
    Ok((bytes[offset] as u16) | ((bytes[offset + 1] as u16) << 8))
}

/// Reads the little-endian `u32` at `offset`.
pub fn read_u32(bytes: &[u8], offset: usize) -> (r: Result<u32>)
    requires
        offset + 4 <= usize::MAX,
    ensures
        offset + 4 <= bytes@.len() ==> r == Ok::<u32, PlatformError>(le_u32(bytes@, offset as int)),
        offset + 4 > bytes@.len() ==> r == Err::<u32, PlatformError>(
            PlatformError::InvalidImageLength {
                expected: (offset + 4) as usize,
                actual: bytes@.len() as usize,
            },
        ),
{
    let end = offset + 4;
    if end > bytes.len() {
        return Err(PlatformError::InvalidImageLength { expected: end, actual: bytes.len() });
    }
    Ok((bytes[offset] as u32) | ((bytes[offset + 1] as u32) << 8) | ((bytes[offset + 2] as u32)
        << 16) | ((bytes[offset + 3] as u32) << 24))
}

/// Writes `value` as two little-endian bytes at `offset`.
pub fn write_u16(bytes: &mut [u8], offset: usize, value: u16)
    requires
        offset + 2 <= old(bytes)@.len(),
    ensures
        final(bytes)@ == old(bytes)@.subrange(0, offset as int) + u16_le(value) + old(bytes)@.subrange(offset + 2, old(bytes)@.len() as int),
{
    bytes[offset] = (value & 0xff) as u8;
    bytes[offset + 1] = (value >> 8) as u8;
    assert(bytes@ =~= old(bytes)@.subrange(0, offset as int) + u16_le(value) + old(bytes)@.subrange(offset + 2, old(bytes)@.len() as int));
}

/// Writes `value` as four little-endian bytes at `offset`.
pub fn write_u32(bytes: &mut [u8], offset: usize, value: u32)
    requires
        offset + 4 <= old(bytes)@.len(),
    ensures
        final(bytes)@ == old(bytes)@.subrange(0, offset as int) + u32_le(value) + old(bytes)@.subrange(offset + 4, old(bytes)@.len() as int),
{
    bytes[offset] = (value & 0xff) as u8;
    bytes[offset + 1] = ((value >> 8) & 0xff) as u8;
    bytes[offset + 2] = ((value >> 16) & 0xff) as u8;
    bytes[offset + 3] = (value >> 24) as u8;
    assert(bytes@ =~= old(bytes)@.subrange(0, offset as int) + u32_le(value) + old(bytes)@.subrange(offset + 4, old(bytes)@.len() as int));
}

/// Returns whether the `length` bytes at `offset` are all zero.
pub fn reserved_zero(bytes: &[u8], offset: usize, length: usize) -> (r: Result<bool>)
    requires
        offset + length <= usize::MAX,
    ensures
        offset + length <= bytes@.len() ==> r == Ok::<bool, PlatformError>(
            all_zero(bytes@, offset as int, length as int),
        ),
        offset + length > bytes@.len() ==> r == Err::<bool, PlatformError>(
            PlatformError::InvalidImageLength {
                expected: (offset + length) as usize,
                actual: bytes@.len() as usize,
            },
        ),
{
    let end = offset + length;
    if end > bytes.len() {
        return Err(PlatformError::InvalidImageLength { expected: end, actual: bytes.len() });
    }
    let mut i = offset;
    while i < end
        invariant
            offset <= i <= end,
            end == offset + length,
            end <= bytes@.len(),
            all_zero(bytes@, offset as int, i - offset),
        decreases end - i,
    {
        if bytes[i] != 0 {
            return Ok(false);
        }
        i += 1;
    }
    Ok(true)
}

} // verus!
