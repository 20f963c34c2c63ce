//! Byte-level helpers shared by the Java and Bedrock packet builders.
use vstd::prelude::*;

verus! {

/// Appends `bytes` to `buf`.
pub fn push_bytes(buf: &mut Vec<u8>, bytes: &[u8])
    ensures
        final(buf)@ == old(buf)@ + bytes@,
{
    let mut i: usize = 0;
    while i < bytes.len()
        invariant
            0 <= i <= bytes.len(),
            buf@ == old(buf)@ + bytes@.take(i as int),
        decreases bytes.len() - i,
    {
        buf.push(bytes[i]);
        i = i + 1;
        assert(bytes@.take(i as int) == bytes@.take(i - 1).push(bytes@[i - 1]));
    }
    assert(bytes@.take(bytes.len() as int) == bytes@);
}

/// The big-endian bytes of a 16-bit value.
pub open spec fn be_u16(x: u16) -> Seq<u8> {
    seq![(x / 256) as u8, (x % 256) as u8]
}

/// The big-endian bytes of a 64-bit value (`u64::to_be_bytes`).
pub open spec fn be_u64(x: u64) -> Seq<u8> {
    seq![
        (x / 0x100_0000_0000_0000 % 256) as u8,
        (x / 0x1_0000_0000_0000 % 256) as u8,
        (x / 0x100_0000_0000 % 256) as u8,
        (x / 0x1_0000_0000 % 256) as u8,
        (x / 0x100_0000 % 256) as u8,
        (x / 0x1_0000 % 256) as u8,
        (x / 0x100 % 256) as u8,
        (x % 256) as u8,
    ]
}

/// Appends the big-endian bytes of `x`.
pub fn push_be_u16(buf: &mut Vec<u8>, x: u16)
    ensures
        final(buf)@ == old(buf)@ + be_u16(x),
{
    buf.push((x / 256) as u8);
    buf.push((x % 256) as u8);
    assert(buf@ =~= old(buf)@ + be_u16(x));
}

/// Appends the big-endian bytes of `x`.
pub fn push_be_u64(buf: &mut Vec<u8>, x: u64)
    ensures
        final(buf)@ == old(buf)@ + be_u64(x),
{
    buf.push((x / 0x100_0000_0000_0000 % 256) as u8);
    buf.push((x / 0x1_0000_0000_0000 % 256) as u8);
    buf.push((x / 0x100_0000_0000 % 256) as u8);
    buf.push((x / 0x1_0000_0000 % 256) as u8);
    buf.push((x / 0x100_0000 % 256) as u8);
    buf.push((x / 0x1_0000 % 256) as u8);
    buf.push((x / 0x100 % 256) as u8);
    buf.push((x % 256) as u8);
    assert(buf@ =~= old(buf)@ + be_u64(x));
}

} // verus!
