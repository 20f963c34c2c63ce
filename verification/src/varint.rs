//! The VarInt of the Java Edition protocol: a 32-bit value in groups of seven
//! bits, least significant group first, the high bit of each byte set when
//! another byte follows.
use vstd::prelude::*;

verus! {

/// `128` to the power `n`.
pub open spec fn pow128(n: nat) -> nat
    decreases n,
{
    if n == 0 {
        1
    } else {
        128 * pow128((n - 1) as nat)
    }
}

/// The VarInt bytes of the 32-bit pattern `v`.
pub open spec fn varint_bytes(v: u32) -> Seq<u8>
    decreases v,
{
    if v < 128 {
        seq![v as u8]
    } else {
        seq![(v % 128 + 128) as u8] + varint_bytes((v / 128) as u32)
    }
}

/// The VarInt bytes of `value` (its two's complement bit pattern: a negative
/// value takes five bytes).
pub open spec fn varint_of(value: i32) -> Seq<u8> {
    varint_bytes(value as u32)
}

/// The sum of the seven-bit groups of `s`, the first byte's group being the
/// least significant.
pub open spec fn group_sum(s: Seq<u8>) -> nat
    decreases s.len(),
{
    if s.len() == 0 {
        0
    } else {
        group_sum(s.drop_last()) + ((s.last() % 128) as nat) * pow128((s.len() - 1) as nat)
    }
}

/// The index of the first byte at or after `k`, among the first five of `s`,
/// whose high bit is clear.
pub open spec fn end_from(s: Seq<u8>, k: nat) -> Option<nat>
    decreases 5 - k,
{
    if k >= 5 || k >= s.len() {
        None
    } else if s[k as int] < 128 {
        Some(k)
    } else {
        end_from(s, k + 1)
    }
}

/// What reading a VarInt from the front of a byte sequence gives.
#[derive(PartialEq, Eq, Structural, Debug, Clone, Copy)]
pub enum VarIntRead {
    /// The value and the number of bytes it took.
    Value(i32, usize),
    /// The bytes ended before the VarInt did.
    Truncated,
    /// Five bytes with the high bit set, and a sixth byte after them.
    TooLong,
}

/// Reading a VarInt from the front of `s`, as a reader that takes one byte
/// at a time and gives up after the sixth does: the value is the group sum
/// of the bytes up to the first one with a clear high bit, kept to its low
/// 32 bits.
pub open spec fn varint_read(s: Seq<u8>) -> VarIntRead {
    match end_from(s, 0) {
        Some(k) => VarIntRead::Value(
            ((group_sum(s.take(k + 1 as int)) % 0x1_0000_0000) as u32) as i32,
            (k + 1) as usize,
        ),
        None => if s.len() > 5 {
            VarIntRead::TooLong
        } else {
            VarIntRead::Truncated
        },
    }
}

/// Appends the VarInt bytes of `value` to `buf`.
pub fn write_varint(buf: &mut Vec<u8>, value: i32)
    ensures
        final(buf)@ == old(buf)@ + varint_of(value),
{
    let mut v: u32 = value as u32;
    loop
        invariant
            buf@ + varint_bytes(v) == old(buf)@ + varint_of(value),
        decreases v,
    {
        if v < 128 {
            buf.push(v as u8);
            return;
        }
        let b: u8 = (v % 128 + 128) as u8;
        let ghost before = buf@;
        buf.push(b);
        assert(varint_bytes(v) == seq![b] + varint_bytes(v / 128));
        assert(before + varint_bytes(v) == buf@ + varint_bytes(v / 128));
        v = v / 128;
    }
}

proof fn lemma_pow128_small(k: nat)
    requires
        k <= 4,
    ensures
        pow128(k) <= 0x1000_0000,
        pow128(k + 1) == 128 * pow128(k),
{
    reveal_with_fuel(pow128, 6);
    if k == 0 {
    } else if k == 1 {
    } else if k == 2 {
    } else if k == 3 {
    } else {
    }
}

proof fn lemma_end_from_step(s: Seq<u8>, k: nat)
    requires
        k < 5,
        k < s.len(),
        s[k as int] >= 128,
    ensures
        end_from(s, k) == end_from(s, k + 1),
{
}

proof fn lemma_end_from_bounds(s: Seq<u8>, k: nat)
    ensures
        end_from(s, k) matches Some(m) ==> k <= m && m < 5 && m < s.len(),
    decreases 5 - k,
{
    if k < 5 && k < s.len() && s[k as int] >= 128 {
        lemma_end_from_bounds(s, k + 1);
    }
}

/// A VarInt that was read took between one and five bytes of the input.
pub proof fn lemma_varint_read_len(s: Seq<u8>)
    ensures
        varint_read(s) matches VarIntRead::Value(_, n) ==> 1 <= n <= 5 && n <= s.len(),
{
    lemma_end_from_bounds(s, 0);
}

/// Reads a VarInt from the front of `bytes`.
pub fn read_varint_from(bytes: &[u8]) -> (r: VarIntRead)
    ensures
        r == varint_read(bytes@),
        r matches VarIntRead::Value(_, n) ==> 1 <= n <= 5 && n <= bytes.len(),
{
    proof {
        lemma_varint_read_len(bytes@);
    }
    let mut acc: u64 = 0;
    let mut mult: u64 = 1;
    let mut k: usize = 0;
    while k < 5
        invariant
            k <= 5,
            k <= bytes.len(),
            mult == pow128(k as nat),
            acc < mult,
            acc == group_sum(bytes@.take(k as int)),
            end_from(bytes@, 0) == end_from(bytes@, k as nat),
        decreases 5 - k,
    {
        if k == bytes.len() {
            return VarIntRead::Truncated;
        }
        let b = bytes[k];
        proof {
            lemma_pow128_small(k as nat);
        }
        let g: u64 = (b % 128) as u64;
        assert(g * mult <= 127 * mult) by (nonlinear_arith)
            requires
                g <= 127,
        ;
        let ghost prev = bytes@.take(k as int);
        let ghost next = bytes@.take(k + 1);
        assert(next.drop_last() == prev);
        assert(next.last() == b);
        acc = acc + g * mult;
        if b < 128 {
            return VarIntRead::Value(((acc % 0x1_0000_0000) as u32) as i32, k + 1);
        }
        proof {
            lemma_end_from_step(bytes@, k as nat);
        }
        mult = mult * 128;
        k = k + 1;
    }
    if bytes.len() > 5 {
        VarIntRead::TooLong
    } else {
        VarIntRead::Truncated
    }
}

// ---------------------------------------------------------------------------
// Laws
// ---------------------------------------------------------------------------

proof fn lemma_group_sum_cons(b: u8, t: Seq<u8>)
    ensures
        group_sum(seq![b] + t) == (b % 128) as nat + 128 * group_sum(t),
    decreases t.len(),
{
    if t.len() == 0 {
        let s = seq![b] + t;
        assert(s.drop_last() =~= Seq::<u8>::empty());
        assert(group_sum(s.drop_last()) == 0);
        assert(pow128(0) == 1);
        assert(s.last() == b);
        assert(t =~= Seq::<u8>::empty());
        assert(group_sum(t) == 0);
    } else {
        let s = seq![b] + t;
        assert(s.drop_last() =~= seq![b] + t.drop_last());
        assert(s.last() == t.last());
        lemma_group_sum_cons(b, t.drop_last());
        let x = (t.last() % 128) as nat;
        let p = pow128((t.len() - 1) as nat);
        assert(pow128(t.len()) == 128 * p);
        assert(group_sum(s) == group_sum(s.drop_last()) + x * pow128(t.len()));
        assert(group_sum(t) == group_sum(t.drop_last()) + x * p);
        assert(x * (128 * p) == 128 * (x * p)) by (nonlinear_arith);
    }
}

proof fn lemma_varint_shape(v: u32)
    ensures
        varint_bytes(v).len() >= 1,
        group_sum(varint_bytes(v)) == v,
        varint_bytes(v).last() < 128,
        forall|j: int| 0 <= j < varint_bytes(v).len() - 1 ==> #[trigger] varint_bytes(v)[j] >= 128,
        forall|n: nat| n >= 1 && v < pow128(n) ==> varint_bytes(v).len() <= n,
    decreases v,
{
    if v < 128 {
        assert(group_sum(varint_bytes(v)) == v) by {
            let s = varint_bytes(v);
            assert(s.drop_last() =~= Seq::<u8>::empty());
            assert(group_sum(s.drop_last()) == 0);
            assert(pow128(0) == 1);
            assert(s.len() == 1);
            assert(s.last() == v as u8);
            assert((v as u8) % 128 == v);
            assert(group_sum(s) == group_sum(s.drop_last()) + ((s.last() % 128) as nat) * pow128(0));
        }
    } else {
        let w = (v / 128) as u32;
        let b = (v % 128 + 128) as u8;
        lemma_varint_shape(w);
        lemma_group_sum_cons(b, varint_bytes(w));
        let s = varint_bytes(v);
        assert(s == seq![b] + varint_bytes(w));
        assert forall|j: int| 0 <= j < s.len() - 1 implies #[trigger] s[j] >= 128 by {
            if j > 0 {
                assert(s[j] == varint_bytes(w)[j - 1]);
            }
        }
        assert forall|n: nat| n >= 1 && v < pow128(n) implies s.len() <= n by {
            assert(pow128(n) == 128 * pow128((n - 1) as nat));
            assert(w < pow128((n - 1) as nat));
            if n == 1 {
                assert(pow128(0) == 1);
            }
        }
    }
}

proof fn lemma_end_from_found(s: Seq<u8>, k: nat, m: nat)
    requires
        k <= m,
        m < 5,
        m < s.len(),
        s[m as int] < 128,
        forall|j: int| k <= j < m ==> s[j] >= 128,
    ensures
        end_from(s, k) == Some(m),
    decreases m - k,
{
    if k < m {
        lemma_end_from_found(s, k + 1, m);
    }
}

/// Every VarInt takes one to five bytes; each byte but the last has its high
/// bit set, and the last has it clear.
pub proof fn lemma_varint_len(value: i32)
    ensures
        1 <= varint_of(value).len() <= 5,
        varint_of(value).last() < 128,
        forall|j: int| 0 <= j < varint_of(value).len() - 1 ==> #[trigger] varint_of(value)[j] >= 128,
{
    lemma_varint_shape(value as u32);
    assert(pow128(5) == 0x8_0000_0000) by {
        reveal_with_fuel(pow128, 6);
    }
}

/// Reading back a written VarInt gives the value that was written and the
/// number of bytes it took, whatever bytes follow it.
pub proof fn lemma_varint_roundtrip(value: i32, rest: Seq<u8>)
    ensures
        varint_read(varint_of(value) + rest) == VarIntRead::Value(
            value,
            varint_of(value).len() as usize,
        ),
{
    let v = value as u32;
    let e = varint_bytes(v);
    let s = e + rest;
    lemma_varint_len(value);
    lemma_varint_shape(v);
    assert forall|j: int| 0 <= j < e.len() - 1 implies s[j] >= 128 by {
        assert(s[j] == e[j]);
        assert(e[j] >= 128);
    }
    assert(s[e.len() - 1] == e.last());
    lemma_end_from_found(s, 0, (e.len() - 1) as nat);
    assert(s.take(e.len() as int) =~= e);
    assert(v < 0x1_0000_0000);
    assert((v as u32) as i32 == value) by (bit_vector)
        requires
            v == value as u32,
    ;
}

} // verus!
