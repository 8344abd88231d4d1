//! Little-endian integers in byte sequences.

use vstd::prelude::*;

verus! {

/// The natural number that `bytes` encodes, least significant byte first.
pub open spec fn le_value(bytes: Seq<u8>) -> nat
    decreases bytes.len(),
{
    if bytes.len() == 0 {
        0
    } else {
        bytes[0] as nat + 256 * le_value(bytes.drop_first())
    }
}

/// `256` to the power `n`.
pub open spec fn pow256(n: nat) -> nat
    decreases n,
{
    if n == 0 {
        1
    } else {
        256 * pow256((n - 1) as nat)
    }
}

/// The field of `width` bytes at `offset`, when `bytes` holds all of it.
pub open spec fn le_field(bytes: Seq<u8>, offset: nat, width: nat) -> Option<nat> {
    if offset + width <= bytes.len() {
        Some(le_value(bytes.subrange(offset as int, (offset + width) as int)))
    } else {
        None
    }
}

/// A sequence of `n` bytes encodes a number below `256` to the power `n`.
pub proof fn le_value_is_bounded(bytes: Seq<u8>)
    ensures
        le_value(bytes) < pow256(bytes.len()),
    decreases bytes.len(),
{
    if bytes.len() > 0 {
        le_value_is_bounded(bytes.drop_first());
        assert(bytes.drop_first().len() == bytes.len() - 1);
    }
}

/// Two byte sequences of one length that encode one number are equal.
pub proof fn le_value_is_injective(a: Seq<u8>, b: Seq<u8>)
    requires
        a.len() == b.len(),
        le_value(a) == le_value(b),
    ensures
        a == b,
    decreases a.len(),
{
    if a.len() > 0 {
        let ra = a.drop_first();
        let rb = b.drop_first();
        assert(a[0] == b[0] && le_value(ra) == le_value(rb));
        le_value_is_injective(ra, rb);
        assert(a =~= seq![a[0]] + ra);
        assert(b =~= seq![b[0]] + rb);
    }
    assert(a =~= b);
}

proof fn lemma_pow256_monotone(a: nat, b: nat)
    requires
        a <= b,
    ensures
        pow256(a) <= pow256(b),
    decreases b,
{
    if a < b {
        lemma_pow256_monotone(a, (b - 1) as nat);
    }
}

pub(crate) proof fn lemma_pow256_values()
    ensures
        pow256(0) == 1,
        pow256(1) == 0x100,
        pow256(2) == 0x1_0000,
        pow256(4) == 0x1_0000_0000,
        pow256(7) == 0x100_0000_0000_0000,
        pow256(8) == 0x1_0000_0000_0000_0000,
{
    reveal_with_fuel(pow256, 9);
}

/// The `width` low bytes of `value`, least significant first.
pub open spec fn le_bytes(value: nat, width: nat) -> Seq<u8>
    decreases width,
{
    if width == 0 {
        Seq::empty()
    } else {
        seq![(value % 256) as u8] + le_bytes(value / 256, (width - 1) as nat)
    }
}

/// Decoding gives back what was encoded.
pub proof fn le_bytes_round_trip(value: nat, width: nat)
    requires
        value < pow256(width),
    ensures
        le_bytes(value, width).len() == width,
        le_value(le_bytes(value, width)) == value,
    decreases width,
{
    if width > 0 {
        let rest = le_bytes(value / 256, (width - 1) as nat);
        le_bytes_round_trip(value / 256, (width - 1) as nat);
        assert(le_bytes(value, width).drop_first() =~= rest);
    }
}

/// Read `width` little-endian bytes at `offset`.
pub fn read_le(bytes: &[u8], offset: usize, width: usize) -> (value: Option<u64>)
    requires
        width <= 8,
    ensures
        match value {
            Some(v) => le_field(bytes@, offset as nat, width as nat) == Some(v as nat),
            None => le_field(bytes@, offset as nat, width as nat) is None,
        },
{
    if bytes.len() < width || bytes.len() - width < offset {
        return None;
    }
    let end: usize = offset + width;
    let mut at: usize = end;
    let mut value: u64 = 0;
    while at > offset
        invariant
            offset <= at <= end <= bytes@.len(),
            end == offset + width,
            width <= 8,
            value == le_value(bytes@.subrange(at as int, end as int)),
        decreases at - offset,
    {
        let ghost tail = bytes@.subrange(at as int, end as int);
        at = at - 1;
        let ghost longer = bytes@.subrange(at as int, end as int);
        proof {
            assert(longer.drop_first() =~= tail);
            le_value_is_bounded(tail);
            lemma_pow256_monotone(tail.len(), 7);
            lemma_pow256_values();
        }
        value = value * 256 + bytes[at] as u64;
    }
    Some(value)
}

/// Append bytes.
pub fn append_bytes(out: &mut Vec<u8>, bytes: &[u8])
    ensures
        final(out)@ == old(out)@ + bytes@,
{
    let ghost before = out@;
    let mut i: usize = 0;
    while i < bytes.len()
        invariant
            i <= bytes@.len(),
            out@ == before + bytes@.take(i as int),
        decreases bytes@.len() - i,
    {
        out.push(bytes[i]);
        i = i + 1;
        assert(out@ =~= before + bytes@.take(i as int));
    }
    assert(bytes@.take(i as int) =~= bytes@);
}

/// Append the `width` low little-endian bytes that encode `value`.
pub fn append_le(out: &mut Vec<u8>, value: u64, width: usize)
    requires
        width <= 8,
        value < pow256(width as nat),
    ensures
        final(out)@.len() == old(out)@.len() + width,
        final(out)@.subrange(0, old(out)@.len() as int) == old(out)@,
        le_value(final(out)@.subrange(old(out)@.len() as int, final(out)@.len() as int)) == value,
        final(out)@ == old(out)@ + le_bytes(value as nat, width as nat),
{
    let ghost before = out@;
    let ghost mut tail: Seq<u8> = Seq::empty();
    let mut rest: u64 = value;
    let mut done: usize = 0;
    proof {
        lemma_pow256_values();
    }
    while done < width
        invariant
            width <= 8,
            done <= width,
            rest < pow256((width - done) as nat),
            tail.len() == done,
            out@ == before + tail,
            value == le_value(tail) + pow256(done as nat) * rest,
        decreases width - done,
    {
        let byte: u8 = (rest % 256) as u8;
        let ghost grown = tail.push(byte);
        proof {
            lemma_le_value_push(tail, byte);
            assert(rest == 256 * (rest / 256) + byte);
            assert(pow256(done as nat) * rest == pow256(done as nat) * byte + pow256(
                (done + 1) as nat,
            ) * (rest / 256)) by (nonlinear_arith)
                requires
                    rest == 256 * (rest / 256) + byte,
                    pow256((done + 1) as nat) == 256 * pow256(done as nat),
            ;
        }
        out.push(byte);
        rest = rest / 256;
        done = done + 1;
        proof {
            tail = grown;
            assert(out@ =~= before + tail);
        }
    }
    proof {
        assert(rest == 0);
        assert(pow256(done as nat) * rest == 0) by (nonlinear_arith)
            requires
                rest == 0,
        ;
        assert(out@.subrange(before.len() as int, out@.len() as int) =~= tail);
        assert(out@.subrange(0, before.len() as int) =~= before);
        le_bytes_round_trip(value as nat, width as nat);
        le_value_is_injective(tail, le_bytes(value as nat, width as nat));
        assert(out@ =~= before + le_bytes(value as nat, width as nat));
    }
}

proof fn lemma_le_value_push(bytes: Seq<u8>, last: u8)
    ensures
        le_value(bytes.push(last)) == le_value(bytes) + pow256(bytes.len()) * last,
    decreases bytes.len(),
{
    let longer = bytes.push(last);
    if bytes.len() == 0 {
        assert(longer.drop_first() =~= bytes);
        assert(le_value(longer) == last as nat + 256 * le_value(bytes));
        assert(pow256(0) * last == last) by (nonlinear_arith)
            requires
                pow256(0) == 1,
        ;
    } else {
        let rest = bytes.drop_first();
        assert(longer.drop_first() =~= rest.push(last));
        lemma_le_value_push(rest, last);
        assert(pow256(bytes.len()) * last == 256 * (pow256(rest.len()) * last)) by (nonlinear_arith)
            requires
                pow256(bytes.len()) == 256 * pow256(rest.len()),
        ;
    }
}

} // verus!
