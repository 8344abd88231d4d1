//! Text as bytes.

use crate::bytes::append_bytes;
use vstd::prelude::*;
use vstd::string::StringSliceAdditionalSpecFns;

verus! {

/// The bytes of a text.
pub open spec fn utf8(text: &str) -> Seq<u8> {
    text.spec_bytes()
}

/// `n` in decimal digits without leading zeros.
pub open spec fn decimal(n: nat) -> Seq<u8>
    decreases n,
{
    if n < 10 {
        seq![(48 + n) as u8]
    } else {
        decimal(n / 10).push((48 + n % 10) as u8)
    }
}

/// The number that decimal digits stand for.
pub open spec fn digits_value(digits: Seq<u8>) -> int
    decreases digits.len(),
{
    if digits.len() == 0 {
        0
    } else {
        10 * digits_value(digits.drop_last()) + (digits.last() - 48)
    }
}

/// A number can be read back from its digits, which begin with zero only for
/// zero itself.
pub proof fn decimal_reads_back(n: nat)
    ensures
        decimal(n).len() > 0,
        forall|i: int| 0 <= i < decimal(n).len() ==> 48 <= #[trigger] decimal(n)[i] <= 57,
        digits_value(decimal(n)) == n,
        n > 0 ==> decimal(n)[0] != 48,
    decreases n,
{
    if n < 10 {
        reveal_with_fuel(digits_value, 2);
        assert(decimal(n).drop_last() =~= Seq::<u8>::empty());
    } else {
        decimal_reads_back(n / 10);
        let front = decimal(n / 10);
        assert(decimal(n).drop_last() =~= front);
        assert(decimal(n)[0] == front[0]);
    }
}

/// Append the bytes of a text.
pub fn append_text(out: &mut Vec<u8>, text: &str)
    ensures
        final(out)@ == old(out)@ + utf8(text),
{
    append_bytes(out, text.as_bytes());
}

/// Append a number in decimal.
pub fn append_decimal(out: &mut Vec<u8>, number: u64)
    ensures
        final(out)@ == old(out)@ + decimal(number as nat),
    decreases number,
{
    let ghost before = out@;
    if number >= 10 {
        append_decimal(out, number / 10);
    }
    out.push(48 + (number % 10) as u8);
    assert(out@ =~= before + decimal(number as nat));
}

/// Whether two byte strings are the same.
pub fn same_bytes(a: &[u8], b: &[u8]) -> (same: bool)
    ensures
        same == (a@ == b@),
{
    if a.len() != b.len() {
        return false;
    }
    let mut i: usize = 0;
    while i < a.len()
        invariant
            i <= a@.len() == b@.len(),
            forall|k: int| 0 <= k < i ==> a@[k] == b@[k],
        decreases a@.len() - i,
    {
        if a[i] != b[i] {
            return false;
        }
        i = i + 1;
    }
    assert(a@ =~= b@);
    true
}

/// Whether bytes are a given text.
pub fn is_text(bytes: &[u8], text: &str) -> (same: bool)
    ensures
        same == (bytes@ == utf8(text)),
{
    same_bytes(bytes, text.as_bytes())
}

/// Whether bytes begin with a given text.
pub fn begins_with(bytes: &[u8], text: &str) -> (yes: bool)
    ensures
        yes == (utf8(text).len() <= bytes@.len() && bytes@.take(utf8(text).len() as int) == utf8(
            text,
        )),
{
    let front = text.as_bytes();
    if bytes.len() < front.len() {
        return false;
    }
    let mut i: usize = 0;
    while i < front.len()
        invariant
            i <= front@.len() <= bytes@.len(),
            front@ == utf8(text),
            forall|k: int| 0 <= k < i ==> front@[k] == bytes@[k],
        decreases front@.len() - i,
    {
        if front[i] != bytes[i] {
            assert(bytes@.take(front@.len() as int)[i as int] != front@[i as int]);
            return false;
        }
        i = i + 1;
    }
    assert(bytes@.take(front@.len() as int) =~= front@);
    true
}

} // verus!
