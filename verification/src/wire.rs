//! Fixed-width little-endian integers, as they stand in the storage layout.

use vstd::prelude::*;

verus! {

/// The first `width` base-256 digits of `value`, least significant first.
pub open spec fn le_digits(value: nat, width: nat) -> Seq<u8>
    decreases width,
{
    if width == 0 {
        Seq::empty()
    } else {
        seq![(value % 256) as u8] + le_digits(value / 256, (width - 1) as nat)
    }
}

/// The number whose base-256 digits, least significant first, are `digits`.
pub open spec fn le_value(digits: Seq<u8>) -> nat
    decreases digits.len(),
{
    if digits.len() == 0 {
        0
    } else {
        digits[0] as nat + 256 * le_value(digits.drop_first())
    }
}

/// The number of values that `width` base-256 digits can tell apart.
pub open spec fn radix_pow(width: nat) -> nat
    decreases width,
{
    if width == 0 {
        1
    } else {
        256 * radix_pow((width - 1) as nat)
    }
}

/// The eight bytes that stand for `x` in the storage layout.
pub open spec fn u64_le(x: u64) -> Seq<u8> {
    le_digits(x as nat, 8)
}

/// Eight digits tell apart exactly the values of a `u64`.
pub proof fn lemma_radix_pow_8()
    ensures
        radix_pow(8) == 0x1_0000_0000_0000_0000,
{
    reveal_with_fuel(radix_pow, 9);
}

/// Up to eight digits tell apart no more values than a `u64` has.
pub proof fn lemma_radix_pow_le_8(width: nat)
    requires
        width <= 8,
    ensures
        radix_pow(width) <= 0x1_0000_0000_0000_0000,
{
    reveal_with_fuel(radix_pow, 9);
}

/// `le_digits` yields exactly `width` digits.
pub proof fn lemma_le_digits_len(value: nat, width: nat)
    ensures
        le_digits(value, width).len() == width,
    decreases width,
{
    if width > 0 {
        lemma_le_digits_len(value / 256, (width - 1) as nat);
    }
}

/// A digit string stands for a value below `radix_pow` of its length.
pub proof fn lemma_le_value_bound(digits: Seq<u8>)
    ensures
        le_value(digits) < radix_pow(digits.len()),
    decreases digits.len(),
{
    if digits.len() > 0 {
        lemma_le_value_bound(digits.drop_first());
    }
}

/// Reading back the digits of a value that fits in `width` digits gives the
/// value.
pub proof fn lemma_value_of_digits(value: nat, width: nat)
    requires
        value < radix_pow(width),
    ensures
        le_value(le_digits(value, width)) == value,
    decreases width,
{
    if width > 0 {
        let rest = le_digits(value / 256, (width - 1) as nat);
        let all = le_digits(value, width);
        lemma_value_of_digits(value / 256, (width - 1) as nat);
        assert(all.drop_first() =~= rest);
    }
}

/// Writing out the value of a digit string, at the string's own width, gives
/// the string.
pub proof fn lemma_digits_of_value(digits: Seq<u8>)
    ensures
        le_digits(le_value(digits), digits.len()) == digits,
    decreases digits.len(),
{
    if digits.len() > 0 {
        let tail = digits.drop_first();
        lemma_digits_of_value(tail);
        let value = le_value(digits);
        assert(value % 256 == digits[0] as nat);
        assert(value / 256 == le_value(tail));
        assert(le_digits(value, digits.len()) =~= digits);
    }
}

/// Appends the eight little-endian bytes of `x` to `out`.
pub(crate) fn push_u64_le(out: &mut Vec<u8>, x: u64)
    ensures
        final(out)@ == old(out)@ + u64_le(x),
{
    let mut rest: u64 = x;
    let mut written: usize = 0;
    while written < 8
        invariant
            written <= 8,
            old(out)@ + u64_le(x) == out@ + le_digits(rest as nat, (8 - written) as nat),
        decreases 8 - written,
    {
        let ghost before = out@;
        let ghost tail = le_digits((rest / 256) as nat, (8 - written - 1) as nat);
        let digit: u8 = (rest % 256) as u8;
        out.push(digit);
        assert(before + (seq![digit] + tail) =~= out@ + tail);
        rest = rest / 256;
        written = written + 1;
    }
}

/// Reads the little-endian `u64` that stands in the eight bytes of `bytes`
/// from index `at` on.
pub(crate) fn read_u64_le(bytes: &[u8], at: usize) -> (x: u64)
    requires
        at + 8 <= bytes@.len(),
    ensures
        x as nat == le_value(bytes@.subrange(at as int, at + 8)),
{
    let len: usize = bytes.len();
    let mut acc: u64 = 0;
    let mut taken: usize = 0;
    while taken < 8
        invariant
            taken <= 8,
            at + 8 <= len == bytes@.len(),
            acc as nat == le_value(bytes@.subrange(at + 8 - taken, at + 8)),
        decreases 8 - taken,
    {
        let ghost seen = bytes@.subrange(at + 8 - taken, at + 8);
        let ghost next = bytes@.subrange(at + 8 - taken - 1, at + 8);
        let digit: u8 = bytes[at + 7 - taken];
        proof {
            assert(next.drop_first() =~= seen);
            lemma_le_value_bound(seen);
            lemma_le_value_bound(next);
            lemma_radix_pow_le_8(next.len());
        }
        acc = acc * 256 + digit as u64;
        taken = taken + 1;
    }
    acc
}

} // verus!
