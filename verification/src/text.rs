//! Numbers and text as bytes: the decimal form of an integer, zero padding to
//! a fixed width, and the UTF-8 bytes of a string.

use vstd::prelude::*;
use vstd::utf8::{encode_utf8, is_ascii_chars, is_ascii_chars_encode_utf8};

verus! {

/// The UTF-8 bytes of `text`.
pub open spec fn utf8(text: Seq<char>) -> Seq<u8> {
    encode_utf8(text)
}

/// The ASCII digit for `d`, where `d` is below ten.
pub open spec fn digit(d: nat) -> u8 {
    ('0' as u8 + d) as u8
}

/// The decimal digits of `n`, most significant first, with no leading zero
/// but for zero itself.
pub open spec fn digits(n: nat) -> Seq<u8>
    decreases n,
{
    if n < 10 {
        seq![digit(n)]
    } else {
        digits(n / 10).push(digit(n % 10))
    }
}

/// The decimal text of `n`: a minus sign where it is negative, then the
/// digits of its magnitude.
pub open spec fn decimal(n: int) -> Seq<u8> {
    if n < 0 {
        utf8("-"@) + digits((-n) as nat)
    } else {
        digits(n as nat)
    }
}

/// `count` zero digits.
pub open spec fn zeros(count: nat) -> Seq<u8> {
    Seq::new(count, |i: int| '0' as u8)
}

/// `text` with zero digits put before it until it is `width` bytes long.
/// Text that is that long already, or longer, stays as it is: nothing is
/// cut off, and a minus sign ends up behind the zeros.
pub open spec fn zero_padded(text: Seq<u8>, width: nat) -> Seq<u8> {
    if text.len() >= width {
        text
    } else {
        zeros((width - text.len()) as nat) + text
    }
}

/// Ten to the power `k`.
pub open spec fn pow10(k: nat) -> nat
    decreases k,
{
    if k == 0 {
        1
    } else {
        10 * pow10((k - 1) as nat)
    }
}

/// Whether `b` is one of the ASCII digits.
pub open spec fn is_digit(b: u8) -> bool {
    '0' as u8 <= b <= '9' as u8
}

/// The number that a string of digits stands for, read from the left.
pub open spec fn digits_value(text: Seq<u8>) -> nat
    decreases text.len(),
{
    if text.len() == 0 {
        0
    } else {
        digits_value(text.drop_last()) * 10 + (text.last() - '0' as u8) as nat
    }
}

/// The integer that a decimal text stands for: its digits' value, negated
/// where the text starts with a minus sign.
pub open spec fn decimal_value(text: Seq<u8>) -> int {
    if text.len() > 0 && text[0] == '-' as u8 {
        -(digits_value(text.drop_first()) as int)
    } else {
        digits_value(text) as int
    }
}

/// Appends the UTF-8 bytes of `text` to `out`.
pub fn push_str(out: &mut Vec<u8>, text: &str)
    ensures
        final(out)@ == old(out)@ + utf8(text@),
{
    out.extend_from_slice(text.as_bytes());
}

/// Appends `bytes` to `out` as they are.
pub fn push_bytes(out: &mut Vec<u8>, bytes: &[u8])
    ensures
        final(out)@ == old(out)@ + bytes@,
{
    out.extend_from_slice(bytes);
}

/// Appends the decimal digits of `n` to `out`.
pub fn push_digits(out: &mut Vec<u8>, n: u64)
    ensures
        final(out)@ == old(out)@ + digits(n as nat),
    decreases n,
{
    if n >= 10 {
        push_digits(out, n / 10);
    }
    let d: u8 = (n % 10) as u8;
    out.push('0' as u8 + d);
}

/// Appends the decimal text of `n` to `out`.
pub fn push_decimal(out: &mut Vec<u8>, n: i64)
    ensures
        final(out)@ == old(out)@ + decimal(n as int),
{
    if n < 0 {
        push_str(out, "-");
        // `-n` does not fit for the least `i64`, so negate one less and add
        // the one back on the unsigned side.
        let magnitude: u64 = (-(n + 1)) as u64 + 1;
        push_digits(out, magnitude);
    } else {
        push_digits(out, n as u64);
    }
}

/// Appends the decimal text of `n` to `out`, with zero digits before it
/// where it is shorter than `width`.
pub fn push_zero_padded(out: &mut Vec<u8>, n: i64, width: usize)
    ensures
        final(out)@ == old(out)@ + zero_padded(decimal(n as int), width as nat),
{
    let ghost before = out@;
    let mut text: Vec<u8> = Vec::new();
    push_decimal(&mut text, n);
    let mut len: usize = text.len();
    while len < width
        invariant
            text@ == decimal(n as int),
            text.len() <= len,
            len <= width || len == text.len(),
            out@ == before + zeros((len - text.len()) as nat),
        decreases width - len,
    {
        out.push('0' as u8);
        len += 1;
    }
    push_bytes(out, text.as_slice());
}

/// The UTF-8 bytes of ASCII text are its characters, one byte each.
pub proof fn lemma_utf8_ascii(text: Seq<char>)
    requires
        is_ascii_chars(text),
    ensures
        utf8(text) == Seq::new(text.len(), |i: int| text[i] as u8),
{
    is_ascii_chars_encode_utf8(text);
}

/// The decimal digits of a number are ASCII digits, at least one of them,
/// and the first is no zero unless the number is zero.
pub proof fn lemma_digits_shape(n: nat)
    ensures
        digits(n).len() >= 1,
        forall|i: int| 0 <= i < digits(n).len() ==> is_digit(#[trigger] digits(n)[i]),
        n > 0 ==> digits(n)[0] != '0' as u8,
        n == 0 ==> digits(n) == seq!['0' as u8],
    decreases n,
{
    if n >= 10 {
        lemma_digits_shape(n / 10);
    }
}

/// A number has at most `k` digits exactly when it is below ten to the `k`.
pub proof fn lemma_digits_len(n: nat, k: nat)
    requires
        k >= 1,
    ensures
        digits(n).len() <= k <==> n < pow10(k),
    decreases k,
{
    lemma_digits_shape(n / 10);
    if k == 1 {
        assert(pow10(1) == 10) by {
            reveal_with_fuel(pow10, 2);
        }
    } else {
        lemma_digits_len(n / 10, (k - 1) as nat);
        if n < 10 {
            lemma_pow10_grows((k - 1) as nat);
        }
    }
}

/// Ten to any power is at least one.
proof fn lemma_pow10_grows(k: nat)
    ensures
        pow10(k) >= 1,
    decreases k,
{
    if k > 0 {
        lemma_pow10_grows((k - 1) as nat);
    }
}

/// Reading the digits of a number gives the number back.
pub proof fn lemma_digits_value(n: nat)
    ensures
        digits_value(digits(n)) == n,
    decreases n,
{
    if n < 10 {
        assert(digits(n).drop_last() == Seq::<u8>::empty());
        reveal_with_fuel(digits_value, 2);
    } else {
        lemma_digits_value(n / 10);
        assert(digits(n).drop_last() == digits(n / 10));
    }
}

/// Reading the decimal text of an integer gives the integer back, sign
/// included.
pub proof fn lemma_decimal_value(n: int)
    ensures
        decimal_value(decimal(n)) == n,
        n < 0 <==> decimal(n)[0] == '-' as u8,
{
    lemma_minus();
    if n < 0 {
        lemma_digits_value((-n) as nat);
        assert(decimal(n).drop_first() == digits((-n) as nat));
    } else {
        lemma_digits_value(n as nat);
        lemma_digits_shape(n as nat);
    }
}

/// The minus sign is the one byte 45.
proof fn lemma_minus()
    ensures
        utf8("-"@) == seq!['-' as u8],
{
    reveal_strlit("-");
    lemma_utf8_ascii("-"@);
}

/// Zero digits before a string of digits do not change its value.
pub proof fn lemma_zeros_value(count: nat, text: Seq<u8>)
    ensures
        digits_value(zeros(count) + text) == digits_value(text),
    decreases text.len(), count,
{
    let all = zeros(count) + text;
    if text.len() > 0 {
        lemma_zeros_value(count, text.drop_last());
        assert(all.drop_last() == zeros(count) + text.drop_last());
    } else if count > 0 {
        lemma_zeros_value((count - 1) as nat, text);
        assert(all.drop_last() == zeros((count - 1) as nat) + text);
    } else {
        assert(all == text);
    }
}

/// Padding never shortens a text, fills it up to the width where it was
/// shorter, and leaves the value of a string of digits as it was.
pub proof fn lemma_zero_padded(text: Seq<u8>, width: nat)
    ensures
        zero_padded(text, width).len() == if text.len() >= width {
            text.len()
        } else {
            width
        },
        digits_value(zero_padded(text, width)) == digits_value(text),
        (forall|i: int| 0 <= i < text.len() ==> is_digit(#[trigger] text[i])) ==> forall|i: int|
            0 <= i < zero_padded(text, width).len() ==> is_digit(
                #[trigger] zero_padded(text, width)[i],
            ),
{
    if text.len() < width {
        lemma_zeros_value((width - text.len()) as nat, text);
    }
}

} // verus!
