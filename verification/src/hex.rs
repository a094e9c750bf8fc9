//! Uppercase hexadecimal text for bytes and offsets.

use vstd::prelude::*;

verus! {

/// The uppercase hexadecimal digit for a value below sixteen.
pub open spec fn hex_digit(n: nat) -> char
    recommends
        n < 16,
{
    if n < 10 {
        (n + 48) as char
    } else {
        (n + 55) as char
    }
}

/// The value that a hexadecimal digit stands for.
pub open spec fn hex_value(c: char) -> nat {
    if '0' <= c && c <= '9' {
        (c as nat - 48) as nat
    } else {
        (c as nat - 55) as nat
    }
}

/// The two digits of a byte, high nibble first.
pub open spec fn byte_hex(b: u8) -> Seq<char> {
    seq![hex_digit((b / 16) as nat), hex_digit((b % 16) as nat)]
}

/// The digits of every byte of `bytes`, in order, with nothing between them.
pub open spec fn bytes_hex(bytes: Seq<u8>) -> Seq<char>
    decreases bytes.len(),
{
    if bytes.len() == 0 {
        Seq::empty()
    } else {
        bytes_hex(bytes.drop_last()) + byte_hex(bytes.last())
    }
}

/// The digits of `n` in base sixteen, most significant first, without
/// leading zeros (a single `0` for zero).
pub open spec fn hex_digits(n: nat) -> Seq<char>
    decreases n,
{
    if n < 16 {
        seq![hex_digit(n)]
    } else {
        hex_digits(n / 16).push(hex_digit(n % 16))
    }
}

/// A run of `count` zero digits.
pub open spec fn zeros(count: nat) -> Seq<char> {
    Seq::new(count, |i: int| '0')
}

/// The text of an offset: its hexadecimal digits, padded with zeros on the
/// left to four characters. A value of five digits or more is written in
/// full and is wider than four.
pub open spec fn offset_hex(n: nat) -> Seq<char> {
    let digits = hex_digits(n);
    if digits.len() < 4 {
        zeros((4 - digits.len()) as nat) + digits
    } else {
        digits
    }
}

/// Appends one character to a string.
///
/// States what `String::push` documents: the given character is
/// added at the end and nothing else changes.
pub assume_specification[ String::push ](s: &mut String, ch: char)
    ensures
        final(s)@ == old(s)@.push(ch),
;

/// The digit character for a nibble.
pub fn digit_char(n: u8) -> (c: char)
    requires
        n < 16,
    ensures
        c == hex_digit(n as nat),
{
    if n < 10 {
        (n + 48) as char
    } else {
        (n + 55) as char
    }
}

/// Appends the two hexadecimal digits of `b` to `out`.
pub fn push_byte_hex(out: &mut String, b: u8)
    ensures
        final(out)@ == old(out)@ + byte_hex(b),
{
    out.push(digit_char(b / 16));
    out.push(digit_char(b % 16));
}

/// Appends the hexadecimal digits of `n` to `out`, without leading zeros.
pub fn push_hex_digits(out: &mut String, n: usize)
    ensures
        final(out)@ == old(out)@ + hex_digits(n as nat),
    decreases n,
{
    if n >= 16 {
        push_hex_digits(out, n / 16);
    }
    out.push(digit_char((n % 16) as u8));
}

/// Appends the text of the offset `n` to `out`.
pub fn push_offset(out: &mut String, n: usize)
    ensures
        final(out)@ == old(out)@ + offset_hex(n as nat),
{
    proof {
        lemma_hex_digits_len(n as nat);
    }
    let ghost before = out@;
    if n < 0x1000 {
        out.push('0');
    }
    if n < 0x100 {
        out.push('0');
    }
    if n < 0x10 {
        out.push('0');
    }
    let ghost pad: nat = if n < 0x10 {
        3
    } else if n < 0x100 {
        2
    } else if n < 0x1000 {
        1
    } else {
        0
    };
    assert(out@ =~= before + zeros(pad));
    assert(before + zeros(pad) + hex_digits(n as nat) =~= before + offset_hex(n as nat));
    push_hex_digits(out, n);
}

/// A number below `16^k` for `k` from one to four has at most `k` digits,
/// and one of `16^3` or more has at least four.
pub proof fn lemma_hex_digits_len(n: nat)
    ensures
        hex_digits(n).len() >= 1,
        n < 0x10 <==> hex_digits(n).len() == 1,
        0x10 <= n < 0x100 <==> hex_digits(n).len() == 2,
        0x100 <= n < 0x1000 <==> hex_digits(n).len() == 3,
        0x1000 <= n <==> hex_digits(n).len() >= 4,
    decreases n,
{
    if n >= 16 {
        lemma_hex_digits_len(n / 16);
    }
}

/// Every hexadecimal digit is a digit or a capital letter from A to F,
/// and stands for the value it was made from.
pub proof fn lemma_hex_digit_value(n: nat)
    requires
        n < 16,
    ensures
        hex_value(hex_digit(n)) == n,
        hex_digit(n) != ' ',
        ('0' <= hex_digit(n) <= '9') || ('A' <= hex_digit(n) <= 'F'),
{
}

/// The two digits of a byte give the byte back.
pub proof fn lemma_byte_hex_value(b: u8)
    ensures
        byte_hex(b).len() == 2,
        hex_value(byte_hex(b)[0]) * 16 + hex_value(byte_hex(b)[1]) == b,
{
    lemma_hex_digit_value((b / 16) as nat);
    lemma_hex_digit_value((b % 16) as nat);
}

/// The plain encoding has two characters for each byte, and the pair at
/// position `i` is the text of byte `i`.
pub proof fn lemma_bytes_hex_index(bytes: Seq<u8>, i: int)
    requires
        0 <= i < bytes.len(),
    ensures
        bytes_hex(bytes).len() == 2 * bytes.len(),
        bytes_hex(bytes)[2 * i] == byte_hex(bytes[i])[0],
        bytes_hex(bytes)[2 * i + 1] == byte_hex(bytes[i])[1],
    decreases bytes.len(),
{
    lemma_bytes_hex_len(bytes);
    lemma_bytes_hex_len(bytes.drop_last());
    if i < bytes.len() - 1 {
        lemma_bytes_hex_index(bytes.drop_last(), i);
    }
}

/// The plain encoding has two characters for each byte.
pub proof fn lemma_bytes_hex_len(bytes: Seq<u8>)
    ensures
        bytes_hex(bytes).len() == 2 * bytes.len(),
    decreases bytes.len(),
{
    if bytes.len() > 0 {
        lemma_bytes_hex_len(bytes.drop_last());
    }
}

} // verus!
