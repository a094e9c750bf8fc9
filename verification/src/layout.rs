//! The geometry of a dump and the text of one line, as mathematics.

use vstd::prelude::*;
use crate::hex::{byte_hex, bytes_hex, lemma_hex_digit_value, offset_hex};

verus! {

/// The number of lines that `len` bytes take at `line_length` bytes a
/// line: none for an empty buffer, else the quotient rounded up.
pub open spec fn line_count(len: nat, line_length: nat) -> nat {
    if len == 0 {
        0
    } else {
        ((len - 1) / (line_length as int) + 1) as nat
    }
}

/// The bytes of line `index`: from `index * line_length` up to the next
/// line's start or the end of the buffer, whichever comes first.
pub open spec fn line_slice(bytes: Seq<u8>, index: nat, line_length: nat) -> Seq<u8>
    recommends
        index * line_length <= bytes.len(),
{
    let start = index * line_length;
    let end = if start + line_length <= bytes.len() {
        start + line_length
    } else {
        bytes.len()
    };
    bytes.subrange(start as int, end as int)
}

/// What is written between sections.
pub open spec fn section_gap() -> Seq<char> {
    seq![' ', ' ', ' ']
}

/// What is written between the chunks of a section.
pub open spec fn chunk_gap() -> Seq<char> {
    seq![' ']
}

/// What is written in front of the byte at position `i` of a line: nothing
/// before the first byte, the wide gap where a new section begins, a
/// single space where a new chunk begins inside a section, and nothing
/// inside a chunk.
pub open spec fn separator(i: nat, section_length: nat, chunk_size: nat) -> Seq<char>
    recommends
        section_length > 0,
        chunk_size > 0,
{
    if i == 0 {
        Seq::empty()
    } else if i % section_length == 0 {
        section_gap()
    } else if (i % section_length) % chunk_size == 0 {
        chunk_gap()
    } else {
        Seq::empty()
    }
}

/// The text of a line: each byte as two digits, with its separator in
/// front of it.
pub open spec fn line_text(bytes: Seq<u8>, section_length: nat, chunk_size: nat) -> Seq<char>
    recommends
        section_length > 0,
        chunk_size > 0,
    decreases bytes.len(),
{
    if bytes.len() == 0 {
        Seq::empty()
    } else {
        line_text(bytes.drop_last(), section_length, chunk_size) + separator(
            (bytes.len() - 1) as nat,
            section_length,
            chunk_size,
        ) + byte_hex(bytes.last())
    }
}

/// The text of a dumped line: the offset of its first byte, a bar and a
/// space, then the line's text.
pub open spec fn dump_text(offset: nat, text: Seq<char>) -> Seq<char> {
    offset_hex(offset) + seq!['|', ' '] + text
}

/// A line below the count starts inside the buffer.
pub proof fn lemma_line_starts_inside(len: nat, line_length: nat, index: nat)
    requires
        line_length > 0,
        index < line_count(len, line_length),
    ensures
        index * line_length < len,
{
    let full = (len - 1) / (line_length as int);
    assert(index <= full);
    assert(full * line_length <= len - 1) by (nonlinear_arith)
        requires
            full == (len - 1) / (line_length as int),
            line_length > 0,
            len >= 1,
    ;
    assert(index * line_length <= full * line_length) by (nonlinear_arith)
        requires
            index <= full,
            line_length > 0,
    ;
}

/// The line count is the quotient of the buffer's length by the line's
/// length, rounded up: the least number of lines that hold every byte.
pub proof fn lemma_line_count_is_ceiling(len: nat, line_length: nat)
    requires
        line_length > 0,
    ensures
        len == 0 ==> line_count(len, line_length) == 0,
        line_count(len, line_length) * line_length >= len,
        len > 0 ==> (line_count(len, line_length) - 1) * line_length < len,
        forall|n: nat| #[trigger] (n * line_length) >= len ==> n >= line_count(len, line_length),
{
    if len > 0 {
        let full = (len - 1) / (line_length as int);
        assert(full * line_length <= len - 1 < (full + 1) * line_length) by (nonlinear_arith)
            requires
                full == (len - 1) / (line_length as int),
                line_length > 0,
                len >= 1,
        ;
        assert forall|n: nat| #[trigger] (n * line_length) >= len implies n >= full + 1 by {
            if n <= full {
                assert(n * line_length <= full * line_length) by (nonlinear_arith)
                    requires
                        n <= full,
                        line_length > 0,
                ;
            }
        }
    }
}

/// The number of spaces that the separators of the first `count` bytes
/// of a line hold together.
pub open spec fn gaps_len(count: nat, section_length: nat, chunk_size: nat) -> nat
    decreases count,
{
    if count == 0 {
        0
    } else {
        gaps_len((count - 1) as nat, section_length, chunk_size) + separator(
            (count - 1) as nat,
            section_length,
            chunk_size,
        ).len()
    }
}

/// A text with its spaces taken out.
pub open spec fn without_spaces(text: Seq<char>) -> Seq<char> {
    text.filter(|c: char| c != ' ')
}

/// Every line but the last is full, and the last holds what is left over:
/// at least one byte and at most a full line, never more than the buffer has.
pub proof fn lemma_line_lengths(bytes: Seq<u8>, line_length: nat, index: nat)
    requires
        line_length > 0,
        index < line_count(bytes.len(), line_length),
    ensures
        index + 1 < line_count(bytes.len(), line_length) ==> line_slice(
            bytes,
            index,
            line_length,
        ).len() == line_length,
        index + 1 == line_count(bytes.len(), line_length) ==> line_slice(
            bytes,
            index,
            line_length,
        ).len() == bytes.len() - index * line_length,
        1 <= line_slice(bytes, index, line_length).len() <= line_length,
        forall|i: int|
            0 <= i < line_slice(bytes, index, line_length).len() ==> line_slice(
                bytes,
                index,
                line_length,
            )[i] == bytes[index * line_length + i],
{
    lemma_line_starts_inside(bytes.len(), line_length, index);
    lemma_line_count_is_ceiling(bytes.len(), line_length);
    let count = line_count(bytes.len(), line_length);
    if index + 1 < count {
        assert((index + 1) * line_length <= (count - 1) * line_length) by (nonlinear_arith)
            requires
                index + 1 <= count - 1,
                line_length > 0,
        ;
        assert((index + 1) * line_length == index * line_length + line_length)
            by (nonlinear_arith);
    } else {
        assert(count * line_length == index * line_length + line_length) by (nonlinear_arith)
            requires
                count == index + 1,
        ;
    }
}

/// A separator holds nothing but spaces.
pub proof fn lemma_separator_is_blank(i: nat, section_length: nat, chunk_size: nat)
    ensures
        without_spaces(separator(i, section_length, chunk_size)) == Seq::<char>::empty(),
        forall|k: int|
            0 <= k < separator(i, section_length, chunk_size).len() ==> separator(
                i,
                section_length,
                chunk_size,
            )[k] == ' ',
{
    reveal_with_fuel(Seq::filter, 4);
    let gap = separator(i, section_length, chunk_size);
    if gap.len() == 3 {
        assert(gap.drop_last().drop_last().drop_last() =~= Seq::<char>::empty());
    } else if gap.len() == 1 {
        assert(gap.drop_last() =~= Seq::<char>::empty());
    }
}

/// The two digits of a byte hold no space.
pub proof fn lemma_byte_hex_is_solid(b: u8)
    ensures
        without_spaces(byte_hex(b)) == byte_hex(b),
        byte_hex(b)[0] != ' ',
        byte_hex(b)[1] != ' ',
{
    reveal_with_fuel(Seq::filter, 3);
    lemma_hex_digit_value((b / 16) as nat);
    lemma_hex_digit_value((b % 16) as nat);
    let digits = byte_hex(b);
    assert(digits.drop_last().drop_last() =~= Seq::<char>::empty());
    assert(digits.drop_last() =~= seq![digits[0]]);
    assert(without_spaces(digits) =~= digits);
}

/// With the spaces taken out, the text of a line is the plain encoding
/// of its bytes: two digits a byte, in the order of the bytes.
pub proof fn lemma_text_without_spaces(bytes: Seq<u8>, section_length: nat, chunk_size: nat)
    ensures
        without_spaces(line_text(bytes, section_length, chunk_size)) == bytes_hex(bytes),
    decreases bytes.len(),
{
    broadcast use Seq::filter_distributes_over_add;

    if bytes.len() == 0 {
        assert(without_spaces(Seq::<char>::empty()) =~= Seq::<char>::empty()) by {
            reveal_with_fuel(Seq::filter, 1);
        }
    } else {
        lemma_text_without_spaces(bytes.drop_last(), section_length, chunk_size);
        lemma_separator_is_blank((bytes.len() - 1) as nat, section_length, chunk_size);
        lemma_byte_hex_is_solid(bytes.last());
        let head = line_text(bytes.drop_last(), section_length, chunk_size);
        let gap = separator((bytes.len() - 1) as nat, section_length, chunk_size);
        assert(without_spaces(head + gap + byte_hex(bytes.last())) =~= without_spaces(head)
            + without_spaces(gap) + without_spaces(byte_hex(bytes.last())));
    }
}

/// The text of a line neither begins nor ends with a space, so nothing
/// is left to trim; and only a line without bytes has an empty text.
pub proof fn lemma_text_is_trimmed(bytes: Seq<u8>, section_length: nat, chunk_size: nat)
    ensures
        bytes.len() == 0 <==> line_text(bytes, section_length, chunk_size).len() == 0,
        bytes.len() > 0 ==> line_text(bytes, section_length, chunk_size).first() != ' ',
        bytes.len() > 0 ==> line_text(bytes, section_length, chunk_size).last() != ' ',
        bytes.len() > 0 ==> line_text(bytes, section_length, chunk_size).first() == byte_hex(
            bytes.first(),
        )[0],
        bytes.len() > 0 ==> line_text(bytes, section_length, chunk_size).last() == byte_hex(
            bytes.last(),
        )[1],
    decreases bytes.len(),
{
    if bytes.len() > 0 {
        lemma_text_is_trimmed(bytes.drop_last(), section_length, chunk_size);
        lemma_byte_hex_is_solid(bytes.last());
        lemma_byte_hex_is_solid(bytes.first());
        if bytes.len() == 1 {
            assert(line_text(bytes.drop_last(), section_length, chunk_size) =~= Seq::<char>::empty());
            assert(separator(0, section_length, chunk_size) =~= Seq::<char>::empty());
            assert(line_text(bytes, section_length, chunk_size) =~= byte_hex(bytes.last()));
        } else {
            assert(bytes.drop_last().first() == bytes.first());
        }
    }
}

/// Two layouts that put the same separator in front of every byte of a
/// line give the line the same text.
pub proof fn lemma_same_separators_same_text(
    bytes: Seq<u8>,
    section_length: nat,
    chunk_size: nat,
    other_section_length: nat,
    other_chunk_size: nat,
)
    requires
        forall|i: nat|
            i < bytes.len() ==> #[trigger] separator(i, section_length, chunk_size) == separator(
                i,
                other_section_length,
                other_chunk_size,
            ),
    ensures
        line_text(bytes, section_length, chunk_size) == line_text(
            bytes,
            other_section_length,
            other_chunk_size,
        ),
    decreases bytes.len(),
{
    if bytes.len() > 0 {
        lemma_same_separators_same_text(
            bytes.drop_last(),
            section_length,
            chunk_size,
            other_section_length,
            other_chunk_size,
        );
        assert(separator((bytes.len() - 1) as nat, section_length, chunk_size) == separator(
            (bytes.len() - 1) as nat,
            other_section_length,
            other_chunk_size,
        ));
    }
}

/// A chunk size at or above the section's length cuts a section nowhere:
/// all such sizes give the same text.
pub proof fn lemma_wide_chunks_are_alike(
    bytes: Seq<u8>,
    section_length: nat,
    chunk_size: nat,
    other_chunk_size: nat,
)
    requires
        section_length > 0,
        chunk_size >= section_length,
        other_chunk_size >= section_length,
    ensures
        line_text(bytes, section_length, chunk_size) == line_text(
            bytes,
            section_length,
            other_chunk_size,
        ),
{
    assert forall|i: nat| i < bytes.len() implies #[trigger] separator(
        i,
        section_length,
        chunk_size,
    ) == separator(i, section_length, other_chunk_size) by {
        let column = i % section_length;
        assert(column < section_length);
        vstd::arithmetic::div_mod::lemma_small_mod(column, chunk_size);
        vstd::arithmetic::div_mod::lemma_small_mod(column, other_chunk_size);
    }
    lemma_same_separators_same_text(
        bytes,
        section_length,
        chunk_size,
        section_length,
        other_chunk_size,
    );
}

/// The length of a line's text is two characters for each byte and the
/// spaces of its separators: it depends on how many bytes the line has
/// and on the layout, not on what the bytes are.
pub proof fn lemma_text_len(bytes: Seq<u8>, section_length: nat, chunk_size: nat)
    ensures
        line_text(bytes, section_length, chunk_size).len() == 2 * bytes.len() + gaps_len(
            bytes.len(),
            section_length,
            chunk_size,
        ),
    decreases bytes.len(),
{
    if bytes.len() > 0 {
        lemma_text_len(bytes.drop_last(), section_length, chunk_size);
    }
}

} // verus!
