//! The text of a line as sections and chunks joined by gaps, and the proof
//! that it is the text that `line_text` builds byte by byte.

use vstd::prelude::*;
use vstd::arithmetic::div_mod::{
    lemma_fundamental_div_mod,
    lemma_fundamental_div_mod_converse,
    lemma_mod_add_multiples_vanish,
};
use crate::hex::{byte_hex, bytes_hex};
use crate::layout::{chunk_gap, line_text, section_gap, separator};

verus! {

/// A section's text: its bytes cut into chunks of `chunk_size` bytes, the
/// last one shorter where the section does not divide evenly, each chunk
/// written without spaces, and the chunks joined by single spaces.
pub open spec fn joined_chunks(bytes: Seq<u8>, chunk_size: nat) -> Seq<char>
    recommends
        chunk_size > 0,
    decreases bytes.len(),
{
    if chunk_size == 0 || bytes.len() <= chunk_size {
        bytes_hex(bytes)
    } else {
        bytes_hex(bytes.take(chunk_size as int)) + chunk_gap() + joined_chunks(
            bytes.skip(chunk_size as int),
            chunk_size,
        )
    }
}

/// A line's text: its bytes cut into sections of `section_length` bytes,
/// the last one shorter where the line is short, each written as its
/// joined chunks, and the sections joined by three spaces.
pub open spec fn joined_sections(bytes: Seq<u8>, section_length: nat, chunk_size: nat) -> Seq<char>
    recommends
        section_length > 0,
        chunk_size > 0,
    decreases bytes.len(),
{
    if section_length == 0 || bytes.len() <= section_length {
        joined_chunks(bytes, chunk_size)
    } else {
        joined_chunks(bytes.take(section_length as int), chunk_size) + section_gap()
            + joined_sections(bytes.skip(section_length as int), section_length, chunk_size)
    }
}

/// The text of bytes that stand at positions `at`, `at + 1`, ... of a
/// line: as `line_text`, but with no separator in front of the first.
spec fn run_text(bytes: Seq<u8>, at: nat, section_length: nat, chunk_size: nat) -> Seq<
    char,
>
    decreases bytes.len(),
{
    if bytes.len() == 0 {
        Seq::empty()
    } else if bytes.len() == 1 {
        byte_hex(bytes[0])
    } else {
        run_text(bytes.drop_last(), at, section_length, chunk_size) + separator(
            (at + bytes.len() - 1) as nat,
            section_length,
            chunk_size,
        ) + byte_hex(bytes.last())
    }
}

proof fn lemma_shifted_mod(a: nat, i: nat, m: nat)
    requires
        m > 0,
        a % m + i < m,
    ensures
        (a + i) % m == a % m + i,
{
    lemma_fundamental_div_mod(a as int, m as int);
    let quotient = (a as int) / (m as int);
    assert(quotient * m == m * quotient) by (nonlinear_arith);
    lemma_fundamental_div_mod_converse(
        (a + i) as int,
        m as int,
        quotient,
        (a % m + i) as int,
    );
}

proof fn lemma_line_is_run(bytes: Seq<u8>, section_length: nat, chunk_size: nat)
    ensures
        line_text(bytes, section_length, chunk_size) == run_text(
            bytes,
            0,
            section_length,
            chunk_size,
        ),
    decreases bytes.len(),
{
    if bytes.len() == 1 {
        assert(line_text(bytes.drop_last(), section_length, chunk_size) =~= Seq::<char>::empty());
        assert(line_text(bytes, section_length, chunk_size) =~= byte_hex(bytes[0]));
    } else if bytes.len() > 1 {
        lemma_line_is_run(bytes.drop_last(), section_length, chunk_size);
    }
}

proof fn lemma_run_splits(bytes: Seq<u8>, at: nat, section_length: nat, chunk_size: nat, k: nat)
    requires
        0 < k < bytes.len(),
    ensures
        run_text(bytes, at, section_length, chunk_size) == run_text(
            bytes.take(k as int),
            at,
            section_length,
            chunk_size,
        ) + separator(at + k, section_length, chunk_size) + run_text(
            bytes.skip(k as int),
            at + k,
            section_length,
            chunk_size,
        ),
    decreases bytes.len(),
{
    let head = bytes.take(k as int);
    let tail = bytes.skip(k as int);
    if k == bytes.len() - 1 {
        assert(head =~= bytes.drop_last());
        assert(tail.len() == 1);
        assert(tail[0] == bytes.last());
    } else {
        lemma_run_splits(bytes.drop_last(), at, section_length, chunk_size, k);
        assert(bytes.drop_last().take(k as int) =~= head);
        assert(bytes.drop_last().skip(k as int) =~= tail.drop_last());
        assert(tail.last() == bytes.last());
        assert(tail.len() == bytes.len() - k);
        let gap = separator(at + k, section_length, chunk_size);
        let last_gap = separator((at + bytes.len() - 1) as nat, section_length, chunk_size);
        let before = run_text(head, at, section_length, chunk_size);
        let middle = run_text(tail.drop_last(), at + k, section_length, chunk_size);
        assert(run_text(tail, at + k, section_length, chunk_size) == middle + last_gap + byte_hex(
            bytes.last(),
        ));
        assert(before + gap + middle + last_gap + byte_hex(bytes.last()) =~= before + gap + (middle
            + last_gap + byte_hex(bytes.last())));
    }
}

proof fn lemma_run_inside_chunk(bytes: Seq<u8>, at: nat, section_length: nat, chunk_size: nat)
    requires
        section_length > 0,
        chunk_size > 0,
        (at % section_length) % chunk_size == 0,
        at % section_length + bytes.len() <= section_length,
        bytes.len() <= chunk_size,
    ensures
        run_text(bytes, at, section_length, chunk_size) == bytes_hex(bytes),
    decreases bytes.len(),
{
    if bytes.len() == 1 {
        assert(bytes_hex(bytes.drop_last()) =~= Seq::<char>::empty());
        assert(bytes.last() == bytes[0]);
        assert(bytes_hex(bytes) =~= byte_hex(bytes[0]));
    } else if bytes.len() > 1 {
        lemma_run_inside_chunk(bytes.drop_last(), at, section_length, chunk_size);
        let i = (bytes.len() - 1) as nat;
        let column = at % section_length;
        lemma_shifted_mod(at, i, section_length);
        lemma_shifted_mod(column, i, chunk_size);
        assert(separator(at + i, section_length, chunk_size) =~= Seq::<char>::empty());
        assert(run_text(bytes, at, section_length, chunk_size) =~= bytes_hex(bytes));
    }
}

proof fn lemma_run_inside_section(bytes: Seq<u8>, at: nat, section_length: nat, chunk_size: nat)
    requires
        section_length > 0,
        chunk_size > 0,
        (at % section_length) % chunk_size == 0,
        at % section_length + bytes.len() <= section_length,
    ensures
        run_text(bytes, at, section_length, chunk_size) == joined_chunks(bytes, chunk_size),
    decreases bytes.len(),
{
    if bytes.len() <= chunk_size {
        lemma_run_inside_chunk(bytes, at, section_length, chunk_size);
    } else {
        let column = at % section_length;
        let head = bytes.take(chunk_size as int);
        let tail = bytes.skip(chunk_size as int);
        lemma_run_splits(bytes, at, section_length, chunk_size, chunk_size);
        lemma_run_inside_chunk(head, at, section_length, chunk_size);
        lemma_shifted_mod(at, chunk_size, section_length);
        lemma_mod_add_multiples_vanish(column as int, chunk_size as int);
        assert(separator(at + chunk_size, section_length, chunk_size) == chunk_gap());
        lemma_run_inside_section(tail, at + chunk_size, section_length, chunk_size);
    }
}

proof fn lemma_run_over_sections(bytes: Seq<u8>, at: nat, section_length: nat, chunk_size: nat)
    requires
        section_length > 0,
        chunk_size > 0,
        at % section_length == 0,
    ensures
        run_text(bytes, at, section_length, chunk_size) == joined_sections(
            bytes,
            section_length,
            chunk_size,
        ),
    decreases bytes.len(),
{
    assert(0nat % chunk_size == 0);
    if bytes.len() <= section_length {
        lemma_run_inside_section(bytes, at, section_length, chunk_size);
    } else {
        let head = bytes.take(section_length as int);
        let tail = bytes.skip(section_length as int);
        lemma_run_splits(bytes, at, section_length, chunk_size, section_length);
        lemma_run_inside_section(head, at, section_length, chunk_size);
        lemma_mod_add_multiples_vanish(at as int, section_length as int);
        assert(separator(at + section_length, section_length, chunk_size) == section_gap());
        lemma_run_over_sections(tail, at + section_length, section_length, chunk_size);
    }
}

/// Cutting a line into sections and each section into chunks, writing
/// each chunk solid, joining the chunks of a section by one space and the
/// sections by three, gives the text of the line.
pub proof fn lemma_text_is_joined_sections(bytes: Seq<u8>, section_length: nat, chunk_size: nat)
    requires
        section_length > 0,
        chunk_size > 0,
    ensures
        line_text(bytes, section_length, chunk_size) == joined_sections(
            bytes,
            section_length,
            chunk_size,
        ),
{
    lemma_line_is_run(bytes, section_length, chunk_size);
    assert(0nat % section_length == 0);
    lemma_run_over_sections(bytes, 0, section_length, chunk_size);
}

} // verus!
