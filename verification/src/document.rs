//! The loaded bytes and their layout.

use vstd::prelude::*;
use vstd::slice::slice_subrange;
use crate::error::{Error, IoFailure};
use crate::hex::push_byte_hex;
use crate::layout::{lemma_line_starts_inside, line_count, line_slice, line_text, separator};
use crate::options::Options;

verus! {

/// Stores the currently opened document.
pub struct Document {
    name: String,
    data: Vec<u8>,
    section_length: usize,
    sections_per_line: usize,
    chunk_size: usize,
}

impl Document {
    #[verifier::type_invariant]
    spec fn well_formed(&self) -> bool {
        &&& self.section_length > 0
        &&& self.sections_per_line > 0
        &&& self.chunk_size > 0
        &&& self.section_length * self.sections_per_line <= usize::MAX
    }

    /// The name the document was loaded under.
    pub closed spec fn name(&self) -> Seq<char> {
        self.name@
    }

    /// The document's bytes.
    pub closed spec fn bytes(&self) -> Seq<u8> {
        self.data@
    }

    /// Bytes in a section.
    pub closed spec fn section_length(&self) -> nat {
        self.section_length as nat
    }

    /// Sections on a line.
    pub closed spec fn sections_per_line(&self) -> nat {
        self.sections_per_line as nat
    }

    /// Bytes in a chunk.
    pub closed spec fn chunk_size(&self) -> nat {
        self.chunk_size as nat
    }

    /// Bytes on a full line.
    pub open spec fn line_length(&self) -> nat {
        self.section_length() * self.sections_per_line()
    }

    /// Lines in the document.
    pub open spec fn lines(&self) -> nat {
        line_count(self.bytes().len(), self.line_length())
    }

    /// The bytes of line `index`.
    pub open spec fn line(&self, index: nat) -> Seq<u8> {
        line_slice(self.bytes(), index, self.line_length())
    }

    /// The text of line `index`.
    pub open spec fn text(&self, index: nat) -> Seq<char> {
        line_text(self.line(index), self.section_length(), self.chunk_size())
    }

    /// Whether this document holds the given bytes under the given
    /// options.
    pub open spec fn holds(&self, options: Options, bytes: Seq<u8>) -> bool {
        &&& self.name() == options.file@
        &&& self.bytes() == bytes
        &&& self.section_length() == options.section_length
        &&& self.sections_per_line() == options.sections_per_line
        &&& self.chunk_size() == options.chunk_size
    }

    /// Constructs a document from the outcome of loading the bytes of
    /// `options.file`: the bytes under the layout of `options`, or the
    /// error that stands for the failure.
    pub fn from_options(options: Options, loaded: Result<Vec<u8>, IoFailure>) -> (result: Result<
        Document,
        Error,
    >)
        requires
            options.valid(),
        ensures
            match loaded {
                Ok(bytes) => result is Ok && result->Ok_0.holds(options, bytes@),
                Err(failure) => result is Err && result->Err_0 == Error::of_failure(failure),
            },
    {
        match loaded {
            Ok(data) => Ok(
                Document {
                    name: options.file,
                    data,
                    section_length: options.section_length,
                    sections_per_line: options.sections_per_line,
                    chunk_size: options.chunk_size,
                },
            ),
            Err(failure) => Err(Error::from(failure)),
        }
    }

    /// Gives the document's bytes.
    pub fn data(&self) -> (bytes: &[u8])
        ensures
            bytes@ == self.bytes(),
    {
        self.data.as_slice()
    }

    /// Gets the number of bytes in a section.
    pub fn get_section_length(&self) -> (length: usize)
        ensures
            length == self.section_length(),
            length > 0,
    {
        proof {
            use_type_invariant(self);
        }
        self.section_length
    }

    /// Gets the number of sections on a line.
    pub fn get_sections_per_line(&self) -> (count: usize)
        ensures
            count == self.sections_per_line(),
            count > 0,
    {
        proof {
            use_type_invariant(self);
        }
        self.sections_per_line
    }

    /// Gets the number of bytes in a chunk.
    pub fn get_chunk_size(&self) -> (size: usize)
        ensures
            size == self.chunk_size(),
            size > 0,
    {
        proof {
            use_type_invariant(self);
        }
        self.chunk_size
    }

    /// Gets the number of bytes drawn on a single line.
    pub fn get_line_length(&self) -> (length: usize)
        ensures
            length == self.line_length(),
            length > 0,
    {
        proof {
            use_type_invariant(self);
            assert(self.section_length * self.sections_per_line > 0) by (nonlinear_arith)
                requires
                    self.section_length > 0,
                    self.sections_per_line > 0,
            ;
        }
        self.section_length * self.sections_per_line
    }

    /// Returns the number of lines of data stored in this document.
    pub fn len(&self) -> (count: usize)
        ensures
            count == self.lines(),
    {
        let line_length = self.get_line_length();
        if self.data.len() == 0 {
            0
        } else {
            (self.data.len() - 1) / line_length + 1
        }
    }

    /// Returns the offset of the first byte of line `index`, or nothing
    /// where the document has no such line.
    pub fn line_offset(&self, index: usize) -> (result: Option<usize>)
        ensures
            index < self.lines() ==> result is Some && result->Some_0 == index
                * self.line_length(),
            index < self.lines() ==> index * self.line_length() < self.bytes().len(),
            index >= self.lines() ==> result is None,
    {
        if index >= self.len() {
            return None;
        }
        let line_length = self.get_line_length();
        let total = self.data.len();
        proof {
            lemma_line_starts_inside(total as nat, line_length as nat, index as nat);
        }
        Some(index * line_length)
    }

    /// Returns the bytes of line `index`, or nothing where the document
    /// has no such line.
    pub fn line_bytes(&self, index: usize) -> (result: Option<&[u8]>)
        ensures
            index < self.lines() ==> result is Some && result->Some_0@ == self.line(index as nat),
            index >= self.lines() ==> result is None,
    {
        match self.line_offset(index) {
            Some(start) => {
                let line_length = self.get_line_length();
                let total = self.data.len();
                let end = if total - start >= line_length {
                    start + line_length
                } else {
                    total
                };
                Some(slice_subrange(self.data.as_slice(), start, end))
            },
            None => None,
        }
    }

    /// Formats a given line of the document, or gives nothing where the
    /// document has no such line. The text has no space at either end, so
    /// nothing is left to trim.
    pub fn format_line(&self, line: usize) -> (result: Option<String>)
        ensures
            line < self.lines() ==> result is Some && result->Some_0@ == self.text(line as nat),
            line >= self.lines() ==> result is None,
    {
        proof {
            use_type_invariant(self);
        }
        match self.line_bytes(line) {
            Some(bytes) => Some(format_bytes(bytes, self.section_length, self.chunk_size)),
            None => None,
        }
    }
}

/// Writes `bytes` as one line: sections of `section_length` bytes with
/// three spaces between them, each section in chunks of `chunk_size`
/// bytes with one space between them, each byte as two digits.
pub fn format_bytes(bytes: &[u8], section_length: usize, chunk_size: usize) -> (text: String)
    requires
        section_length > 0,
        chunk_size > 0,
    ensures
        text@ == line_text(bytes@, section_length as nat, chunk_size as nat),
{
    let mut text = String::new();
    let mut i: usize = 0;
    while i < bytes.len()
        invariant
            section_length > 0,
            chunk_size > 0,
            i <= bytes.len(),
            text@ == line_text(bytes@.take(i as int), section_length as nat, chunk_size as nat),
        decreases bytes.len() - i,
    {
        let column = i % section_length;
        if i == 0 {
        } else if column == 0 {
            text.push(' ');
            text.push(' ');
            text.push(' ');
        } else if column % chunk_size == 0 {
            text.push(' ');
        }
        assert(text@ =~= line_text(bytes@.take(i as int), section_length as nat, chunk_size as nat)
            + separator(i as nat, section_length as nat, chunk_size as nat));
        push_byte_hex(&mut text, bytes[i]);
        proof {
            let next = bytes@.take(i + 1);
            assert(next.drop_last() =~= bytes@.take(i as int));
            assert(next.last() == bytes@[i as int]);
        }
        i += 1;
    }
    assert(bytes@.take(i as int) =~= bytes@);
    text
}

} // verus!
