//! The viewer: a document and the dump drawn from it.

use vstd::prelude::*;
use crate::document::Document;
use crate::error::{Error, IoFailure};
use crate::hex::push_offset;
use crate::layout::dump_text;
use crate::options::Options;

verus! {

/// Highest level representation of hex viewer.
pub struct Hexi {
    document: Document,
}

/// A dump in progress: the lines of a document from the first one on,
/// each made when it is asked for.
pub struct Dump<'a> {
    document: &'a Document,
    next: usize,
}

/// The text of line `line` of the dump of `document`: the offset of the
/// line's first byte, a bar and a space, and the line itself.
pub open spec fn dump_line_text(document: Document, line: nat) -> Seq<char> {
    dump_text(line * document.line_length(), document.text(line))
}

/// The whole dump of `document`: one text for each of its lines, in the
/// order of the file.
pub open spec fn dump_lines(document: Document) -> Seq<Seq<char>> {
    Seq::new(document.lines(), |line: int| dump_line_text(document, line as nat))
}

/// Writes line `line` of the dump of `document`, or nothing where the
/// document has no such line.
pub fn dump_line(document: &Document, line: usize) -> (result: Option<String>)
    ensures
        line < document.lines() ==> result is Some && result->Some_0@ == dump_line_text(
            *document,
            line as nat,
        ),
        line >= document.lines() ==> result is None,
{
    match (document.line_offset(line), document.format_line(line)) {
        (Some(offset), Some(formatted)) => {
            let mut text = String::new();
            push_offset(&mut text, offset);
            text.push('|');
            text.push(' ');
            text.append(formatted.as_str());
            assert(text@ =~= dump_line_text(*document, line as nat));
            Some(text)
        },
        _ => None,
    }
}

impl Hexi {
    /// The document on view.
    pub closed spec fn document(&self) -> Document {
        self.document
    }

    /// Creates a hex viewer from the outcome of loading the bytes of
    /// `options.file`.
    pub fn with_options(options: Options, loaded: Result<Vec<u8>, IoFailure>) -> (result: Result<
        Hexi,
        Error,
    >)
        requires
            options.valid(),
        ensures
            match loaded {
                Ok(bytes) => result is Ok && result->Ok_0.document().holds(options, bytes@),
                Err(failure) => result is Err && result->Err_0 == Error::of_failure(failure),
            },
    {
        match Document::from_options(options, loaded) {
            Ok(document) => Ok(Hexi { document }),
            Err(err) => Err(err),
        }
    }

    /// Gives the document on view.
    pub fn get_document(&self) -> (document: &Document)
        ensures
            *document == self.document(),
    {
        &self.document
    }

    /// Creates a simple dump of the loaded data, this is useful for debugging.
    ///
    /// The dump hands out one line at a time, so that the first line can
    /// be shown before the last one is made.
    pub fn dump_file(&self) -> (dump: Dump<'_>)
        ensures
            dump.source() == self.document(),
            dump.position() == 0,
            dump.remaining() == dump_lines(self.document()),
    {
        let dump = Dump { document: &self.document, next: 0 };
        assert(dump.remaining() =~= dump_lines(self.document()));
        dump
    }
}

impl<'a> Dump<'a> {
    /// The document that is dumped.
    pub closed spec fn source(&self) -> Document {
        *self.document
    }

    /// The number of lines handed out so far.
    pub closed spec fn position(&self) -> nat {
        self.next as nat
    }

    /// The lines still to come, the next one first: none once the
    /// position has reached the document's line count.
    pub open spec fn remaining(&self) -> Seq<Seq<char>> {
        let left = if self.position() < self.source().lines() {
            (self.source().lines() - self.position()) as nat
        } else {
            0
        };
        Seq::new(left, |i: int| dump_line_text(self.source(), (self.position() + i) as nat))
    }

    /// Hands out the next line of the dump, or nothing once every line
    /// has been handed out.
    pub fn next_line(&mut self) -> (result: Option<String>)
        ensures
            final(self).source() == old(self).source(),
            old(self).position() < old(self).source().lines() ==> {
                &&& result is Some
                &&& result->Some_0@ == dump_line_text(old(self).source(), old(self).position())
                &&& result->Some_0@ == old(self).remaining().first()
                &&& final(self).position() == old(self).position() + 1
                &&& final(self).remaining() == old(self).remaining().drop_first()
            },
            old(self).position() >= old(self).source().lines() ==> {
                &&& result is None
                &&& old(self).remaining().len() == 0
                &&& *final(self) == *old(self)
            },
    {
        if self.next < self.document.len() {
            let result = dump_line(self.document, self.next);
            self.next = self.next + 1;
            assert(self.remaining() =~= old(self).remaining().drop_first());
            result
        } else {
            None
        }
    }
}

} // verus!
