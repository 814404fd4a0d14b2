//! The lexical units of an XML document, as far as the merge looks at them.

use crate::bytes::copy_bytes;
use vstd::prelude::*;

verus! {

/// What the merge needs to know of an event's shape.
#[derive(Clone, Copy, Debug, PartialEq, Eq, Structural)]
pub enum EventKind {
    /// A start tag, `<name ...>`.
    Start,
    /// An end tag, `</name>`.
    End,
    /// The end of the document.
    Eof,
    /// Anything else: text, comments, empty elements, declarations and so on.
    Other,
}

/// One event of a document: its kind, the element name for a start or end
/// tag, and the bytes that stand for it in the output.
#[derive(Debug, PartialEq, Eq)]
pub struct XmlEvent {
    pub kind: EventKind,
    /// The element's name on a start or end tag; empty otherwise.
    pub name: Vec<u8>,
    /// The event as it is written to the output.
    pub bytes: Vec<u8>,
}

impl XmlEvent {
    /// The event that ends a document.
    pub fn eof() -> (event: XmlEvent)
        ensures
            item_view(Ok(event)) == eof_item(),
    {
        XmlEvent { kind: EventKind::Eof, name: Vec::new(), bytes: Vec::new() }
    }

    /// A copy of the event.
    pub fn duplicate(&self) -> (copy: XmlEvent)
        ensures
            copy@ == self@,
    {
        XmlEvent {
            kind: self.kind,
            name: copy_bytes(self.name.as_slice()),
            bytes: copy_bytes(self.bytes.as_slice()),
        }
    }
}

/// The mathematical value of an [`XmlEvent`].
pub struct Token {
    pub kind: EventKind,
    pub name: Seq<u8>,
    pub bytes: Seq<u8>,
}

impl View for XmlEvent {
    type V = Token;

    open spec fn view(&self) -> Token {
        Token { kind: self.kind, name: self.name@, bytes: self.bytes@ }
    }
}

/// What one read of a document gives: an event, or the tokenizer's complaint.
pub type Item = Result<Token, Seq<char>>;

/// The mathematical value of one read.
pub open spec fn item_view(read: Result<XmlEvent, String>) -> Item {
    match read {
        Ok(event) => Ok(event@),
        Err(message) => Err(message@),
    }
}

/// The read that a reader past its end keeps giving: the end of input,
/// with no name and no bytes.
pub open spec fn eof_item() -> Item {
    Ok(Token { kind: EventKind::Eof, name: Seq::empty(), bytes: Seq::empty() })
}

} // verus!
