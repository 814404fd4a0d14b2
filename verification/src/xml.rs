//! The tokenizer and serializer of `quick_xml`, behind contracts that Verus
//! takes on trust.

use crate::event::{eof_item, item_view, EventKind, Item, XmlEvent};
use quick_xml::events::Event;
use quick_xml::{Reader, Writer};
use vstd::prelude::*;

verus! {

/// A `quick_xml::Reader` over the bytes of one document, somewhere between
/// its start and its end.
#[verifier::external_body]
pub struct EventReader<'a> {
    inner: Reader<&'a [u8]>,
}

/// The reads that `quick_xml` makes of the document `src`, in order, up to
/// and including the first end of input or the first complaint. Each event
/// stands with the bytes that `quick_xml` writes for it.
pub uninterp spec fn xml_tokens(src: Seq<u8>) -> Seq<Item>;

/// The reads that `reader` still has to give, up to and including its first
/// end of input or complaint.
pub uninterp spec fn pending(reader: EventReader) -> Seq<Item>;

/// `Reader::from_reader` over a byte slice, with `check_end_names` switched
/// off so that matching end tags against start tags is left to the caller.
/// The new reader has the whole document before it.
#[verifier::external_body]
pub(crate) fn open_reader(src: &[u8]) -> (reader: EventReader)
    ensures
        pending(reader) == xml_tokens(src@),
{
    let mut inner = Reader::from_reader(src);
    inner.check_end_names(false);
    EventReader { inner }
}

/// `Reader::read_event`, with the event handed out in plain form: its kind,
/// the result of `name()` for a start or end tag, and the bytes that
/// `Writer::write_event` produces for it. The reader gives its next pending
/// read and moves past it; once nothing is pending it reports the end of
/// input, with no name and no bytes.
#[verifier::external_body]
pub(crate) fn read_event(reader: &mut EventReader) -> (read: Result<XmlEvent, String>)
    ensures
        pending(*old(reader)).len() > 0 ==> item_view(read) == pending(*old(reader))[0]
            && pending(*final(reader)) == pending(*old(reader)).drop_first(),
        pending(*old(reader)).len() == 0 ==> item_view(read) == eof_item()
            && pending(*final(reader)).len() == 0,
{
    let mut buf = Vec::new();
    let event = reader.inner.read_event(&mut buf).map_err(|e| e.to_string())?;
    let mut bytes = Vec::new();
    Writer::new(&mut bytes).write_event(&event).map_err(|e| e.to_string())?;
    let (kind, name) = match &event {
        Event::Start(start) => (EventKind::Start, start.name().to_vec()),
        Event::End(end) => (EventKind::End, end.name().to_vec()),
        Event::Eof => (EventKind::Eof, Vec::new()),
        _ => (EventKind::Other, Vec::new()),
    };
    Ok(XmlEvent { kind, name, bytes })
}

} // verus!
