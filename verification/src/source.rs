//! Where a pass gets its events from.

use crate::event::{eof_item, item_view, Item, XmlEvent};
use crate::scan::{scan, Halt, Mode, Scanner};
use crate::xml::{pending, read_event, EventReader};
use vstd::prelude::*;

verus! {

/// A document that is read event by event.
pub trait EventSource {
    /// The reads that the source has yet to give, up to and including its
    /// first end of input or complaint.
    spec fn remaining(&self) -> Seq<Item>;

    /// Gives the next read and moves past it. A source with nothing left
    /// reports the end of input.
    fn read(&mut self) -> (read: Result<XmlEvent, String>)
        ensures
            old(self).remaining().len() > 0 ==> item_view(read) == old(self).remaining()[0],
            old(self).remaining().len() > 0 ==> final(self).remaining() == old(
                self,
            ).remaining().drop_first(),
            old(self).remaining().len() == 0 ==> item_view(read) == eof_item(),
            old(self).remaining().len() == 0 ==> final(self).remaining().len() == 0,
    ;
}

impl<'a> EventSource for EventReader<'a> {
    open spec fn remaining(&self) -> Seq<Item> {
        pending(*self)
    }

    fn read(&mut self) -> (read: Result<XmlEvent, String>) {
        read_event(self)
    }
}

/// The values of a list of reads.
pub open spec fn reads_of(reads: Seq<Result<XmlEvent, String>>) -> Seq<Item> {
    Seq::new(reads.len(), |i: int| item_view(reads[i]))
}

/// A document whose reads were made earlier and are gone through again.
pub struct Replay<'a> {
    reads: &'a Vec<Result<XmlEvent, String>>,
    at: usize,
}

impl<'a> Replay<'a> {
    #[verifier::type_invariant]
    spec fn in_range(self) -> bool {
        self.at <= self.reads@.len()
    }

    /// The document that gives `reads` from the first on.
    pub fn new(reads: &'a Vec<Result<XmlEvent, String>>) -> (replay: Replay<'a>)
        ensures
            replay.remaining() == reads_of(reads@),
    {
        Replay { reads, at: 0 }
    }
}

impl<'a> EventSource for Replay<'a> {
    closed spec fn remaining(&self) -> Seq<Item> {
        reads_of(self.reads@).skip(self.at as int)
    }

    fn read(&mut self) -> (read: Result<XmlEvent, String>) {
        proof {
            use_type_invariant(&*self);
        }
        if self.at < self.reads.len() {
            let read = match &self.reads[self.at] {
                Ok(event) => Ok(event.duplicate()),
                Err(message) => Err(message.clone()),
            };
            self.at = self.at + 1;
            read
        } else {
            Ok(XmlEvent::eof())
        }
    }
}

/// Passes over `source` from where it stands to where the pass stops,
/// forwarding to `dest`.
pub fn scan_source<S: EventSource>(source: &mut S, mode: Mode, dest: &mut Vec<u8>) -> (halt: Halt)
    ensures
        halt@ == scan(old(source).remaining(), Seq::empty(), mode).stop,
        final(dest)@ == old(dest)@ + scan(old(source).remaining(), Seq::empty(), mode).emitted,
        final(source).remaining() == scan(old(source).remaining(), Seq::empty(), mode).rest,
{
    let ghost whole = scan(source.remaining(), Seq::empty(), mode);
    let mut scanner = Scanner::new(mode);
    loop
        invariant
            scanner.mode() == mode,
            whole == scan(old(source).remaining(), Seq::empty(), mode),
            whole.stop == scan(source.remaining(), scanner.path(), mode).stop,
            whole.rest == scan(source.remaining(), scanner.path(), mode).rest,
            old(dest)@ + whole.emitted == dest@ + scan(
                source.remaining(),
                scanner.path(),
                mode,
            ).emitted,
        decreases source.remaining().len(),
    {
        match source.read() {
            Err(message) => {
                return Halt::Fault(message);
            },
            Ok(event) => {
                if let Some(halt) = scanner.feed(&event, dest) {
                    return halt;
                }
            },
        }
    }
}

} // verus!
