//! One pass over the events of one document: which of them are forwarded
//! to the output, and where the pass stops.

use crate::bytes::append_bytes;
use crate::event::{EventKind, Item, Token, XmlEvent};
use crate::path::{
    closes, mismatch_of, names_of, popped, starts_with, Mismatch, PathTracker, TagMismatch,
};
use vstd::prelude::*;

verus! {

/// The three ways of passing over a document.
#[derive(Clone, Copy, Debug, PartialEq, Eq, Structural)]
pub enum Mode {
    /// The first document, up to its root's end tag: everything is
    /// forwarded, and the pass stops at that tag without forwarding it.
    Header,
    /// A later document: only what lies in a track is forwarded.
    Tracks,
    /// The first document after its root's end tag: everything is forwarded.
    Tail,
}

/// The bytes of `gpx`, the name of the root element.
pub open spec fn gpx_name() -> Seq<u8> {
    seq![0x67u8, 0x70u8, 0x78u8]
}

/// The bytes of `trk`, the name of a track element.
pub open spec fn trk_name() -> Seq<u8> {
    seq![0x74u8, 0x72u8, 0x6bu8]
}

/// The path at which only the root element is open.
pub open spec fn root_path() -> Seq<Seq<u8>> {
    seq![gpx_name()]
}

/// The path of a track that is a child of the root.
pub open spec fn track_path() -> Seq<Seq<u8>> {
    seq![gpx_name(), trk_name()]
}

/// Whether an event met at `path` goes to the output. For a start tag the
/// path already holds the element; for an end tag it still does.
pub open spec fn forwards(mode: Mode, path: Seq<Seq<u8>>) -> bool {
    mode != Mode::Tracks || starts_with(path, track_path())
}

/// The bytes that an event met at `path` adds to the output.
pub open spec fn forwarded(mode: Mode, path: Seq<Seq<u8>>, token: Token) -> Seq<u8> {
    if forwards(mode, path) {
        token.bytes
    } else {
        Seq::empty()
    }
}

/// Why a pass stopped.
pub enum Stop {
    /// The document came to its end.
    Finished,
    /// The root's end tag was reached in a header pass; the tag is held
    /// back for later.
    RootClose(Token),
    /// The tokenizer gave up on the document.
    Fault(Seq<char>),
    /// An end tag did not close the innermost open element.
    Mismatch(Mismatch),
}

/// What one event does to a pass.
pub enum Step {
    /// The pass goes on at `path`, `emitted` having gone to the output.
    Continue { path: Seq<Seq<u8>>, emitted: Seq<u8> },
    /// The pass stops, and the event is not forwarded.
    Halt(Stop),
}

/// The effect of `token` on a pass that stands at `path`.
pub open spec fn step(mode: Mode, path: Seq<Seq<u8>>, token: Token) -> Step {
    match token.kind {
        EventKind::Eof => Step::Halt(Stop::Finished),
        EventKind::Start => {
            let inner = path.push(token.name);
            Step::Continue { path: inner, emitted: forwarded(mode, inner, token) }
        },
        EventKind::End => {
            if !closes(path, token.name) {
                Step::Halt(Stop::Mismatch(mismatch_of(path, token.name)))
            } else if mode == Mode::Header && path == root_path() {
                Step::Halt(Stop::RootClose(token))
            } else {
                Step::Continue { path: path.drop_last(), emitted: forwarded(mode, path, token) }
            }
        },
        EventKind::Other => Step::Continue { path, emitted: forwarded(mode, path, token) },
    }
}

/// A pass as a whole: the bytes it sent to the output, why it stopped, and
/// the reads that it left untouched.
pub struct Scan {
    /// What went to the output.
    pub emitted: Seq<u8>,
    /// Why the pass stopped.
    pub stop: Stop,
    /// The reads after the one that stopped the pass.
    pub rest: Seq<Item>,
}

/// The pass over `items` that starts at `path`. A document whose reads run
/// out without an end-of-input event counts as finished.
pub open spec fn scan(items: Seq<Item>, path: Seq<Seq<u8>>, mode: Mode) -> Scan
    decreases items.len(),
{
    if items.len() == 0 {
        Scan { emitted: Seq::empty(), stop: Stop::Finished, rest: items }
    } else {
        match items[0] {
            Err(message) => Scan {
                emitted: Seq::empty(),
                stop: Stop::Fault(message),
                rest: items.drop_first(),
            },
            Ok(token) => match step(mode, path, token) {
                Step::Halt(stop) => Scan { emitted: Seq::empty(), stop, rest: items.drop_first() },
                Step::Continue { path: next, emitted } => {
                    let after = scan(items.drop_first(), next, mode);
                    Scan { emitted: emitted + after.emitted, stop: after.stop, rest: after.rest }
                },
            },
        }
    }
}

/// Why a pass stopped, with the values that the caller goes on with.
#[derive(Debug, PartialEq, Eq)]
pub enum Halt {
    /// The document came to its end.
    Finished,
    /// A header pass reached the root's end tag, which is handed back
    /// unwritten.
    RootClose(XmlEvent),
    /// The tokenizer gave up on the document, with this message.
    Fault(String),
    /// An end tag did not close the innermost open element.
    Mismatch(TagMismatch),
}

impl View for Halt {
    type V = Stop;

    open spec fn view(&self) -> Stop {
        match self {
            Halt::Finished => Stop::Finished,
            Halt::RootClose(event) => Stop::RootClose(event@),
            Halt::Fault(message) => Stop::Fault(message@),
            Halt::Mismatch(mismatch) => Stop::Mismatch(mismatch@),
        }
    }
}

/// The two paths that a pass compares its own path with.
struct Patterns {
    root: Vec<Vec<u8>>,
    track: Vec<Vec<u8>>,
}

impl Patterns {
    #[verifier::type_invariant]
    spec fn hold(self) -> bool {
        names_of(self.root@) == root_path() && names_of(self.track@) == track_path()
    }

    /// The patterns of a GPX document: the root alone, and a track that is
    /// a child of the root.
    fn new() -> (patterns: Patterns)
        ensures
            names_of(patterns.root@) == root_path(),
            names_of(patterns.track@) == track_path(),
    {
        let mut root: Vec<Vec<u8>> = Vec::new();
        root.push(gpx());
        let mut track: Vec<Vec<u8>> = Vec::new();
        track.push(gpx());
        track.push(trk());
        assert(names_of(root@) =~= root_path());
        assert(names_of(track@) =~= track_path());
        Patterns { root, track }
    }
}

fn gpx() -> (name: Vec<u8>)
    ensures
        name@ == gpx_name(),
{
    let mut name: Vec<u8> = Vec::new();
    name.push(0x67u8);
    name.push(0x70u8);
    name.push(0x78u8);
    name
}

fn trk() -> (name: Vec<u8>)
    ensures
        name@ == trk_name(),
{
    let mut name: Vec<u8> = Vec::new();
    name.push(0x74u8);
    name.push(0x72u8);
    name.push(0x6bu8);
    name
}

/// A pass in progress: its mode and the elements that are open.
pub struct Scanner {
    mode: Mode,
    tracker: PathTracker,
    patterns: Patterns,
}

impl Scanner {
    /// The mode of the pass.
    pub closed spec fn mode(&self) -> Mode {
        self.mode
    }

    /// The elements that are open, outermost first.
    pub closed spec fn path(&self) -> Seq<Seq<u8>> {
        self.tracker@
    }

    /// What the event `token` will do to the pass.
    pub open spec fn next(&self, token: Token) -> Step {
        step(self.mode(), self.path(), token)
    }

    /// The elements that are open once `token` has been taken. An end tag
    /// that stops the pass has still been taken off the path.
    pub open spec fn path_after(&self, token: Token) -> Seq<Seq<u8>> {
        match self.next(token) {
            Step::Continue { path, .. } => path,
            Step::Halt(_) => if token.kind == EventKind::End {
                popped(self.path())
            } else {
                self.path()
            },
        }
    }

    /// A pass that has read nothing yet.
    pub fn new(mode: Mode) -> (scanner: Scanner)
        ensures
            scanner.mode() == mode,
            scanner.path() == Seq::<Seq<u8>>::empty(),
    {
        Scanner { mode, tracker: PathTracker::new(), patterns: Patterns::new() }
    }

    /// Takes the next event of the document. An event that lets the pass go
    /// on is forwarded to `dest` if the mode and the path say so; one that
    /// stops the pass leaves `dest` as it was and comes back in the result.
    pub fn feed(&mut self, event: &XmlEvent, dest: &mut Vec<u8>) -> (halt: Option<Halt>)
        ensures
            final(self).mode() == old(self).mode(),
            old(self).next(event@) matches Step::Halt(stop) ==> halt matches Some(stopped)
                && stopped@ == stop && final(dest)@ == old(dest)@,
            old(self).next(event@) is Continue ==> halt is None,
            halt is None ==> final(dest)@ == old(dest)@ + old(self).next(event@)->emitted,
            final(self).path() == old(self).path_after(event@),
    {
        proof {
            use_type_invariant(&self.patterns);
        }
        match event.kind {
            EventKind::Eof => Some(Halt::Finished),
            EventKind::Start => {
                self.tracker.push(event.name.as_slice());
                self.forward(event, dest);
                None
            },
            EventKind::End => {
                let at_root = match self.mode {
                    Mode::Header => self.tracker.is_exactly(self.patterns.root.as_slice()),
                    _ => false,
                };
                let wanted = self.wanted();
                match self.tracker.pop_expect(event.name.as_slice()) {
                    Err(mismatch) => Some(Halt::Mismatch(mismatch)),
                    Ok(()) => {
                        if at_root {
                            Some(Halt::RootClose(event.duplicate()))
                        } else {
                            if wanted {
                                append_bytes(dest, event.bytes.as_slice());
                            }
                            None
                        }
                    },
                }
            },
            EventKind::Other => {
                self.forward(event, dest);
                None
            },
        }
    }

    /// Whether an event met at the present path goes to the output.
    fn wanted(&self) -> (wanted: bool)
        ensures
            wanted == forwards(self.mode(), self.path()),
    {
        proof {
            use_type_invariant(&self.patterns);
        }
        match self.mode {
            Mode::Tracks => self.tracker.has_prefix(self.patterns.track.as_slice()),
            _ => true,
        }
    }

    /// Sends `event` to the output if the present path says so.
    fn forward(&self, event: &XmlEvent, dest: &mut Vec<u8>)
        ensures
            final(dest)@ == old(dest)@ + forwarded(self.mode(), self.path(), event@),
    {
        if self.wanted() {
            append_bytes(dest, event.bytes.as_slice());
        }
    }
}

} // verus!
