//! The merge itself: the first document in full, with the tracks of all
//! later documents placed just before its root's end tag.

use crate::bytes::append_bytes;
use crate::event::{Item, XmlEvent};
use crate::path::{Mismatch, TagMismatch};
use crate::scan::{scan, Halt, Mode, Stop};
use crate::source::{reads_of, scan_source, EventSource, Replay};
use crate::xml::{open_reader, xml_tokens, EventReader};
use vstd::prelude::*;

verus! {

/// Why a merge failed. `source` counts the documents from zero.
#[derive(Debug, PartialEq, Eq)]
pub enum MergeError {
    /// The tokenizer could not read on in document `source`.
    Parse { source: usize, message: String },
    /// An end tag in document `source` did not close the innermost open
    /// element.
    TagMismatch { source: usize, mismatch: TagMismatch },
    /// The first document ended before its root element was closed, or
    /// there was no first document.
    MissingTemplateRootClose,
}

/// The mathematical value of a [`MergeError`].
pub enum Failure {
    Parse { source: int, message: Seq<char> },
    TagMismatch { source: int, mismatch: Mismatch },
    MissingTemplateRootClose,
}

impl View for MergeError {
    type V = Failure;

    open spec fn view(&self) -> Failure {
        match self {
            MergeError::Parse { source, message } => Failure::Parse {
                source: *source as int,
                message: message@,
            },
            MergeError::TagMismatch { source, mismatch } => Failure::TagMismatch {
                source: *source as int,
                mismatch: mismatch@,
            },
            MergeError::MissingTemplateRootClose => Failure::MissingTemplateRootClose,
        }
    }
}

/// The mathematical value of a merge's result.
pub open spec fn result_view(result: Result<(), MergeError>) -> Result<(), Failure> {
    match result {
        Ok(()) => Ok(()),
        Err(error) => Err(error@),
    }
}

/// What a merge comes to: the bytes it wrote, and whether it went through.
/// The bytes written before a failure stay written.
pub struct Outcome {
    /// What was appended to the destination.
    pub output: Seq<u8>,
    /// Whether the merge went through.
    pub result: Result<(), Failure>,
}

/// How a pass over document `source` that is allowed to reach the end of
/// the document has ended.
pub open spec fn ending(source: int, stop: Stop) -> Result<(), Failure> {
    match stop {
        Stop::Finished => Ok(()),
        Stop::RootClose(_) => Ok(()),
        Stop::Fault(message) => Err(Failure::Parse { source, message }),
        Stop::Mismatch(mismatch) => Err(Failure::TagMismatch { source, mismatch }),
    }
}

/// The tracks of the documents `docs[from..]`, one document after the
/// other, up to the first document that fails.
pub open spec fn contributions(docs: Seq<Seq<Item>>, from: int) -> Outcome
    decreases docs.len() - from,
{
    if from < 0 || from >= docs.len() {
        Outcome { output: Seq::empty(), result: Ok(()) }
    } else {
        let tracks = scan(docs[from], Seq::empty(), Mode::Tracks);
        match ending(from, tracks.stop) {
            Err(failure) => Outcome { output: tracks.emitted, result: Err(failure) },
            Ok(()) => {
                let later = contributions(docs, from + 1);
                Outcome { output: tracks.emitted + later.output, result: later.result }
            },
        }
    }
}

/// The merge of `docs`, each given by its reads: `docs[0]` up to its root's
/// end tag, then the tracks of `docs[1..]`, then that end tag and whatever
/// follows it in `docs[0]`.
pub open spec fn merge(docs: Seq<Seq<Item>>) -> Outcome {
    if docs.len() == 0 {
        Outcome { output: Seq::empty(), result: Err(Failure::MissingTemplateRootClose) }
    } else {
        let header = scan(docs[0], Seq::empty(), Mode::Header);
        match header.stop {
            Stop::RootClose(close) => {
                let tracks = contributions(docs, 1);
                match tracks.result {
                    Err(failure) => Outcome {
                        output: header.emitted + tracks.output,
                        result: Err(failure),
                    },
                    Ok(()) => {
                        let tail = scan(header.rest, Seq::empty(), Mode::Tail);
                        Outcome {
                            output: header.emitted + tracks.output + close.bytes + tail.emitted,
                            result: ending(0, tail.stop),
                        }
                    },
                }
            },
            Stop::Finished => Outcome {
                output: header.emitted,
                result: Err(Failure::MissingTemplateRootClose),
            },
            _ => Outcome { output: header.emitted, result: ending(0, header.stop) },
        }
    }
}

/// What the sources of a list have yet to give.
pub open spec fn remaining_of<S: EventSource>(streams: Seq<S>) -> Seq<Seq<Item>> {
    Seq::new(streams.len(), |k: int| streams[k].remaining())
}

/// The reads that `quick_xml` makes of each document of a list.
pub open spec fn tokenized(sources: Seq<Vec<u8>>) -> Seq<Seq<Item>> {
    Seq::new(sources.len(), |k: int| xml_tokens(sources[k]@))
}

/// The reads of each document of a list.
pub open spec fn replayed(docs: Seq<Vec<Result<XmlEvent, String>>>) -> Seq<Seq<Item>> {
    Seq::new(docs.len(), |k: int| reads_of(docs[k]@))
}

/// How a pass over document `source` that was allowed to reach the end of
/// the document has ended.
fn ended(source: usize, halt: Halt) -> (result: Result<(), MergeError>)
    ensures
        result_view(result) == ending(source as int, halt@),
{
    match halt {
        Halt::Finished => Ok(()),
        Halt::RootClose(_) => Ok(()),
        Halt::Fault(message) => Err(MergeError::Parse { source, message }),
        Halt::Mismatch(mismatch) => Err(MergeError::TagMismatch { source, mismatch }),
    }
}

/// Merges the documents that `streams` have yet to give, appending the
/// result to `dest`. The first is read up to its root's end tag and left
/// there while the others are read to their ends, one after the other;
/// then it is read to its own end.
pub fn merge_streams<S: EventSource>(streams: Vec<S>, dest: &mut Vec<u8>) -> (result: Result<
    (),
    MergeError,
>)
    ensures
        final(dest)@ == old(dest)@ + merge(remaining_of(streams@)).output,
        result_view(result) == merge(remaining_of(streams@)).result,
{
    let ghost docs = remaining_of(streams@);
    let mut passes = streams;
    if passes.len() == 0 {
        return Err(MergeError::MissingTemplateRootClose);
    }
    let ghost header = scan(docs[0], Seq::empty(), Mode::Header);
    let close = match scan_source(&mut passes[0], Mode::Header, dest) {
        Halt::RootClose(close) => close,
        Halt::Finished => {
            return Err(MergeError::MissingTemplateRootClose);
        },
        halt => {
            return ended(0, halt);
        },
    };
    let mut k: usize = 1;
    while k < passes.len()
        invariant
            1 <= k <= passes@.len(),
            passes@.len() == docs.len(),
            docs == remaining_of(streams@),
            header == scan(docs[0], Seq::empty(), Mode::Header),
            header.stop == Stop::RootClose(close@),
            passes@[0].remaining() == header.rest,
            forall|j: int| k <= j < passes@.len() ==> passes@[j].remaining() == docs[j],
            contributions(docs, 1).result == contributions(docs, k as int).result,
            old(dest)@ + header.emitted + contributions(docs, 1).output == dest@ + contributions(
                docs,
                k as int,
            ).output,
        decreases passes@.len() - k,
    {
        let halt = scan_source(&mut passes[k], Mode::Tracks, dest);
        match halt {
            Halt::Finished => {},
            Halt::RootClose(_) => {},
            halt => {
                return ended(k, halt);
            },
        }
        k += 1;
    }
    append_bytes(dest, close.bytes.as_slice());
    let halt = scan_source(&mut passes[0], Mode::Tail, dest);
    ended(0, halt)
}

/// Joins GPX documents. `sources[0]` is the template: it is copied to
/// `dest` in full. Every later document contributes the tracks that are
/// children of its root, and these are placed, document after document,
/// just before the template's closing root tag. The output is appended to
/// `dest`; what was written before a failure stays there.
pub fn join_gpx(sources: &Vec<Vec<u8>>, dest: &mut Vec<u8>) -> (result: Result<(), MergeError>)
    ensures
        final(dest)@ == old(dest)@ + merge(tokenized(sources@)).output,
        result_view(result) == merge(tokenized(sources@)).result,
{
    let mut readers: Vec<EventReader> = Vec::new();
    let mut k: usize = 0;
    while k < sources.len()
        invariant
            k <= sources@.len(),
            readers@.len() == k,
            forall|j: int| 0 <= j < k ==> readers@[j].remaining() == xml_tokens(sources@[j]@),
        decreases sources@.len() - k,
    {
        readers.push(open_reader(sources[k].as_slice()));
        k += 1;
    }
    assert(remaining_of(readers@) =~= tokenized(sources@));
    merge_streams(readers, dest)
}

/// Merges documents whose reads were made earlier: what [`join_gpx`] does
/// once `quick_xml` has turned each document into events.
pub fn merge_events(docs: &Vec<Vec<Result<XmlEvent, String>>>, dest: &mut Vec<u8>) -> (result:
    Result<(), MergeError>)
    ensures
        final(dest)@ == old(dest)@ + merge(replayed(docs@)).output,
        result_view(result) == merge(replayed(docs@)).result,
{
    let mut replays: Vec<Replay> = Vec::new();
    let mut k: usize = 0;
    while k < docs.len()
        invariant
            k <= docs@.len(),
            replays@.len() == k,
            forall|j: int| 0 <= j < k ==> replays@[j].remaining() == reads_of(docs@[j]@),
        decreases docs@.len() - k,
    {
        replays.push(Replay::new(&docs[k]));
        k += 1;
    }
    assert(remaining_of(replays@) =~= replayed(docs@));
    merge_streams(replays, dest)
}

} // verus!
