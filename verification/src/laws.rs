//! What holds of every merge.

use crate::event::{EventKind, Item, Token};
use crate::merge::{contributions, ending, merge, Failure};
use crate::path::{closes, mismatch_of, starts_with};
use crate::scan::{gpx_name, scan, step, track_path, trk_name, Mode, Step, Stop};
use vstd::prelude::*;

verus! {

/// The bytes of all events of a document in order, up to its end of input
/// or to the tokenizer's complaint.
pub open spec fn serialized(items: Seq<Item>) -> Seq<u8>
    decreases items.len(),
{
    if items.len() == 0 {
        Seq::empty()
    } else {
        match items[0] {
            Err(_) => Seq::empty(),
            Ok(token) => if token.kind == EventKind::Eof {
                Seq::empty()
            } else {
                token.bytes + serialized(items.drop_first())
            },
        }
    }
}

/// Whether no element that starts at depth zero is called `name`, in a
/// document read from a point where `depth` elements are open.
pub open spec fn roots_avoid(items: Seq<Item>, depth: nat, name: Seq<u8>) -> bool
    decreases items.len(),
{
    if items.len() == 0 {
        true
    } else {
        match items[0] {
            Err(_) => true,
            Ok(token) => match token.kind {
                EventKind::Eof => true,
                EventKind::Start => (depth == 0 ==> token.name != name) && roots_avoid(
                    items.drop_first(),
                    depth + 1,
                    name,
                ),
                EventKind::End => roots_avoid(
                    items.drop_first(),
                    if depth > 0 {
                        (depth - 1) as nat
                    } else {
                        0
                    },
                    name,
                ),
                EventKind::Other => roots_avoid(items.drop_first(), depth, name),
            },
        }
    }
}

/// What a merge that went through wrote before the place where further
/// tracks go: the template up to its root's end tag, and the tracks of the
/// contributors.
pub open spec fn body_of(docs: Seq<Seq<Item>>) -> Seq<u8> {
    scan(docs[0], Seq::empty(), Mode::Header).emitted + contributions(docs, 1).output
}

/// What a merge that went through wrote after that place: the template's
/// closing root tag and what follows it.
pub open spec fn closing_of(docs: Seq<Seq<Item>>) -> Seq<u8> {
    let header = scan(docs[0], Seq::empty(), Mode::Header);
    header.stop->RootClose_0.bytes + scan(header.rest, Seq::empty(), Mode::Tail).emitted
}

/// Whether a read is a start tag called `name`.
pub open spec fn starts_element(item: Item, name: Seq<u8>) -> bool {
    item matches Ok(token) && token.kind == EventKind::Start && token.name == name
}

/// Whether a document has a start tag called `name`.
pub open spec fn opens(items: Seq<Item>, name: Seq<u8>) -> bool {
    exists|i: int| 0 <= i < items.len() && starts_element(#[trigger] items[i], name)
}

/// Only a header pass stops at the root's end tag.
pub proof fn lemma_root_close_only_in_header(items: Seq<Item>, path: Seq<Seq<u8>>, mode: Mode)
    requires
        mode != Mode::Header,
    ensures
        !(scan(items, path, mode).stop is RootClose),
    decreases items.len(),
{
    if items.len() > 0 {
        if let Ok(token) = items[0] {
            if let Step::Continue { path: next, emitted } = step(mode, path, token) {
                lemma_root_close_only_in_header(items.drop_first(), next, mode);
            }
        }
    }
}

/// A pass that forwards everything loses nothing: what it sent to the
/// output, then the root's end tag if it stopped there, then what it left
/// unread, are the document's bytes in their order.
pub proof fn lemma_forwarding_pass_keeps_everything(
    items: Seq<Item>,
    path: Seq<Seq<u8>>,
    mode: Mode,
)
    requires
        mode != Mode::Tracks,
    ensures
        scan(items, path, mode).stop matches Stop::RootClose(close) ==> serialized(items) == scan(
            items,
            path,
            mode,
        ).emitted + close.bytes + serialized(scan(items, path, mode).rest),
        scan(items, path, mode).stop is Finished ==> serialized(items) == scan(
            items,
            path,
            mode,
        ).emitted,
    decreases items.len(),
{
    if items.len() > 0 {
        if let Ok(token) = items[0] {
            if let Step::Continue { path: next, emitted } = step(mode, path, token) {
                lemma_forwarding_pass_keeps_everything(items.drop_first(), next, mode);
            }
        }
    }
}

/// Merging a template with no contributors writes the template's events
/// back one for one: wherever such a merge goes through, its output is the
/// serialized template.
pub proof fn lemma_template_alone_is_kept(template: Seq<Item>)
    requires
        merge(seq![template]).result is Ok,
    ensures
        merge(seq![template]).output == serialized(template),
{
    let header = scan(template, Seq::empty(), Mode::Header);
    lemma_forwarding_pass_keeps_everything(template, Seq::empty(), Mode::Header);
    lemma_forwarding_pass_keeps_everything(header.rest, Seq::empty(), Mode::Tail);
    lemma_root_close_only_in_header(header.rest, Seq::empty(), Mode::Tail);
}

/// What each of the documents `docs[from..]` contributes, in the order of
/// the documents.
pub open spec fn tracks_of(docs: Seq<Seq<Item>>, from: int) -> Seq<Seq<u8>> {
    Seq::new(
        (docs.len() - from) as nat,
        |k: int| scan(docs[from + k], Seq::empty(), Mode::Tracks).emitted,
    )
}

/// Where the contributors all go through, what they add to the output is
/// what each of them contributes, laid end to end in the order of the
/// documents.
pub proof fn lemma_contributions_lie_end_to_end(docs: Seq<Seq<Item>>, from: int)
    requires
        0 <= from <= docs.len(),
        contributions(docs, from).result is Ok,
    ensures
        contributions(docs, from).output == tracks_of(docs, from).flatten(),
    decreases docs.len() - from,
{
    if from < docs.len() {
        lemma_contributions_lie_end_to_end(docs, from + 1);
        assert(tracks_of(docs, from).drop_first() =~= tracks_of(docs, from + 1));
    }
}

/// The layout of a merge that went through: the template up to its root's
/// end tag, then the tracks of the first contributor, of the second and so
/// on, then the template's closing root tag and what follows it.
pub proof fn lemma_merge_layout(docs: Seq<Seq<Item>>)
    requires
        merge(docs).result is Ok,
    ensures
        docs.len() >= 1,
        merge(docs).output == scan(docs[0], Seq::empty(), Mode::Header).emitted + tracks_of(
            docs,
            1,
        ).flatten() + closing_of(docs),
{
    lemma_contributions_lie_end_to_end(docs, 1);
}

/// The tracks of one more document come after those of all documents
/// before it.
pub proof fn lemma_contributions_in_order(docs: Seq<Seq<Item>>, from: int, next: Seq<Item>)
    requires
        0 <= from <= docs.len(),
        contributions(docs, from).result is Ok,
    ensures
        contributions(docs.push(next), from).output == contributions(docs, from).output + scan(
            next,
            Seq::empty(),
            Mode::Tracks,
        ).emitted,
        contributions(docs.push(next), from).result == ending(
            docs.len() as int,
            scan(next, Seq::empty(), Mode::Tracks).stop,
        ),
    decreases docs.len() - from,
{
    if from < docs.len() {
        lemma_contributions_in_order(docs, from + 1, next);
    } else {
        assert(contributions(docs.push(next), from + 1).output == Seq::<u8>::empty());
        lemma_root_close_only_in_header(next, Seq::empty(), Mode::Tracks);
    }
}

/// Adding a contributor to a merge that went through changes the output
/// in one place only: the new document's tracks stand after the template's
/// body and the tracks of all earlier contributors, and before the
/// template's closing root tag and tail. If the new document fails, the
/// output ends with what it had contributed by then.
pub proof fn lemma_merge_appends_tracks(docs: Seq<Seq<Item>>, next: Seq<Item>)
    requires
        merge(docs).result is Ok,
    ensures
        docs.len() >= 1,
        scan(docs[0], Seq::empty(), Mode::Header).stop is RootClose,
        merge(docs).output == body_of(docs) + closing_of(docs),
        ending(docs.len() as int, scan(next, Seq::empty(), Mode::Tracks).stop) is Ok ==> merge(
            docs.push(next),
        ).output == body_of(docs) + scan(next, Seq::empty(), Mode::Tracks).emitted + closing_of(
            docs,
        ) && merge(docs.push(next)).result is Ok,
        ending(docs.len() as int, scan(next, Seq::empty(), Mode::Tracks).stop) is Err ==> merge(
            docs.push(next),
        ).output == body_of(docs) + scan(next, Seq::empty(), Mode::Tracks).emitted && merge(
            docs.push(next),
        ).result == ending(docs.len() as int, scan(next, Seq::empty(), Mode::Tracks).stop),
{
    lemma_contributions_in_order(docs, 1, next);
}

/// In a contributor an event goes to the output only from inside a track
/// that is a child of the root: met anywhere else, it adds nothing.
pub proof fn lemma_outside_tracks_nothing_is_forwarded(path: Seq<Seq<u8>>, token: Token)
    requires
        token.kind == EventKind::Start ==> !starts_with(path.push(token.name), track_path()),
        token.kind != EventKind::Start ==> !starts_with(path, track_path()),
    ensures
        step(Mode::Tracks, path, token) is Continue ==> step(Mode::Tracks, path, token)->emitted
            == Seq::<u8>::empty(),
{
}

/// A contributor that opens no element called `trk` adds nothing to the
/// output, whatever else it holds.
pub proof fn lemma_contributor_without_tracks(items: Seq<Item>)
    requires
        !opens(items, trk_name()),
    ensures
        scan(items, Seq::empty(), Mode::Tracks).emitted == Seq::<u8>::empty(),
{
    lemma_no_track_on_path(items, Seq::empty());
}

proof fn lemma_no_track_on_path(items: Seq<Item>, path: Seq<Seq<u8>>)
    requires
        !opens(items, trk_name()),
        forall|j: int| 0 <= j < path.len() ==> path[j] != trk_name(),
    ensures
        scan(items, path, Mode::Tracks).emitted == Seq::<u8>::empty(),
    decreases items.len(),
{
    if items.len() > 0 {
        let rest = items.drop_first();
        assert forall|i: int| 0 <= i < rest.len() implies !starts_element(
            #[trigger] rest[i],
            trk_name(),
        ) by {
            assert(rest[i] == items[i + 1]);
        }
        if let Ok(token) = items[0] {
            if let Step::Continue { path: next, emitted } = step(Mode::Tracks, path, token) {
                lemma_no_track_on_path(rest, next);
            }
        }
    }
}

/// An end tag that does not close the innermost open element stops a pass
/// on the spot, in every mode and at every depth: the tag is not
/// forwarded, and the pass ends in a mismatch that names both tags.
pub proof fn lemma_stray_end_tag_stops_pass(
    items: Seq<Item>,
    path: Seq<Seq<u8>>,
    mode: Mode,
    token: Token,
)
    requires
        items.len() > 0,
        items[0] == Ok::<Token, Seq<char>>(token),
        token.kind == EventKind::End,
        !closes(path, token.name),
    ensures
        scan(items, path, mode).emitted == Seq::<u8>::empty(),
        scan(items, path, mode).stop == Stop::Mismatch(mismatch_of(path, token.name)),
{
}

/// A merge that went through met no failure in any document: a mismatched
/// end tag or a tokenizer's complaint in any pass makes the merge fail.
pub proof fn lemma_merge_fails_on_any_failure(docs: Seq<Seq<Item>>, k: int)
    requires
        merge(docs).result is Ok,
        1 <= k < docs.len(),
    ensures
        scan(docs[0], Seq::empty(), Mode::Header).stop is RootClose,
        scan(docs[k], Seq::empty(), Mode::Tracks).stop is Finished,
        scan(scan(docs[0], Seq::empty(), Mode::Header).rest, Seq::empty(), Mode::Tail).stop
            is Finished,
{
    let header = scan(docs[0], Seq::empty(), Mode::Header);
    lemma_root_close_only_in_header(header.rest, Seq::empty(), Mode::Tail);
    lemma_root_close_only_in_header(docs[k], Seq::empty(), Mode::Tracks);
    lemma_contributions_all_finished(docs, 1, k);
}

proof fn lemma_contributions_all_finished(docs: Seq<Seq<Item>>, from: int, k: int)
    requires
        contributions(docs, from).result is Ok,
        0 <= from <= k < docs.len(),
    ensures
        ending(k, scan(docs[k], Seq::empty(), Mode::Tracks).stop) is Ok,
    decreases docs.len() - from,
{
    if from < k {
        lemma_contributions_all_finished(docs, from + 1, k);
    }
}

/// A template in which no top-level element is called `gpx` never reaches
/// the point where the contributors come in: its header pass does not stop
/// at a root's end tag, so the merge fails, and it fails for want of that
/// tag whenever the template is read to its end.
pub proof fn lemma_root_name_decides(docs: Seq<Seq<Item>>)
    requires
        docs.len() >= 1,
        roots_avoid(docs[0], 0, gpx_name()),
    ensures
        !(scan(docs[0], Seq::empty(), Mode::Header).stop is RootClose),
        merge(docs).result is Err,
        merge(docs).output == scan(docs[0], Seq::empty(), Mode::Header).emitted,
        scan(docs[0], Seq::empty(), Mode::Header).stop is Finished ==> merge(docs).result == Err::<
            (),
            Failure,
        >(Failure::MissingTemplateRootClose),
{
    lemma_header_needs_gpx_root(docs[0], Seq::empty());
}

proof fn lemma_header_needs_gpx_root(items: Seq<Item>, path: Seq<Seq<u8>>)
    requires
        roots_avoid(items, path.len(), gpx_name()),
        path.len() > 0 ==> path[0] != gpx_name(),
    ensures
        !(scan(items, path, Mode::Header).stop is RootClose),
    decreases items.len(),
{
    if items.len() > 0 {
        if let Ok(token) = items[0] {
            if let Step::Continue { path: next, emitted } = step(Mode::Header, path, token) {
                lemma_header_needs_gpx_root(items.drop_first(), next);
            }
        }
    }
}

} // verus!
