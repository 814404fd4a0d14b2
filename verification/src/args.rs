//! The command line: which arguments name documents, and whether the
//! caller asked for the usage text instead.

use crate::bytes::bytes_eq;
use vstd::prelude::*;

verus! {

/// The bytes of `--`, after which nothing is taken for a flag.
pub open spec fn separator() -> Seq<u8> {
    seq![0x2du8, 0x2du8]
}

/// Whether an argument is one of `-h`, `--help`, `-V` and `--version`.
pub open spec fn is_usage_flag(arg: Seq<u8>) -> bool {
    // -h
    ||| arg == seq![0x2du8, 0x68u8]
    // --help
    ||| arg == seq![0x2du8, 0x2du8, 0x68u8, 0x65u8, 0x6cu8, 0x70u8]
    // -V
    ||| arg == seq![0x2du8, 0x56u8]
    // --version
    ||| arg == seq![0x2du8, 0x2du8, 0x76u8, 0x65u8, 0x72u8, 0x73u8, 0x69u8, 0x6fu8, 0x6eu8]
}

/// The place of the first `--` among the arguments, or their number if
/// there is none.
pub open spec fn flags_end(args: Seq<Seq<u8>>) -> int
    decreases args.len(),
{
    if args.len() == 0 || args[0] == separator() {
        0
    } else {
        1 + flags_end(args.drop_first())
    }
}

/// Whether a usage flag stands before the first `--`.
pub open spec fn asks_for_usage(args: Seq<Seq<u8>>) -> bool {
    exists|i: int| 0 <= i < flags_end(args) && is_usage_flag(#[trigger] args[i])
}

/// The places of the arguments that name documents, in order: all but the
/// first `--`.
pub open spec fn path_places(args: Seq<Seq<u8>>) -> Seq<int> {
    let cut = flags_end(args);
    Seq::new(
        if cut < args.len() {
            (args.len() - 1) as nat
        } else {
            args.len()
        },
        |k: int|
            if k < cut {
                k
            } else {
                k + 1
            },
    )
}

/// What the command line asks for.
#[derive(Debug, PartialEq, Eq)]
pub enum Invocation {
    /// Print the usage text and stop.
    Usage,
    /// Merge the documents named by the arguments at these places.
    Paths(Vec<usize>),
}

/// The arguments as byte strings.
pub open spec fn args_view(args: Seq<Vec<u8>>) -> Seq<Seq<u8>> {
    Seq::new(args.len(), |i: int| args[i]@)
}

/// The places held by a list, as integers.
pub open spec fn places_view(places: Seq<usize>) -> Seq<int> {
    Seq::new(places.len(), |i: int| places[i] as int)
}

fn is_separator(arg: &[u8]) -> (same: bool)
    ensures
        same == (arg@ == separator()),
{
    let dashes: [u8; 2] = [0x2du8, 0x2du8];
    bytes_eq(arg, dashes.as_slice())
}

fn is_flag(arg: &[u8]) -> (flag: bool)
    ensures
        flag == is_usage_flag(arg@),
{
    let short_help: [u8; 2] = [0x2du8, 0x68u8];
    let long_help: [u8; 6] = [0x2du8, 0x2du8, 0x68u8, 0x65u8, 0x6cu8, 0x70u8];
    let short_version: [u8; 2] = [0x2du8, 0x56u8];
    let long_version: [u8; 9] = [
        0x2du8,
        0x2du8,
        0x76u8,
        0x65u8,
        0x72u8,
        0x73u8,
        0x69u8,
        0x6fu8,
        0x6eu8,
    ];
    bytes_eq(arg, short_help.as_slice()) || bytes_eq(arg, long_help.as_slice()) || bytes_eq(
        arg,
        short_version.as_slice(),
    ) || bytes_eq(arg, long_version.as_slice())
}

/// Reads the arguments that follow the program's name. A usage flag before
/// the first `--` asks for the usage text, whatever else is given.
/// Otherwise every argument names a document, but for the first `--`
/// itself.
pub fn parse_args(args: &Vec<Vec<u8>>) -> (invocation: Invocation)
    ensures
        asks_for_usage(args_view(args@)) <==> invocation is Usage,
        invocation matches Invocation::Paths(places) ==> places_view(places@) == path_places(
            args_view(args@),
        ),
{
    let ghost given = args_view(args@);
    let mut places: Vec<usize> = Vec::new();
    let mut flags_over = false;
    let mut i: usize = 0;
    proof {
        lemma_flags_end_in_range(given);
    }
    while i < args.len()
        invariant
            i <= args@.len(),
            given == args_view(args@),
            !flags_over ==> flags_end(given) >= i,
            !flags_over ==> places@.len() == i,
            flags_over ==> flags_end(given) < i,
            flags_over ==> places@.len() == i - 1,
            forall|j: int| 0 <= j < i && j < flags_end(given) ==> !is_usage_flag(given[j]),
            forall|k: int|
                0 <= k < places@.len() ==> places@[k] as int == if k < flags_end(given) {
                    k
                } else {
                    k + 1
                },
        decreases args@.len() - i,
    {
        let arg = args[i].as_slice();
        proof {
            if !flags_over {
                lemma_flags_end(given, i as int);
                lemma_flag_is_no_separator(given[i as int]);
            }
        }
        if !flags_over && is_flag(arg) {
            return Invocation::Usage;
        }
        if !flags_over && is_separator(arg) {
            flags_over = true;
        } else {
            places.push(i);
        }
        i += 1;
    }
    Invocation::Paths(places)
}

/// Where the first `--` stands, seen from one argument: if none of the
/// first `i` arguments is `--`, the first one is at `i` exactly when that
/// argument is `--`.
proof fn lemma_flags_end(args: Seq<Seq<u8>>, i: int)
    requires
        0 <= i < args.len(),
        flags_end(args) >= i,
    ensures
        args[i] == separator() <==> flags_end(args) == i,
    decreases i,
{
    let rest = args.drop_first();
    lemma_flags_end_in_range(rest);
    if i > 0 {
        lemma_flags_end(rest, i - 1);
    }
}

proof fn lemma_flag_is_no_separator(arg: Seq<u8>)
    ensures
        is_usage_flag(arg) ==> arg != separator(),
{
    if is_usage_flag(arg) && arg == separator() {
        assert(separator().len() == 2);
    }
}

proof fn lemma_flags_end_in_range(args: Seq<Seq<u8>>)
    ensures
        0 <= flags_end(args) <= args.len(),
    decreases args.len(),
{
    if args.len() > 0 && args[0] != separator() {
        lemma_flags_end_in_range(args.drop_first());
    }
}

} // verus!
