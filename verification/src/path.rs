//! The stack of element names that are open at the point a document has
//! been read to.

use crate::bytes::{bytes_eq, copy_bytes};
use vstd::prelude::*;

verus! {

/// The names held by a list of byte strings.
pub open spec fn names_of(list: Seq<Vec<u8>>) -> Seq<Seq<u8>> {
    Seq::new(list.len(), |i: int| list[i]@)
}

/// Whether `path` begins with all of `pattern`, name for name.
pub open spec fn starts_with(path: Seq<Seq<u8>>, pattern: Seq<Seq<u8>>) -> bool {
    pattern.len() <= path.len() && path.take(pattern.len() as int) == pattern
}

/// Whether an end tag called `name` closes the innermost open element of
/// `path`.
pub open spec fn closes(path: Seq<Seq<u8>>, name: Seq<u8>) -> bool {
    path.len() > 0 && path.last() == name
}

/// The path once an end tag has been taken off it: without its last name,
/// or still empty.
pub open spec fn popped(path: Seq<Seq<u8>>) -> Seq<Seq<u8>> {
    if path.len() > 0 {
        path.drop_last()
    } else {
        path
    }
}

/// An end tag that closes nothing, or closes the wrong element.
#[derive(Debug, PartialEq, Eq)]
pub struct TagMismatch {
    /// The innermost open element, if there was one.
    pub expected: Option<Vec<u8>>,
    /// The name in the end tag.
    pub found: Vec<u8>,
}

/// The mathematical value of a [`TagMismatch`].
pub struct Mismatch {
    pub expected: Option<Seq<u8>>,
    pub found: Seq<u8>,
}

impl View for TagMismatch {
    type V = Mismatch;

    open spec fn view(&self) -> Mismatch {
        Mismatch {
            expected: match self.expected {
                Some(name) => Some(name@),
                None => None,
            },
            found: self.found@,
        }
    }
}

/// The complaint about an end tag called `name` that does not close the
/// innermost element of `path`.
pub open spec fn mismatch_of(path: Seq<Seq<u8>>, name: Seq<u8>) -> Mismatch {
    Mismatch {
        expected: if path.len() > 0 {
            Some(path.last())
        } else {
            None
        },
        found: name,
    }
}

/// The open elements, outermost first.
pub struct PathTracker {
    names: Vec<Vec<u8>>,
}

impl View for PathTracker {
    type V = Seq<Seq<u8>>;

    closed spec fn view(&self) -> Seq<Seq<u8>> {
        names_of(self.names@)
    }
}

impl PathTracker {
    /// The path of a document before its first tag.
    pub fn new() -> (tracker: PathTracker)
        ensures
            tracker@ == Seq::<Seq<u8>>::empty(),
    {
        PathTracker { names: Vec::new() }
    }

    /// How many elements are open.
    pub fn depth(&self) -> (depth: usize)
        ensures
            depth == self@.len(),
    {
        self.names.len()
    }

    /// Enters the element called `name`.
    pub fn push(&mut self, name: &[u8])
        ensures
            final(self)@ == old(self)@.push(name@),
    {
        self.names.push(copy_bytes(name));
    }

    /// Leaves the innermost element on an end tag called `name`. The element
    /// is taken off the path whatever it is called; the call fails when
    /// nothing was open or when what was open has another name.
    pub fn pop_expect(&mut self, name: &[u8]) -> (checked: Result<(), TagMismatch>)
        ensures
            final(self)@ == popped(old(self)@),
            closes(old(self)@, name@) <==> checked is Ok,
            checked matches Err(mismatch) ==> mismatch@ == mismatch_of(old(self)@, name@),
    {
        match self.names.pop() {
            None => Err(TagMismatch { expected: None, found: copy_bytes(name) }),
            Some(top) => {
                if bytes_eq(top.as_slice(), name) {
                    Ok(())
                } else {
                    Err(TagMismatch { expected: Some(top), found: copy_bytes(name) })
                }
            },
        }
    }

    /// Whether the open elements are exactly those of `pattern`.
    pub fn is_exactly(&self, pattern: &[Vec<u8>]) -> (exact: bool)
        ensures
            exact == (self@ == names_of(pattern@)),
    {
        if self.names.len() != pattern.len() {
            return false;
        }
        let matched = self.has_prefix(pattern);
        assert(self@.take(pattern@.len() as int) =~= self@);
        matched
    }

    /// Whether the open elements begin with those of `pattern`: true on the
    /// pattern's last element itself and on everything beneath it.
    pub fn has_prefix(&self, pattern: &[Vec<u8>]) -> (under: bool)
        ensures
            under == starts_with(self@, names_of(pattern@)),
    {
        if self.names.len() < pattern.len() {
            return false;
        }
        let mut i: usize = 0;
        while i < pattern.len()
            invariant
                pattern@.len() <= self.names@.len(),
                i <= pattern@.len(),
                forall|j: int| 0 <= j < i ==> self.names@[j]@ == pattern@[j]@,
            decreases pattern@.len() - i,
        {
            if !bytes_eq(self.names[i].as_slice(), pattern[i].as_slice()) {
                assert(names_of(pattern@)[i as int] == pattern@[i as int]@);
                return false;
            }
            i += 1;
        }
        assert(self@.take(pattern@.len() as int) =~= names_of(pattern@));
        true
    }
}

} // verus!
