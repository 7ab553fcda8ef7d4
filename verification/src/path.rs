//! Paths to the types that the emitted code mentions.

use crate::naming::is_identifier;
use crate::text::{copy_text, copy_texts, texts};
use vstd::prelude::*;

verus! {

/// A path to a type: its segments, and whether it starts at the crate root.
#[derive(Debug, PartialEq, Eq)]
pub struct TypePath {
    pub absolute: bool,
    pub segments: Vec<String>,
}

#[verifier::ext_equal]
pub struct TypePathView {
    pub absolute: bool,
    pub segments: Seq<Seq<char>>,
}

impl View for TypePath {
    type V = TypePathView;

    open spec fn view(&self) -> TypePathView {
        TypePathView { absolute: self.absolute, segments: texts(self.segments@) }
    }
}

/// Every string of `names` is an identifier.
pub open spec fn all_identifiers(names: Seq<Seq<char>>) -> bool {
    forall|i: int| 0 <= i < names.len() ==> is_identifier(#[trigger] names[i])
}

/// The path of one segment that is resolved where it stands.
pub open spec fn plain_path(name: Seq<char>) -> TypePathView {
    TypePathView { absolute: false, segments: seq![name] }
}

impl TypePathView {
    /// A path has at least one segment, and each segment is an identifier.
    pub open spec fn valid(self) -> bool {
        self.segments.len() > 0 && all_identifiers(self.segments)
    }
}

/// Whether every string of `names` is an identifier.
pub fn identifiers(names: &Vec<String>) -> (all: bool)
    ensures
        all == all_identifiers(texts(names@)),
{
    let mut i: usize = 0;
    while i < names.len()
        invariant
            i <= names@.len(),
            forall|k: int| 0 <= k < i ==> is_identifier(#[trigger] texts(names@)[k]),
        decreases names@.len() - i,
    {
        if !crate::naming::is_ident(names[i].as_str()) {
            assert(!is_identifier(texts(names@)[i as int]));
            return false;
        }
        i += 1;
    }
    true
}

impl TypePath {
    /// The path of the one segment `name`.
    pub fn plain(name: &str) -> (path: TypePath)
        ensures
            path@ == plain_path(name@),
    {
        let mut segments: Vec<String> = Vec::new();
        segments.push(copy_text(name));
        assert(texts(segments@) =~= seq![name@]);
        TypePath { absolute: false, segments }
    }

    /// A copy of this path.
    pub fn copy(&self) -> (path: TypePath)
        ensures
            path@ == self@,
    {
        TypePath { absolute: self.absolute, segments: copy_texts(&self.segments) }
    }

    /// Whether this path is valid.
    pub fn is_valid(&self) -> (valid: bool)
        ensures
            valid == self@.valid(),
    {
        self.segments.len() > 0 && identifiers(&self.segments)
    }
}

} // verus!
