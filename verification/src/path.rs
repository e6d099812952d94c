//! Fully qualified paths: a namespace path, or a namespace path followed by
//! the name of a declaration.

use crate::text::{clone_texts, texts};
use vstd::prelude::*;

verus! {

/// An ordered list of segments, root first. Its view is the list of the
/// segments' characters.
#[derive(Debug, PartialEq, Eq)]
pub struct QualifiedPath {
    pub segments: Vec<String>,
}

impl View for QualifiedPath {
    type V = Seq<Seq<char>>;

    open spec fn view(&self) -> Seq<Seq<char>> {
        texts(self.segments@)
    }
}

impl Clone for QualifiedPath {
    fn clone(&self) -> (copy: Self)
        ensures
            copy@ == self@,
    {
        QualifiedPath { segments: clone_texts(&self.segments) }
    }
}

impl QualifiedPath {
    /// The path made of `segments`, in their order.
    pub fn new(segments: Vec<String>) -> (path: Self)
        ensures
            path@ == texts(segments@),
            path.segments == segments,
    {
        QualifiedPath { segments }
    }
}

/// The path of the declaration `fn_name` that stands in the namespace
/// `file_path`: the namespace's segments followed by the name.
pub fn build_path(file_path: &QualifiedPath, fn_name: &str) -> (path: QualifiedPath)
    ensures
        path@ == file_path@.push(fn_name@),
{
    let mut segments = clone_texts(&file_path.segments);
    segments.push(fn_name.to_owned());
    QualifiedPath { segments }
}

} // verus!
