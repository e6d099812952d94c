//! Marker names: the names by which annotations and capabilities are
//! recognised, and the configuration that chooses them.

use crate::text::{same_text, texts};
use vstd::prelude::*;

verus! {

/// The annotation that excludes its declaration from every output.
pub const IGNORE_MARKER: &'static str = "utoipa_ignore";

/// The annotation that carries a comma-separated list of nested marker names.
pub const COMPOSITE_MARKER: &'static str = "derive";

/// The namespace of the two built-in capabilities.
pub const BUILTIN_NAMESPACE: &'static str = "utoipa";

/// The built-in capability that marks a model.
pub const BUILTIN_MODEL: &'static str = "ToSchema";

/// The built-in capability that marks a response.
pub const BUILTIN_RESPONSE: &'static str = "ToResponse";

/// The three marker names that a caller configures.
#[derive(Debug, PartialEq, Eq)]
pub struct Parameters {
    pub fn_attribute_name: String,
    pub schema_attribute_name: String,
    pub response_attribute_name: String,
}

pub struct ParametersView {
    pub fn_attribute_name: Seq<char>,
    pub schema_attribute_name: Seq<char>,
    pub response_attribute_name: Seq<char>,
}

impl View for Parameters {
    type V = ParametersView;

    open spec fn view(&self) -> ParametersView {
        ParametersView {
            fn_attribute_name: self.fn_attribute_name@,
            schema_attribute_name: self.schema_attribute_name@,
            response_attribute_name: self.response_attribute_name@,
        }
    }
}

/// A name as written in an annotation or an implementation header: one or
/// more segments, with or without a leading separator.
#[derive(Debug, PartialEq, Eq)]
pub struct MarkerName {
    pub leading_colon: bool,
    pub segments: Vec<String>,
}

pub struct MarkerNameView {
    pub leading_colon: bool,
    pub segments: Seq<Seq<char>>,
}

impl View for MarkerName {
    type V = MarkerNameView;

    open spec fn view(&self) -> MarkerNameView {
        MarkerNameView { leading_colon: self.leading_colon, segments: texts(self.segments@) }
    }
}

impl MarkerNameView {
    /// The name is exactly `ident`: one segment, no leading separator.
    pub open spec fn is_ident(self, ident: Seq<char>) -> bool {
        !self.leading_colon && self.segments.len() == 1 && self.segments[0] == ident
    }

    /// One of the name's segments is `ident`.
    pub open spec fn mentions(self, ident: Seq<char>) -> bool {
        self.segments.contains(ident)
    }

    /// The rightmost segment, if the name has any.
    pub open spec fn last_segment(self) -> Option<Seq<char>> {
        if self.segments.len() > 0 {
            Some(self.segments.last())
        } else {
            None
        }
    }
}

impl MarkerName {
    pub fn is_ident(&self, ident: &str) -> (same: bool)
        ensures
            same == self@.is_ident(ident@),
    {
        !self.leading_colon && self.segments.len() == 1 && same_text(
            self.segments[0].as_str(),
            ident,
        )
    }

    pub fn mentions(&self, ident: &str) -> (found: bool)
        ensures
            found == self@.mentions(ident@),
    {
        let mut i: usize = 0;
        while i < self.segments.len()
            invariant
                i <= self.segments.len(),
                forall|j: int| 0 <= j < i ==> self@.segments[j] != ident@,
            decreases self.segments.len() - i,
        {
            if same_text(self.segments[i].as_str(), ident) {
                assert(self@.segments[i as int] == ident@);
                return true;
            }
            i += 1;
        }
        false
    }

    pub fn last_segment(&self) -> (last: Option<&String>)
        ensures
            match last {
                Some(s) => self@.last_segment() == Some(s@),
                None => self@.last_segment() is None,
            },
    {
        let n = self.segments.len();
        if n > 0 {
            Some(&self.segments[n - 1])
        } else {
            None
        }
    }
}

} // verus!
