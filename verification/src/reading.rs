//! Readings: what the parser made of the lists of composite annotations.
//!
//! The parser's outcome on a list is not fixed by the list's text, so the
//! classifier is specified over the declarations together with a reading of
//! them. Where a reading says nothing of a list, the list counts as not
//! parsed.

use crate::marker::MarkerNameView;
use vstd::prelude::*;

verus! {

/// What was read of one declaration.
pub enum Reading {
    /// Of a data type: the outcome on each of its annotations, in their order.
    /// An outcome is the nested marker names, or `None` where the annotation
    /// holds no list of them.
    Lists(Seq<Option<Seq<MarkerNameView>>>),
    /// Of a namespace: the reading of each declaration of its content.
    Content(Seq<Reading>),
    /// Nothing.
    Nothing,
}

impl Reading {
    /// The outcomes on the annotations of a data type.
    pub open spec fn lists(self) -> Seq<Option<Seq<MarkerNameView>>> {
        match self {
            Reading::Lists(parsed) => parsed,
            _ => Seq::empty(),
        }
    }

    /// The readings of the content of a namespace.
    pub open spec fn content(self) -> Seq<Reading> {
        match self {
            Reading::Content(readings) => readings,
            _ => Seq::empty(),
        }
    }
}

/// The outcome on the annotation at `index`; `None` where `parsed` does not
/// reach so far.
pub open spec fn outcome_at(parsed: Seq<Option<Seq<MarkerNameView>>>, index: int) -> Option<
    Seq<MarkerNameView>,
> {
    if 0 <= index < parsed.len() {
        parsed[index]
    } else {
        None
    }
}

/// The reading of the declaration at `index`; nothing where `readings` do
/// not reach so far.
pub open spec fn reading_at(readings: Seq<Reading>, index: int) -> Reading {
    if 0 <= index < readings.len() {
        readings[index]
    } else {
        Reading::Nothing
    }
}

/// The readings of the file at `index`; none where `readings` do not reach
/// so far.
pub open spec fn readings_at(readings: Seq<Seq<Reading>>, index: int) -> Seq<Reading> {
    if 0 <= index < readings.len() {
        readings[index]
    } else {
        Seq::empty()
    }
}

/// The readings from `index` on.
pub open spec fn readings_from(readings: Seq<Reading>, index: int) -> Seq<Reading> {
    if 0 <= index <= readings.len() {
        readings.skip(index)
    } else {
        Seq::empty()
    }
}

/// The readings of files from `index` on.
pub open spec fn file_readings_from(readings: Seq<Seq<Reading>>, index: int) -> Seq<Seq<Reading>> {
    if 0 <= index <= readings.len() {
        readings.skip(index)
    } else {
        Seq::empty()
    }
}

} // verus!
