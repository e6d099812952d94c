//! What discovery produces: classified entries, the three collections that
//! they are folded into, and the failures that end a run.

use crate::path::QualifiedPath;
use vstd::prelude::*;

verus! {

/// A discovered declaration, tagged with the way it was recognised and
/// carrying its fully qualified path.
#[derive(Debug, PartialEq, Eq)]
pub enum DiscoverType {
    Fn(QualifiedPath),
    Model(QualifiedPath),
    Response(QualifiedPath),
    CustomModelImpl(QualifiedPath),
    CustomResponseImpl(QualifiedPath),
}

pub enum DiscoverTypeView {
    Fn(Seq<Seq<char>>),
    Model(Seq<Seq<char>>),
    Response(Seq<Seq<char>>),
    CustomModelImpl(Seq<Seq<char>>),
    CustomResponseImpl(Seq<Seq<char>>),
}

impl DiscoverTypeView {
    /// The path that the entry carries.
    pub open spec fn path(self) -> Seq<Seq<char>> {
        match self {
            DiscoverTypeView::Fn(p) => p,
            DiscoverTypeView::Model(p) => p,
            DiscoverTypeView::Response(p) => p,
            DiscoverTypeView::CustomModelImpl(p) => p,
            DiscoverTypeView::CustomResponseImpl(p) => p,
        }
    }

    /// The entry goes to the operations.
    pub open spec fn is_operation(self) -> bool {
        self is Fn
    }

    /// The entry goes to the models.
    pub open spec fn is_model(self) -> bool {
        self is Model || self is CustomModelImpl
    }

    /// The entry goes to the responses.
    pub open spec fn is_response(self) -> bool {
        self is Response || self is CustomResponseImpl
    }
}

impl View for DiscoverType {
    type V = DiscoverTypeView;

    open spec fn view(&self) -> DiscoverTypeView {
        match self {
            DiscoverType::Fn(p) => DiscoverTypeView::Fn(p@),
            DiscoverType::Model(p) => DiscoverTypeView::Model(p@),
            DiscoverType::Response(p) => DiscoverTypeView::Response(p@),
            DiscoverType::CustomModelImpl(p) => DiscoverTypeView::CustomModelImpl(p@),
            DiscoverType::CustomResponseImpl(p) => DiscoverTypeView::CustomResponseImpl(p@),
        }
    }
}

impl DiscoverType {
    /// The path that the entry carries.
    pub fn path(&self) -> (path: &QualifiedPath)
        ensures
            path@ == self@.path(),
    {
        match self {
            DiscoverType::Fn(p) => p,
            DiscoverType::Model(p) => p,
            DiscoverType::Response(p) => p,
            DiscoverType::CustomModelImpl(p) => p,
            DiscoverType::CustomResponseImpl(p) => p,
        }
    }
}

/// The views of the entries of `v`, in order.
pub open spec fn entry_views(v: Seq<DiscoverType>) -> Seq<DiscoverTypeView> {
    v.map_values(|e: DiscoverType| e@)
}

/// The views of the paths of `v`, in order.
pub open spec fn path_views(v: Seq<QualifiedPath>) -> Seq<Seq<Seq<char>>> {
    v.map_values(|p: QualifiedPath| p@)
}

/// The three collections of fully qualified paths.
#[derive(Debug, PartialEq, Eq)]
pub struct DiscoveryResult {
    pub operations: Vec<QualifiedPath>,
    pub models: Vec<QualifiedPath>,
    pub responses: Vec<QualifiedPath>,
}

pub struct DiscoveryResultView {
    pub operations: Seq<Seq<Seq<char>>>,
    pub models: Seq<Seq<Seq<char>>>,
    pub responses: Seq<Seq<Seq<char>>>,
}

impl View for DiscoveryResult {
    type V = DiscoveryResultView;

    open spec fn view(&self) -> DiscoveryResultView {
        DiscoveryResultView {
            operations: path_views(self.operations@),
            models: path_views(self.models@),
            responses: path_views(self.responses@),
        }
    }
}

/// Why a run ended without a result.
#[derive(Debug, PartialEq, Eq)]
pub enum DiscoveryError {
    /// The files under `path` could not be collected.
    CollectionFailure { path: String },
    /// A composite annotation of `declaration` does not hold a list of
    /// marker names.
    AnnotationSyntax { declaration: QualifiedPath },
}

pub enum DiscoveryErrorView {
    CollectionFailure { path: Seq<char> },
    AnnotationSyntax { declaration: Seq<Seq<char>> },
}

impl View for DiscoveryError {
    type V = DiscoveryErrorView;

    open spec fn view(&self) -> DiscoveryErrorView {
        match self {
            DiscoveryError::CollectionFailure { path } => DiscoveryErrorView::CollectionFailure {
                path: path@,
            },
            DiscoveryError::AnnotationSyntax { declaration } => {
                DiscoveryErrorView::AnnotationSyntax { declaration: declaration@ }
            },
        }
    }
}

/// The view of an outcome: that of the entries, or that of the failure.
pub open spec fn outcome_view(outcome: Result<Vec<DiscoverType>, DiscoveryError>) -> Result<
    Seq<DiscoverTypeView>,
    DiscoveryErrorView,
> {
    match outcome {
        Ok(entries) => Ok(entry_views(entries@)),
        Err(error) => Err(error@),
    }
}

/// Two outcomes in a row: the first failure, or else all the entries in
/// their order.
pub open spec fn in_turn(
    first: Result<Seq<DiscoverTypeView>, DiscoveryErrorView>,
    second: Result<Seq<DiscoverTypeView>, DiscoveryErrorView>,
) -> Result<Seq<DiscoverTypeView>, DiscoveryErrorView> {
    match first {
        Ok(a) => match second {
            Ok(b) => Ok(a + b),
            Err(e) => Err(e),
        },
        Err(e) => Err(e),
    }
}

} // verus!
