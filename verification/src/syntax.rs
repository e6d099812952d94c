//! The declarations of a source file, as far as discovery reads them.

use crate::marker::{MarkerName, MarkerNameView};
use crate::path::QualifiedPath;
use vstd::prelude::*;

verus! {

/// An annotation attached to a declaration: its name and, where it has the
/// form `name(...)`, the text between the delimiters.
#[derive(Debug, PartialEq, Eq)]
pub struct Annotation {
    pub name: MarkerName,
    pub list: Option<String>,
}

pub struct AnnotationView {
    pub name: MarkerNameView,
    pub list: Option<Seq<char>>,
}

impl View for Annotation {
    type V = AnnotationView;

    open spec fn view(&self) -> AnnotationView {
        AnnotationView {
            name: self.name@,
            list: match self.list {
                Some(tokens) => Some(tokens@),
                None => None,
            },
        }
    }
}

/// The views of the annotations of `v`, in order.
pub open spec fn annotation_views(v: Seq<Annotation>) -> Seq<AnnotationView> {
    v.map_values(|a: Annotation| a@)
}

/// A function declaration.
#[derive(Debug, PartialEq, Eq)]
pub struct FunctionDecl {
    pub name: String,
    pub annotations: Vec<Annotation>,
}

pub struct FunctionDeclView {
    pub name: Seq<char>,
    pub annotations: Seq<AnnotationView>,
}

impl View for FunctionDecl {
    type V = FunctionDeclView;

    open spec fn view(&self) -> FunctionDeclView {
        FunctionDeclView { name: self.name@, annotations: annotation_views(self.annotations@) }
    }
}

/// A struct-like or enum-like declaration, with the number of its generic
/// parameters.
#[derive(Debug, PartialEq, Eq)]
pub struct TypeDecl {
    pub name: String,
    pub generics: usize,
    pub annotations: Vec<Annotation>,
}

pub struct TypeDeclView {
    pub name: Seq<char>,
    pub generics: nat,
    pub annotations: Seq<AnnotationView>,
}

impl View for TypeDecl {
    type V = TypeDeclView;

    open spec fn view(&self) -> TypeDeclView {
        TypeDeclView {
            name: self.name@,
            generics: self.generics as nat,
            annotations: annotation_views(self.annotations@),
        }
    }
}

/// An implementation block: its annotations, the capability that it claims,
/// if any, and the name of the type that it is written for.
#[derive(Debug, PartialEq, Eq)]
pub struct ImplBlock {
    pub annotations: Vec<Annotation>,
    pub capability: Option<MarkerName>,
    pub target: String,
}

pub struct ImplBlockView {
    pub annotations: Seq<AnnotationView>,
    pub capability: Option<MarkerNameView>,
    pub target: Seq<char>,
}

impl View for ImplBlock {
    type V = ImplBlockView;

    open spec fn view(&self) -> ImplBlockView {
        ImplBlockView {
            annotations: annotation_views(self.annotations@),
            capability: match self.capability {
                Some(name) => Some(name@),
                None => None,
            },
            target: self.target@,
        }
    }
}

/// One declaration of a namespace. A namespace whose content lives elsewhere
/// has no `content`.
#[derive(Debug, PartialEq, Eq)]
pub enum Declaration {
    Namespace { name: String, content: Option<Vec<Declaration>> },
    Function(FunctionDecl),
    Struct(TypeDecl),
    Enum(TypeDecl),
    Implementation(ImplBlock),
    Other,
}

pub enum DeclarationView {
    Namespace { name: Seq<char>, content: Option<Seq<DeclarationView>> },
    Function(FunctionDeclView),
    Struct(TypeDeclView),
    Enum(TypeDeclView),
    Implementation(ImplBlockView),
    Other,
}

/// The view of a declaration, taken through its nested namespaces.
pub open spec fn declaration_view(d: Declaration) -> DeclarationView
    decreases d,
{
    match d {
        Declaration::Namespace { name, content } => DeclarationView::Namespace {
            name: name@,
            content: match content {
                Some(items) => Some(
                    Seq::new(
                        items@.len(),
                        |i: int|
                            if 0 <= i < items@.len() {
                                declaration_view(items@[i])
                            } else {
                                DeclarationView::Other
                            },
                    ),
                ),
                None => None,
            },
        },
        Declaration::Function(f) => DeclarationView::Function(f@),
        Declaration::Struct(t) => DeclarationView::Struct(t@),
        Declaration::Enum(t) => DeclarationView::Enum(t@),
        Declaration::Implementation(im) => DeclarationView::Implementation(im@),
        Declaration::Other => DeclarationView::Other,
    }
}

impl View for Declaration {
    type V = DeclarationView;

    open spec fn view(&self) -> DeclarationView {
        declaration_view(*self)
    }
}

/// The views of the declarations of `v`, in order.
pub open spec fn declaration_views(v: Seq<Declaration>) -> Seq<DeclarationView> {
    v.map_values(|d: Declaration| d@)
}

/// The content of a namespace's view is the views of its content.
pub proof fn lemma_namespace_view(name: String, items: Vec<Declaration>)
    ensures
        (Declaration::Namespace { name, content: Some(items) })@ == (DeclarationView::Namespace {
            name: name@,
            content: Some(declaration_views(items@)),
        }),
{
    let d = Declaration::Namespace { name, content: Some(items) };
    assert(d@->Namespace_content->0 =~= declaration_views(items@));
}

/// The declarations of one source file, with the namespace path that the
/// file stands for.
#[derive(Debug, PartialEq, Eq)]
pub struct SourceFile {
    pub namespace: QualifiedPath,
    pub items: Vec<Declaration>,
}

pub struct SourceFileView {
    pub namespace: Seq<Seq<char>>,
    pub items: Seq<DeclarationView>,
}

impl View for SourceFile {
    type V = SourceFileView;

    open spec fn view(&self) -> SourceFileView {
        SourceFileView { namespace: self.namespace@, items: declaration_views(self.items@) }
    }
}

/// The views of the files of `v`, in order.
pub open spec fn source_file_views(v: Seq<SourceFile>) -> Seq<SourceFileView> {
    v.map_values(|f: SourceFile| f@)
}

} // verus!
