//! The walker: the entries of a whole tree of nested namespaces.

use crate::classify::{
    function_entries, impl_entries, parse_from_attr, parse_from_impl, parse_function,
    reads_lists, type_entries_of,
};
use crate::entry::{
    entry_views, in_turn, outcome_view, DiscoverType, DiscoverTypeView, DiscoveryError,
    DiscoveryErrorView,
};
use crate::marker::{MarkerNameView, Parameters, ParametersView};
use crate::path::{build_path, QualifiedPath};
use crate::reading::{reading_at, Reading};
use crate::syntax::{
    annotation_views, declaration_views, lemma_namespace_view, Declaration, DeclarationView,
    FunctionDecl,
};
use vstd::prelude::*;

verus! {

/// The entries of one declaration that stands in `namespace`, where `reading`
/// is what was read of it.
///
/// A namespace with content gives the entries of its content, walked in the
/// namespace extended by its own name; one without content gives none. A
/// function, a data type and an implementation block give what the classifier
/// finds; a data type is classified at its own qualified path. Every other
/// declaration gives none.
pub open spec fn declaration_entries(
    d: DeclarationView,
    reading: Reading,
    namespace: Seq<Seq<char>>,
    params: ParametersView,
) -> Result<Seq<DiscoverTypeView>, DiscoveryErrorView>
    decreases d,
{
    match d {
        DeclarationView::Namespace { name, content } => match content {
            Some(items) => module_entries(items, reading.content(), namespace.push(name), params),
            None => Ok(Seq::empty()),
        },
        DeclarationView::Function(f) => Ok(function_entries(f, namespace, params)),
        DeclarationView::Struct(t) => type_entries_of(
            t.annotations,
            reading.lists(),
            namespace.push(t.name),
            t.generics,
            params,
        ),
        DeclarationView::Enum(t) => type_entries_of(
            t.annotations,
            reading.lists(),
            namespace.push(t.name),
            t.generics,
            params,
        ),
        DeclarationView::Implementation(im) => Ok(impl_entries(im, namespace, params)),
        DeclarationView::Other => Ok(Seq::empty()),
    }
}

/// The entries of the declarations `items` of `namespace`, in declaration
/// order, or the first failure met in that order. `readings` holds what was
/// read of each declaration.
pub open spec fn module_entries(
    items: Seq<DeclarationView>,
    readings: Seq<Reading>,
    namespace: Seq<Seq<char>>,
    params: ParametersView,
) -> Result<Seq<DiscoverTypeView>, DiscoveryErrorView>
    decreases items,
{
    if items.len() == 0 {
        Ok(Seq::empty())
    } else {
        in_turn(
            module_entries(items.drop_last(), readings, namespace, params),
            declaration_entries(
                items.last(),
                reading_at(readings, items.len() - 1),
                namespace,
                params,
            ),
        )
    }
}

/// A failure among the first `seen` declarations is the failure of all of
/// them.
pub proof fn lemma_failure_stays(
    items: Seq<DeclarationView>,
    readings: Seq<Reading>,
    seen: int,
    namespace: Seq<Seq<char>>,
    params: ParametersView,
)
    requires
        0 <= seen <= items.len(),
        module_entries(items.take(seen), readings, namespace, params) is Err,
    ensures
        module_entries(items, readings, namespace, params) == module_entries(
            items.take(seen),
            readings,
            namespace,
            params,
        ),
    decreases items.len() - seen,
{
    if seen < items.len() {
        assert(items.take(seen + 1).drop_last() =~= items.take(seen));
        lemma_failure_stays(items, readings, seen + 1, namespace, params);
    } else {
        assert(items.take(seen) =~= items);
    }
}

/// The entries of declarations depend on the readings of these declarations
/// alone.
pub proof fn lemma_same_readings(
    items: Seq<DeclarationView>,
    first: Seq<Reading>,
    second: Seq<Reading>,
    namespace: Seq<Seq<char>>,
    params: ParametersView,
)
    requires
        forall|i: int| 0 <= i < items.len() ==> reading_at(first, i) == reading_at(second, i),
    ensures
        module_entries(items, first, namespace, params) == module_entries(
            items,
            second,
            namespace,
            params,
        ),
    decreases items.len(),
{
    if items.len() > 0 {
        lemma_same_readings(items.drop_last(), first, second, namespace, params);
    }
}

/// An empty list of entries.
fn no_entries() -> (out: Vec<DiscoverType>)
    ensures
        entry_views(out@) == Seq::<DiscoverTypeView>::empty(),
{
    let out: Vec<DiscoverType> = Vec::new();
    out
}

/// The operations of the function `f` that stands in `namespace`.
pub fn function_operations(f: &FunctionDecl, namespace: &QualifiedPath, params: &Parameters) -> (out:
    Vec<DiscoverType>)
    ensures
        entry_views(out@) == function_entries(f@, namespace@, params@),
{
    let names = parse_function(f, params.fn_attribute_name.as_str());
    let mut out: Vec<DiscoverType> = Vec::new();
    let mut i: usize = 0;
    while i < names.len()
        invariant
            i <= names.len(),
            out@.len() == i,
            forall|j: int|
                0 <= j < i ==> (#[trigger] out@[j])@ == DiscoverTypeView::Fn(
                    namespace@.push(names@[j]@),
                ),
        decreases names.len() - i,
    {
        out.push(DiscoverType::Fn(build_path(namespace, names[i].as_str())));
        i += 1;
    }
    out
}

/// Walks the declarations `items` of `namespace`, nested namespaces
/// included, and returns what the classifier finds, in declaration order. The
/// walk ends at the first composite annotation that it cannot read.
///
/// The outcome is that of the declarations under some reading of them: what
/// the parser makes of a list is not known beforehand.
pub fn parse_module_items(
    namespace: &QualifiedPath,
    items: &Vec<Declaration>,
    params: &Parameters,
) -> (outcome: Result<Vec<DiscoverType>, DiscoveryError>)
    ensures
        exists|readings: Seq<Reading>|
            outcome_view(outcome) == #[trigger] module_entries(
                declaration_views(items@),
                readings,
                namespace@,
                params@,
            ),
    decreases items,
{
    let mut out: Vec<DiscoverType> = Vec::new();
    let ghost all = declaration_views(items@);
    let ghost mut readings: Seq<Reading> = Seq::empty();
    let mut i: usize = 0;
    assert(entry_views(out@) =~= Seq::empty());
    while i < items.len()
        invariant
            i <= items.len(),
            all == declaration_views(items@),
            readings.len() == i,
            module_entries(all.take(i as int), readings, namespace@, params@) == Ok::<
                Seq<DiscoverTypeView>,
                DiscoveryErrorView,
            >(entry_views(out@)),
        decreases items.len() - i,
    {
        let ghost mut reading = Reading::Nothing;
        let found = match &items[i] {
            Declaration::Namespace { name, content } => match content {
                Some(nested) => {
                    let inside = build_path(namespace, name.as_str());
                    let walked = parse_module_items(&inside, nested, params);
                    proof {
                        lemma_namespace_view(*name, *nested);
                        let inner = choose|inner: Seq<Reading>|
                            outcome_view(walked) == #[trigger] module_entries(
                                declaration_views(nested@),
                                inner,
                                inside@,
                                params@,
                            );
                        reading = Reading::Content(inner);
                    }
                    walked
                },
                None => Ok(no_entries()),
            },
            Declaration::Function(f) => Ok(function_operations(f, namespace, params)),
            Declaration::Struct(t) => {
                let place = build_path(namespace, t.name.as_str());
                let classified = parse_from_attr(&t.annotations, place, t.generics, params);
                proof {
                    let parsed = choose|parsed: Seq<Option<Seq<MarkerNameView>>>|
                        reads_lists(annotation_views(t.annotations@), parsed) && outcome_view(
                            classified,
                        ) == #[trigger] type_entries_of(
                            annotation_views(t.annotations@),
                            parsed,
                            namespace@.push(t.name@),
                            t.generics as nat,
                            params@,
                        );
                    reading = Reading::Lists(parsed);
                }
                classified
            },
            Declaration::Enum(t) => {
                let place = build_path(namespace, t.name.as_str());
                let classified = parse_from_attr(&t.annotations, place, t.generics, params);
                proof {
                    let parsed = choose|parsed: Seq<Option<Seq<MarkerNameView>>>|
                        reads_lists(annotation_views(t.annotations@), parsed) && outcome_view(
                            classified,
                        ) == #[trigger] type_entries_of(
                            annotation_views(t.annotations@),
                            parsed,
                            namespace@.push(t.name@),
                            t.generics as nat,
                            params@,
                        );
                    reading = Reading::Lists(parsed);
                }
                classified
            },
            Declaration::Implementation(im) => Ok(parse_from_impl(im, namespace, params)),
            Declaration::Other => Ok(no_entries()),
        };
        proof {
            let before = readings;
            readings = readings.push(reading);
            assert(all.take(i + 1).drop_last() =~= all.take(i as int));
            lemma_same_readings(all.take(i as int), before, readings, namespace@, params@);
            assert(outcome_view(found) == declaration_entries(
                all[i as int],
                reading_at(readings, i as int),
                namespace@,
                params@,
            ));
        }
        match found {
            Ok(mut entries) => {
                let ghost before = out@;
                let ghost added = entries@;
                out.append(&mut entries);
                assert(entry_views(out@) =~= entry_views(before) + entry_views(added));
            },
            Err(error) => {
                proof {
                    lemma_failure_stays(all, readings, i + 1, namespace@, params@);
                }
                return Err(error);
            },
        }
        i += 1;
    }
    assert(all.take(i as int) =~= all);
    Ok(out)
}

} // verus!
