//! What holds of the classifier, the walker and the fold, for all inputs
//! and for every reading of the composite annotations.

use crate::classify::{
    carries_ignore_marker, function_entries, function_is_ignored, impl_entries, is_composite,
    lemma_no_composite_no_entries, matching_annotations, names_marker,
};
use crate::discover::{
    aggregate, discovery, files_entries, goes_to_models, goes_to_operations, goes_to_responses,
    lemma_paths_where_push, paths_where,
};
use crate::entry::{in_turn, DiscoverTypeView, DiscoveryErrorView, DiscoveryResultView};
use crate::marker::ParametersView;
use crate::reading::{file_readings_from, reading_at, readings_at, readings_from, Reading};
use crate::syntax::{
    DeclarationView, FunctionDeclView, ImplBlockView, SourceFileView, TypeDeclView,
};
use crate::walk::{declaration_entries, module_entries};
use vstd::prelude::*;

verus! {

/// Where every entry passes `test`, the paths that pass are the paths of all
/// the entries.
pub proof fn lemma_paths_where_all(
    entries: Seq<DiscoverTypeView>,
    test: spec_fn(DiscoverTypeView) -> bool,
)
    requires
        forall|i: int| 0 <= i < entries.len() ==> test(#[trigger] entries[i]),
    ensures
        paths_where(entries, test) == entries.map_values(|e: DiscoverTypeView| e.path()),
    decreases entries.len(),
{
    if entries.len() == 0 {
        reveal(Seq::filter);
    } else {
        let front = entries.drop_last();
        lemma_paths_where_all(front, test);
        assert(entries =~= front.push(entries.last()));
        lemma_paths_where_push(front, entries.last(), test);
    }
}

/// Where no entry passes `test`, no path passes.
pub proof fn lemma_paths_where_none(
    entries: Seq<DiscoverTypeView>,
    test: spec_fn(DiscoverTypeView) -> bool,
)
    requires
        forall|i: int| 0 <= i < entries.len() ==> !test(#[trigger] entries[i]),
    ensures
        paths_where(entries, test) == Seq::<Seq<Seq<char>>>::empty(),
    decreases entries.len(),
{
    if entries.len() == 0 {
        reveal(Seq::filter);
    } else {
        let front = entries.drop_last();
        lemma_paths_where_none(front, test);
        assert(entries =~= front.push(entries.last()));
        lemma_paths_where_push(front, entries.last(), test);
    }
}

/// A function that does not carry the ignore marker gives exactly one
/// operation for each of its annotations that names the function marker, all
/// at the function's qualified path; a run over that function alone returns
/// these operations and nothing else.
pub proof fn law_one_operation_per_matching_annotation(
    f: FunctionDeclView,
    namespace: Seq<Seq<char>>,
    params: ParametersView,
    src_path: Seq<char>,
    readings: Seq<Seq<Reading>>,
)
    requires
        matching_annotations(f, params.fn_attribute_name).len() >= 1,
        !function_is_ignored(f),
    ensures
        function_entries(f, namespace, params) == Seq::new(
            matching_annotations(f, params.fn_attribute_name).len(),
            |i: int| DiscoverTypeView::Fn(namespace.push(f.name)),
        ),
        discovery(
            src_path,
            Some(seq![SourceFileView { namespace, items: seq![DeclarationView::Function(f)] }]),
            readings,
            params,
        ) == Ok::<DiscoveryResultView, DiscoveryErrorView>(
            DiscoveryResultView {
                operations: Seq::new(
                    matching_annotations(f, params.fn_attribute_name).len(),
                    |i: int| namespace.push(f.name),
                ),
                models: Seq::empty(),
                responses: Seq::empty(),
            },
        ),
{
    let count = matching_annotations(f, params.fn_attribute_name).len();
    let entries = function_entries(f, namespace, params);
    f.annotations.lemma_filter_len(names_marker(params.fn_attribute_name));

    let items = seq![DeclarationView::Function(f)];
    let files = seq![SourceFileView { namespace, items }];
    let read = readings_at(readings, 0);
    assert(module_entries(items, read, namespace, params) == in_turn(
        module_entries(items.drop_last(), read, namespace, params),
        declaration_entries(items.last(), reading_at(read, 0), namespace, params),
    ));
    assert(files_entries(files, readings, params) == in_turn(
        files_entries(files.drop_last(), readings, params),
        module_entries(files.last().items, read, files.last().namespace, params),
    ));
    lemma_paths_where_all(entries, goes_to_operations());
    lemma_paths_where_none(entries, goes_to_models());
    lemma_paths_where_none(entries, goes_to_responses());
    assert(aggregate(entries).operations =~= Seq::new(count, |i: int| namespace.push(f.name)));
}

/// A function that carries the ignore marker gives no entry, whatever else it
/// carries.
pub proof fn law_ignored_function_gives_nothing(
    f: FunctionDeclView,
    reading: Reading,
    namespace: Seq<Seq<char>>,
    params: ParametersView,
)
    requires
        function_is_ignored(f),
    ensures
        function_entries(f, namespace, params) == Seq::<DiscoverTypeView>::empty(),
        declaration_entries(DeclarationView::Function(f), reading, namespace, params) == Ok::<
            Seq<DiscoverTypeView>,
            DiscoveryErrorView,
        >(Seq::empty()),
        aggregate(function_entries(f, namespace, params)).operations == Seq::<
            Seq<Seq<char>>,
        >::empty(),
{
    lemma_paths_where_none(Seq::empty(), goes_to_operations());
}

/// A struct or an enum with a generic parameter gives no entry, whatever its
/// annotations and whatever is read of them, and never fails.
pub proof fn law_generic_type_gives_nothing(
    t: TypeDeclView,
    reading: Reading,
    namespace: Seq<Seq<char>>,
    params: ParametersView,
)
    requires
        t.generics >= 1,
    ensures
        declaration_entries(DeclarationView::Struct(t), reading, namespace, params) == Ok::<
            Seq<DiscoverTypeView>,
            DiscoveryErrorView,
        >(Seq::empty()),
        declaration_entries(DeclarationView::Enum(t), reading, namespace, params) == Ok::<
            Seq<DiscoverTypeView>,
            DiscoveryErrorView,
        >(Seq::empty()),
        aggregate(Seq::empty()).models == Seq::<Seq<Seq<char>>>::empty(),
        aggregate(Seq::empty()).responses == Seq::<Seq<Seq<char>>>::empty(),
{
    lemma_paths_where_none(Seq::empty(), goes_to_models());
    lemma_paths_where_none(Seq::empty(), goes_to_responses());
}

/// A struct or an enum that carries the ignore marker gives no entry,
/// whatever else it carries and whatever is read of it, and never fails.
pub proof fn law_ignored_type_gives_nothing(
    t: TypeDeclView,
    reading: Reading,
    namespace: Seq<Seq<char>>,
    params: ParametersView,
)
    requires
        carries_ignore_marker(t.annotations),
    ensures
        declaration_entries(DeclarationView::Struct(t), reading, namespace, params) == Ok::<
            Seq<DiscoverTypeView>,
            DiscoveryErrorView,
        >(Seq::empty()),
        declaration_entries(DeclarationView::Enum(t), reading, namespace, params) == Ok::<
            Seq<DiscoverTypeView>,
            DiscoveryErrorView,
        >(Seq::empty()),
{
}

/// An implementation block that carries the ignore marker gives no entry,
/// whatever capability it claims.
pub proof fn law_ignored_impl_gives_nothing(
    im: ImplBlockView,
    reading: Reading,
    namespace: Seq<Seq<char>>,
    params: ParametersView,
)
    requires
        carries_ignore_marker(im.annotations),
    ensures
        impl_entries(im, namespace, params) == Seq::<DiscoverTypeView>::empty(),
        declaration_entries(DeclarationView::Implementation(im), reading, namespace, params)
            == Ok::<Seq<DiscoverTypeView>, DiscoveryErrorView>(Seq::empty()),
{
}

/// A struct or an enum without a composite annotation gives no entry and
/// never fails.
pub proof fn law_type_without_composite_gives_nothing(
    t: TypeDeclView,
    reading: Reading,
    namespace: Seq<Seq<char>>,
    params: ParametersView,
)
    requires
        forall|i: int| 0 <= i < t.annotations.len() ==> !is_composite(#[trigger] t.annotations[i]),
    ensures
        declaration_entries(DeclarationView::Struct(t), reading, namespace, params) == Ok::<
            Seq<DiscoverTypeView>,
            DiscoveryErrorView,
        >(Seq::empty()),
        declaration_entries(DeclarationView::Enum(t), reading, namespace, params) == Ok::<
            Seq<DiscoverTypeView>,
            DiscoveryErrorView,
        >(Seq::empty()),
{
    lemma_no_composite_no_entries(t.annotations, reading.lists(), namespace.push(t.name), params);
}

/// An implementation block gives no entry unless the rightmost segment of the
/// capability that it claims is the configured model marker or the configured
/// response marker.
pub proof fn law_unrecognized_capability_gives_nothing(
    im: ImplBlockView,
    reading: Reading,
    namespace: Seq<Seq<char>>,
    params: ParametersView,
)
    requires
        im.capability matches Some(capability) ==> (capability.last_segment() matches Some(last)
            ==> last != params.schema_attribute_name && last != params.response_attribute_name),
    ensures
        impl_entries(im, namespace, params) == Seq::<DiscoverTypeView>::empty(),
        declaration_entries(DeclarationView::Implementation(im), reading, namespace, params)
            == Ok::<Seq<DiscoverTypeView>, DiscoveryErrorView>(Seq::empty()),
{
}

/// Taking outcomes in turn does not depend on how they are grouped.
pub proof fn lemma_in_turn_groups(
    a: Result<Seq<DiscoverTypeView>, DiscoveryErrorView>,
    b: Result<Seq<DiscoverTypeView>, DiscoveryErrorView>,
    c: Result<Seq<DiscoverTypeView>, DiscoveryErrorView>,
)
    ensures
        in_turn(in_turn(a, b), c) == in_turn(a, in_turn(b, c)),
{
    if a is Ok && b is Ok && c is Ok {
        assert((a->Ok_0 + b->Ok_0) + c->Ok_0 =~= a->Ok_0 + (b->Ok_0 + c->Ok_0));
    }
}

/// The entries of a namespace are those of its declarations in declaration
/// order: walking one list of declarations after another gives the outcome of
/// the first walk and then that of the second, each under its own readings.
pub proof fn law_declarations_in_order(
    first: Seq<DeclarationView>,
    second: Seq<DeclarationView>,
    readings: Seq<Reading>,
    namespace: Seq<Seq<char>>,
    params: ParametersView,
)
    ensures
        module_entries(first + second, readings, namespace, params) == in_turn(
            module_entries(first, readings, namespace, params),
            module_entries(second, readings_from(readings, first.len() as int), namespace, params),
        ),
    decreases second.len(),
{
    let rest = readings_from(readings, first.len() as int);
    if second.len() > 0 {
        assert((first + second).drop_last() =~= first + second.drop_last());
        law_declarations_in_order(first, second.drop_last(), readings, namespace, params);
        lemma_in_turn_groups(
            module_entries(first, readings, namespace, params),
            module_entries(second.drop_last(), rest, namespace, params),
            declaration_entries(
                second.last(),
                reading_at(rest, second.len() - 1),
                namespace,
                params,
            ),
        );
    }
}

/// The entries of a run are those of its files in the order of the files.
pub proof fn law_files_in_order(
    first: Seq<SourceFileView>,
    second: Seq<SourceFileView>,
    readings: Seq<Seq<Reading>>,
    params: ParametersView,
)
    ensures
        files_entries(first + second, readings, params) == in_turn(
            files_entries(first, readings, params),
            files_entries(second, file_readings_from(readings, first.len() as int), params),
        ),
    decreases second.len(),
{
    let rest = file_readings_from(readings, first.len() as int);
    if second.len() > 0 {
        assert((first + second).drop_last() =~= first + second.drop_last());
        law_files_in_order(first, second.drop_last(), readings, params);
        lemma_in_turn_groups(
            files_entries(first, readings, params),
            files_entries(second.drop_last(), rest, params),
            module_entries(
                second.last().items,
                readings_at(rest, second.len() - 1),
                second.last().namespace,
                params,
            ),
        );
    }
}

/// The paths that pass a test among entries put one after another are those
/// of the first entries and then those of the second.
pub proof fn lemma_paths_where_add(
    first: Seq<DiscoverTypeView>,
    second: Seq<DiscoverTypeView>,
    test: spec_fn(DiscoverTypeView) -> bool,
)
    ensures
        paths_where(first + second, test) == paths_where(first, test) + paths_where(second, test),
    decreases second.len(),
{
    if second.len() == 0 {
        reveal(Seq::filter);
    } else {
        let front = second.drop_last();
        lemma_paths_where_add(first, front, test);
        lemma_paths_where_push(first + front, second.last(), test);
        lemma_paths_where_push(front, second.last(), test);
    }
}

/// The fold keeps the order of the entries and merges nothing: each
/// collection of entries put one after another is that of the first entries
/// followed by that of the second.
pub proof fn law_fold_keeps_order(first: Seq<DiscoverTypeView>, second: Seq<DiscoverTypeView>)
    ensures
        aggregate(first + second).operations == aggregate(first).operations + aggregate(
            second,
        ).operations,
        aggregate(first + second).models == aggregate(first).models + aggregate(second).models,
        aggregate(first + second).responses == aggregate(first).responses + aggregate(
            second,
        ).responses,
{
    lemma_paths_where_add(first, second, goes_to_operations());
    lemma_paths_where_add(first, second, goes_to_models());
    lemma_paths_where_add(first, second, goes_to_responses());
}

/// The fold puts every entry into exactly one collection.
pub proof fn law_fold_partitions(entries: Seq<DiscoverTypeView>)
    ensures
        aggregate(entries).operations.len() + aggregate(entries).models.len() + aggregate(
            entries,
        ).responses.len() == entries.len(),
    decreases entries.len(),
{
    if entries.len() == 0 {
        lemma_paths_where_none(entries, goes_to_operations());
        lemma_paths_where_none(entries, goes_to_models());
        lemma_paths_where_none(entries, goes_to_responses());
    } else {
        let front = entries.drop_last();
        law_fold_partitions(front);
        assert(entries =~= front.push(entries.last()));
        lemma_paths_where_push(front, entries.last(), goes_to_operations());
        lemma_paths_where_push(front, entries.last(), goes_to_models());
        lemma_paths_where_push(front, entries.last(), goes_to_responses());
    }
}

} // verus!
