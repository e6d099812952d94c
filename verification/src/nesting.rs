//! Nested declarations: where the entries of a declaration stand in the
//! outcome of a walk, and what path they carry.

use crate::classify::{
    composite_entries, function_entries, function_is_ignored, matching_annotations,
    names_marker,
};
use crate::composite::{lemma_marker_list_entries_push, marker_list_entries};
use crate::discover::{discovery, files_entries, goes_to_operations, paths_where};
use crate::entry::DiscoverTypeView;
use crate::laws::{lemma_paths_where_add, lemma_paths_where_all};
use crate::marker::{MarkerNameView, ParametersView};
use crate::reading::{outcome_at, reading_at, readings_at, Reading};
use crate::syntax::{AnnotationView, DeclarationView, FunctionDeclView, SourceFileView};
use crate::walk::{declaration_entries, module_entries};
use vstd::prelude::*;

verus! {

/// The declaration that `route` leads to from `items`: its first index picks
/// a declaration of `items`, and each further index picks one in the content
/// of the namespace picked before it.
pub open spec fn declaration_at(items: Seq<DeclarationView>, route: Seq<int>) -> Option<
    DeclarationView,
>
    decreases route.len(),
{
    if route.len() == 0 || !(0 <= route[0] < items.len()) {
        None
    } else if route.len() == 1 {
        Some(items[route[0]])
    } else {
        match items[route[0]] {
            DeclarationView::Namespace { name, content: Some(inner) } => declaration_at(
                inner,
                route.drop_first(),
            ),
            _ => None,
        }
    }
}

/// The names of the namespaces that `route` passes through before it reaches
/// its declaration, outermost first.
pub open spec fn enclosing_names(items: Seq<DeclarationView>, route: Seq<int>) -> Seq<Seq<char>>
    decreases route.len(),
{
    if route.len() <= 1 || !(0 <= route[0] < items.len()) {
        Seq::empty()
    } else {
        match items[route[0]] {
            DeclarationView::Namespace { name, content: Some(inner) } => seq![name]
                + enclosing_names(inner, route.drop_first()),
            _ => Seq::empty(),
        }
    }
}

/// What was read of the declaration that `route` leads to from `items`,
/// where `readings` holds what was read of each of `items`.
pub open spec fn reading_of(
    items: Seq<DeclarationView>,
    readings: Seq<Reading>,
    route: Seq<int>,
) -> Reading
    decreases route.len(),
{
    if route.len() == 0 || !(0 <= route[0] < items.len()) {
        Reading::Nothing
    } else if route.len() == 1 {
        reading_at(readings, route[0])
    } else {
        match items[route[0]] {
            DeclarationView::Namespace { name, content: Some(inner) } => reading_of(
                inner,
                reading_at(readings, route[0]).content(),
                route.drop_first(),
            ),
            _ => Reading::Nothing,
        }
    }
}

/// The name under which a function, a data type or an implementation block
/// is reported.
pub open spec fn declared_name(d: DeclarationView) -> Seq<char> {
    match d {
        DeclarationView::Namespace { name, content } => name,
        DeclarationView::Function(f) => f.name,
        DeclarationView::Struct(t) => t.name,
        DeclarationView::Enum(t) => t.name,
        DeclarationView::Implementation(im) => im.target,
        DeclarationView::Other => Seq::empty(),
    }
}

/// The declaration is not a namespace.
pub open spec fn is_leaf(d: DeclarationView) -> bool {
    !(d is Namespace)
}

/// Every entry of `entries` carries the path `path`.
pub open spec fn all_at(entries: Seq<DiscoverTypeView>, path: Seq<Seq<char>>) -> bool {
    forall|i: int| 0 <= i < entries.len() ==> (#[trigger] entries[i]).path() == path
}

/// The entries of a list of nested marker names all carry the type's path.
pub proof fn lemma_marker_list_entries_at(
    markers: Seq<MarkerNameView>,
    name: Seq<Seq<char>>,
    params: ParametersView,
)
    ensures
        all_at(marker_list_entries(markers, name, params), name),
    decreases markers.len(),
{
    if markers.len() > 0 {
        lemma_marker_list_entries_at(markers.drop_last(), name, params);
        lemma_marker_list_entries_push(markers.drop_last(), markers.last(), name, params);
        assert(markers.drop_last().push(markers.last()) =~= markers);
    }
}

/// The entries of a data type's annotations all carry the type's path.
pub proof fn lemma_composite_entries_at(
    annotations: Seq<AnnotationView>,
    parsed: Seq<Option<Seq<MarkerNameView>>>,
    name: Seq<Seq<char>>,
    params: ParametersView,
)
    ensures
        composite_entries(annotations, parsed, name, params) matches Ok(found) ==> all_at(
            found,
            name,
        ),
    decreases annotations.len(),
{
    if annotations.len() > 0 {
        lemma_composite_entries_at(annotations.drop_last(), parsed, name, params);
        match outcome_at(parsed, annotations.len() - 1) {
            Some(markers) => lemma_marker_list_entries_at(markers, name, params),
            None => {},
        }
    }
}

/// Every entry of a function, a data type or an implementation block that
/// stands in `namespace` carries the path of that namespace followed by the
/// declaration's name, whatever is read of it.
pub proof fn law_entries_are_qualified(
    d: DeclarationView,
    reading: Reading,
    namespace: Seq<Seq<char>>,
    params: ParametersView,
)
    requires
        is_leaf(d),
    ensures
        declaration_entries(d, reading, namespace, params) matches Ok(entries) ==> all_at(
            entries,
            namespace.push(declared_name(d)),
        ),
{
    match d {
        DeclarationView::Struct(t) => lemma_composite_entries_at(
            t.annotations,
            reading.lists(),
            namespace.push(t.name),
            params,
        ),
        DeclarationView::Enum(t) => lemma_composite_entries_at(
            t.annotations,
            reading.lists(),
            namespace.push(t.name),
            params,
        ),
        _ => {},
    }
}

/// `part` stands in `all` from the place `start` on.
pub open spec fn stands_at<A>(all: Seq<A>, start: int, part: Seq<A>) -> bool {
    0 <= start && start + part.len() <= all.len() && all.subrange(start, start + part.len())
        == part
}

/// In a walk that succeeds, the entries of the declaration at `index` stand
/// together, after those of the declarations before it: the result is the
/// place where they start.
pub proof fn lemma_entries_of_item(
    items: Seq<DeclarationView>,
    readings: Seq<Reading>,
    index: int,
    namespace: Seq<Seq<char>>,
    params: ParametersView,
) -> (start: int)
    requires
        0 <= index < items.len(),
        module_entries(items, readings, namespace, params) is Ok,
    ensures
        declaration_entries(items[index], reading_at(readings, index), namespace, params) is Ok,
        stands_at(
            module_entries(items, readings, namespace, params)->Ok_0,
            start,
            declaration_entries(items[index], reading_at(readings, index), namespace, params)->Ok_0,
        ),
    decreases items.len(),
{
    let front = module_entries(items.drop_last(), readings, namespace, params);
    let last = declaration_entries(
        items.last(),
        reading_at(readings, items.len() - 1),
        namespace,
        params,
    );
    let all = front->Ok_0 + last->Ok_0;
    if index == items.len() - 1 {
        assert(all.subrange(front->Ok_0.len() as int, all.len() as int) =~= last->Ok_0);
        front->Ok_0.len() as int
    } else {
        let start = lemma_entries_of_item(items.drop_last(), readings, index, namespace, params);
        let part = declaration_entries(
            items[index],
            reading_at(readings, index),
            namespace,
            params,
        )->Ok_0;
        assert(all.subrange(start, start + part.len()) =~= front->Ok_0.subrange(
            start,
            start + part.len(),
        ));
        start
    }
}

/// In a walk from `root` that succeeds, a declaration nested any number of
/// levels deep is classified in the namespace `root :: seg_1 :: ... :: seg_k`,
/// where `seg_1` to `seg_k` are the names of the namespaces around it,
/// outermost first; its entries stand together in the outcome, from the
/// returned place on, and where the declaration is no namespace each of them
/// carries the path `root :: seg_1 :: ... :: seg_k :: name`.
pub proof fn law_nested_declaration_path(
    items: Seq<DeclarationView>,
    readings: Seq<Reading>,
    route: Seq<int>,
    root: Seq<Seq<char>>,
    params: ParametersView,
) -> (start: int)
    requires
        declaration_at(items, route) is Some,
        module_entries(items, readings, root, params) is Ok,
    ensures
        enclosing_names(items, route).len() == route.len() - 1,
        declaration_entries(
            declaration_at(items, route)->Some_0,
            reading_of(items, readings, route),
            root + enclosing_names(items, route),
            params,
        ) is Ok,
        stands_at(
            module_entries(items, readings, root, params)->Ok_0,
            start,
            declaration_entries(
                declaration_at(items, route)->Some_0,
                reading_of(items, readings, route),
                root + enclosing_names(items, route),
                params,
            )->Ok_0,
        ),
        is_leaf(declaration_at(items, route)->Some_0) ==> all_at(
            declaration_entries(
                declaration_at(items, route)->Some_0,
                reading_of(items, readings, route),
                root + enclosing_names(items, route),
                params,
            )->Ok_0,
            (root + enclosing_names(items, route)).push(
                declared_name(declaration_at(items, route)->Some_0),
            ),
        ),
    decreases route.len(),
{
    let first = items[route[0]];
    let read = reading_at(readings, route[0]);
    let start = lemma_entries_of_item(items, readings, route[0], root, params);
    if route.len() == 1 {
        if is_leaf(first) {
            law_entries_are_qualified(first, read, root, params);
        }
        start
    } else {
        match first {
            DeclarationView::Namespace { name, content: Some(inner) } => {
                let rest = route.drop_first();
                let within = law_nested_declaration_path(
                    inner,
                    read.content(),
                    rest,
                    root.push(name),
                    params,
                );
                assert(root.push(name) + enclosing_names(inner, rest) =~= root + enclosing_names(
                    items,
                    route,
                ));
                let all = module_entries(items, readings, root, params)->Ok_0;
                let block = module_entries(inner, read.content(), root.push(name), params)->Ok_0;
                let part = declaration_entries(
                    declaration_at(items, route)->Some_0,
                    reading_of(items, readings, route),
                    root + enclosing_names(items, route),
                    params,
                )->Ok_0;
                assert(all.subrange(start + within, start + within + part.len()) =~= block.subrange(
                    within,
                    within + part.len(),
                ));
                start + within
            },
            _ => 0,
        }
    }
}

/// A route that leads to a declaration among all but the last of `items`
/// leads to the same declaration, through the same namespaces and with the
/// same reading, among all of them.
pub proof fn lemma_route_in_front(
    items: Seq<DeclarationView>,
    readings: Seq<Reading>,
    route: Seq<int>,
)
    requires
        items.len() > 0,
        declaration_at(items.drop_last(), route) is Some,
    ensures
        declaration_at(items, route) == declaration_at(items.drop_last(), route),
        enclosing_names(items, route) == enclosing_names(items.drop_last(), route),
        reading_of(items, readings, route) == reading_of(items.drop_last(), readings, route),
{
}

/// A route from the last of `items`, written as a route from `items`.
pub open spec fn through_last(items: Seq<DeclarationView>, route: Seq<int>) -> Seq<int> {
    seq![items.len() - 1] + route
}

/// The place of a declaration inside `d`, as far as `d` is concerned: the
/// empty route is `d` itself, and any other route leads through the content
/// of the namespace `d`.
pub open spec fn declaration_within(d: DeclarationView, route: Seq<int>) -> Option<
    DeclarationView,
> {
    if route.len() == 0 {
        Some(d)
    } else {
        match d {
            DeclarationView::Namespace { name, content: Some(inner) } => declaration_at(
                inner,
                route,
            ),
            _ => None,
        }
    }
}

/// The names of the namespaces from `d` down to the declaration that `route`
/// leads to inside it, `d` included.
pub open spec fn names_within(d: DeclarationView, route: Seq<int>) -> Seq<Seq<char>> {
    if route.len() == 0 {
        Seq::empty()
    } else {
        match d {
            DeclarationView::Namespace { name, content: Some(inner) } => seq![name]
                + enclosing_names(inner, route),
            _ => Seq::empty(),
        }
    }
}

/// What was read of the declaration that `route` leads to inside `d`, where
/// `reading` is what was read of `d`.
pub open spec fn reading_within(d: DeclarationView, reading: Reading, route: Seq<int>) -> Reading {
    if route.len() == 0 {
        reading
    } else {
        match d {
            DeclarationView::Namespace { name, content: Some(inner) } => reading_of(
                inner,
                reading.content(),
                route,
            ),
            _ => Reading::Nothing,
        }
    }
}

/// A route inside the last of `items` is a route from `items` through their
/// last index.
pub proof fn lemma_route_through_last(
    items: Seq<DeclarationView>,
    readings: Seq<Reading>,
    route: Seq<int>,
)
    requires
        items.len() > 0,
        declaration_within(items.last(), route) is Some,
    ensures
        declaration_at(items, through_last(items, route)) == declaration_within(
            items.last(),
            route,
        ),
        enclosing_names(items, through_last(items, route)) == names_within(items.last(), route),
        reading_of(items, readings, through_last(items, route)) == reading_within(
            items.last(),
            reading_at(readings, items.len() - 1),
            route,
        ),
{
    let whole = through_last(items, route);
    assert(whole.drop_first() =~= route);
}

/// In a walk from `root` that succeeds, every entry comes from a function, a
/// data type or an implementation block of the tree: the returned route leads
/// to that declaration, the entry is one of its entries, and the entry's path
/// is `root`, then the names of the namespaces around the declaration, then
/// the declaration's name.
pub proof fn law_entry_origin(
    items: Seq<DeclarationView>,
    readings: Seq<Reading>,
    place: int,
    root: Seq<Seq<char>>,
    params: ParametersView,
) -> (route: Seq<int>)
    requires
        module_entries(items, readings, root, params) is Ok,
        0 <= place < module_entries(items, readings, root, params)->Ok_0.len(),
    ensures
        declaration_at(items, route) is Some,
        is_leaf(declaration_at(items, route)->Some_0),
        declaration_entries(
            declaration_at(items, route)->Some_0,
            reading_of(items, readings, route),
            root + enclosing_names(items, route),
            params,
        ) is Ok,
        declaration_entries(
            declaration_at(items, route)->Some_0,
            reading_of(items, readings, route),
            root + enclosing_names(items, route),
            params,
        )->Ok_0.contains(module_entries(items, readings, root, params)->Ok_0[place]),
        module_entries(items, readings, root, params)->Ok_0[place].path() == (root
            + enclosing_names(items, route)).push(
            declared_name(declaration_at(items, route)->Some_0),
        ),
    decreases items, 1nat,
{
    let front = module_entries(items.drop_last(), readings, root, params);
    if place < front->Ok_0.len() {
        let route = law_entry_origin(items.drop_last(), readings, place, root, params);
        lemma_route_in_front(items, readings, route);
        route
    } else {
        let inside = law_entry_origin_within(
            items.last(),
            reading_at(readings, items.len() - 1),
            place - front->Ok_0.len(),
            root,
            params,
        );
        lemma_route_through_last(items, readings, inside);
        through_last(items, inside)
    }
}

/// The origin of an entry of one declaration: the returned route leads, inside
/// `d`, to the function, data type or implementation block that gave it.
pub proof fn law_entry_origin_within(
    d: DeclarationView,
    reading: Reading,
    place: int,
    namespace: Seq<Seq<char>>,
    params: ParametersView,
) -> (route: Seq<int>)
    requires
        declaration_entries(d, reading, namespace, params) is Ok,
        0 <= place < declaration_entries(d, reading, namespace, params)->Ok_0.len(),
    ensures
        declaration_within(d, route) is Some,
        is_leaf(declaration_within(d, route)->Some_0),
        declaration_entries(
            declaration_within(d, route)->Some_0,
            reading_within(d, reading, route),
            namespace + names_within(d, route),
            params,
        ) is Ok,
        declaration_entries(
            declaration_within(d, route)->Some_0,
            reading_within(d, reading, route),
            namespace + names_within(d, route),
            params,
        )->Ok_0.contains(declaration_entries(d, reading, namespace, params)->Ok_0[place]),
        declaration_entries(d, reading, namespace, params)->Ok_0[place].path() == (namespace
            + names_within(d, route)).push(declared_name(declaration_within(d, route)->Some_0)),
    decreases d, 0nat,
{
    match d {
        DeclarationView::Namespace { name, content: Some(inner) } => {
            let route = law_entry_origin(
                inner,
                reading.content(),
                place,
                namespace.push(name),
                params,
            );
            assert(namespace.push(name) + enclosing_names(inner, route) =~= namespace
                + names_within(d, route));
            route
        },
        _ => {
            law_entries_are_qualified(d, reading, namespace, params);
            Seq::empty()
        },
    }
}

/// What stands in a part of a part stands in the whole.
pub proof fn lemma_stands_within<A>(
    all: Seq<A>,
    start: int,
    block: Seq<A>,
    within: int,
    part: Seq<A>,
)
    requires
        stands_at(all, start, block),
        stands_at(block, within, part),
    ensures
        stands_at(all, start + within, part),
{
    assert(all.subrange(start + within, start + within + part.len()) =~= block.subrange(
        within,
        within + part.len(),
    ));
}

/// In a run that succeeds, the entries of the file at `index` stand together,
/// after those of the files before it: the result is the place where they
/// start.
pub proof fn lemma_entries_of_file(
    files: Seq<SourceFileView>,
    readings: Seq<Seq<Reading>>,
    index: int,
    params: ParametersView,
) -> (start: int)
    requires
        0 <= index < files.len(),
        files_entries(files, readings, params) is Ok,
    ensures
        module_entries(
            files[index].items,
            readings_at(readings, index),
            files[index].namespace,
            params,
        ) is Ok,
        stands_at(
            files_entries(files, readings, params)->Ok_0,
            start,
            module_entries(
                files[index].items,
                readings_at(readings, index),
                files[index].namespace,
                params,
            )->Ok_0,
        ),
    decreases files.len(),
{
    let front = files_entries(files.drop_last(), readings, params);
    let last = module_entries(
        files.last().items,
        readings_at(readings, files.len() - 1),
        files.last().namespace,
        params,
    );
    let all = front->Ok_0 + last->Ok_0;
    if index == files.len() - 1 {
        assert(all.subrange(front->Ok_0.len() as int, all.len() as int) =~= last->Ok_0);
        front->Ok_0.len() as int
    } else {
        let start = lemma_entries_of_file(files.drop_last(), readings, index, params);
        let part = module_entries(
            files[index].items,
            readings_at(readings, index),
            files[index].namespace,
            params,
        )->Ok_0;
        assert(all.subrange(start, start + part.len()) =~= front->Ok_0.subrange(
            start,
            start + part.len(),
        ));
        start
    }
}

/// The paths that pass `test` among entries that stand together in `all`
/// stand together among the paths of `all` that pass: the result is the place
/// where they start.
pub proof fn lemma_fold_of_part(
    all: Seq<DiscoverTypeView>,
    start: int,
    part: Seq<DiscoverTypeView>,
    test: spec_fn(DiscoverTypeView) -> bool,
) -> (place: int)
    requires
        stands_at(all, start, part),
    ensures
        stands_at(paths_where(all, test), place, paths_where(part, test)),
{
    let before = all.take(start);
    let after = all.skip(start + part.len());
    assert(all =~= (before + part) + after);
    lemma_paths_where_add(before + part, after, test);
    lemma_paths_where_add(before, part, test);
    let place = paths_where(before, test).len() as int;
    let found = paths_where(part, test);
    assert(paths_where(all, test).subrange(place, place + found.len()) =~= found);
    place
}

/// In a run that succeeds, every function that does not carry the ignore
/// marker, wherever it stands in the files, is reported once for each of its
/// annotations that names the function marker: that many operations stand
/// together in the result, from the returned place on, each with the path
/// `root :: seg_1 :: ... :: seg_k :: name`.
pub proof fn law_run_reports_function(
    src_path: Seq<char>,
    files: Seq<SourceFileView>,
    readings: Seq<Seq<Reading>>,
    file: int,
    route: Seq<int>,
    f: FunctionDeclView,
    params: ParametersView,
) -> (place: int)
    requires
        0 <= file < files.len(),
        declaration_at(files[file].items, route) == Some(DeclarationView::Function(f)),
        !function_is_ignored(f),
        matching_annotations(f, params.fn_attribute_name).len() >= 1,
        discovery(src_path, Some(files), readings, params) is Ok,
    ensures
        stands_at(
            discovery(src_path, Some(files), readings, params)->Ok_0.operations,
            place,
            Seq::new(
                matching_annotations(f, params.fn_attribute_name).len(),
                |i: int|
                    (files[file].namespace + enclosing_names(files[file].items, route)).push(
                        f.name,
                    ),
            ),
        ),
{
    let all = files_entries(files, readings, params)->Ok_0;
    let read = readings_at(readings, file);
    let of_file = module_entries(files[file].items, read, files[file].namespace, params)->Ok_0;
    let namespace = files[file].namespace + enclosing_names(files[file].items, route);
    let of_function = function_entries(f, namespace, params);
    let count = matching_annotations(f, params.fn_attribute_name).len();

    let start = lemma_entries_of_file(files, readings, file, params);
    let within = law_nested_declaration_path(
        files[file].items,
        read,
        route,
        files[file].namespace,
        params,
    );
    lemma_stands_within(all, start, of_file, within, of_function);
    let place = lemma_fold_of_part(all, start + within, of_function, goes_to_operations());

    f.annotations.lemma_filter_len(names_marker(params.fn_attribute_name));
    lemma_paths_where_all(of_function, goes_to_operations());
    assert(paths_where(of_function, goes_to_operations()) =~= Seq::new(
        count,
        |i: int| namespace.push(f.name),
    ));
    place
}

} // verus!
