//! The classifier: what one function, data type or implementation block
//! contributes, given the namespace that it stands in.

use crate::composite::{
    classify_markers, marker_list_entries, parse_marker_list, parsed_views,
};
use crate::entry::{
    entry_views, in_turn, outcome_view, DiscoverType, DiscoverTypeView, DiscoveryError,
    DiscoveryErrorView,
};
use crate::marker::{
    MarkerName, MarkerNameView, Parameters, ParametersView, COMPOSITE_MARKER, IGNORE_MARKER,
};
use crate::path::{build_path, QualifiedPath};
use crate::reading::outcome_at;
use crate::syntax::{
    annotation_views, Annotation, AnnotationView, FunctionDecl, FunctionDeclView, ImplBlock,
    ImplBlockView,
};
use crate::text::{same_text, texts};
use vstd::prelude::*;

verus! {

/// One of the annotations is exactly the ignore marker.
pub open spec fn carries_ignore_marker(annotations: Seq<AnnotationView>) -> bool {
    exists|i: int|
        0 <= i < annotations.len() && (#[trigger] annotations[i]).name.is_ident(IGNORE_MARKER@)
}

/// The function carries the ignore marker.
pub open spec fn function_is_ignored(f: FunctionDeclView) -> bool {
    carries_ignore_marker(f.annotations)
}

/// The function is looked at: it has an annotation, and none of them is the
/// ignore marker.
pub open spec fn function_is_eligible(f: FunctionDeclView) -> bool {
    f.annotations.len() > 0 && !function_is_ignored(f)
}

/// The test that an annotation's name has `marker` among its segments.
pub open spec fn names_marker(marker: Seq<char>) -> spec_fn(AnnotationView) -> bool {
    |a: AnnotationView| a.name.mentions(marker)
}

/// The annotations of `f` that name `marker`, in their order.
pub open spec fn matching_annotations(f: FunctionDeclView, marker: Seq<char>) -> Seq<
    AnnotationView,
> {
    f.annotations.filter(names_marker(marker))
}

/// What a function reports under `marker`: its own name, once for each
/// annotation that names the marker, and nothing if the function is not
/// eligible.
pub open spec fn function_names(f: FunctionDeclView, marker: Seq<char>) -> Seq<Seq<char>> {
    if function_is_eligible(f) {
        Seq::new(matching_annotations(f, marker).len(), |i: int| f.name)
    } else {
        Seq::empty()
    }
}

/// The entries of a function that stands in `namespace`: one operation, at
/// the function's qualified path, for each name that it reports.
pub open spec fn function_entries(
    f: FunctionDeclView,
    namespace: Seq<Seq<char>>,
    params: ParametersView,
) -> Seq<DiscoverTypeView> {
    function_names(f, params.fn_attribute_name).map_values(
        |name: Seq<char>| DiscoverTypeView::Fn(namespace.push(name)),
    )
}

/// Whether one of the annotations is exactly the ignore marker.
pub fn has_ignore_marker(annotations: &Vec<Annotation>) -> (found: bool)
    ensures
        found == carries_ignore_marker(annotation_views(annotations@)),
{
    let ghost all = annotation_views(annotations@);
    let mut i: usize = 0;
    while i < annotations.len()
        invariant
            i <= annotations.len(),
            all == annotation_views(annotations@),
            forall|j: int| 0 <= j < i ==> !(#[trigger] all[j]).name.is_ident(IGNORE_MARKER@),
        decreases annotations.len() - i,
    {
        if annotations[i].name.is_ident(IGNORE_MARKER) {
            assert(all[i as int].name.is_ident(IGNORE_MARKER@));
            return true;
        }
        i += 1;
    }
    false
}

/// Whether the function carries the ignore marker.
pub fn is_ignored(f: &FunctionDecl) -> (ignored: bool)
    ensures
        ignored == function_is_ignored(f@),
{
    has_ignore_marker(&f.annotations)
}

/// Whether the function is looked at: it has an annotation and is not ignored.
pub fn should_parse_fn(f: &FunctionDecl) -> (eligible: bool)
    ensures
        eligible == function_is_eligible(f@),
{
    f.annotations.len() > 0 && !is_ignored(f)
}

/// The names that `f` reports under the marker `fn_attributes_name`: its own
/// name once for each annotation that has the marker among its segments, and
/// nothing if `f` has no annotation or carries the ignore marker.
pub fn parse_function(f: &FunctionDecl, fn_attributes_name: &str) -> (names: Vec<String>)
    ensures
        texts(names@) == function_names(f@, fn_attributes_name@),
        function_is_ignored(f@) ==> names@.len() == 0,
        function_is_eligible(f@) ==> names@.len() == matching_annotations(
            f@,
            fn_attributes_name@,
        ).len(),
        forall|i: int| 0 <= i < names@.len() ==> (#[trigger] names@[i])@ == f.name@,
{
    let mut names: Vec<String> = Vec::new();
    if should_parse_fn(f) {
        let ghost all = f@.annotations;
        let ghost test = names_marker(fn_attributes_name@);
        let mut i: usize = 0;
        proof {
            all.take(0).lemma_filter_len(test);
        }
        while i < f.annotations.len()
            invariant
                i <= f.annotations.len(),
                all == f@.annotations,
                test == names_marker(fn_attributes_name@),
                names@.len() == all.take(i as int).filter(test).len(),
                forall|j: int| 0 <= j < names@.len() ==> (#[trigger] names@[j])@ == f.name@,
            decreases f.annotations.len() - i,
        {
            proof {
                assert(all.take(i + 1) =~= all.take(i as int).push(all[i as int]));
                all.take(i as int).lemma_filter_push(all[i as int], test);
            }
            if f.annotations[i].name.mentions(fn_attributes_name) {
                names.push(f.name.clone());
            }
            i += 1;
        }
        assert(all.take(i as int) =~= all);
    }
    names
}

/// The entries that one annotation gives to the data type at `name`, where
/// `markers` is what the parser made of its list.
///
/// An annotation that is not composite gives none. A composite annotation
/// gives the entries of its nested marker names; it is a failure where it has
/// no list, or where the parser found no marker names in it.
pub open spec fn annotation_entries(
    a: AnnotationView,
    markers: Option<Seq<MarkerNameView>>,
    name: Seq<Seq<char>>,
    params: ParametersView,
) -> Result<Seq<DiscoverTypeView>, DiscoveryErrorView> {
    if a.name.is_ident(COMPOSITE_MARKER@) {
        if a.list is Some && markers is Some {
            Ok(marker_list_entries(markers->Some_0, name, params))
        } else {
            Err(DiscoveryErrorView::AnnotationSyntax { declaration: name })
        }
    } else {
        Ok(Seq::empty())
    }
}

/// The entries that the annotations give to the data type at `name`, in the
/// order of the annotations, or the first failure met in that order.
/// `parsed` holds what the parser made of each annotation's list.
pub open spec fn composite_entries(
    annotations: Seq<AnnotationView>,
    parsed: Seq<Option<Seq<MarkerNameView>>>,
    name: Seq<Seq<char>>,
    params: ParametersView,
) -> Result<Seq<DiscoverTypeView>, DiscoveryErrorView>
    decreases annotations.len(),
{
    if annotations.len() == 0 {
        Ok(Seq::empty())
    } else {
        in_turn(
            composite_entries(annotations.drop_last(), parsed, name, params),
            annotation_entries(
                annotations.last(),
                outcome_at(parsed, annotations.len() - 1),
                name,
                params,
            ),
        )
    }
}

/// The entries of a data type at the qualified path `name`, where `parsed`
/// holds what the parser made of each annotation's list.
///
/// A type with generic parameters has none, whatever its annotations. A type
/// that carries the ignore marker has none. Any other type has the entries of
/// its composite annotations.
pub open spec fn type_entries_of(
    annotations: Seq<AnnotationView>,
    parsed: Seq<Option<Seq<MarkerNameView>>>,
    name: Seq<Seq<char>>,
    generics: nat,
    params: ParametersView,
) -> Result<Seq<DiscoverTypeView>, DiscoveryErrorView> {
    if generics > 0 || carries_ignore_marker(annotations) {
        Ok(Seq::empty())
    } else {
        composite_entries(annotations, parsed, name, params)
    }
}

/// The annotation is composite.
pub open spec fn is_composite(a: AnnotationView) -> bool {
    a.name.is_ident(COMPOSITE_MARKER@)
}

/// `parsed` holds one outcome for each annotation, and none for an
/// annotation without a list.
pub open spec fn reads_lists(
    annotations: Seq<AnnotationView>,
    parsed: Seq<Option<Seq<MarkerNameView>>>,
) -> bool {
    parsed.len() == annotations.len() && forall|i: int|
        0 <= i < annotations.len() && annotations[i].list is None ==> (#[trigger] parsed[i])
            is None
}

/// The first composite annotation has no list.
pub open spec fn first_composite_has_no_list(annotations: Seq<AnnotationView>) -> bool {
    exists|i: int|
        0 <= i < annotations.len() && is_composite(#[trigger] annotations[i]) && annotations[i].list
            is None && forall|j: int| 0 <= j < i ==> !is_composite(#[trigger] annotations[j])
}

/// A failure among the first `seen` annotations is the failure of all of
/// them.
pub proof fn lemma_composite_failure_stays(
    annotations: Seq<AnnotationView>,
    parsed: Seq<Option<Seq<MarkerNameView>>>,
    seen: int,
    name: Seq<Seq<char>>,
    params: ParametersView,
)
    requires
        0 <= seen <= annotations.len(),
        composite_entries(annotations.take(seen), parsed, name, params) is Err,
    ensures
        composite_entries(annotations, parsed, name, params) == composite_entries(
            annotations.take(seen),
            parsed,
            name,
            params,
        ),
    decreases annotations.len() - seen,
{
    if seen < annotations.len() {
        assert(annotations.take(seen + 1).drop_last() =~= annotations.take(seen));
        lemma_composite_failure_stays(annotations, parsed, seen + 1, name, params);
    } else {
        assert(annotations.take(seen) =~= annotations);
    }
}

/// Annotations none of which is composite give no entry and no failure,
/// whatever was parsed.
pub proof fn lemma_no_composite_no_entries(
    annotations: Seq<AnnotationView>,
    parsed: Seq<Option<Seq<MarkerNameView>>>,
    name: Seq<Seq<char>>,
    params: ParametersView,
)
    requires
        forall|i: int| 0 <= i < annotations.len() ==> !is_composite(#[trigger] annotations[i]),
    ensures
        composite_entries(annotations, parsed, name, params) == Ok::<
            Seq<DiscoverTypeView>,
            DiscoveryErrorView,
        >(Seq::empty()),
    decreases annotations.len(),
{
    if annotations.len() > 0 {
        lemma_no_composite_no_entries(annotations.drop_last(), parsed, name, params);
    }
}

/// Where the first composite annotation has no list, the annotations give a
/// failure, whatever was parsed.
pub proof fn lemma_unlisted_composite_fails(
    annotations: Seq<AnnotationView>,
    parsed: Seq<Option<Seq<MarkerNameView>>>,
    name: Seq<Seq<char>>,
    params: ParametersView,
)
    requires
        first_composite_has_no_list(annotations),
    ensures
        composite_entries(annotations, parsed, name, params) == Err::<
            Seq<DiscoverTypeView>,
            DiscoveryErrorView,
        >(DiscoveryErrorView::AnnotationSyntax { declaration: name }),
{
    let at = choose|i: int|
        0 <= i < annotations.len() && is_composite(#[trigger] annotations[i]) && annotations[i].list
            is None && forall|j: int| 0 <= j < i ==> !is_composite(#[trigger] annotations[j]);
    let before = annotations.take(at);
    lemma_no_composite_no_entries(before, parsed, name, params);
    assert(annotations.take(at + 1).drop_last() =~= before);
    lemma_composite_failure_stays(annotations, parsed, at + 1, name, params);
}

/// What the parser makes of the lists of the composite annotations of `a`,
/// one outcome for each annotation.
///
/// The parser is called on the list of each composite annotation in order,
/// up to the first on which it finds no marker names. Every other annotation
/// has the outcome `None`.
pub fn read_composite_lists(a: &Vec<Annotation>) -> (parsed: Vec<Option<Vec<MarkerName>>>)
    ensures
        parsed@.len() == a@.len(),
        forall|i: int|
            0 <= i < a@.len() && (a@[i].list is None || !is_composite(a@[i]@)) ==> (
            #[trigger] parsed@[i]) is None,
{
    let mut parsed: Vec<Option<Vec<MarkerName>>> = Vec::new();
    let mut reading = true;
    let mut i: usize = 0;
    while i < a.len()
        invariant
            i <= a.len(),
            parsed@.len() == i,
            forall|j: int|
                0 <= j < i && (a@[j].list is None || !is_composite(a@[j]@)) ==> (
                #[trigger] parsed@[j]) is None,
        decreases a.len() - i,
    {
        let outcome = if reading && a[i].name.is_ident(COMPOSITE_MARKER) {
            let markers = match &a[i].list {
                Some(tokens) => {
                    let text = tokens.as_str();
                    assert(Some(text@) == a@[i as int]@.list);
                    parse_marker_list(text)
                },
                None => None,
            };
            reading = markers.is_some();
            markers
        } else {
            None
        };
        parsed.push(outcome);
        i += 1;
    }
    parsed
}

/// The entries of the data type at the qualified path `name`, given what the
/// parser made of the list of each of its annotations.
pub fn classify_parsed(
    a: &Vec<Annotation>,
    parsed: &Vec<Option<Vec<MarkerName>>>,
    name: QualifiedPath,
    generic_params: usize,
    params: &Parameters,
) -> (outcome: Result<Vec<DiscoverType>, DiscoveryError>)
    ensures
        outcome_view(outcome) == type_entries_of(
            annotation_views(a@),
            parsed_views(parsed@),
            name@,
            generic_params as nat,
            params@,
        ),
{
    let mut out: Vec<DiscoverType> = Vec::new();
    assert(entry_views(out@) =~= Seq::empty());
    if generic_params > 0 || has_ignore_marker(a) {
        return Ok(out);
    }
    let ghost all = annotation_views(a@);
    let ghost read = parsed_views(parsed@);
    let mut i: usize = 0;
    while i < a.len()
        invariant
            i <= a.len(),
            generic_params == 0,
            all == annotation_views(a@),
            read == parsed_views(parsed@),
            !carries_ignore_marker(all),
            composite_entries(all.take(i as int), read, name@, params@) == Ok::<
                Seq<DiscoverTypeView>,
                DiscoveryErrorView,
            >(entry_views(out@)),
        decreases a.len() - i,
    {
        let attr = &a[i];
        assert(all.take(i + 1).drop_last() =~= all.take(i as int));
        if attr.name.is_ident(COMPOSITE_MARKER) {
            let markers = if attr.list.is_some() && i < parsed.len() {
                parsed[i].as_ref()
            } else {
                None
            };
            match markers {
                Some(names) => {
                    let mut found = classify_markers(names, &name, params);
                    let ghost before = out@;
                    let ghost added = found@;
                    out.append(&mut found);
                    assert(entry_views(out@) =~= entry_views(before) + entry_views(added));
                },
                None => {
                    proof {
                        lemma_composite_failure_stays(all, read, i + 1, name@, params@);
                    }
                    return Err(DiscoveryError::AnnotationSyntax { declaration: name });
                },
            }
        }
        i += 1;
    }
    assert(all.take(i as int) =~= all);
    Ok(out)
}

/// Searches the annotations of the data type at the qualified path `name` for
/// model and response markers.
///
/// Returns no entry for a type with generic parameters or with the ignore
/// marker, and calls no parser for it. Otherwise reads the list of each
/// composite annotation and returns the entries of the nested marker names,
/// in order; it fails at the first composite annotation that has no list or
/// in whose list the parser finds no marker names.
pub fn parse_from_attr(
    a: &Vec<Annotation>,
    name: QualifiedPath,
    generic_params: usize,
    params: &Parameters,
) -> (outcome: Result<Vec<DiscoverType>, DiscoveryError>)
    ensures
        exists|parsed: Seq<Option<Seq<MarkerNameView>>>|
            reads_lists(annotation_views(a@), parsed) && outcome_view(outcome)
                == #[trigger] type_entries_of(
                annotation_views(a@),
                parsed,
                name@,
                generic_params as nat,
                params@,
            ),
        generic_params > 0 || carries_ignore_marker(annotation_views(a@)) ==> outcome_view(outcome)
            == Ok::<Seq<DiscoverTypeView>, DiscoveryErrorView>(Seq::empty()),
        (forall|i: int| 0 <= i < a@.len() ==> !is_composite(#[trigger] annotation_views(a@)[i]))
            ==> outcome_view(outcome) == Ok::<Seq<DiscoverTypeView>, DiscoveryErrorView>(
            Seq::empty(),
        ),
        generic_params == 0 && !carries_ignore_marker(annotation_views(a@))
            && first_composite_has_no_list(annotation_views(a@)) ==> outcome_view(outcome) == Err::<
            Seq<DiscoverTypeView>,
            DiscoveryErrorView,
        >(DiscoveryErrorView::AnnotationSyntax { declaration: name@ }),
{
    let ghost all = annotation_views(a@);
    let ghost path = name@;
    if generic_params > 0 || has_ignore_marker(a) {
        let out: Vec<DiscoverType> = Vec::new();
        let ghost blank = Seq::new(a@.len(), |i: int| None::<Seq<MarkerNameView>>);
        assert(entry_views(out@) =~= Seq::empty());
        assert(Ok::<Seq<DiscoverTypeView>, DiscoveryErrorView>(entry_views(out@))
            == type_entries_of(all, blank, path, generic_params as nat, params@));
        return Ok(out);
    }
    let parsed = read_composite_lists(a);
    let outcome = classify_parsed(a, &parsed, name, generic_params, params);
    proof {
        let read = parsed_views(parsed@);
        assert(outcome_view(outcome) == type_entries_of(
            all,
            read,
            path,
            generic_params as nat,
            params@,
        ));
        if forall|i: int| 0 <= i < a@.len() ==> !is_composite(#[trigger] all[i]) {
            lemma_no_composite_no_entries(all, read, path, params@);
        }
        if first_composite_has_no_list(all) {
            lemma_unlisted_composite_fails(all, read, path, params@);
        }
    }
    outcome
}

/// The entries of an implementation block that stands in `namespace`.
///
/// A block that carries the ignore marker has none. Otherwise the capability
/// is known by its rightmost segment. The configured model marker is tried
/// first, then the configured response marker. A block that claims no
/// capability, or another one, has no entries.
pub open spec fn impl_entries(
    im: ImplBlockView,
    namespace: Seq<Seq<char>>,
    params: ParametersView,
) -> Seq<DiscoverTypeView> {
    if carries_ignore_marker(im.annotations) {
        Seq::empty()
    } else {
        match im.capability {
            Some(capability) => match capability.last_segment() {
                Some(last) => {
                    if last == params.schema_attribute_name {
                        seq![DiscoverTypeView::CustomModelImpl(namespace.push(im.target))]
                    } else if last == params.response_attribute_name {
                        seq![DiscoverTypeView::CustomResponseImpl(namespace.push(im.target))]
                    } else {
                        Seq::empty()
                    }
                },
                None => Seq::empty(),
            },
            None => Seq::empty(),
        }
    }
}

/// Classifies an implementation block that stands in `namespace` by the
/// capability that it claims.
pub fn parse_from_impl(im: &ImplBlock, namespace: &QualifiedPath, params: &Parameters) -> (out: Vec<
    DiscoverType,
>)
    ensures
        entry_views(out@) == impl_entries(im@, namespace@, params@),
        carries_ignore_marker(im@.annotations) ==> out@.len() == 0,
{
    let mut out: Vec<DiscoverType> = Vec::new();
    if has_ignore_marker(&im.annotations) {
        return out;
    }
    match &im.capability {
        Some(capability) => match capability.last_segment() {
            Some(last) => {
                if same_text(last.as_str(), params.schema_attribute_name.as_str()) {
                    out.push(DiscoverType::CustomModelImpl(build_path(namespace, im.target.as_str())));
                } else if same_text(last.as_str(), params.response_attribute_name.as_str()) {
                    out.push(
                        DiscoverType::CustomResponseImpl(build_path(namespace, im.target.as_str())),
                    );
                }
            },
            None => {},
        },
        None => {},
    }
    out
}

} // verus!
