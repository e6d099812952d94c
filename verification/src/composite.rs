//! Composite annotations: one annotation that lists several nested marker
//! names, separated by commas.

use crate::entry::{entry_views, DiscoverType, DiscoverTypeView};
use crate::marker::{
    MarkerName, MarkerNameView, Parameters, ParametersView, BUILTIN_MODEL, BUILTIN_NAMESPACE,
    BUILTIN_RESPONSE,
};
use crate::path::QualifiedPath;
use crate::text::same_text;
use syn::parse::Parser;
use syn::punctuated::Punctuated;
use vstd::prelude::*;

verus! {

/// The views of the names of `v`, in order.
pub open spec fn marker_name_views(v: Seq<MarkerName>) -> Seq<MarkerNameView> {
    v.map_values(|m: MarkerName| m@)
}

/// The views of what the parser made of each list of `v`, in order.
pub open spec fn parsed_views(v: Seq<Option<Vec<MarkerName>>>) -> Seq<Option<Seq<MarkerNameView>>> {
    v.map_values(
        |outcome: Option<Vec<MarkerName>>|
            match outcome {
                Some(names) => Some(marker_name_views(names@)),
                None => None,
            },
    )
}

/// Parses `tokens` with `syn`'s `Punctuated::<Meta, Comma>::parse_terminated`,
/// run through `Parser::parse_str`, and keeps the path of each meta: whether
/// it starts with a separator, and the text of each segment's identifier.
/// Returns `None` where `syn` reports an error.
///
/// Nothing is claimed of the outcome. `parse_str` lexes the text with
/// `proc-macro2`, which hands it to the compiler's lexer inside a procedural
/// macro and to its own elsewhere, so one text need not always give the same
/// names. The parser descends into nested expressions and delimiters as deep
/// as the stack lets it.
#[verifier::external_body]
pub(crate) fn parse_marker_list(tokens: &str) -> (markers: Option<Vec<MarkerName>>) {
    let metas = Punctuated::<syn::Meta, syn::token::Comma>::parse_terminated.parse_str(tokens).ok()?;
    Some(
        metas.iter().map(
            |meta|
                MarkerName {
                    leading_colon: meta.path().leading_colon.is_some(),
                    segments: meta.path().segments.iter().map(|s| s.ident.to_string()).collect(),
                },
        ).collect(),
    )
}

/// The name is the built-in capability `capability`: two segments, the
/// built-in namespace and then `capability`.
pub open spec fn is_builtin(marker: MarkerNameView, capability: Seq<char>) -> bool {
    marker.segments.len() == 2 && marker.segments[0] == BUILTIN_NAMESPACE@ && marker.segments[1]
        == capability
}

/// The entries that one nested marker name gives to the type at `name`.
///
/// The built-in model capability gives a model, the built-in response
/// capability a response. Any other name is compared with the configured
/// model marker and with the configured response marker, and may match both.
pub open spec fn marker_entries(
    marker: MarkerNameView,
    name: Seq<Seq<char>>,
    params: ParametersView,
) -> Seq<DiscoverTypeView> {
    if is_builtin(marker, BUILTIN_MODEL@) {
        seq![DiscoverTypeView::Model(name)]
    } else if is_builtin(marker, BUILTIN_RESPONSE@) {
        seq![DiscoverTypeView::Response(name)]
    } else {
        let model = if marker.is_ident(params.schema_attribute_name) {
            seq![DiscoverTypeView::Model(name)]
        } else {
            Seq::empty()
        };
        let response = if marker.is_ident(params.response_attribute_name) {
            seq![DiscoverTypeView::Response(name)]
        } else {
            Seq::empty()
        };
        model + response
    }
}

/// The entries that a list of nested marker names gives to the type at
/// `name`: those of each name, in the order of the list.
pub open spec fn marker_list_entries(
    markers: Seq<MarkerNameView>,
    name: Seq<Seq<char>>,
    params: ParametersView,
) -> Seq<DiscoverTypeView> {
    markers.map_values(|m: MarkerNameView| marker_entries(m, name, params)).flatten()
}

/// Adding one name to the end of a list adds its entries to the end.
pub proof fn lemma_marker_list_entries_push(
    markers: Seq<MarkerNameView>,
    last: MarkerNameView,
    name: Seq<Seq<char>>,
    params: ParametersView,
)
    ensures
        marker_list_entries(markers.push(last), name, params) == marker_list_entries(
            markers,
            name,
            params,
        ) + marker_entries(last, name, params),
{
    let f = |m: MarkerNameView| marker_entries(m, name, params);
    assert(markers.push(last).map_values(f) =~= markers.map_values(f).push(f(last)));
    markers.map_values(f).lemma_flatten_push(f(last));
}

/// Whether `marker` is the built-in capability `capability`.
fn is_builtin_name(marker: &MarkerName, capability: &str) -> (builtin: bool)
    ensures
        builtin == is_builtin(marker@, capability@),
{
    marker.segments.len() == 2 && same_text(marker.segments[0].as_str(), BUILTIN_NAMESPACE)
        && same_text(marker.segments[1].as_str(), capability)
}

/// Appends to `out` the entries that `marker` gives to the type at `name`.
fn push_marker_entries(
    out: &mut Vec<DiscoverType>,
    marker: &MarkerName,
    name: &QualifiedPath,
    params: &Parameters,
)
    ensures
        entry_views(final(out)@) == entry_views(old(out)@) + marker_entries(
            marker@,
            name@,
            params@,
        ),
{
    if is_builtin_name(marker, BUILTIN_MODEL) {
        out.push(DiscoverType::Model(name.clone()));
    } else if is_builtin_name(marker, BUILTIN_RESPONSE) {
        out.push(DiscoverType::Response(name.clone()));
    } else {
        if marker.is_ident(params.schema_attribute_name.as_str()) {
            out.push(DiscoverType::Model(name.clone()));
        }
        if marker.is_ident(params.response_attribute_name.as_str()) {
            out.push(DiscoverType::Response(name.clone()));
        }
    }
}

/// Classifies the nested marker names of one composite annotation of the type
/// at `name`.
pub fn classify_markers(markers: &Vec<MarkerName>, name: &QualifiedPath, params: &Parameters) -> (out:
    Vec<DiscoverType>)
    ensures
        entry_views(out@) == marker_list_entries(marker_name_views(markers@), name@, params@),
{
    let mut out: Vec<DiscoverType> = Vec::new();
    let ghost all = marker_name_views(markers@);
    let mut i: usize = 0;
    while i < markers.len()
        invariant
            i <= markers.len(),
            all == marker_name_views(markers@),
            entry_views(out@) == marker_list_entries(all.take(i as int), name@, params@),
        decreases markers.len() - i,
    {
        push_marker_entries(&mut out, &markers[i], name, params);
        proof {
            assert(all.take(i + 1) =~= all.take(i as int).push(markers[i as int]@));
            lemma_marker_list_entries_push(all.take(i as int), markers[i as int]@, name@, params@);
        }
        i += 1;
    }
    assert(all.take(i as int) =~= all);
    out
}

} // verus!
