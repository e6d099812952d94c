use utoipauto_core::classify::{
    classify_parsed, has_ignore_marker, is_ignored, parse_from_attr, parse_from_impl,
    parse_function, read_composite_lists, should_parse_fn,
};
use utoipauto_core::composite::classify_markers;
use utoipauto_core::entry::{DiscoverType, DiscoveryError};
use utoipauto_core::marker::{MarkerName, Parameters};
use utoipauto_core::path::QualifiedPath;
use utoipauto_core::syntax::{Annotation, FunctionDecl, ImplBlock};

fn name(segments: &[&str]) -> MarkerName {
    MarkerName { leading_colon: false, segments: segments.iter().map(|s| s.to_string()).collect() }
}

fn rooted(segments: &[&str]) -> MarkerName {
    MarkerName { leading_colon: true, segments: segments.iter().map(|s| s.to_string()).collect() }
}

fn bare(ident: &str) -> Annotation {
    Annotation { name: name(&[ident]), list: None }
}

fn dotted(segments: &[&str]) -> Annotation {
    Annotation { name: name(segments), list: None }
}

fn list(ident: &str, tokens: &str) -> Annotation {
    Annotation { name: name(&[ident]), list: Some(tokens.to_string()) }
}

fn path(segments: &[&str]) -> QualifiedPath {
    QualifiedPath::new(segments.iter().map(|s| s.to_string()).collect())
}

fn params(function: &str, model: &str, response: &str) -> Parameters {
    Parameters {
        fn_attribute_name: function.to_string(),
        schema_attribute_name: model.to_string(),
        response_attribute_name: response.to_string(),
    }
}

fn defaults() -> Parameters {
    params("op", "MySchema", "MyResponse")
}

fn function(ident: &str, annotations: Vec<Annotation>) -> FunctionDecl {
    FunctionDecl { name: ident.to_string(), annotations }
}

fn user() -> QualifiedPath {
    path(&["api", "handlers", "User"])
}

#[test]
fn test_parse_function() {
    let item_fn = function("route_custom", vec![bare("utoipa")]);
    let fn_name = parse_function(&item_fn, "utoipa");
    assert_eq!(fn_name, vec!["route_custom"]);

    let item_fn = function("route_custom", vec![bare("handler")]);
    let fn_name = parse_function(&item_fn, "handler");
    assert_eq!(fn_name, vec!["route_custom"]);
}

#[test]
fn function_without_annotation_reports_nothing() {
    let f = function("plain", vec![]);
    assert!(!should_parse_fn(&f));
    assert!(!is_ignored(&f));
    assert_eq!(parse_function(&f, "op"), Vec::<String>::new());
}

#[test]
fn function_without_matching_annotation_reports_nothing() {
    let f = function("other", vec![bare("inline"), bare("test")]);
    assert!(should_parse_fn(&f));
    assert_eq!(parse_function(&f, "op"), Vec::<String>::new());
}

#[test]
fn function_reports_once_per_matching_annotation() {
    let f = function(
        "get_user",
        vec![bare("op"), bare("inline"), bare("op"), list("op", "get, path = \"/u\""), bare("doc")],
    );
    assert_eq!(parse_function(&f, "op"), vec!["get_user", "get_user", "get_user"]);
}

#[test]
fn function_marker_matches_any_segment() {
    let f = function("get_user", vec![dotted(&["utoipa", "path"])]);
    assert_eq!(parse_function(&f, "path"), vec!["get_user"]);
    assert_eq!(parse_function(&f, "utoipa"), vec!["get_user"]);
    assert_eq!(parse_function(&f, "utoipa::path"), Vec::<String>::new());
}

#[test]
fn function_marker_matches_behind_leading_separator() {
    let f = function("get_user", vec![Annotation { name: rooted(&["op"]), list: None }]);
    assert_eq!(parse_function(&f, "op"), vec!["get_user"]);
}

#[test]
fn ignored_function_reports_nothing() {
    let f = function("hidden", vec![bare("op"), bare("utoipa_ignore"), bare("op")]);
    assert!(is_ignored(&f));
    assert!(!should_parse_fn(&f));
    assert_eq!(parse_function(&f, "op"), Vec::<String>::new());
}

#[test]
fn ignore_marker_must_be_the_whole_name() {
    let two = function("a", vec![dotted(&["utoipa", "utoipa_ignore"]), bare("op")]);
    assert!(!is_ignored(&two));
    assert_eq!(parse_function(&two, "op"), vec!["a"]);

    let global = function("b", vec![Annotation { name: rooted(&["utoipa_ignore"]), list: None }]);
    assert!(!is_ignored(&global));

    let with_list = function("c", vec![list("utoipa_ignore", "x")]);
    assert!(is_ignored(&with_list));
}

#[test]
fn ignore_marker_is_found_anywhere() {
    assert!(has_ignore_marker(&vec![bare("a"), bare("b"), bare("utoipa_ignore")]));
    assert!(has_ignore_marker(&vec![bare("utoipa_ignore"), bare("b")]));
    assert!(!has_ignore_marker(&vec![bare("a"), bare("utoipa_ignored")]));
    assert!(!has_ignore_marker(&vec![]));
}

#[test]
fn builtin_model_capability_gives_a_model() {
    let out = parse_from_attr(&vec![list("derive", "utoipa::ToSchema")], user(), 0, &defaults());
    assert_eq!(out, Ok(vec![DiscoverType::Model(user())]));
}

#[test]
fn builtin_response_capability_gives_a_response() {
    let out = parse_from_attr(&vec![list("derive", "utoipa::ToResponse")], user(), 0, &defaults());
    assert_eq!(out, Ok(vec![DiscoverType::Response(user())]));
}

#[test]
fn other_builtin_capability_gives_nothing() {
    let out = parse_from_attr(&vec![list("derive", "utoipa::IntoParams")], user(), 0, &defaults());
    assert_eq!(out, Ok(vec![]));
}

#[test]
fn builtin_names_alone_are_not_recognised() {
    let out = parse_from_attr(&vec![list("derive", "ToSchema, ToResponse")], user(), 0, &defaults());
    assert_eq!(out, Ok(vec![]));
}

#[test]
fn builtin_capability_behind_leading_separator() {
    let out = parse_from_attr(&vec![list("derive", "::utoipa::ToSchema")], user(), 0, &defaults());
    assert_eq!(out, Ok(vec![DiscoverType::Model(user())]));
}

#[test]
fn configured_markers_are_recognised() {
    let out = parse_from_attr(
        &vec![list("derive", "Debug, MySchema, Clone, MyResponse")],
        user(),
        0,
        &defaults(),
    );
    assert_eq!(out, Ok(vec![DiscoverType::Model(user()), DiscoverType::Response(user())]));
}

#[test]
fn configured_marker_must_be_the_whole_name() {
    let out = parse_from_attr(
        &vec![list("derive", "other::MySchema, ::MyResponse, a::b::MySchema")],
        user(),
        0,
        &defaults(),
    );
    assert_eq!(out, Ok(vec![]));
}

#[test]
fn one_name_may_be_both_model_and_response() {
    let both = params("op", "Both", "Both");
    let out = parse_from_attr(&vec![list("derive", "Both")], user(), 0, &both);
    assert_eq!(out, Ok(vec![DiscoverType::Model(user()), DiscoverType::Response(user())]));
}

#[test]
fn markers_are_not_merged() {
    let out = parse_from_attr(
        &vec![
            list("derive", "utoipa::ToSchema, MySchema,"),
            bare("allow"),
            list("derive", "utoipa::ToResponse, utoipa::ToSchema"),
        ],
        user(),
        0,
        &defaults(),
    );
    assert_eq!(
        out,
        Ok(vec![
            DiscoverType::Model(user()),
            DiscoverType::Model(user()),
            DiscoverType::Response(user()),
            DiscoverType::Model(user()),
        ])
    );
}

#[test]
fn nested_names_may_carry_arguments() {
    let out = parse_from_attr(
        &vec![list("derive", "MySchema(inline), MyResponse = 3, utoipa::ToSchema[x]")],
        user(),
        0,
        &defaults(),
    );
    assert_eq!(
        out,
        Ok(vec![
            DiscoverType::Model(user()),
            DiscoverType::Response(user()),
            DiscoverType::Model(user()),
        ])
    );
}

#[test]
fn empty_list_gives_nothing() {
    let out = parse_from_attr(&vec![list("derive", "")], user(), 0, &defaults());
    assert_eq!(out, Ok(vec![]));
}

#[test]
fn annotations_that_are_not_composite_give_nothing() {
    let out = parse_from_attr(
        &vec![bare("MySchema"), list("schema", "utoipa::ToSchema"), dotted(&["utoipa", "ToSchema"])],
        user(),
        0,
        &defaults(),
    );
    assert_eq!(out, Ok(vec![]));
}

#[test]
fn composite_marker_must_be_the_whole_name() {
    let annotation = Annotation {
        name: name(&["core", "derive"]),
        list: Some("utoipa::ToSchema".to_string()),
    };
    assert_eq!(parse_from_attr(&vec![annotation], user(), 0, &defaults()), Ok(vec![]));
}

#[test]
fn generic_type_gives_nothing() {
    let attrs = vec![list("derive", "utoipa::ToSchema, MyResponse")];
    assert_eq!(parse_from_attr(&attrs, user(), 1, &defaults()), Ok(vec![]));
    assert_eq!(parse_from_attr(&attrs, user(), 3, &defaults()), Ok(vec![]));
}

#[test]
fn generic_type_is_not_parsed() {
    let attrs = vec![list("derive", "not a list")];
    assert_eq!(parse_from_attr(&attrs, user(), 1, &defaults()), Ok(vec![]));
}

#[test]
fn ignored_type_gives_nothing() {
    let after = vec![list("derive", "utoipa::ToSchema"), bare("utoipa_ignore")];
    assert_eq!(parse_from_attr(&after, user(), 0, &defaults()), Ok(vec![]));
    let before = vec![bare("utoipa_ignore"), list("derive", "utoipa::ToSchema")];
    assert_eq!(parse_from_attr(&before, user(), 0, &defaults()), Ok(vec![]));
}

#[test]
fn ignored_type_is_not_parsed() {
    let attrs = vec![list("derive", "not a list"), bare("utoipa_ignore")];
    assert_eq!(parse_from_attr(&attrs, user(), 0, &defaults()), Ok(vec![]));
}

#[test]
fn malformed_list_is_a_failure() {
    for tokens in ["not a list", "1 + 2", "utoipa::", "a,,b", "(", "MySchema; MyResponse"] {
        let out = parse_from_attr(&vec![list("derive", tokens)], user(), 0, &defaults());
        assert_eq!(out, Err(DiscoveryError::AnnotationSyntax { declaration: user() }), "{}", tokens);
    }
}

#[test]
fn composite_marker_without_list_is_a_failure() {
    let out = parse_from_attr(&vec![bare("derive")], user(), 0, &defaults());
    assert_eq!(out, Err(DiscoveryError::AnnotationSyntax { declaration: user() }));
}

#[test]
fn failure_wins_over_earlier_entries() {
    let attrs = vec![list("derive", "utoipa::ToSchema"), list("derive", "a b")];
    let out = parse_from_attr(&attrs, user(), 0, &defaults());
    assert_eq!(out, Err(DiscoveryError::AnnotationSyntax { declaration: user() }));
}

#[test]
fn classify_markers_keeps_the_order_of_the_list() {
    let markers = vec![
        name(&["MyResponse"]),
        name(&["utoipa", "ToSchema"]),
        name(&["Debug"]),
        name(&["utoipa", "ToResponse"]),
        name(&["MySchema"]),
        name(&["utoipa", "ToSchema", "Extra"]),
        name(&["other", "ToSchema"]),
    ];
    assert_eq!(
        classify_markers(&markers, &user(), &defaults()),
        vec![
            DiscoverType::Response(user()),
            DiscoverType::Model(user()),
            DiscoverType::Response(user()),
            DiscoverType::Model(user()),
        ]
    );
}

#[test]
fn classify_markers_of_an_empty_list() {
    assert_eq!(classify_markers(&vec![], &user(), &defaults()), vec![]);
}

#[test]
fn builtin_capability_wins_over_configuration() {
    let odd = params("op", "utoipa", "ToSchema");
    let markers = vec![name(&["utoipa", "ToSchema"]), name(&["utoipa"]), name(&["ToSchema"])];
    assert_eq!(
        classify_markers(&markers, &user(), &odd),
        vec![
            DiscoverType::Model(user()),
            DiscoverType::Model(user()),
            DiscoverType::Response(user()),
        ]
    );
}

fn block(capability: Option<MarkerName>, target: &str) -> ImplBlock {
    ImplBlock { annotations: vec![], capability, target: target.to_string() }
}

fn annotated_block(annotations: Vec<Annotation>, capability: &[&str]) -> ImplBlock {
    ImplBlock { annotations, capability: Some(name(capability)), target: "Widget".to_string() }
}

#[test]
fn ignored_impl_gives_nothing() {
    let model = annotated_block(vec![bare("utoipa_ignore")], &["MySchema"]);
    assert_eq!(parse_from_impl(&model, &path(&["api"]), &defaults()), vec![]);
    let response = annotated_block(vec![bare("doc"), bare("utoipa_ignore")], &["MyResponse"]);
    assert_eq!(parse_from_impl(&response, &path(&["api"]), &defaults()), vec![]);
}

#[test]
fn impl_with_other_annotations_is_reported() {
    let im = annotated_block(vec![bare("doc"), dotted(&["utoipa", "utoipa_ignore"])], &["MySchema"]);
    assert_eq!(
        parse_from_impl(&im, &path(&["api"]), &defaults()),
        vec![DiscoverType::CustomModelImpl(path(&["api", "Widget"]))]
    );
}

#[test]
fn lists_are_read_in_order() {
    let attrs = vec![
        bare("doc"),
        list("derive", "Debug, utoipa::ToSchema"),
        list("schema", "not a list"),
        list("derive", "::a::b,"),
    ];
    assert_eq!(
        read_composite_lists(&attrs),
        vec![
            None,
            Some(vec![name(&["Debug"]), name(&["utoipa", "ToSchema"])]),
            None,
            Some(vec![rooted(&["a", "b"])]),
        ]
    );
    assert_eq!(read_composite_lists(&vec![]), vec![]);
}

#[test]
fn reading_ends_at_the_first_failure() {
    let attrs = vec![list("derive", "A"), list("derive", "a b"), list("derive", "C")];
    assert_eq!(read_composite_lists(&attrs), vec![Some(vec![name(&["A"])]), None, None]);
    let unlisted = vec![bare("derive"), list("derive", "C")];
    assert_eq!(read_composite_lists(&unlisted), vec![None, None]);
}

#[test]
fn parsed_lists_are_classified() {
    let attrs = vec![bare("doc"), list("derive", "x"), list("derive", "y")];
    let parsed = vec![
        Some(vec![name(&["MyResponse"])]),
        Some(vec![name(&["utoipa", "ToSchema"]), name(&["Debug"])]),
        Some(vec![name(&["MyResponse"]), name(&["MySchema"])]),
    ];
    assert_eq!(
        classify_parsed(&attrs, &parsed, user(), 0, &defaults()),
        Ok(vec![
            DiscoverType::Model(user()),
            DiscoverType::Response(user()),
            DiscoverType::Model(user()),
        ])
    );
    assert_eq!(classify_parsed(&attrs, &parsed, user(), 2, &defaults()), Ok(vec![]));
}

#[test]
fn parsed_lists_of_an_ignored_type() {
    let attrs = vec![list("derive", "x"), bare("utoipa_ignore")];
    let parsed = vec![Some(vec![name(&["MySchema"])]), None];
    assert_eq!(classify_parsed(&attrs, &parsed, user(), 0, &defaults()), Ok(vec![]));
}

#[test]
fn missing_outcome_is_a_failure() {
    let failure = Err(DiscoveryError::AnnotationSyntax { declaration: user() });
    let attrs = vec![list("derive", "x"), list("derive", "y")];
    let second_failed = vec![Some(vec![name(&["MySchema"])]), None];
    assert_eq!(classify_parsed(&attrs, &second_failed, user(), 0, &defaults()), failure);
    let too_short = vec![Some(vec![name(&["MySchema"])])];
    assert_eq!(classify_parsed(&attrs, &too_short, user(), 0, &defaults()), failure);
    let unlisted = vec![bare("derive")];
    let made_up = vec![Some(vec![name(&["MySchema"])])];
    assert_eq!(classify_parsed(&unlisted, &made_up, user(), 0, &defaults()), failure);
}

#[test]
fn impl_of_model_marker() {
    let im = block(Some(name(&["MySchema"])), "Widget");
    assert_eq!(
        parse_from_impl(&im, &path(&["api", "shapes"]), &defaults()),
        vec![DiscoverType::CustomModelImpl(path(&["api", "shapes", "Widget"]))]
    );
}

#[test]
fn impl_of_response_marker() {
    let im = block(Some(name(&["MyResponse"])), "Widget");
    assert_eq!(
        parse_from_impl(&im, &path(&["api", "shapes"]), &defaults()),
        vec![DiscoverType::CustomResponseImpl(path(&["api", "shapes", "Widget"]))]
    );
}

#[test]
fn impl_is_known_by_its_last_segment() {
    let im = block(Some(rooted(&["some", "where", "MySchema"])), "Widget");
    assert_eq!(
        parse_from_impl(&im, &path(&["api"]), &defaults()),
        vec![DiscoverType::CustomModelImpl(path(&["api", "Widget"]))]
    );
    let first = block(Some(name(&["MySchema", "Inner"])), "Widget");
    assert_eq!(parse_from_impl(&first, &path(&["api"]), &defaults()), vec![]);
}

#[test]
fn impl_of_unrecognised_capability_gives_nothing() {
    let im = block(Some(name(&["Display"])), "Widget");
    assert_eq!(parse_from_impl(&im, &path(&["api"]), &defaults()), vec![]);
    let builtin = block(Some(name(&["utoipa", "ToSchema"])), "Widget");
    assert_eq!(parse_from_impl(&builtin, &path(&["api"]), &defaults()), vec![]);
}

#[test]
fn inherent_impl_gives_nothing() {
    assert_eq!(parse_from_impl(&block(None, "Widget"), &path(&["api"]), &defaults()), vec![]);
    let nameless = block(Some(name(&[])), "Widget");
    assert_eq!(parse_from_impl(&nameless, &path(&["api"]), &defaults()), vec![]);
}

#[test]
fn impl_model_marker_is_tried_first() {
    let both = params("op", "Both", "Both");
    let im = block(Some(name(&["Both"])), "Widget");
    assert_eq!(
        parse_from_impl(&im, &path(&["api"]), &both),
        vec![DiscoverType::CustomModelImpl(path(&["api", "Widget"]))]
    );
}
