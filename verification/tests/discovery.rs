use utoipauto_core::discover::{aggregate_entries, collect_entries, discover_from_file};
use utoipauto_core::entry::{DiscoverType, DiscoveryError, DiscoveryResult};
use utoipauto_core::marker::{MarkerName, Parameters};
use utoipauto_core::path::QualifiedPath;
use utoipauto_core::syntax::{
    Annotation, Declaration, FunctionDecl, ImplBlock, SourceFile, TypeDecl,
};
use utoipauto_core::walk::{function_operations, parse_module_items};

fn name(segments: &[&str]) -> MarkerName {
    MarkerName { leading_colon: false, segments: segments.iter().map(|s| s.to_string()).collect() }
}

fn bare(ident: &str) -> Annotation {
    Annotation { name: name(&[ident]), list: None }
}

fn list(ident: &str, tokens: &str) -> Annotation {
    Annotation { name: name(&[ident]), list: Some(tokens.to_string()) }
}

fn path(segments: &[&str]) -> QualifiedPath {
    QualifiedPath::new(segments.iter().map(|s| s.to_string()).collect())
}

fn params() -> Parameters {
    Parameters {
        fn_attribute_name: "op".to_string(),
        schema_attribute_name: "ModelMarkerCapability".to_string(),
        response_attribute_name: "ResponseMarkerCapability".to_string(),
    }
}

fn function(ident: &str, annotations: Vec<Annotation>) -> Declaration {
    Declaration::Function(FunctionDecl { name: ident.to_string(), annotations })
}

fn structure(ident: &str, generics: usize, annotations: Vec<Annotation>) -> Declaration {
    Declaration::Struct(TypeDecl { name: ident.to_string(), generics, annotations })
}

fn enumeration(ident: &str, generics: usize, annotations: Vec<Annotation>) -> Declaration {
    Declaration::Enum(TypeDecl { name: ident.to_string(), generics, annotations })
}

fn implementation(capability: &[&str], target: &str) -> Declaration {
    annotated_implementation(vec![], capability, target)
}

fn annotated_implementation(
    annotations: Vec<Annotation>,
    capability: &[&str],
    target: &str,
) -> Declaration {
    Declaration::Implementation(
        ImplBlock { annotations, capability: Some(name(capability)), target: target.to_string() },
    )
}

fn namespace(ident: &str, content: Vec<Declaration>) -> Declaration {
    Declaration::Namespace { name: ident.to_string(), content: Some(content) }
}

fn file(root: &[&str], items: Vec<Declaration>) -> SourceFile {
    SourceFile { namespace: path(root), items }
}

fn run(files: Vec<SourceFile>) -> Result<DiscoveryResult, DiscoveryError> {
    discover_from_file("./src".to_string(), Some(files), &params())
}

fn texts(paths: &[QualifiedPath]) -> Vec<String> {
    paths.iter().map(|p| p.segments.join("::")).collect()
}

fn none() -> Vec<String> {
    Vec::new()
}

#[test]
fn function_in_a_namespace() {
    let items = vec![namespace("handlers", vec![function("get_user", vec![bare("op")])])];
    let found = run(vec![file(&["api"], items)]).unwrap();
    assert_eq!(texts(&found.operations), vec!["api::handlers::get_user"]);
    assert_eq!(texts(&found.models), none());
    assert_eq!(texts(&found.responses), none());
}

#[test]
fn type_with_builtin_model_capability() {
    let items = vec![
        namespace("handlers", vec![structure("User", 0, vec![list("derive", "utoipa::ToSchema")])]),
    ];
    let found = run(vec![file(&["api"], items)]).unwrap();
    assert_eq!(texts(&found.models), vec!["api::handlers::User"]);
    assert_eq!(texts(&found.operations), none());
    assert_eq!(texts(&found.responses), none());
}

#[test]
fn generic_type_is_left_out() {
    let items = vec![
        namespace("handlers", vec![structure("User", 1, vec![list("derive", "utoipa::ToSchema")])]),
    ];
    let found = run(vec![file(&["api"], items)]).unwrap();
    assert_eq!(texts(&found.models), none());
    assert_eq!(texts(&found.operations), none());
    assert_eq!(texts(&found.responses), none());
}

#[test]
fn function_with_the_marker_twice() {
    let items = vec![
        namespace("handlers", vec![function("get_user", vec![bare("op"), bare("op")])]),
    ];
    let found = run(vec![file(&["api"], items)]).unwrap();
    assert_eq!(
        texts(&found.operations),
        vec!["api::handlers::get_user", "api::handlers::get_user"]
    );
}

#[test]
fn implementation_of_the_model_marker() {
    let items = vec![implementation(&["ModelMarkerCapability"], "Widget")];
    let found = run(vec![file(&["api", "shapes"], items)]).unwrap();
    assert!(texts(&found.models).contains(&"api::shapes::Widget".to_string()));
    assert_eq!(texts(&found.models), vec!["api::shapes::Widget"]);
    assert_eq!(texts(&found.responses), none());
}

#[test]
fn implementation_of_the_response_marker() {
    let items = vec![implementation(&["ResponseMarkerCapability"], "Widget")];
    let found = run(vec![file(&["api", "shapes"], items)]).unwrap();
    assert_eq!(texts(&found.responses), vec!["api::shapes::Widget"]);
    assert_eq!(texts(&found.models), none());
}

#[test]
fn one_operation_per_matching_annotation() {
    let annotations = vec![bare("op"), bare("doc"), bare("op"), bare("inline"), bare("op")];
    let found = run(vec![file(&["api"], vec![function("f", annotations)])]).unwrap();
    assert_eq!(texts(&found.operations), vec!["api::f", "api::f", "api::f"]);
}

#[test]
fn ignored_function_is_left_out() {
    let annotations = vec![bare("op"), bare("utoipa_ignore")];
    let found = run(vec![file(&["api"], vec![function("f", annotations)])]).unwrap();
    assert_eq!(texts(&found.operations), none());
}

#[test]
fn ignored_type_is_left_out() {
    let annotations = vec![list("derive", "utoipa::ToSchema, utoipa::ToResponse"), bare("utoipa_ignore")];
    let found = run(vec![file(&["api"], vec![enumeration("Kind", 0, annotations)])]).unwrap();
    assert_eq!(texts(&found.models), none());
    assert_eq!(texts(&found.responses), none());
}

#[test]
fn generic_enum_is_left_out() {
    let annotations = vec![list("derive", "utoipa::ToSchema, utoipa::ToResponse")];
    let found = run(vec![file(&["api"], vec![enumeration("Kind", 2, annotations)])]).unwrap();
    assert_eq!(texts(&found.models), none());
    assert_eq!(texts(&found.responses), none());
}

#[test]
fn ignored_implementation_is_left_out() {
    let items = vec![
        annotated_implementation(vec![bare("utoipa_ignore")], &["ModelMarkerCapability"], "Widget"),
        annotated_implementation(
            vec![bare("doc"), bare("utoipa_ignore")],
            &["ResponseMarkerCapability"],
            "Widget",
        ),
        annotated_implementation(vec![bare("doc")], &["ModelMarkerCapability"], "Shown"),
    ];
    let found = run(vec![file(&["api", "shapes"], items)]).unwrap();
    assert_eq!(texts(&found.models), vec!["api::shapes::Shown"]);
    assert_eq!(texts(&found.responses), none());
    assert_eq!(texts(&found.operations), none());
}

#[test]
fn unrecognised_implementation_is_left_out() {
    let items = vec![
        implementation(&["Display"], "Widget"),
        Declaration::Implementation(
            ImplBlock { annotations: vec![], capability: None, target: "Widget".to_string() },
        ),
    ];
    let found = run(vec![file(&["api"], items)]).unwrap();
    assert_eq!(texts(&found.operations), none());
    assert_eq!(texts(&found.models), none());
    assert_eq!(texts(&found.responses), none());
}

#[test]
fn path_follows_the_nesting() {
    let deep = namespace(
        "a",
        vec![
            function("top", vec![bare("op")]),
            namespace(
                "b",
                vec![
                    namespace("c", vec![structure("Deep", 0, vec![list("derive", "utoipa::ToSchema")])]),
                    implementation(&["ResponseMarkerCapability"], "Mid"),
                ],
            ),
        ],
    );
    let found = run(vec![file(&["root"], vec![deep])]).unwrap();
    assert_eq!(texts(&found.operations), vec!["root::a::top"]);
    assert_eq!(texts(&found.models), vec!["root::a::b::c::Deep"]);
    assert_eq!(texts(&found.responses), vec!["root::a::b::Mid"]);
}

#[test]
fn namespace_without_content_gives_nothing() {
    let items = vec![
        Declaration::Namespace { name: "elsewhere".to_string(), content: None },
        namespace("empty", vec![]),
        Declaration::Other,
    ];
    let found = parse_module_items(&path(&["api"]), &items, &params());
    assert_eq!(found, Ok(vec![]));
}

#[test]
fn entries_come_in_declaration_order() {
    let items = vec![
        structure("A", 0, vec![list("derive", "utoipa::ToResponse, utoipa::ToSchema")]),
        function("f", vec![bare("op")]),
        namespace(
            "inner",
            vec![function("g", vec![bare("op")]), implementation(&["ModelMarkerCapability"], "B")],
        ),
        Declaration::Other,
        function("h", vec![bare("op")]),
    ];
    let found = parse_module_items(&path(&["api"]), &items, &params());
    assert_eq!(
        found,
        Ok(vec![
            DiscoverType::Response(path(&["api", "A"])),
            DiscoverType::Model(path(&["api", "A"])),
            DiscoverType::Fn(path(&["api", "f"])),
            DiscoverType::Fn(path(&["api", "inner", "g"])),
            DiscoverType::CustomModelImpl(path(&["api", "inner", "B"])),
            DiscoverType::Fn(path(&["api", "h"])),
        ])
    );
}

#[test]
fn walk_of_nothing() {
    assert_eq!(parse_module_items(&path(&["api"]), &vec![], &params()), Ok(vec![]));
}

#[test]
fn operations_of_one_function() {
    let f = FunctionDecl { name: "f".to_string(), annotations: vec![bare("op"), bare("op")] };
    assert_eq!(
        function_operations(&f, &path(&["api", "v1"]), &params()),
        vec![DiscoverType::Fn(path(&["api", "v1", "f"])), DiscoverType::Fn(path(&["api", "v1", "f"]))]
    );
    let quiet = FunctionDecl { name: "f".to_string(), annotations: vec![bare("doc")] };
    assert_eq!(function_operations(&quiet, &path(&["api"]), &params()), vec![]);
}

#[test]
fn files_come_in_their_order() {
    let first = file(&["api", "b"], vec![function("late", vec![bare("op")])]);
    let second = file(&["api", "a"], vec![function("early", vec![bare("op")])]);
    let found = run(vec![first, second]).unwrap();
    assert_eq!(texts(&found.operations), vec!["api::b::late", "api::a::early"]);
}

#[test]
fn same_declaration_in_two_files_is_reported_twice() {
    let first = file(&["api"], vec![structure("User", 0, vec![list("derive", "utoipa::ToSchema")])]);
    let second = file(&["api"], vec![structure("User", 0, vec![list("derive", "utoipa::ToSchema")])]);
    let found = run(vec![first, second]).unwrap();
    assert_eq!(texts(&found.models), vec!["api::User", "api::User"]);
}

#[test]
fn run_over_no_files() {
    let found = run(vec![]).unwrap();
    assert_eq!(found, DiscoveryResult { operations: vec![], models: vec![], responses: vec![] });
}

#[test]
fn collection_failure_names_the_path() {
    let out = discover_from_file("./missing".to_string(), None, &params());
    assert_eq!(out, Err(DiscoveryError::CollectionFailure { path: "./missing".to_string() }));
}

#[test]
fn malformed_annotation_ends_the_run() {
    let items = vec![
        function("f", vec![bare("op")]),
        namespace("inner", vec![structure("Bad", 0, vec![list("derive", "a b")])]),
        function("g", vec![bare("op")]),
    ];
    let out = run(vec![file(&["api"], items)]);
    assert_eq!(
        out,
        Err(DiscoveryError::AnnotationSyntax { declaration: path(&["api", "inner", "Bad"]) })
    );
}

#[test]
fn first_malformed_annotation_is_reported() {
    let first = file(&["api", "a"], vec![function("f", vec![bare("op")])]);
    let second = file(
        &["api", "b"],
        vec![
            enumeration("One", 0, vec![bare("derive")]),
            structure("Two", 0, vec![list("derive", "1")]),
        ],
    );
    let third = file(&["api", "c"], vec![structure("Three", 0, vec![list("derive", "2")])]);
    let files = vec![first, second, third];
    assert_eq!(
        collect_entries(&files, &params()),
        Err(DiscoveryError::AnnotationSyntax { declaration: path(&["api", "b", "One"]) })
    );
}

#[test]
fn collect_entries_keeps_every_entry() {
    let first = file(
        &["api"],
        vec![function("f", vec![bare("op")]), implementation(&["ResponseMarkerCapability"], "R")],
    );
    let second = file(&["api", "m"], vec![structure("S", 0, vec![list("derive", "ModelMarkerCapability")])]);
    assert_eq!(
        collect_entries(&vec![first, second], &params()),
        Ok(vec![
            DiscoverType::Fn(path(&["api", "f"])),
            DiscoverType::CustomResponseImpl(path(&["api", "R"])),
            DiscoverType::Model(path(&["api", "m", "S"])),
        ])
    );
}

#[test]
fn fold_sorts_by_kind_and_keeps_order() {
    let entries = vec![
        DiscoverType::CustomResponseImpl(path(&["r1"])),
        DiscoverType::Fn(path(&["f1"])),
        DiscoverType::Model(path(&["m1"])),
        DiscoverType::Response(path(&["r2"])),
        DiscoverType::CustomModelImpl(path(&["m2"])),
        DiscoverType::Fn(path(&["f2"])),
        DiscoverType::Model(path(&["m1"])),
        DiscoverType::Fn(path(&["f1"])),
    ];
    let found = aggregate_entries(entries);
    assert_eq!(texts(&found.operations), vec!["f1", "f2", "f1"]);
    assert_eq!(texts(&found.models), vec!["m1", "m2", "m1"]);
    assert_eq!(texts(&found.responses), vec!["r1", "r2"]);
}

#[test]
fn fold_of_nothing() {
    let found = aggregate_entries(vec![]);
    assert_eq!(found, DiscoveryResult { operations: vec![], models: vec![], responses: vec![] });
}

#[test]
fn type_may_be_model_and_response() {
    let annotations = vec![list("derive", "Debug, utoipa::ToSchema, utoipa::ToResponse")];
    let found = run(vec![file(&["api"], vec![structure("Both", 0, annotations)])]).unwrap();
    assert_eq!(texts(&found.models), vec!["api::Both"]);
    assert_eq!(texts(&found.responses), vec!["api::Both"]);
}
