use pluto::stages::flatten_stage_hierarchy;
use pluto::parser::ast::StageDecl;
use pluto::parser::ast::StageMethod;
use pluto::parser::ast::RequiredMethod;
use pluto::parser::ast::Field;
use pluto::parser::ast::Lifecycle;
use pluto::parser::ast::TypeExpr;
use pluto::diagnostics::CompileError;
use pluto::span::Span;
use pluto::span::Spanned;
use uuid::Uuid;

fn name(s: &str, start: usize) -> Spanned<String> {
    Spanned::new(s.to_string(), Span::new(start, start + s.len()))
}

fn field(n: &str, start: usize) -> Field {
    Field {
        id: Uuid::new_v4(),
        name: name(n, start),
        ty: Spanned::new(TypeExpr::Named("Database".to_string()), Span::dummy()),
        is_injected: true,
        is_ambient: false,
    }
}

fn method(n: &str, is_override: bool, key: usize) -> Spanned<StageMethod> {
    Spanned::new(StageMethod { name: name(n, key * 10), is_override, key }, Span::dummy())
}

fn required(n: &str) -> Spanned<RequiredMethod> {
    Spanned::new(
        RequiredMethod { id: Uuid::new_v4(), name: name(n, 0), params: vec![], return_type: None, is_pub: false },
        Span::dummy(),
    )
}

fn stage(n: &str, parent: Option<&str>) -> Spanned<StageDecl> {
    Spanned::new(
        StageDecl {
            id: Uuid::new_v4(),
            name: name(n, 0),
            parent: parent.map(|p| name(p, 100)),
            inject_fields: vec![],
            ambient_types: vec![],
            lifecycle_overrides: vec![],
            required_methods: vec![],
            methods: vec![],
        },
        Span::dummy(),
    )
}

fn method_names(s: &Spanned<StageDecl>) -> Vec<String> {
    s.node.methods.iter().map(|m| m.node.name.node.clone()).collect()
}

fn type_error(r: Result<(), CompileError>) -> (String, Span) {
    match r {
        Err(CompileError::Type { msg, span }) => (msg, span),
        other => panic!("expected a type error, got {:?}", other),
    }
}

#[test]
fn no_stages_is_ok() {
    let mut stages: Vec<Spanned<StageDecl>> = vec![];
    assert!(flatten_stage_hierarchy(&mut stages).is_ok());
    assert!(stages.is_empty());
}

#[test]
fn stage_without_parent_is_kept_unchanged() {
    let mut s = stage("Api", None);
    s.node.methods.push(method("main", false, 1));
    s.node.inject_fields.push(field("db", 5));
    let mut stages = vec![s];
    assert!(flatten_stage_hierarchy(&mut stages).is_ok());
    assert_eq!(stages.len(), 1);
    assert_eq!(method_names(&stages[0]), vec!["main".to_string()]);
    assert_eq!(stages[0].node.inject_fields.len(), 1);
}

#[test]
fn unknown_parent_is_reported() {
    let mut stages = vec![stage("Api", Some("Server"))];
    let (msg, span) = type_error(flatten_stage_hierarchy(&mut stages));
    assert_eq!(msg, "stage 'Api' inherits from unknown stage 'Server'");
    assert_eq!(span, Span::new(100, 106));
    assert_eq!(stages.len(), 1);
}

#[test]
fn circular_inheritance_is_reported() {
    let mut stages = vec![stage("A", Some("B")), stage("B", Some("A"))];
    let (msg, _) = type_error(flatten_stage_hierarchy(&mut stages));
    assert_eq!(msg, "circular stage inheritance: 'A' eventually inherits from itself");
    assert_eq!(stages.len(), 2);
}

#[test]
fn self_inheritance_is_circular() {
    let mut stages = vec![stage("A", Some("A"))];
    let (msg, _) = type_error(flatten_stage_hierarchy(&mut stages));
    assert_eq!(msg, "circular stage inheritance: 'A' eventually inherits from itself");
}

#[test]
fn child_receives_parent_members_and_abstract_parent_is_dropped() {
    let mut base = stage("Server", None);
    base.node.inject_fields.push(field("db", 1));
    base.node.ambient_types.push(name("Logger", 2));
    base.node.lifecycle_overrides.push((name("Cache", 3), Lifecycle::Scoped));
    base.node.required_methods.push(required("handle"));
    base.node.methods.push(method("start", false, 1));
    let mut api = stage("Api", Some("Server"));
    api.node.inject_fields.push(field("cache", 4));
    api.node.ambient_types.push(name("Logger", 5));
    api.node.ambient_types.push(name("Tracer", 6));
    api.node.methods.push(method("handle", true, 2));
    let mut stages = vec![base, api];
    assert!(flatten_stage_hierarchy(&mut stages).is_ok());
    assert_eq!(stages.len(), 1);
    let api = &stages[0];
    assert_eq!(api.node.name.node, "Api");
    let fields: Vec<String> = api.node.inject_fields.iter().map(|f| f.name.node.clone()).collect();
    assert_eq!(fields, vec!["db".to_string(), "cache".to_string()]);
    let ambient: Vec<String> = api.node.ambient_types.iter().map(|a| a.node.clone()).collect();
    assert_eq!(ambient, vec!["Logger".to_string(), "Tracer".to_string()]);
    assert_eq!(api.node.ambient_types[0].span, Span::new(2, 8));
    assert_eq!(api.node.lifecycle_overrides.len(), 1);
    assert_eq!(api.node.lifecycle_overrides[0].1, Lifecycle::Scoped);
    assert!(api.node.required_methods.is_empty());
    assert_eq!(method_names(api), vec!["start".to_string(), "handle".to_string()]);
    assert_eq!(api.node.methods[1].node.key, 2);
}

#[test]
fn stage_missing_a_required_method_is_dropped() {
    let mut base = stage("Server", None);
    base.node.required_methods.push(required("handle"));
    let child = stage("Api", Some("Server"));
    let mut stages = vec![base, child];
    assert!(flatten_stage_hierarchy(&mut stages).is_ok());
    assert!(stages.is_empty());
}

#[test]
fn override_replaces_parent_method() {
    let mut base = stage("Server", None);
    base.node.methods.push(method("start", false, 1));
    base.node.methods.push(method("stop", false, 2));
    let mut api = stage("Api", Some("Server"));
    api.node.methods.push(method("start", true, 3));
    let mut stages = vec![base, api];
    assert!(flatten_stage_hierarchy(&mut stages).is_ok());
    assert_eq!(stages.len(), 2);
    let api = &stages[1];
    assert_eq!(method_names(api), vec!["start".to_string(), "stop".to_string()]);
    assert_eq!(api.node.methods[0].node.key, 3);
    assert_eq!(api.node.methods[1].node.key, 2);
    // The parent, with no parent of its own, is left as it was.
    assert_eq!(stages[0].node.methods.len(), 2);
}

#[test]
fn override_of_a_required_method_is_allowed() {
    let mut base = stage("Server", None);
    base.node.required_methods.push(required("handle"));
    let mut api = stage("Api", Some("Server"));
    api.node.methods.push(method("handle", true, 7));
    let mut stages = vec![base, api];
    assert!(flatten_stage_hierarchy(&mut stages).is_ok());
    assert_eq!(stages.len(), 1);
    assert_eq!(method_names(&stages[0]), vec!["handle".to_string()]);
}

#[test]
fn override_without_parent_method_is_reported() {
    let base = stage("Server", None);
    let mut api = stage("Api", Some("Server"));
    api.node.methods.push(method("start", true, 3));
    let mut stages = vec![base, api];
    let (msg, span) = type_error(flatten_stage_hierarchy(&mut stages));
    assert_eq!(msg, "'override fn start' in stage 'Api' does not override any method from parent stage");
    assert_eq!(span, Span::new(30, 35));
}

#[test]
fn shadowing_a_parent_method_is_reported() {
    let mut base = stage("Server", None);
    base.node.methods.push(method("start", false, 1));
    let mut api = stage("Api", Some("Server"));
    api.node.methods.push(method("start", false, 3));
    let mut stages = vec![base, api];
    let (msg, _) = type_error(flatten_stage_hierarchy(&mut stages));
    assert_eq!(msg, "method 'start' in stage 'Api' shadows a parent method \u{2014} use 'override fn' to override");
}

#[test]
fn duplicate_injected_field_is_reported() {
    let mut base = stage("Server", None);
    base.node.inject_fields.push(field("db", 1));
    let mut api = stage("Api", Some("Server"));
    api.node.inject_fields.push(field("db", 40));
    let mut stages = vec![base, api];
    let (msg, span) = type_error(flatten_stage_hierarchy(&mut stages));
    assert_eq!(msg, "duplicate injected field 'db' in stage inheritance chain for 'Api'");
    assert_eq!(span, Span::new(40, 42));
}

#[test]
fn failure_leaves_earlier_stages_flattened() {
    let mut base = stage("Server", None);
    base.node.inject_fields.push(field("db", 1));
    let a = stage("A", Some("Server"));
    let mut b = stage("B", Some("Server"));
    b.node.inject_fields.push(field("db", 40));
    let mut stages = vec![base, a, b];
    assert!(flatten_stage_hierarchy(&mut stages).is_err());
    assert_eq!(stages.len(), 3);
    assert_eq!(stages[1].node.inject_fields.len(), 1);
    assert_eq!(stages[2].node.inject_fields.len(), 1);
    assert_eq!(stages[2].node.inject_fields[0].name.span, Span::new(40, 42));
}

#[test]
fn grandchild_gathers_the_chain_root_first() {
    let mut root = stage("Root", None);
    root.node.inject_fields.push(field("a", 1));
    root.node.methods.push(method("one", false, 1));
    let mut mid = stage("Mid", Some("Root"));
    mid.node.inject_fields.push(field("b", 2));
    mid.node.methods.push(method("two", false, 2));
    let mut leaf = stage("Leaf", Some("Mid"));
    leaf.node.inject_fields.push(field("c", 3));
    leaf.node.methods.push(method("one", true, 3));
    let mut stages = vec![leaf, mid, root];
    assert!(flatten_stage_hierarchy(&mut stages).is_ok());
    assert_eq!(stages.len(), 3);
    let leaf = &stages[0];
    let fields: Vec<String> = leaf.node.inject_fields.iter().map(|f| f.name.node.clone()).collect();
    assert_eq!(fields, vec!["a".to_string(), "b".to_string(), "c".to_string()]);
    assert_eq!(method_names(leaf), vec!["one".to_string(), "two".to_string()]);
    assert_eq!(leaf.node.methods[0].node.key, 3);
    let mid = &stages[1];
    assert_eq!(mid.node.inject_fields.len(), 2);
}

#[test]
fn duplicate_methods_in_a_root_stage_do_not_fail() {
    let mut root = stage("Root", None);
    root.node.methods.push(method("go", false, 1));
    root.node.methods.push(method("go", false, 2));
    let child = stage("Child", Some("Root"));
    let mut stages = vec![root, child];
    assert!(flatten_stage_hierarchy(&mut stages).is_ok());
    let child = &stages[1];
    assert_eq!(method_names(child), vec!["go".to_string()]);
    assert_eq!(child.node.methods[0].node.key, 2);
}

#[test]
fn defining_a_required_method_without_override_is_shadowing() {
    let mut base = stage("Server", None);
    base.node.required_methods.push(required("handle"));
    let mut api = stage("Api", Some("Server"));
    api.node.methods.push(method("handle", false, 2));
    let mut stages = vec![base, api];
    let (msg, _) = type_error(flatten_stage_hierarchy(&mut stages));
    assert_eq!(msg, "method 'handle' in stage 'Api' shadows a parent method \u{2014} use 'override fn' to override");
}
