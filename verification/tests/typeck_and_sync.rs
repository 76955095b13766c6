use pluto::typeck::types::PlutoType;
use pluto::typeck::types::pluto_type_to_type_expr;
use pluto::typeck::env::TypeEnv;
use pluto::typeck::env::mangle_name;
use pluto::typeck::env::names_contain;
use pluto::monomorphize::type_expr_to_pluto_type;
use pluto::monomorphize::resolve_generic_te;
use pluto::monomorphize::substitute_in_type_expr;
use pluto::monomorphize::TypeBindings;
use pluto::sync::types_equal;
use pluto::parser::ast::TypeExpr;
use pluto::parser::ast::ImportDecl;
use pluto::parser::ast::Lifecycle;
use pluto::diagnostics::CompileError;
use pluto::span::Span;
use pluto::span::Spanned;

fn at<T>(node: T, start: usize) -> Spanned<T> {
    Spanned::new(node, Span::new(start, start + 1))
}

fn named(n: &str) -> TypeExpr {
    TypeExpr::Named(n.to_string())
}

#[test]
fn mangled_names() {
    assert_eq!(mangle_name("Box", &[]), "Box");
    assert_eq!(mangle_name("Box", &[PlutoType::Int]), "Box$int");
    assert_eq!(mangle_name("Pair", &[PlutoType::Int, PlutoType::String]), "Pair$int$string");
    assert_eq!(mangle_name("Wrap", &[PlutoType::Array(Box::new(PlutoType::Bool))]), "Wrap$[bool]");
}

#[test]
fn user_generic_resolves_to_mangled_class() {
    let env = TypeEnv::new();
    let te = TypeExpr::Generic { name: "Box".to_string(), type_args: vec![at(named("int"), 0)] };
    assert_eq!(type_expr_to_pluto_type(&te, &env).unwrap(), PlutoType::Class("Box$int".to_string()));
}

#[test]
fn named_types_by_kind() {
    let mut env = TypeEnv::new();
    env.enums.push("Color".to_string());
    env.traits.push("Show".to_string());
    env.classes.push("User".to_string());
    assert_eq!(type_expr_to_pluto_type(&named("Color"), &env).unwrap(), PlutoType::Enum("Color".to_string()));
    assert_eq!(type_expr_to_pluto_type(&named("Show"), &env).unwrap(), PlutoType::Trait("Show".to_string()));
    assert_eq!(type_expr_to_pluto_type(&named("User"), &env).unwrap(), PlutoType::Class("User".to_string()));
    assert_eq!(type_expr_to_pluto_type(&named("Unknown"), &env).unwrap(), PlutoType::Class("Unknown".to_string()));
    assert_eq!(type_expr_to_pluto_type(&named("bytes"), &env).unwrap(), PlutoType::Bytes);
    let q = TypeExpr::Qualified { module: "math".to_string(), name: "Vec2".to_string() };
    assert_eq!(type_expr_to_pluto_type(&q, &env).unwrap(), PlutoType::Class("math.Vec2".to_string()));
}

#[test]
fn type_roundtrip_through_type_expr() {
    let mut env = TypeEnv::new();
    env.enums.push("Color".to_string());
    let t = PlutoType::MapOf(
        Box::new(PlutoType::String),
        Box::new(PlutoType::Fn(vec![PlutoType::Enum("Color".to_string())], Box::new(PlutoType::Nullable(Box::new(PlutoType::Int))))),
    );
    let te = pluto_type_to_type_expr(&t);
    assert_eq!(type_expr_to_pluto_type(&te, &env).unwrap(), t);
}

#[test]
fn unknown_generic_is_an_error() {
    let mut te = TypeExpr::Generic { name: "Box".to_string(), type_args: vec![at(named("int"), 0)] };
    let mut env = TypeEnv::new();
    match resolve_generic_te(&mut te, &mut env) {
        Err(CompileError::Type { .. }) => {},
        other => panic!("unexpected {:?}", other),
    }
    assert!(env.classes.is_empty());
}

#[test]
fn known_generic_class_passes() {
    let mut te = TypeExpr::Generic { name: "Box".to_string(), type_args: vec![at(named("int"), 0)] };
    let mut env = TypeEnv::new();
    env.generic_classes.push("Box".to_string());
    assert!(resolve_generic_te(&mut te, &mut env).is_ok());
    assert_eq!(te, TypeExpr::Named("Box$int".to_string()));
}

#[test]
fn substitution_without_bindings_changes_nothing() {
    let original = TypeExpr::Fn {
        params: vec![Box::new(at(named("T"), 3))],
        return_type: Box::new(at(TypeExpr::Array(Box::new(at(named("U"), 9))), 8)),
    };
    let mut te = original.deep_clone();
    substitute_in_type_expr(&mut te, &TypeBindings::new());
    assert_eq!(te, original);
}

#[test]
fn types_equal_ignores_spans() {
    let a = at(TypeExpr::Array(Box::new(at(named("int"), 1))), 0);
    let b = at(TypeExpr::Array(Box::new(at(named("int"), 50))), 40);
    let c = at(TypeExpr::Array(Box::new(at(named("float"), 1))), 0);
    assert!(types_equal(&a, &b));
    assert!(types_equal(&b, &a));
    assert!(!types_equal(&a, &c));
    let f1 = at(TypeExpr::Fn { params: vec![Box::new(at(named("int"), 0))], return_type: Box::new(at(named("void"), 0)) }, 0);
    let f2 = at(TypeExpr::Fn { params: vec![], return_type: Box::new(at(named("void"), 0)) }, 0);
    assert!(!types_equal(&f1, &f2));
    assert!(!types_equal(&a, &at(named("int"), 0)));
}

#[test]
fn names_lookup() {
    let v = vec!["a".to_string(), "bc".to_string()];
    assert!(names_contain(&v, "bc"));
    assert!(!names_contain(&v, "b"));
}

#[test]
fn void_and_clone_of_types() {
    assert!(PlutoType::Void.is_void());
    assert!(!PlutoType::Int.is_void());
    let t = PlutoType::SetOf(Box::new(PlutoType::Class("A".to_string())));
    assert_eq!(t.deep_clone(), t);
}

#[test]
fn import_binding_and_path() {
    let aliased = ImportDecl { path: vec![at("std".to_string(), 0), at("io".to_string(), 4)], alias: Some(at("sio".to_string(), 10)) };
    assert_eq!(aliased.binding_name(), "sio");
    assert_eq!(aliased.full_path(), "std.io");
    let plain = ImportDecl { path: vec![at("std".to_string(), 0), at("io".to_string(), 4)], alias: None };
    assert_eq!(plain.binding_name(), "io");
}

#[test]
fn lifecycle_names() {
    assert_eq!(Lifecycle::Singleton.to_string(), "singleton");
    assert_eq!(Lifecycle::Scoped.to_string(), "scoped");
    assert_eq!(Lifecycle::Transient.to_string(), "transient");
}
