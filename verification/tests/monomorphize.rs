use pluto::monomorphize::build_type_expr_bindings;
use pluto::monomorphize::substitute_in_type_expr;
use pluto::monomorphize::offset_span;
use pluto::monomorphize::offset_spanned;
use pluto::monomorphize::type_expr_to_pluto_type;
use pluto::monomorphize::resolve_generic_te;
use pluto::monomorphize::TypeBindings;
use pluto::parser::ast::TypeExpr;
use pluto::typeck::types::PlutoType;
use pluto::typeck::env::TypeEnv;
use pluto::span::Span;
use pluto::diagnostics::CompileError;
use pluto::span::Spanned;

fn dummy_span() -> Span {
    Span { start: 0, end: 0, file_id: 0 }
}

fn spanned<T>(node: T) -> Spanned<T> {
    Spanned { node, span: dummy_span() }
}

// ── build_type_expr_bindings tests ──────────────────────────────────

#[test]
fn test_build_type_expr_bindings_single() {
    let type_params = vec!["T".to_string()];
    let type_args = vec![PlutoType::Int];
    let bindings = build_type_expr_bindings(&type_params, &type_args);

    assert_eq!(bindings.len(), 1);
    assert!(matches!(bindings.get("T"), Some(TypeExpr::Named(n)) if n == "int"));
}

#[test]
fn test_build_type_expr_bindings_multiple() {
    let type_params = vec!["T".to_string(), "U".to_string()];
    let type_args = vec![PlutoType::Int, PlutoType::String];
    let bindings = build_type_expr_bindings(&type_params, &type_args);

    assert_eq!(bindings.len(), 2);
    assert!(matches!(bindings.get("T"), Some(TypeExpr::Named(n)) if n == "int"));
    assert!(matches!(bindings.get("U"), Some(TypeExpr::Named(n)) if n == "string"));
}

#[test]
fn test_build_type_expr_bindings_class_type() {
    let type_params = vec!["T".to_string()];
    let type_args = vec![PlutoType::Class("User".to_string())];
    let bindings = build_type_expr_bindings(&type_params, &type_args);

    assert!(matches!(bindings.get("T"), Some(TypeExpr::Named(n)) if n == "User"));
}

// ── substitute_in_type_expr tests ───────────────────────────────────

#[test]
fn test_substitute_named_match() {
    let mut te = TypeExpr::Named("T".to_string());
    let mut bindings = TypeBindings::new();
    bindings.insert("T".to_string(), TypeExpr::Named("int".to_string()));

    substitute_in_type_expr(&mut te, &bindings);
    assert!(matches!(te, TypeExpr::Named(n) if n == "int"));
}

#[test]
fn test_substitute_named_no_match() {
    let mut te = TypeExpr::Named("int".to_string());
    let bindings = TypeBindings::new();

    substitute_in_type_expr(&mut te, &bindings);
    assert!(matches!(te, TypeExpr::Named(n) if n == "int"));
}

#[test]
fn test_substitute_array() {
    let mut te = TypeExpr::Array(Box::new(spanned(TypeExpr::Named("T".to_string()))));
    let mut bindings = TypeBindings::new();
    bindings.insert("T".to_string(), TypeExpr::Named("int".to_string()));

    substitute_in_type_expr(&mut te, &bindings);
    if let TypeExpr::Array(inner) = te {
        assert!(matches!(inner.node, TypeExpr::Named(n) if n == "int"));
    } else {
        panic!("Expected Array type");
    }
}

#[test]
fn test_substitute_nullable() {
    let mut te = TypeExpr::Nullable(Box::new(spanned(TypeExpr::Named("T".to_string()))));
    let mut bindings = TypeBindings::new();
    bindings.insert("T".to_string(), TypeExpr::Named("string".to_string()));

    substitute_in_type_expr(&mut te, &bindings);
    if let TypeExpr::Nullable(inner) = te {
        assert!(matches!(inner.node, TypeExpr::Named(n) if n == "string"));
    } else {
        panic!("Expected Nullable type");
    }
}

#[test]
fn test_substitute_generic_args() {
    let mut te = TypeExpr::Generic {
        name: "Box".to_string(),
        type_args: vec![spanned(TypeExpr::Named("T".to_string()))],
    };
    let mut bindings = TypeBindings::new();
    bindings.insert("T".to_string(), TypeExpr::Named("int".to_string()));

    substitute_in_type_expr(&mut te, &bindings);
    if let TypeExpr::Generic { type_args, .. } = te {
        assert!(matches!(&type_args[0].node, TypeExpr::Named(n) if n == "int"));
    } else {
        panic!("Expected Generic type");
    }
}

#[test]
fn test_substitute_fn_types() {
    let mut te = TypeExpr::Fn {
        params: vec![Box::new(spanned(TypeExpr::Named("T".to_string())))],
        return_type: Box::new(spanned(TypeExpr::Named("U".to_string()))),
    };
    let mut bindings = TypeBindings::new();
    bindings.insert("T".to_string(), TypeExpr::Named("int".to_string()));
    bindings.insert("U".to_string(), TypeExpr::Named("string".to_string()));

    substitute_in_type_expr(&mut te, &bindings);
    if let TypeExpr::Fn { params, return_type } = te {
        assert!(matches!(&params[0].node, TypeExpr::Named(n) if n == "int"));
        assert!(matches!(&return_type.node, TypeExpr::Named(n) if n == "string"));
    } else {
        panic!("Expected Fn type");
    }
}

// ── offset_span tests ───────────────────────────────────────────────

#[test]
fn test_offset_span_basic() {
    let mut span = Span { start: 10, end: 20, file_id: 0 };
    offset_span(&mut span, 100);
    assert_eq!(span.start, 110);
    assert_eq!(span.end, 120);
}

#[test]
fn test_offset_span_zero() {
    let mut span = Span { start: 10, end: 20, file_id: 0 };
    offset_span(&mut span, 0);
    assert_eq!(span.start, 10);
    assert_eq!(span.end, 20);
}

#[test]
fn test_offset_spanned() {
    let mut spanned = Spanned {
        node: 42,
        span: Span { start: 5, end: 15, file_id: 0 },
    };
    offset_spanned(&mut spanned, 50);
    assert_eq!(spanned.span.start, 55);
    assert_eq!(spanned.span.end, 65);
    assert_eq!(spanned.node, 42);
}

// ── type_expr_to_pluto_type tests ───────────────────────────────────

#[test]
fn test_type_expr_to_pluto_type_primitives() {
    let env = TypeEnv::new();

    assert!(matches!(type_expr_to_pluto_type(&TypeExpr::Named("int".to_string()), &env), Ok(PlutoType::Int)));
    assert!(matches!(type_expr_to_pluto_type(&TypeExpr::Named("float".to_string()), &env), Ok(PlutoType::Float)));
    assert!(matches!(type_expr_to_pluto_type(&TypeExpr::Named("bool".to_string()), &env), Ok(PlutoType::Bool)));
    assert!(matches!(type_expr_to_pluto_type(&TypeExpr::Named("string".to_string()), &env), Ok(PlutoType::String)));
    assert!(matches!(type_expr_to_pluto_type(&TypeExpr::Named("void".to_string()), &env), Ok(PlutoType::Void)));
    assert!(matches!(type_expr_to_pluto_type(&TypeExpr::Named("byte".to_string()), &env), Ok(PlutoType::Byte)));
}

#[test]
fn test_type_expr_to_pluto_type_array() {
    let env = TypeEnv::new();
    let te = TypeExpr::Array(Box::new(spanned(TypeExpr::Named("int".to_string()))));

    if let Ok(PlutoType::Array(inner)) = type_expr_to_pluto_type(&te, &env) {
        assert!(matches!(*inner, PlutoType::Int));
    } else {
        panic!("Expected Array<int>");
    }
}

#[test]
fn test_type_expr_to_pluto_type_nullable() {
    let env = TypeEnv::new();
    let te = TypeExpr::Nullable(Box::new(spanned(TypeExpr::Named("int".to_string()))));

    if let Ok(PlutoType::Nullable(inner)) = type_expr_to_pluto_type(&te, &env) {
        assert!(matches!(*inner, PlutoType::Int));
    } else {
        panic!("Expected Nullable<int>");
    }
}

#[test]
fn test_type_expr_to_pluto_type_fn() {
    let env = TypeEnv::new();
    let te = TypeExpr::Fn {
        params: vec![Box::new(spanned(TypeExpr::Named("int".to_string())))],
        return_type: Box::new(spanned(TypeExpr::Named("string".to_string()))),
    };

    if let Ok(PlutoType::Fn(params, ret)) = type_expr_to_pluto_type(&te, &env) {
        assert_eq!(params.len(), 1);
        assert!(matches!(params[0], PlutoType::Int));
        assert!(matches!(*ret, PlutoType::String));
    } else {
        panic!("Expected Fn type");
    }
}

#[test]
fn test_type_expr_to_pluto_type_map() {
    let env = TypeEnv::new();
    let te = TypeExpr::Generic {
        name: "Map".to_string(),
        type_args: vec![
            spanned(TypeExpr::Named("string".to_string())),
            spanned(TypeExpr::Named("int".to_string())),
        ],
    };

    if let Ok(PlutoType::MapOf(key, val)) = type_expr_to_pluto_type(&te, &env) {
        assert!(matches!(*key, PlutoType::String));
        assert!(matches!(*val, PlutoType::Int));
    } else {
        panic!("Expected Map<string, int>");
    }
}

#[test]
fn test_type_expr_to_pluto_type_set() {
    let env = TypeEnv::new();
    let te = TypeExpr::Generic {
        name: "Set".to_string(),
        type_args: vec![spanned(TypeExpr::Named("int".to_string()))],
    };

    if let Ok(PlutoType::SetOf(elem)) = type_expr_to_pluto_type(&te, &env) {
        assert!(matches!(*elem, PlutoType::Int));
    } else {
        panic!("Expected Set<int>");
    }
}

#[test]
fn test_type_expr_to_pluto_type_task() {
    let env = TypeEnv::new();
    let te = TypeExpr::Generic {
        name: "Task".to_string(),
        type_args: vec![spanned(TypeExpr::Named("int".to_string()))],
    };

    if let Ok(PlutoType::Task(inner)) = type_expr_to_pluto_type(&te, &env) {
        assert!(matches!(*inner, PlutoType::Int));
    } else {
        panic!("Expected Task<int>");
    }
}

#[test]
fn test_type_expr_to_pluto_type_sender() {
    let env = TypeEnv::new();
    let te = TypeExpr::Generic {
        name: "Sender".to_string(),
        type_args: vec![spanned(TypeExpr::Named("string".to_string()))],
    };

    if let Ok(PlutoType::Sender(elem)) = type_expr_to_pluto_type(&te, &env) {
        assert!(matches!(*elem, PlutoType::String));
    } else {
        panic!("Expected Sender<string>");
    }
}

#[test]
fn test_type_expr_to_pluto_type_receiver() {
    let env = TypeEnv::new();
    let te = TypeExpr::Generic {
        name: "Receiver".to_string(),
        type_args: vec![spanned(TypeExpr::Named("int".to_string()))],
    };

    if let Ok(PlutoType::Receiver(elem)) = type_expr_to_pluto_type(&te, &env) {
        assert!(matches!(*elem, PlutoType::Int));
    } else {
        panic!("Expected Receiver<int>");
    }
}

// ── resolve_generic_te tests ────────────────────────────────────────

#[test]
fn test_resolve_generic_te_builtin_map() {
    let mut te = TypeExpr::Generic {
        name: "Map".to_string(),
        type_args: vec![
            spanned(TypeExpr::Named("string".to_string())),
            spanned(TypeExpr::Named("int".to_string())),
        ],
    };
    let mut env = TypeEnv::new();

    assert!(resolve_generic_te(&mut te, &mut env).is_ok());
    assert!(matches!(te, TypeExpr::Generic { name, .. } if name == "Map"));
}

#[test]
fn test_resolve_generic_te_builtin_set() {
    let mut te = TypeExpr::Generic {
        name: "Set".to_string(),
        type_args: vec![spanned(TypeExpr::Named("int".to_string()))],
    };
    let mut env = TypeEnv::new();

    assert!(resolve_generic_te(&mut te, &mut env).is_ok());
    assert!(matches!(te, TypeExpr::Generic { name, .. } if name == "Set"));
}

#[test]
fn test_resolve_generic_te_builtin_task() {
    let mut te = TypeExpr::Generic {
        name: "Task".to_string(),
        type_args: vec![spanned(TypeExpr::Named("int".to_string()))],
    };
    let mut env = TypeEnv::new();

    assert!(resolve_generic_te(&mut te, &mut env).is_ok());
    assert!(matches!(te, TypeExpr::Generic { name, .. } if name == "Task"));
}

#[test]
fn test_resolve_generic_te_builtin_sender() {
    let mut te = TypeExpr::Generic {
        name: "Sender".to_string(),
        type_args: vec![spanned(TypeExpr::Named("int".to_string()))],
    };
    let mut env = TypeEnv::new();

    assert!(resolve_generic_te(&mut te, &mut env).is_ok());
    assert!(matches!(te, TypeExpr::Generic { name, .. } if name == "Sender"));
}

#[test]
fn test_resolve_generic_te_builtin_receiver() {
    let mut te = TypeExpr::Generic {
        name: "Receiver".to_string(),
        type_args: vec![spanned(TypeExpr::Named("string".to_string()))],
    };
    let mut env = TypeEnv::new();

    assert!(resolve_generic_te(&mut te, &mut env).is_ok());
    assert!(matches!(te, TypeExpr::Generic { name, .. } if name == "Receiver"));
}

#[test]
fn test_resolve_generic_te_named_passthrough() {
    let mut te = TypeExpr::Named("int".to_string());
    let mut env = TypeEnv::new();

    assert!(resolve_generic_te(&mut te, &mut env).is_ok());
    assert!(matches!(te, TypeExpr::Named(ref n) if n == "int"));
}

#[test]
fn test_resolve_generic_te_array_recursion() {
    let mut te = TypeExpr::Array(Box::new(spanned(TypeExpr::Generic {
        name: "Map".to_string(),
        type_args: vec![
            spanned(TypeExpr::Named("string".to_string())),
            spanned(TypeExpr::Named("int".to_string())),
        ],
    })));
    let mut env = TypeEnv::new();

    assert!(resolve_generic_te(&mut te, &mut env).is_ok());
    if let TypeExpr::Array(inner) = te {
        assert!(matches!(inner.node, TypeExpr::Generic { name, .. } if name == "Map"));
    } else {
        panic!("Expected Array type");
    }
}

#[test]
fn test_resolve_generic_te_nullable_recursion() {
    let mut te = TypeExpr::Nullable(Box::new(spanned(TypeExpr::Generic {
        name: "Task".to_string(),
        type_args: vec![spanned(TypeExpr::Named("int".to_string()))],
    })));
    let mut env = TypeEnv::new();

    assert!(resolve_generic_te(&mut te, &mut env).is_ok());
    if let TypeExpr::Nullable(inner) = te {
        assert!(matches!(inner.node, TypeExpr::Generic { name, .. } if name == "Task"));
    } else {
        panic!("Expected Nullable type");
    }
}

#[test]
fn test_resolve_generic_te_nested_generics() {
    let mut te = TypeExpr::Generic {
        name: "Map".to_string(),
        type_args: vec![
            spanned(TypeExpr::Named("string".to_string())),
            spanned(TypeExpr::Generic {
                name: "Set".to_string(),
                type_args: vec![spanned(TypeExpr::Named("int".to_string()))],
            }),
        ],
    };

    let mut env = TypeEnv::new();
    assert!(resolve_generic_te(&mut te, &mut env).is_ok());

    if let TypeExpr::Generic { name, type_args } = te {
        assert_eq!(name, "Map");
        if let TypeExpr::Generic { name, .. } = &type_args[1].node {
            assert_eq!(name, "Set");
        } else {
            panic!("Expected nested Set generic");
        }
    } else {
        panic!("Expected Map generic");
    }
}

#[test]
fn test_substitute_in_type_expr_nested_array_nullable() {
    let mut te = TypeExpr::Array(Box::new(spanned(TypeExpr::Nullable(Box::new(spanned(
        TypeExpr::Named("T".to_string()),
    ))))));

    let mut bindings = TypeBindings::new();
    bindings.insert("T".to_string(), TypeExpr::Named("int".to_string()));

    substitute_in_type_expr(&mut te, &bindings);

    if let TypeExpr::Array(inner) = te {
        if let TypeExpr::Nullable(inner2) = &inner.node {
            assert!(matches!(&inner2.node, TypeExpr::Named(n) if n == "int"));
        } else {
            panic!("Expected Nullable");
        }
    } else {
        panic!("Expected Array");
    }
}

#[test]
fn resolve_generic_te_registers_instantiations_once() {
    let mut env = TypeEnv::new();
    env.generic_classes.push("Box".to_string());
    let boxed_int = || TypeExpr::Generic {
        name: "Box".to_string(),
        type_args: vec![spanned(TypeExpr::Named("int".to_string()))],
    };
    let mut te = TypeExpr::Fn {
        params: vec![Box::new(spanned(boxed_int()))],
        return_type: Box::new(spanned(TypeExpr::Array(Box::new(spanned(boxed_int()))))),
    };
    assert!(resolve_generic_te(&mut te, &mut env).is_ok());
    assert_eq!(env.instantiations.len(), 1);
    assert_eq!(env.instantiations[0].name, "Box");
    assert_eq!(env.instantiations[0].args, vec![PlutoType::Int]);
    assert_eq!(env.instantiations[0].mangled, "Box$int");
    if let TypeExpr::Fn { params, .. } = &te {
        assert!(matches!(&params[0].node, TypeExpr::Named(n) if n == "Box$int"));
    } else {
        panic!("Expected Fn type");
    }
}

#[test]
fn resolve_generic_te_unknown_generic_registers_nothing() {
    let mut env = TypeEnv::new();
    let mut te = TypeExpr::Generic {
        name: "Nope".to_string(),
        type_args: vec![spanned(TypeExpr::Named("int".to_string()))],
    };
    let err = resolve_generic_te(&mut te, &mut env).unwrap_err();
    assert!(matches!(err, CompileError::Type { ref msg, .. } if msg == "unknown generic type 'Nope'"));
    assert!(env.instantiations.is_empty());
}

#[test]
fn resolve_generic_te_twice_changes_nothing_more() {
    let mut env = TypeEnv::new();
    env.generic_classes.push("Box".to_string());
    let mut te = TypeExpr::Generic {
        name: "Map".to_string(),
        type_args: vec![
            spanned(TypeExpr::Named("string".to_string())),
            spanned(TypeExpr::Generic {
                name: "Box".to_string(),
                type_args: vec![spanned(TypeExpr::Named("int".to_string()))],
            }),
        ],
    };
    assert!(resolve_generic_te(&mut te, &mut env).is_ok());
    assert_eq!(env.instantiations.len(), 1);
    assert!(resolve_generic_te(&mut te, &mut env).is_ok());
    assert_eq!(env.instantiations.len(), 1);
    if let TypeExpr::Generic { name, type_args } = &te {
        assert_eq!(name, "Map");
        assert!(matches!(&type_args[1].node, TypeExpr::Named(n) if n == "Box$int"));
    } else {
        panic!("Expected Map generic");
    }
}
