use pluto::monomorphize::decls::reassign_enum_uuids;
use pluto::monomorphize::decls::substitute_in_enum;
use pluto::monomorphize::decls::offset_enum_spans;
use pluto::monomorphize::decls::offset_type_expr;
use pluto::monomorphize::decls::instantiate_enum;
use pluto::monomorphize::TypeBindings;
use pluto::parser::ast::EnumDecl;
use pluto::parser::ast::EnumVariant;
use pluto::parser::ast::Field;
use pluto::parser::ast::TypeExpr;
use pluto::typeck::types::PlutoType;
use pluto::span::Span;
use pluto::span::Spanned;
use uuid::Uuid;

fn dummy_span() -> Span {
    Span { start: 0, end: 0, file_id: 0 }
}

fn spanned<T>(node: T) -> Spanned<T> {
    Spanned { node, span: dummy_span() }
}

#[test]
fn test_reassign_enum_uuids() {
    let variant_uuid = Uuid::new_v4();
    let field_uuid = Uuid::new_v4();
    let mut edecl = EnumDecl {
        id: Uuid::new_v4(),
        name: spanned("Option".to_string()),
        type_params: vec![],
        type_param_bounds: vec![],
        variants: vec![EnumVariant {
            id: variant_uuid,
            name: spanned("Some".to_string()),
            fields: vec![Field {
                id: field_uuid,
                name: spanned("value".to_string()),
                ty: spanned(TypeExpr::Named("int".to_string())),
                is_injected: false,
                is_ambient: false,
            }],
        }],
        is_pub: false,
    };

    reassign_enum_uuids(&mut edecl);

    assert_ne!(edecl.variants[0].id, variant_uuid);
    assert_ne!(edecl.variants[0].fields[0].id, field_uuid);
}

#[test]
fn test_substitute_in_enum_variant_fields() {
    let mut edecl = EnumDecl {
        id: Uuid::new_v4(),
        name: spanned("Option".to_string()),
        type_params: vec![],
        type_param_bounds: vec![],
        variants: vec![
            EnumVariant {
                id: Uuid::new_v4(),
                name: spanned("Some".to_string()),
                fields: vec![Field {
                    id: Uuid::new_v4(),
                    name: spanned("value".to_string()),
                    ty: spanned(TypeExpr::Named("T".to_string())),
                    is_injected: false,
                    is_ambient: false,
                }],
            },
            EnumVariant { id: Uuid::new_v4(), name: spanned("None".to_string()), fields: vec![] },
        ],
        is_pub: false,
    };

    let mut bindings = TypeBindings::new();
    bindings.insert("T".to_string(), TypeExpr::Named("int".to_string()));

    substitute_in_enum(&mut edecl, &bindings);

    assert!(matches!(edecl.variants[0].fields[0].ty.node, TypeExpr::Named(ref n) if n == "int"));
}

#[test]
fn test_substitute_in_enum_multiple_variants() {
    let mut edecl = EnumDecl {
        id: Uuid::new_v4(),
        name: spanned("Result".to_string()),
        type_params: vec![],
        type_param_bounds: vec![],
        variants: vec![
            EnumVariant {
                id: Uuid::new_v4(),
                name: spanned("Ok".to_string()),
                fields: vec![Field {
                    id: Uuid::new_v4(),
                    name: spanned("value".to_string()),
                    ty: spanned(TypeExpr::Named("T".to_string())),
                    is_injected: false,
                    is_ambient: false,
                }],
            },
            EnumVariant {
                id: Uuid::new_v4(),
                name: spanned("Err".to_string()),
                fields: vec![Field {
                    id: Uuid::new_v4(),
                    name: spanned("error".to_string()),
                    ty: spanned(TypeExpr::Named("E".to_string())),
                    is_injected: false,
                    is_ambient: false,
                }],
            },
        ],
        is_pub: false,
    };

    let mut bindings = TypeBindings::new();
    bindings.insert("T".to_string(), TypeExpr::Named("int".to_string()));
    bindings.insert("E".to_string(), TypeExpr::Named("string".to_string()));

    substitute_in_enum(&mut edecl, &bindings);

    assert!(matches!(edecl.variants[0].fields[0].ty.node, TypeExpr::Named(ref n) if n == "int"));
    assert!(matches!(edecl.variants[1].fields[0].ty.node, TypeExpr::Named(ref n) if n == "string"));
}

#[test]
fn test_offset_enum_spans() {
    let mut edecl = EnumDecl {
        id: Uuid::new_v4(),
        name: Spanned { node: "Color".to_string(), span: Span { start: 5, end: 10, file_id: 0 } },
        type_params: vec![],
        type_param_bounds: vec![],
        variants: vec![EnumVariant {
            id: Uuid::new_v4(),
            name: Spanned { node: "Red".to_string(), span: Span { start: 11, end: 14, file_id: 0 } },
            fields: vec![],
        }],
        is_pub: false,
    };

    offset_enum_spans(&mut edecl, 2000);

    assert_eq!(edecl.name.span.start, 2005);
    assert_eq!(edecl.name.span.end, 2010);
    assert_eq!(edecl.variants[0].name.span.start, 2011);
    assert_eq!(edecl.variants[0].name.span.end, 2014);
}

#[test]
fn test_substitute_in_enum_mixed_variants() {
    let mut edecl = EnumDecl {
        id: Uuid::new_v4(),
        name: spanned("Result".to_string()),
        type_params: vec![],
        type_param_bounds: vec![],
        variants: vec![
            EnumVariant { id: Uuid::new_v4(), name: spanned("Error".to_string()), fields: vec![] },
            EnumVariant {
                id: Uuid::new_v4(),
                name: spanned("Ok".to_string()),
                fields: vec![Field {
                    id: Uuid::new_v4(),
                    name: spanned("value".to_string()),
                    ty: spanned(TypeExpr::Named("T".to_string())),
                    is_injected: false,
                    is_ambient: false,
                }],
            },
        ],
        is_pub: false,
    };

    let mut bindings = TypeBindings::new();
    bindings.insert("T".to_string(), TypeExpr::Named("int".to_string()));

    substitute_in_enum(&mut edecl, &bindings);

    assert!(matches!(&edecl.variants[1].fields[0].ty.node, TypeExpr::Named(n) if n == "int"));
}

fn at<T>(node: T, start: usize, end: usize) -> Spanned<T> {
    Spanned::new(node, Span::new(start, end))
}

#[test]
fn offset_type_expr_moves_every_span() {
    let mut te = at(
        TypeExpr::Generic {
            name: "Map".to_string(),
            type_args: vec![at(TypeExpr::Named("string".to_string()), 4, 10), at(TypeExpr::Array(Box::new(at(TypeExpr::Named("int".to_string()), 13, 16))), 12, 17)],
        },
        0,
        18,
    );
    offset_type_expr(&mut te, 100);
    assert_eq!(te.span, Span::new(100, 118));
    if let TypeExpr::Generic { type_args, .. } = &te.node {
        assert_eq!(type_args[0].span, Span::new(104, 110));
        assert_eq!(type_args[1].span, Span::new(112, 117));
        if let TypeExpr::Array(inner) = &type_args[1].node {
            assert_eq!(inner.span, Span::new(113, 116));
        } else {
            panic!("Expected Array");
        }
    } else {
        panic!("Expected Generic");
    }
}

fn generic_box() -> Spanned<EnumDecl> {
    Spanned::new(
        EnumDecl {
            id: Uuid::new_v4(),
            name: at("Box".to_string(), 5, 8),
            type_params: vec![at("T".to_string(), 9, 10)],
            type_param_bounds: vec![],
            variants: vec![EnumVariant {
                id: Uuid::new_v4(),
                name: at("Full".to_string(), 15, 19),
                fields: vec![Field {
                    id: Uuid::new_v4(),
                    name: at("item".to_string(), 20, 24),
                    ty: at(TypeExpr::Named("T".to_string()), 26, 27),
                    is_injected: false,
                    is_ambient: false,
                }],
            }],
            is_pub: true,
        },
        Span::with_file(0, 30, 3),
    )
}

#[test]
fn instantiate_enum_adds_a_bound_copy() {
    let mut enums = vec![generic_box()];
    let template_variant_id = enums[0].node.variants[0].id;
    instantiate_enum(&mut enums, "Box", &[PlutoType::Int], "Box$int", 1000);
    assert_eq!(enums.len(), 2);
    let inst = &enums[1];
    assert_eq!(inst.span, Span::with_file(1000, 1030, 3));
    assert_eq!(inst.node.name.node, "Box$int");
    assert_eq!(inst.node.name.span, Span::new(1005, 1008));
    assert!(inst.node.type_params.is_empty());
    assert!(inst.node.is_pub);
    assert_ne!(inst.node.id, enums[0].node.id);
    assert_ne!(inst.node.variants[0].id, template_variant_id);
    assert_eq!(inst.node.variants[0].name.span, Span::new(1015, 1019));
    let field = &inst.node.variants[0].fields[0];
    assert_eq!(field.name.node, "item");
    assert_eq!(field.name.span, Span::new(1020, 1024));
    assert_eq!(field.ty.span, Span::new(1026, 1027));
    assert_eq!(field.ty.node, TypeExpr::Named("int".to_string()));
    // The template itself is left as it was.
    assert_eq!(enums[0].node.name.node, "Box");
    assert_eq!(enums[0].node.variants[0].fields[0].ty.node, TypeExpr::Named("T".to_string()));
}

#[test]
fn instantiate_enum_without_template_adds_nothing() {
    let mut enums = vec![generic_box()];
    instantiate_enum(&mut enums, "Missing", &[PlutoType::Int], "Missing$int", 10);
    assert_eq!(enums.len(), 1);
}

#[test]
fn offsetting_twice_adds_up() {
    let make = || at(TypeExpr::Nullable(Box::new(at(TypeExpr::Named("int".to_string()), 3, 6))), 2, 7);
    let mut twice = make();
    offset_type_expr(&mut twice, 10);
    offset_type_expr(&mut twice, 20);
    let mut once = make();
    offset_type_expr(&mut once, 30);
    assert_eq!(twice, once);
    let mut none = make();
    offset_type_expr(&mut none, 0);
    assert_eq!(none, make());
}

#[test]
fn reassigned_ids_are_random_ids() {
    let nil = Uuid::nil();
    let mut edecl = EnumDecl {
        id: nil,
        name: spanned("Pair".to_string()),
        type_params: vec![],
        type_param_bounds: vec![],
        variants: vec![
            EnumVariant {
                id: nil,
                name: spanned("Both".to_string()),
                fields: vec![
                    Field {
                        id: nil,
                        name: spanned("a".to_string()),
                        ty: spanned(TypeExpr::Named("int".to_string())),
                        is_injected: false,
                        is_ambient: false,
                    },
                    Field {
                        id: nil,
                        name: spanned("b".to_string()),
                        ty: spanned(TypeExpr::Named("int".to_string())),
                        is_injected: false,
                        is_ambient: false,
                    },
                ],
            },
            EnumVariant { id: nil, name: spanned("Neither".to_string()), fields: vec![] },
        ],
        is_pub: false,
    };

    reassign_enum_uuids(&mut edecl);

    assert_eq!(edecl.id, nil);
    for v in &edecl.variants {
        assert_eq!(v.id.get_version_num(), 4);
        for f in &v.fields {
            assert_eq!(f.id.get_version_num(), 4);
        }
    }
    assert_eq!(edecl.variants[0].fields[1].name.node, "b");
    assert_eq!(edecl.variants[1].name.node, "Neither");
}
