use pluto::diagnostics::CompileError;
use pluto::parser::ast::Expr;
use pluto::parser::ast::Stmt;
use pluto::parser::ast::TypeExpr;
use pluto::reflection::generate_kind_impl_for_enum;
use pluto::reflection::pt_debug_text;
use pluto::typeck::env::EnumInfo;
use pluto::typeck::env::TypeEnv;
use pluto::typeck::types::PlutoType;

#[test]
fn debug_text_of_types() {
    assert_eq!(pt_debug_text(&PlutoType::Int), "Int");
    assert_eq!(pt_debug_text(&PlutoType::String), "String");
    assert_eq!(pt_debug_text(&PlutoType::Class("Foo".to_string())), "Class(\"Foo\")");
    assert_eq!(
        pt_debug_text(&PlutoType::Fn(vec![PlutoType::Int, PlutoType::Bool], Box::new(PlutoType::Void))),
        "Fn([Int, Bool], Void)"
    );
    assert_eq!(pt_debug_text(&PlutoType::Fn(vec![], Box::new(PlutoType::Int))), "Fn([], Int)");
    assert_eq!(
        pt_debug_text(&PlutoType::MapOf(Box::new(PlutoType::String), Box::new(PlutoType::Array(Box::new(PlutoType::Byte))))),
        "Map(String, Array(Byte))"
    );
    assert_eq!(pt_debug_text(&PlutoType::SetOf(Box::new(PlutoType::Int))), "Set(Int)");
}

fn env_with_color() -> TypeEnv {
    let mut env = TypeEnv::new();
    env.enums.push("Color".to_string());
    env.enum_infos.push(EnumInfo {
        name: "Color".to_string(),
        variants: vec![
            ("Red".to_string(), vec![]),
            ("Rgb".to_string(), vec![("r".to_string(), PlutoType::Int), ("tag".to_string(), PlutoType::Class("Foo".to_string()))]),
        ],
    });
    env
}

fn str_lit(e: &Expr) -> &str {
    match e {
        Expr::StringLit(s) => s.as_str(),
        _ => panic!("Expected string literal"),
    }
}

#[test]
fn kind_impl_for_known_enum() {
    let env = env_with_color();
    let f = generate_kind_impl_for_enum("Color", &env).unwrap();
    assert_eq!(f.node.name.node, "TypeInfo_kind_Color");
    assert!(f.node.params.is_empty());
    assert!(matches!(&f.node.return_type.as_ref().unwrap().node, TypeExpr::Named(n) if n == "TypeKind"));
    assert_eq!(f.node.id.get_version_num(), 4);
    assert_eq!(f.node.body.node.stmts.len(), 1);
    let kind = match &f.node.body.node.stmts[0].node {
        Stmt::Return(Some(e)) => &e.node,
        _ => panic!("Expected return"),
    };
    let info = match kind {
        Expr::EnumData { enum_name, variant, fields, .. } => {
            assert_eq!(enum_name.node, "TypeKind");
            assert_eq!(variant.node, "Enum");
            assert_eq!(fields[0].0.node, "info");
            &fields[0].1.node
        }
        _ => panic!("Expected TypeKind.Enum"),
    };
    let variants = match info {
        Expr::StructLit { name, fields, .. } => {
            assert_eq!(name.node, "EnumInfo");
            assert_eq!(str_lit(&fields[0].1.node), "Color");
            match &fields[1].1.node {
                Expr::ArrayLit { elements } => elements,
                _ => panic!("Expected variant array"),
            }
        }
        _ => panic!("Expected EnumInfo"),
    };
    assert_eq!(variants.len(), 2);
    match &variants[1].node {
        Expr::StructLit { name, fields, .. } => {
            assert_eq!(name.node, "VariantInfo");
            assert_eq!(str_lit(&fields[0].1.node), "Rgb");
            match &fields[1].1.node {
                Expr::ArrayLit { elements } => {
                    assert_eq!(elements.len(), 2);
                    match &elements[1].node {
                        Expr::StructLit { name, fields, .. } => {
                            assert_eq!(name.node, "FieldInfo");
                            assert_eq!(str_lit(&fields[0].1.node), "tag");
                            assert_eq!(str_lit(&fields[1].1.node), "Class(\"Foo\")");
                            assert!(matches!(fields[2].1.node, Expr::IntLit(0)));
                        }
                        _ => panic!("Expected FieldInfo"),
                    }
                }
                _ => panic!("Expected field array"),
            }
        }
        _ => panic!("Expected VariantInfo"),
    }
}

#[test]
fn kind_impl_for_unknown_enum_fails() {
    let env = env_with_color();
    match generate_kind_impl_for_enum("Shape", &env) {
        Err(CompileError::Codegen { msg }) => assert_eq!(msg, "enum 'Shape' not found during reflection generation"),
        _ => panic!("Expected codegen error"),
    }
}
