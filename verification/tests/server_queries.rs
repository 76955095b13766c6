use pluto::parser::ast::AppDecl;
use pluto::parser::ast::Block;
use pluto::parser::ast::EnumDecl;
use pluto::parser::ast::Function;
use pluto::parser::ast::Program;
use pluto::server::queries::collect_decl_summaries;
use pluto::server::types::DeclKind;
use pluto::span::Span;
use pluto::span::Spanned;
use uuid::Uuid;

fn sp<T>(node: T) -> Spanned<T> {
    Spanned { node, span: Span { start: 0, end: 0, file_id: 0 } }
}

fn func(name: &str, id: Uuid) -> Function {
    Function {
        id,
        name: sp(name.to_string()),
        type_params: vec![],
        type_param_bounds: vec![],
        params: vec![],
        return_type: None,
        contracts: vec![],
        body: sp(Block { stmts: vec![] }),
        is_pub: false,
        is_override: false,
        is_generator: false,
    }
}

fn program() -> (Program, Uuid, Uuid, Uuid, Uuid) {
    let (f1, f2, e1, a1) = (Uuid::new_v4(), Uuid::new_v4(), Uuid::new_v4(), Uuid::new_v4());
    let p = Program {
        imports: vec![],
        functions: vec![sp(func("main", f1)), sp(func("helper", f2))],
        extern_fns: vec![],
        extern_rust_crates: vec![],
        classes: vec![],
        traits: vec![],
        enums: vec![sp(EnumDecl {
            id: e1,
            name: sp("Color".to_string()),
            type_params: vec![],
            type_param_bounds: vec![],
            variants: vec![],
            is_pub: true,
        })],
        app: Some(sp(AppDecl {
            id: a1,
            name: sp("Main".to_string()),
            inject_fields: vec![],
            ambient_types: vec![],
            lifecycle_overrides: vec![],
            methods: vec![],
        })),
        stages: vec![],
        system: None,
        errors: vec![],
        test_info: vec![],
        tests: None,
        fallible_extern_fns: vec![],
    };
    (p, f1, f2, e1, a1)
}

#[test]
fn decl_summaries_unfiltered_in_kind_order() {
    let (p, f1, f2, e1, a1) = program();
    let r = collect_decl_summaries(&p, None);
    assert_eq!(r.len(), 4);
    assert_eq!((r[0].uuid, r[0].name.as_str(), r[0].kind), (f1, "main", DeclKind::Function));
    assert_eq!((r[1].uuid, r[1].name.as_str(), r[1].kind), (f2, "helper", DeclKind::Function));
    assert_eq!((r[2].uuid, r[2].name.as_str(), r[2].kind), (e1, "Color", DeclKind::Enum));
    assert_eq!((r[3].uuid, r[3].name.as_str(), r[3].kind), (a1, "Main", DeclKind::App));
}

#[test]
fn decl_summaries_filtered_by_kind() {
    let (p, _, _, e1, _) = program();
    let r = collect_decl_summaries(&p, Some(DeclKind::Enum));
    assert_eq!(r.len(), 1);
    assert_eq!(r[0].uuid, e1);
    assert_eq!(r[0].name, "Color");
    assert!(collect_decl_summaries(&p, Some(DeclKind::Trait)).is_empty());
}

#[test]
fn decl_summaries_filter_matches_unfiltered_of_that_kind() {
    let (p, _, _, _, _) = program();
    let all = collect_decl_summaries(&p, None);
    for k in [DeclKind::Function, DeclKind::Class, DeclKind::Enum, DeclKind::Trait, DeclKind::Error, DeclKind::App] {
        let filtered = collect_decl_summaries(&p, Some(k));
        let expected: Vec<(Uuid, String)> = all.iter().filter(|d| d.kind == k).map(|d| (d.uuid, d.name.clone())).collect();
        let got: Vec<(Uuid, String)> = filtered.iter().map(|d| (d.uuid, d.name.clone())).collect();
        assert_eq!(got, expected);
    }
}
