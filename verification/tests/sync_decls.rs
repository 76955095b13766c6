use pluto::sync::transplant_decls;
use pluto::parser::ast::EnumDecl;
use pluto::parser::ast::EnumVariant;
use pluto::parser::ast::ErrorDecl;
use pluto::parser::ast::Field;
use pluto::parser::ast::TypeExpr;
use pluto::span::Span;
use pluto::span::Spanned;
use uuid::Uuid;

fn field(name: &str, id: Uuid) -> Field {
    Field {
        id,
        name: Spanned::new(name.to_string(), Span::dummy()),
        ty: Spanned::new(TypeExpr::Named("int".to_string()), Span::dummy()),
        is_injected: false,
        is_ambient: false,
    }
}

fn error_decl(name: &str, id: Uuid, fields: Vec<Field>) -> Spanned<ErrorDecl> {
    Spanned::new(
        ErrorDecl { id, name: Spanned::new(name.to_string(), Span::dummy()), fields, is_pub: false },
        Span::dummy(),
    )
}

fn enum_decl(name: &str, id: Uuid, variants: Vec<(&str, Uuid)>) -> Spanned<EnumDecl> {
    Spanned::new(
        EnumDecl {
            id,
            name: Spanned::new(name.to_string(), Span::dummy()),
            type_params: vec![],
            type_param_bounds: vec![],
            variants: variants
                .into_iter()
                .map(|(n, vid)| EnumVariant { id: vid, name: Spanned::new(n.to_string(), Span::dummy()), fields: vec![] })
                .collect(),
            is_pub: false,
        },
        Span::dummy(),
    )
}

#[test]
fn matching_errors_keep_their_ids() {
    let old_id = Uuid::new_v4();
    let old_field = Uuid::new_v4();
    let old = vec![error_decl("NotFound", old_id, vec![field("code", old_field)])];
    let mut new = vec![error_decl("NotFound", Uuid::new_v4(), vec![field("code", Uuid::new_v4())])];
    let (mut added, mut removed, mut unchanged) = (vec![], vec![], 0usize);
    transplant_decls(&mut new, &old, &mut added, &mut removed, &mut unchanged, "error");
    assert_eq!(new[0].node.id, old_id);
    assert_eq!(new[0].node.fields[0].id, old_field);
    assert!(added.is_empty());
    assert!(removed.is_empty());
    assert_eq!(unchanged, 1);
}

#[test]
fn renamed_error_is_added_and_removed() {
    let new_id = Uuid::new_v4();
    let old = vec![error_decl("NotFound", Uuid::new_v4(), vec![])];
    let mut new = vec![error_decl("Missing", new_id, vec![])];
    let (mut added, mut removed, mut unchanged) = (vec![], vec![], 3usize);
    transplant_decls(&mut new, &old, &mut added, &mut removed, &mut unchanged, "error");
    assert_eq!(new[0].node.id, new_id);
    assert_eq!(added, vec!["error Missing".to_string()]);
    assert_eq!(removed, vec!["error NotFound".to_string()]);
    assert_eq!(unchanged, 3);
}

#[test]
fn enums_match_by_name_and_carry_variant_ids() {
    let color_id = Uuid::new_v4();
    let red_id = Uuid::new_v4();
    let old = vec![
        enum_decl("Shape", Uuid::new_v4(), vec![]),
        enum_decl("Color", color_id, vec![("Red", red_id), ("Green", Uuid::new_v4())]),
    ];
    let blue_id = Uuid::new_v4();
    let mut new = vec![
        enum_decl("Color", Uuid::new_v4(), vec![("Blue", blue_id), ("Red", Uuid::new_v4())]),
        enum_decl("Size", Uuid::new_v4(), vec![]),
    ];
    let (mut added, mut removed, mut unchanged) = (vec![], vec![], 0usize);
    transplant_decls(&mut new, &old, &mut added, &mut removed, &mut unchanged, "enum");
    assert_eq!(new[0].node.id, color_id);
    assert_eq!(new[0].node.variants[0].id, blue_id);
    assert_eq!(new[0].node.variants[1].id, red_id);
    assert_eq!(added, vec!["enum Size".to_string()]);
    assert_eq!(removed, vec!["enum Shape".to_string()]);
    assert_eq!(unchanged, 1);
}

#[test]
fn duplicate_names_take_old_declarations_in_turn() {
    let first = Uuid::new_v4();
    let second = Uuid::new_v4();
    let old = vec![error_decl("E", first, vec![]), error_decl("E", second, vec![])];
    let mut new = vec![
        error_decl("E", Uuid::new_v4(), vec![]),
        error_decl("E", Uuid::new_v4(), vec![]),
        error_decl("E", Uuid::new_v4(), vec![]),
    ];
    let (mut added, mut removed, mut unchanged) = (vec![], vec![], 0usize);
    transplant_decls(&mut new, &old, &mut added, &mut removed, &mut unchanged, "error");
    assert_eq!(new[0].node.id, first);
    assert_eq!(new[1].node.id, second);
    assert_eq!(added, vec!["error E".to_string()]);
    assert!(removed.is_empty());
    assert_eq!(unchanged, 2);
}

#[test]
fn same_declarations_report_no_change() {
    let ids: Vec<Uuid> = (0..3).map(|_| Uuid::new_v4()).collect();
    let old = vec![
        error_decl("A", ids[0], vec![]),
        error_decl("B", ids[1], vec![]),
        error_decl("C", ids[2], vec![]),
    ];
    let mut new = vec![
        error_decl("A", Uuid::new_v4(), vec![]),
        error_decl("B", Uuid::new_v4(), vec![]),
        error_decl("C", Uuid::new_v4(), vec![]),
    ];
    let (mut added, mut removed, mut unchanged) = (vec![], vec![], 0usize);
    transplant_decls(&mut new, &old, &mut added, &mut removed, &mut unchanged, "error");
    for k in 0..3 {
        assert_eq!(new[k].node.id, ids[k]);
    }
    assert!(added.is_empty());
    assert!(removed.is_empty());
    assert_eq!(unchanged, 3);
}
