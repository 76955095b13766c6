use pluto::sync::transplant_params;
use pluto::sync::transplant_fields;
use pluto::sync::transplant_variants;
use pluto::parser::ast::Param;
use pluto::parser::ast::Field;
use pluto::parser::ast::EnumVariant;
use pluto::parser::ast::TypeExpr;
use pluto::span::Span;
use pluto::span::Spanned;
use uuid::Uuid;

fn make_param(name: &str, uuid: Uuid) -> Param {
    Param {
        id: uuid,
        name: Spanned::new(name.to_string(), Span::dummy()),
        ty: Spanned::new(TypeExpr::Named("int".to_string()), Span::dummy()),
        is_mut: false,
    }
}

fn make_field(name: &str, uuid: Uuid) -> Field {
    Field {
        id: uuid,
        name: Spanned::new(name.to_string(), Span::dummy()),
        ty: Spanned::new(TypeExpr::Named("void".to_string()), Span::dummy()),
        is_injected: false,
        is_ambient: false,
    }
}

fn make_variant(name: &str, uuid: Uuid, field_uuids: Vec<(&str, Uuid)>) -> EnumVariant {
    EnumVariant {
        id: uuid,
        name: Spanned::new(name.to_string(), Span::dummy()),
        fields: field_uuids.into_iter().map(|(n, id)| make_field(n, id)).collect(),
    }
}

#[test]
fn test_transplant_params_matching_names() {
    let old_id = Uuid::new_v4();
    let mut new_params = vec![make_param("x", Uuid::new_v4())];
    let old_params = vec![make_param("x", old_id)];

    transplant_params(&mut new_params, &old_params);

    assert_eq!(new_params[0].id, old_id);
}

#[test]
fn test_transplant_params_no_match() {
    let new_id = Uuid::new_v4();
    let mut new_params = vec![make_param("x", new_id)];
    let old_params = vec![make_param("y", Uuid::new_v4())];

    transplant_params(&mut new_params, &old_params);

    assert_eq!(new_params[0].id, new_id);
}

#[test]
fn test_transplant_params_multiple() {
    let old_x_id = Uuid::new_v4();
    let old_y_id = Uuid::new_v4();
    let mut new_params = vec![make_param("x", Uuid::new_v4()), make_param("y", Uuid::new_v4())];
    let old_params = vec![make_param("x", old_x_id), make_param("y", old_y_id)];

    transplant_params(&mut new_params, &old_params);

    assert_eq!(new_params[0].id, old_x_id);
    assert_eq!(new_params[1].id, old_y_id);
}

#[test]
fn test_transplant_fields_matching_names() {
    let old_id = Uuid::new_v4();
    let mut new_fields = vec![make_field("count", Uuid::new_v4())];
    let old_fields = vec![make_field("count", old_id)];

    transplant_fields(&mut new_fields, &old_fields);

    assert_eq!(new_fields[0].id, old_id);
}

#[test]
fn test_transplant_fields_no_match() {
    let new_id = Uuid::new_v4();
    let mut new_fields = vec![make_field("count", new_id)];
    let old_fields = vec![make_field("total", Uuid::new_v4())];

    transplant_fields(&mut new_fields, &old_fields);

    assert_eq!(new_fields[0].id, new_id);
}

#[test]
fn test_transplant_fields_multiple() {
    let old_x_id = Uuid::new_v4();
    let old_y_id = Uuid::new_v4();
    let mut new_fields = vec![make_field("x", Uuid::new_v4()), make_field("y", Uuid::new_v4())];
    let old_fields = vec![make_field("x", old_x_id), make_field("y", old_y_id)];

    transplant_fields(&mut new_fields, &old_fields);

    assert_eq!(new_fields[0].id, old_x_id);
    assert_eq!(new_fields[1].id, old_y_id);
}

#[test]
fn test_transplant_variants_matching_names() {
    let old_variant_id = Uuid::new_v4();
    let old_field_id = Uuid::new_v4();
    let mut new_variants = vec![make_variant("Some", Uuid::new_v4(), vec![("value", Uuid::new_v4())])];
    let old_variants = vec![make_variant("Some", old_variant_id, vec![("value", old_field_id)])];

    transplant_variants(&mut new_variants, &old_variants);

    assert_eq!(new_variants[0].id, old_variant_id);
    assert_eq!(new_variants[0].fields[0].id, old_field_id);
}

#[test]
fn test_transplant_variants_no_match() {
    let new_id = Uuid::new_v4();
    let mut new_variants = vec![make_variant("Some", new_id, vec![])];
    let old_variants = vec![make_variant("None", Uuid::new_v4(), vec![])];

    transplant_variants(&mut new_variants, &old_variants);

    assert_eq!(new_variants[0].id, new_id);
}

#[test]
fn test_transplant_variants_multiple() {
    let old_some_id = Uuid::new_v4();
    let old_none_id = Uuid::new_v4();
    let mut new_variants = vec![make_variant("Some", Uuid::new_v4(), vec![]), make_variant("None", Uuid::new_v4(), vec![])];
    let old_variants = vec![make_variant("Some", old_some_id, vec![]), make_variant("None", old_none_id, vec![])];

    transplant_variants(&mut new_variants, &old_variants);

    assert_eq!(new_variants[0].id, old_some_id);
    assert_eq!(new_variants[1].id, old_none_id);
}

#[test]
fn transplant_takes_first_old_of_a_name() {
    let first = Uuid::new_v4();
    let mut new_params = vec![make_param("x", Uuid::new_v4())];
    let old_params = vec![make_param("y", Uuid::new_v4()), make_param("x", first), make_param("x", Uuid::new_v4())];
    transplant_params(&mut new_params, &old_params);
    assert_eq!(new_params[0].id, first);
}

#[test]
fn transplant_twice_is_transplant_once() {
    let a = Uuid::new_v4();
    let b = Uuid::new_v4();
    let old_fields = vec![make_field("a", a)];
    let mut fields = vec![make_field("a", Uuid::new_v4()), make_field("b", b)];
    transplant_fields(&mut fields, &old_fields);
    let ids: Vec<Uuid> = fields.iter().map(|f| f.id).collect();
    transplant_fields(&mut fields, &old_fields);
    assert_eq!(fields.iter().map(|f| f.id).collect::<Vec<_>>(), ids);
    assert_eq!(ids, vec![a, b]);
}

#[test]
fn unchanged_declarations_keep_their_ids() {
    let ids = [Uuid::new_v4(), Uuid::new_v4(), Uuid::new_v4()];
    let olds = vec![make_param("a", ids[0]), make_param("b", ids[1]), make_param("c", ids[2])];
    let mut news = vec![make_param("a", ids[0]), make_param("b", ids[1]), make_param("c", ids[2])];
    transplant_params(&mut news, &olds);
    assert_eq!(news.iter().map(|p| p.id).collect::<Vec<_>>(), ids.to_vec());
    let mut none: Vec<Param> = vec![make_param("a", ids[1])];
    transplant_params(&mut none, &vec![]);
    assert_eq!(none[0].id, ids[1]);
}
