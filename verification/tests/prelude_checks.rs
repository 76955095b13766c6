use pluto::prelude::check_prelude;
use pluto::prelude::prepend_prelude_enums;
use pluto::prelude::PreludeNames;
use pluto::prelude::ProgramNames;
use pluto::prelude::inject_prelude;
use pluto::prelude::DeclRef;
use pluto::prelude::PreludeDecls;
use pluto::prelude::ProgramDecls;
use pluto::parser::ast::ErrorDecl;
use pluto::parser::ast::EnumDecl;
use pluto::diagnostics::CompileError;
use pluto::span::Span;
use pluto::span::Spanned;
use uuid::Uuid;

fn names(v: &[&str]) -> Vec<String> {
    v.iter().map(|s| s.to_string()).collect()
}

fn spanned(v: &[(&str, usize)]) -> Vec<Spanned<String>> {
    v.iter().map(|(s, at)| Spanned::new(s.to_string(), Span::new(*at, *at + s.len()))).collect()
}

fn prelude() -> PreludeNames {
    PreludeNames { enums: names(&["Option", "Result"]), classes: names(&["Box"]), traits: names(&["Eq"]) }
}

fn program(enums: &[(&str, usize)], classes: &[(&str, usize)], traits: &[(&str, usize)], errors: &[(&str, usize)]) -> ProgramNames {
    ProgramNames { enums: spanned(enums), classes: spanned(classes), traits: spanned(traits), errors: spanned(errors) }
}

fn enum_decl(name: &str) -> Spanned<EnumDecl> {
    Spanned::new(
        EnumDecl {
            id: Uuid::new_v4(),
            name: Spanned::new(name.to_string(), Span::dummy()),
            type_params: vec![],
            type_param_bounds: vec![],
            variants: vec![],
            is_pub: false,
        },
        Span::dummy(),
    )
}

#[test]
fn program_without_conflicts_may_take_the_prelude() {
    let d = program(&[("Color", 0)], &[("Point", 10)], &[("Show", 20)], &[("NotFound", 30)]);
    assert!(matches!(check_prelude(&prelude(), &d), Ok(false)));
}

#[test]
fn program_starting_with_a_prelude_enum_has_it_already() {
    let d = program(&[("Result", 0), ("Option", 5)], &[("Box", 10)], &[], &[]);
    assert!(matches!(check_prelude(&prelude(), &d), Ok(true)));
}

#[test]
fn class_named_like_a_prelude_enum_is_refused() {
    let d = program(&[("Color", 0)], &[("Option", 12)], &[], &[]);
    match check_prelude(&prelude(), &d) {
        Err(CompileError::Type { msg, span }) => {
            assert_eq!(msg, "cannot define class 'Option': conflicts with built-in prelude type");
            assert_eq!(span, Span::new(12, 18));
        }
        other => panic!("unexpected {:?}", other),
    }
}

#[test]
fn error_named_like_a_prelude_trait_is_refused() {
    let d = program(&[], &[], &[], &[("Eq", 40)]);
    match check_prelude(&prelude(), &d) {
        Err(CompileError::Type { msg, span }) => {
            assert_eq!(msg, "cannot define error 'Eq': conflicts with built-in prelude type");
            assert_eq!(span, Span::new(40, 42));
        }
        other => panic!("unexpected {:?}", other),
    }
}

#[test]
fn enum_conflicts_come_before_class_conflicts() {
    let d = program(&[("Color", 0), ("Result", 7)], &[("Box", 20)], &[], &[]);
    match check_prelude(&prelude(), &d) {
        Err(CompileError::Type { msg, .. }) => {
            assert_eq!(msg, "cannot define enum 'Result': conflicts with built-in prelude type");
        }
        other => panic!("unexpected {:?}", other),
    }
}

#[test]
fn prepended_prelude_enums_are_found_on_the_next_check() {
    let mut enums = vec![enum_decl("Color")];
    prepend_prelude_enums(&mut enums, &vec![enum_decl("Option"), enum_decl("Result")]);
    let got: Vec<String> = enums.iter().map(|e| e.node.name.node.clone()).collect();
    assert_eq!(got, names(&["Option", "Result", "Color"]));
    let d = ProgramNames {
        enums: enums.iter().map(|e| e.node.name.clone()).collect(),
        classes: vec![],
        traits: vec![],
        errors: vec![],
    };
    assert!(matches!(check_prelude(&prelude(), &d), Ok(true)));
}

fn decl_ref(name: &str, key: usize, at: usize) -> Spanned<DeclRef> {
    Spanned::new(DeclRef { name: Spanned::new(name.to_string(), Span::new(at, at + name.len())), key }, Span::dummy())
}

fn prelude_decls() -> PreludeDecls {
    PreludeDecls {
        enums: vec![enum_decl("Option"), enum_decl("Result")],
        classes: vec![decl_ref("Box", 100, 0)],
        traits: vec![decl_ref("Eq", 101, 0)],
    }
}

fn names_of_enums(v: &[Spanned<EnumDecl>]) -> Vec<String> {
    v.iter().map(|e| e.node.name.node.clone()).collect()
}

#[test]
fn inject_prelude_puts_the_prelude_first() {
    let mut program = ProgramDecls {
        enums: vec![enum_decl("Color")],
        classes: vec![decl_ref("Point", 1, 10)],
        traits: vec![],
        errors: vec![],
    };
    assert!(inject_prelude(&mut program, &prelude_decls()).is_ok());
    assert_eq!(names_of_enums(&program.enums), names(&["Option", "Result", "Color"]));
    let classes: Vec<usize> = program.classes.iter().map(|c| c.node.key).collect();
    assert_eq!(classes, vec![100, 1]);
    assert_eq!(program.traits.len(), 1);
    assert_eq!(program.traits[0].node.name.node, "Eq");
}

#[test]
fn inject_prelude_twice_changes_nothing() {
    let mut program = ProgramDecls { enums: vec![enum_decl("Color")], classes: vec![], traits: vec![], errors: vec![] };
    assert!(inject_prelude(&mut program, &prelude_decls()).is_ok());
    let enums = names_of_enums(&program.enums);
    let classes = program.classes.len();
    assert!(inject_prelude(&mut program, &prelude_decls()).is_ok());
    assert_eq!(names_of_enums(&program.enums), enums);
    assert_eq!(program.classes.len(), classes);
}

#[test]
fn inject_prelude_conflict_leaves_the_program_as_it_was() {
    let mut program = ProgramDecls {
        enums: vec![enum_decl("Color")],
        classes: vec![],
        traits: vec![],
        errors: vec![Spanned::new(
            ErrorDecl { id: Uuid::new_v4(), name: Spanned::new("Box".to_string(), Span::new(7, 10)), fields: vec![], is_pub: false },
            Span::dummy(),
        )],
    };
    match inject_prelude(&mut program, &prelude_decls()) {
        Err(CompileError::Type { msg, span }) => {
            assert_eq!(msg, "cannot define error 'Box': conflicts with built-in prelude type");
            assert_eq!(span, Span::new(7, 10));
        }
        other => panic!("unexpected {:?}", other),
    }
    assert_eq!(names_of_enums(&program.enums), names(&["Color"]));
    assert_eq!(program.errors.len(), 1);
}
