use pluto::pretty::PrettyPrinter;
use pluto::pretty::binop_prec;
use pluto::pretty::binop_str;
use pluto::pretty::escape_string;
use pluto::pretty::escape_interp;
use pluto::parser::infix_binding_power;
use pluto::parser::ast::BinOp;
use pluto::parser::ast::ImportDecl;
use pluto::parser::ast::ExternRustDecl;
use pluto::parser::ast::TypeExpr;
use pluto::span::Span;
use pluto::span::Spanned;
use pluto::parser::ast::EnumDecl;
use pluto::parser::ast::EnumVariant;
use pluto::parser::ast::ErrorDecl;
use pluto::parser::ast::ExternFnDecl;
use pluto::parser::ast::Field;
use pluto::parser::ast::Param;
use uuid::Uuid;

fn sp<T>(node: T) -> Spanned<T> {
    Spanned::new(node, Span::dummy())
}

fn named(n: &str) -> TypeExpr {
    TypeExpr::Named(n.to_string())
}

fn text_of(te: &TypeExpr) -> String {
    let mut pp = PrettyPrinter::new();
    pp.emit_type_expr(te);
    pp.buf
}

#[test]
fn printer_buffer_and_indent() {
    let mut pp = PrettyPrinter::new();
    pp.write("a");
    pp.indent();
    pp.indent();
    pp.newline();
    pp.write_indent();
    pp.write("b");
    pp.dedent();
    pp.newline();
    pp.write_indent();
    assert_eq!(pp.buf, "a\n        b\n    ");
    assert_eq!(pp.indent, 1);
}

#[test]
fn printer_imports_and_extern_rust() {
    let mut pp = PrettyPrinter::new();
    let imp = ImportDecl { path: vec![sp("std".to_string()), sp("math".to_string())], alias: Some(sp("m".to_string())) };
    pp.emit_import(&imp);
    pp.newline();
    let plain = ImportDecl { path: vec![sp("utils".to_string())], alias: None };
    pp.emit_import(&plain);
    pp.newline();
    let ext = ExternRustDecl { crate_path: sp("./crates/calc".to_string()), alias: sp("calc".to_string()) };
    pp.emit_extern_rust(&ext);
    assert_eq!(pp.buf, "import std.math as m\nimport utils\nextern rust ./crates/calc as calc");
}

#[test]
fn printer_type_params() {
    let mut pp = PrettyPrinter::new();
    pp.emit_type_params(&[]);
    assert_eq!(pp.buf, "");
    pp.emit_type_params(&[sp("K".to_string()), sp("V".to_string())]);
    assert_eq!(pp.buf, "<K, V>");
}

#[test]
fn printer_type_expressions() {
    assert_eq!(text_of(&named("int")), "int");
    assert_eq!(text_of(&TypeExpr::Array(Box::new(sp(named("string"))))), "[string]");
    assert_eq!(text_of(&TypeExpr::Qualified { module: "math".to_string(), name: "Vec2".to_string() }), "math.Vec2");
    let map = TypeExpr::Generic {
        name: "Map".to_string(),
        type_args: vec![sp(named("string")), sp(TypeExpr::Array(Box::new(sp(named("int")))))],
    };
    assert_eq!(text_of(&map), "Map<string, [int]>");
    let f_void = TypeExpr::Fn {
        params: vec![Box::new(sp(named("int"))), Box::new(sp(named("string")))],
        return_type: Box::new(sp(named("void"))),
    };
    assert_eq!(text_of(&f_void), "fn(int, string)");
    let f_bool = TypeExpr::Fn { params: vec![], return_type: Box::new(sp(named("bool"))) };
    assert_eq!(text_of(&f_bool), "fn() bool");
    assert_eq!(text_of(&TypeExpr::Nullable(Box::new(sp(named("int"))))), "int?");
    assert_eq!(text_of(&TypeExpr::Stream(Box::new(sp(named("int"))))), "stream int");
}

#[test]
fn printer_precedence_matches_parser() {
    let ops = [
        BinOp::Add, BinOp::Sub, BinOp::Mul, BinOp::Div, BinOp::Mod, BinOp::Eq, BinOp::Neq, BinOp::Lt,
        BinOp::Gt, BinOp::LtEq, BinOp::GtEq, BinOp::And, BinOp::Or, BinOp::BitAnd, BinOp::BitOr,
        BinOp::BitXor, BinOp::Shl, BinOp::Shr,
    ];
    for op in ops {
        let (l, r) = infix_binding_power(op);
        assert_eq!(binop_prec(op), l);
        assert_eq!(r, l + 1);
    }
    assert_eq!(infix_binding_power(BinOp::Or), (1, 2));
    assert_eq!(infix_binding_power(BinOp::Mul), (19, 20));
    assert!(binop_prec(BinOp::Mul) > binop_prec(BinOp::Add));
    assert!(binop_prec(BinOp::And) > binop_prec(BinOp::Or));
}

#[test]
fn printer_operator_symbols() {
    assert_eq!(binop_str(BinOp::Add), "+");
    assert_eq!(binop_str(BinOp::Neq), "!=");
    assert_eq!(binop_str(BinOp::And), "&&");
    assert_eq!(binop_str(BinOp::Shl), "<<");
}

#[test]
fn escaping_string_literals() {
    assert_eq!(escape_string("plain"), "plain");
    assert_eq!(escape_string("a\"b\\c"), "a\\\"b\\\\c");
    assert_eq!(escape_string("line\nnext\ttab\r"), "line\\nnext\\ttab\\r");
    assert_eq!(escape_string("{x}"), "{{x}}");
    assert_eq!(escape_interp("say {hi}\n"), "say {{hi}}\\n");
    assert!(!escape_string("many\nlines\n").contains('\n'));
}

fn field(name: &str, ty: &str) -> Field {
    Field { id: Uuid::new_v4(), name: sp(name.to_string()), ty: sp(named(ty)), is_injected: false, is_ambient: false }
}

fn param(name: &str, ty: &str, is_mut: bool) -> Param {
    Param { id: Uuid::new_v4(), name: sp(name.to_string()), ty: sp(named(ty)), is_mut }
}

#[test]
fn printer_params_and_extern_fn() {
    let mut pp = PrettyPrinter::new();
    pp.emit_params(&[param("self", "Self", false), param("x", "int", false)]);
    assert_eq!(pp.buf, "self, x: int");
    let mut pp = PrettyPrinter::new();
    pp.emit_params(&[param("self", "Self", true), param("self", "int", true)]);
    assert_eq!(pp.buf, "mut self, self: int");
    let ext = ExternFnDecl {
        name: sp("m.add".to_string()),
        params: vec![param("p0", "int", false), param("p1", "bool", false)],
        return_type: Some(sp(named("float"))),
        is_pub: false,
    };
    let mut pp = PrettyPrinter::new();
    pp.emit_extern_fn(&ext);
    assert_eq!(pp.buf, "extern fn m.add(p0: int, p1: bool) float");
    let void_ext = ExternFnDecl { name: sp("tick".to_string()), params: vec![], return_type: None, is_pub: true };
    let mut pp = PrettyPrinter::new();
    pp.emit_extern_fn(&void_ext);
    assert_eq!(pp.buf, "pub extern fn tick()");
}

#[test]
fn printer_error_and_enum_declarations() {
    let err = ErrorDecl { id: Uuid::new_v4(), name: sp("NotFound".to_string()), fields: vec![field("message", "string")], is_pub: false };
    let mut pp = PrettyPrinter::new();
    pp.emit_error_decl(&err);
    assert_eq!(pp.buf, "error NotFound {\n    message: string\n}");

    let en = EnumDecl {
        id: Uuid::new_v4(),
        name: sp("Option".to_string()),
        type_params: vec![sp("T".to_string())],
        type_param_bounds: vec![],
        variants: vec![
            EnumVariant { id: Uuid::new_v4(), name: sp("Some".to_string()), fields: vec![field("value", "T")] },
            EnumVariant { id: Uuid::new_v4(), name: sp("None".to_string()), fields: vec![] },
        ],
        is_pub: true,
    };
    let mut pp = PrettyPrinter::new();
    pp.emit_enum_decl(&en);
    assert_eq!(pp.buf, "pub enum Option<T> {\n    Some {\n        value: T\n    }\n    None\n}");

    let mut pp = PrettyPrinter::new();
    pp.indent();
    pp.emit_enum_decl(&en);
    assert_eq!(pp.buf, "pub enum Option<T> {\n        Some {\n            value: T\n        }\n        None\n}");
}
