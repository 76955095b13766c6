use pluto::monomorphize::body::substitute_in_expr;
use pluto::monomorphize::body::substitute_in_stmt;
use pluto::monomorphize::body::subst_block;
use pluto::monomorphize::body::substitute_in_function;
use pluto::monomorphize::body::substitute_in_class;
use pluto::monomorphize::body::reassign_function_uuids;
use pluto::monomorphize::body::reassign_class_uuids;
use pluto::parser::ast::ClassDecl;
use pluto::parser::ast::ContractClause;
use pluto::parser::ast::ContractKind;
use pluto::parser::ast::Field;
use pluto::parser::ast::Function;
use pluto::parser::ast::Lifecycle;
use pluto::parser::ast::Param;
use uuid::Uuid;
use pluto::monomorphize::TypeBindings;
use pluto::parser::ast::Block;
use pluto::parser::ast::BinOp;
use pluto::parser::ast::CatchHandler;
use pluto::parser::ast::Expr;
use pluto::parser::ast::Stmt;
use pluto::parser::ast::TypeExpr;
use pluto::span::Span;
use pluto::span::Spanned;

fn sp<T>(node: T, start: usize) -> Spanned<T> {
    Spanned { node, span: Span { start, end: start + 1, file_id: 0 } }
}

fn named(n: &str) -> TypeExpr {
    TypeExpr::Named(n.to_string())
}

fn t_to_int() -> TypeBindings {
    let mut b = TypeBindings::new();
    b.insert("T".to_string(), named("int"));
    b
}

fn is_named(te: &TypeExpr, n: &str) -> bool {
    matches!(te, TypeExpr::Named(x) if x == n)
}

#[test]
fn substitute_in_call_type_args_and_nested_cast() {
    let mut e = Expr::Call {
        name: sp("make".to_string(), 0),
        args: vec![sp(
            Expr::Cast { expr: Box::new(sp(Expr::IntLit(3), 5)), target_type: sp(named("T"), 7) },
            4,
        )],
        type_args: vec![sp(named("T"), 2), sp(named("U"), 3)],
        target_id: None,
    };
    substitute_in_expr(&mut e, &t_to_int());
    match &e {
        Expr::Call { name, args, type_args, .. } => {
            assert_eq!(name.node, "make");
            assert!(is_named(&type_args[0].node, "int"));
            assert_eq!(type_args[0].span.start, 2);
            assert!(is_named(&type_args[1].node, "U"));
            match &args[0].node {
                Expr::Cast { expr, target_type } => {
                    assert!(matches!(expr.node, Expr::IntLit(3)));
                    assert!(is_named(&target_type.node, "int"));
                    assert_eq!(target_type.span.start, 7);
                }
                _ => panic!("Expected Cast"),
            }
            assert_eq!(args[0].span.start, 4);
        }
        _ => panic!("Expected Call"),
    }
}

#[test]
fn substitute_in_binop_keeps_operator_and_operands() {
    let mut e = Expr::BinOp {
        op: BinOp::Add,
        lhs: Box::new(sp(Expr::Ident("x".to_string()), 0)),
        rhs: Box::new(sp(Expr::Cast { expr: Box::new(sp(Expr::IntLit(1), 3)), target_type: sp(named("T"), 4) }, 2)),
    };
    substitute_in_expr(&mut e, &t_to_int());
    match &e {
        Expr::BinOp { op, lhs, rhs } => {
            assert_eq!(*op, BinOp::Add);
            assert!(matches!(&lhs.node, Expr::Ident(x) if x == "x"));
            match &rhs.node {
                Expr::Cast { target_type, .. } => assert!(is_named(&target_type.node, "int")),
                _ => panic!("Expected Cast"),
            }
        }
        _ => panic!("Expected BinOp"),
    }
}

#[test]
fn substitute_in_let_and_closure_body() {
    let inner = Block {
        stmts: vec![sp(
            Stmt::Let { name: sp("y".to_string(), 1), ty: Some(sp(named("T"), 2)), value: sp(Expr::NoneLit, 3), is_mut: false },
            1,
        )],
    };
    let mut s = Stmt::Expr(sp(
        Expr::Catch {
            expr: Box::new(sp(Expr::Ident("f".to_string()), 10)),
            handler: CatchHandler::Wildcard { var: sp("e".to_string(), 11), body: sp(inner, 12) },
        },
        9,
    ));
    substitute_in_stmt(&mut s, &t_to_int());
    match &s {
        Stmt::Expr(x) => match &x.node {
            Expr::Catch { handler: CatchHandler::Wildcard { var, body }, .. } => {
                assert_eq!(var.node, "e");
                match &body.node.stmts[0].node {
                    Stmt::Let { name, ty, .. } => {
                        assert_eq!(name.node, "y");
                        assert!(is_named(&ty.as_ref().unwrap().node, "int"));
                    }
                    _ => panic!("Expected Let"),
                }
            }
            _ => panic!("Expected Catch"),
        },
        _ => panic!("Expected Expr statement"),
    }
}

#[test]
fn substitute_with_no_bindings_changes_nothing() {
    let mut b = Block {
        stmts: vec![
            sp(Stmt::Let { name: sp("v".to_string(), 0), ty: Some(sp(named("T"), 1)), value: sp(Expr::IntLit(7), 2), is_mut: true }, 0),
            sp(Stmt::Break, 5),
        ],
    };
    subst_block(&mut b, &TypeBindings::new());
    assert_eq!(b.stmts.len(), 2);
    match &b.stmts[0].node {
        Stmt::Let { ty, value, is_mut, .. } => {
            assert!(is_named(&ty.as_ref().unwrap().node, "T"));
            assert!(matches!(value.node, Expr::IntLit(7)));
            assert!(*is_mut);
        }
        _ => panic!("Expected Let"),
    }
    assert!(matches!(b.stmts[1].node, Stmt::Break));
}

fn generic_fn(id: Uuid) -> Function {
    Function {
        id,
        name: sp("id_of".to_string(), 0),
        type_params: vec![sp("T".to_string(), 1)],
        type_param_bounds: vec![],
        params: vec![Param { id, name: sp("x".to_string(), 2), ty: sp(named("T"), 3), is_mut: false }],
        return_type: Some(sp(TypeExpr::Array(Box::new(sp(named("T"), 5))), 4)),
        contracts: vec![sp(ContractClause { kind: ContractKind::Requires, expr: sp(Expr::BoolLit(true), 6) }, 6)],
        body: sp(Block { stmts: vec![sp(Stmt::Return(Some(sp(Expr::Ident("x".to_string()), 8))), 7)] }, 7),
        is_pub: true,
        is_override: false,
        is_generator: false,
    }
}

#[test]
fn substitute_in_function_signature_and_body() {
    let id = Uuid::new_v4();
    let mut f = generic_fn(id);
    substitute_in_function(&mut f, &t_to_int());
    assert_eq!(f.id, id);
    assert_eq!(f.name.node, "id_of");
    assert_eq!(f.type_params.len(), 1);
    assert!(is_named(&f.params[0].ty.node, "int"));
    assert_eq!(f.params[0].ty.span.start, 3);
    match &f.return_type.as_ref().unwrap().node {
        TypeExpr::Array(inner) => assert!(is_named(&inner.node, "int")),
        _ => panic!("Expected array return type"),
    }
    assert_eq!(f.contracts.len(), 1);
    assert!(matches!(f.body.node.stmts[0].node, Stmt::Return(Some(_))));
    assert!(f.is_pub);
}

#[test]
fn substitute_in_class_fields_and_methods() {
    let id = Uuid::new_v4();
    let mut c = ClassDecl {
        id,
        name: sp("Box".to_string(), 0),
        type_params: vec![sp("T".to_string(), 1)],
        type_param_bounds: vec![],
        fields: vec![Field { id, name: sp("value".to_string(), 2), ty: sp(named("T"), 3), is_injected: false, is_ambient: false }],
        methods: vec![sp(generic_fn(id), 10)],
        invariants: vec![],
        impl_traits: vec![],
        uses: vec![],
        is_pub: false,
        lifecycle: Lifecycle::Singleton,
    };
    substitute_in_class(&mut c, &t_to_int());
    assert!(is_named(&c.fields[0].ty.node, "int"));
    assert_eq!(c.fields[0].name.node, "value");
    assert!(is_named(&c.methods[0].node.params[0].ty.node, "int"));
    assert_eq!(c.methods[0].span.start, 10);
    assert_eq!(c.name.node, "Box");
}

#[test]
fn reassign_function_uuids_gives_params_fresh_ids() {
    let id = Uuid::nil();
    let mut f = generic_fn(id);
    reassign_function_uuids(&mut f);
    assert_eq!(f.id, id);
    assert_ne!(f.params[0].id, id);
    assert_eq!(f.params[0].id.get_version_num(), 4);
    assert_eq!(f.params[0].name.node, "x");
    assert!(is_named(&f.params[0].ty.node, "T"));
}

#[test]
fn reassign_class_uuids_gives_fields_methods_and_params_fresh_ids() {
    let id = Uuid::nil();
    let mut c = ClassDecl {
        id,
        name: sp("Box".to_string(), 0),
        type_params: vec![],
        type_param_bounds: vec![],
        fields: vec![Field { id, name: sp("value".to_string(), 2), ty: sp(named("int"), 3), is_injected: false, is_ambient: false }],
        methods: vec![sp(generic_fn(id), 10)],
        invariants: vec![],
        impl_traits: vec![],
        uses: vec![],
        is_pub: false,
        lifecycle: Lifecycle::Scoped,
    };
    reassign_class_uuids(&mut c);
    assert_eq!(c.id, id);
    assert_eq!(c.fields[0].id.get_version_num(), 4);
    assert_eq!(c.methods[0].node.id.get_version_num(), 4);
    assert_eq!(c.methods[0].node.params[0].id.get_version_num(), 4);
    assert_ne!(c.methods[0].node.id, c.methods[0].node.params[0].id);
    assert_eq!(c.fields[0].name.node, "value");
    assert_eq!(c.methods[0].node.name.node, "id_of");
}
