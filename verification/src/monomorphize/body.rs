use vstd::prelude::*;
use crate::span::Span;
use crate::span::Spanned;
use crate::parser::ast::TypeExpr;
use crate::parser::ast::TypeExprM;
use crate::parser::ast::Param;
use crate::parser::ast::ScopeBinding;
use crate::parser::ast::Block;
use crate::parser::ast::Stmt;
use crate::parser::ast::Expr;
use crate::parser::ast::StringInterpPart;
use crate::parser::ast::CatchHandler;
use crate::parser::ast::MatchArm;
use crate::parser::ast::SelectArm;
use crate::parser::ast::SelectOp;
use crate::parser::ast::Field;
use crate::parser::ast::Function;
use crate::parser::ast::ClassDecl;
use crate::parser::ast::fresh_id;
use crate::parser::ast::uuid_version;
use crate::monomorphize::TypeBindings;
use crate::monomorphize::spec_subst;
use crate::monomorphize::substitute_in_type_expr;

verus! {

// ── What substitution in a body means ───────────────────────────────
//
// Each relation below holds of an old node `a` and a new node `b` when `b`
// is `a` with every type expression in it replaced by its substitution
// under `m`, and everything else (names, literals, ids, spans, flags, the
// order and number of children) left as it was.

/// A spanned type expression substituted under `m`, at the same span.
pub open spec fn te_rel(a: Spanned<TypeExpr>, b: Spanned<TypeExpr>, m: Map<Seq<char>, TypeExprM>) -> bool {
    b.span == a.span && b.node.model() == spec_subst(a.node.model(), m)
}

pub open spec fn tes_rel(a: Seq<Spanned<TypeExpr>>, b: Seq<Spanned<TypeExpr>>, m: Map<Seq<char>, TypeExprM>) -> bool {
    a.len() == b.len() && forall|i: int| 0 <= i < a.len() ==> #[trigger] te_rel(a[i], b[i], m)
}

pub open spec fn opt_te_rel(a: Option<Spanned<TypeExpr>>, b: Option<Spanned<TypeExpr>>, m: Map<Seq<char>, TypeExprM>) -> bool {
    match a {
        None => b is None,
        Some(x) => b matches Some(y) && te_rel(x, y, m),
    }
}

pub open spec fn param_rel(a: Param, b: Param, m: Map<Seq<char>, TypeExprM>) -> bool {
    b.id == a.id && b.name == a.name && b.is_mut == a.is_mut && te_rel(a.ty, b.ty, m)
}

pub open spec fn params_rel(a: Seq<Param>, b: Seq<Param>, m: Map<Seq<char>, TypeExprM>) -> bool {
    a.len() == b.len() && forall|i: int| 0 <= i < a.len() ==> #[trigger] param_rel(a[i], b[i], m)
}

pub open spec fn scope_binding_rel(a: ScopeBinding, b: ScopeBinding, m: Map<Seq<char>, TypeExprM>) -> bool {
    b.name == a.name && te_rel(a.ty, b.ty, m)
}

pub open spec fn scope_bindings_rel(a: Seq<ScopeBinding>, b: Seq<ScopeBinding>, m: Map<Seq<char>, TypeExprM>) -> bool {
    a.len() == b.len() && forall|i: int| 0 <= i < a.len() ==> #[trigger] scope_binding_rel(a[i], b[i], m)
}

/// A spanned expression substituted under `m`, at the same span.
pub open spec fn sexpr_rel(a: Spanned<Expr>, b: Spanned<Expr>, m: Map<Seq<char>, TypeExprM>) -> bool
    decreases a,
{
    b.span == a.span && expr_rel(a.node, b.node, m)
}

pub open spec fn opt_sexpr_rel(a: Option<Spanned<Expr>>, b: Option<Spanned<Expr>>, m: Map<Seq<char>, TypeExprM>) -> bool
    decreases a,
{
    match a {
        None => b is None,
        Some(x) => b matches Some(y) && sexpr_rel(x, y, m),
    }
}

pub open spec fn exprs_rel(a: Seq<Spanned<Expr>>, b: Seq<Spanned<Expr>>, m: Map<Seq<char>, TypeExprM>) -> bool
    decreases a,
{
    a.len() == b.len() && forall|i: int| 0 <= i < a.len() ==> #[trigger] sexpr_rel(a[i], b[i], m)
}

pub open spec fn field_rel(a: (Spanned<String>, Spanned<Expr>), b: (Spanned<String>, Spanned<Expr>), m: Map<Seq<char>, TypeExprM>) -> bool
    decreases a,
{
    b.0 == a.0 && sexpr_rel(a.1, b.1, m)
}

pub open spec fn fields_rel(a: Seq<(Spanned<String>, Spanned<Expr>)>, b: Seq<(Spanned<String>, Spanned<Expr>)>, m: Map<Seq<char>, TypeExprM>) -> bool
    decreases a,
{
    a.len() == b.len() && forall|i: int| 0 <= i < a.len() ==> #[trigger] field_rel(a[i], b[i], m)
}

pub open spec fn entry_rel(a: (Spanned<Expr>, Spanned<Expr>), b: (Spanned<Expr>, Spanned<Expr>), m: Map<Seq<char>, TypeExprM>) -> bool
    decreases a,
{
    sexpr_rel(a.0, b.0, m) && sexpr_rel(a.1, b.1, m)
}

pub open spec fn entries_rel(a: Seq<(Spanned<Expr>, Spanned<Expr>)>, b: Seq<(Spanned<Expr>, Spanned<Expr>)>, m: Map<Seq<char>, TypeExprM>) -> bool
    decreases a,
{
    a.len() == b.len() && forall|i: int| 0 <= i < a.len() ==> #[trigger] entry_rel(a[i], b[i], m)
}

pub open spec fn part_rel(a: StringInterpPart, b: StringInterpPart, m: Map<Seq<char>, TypeExprM>) -> bool
    decreases a,
{
    match a {
        StringInterpPart::Lit(_) => b == a,
        StringInterpPart::Expr(x) => b matches StringInterpPart::Expr(y) && sexpr_rel(x, y, m),
    }
}

pub open spec fn parts_rel(a: Seq<StringInterpPart>, b: Seq<StringInterpPart>, m: Map<Seq<char>, TypeExprM>) -> bool
    decreases a,
{
    a.len() == b.len() && forall|i: int| 0 <= i < a.len() ==> #[trigger] part_rel(a[i], b[i], m)
}

/// A spanned block substituted under `m`, at the same span.
pub open spec fn sblock_rel(a: Spanned<Block>, b: Spanned<Block>, m: Map<Seq<char>, TypeExprM>) -> bool
    decreases a,
{
    b.span == a.span && stmts_rel(a.node.stmts@, b.node.stmts@, m)
}

pub open spec fn opt_sblock_rel(a: Option<Spanned<Block>>, b: Option<Spanned<Block>>, m: Map<Seq<char>, TypeExprM>) -> bool
    decreases a,
{
    match a {
        None => b is None,
        Some(x) => b matches Some(y) && sblock_rel(x, y, m),
    }
}

pub open spec fn handler_rel(a: CatchHandler, b: CatchHandler, m: Map<Seq<char>, TypeExprM>) -> bool
    decreases a,
{
    match a {
        CatchHandler::Wildcard { var, body } => b matches CatchHandler::Wildcard { var: v2, body: b2 }
            && v2 == var && sblock_rel(body, b2, m),
        CatchHandler::Shorthand(x) => b matches CatchHandler::Shorthand(y) && sexpr_rel(*x, *y, m),
    }
}

/// An expression substituted under `m`.
pub open spec fn expr_rel(a: Expr, b: Expr, m: Map<Seq<char>, TypeExprM>) -> bool
    decreases a,
{
    match a {
        Expr::BinOp { op, lhs, rhs } => b matches Expr::BinOp { op: op2, lhs: l2, rhs: r2 }
            && op2 == op && sexpr_rel(*lhs, *l2, m) && sexpr_rel(*rhs, *r2, m),
        Expr::UnaryOp { op, operand } => b matches Expr::UnaryOp { op: op2, operand: o2 }
            && op2 == op && sexpr_rel(*operand, *o2, m),
        Expr::Call { name, args, type_args, target_id } => b matches Expr::Call { name: n2, args: a2, type_args: t2, target_id: i2 }
            && n2 == name && i2 == target_id && exprs_rel(args@, a2@, m) && tes_rel(type_args@, t2@, m),
        Expr::FieldAccess { object, field } => b matches Expr::FieldAccess { object: o2, field: f2 }
            && f2 == field && sexpr_rel(*object, *o2, m),
        Expr::MethodCall { object, method, args } => b matches Expr::MethodCall { object: o2, method: n2, args: a2 }
            && n2 == method && sexpr_rel(*object, *o2, m) && exprs_rel(args@, a2@, m),
        Expr::StructLit { name, type_args, fields, target_id } => b matches Expr::StructLit { name: n2, type_args: t2, fields: f2, target_id: i2 }
            && n2 == name && i2 == target_id && tes_rel(type_args@, t2@, m) && fields_rel(fields@, f2@, m),
        Expr::ArrayLit { elements } => b matches Expr::ArrayLit { elements: e2 } && exprs_rel(elements@, e2@, m),
        Expr::Index { object, index } => b matches Expr::Index { object: o2, index: x2 }
            && sexpr_rel(*object, *o2, m) && sexpr_rel(*index, *x2, m),
        Expr::EnumUnit { enum_name, variant, type_args, enum_id, variant_id } =>
            b matches Expr::EnumUnit { enum_name: n2, variant: v2, type_args: t2, enum_id: e2, variant_id: w2 }
            && n2 == enum_name && v2 == variant && e2 == enum_id && w2 == variant_id && tes_rel(type_args@, t2@, m),
        Expr::EnumData { enum_name, variant, type_args, fields, enum_id, variant_id } =>
            b matches Expr::EnumData { enum_name: n2, variant: v2, type_args: t2, fields: f2, enum_id: e2, variant_id: w2 }
            && n2 == enum_name && v2 == variant && e2 == enum_id && w2 == variant_id
            && tes_rel(type_args@, t2@, m) && fields_rel(fields@, f2@, m),
        Expr::StringInterp { parts } => b matches Expr::StringInterp { parts: p2 } && parts_rel(parts@, p2@, m),
        Expr::Closure { params, return_type, body } => b matches Expr::Closure { params: p2, return_type: r2, body: b2 }
            && params_rel(params@, p2@, m) && opt_te_rel(return_type, r2, m) && sblock_rel(body, b2, m),
        Expr::MapLit { key_type, value_type, entries } => b matches Expr::MapLit { key_type: k2, value_type: v2, entries: e2 }
            && te_rel(key_type, k2, m) && te_rel(value_type, v2, m) && entries_rel(entries@, e2@, m),
        Expr::SetLit { elem_type, elements } => b matches Expr::SetLit { elem_type: t2, elements: e2 }
            && te_rel(elem_type, t2, m) && exprs_rel(elements@, e2@, m),
        Expr::Propagate { expr } => b matches Expr::Propagate { expr: x2 } && sexpr_rel(*expr, *x2, m),
        Expr::Catch { expr, handler } => b matches Expr::Catch { expr: x2, handler: h2 }
            && sexpr_rel(*expr, *x2, m) && handler_rel(handler, h2, m),
        Expr::Cast { expr, target_type } => b matches Expr::Cast { expr: x2, target_type: t2 }
            && sexpr_rel(*expr, *x2, m) && te_rel(target_type, t2, m),
        Expr::Range { start, end, inclusive } => b matches Expr::Range { start: s2, end: e2, inclusive: i2 }
            && i2 == inclusive && sexpr_rel(*start, *s2, m) && sexpr_rel(*end, *e2, m),
        Expr::Spawn { call } => b matches Expr::Spawn { call: c2 } && sexpr_rel(*call, *c2, m),
        Expr::NullPropagate { expr } => b matches Expr::NullPropagate { expr: x2 } && sexpr_rel(*expr, *x2, m),
        _ => b == a,
    }
}

pub open spec fn arm_rel(a: MatchArm, b: MatchArm, m: Map<Seq<char>, TypeExprM>) -> bool
    decreases a,
{
    &&& b.enum_name == a.enum_name
    &&& b.variant_name == a.variant_name
    &&& b.bindings == a.bindings
    &&& b.enum_id == a.enum_id
    &&& b.variant_id == a.variant_id
    &&& tes_rel(a.type_args@, b.type_args@, m)
    &&& sblock_rel(a.body, b.body, m)
}

pub open spec fn arms_rel(a: Seq<MatchArm>, b: Seq<MatchArm>, m: Map<Seq<char>, TypeExprM>) -> bool
    decreases a,
{
    a.len() == b.len() && forall|i: int| 0 <= i < a.len() ==> #[trigger] arm_rel(a[i], b[i], m)
}

pub open spec fn select_op_rel(a: SelectOp, b: SelectOp, m: Map<Seq<char>, TypeExprM>) -> bool
    decreases a,
{
    match a {
        SelectOp::Recv { binding, channel } => b matches SelectOp::Recv { binding: b2, channel: c2 }
            && b2 == binding && sexpr_rel(channel, c2, m),
        SelectOp::Send { channel, value } => b matches SelectOp::Send { channel: c2, value: v2 }
            && sexpr_rel(channel, c2, m) && sexpr_rel(value, v2, m),
    }
}

pub open spec fn select_arm_rel(a: SelectArm, b: SelectArm, m: Map<Seq<char>, TypeExprM>) -> bool
    decreases a,
{
    select_op_rel(a.op, b.op, m) && sblock_rel(a.body, b.body, m)
}

pub open spec fn select_arms_rel(a: Seq<SelectArm>, b: Seq<SelectArm>, m: Map<Seq<char>, TypeExprM>) -> bool
    decreases a,
{
    a.len() == b.len() && forall|i: int| 0 <= i < a.len() ==> #[trigger] select_arm_rel(a[i], b[i], m)
}

/// A statement substituted under `m`.
pub open spec fn stmt_rel(a: Stmt, b: Stmt, m: Map<Seq<char>, TypeExprM>) -> bool
    decreases a,
{
    match a {
        Stmt::Let { name, ty, value, is_mut } => b matches Stmt::Let { name: n2, ty: t2, value: v2, is_mut: m2 }
            && n2 == name && m2 == is_mut && opt_te_rel(ty, t2, m) && sexpr_rel(value, v2, m),
        Stmt::Return(v) => b matches Stmt::Return(v2) && opt_sexpr_rel(v, v2, m),
        Stmt::Assign { target, value } => b matches Stmt::Assign { target: t2, value: v2 }
            && t2 == target && sexpr_rel(value, v2, m),
        Stmt::FieldAssign { object, field, value } => b matches Stmt::FieldAssign { object: o2, field: f2, value: v2 }
            && f2 == field && sexpr_rel(object, o2, m) && sexpr_rel(value, v2, m),
        Stmt::If { condition, then_block, else_block } => b matches Stmt::If { condition: c2, then_block: t2, else_block: e2 }
            && sexpr_rel(condition, c2, m) && sblock_rel(then_block, t2, m) && opt_sblock_rel(else_block, e2, m),
        Stmt::While { condition, body } => b matches Stmt::While { condition: c2, body: b2 }
            && sexpr_rel(condition, c2, m) && sblock_rel(body, b2, m),
        Stmt::For { var, iterable, body } => b matches Stmt::For { var: v2, iterable: i2, body: b2 }
            && v2 == var && sexpr_rel(iterable, i2, m) && sblock_rel(body, b2, m),
        Stmt::IndexAssign { object, index, value } => b matches Stmt::IndexAssign { object: o2, index: x2, value: v2 }
            && sexpr_rel(object, o2, m) && sexpr_rel(index, x2, m) && sexpr_rel(value, v2, m),
        Stmt::Match { expr, arms } => b matches Stmt::Match { expr: x2, arms: a2 }
            && sexpr_rel(expr, x2, m) && arms_rel(arms@, a2@, m),
        Stmt::Raise { error_name, fields, error_id } => b matches Stmt::Raise { error_name: n2, fields: f2, error_id: i2 }
            && n2 == error_name && i2 == error_id && fields_rel(fields@, f2@, m),
        Stmt::LetChan { sender, receiver, elem_type, capacity } => b matches Stmt::LetChan { sender: s2, receiver: r2, elem_type: t2, capacity: c2 }
            && s2 == sender && r2 == receiver && te_rel(elem_type, t2, m) && opt_sexpr_rel(capacity, c2, m),
        Stmt::Select { arms, default } => b matches Stmt::Select { arms: a2, default: d2 }
            && select_arms_rel(arms@, a2@, m) && opt_sblock_rel(default, d2, m),
        Stmt::Scope { seeds, bindings, body } => b matches Stmt::Scope { seeds: s2, bindings: g2, body: b2 }
            && exprs_rel(seeds@, s2@, m) && scope_bindings_rel(bindings@, g2@, m) && sblock_rel(body, b2, m),
        Stmt::Yield { value } => b matches Stmt::Yield { value: v2 } && sexpr_rel(value, v2, m),
        Stmt::Expr(x) => b matches Stmt::Expr(y) && sexpr_rel(x, y, m),
        _ => b == a,
    }
}

pub open spec fn sstmt_rel(a: Spanned<Stmt>, b: Spanned<Stmt>, m: Map<Seq<char>, TypeExprM>) -> bool
    decreases a,
{
    b.span == a.span && stmt_rel(a.node, b.node, m)
}

pub open spec fn stmts_rel(a: Seq<Spanned<Stmt>>, b: Seq<Spanned<Stmt>>, m: Map<Seq<char>, TypeExprM>) -> bool
    decreases a,
{
    a.len() == b.len() && forall|i: int| 0 <= i < a.len() ==> #[trigger] sstmt_rel(a[i], b[i], m)
}

/// A block substituted under `m`.
pub open spec fn block_rel(a: Block, b: Block, m: Map<Seq<char>, TypeExprM>) -> bool {
    stmts_rel(a.stmts@, b.stmts@, m)
}


// ── Substitution in bodies ──────────────────────────────────────────

fn subst_tes(v: &mut Vec<Spanned<TypeExpr>>, bindings: &TypeBindings)
    ensures
        tes_rel(old(v)@, final(v)@, bindings@),
{
    let ghost old_v = v@;
    let mut i: usize = 0;
    while i < v.len()
        invariant
            i <= v.len(),
            v@.len() == old_v.len(),
            forall|j: int| 0 <= j < i ==> #[trigger] te_rel(old_v[j], v@[j], bindings@),
            forall|j: int| i <= j < old_v.len() ==> #[trigger] v@[j] == old_v[j],
        decreases v.len() - i,
    {
        substitute_in_type_expr(&mut v[i].node, bindings);
        i += 1;
    }
}

fn subst_opt_te(o: Option<Spanned<TypeExpr>>, bindings: &TypeBindings) -> (r: Option<Spanned<TypeExpr>>)
    ensures
        opt_te_rel(o, r, bindings@),
{
    match o {
        Some(mut t) => {
            substitute_in_type_expr(&mut t.node, bindings);
            Some(t)
        },
        None => None,
    }
}

fn subst_params(v: &mut Vec<Param>, bindings: &TypeBindings)
    ensures
        params_rel(old(v)@, final(v)@, bindings@),
{
    let ghost old_v = v@;
    let mut i: usize = 0;
    while i < v.len()
        invariant
            i <= v.len(),
            v@.len() == old_v.len(),
            forall|j: int| 0 <= j < i ==> #[trigger] param_rel(old_v[j], v@[j], bindings@),
            forall|j: int| i <= j < old_v.len() ==> #[trigger] v@[j] == old_v[j],
        decreases v.len() - i,
    {
        substitute_in_type_expr(&mut v[i].ty.node, bindings);
        i += 1;
    }
}

fn subst_scope_bindings(v: &mut Vec<ScopeBinding>, bindings: &TypeBindings)
    ensures
        scope_bindings_rel(old(v)@, final(v)@, bindings@),
{
    let ghost old_v = v@;
    let mut i: usize = 0;
    while i < v.len()
        invariant
            i <= v.len(),
            v@.len() == old_v.len(),
            forall|j: int| 0 <= j < i ==> #[trigger] scope_binding_rel(old_v[j], v@[j], bindings@),
            forall|j: int| i <= j < old_v.len() ==> #[trigger] v@[j] == old_v[j],
        decreases v.len() - i,
    {
        substitute_in_type_expr(&mut v[i].ty.node, bindings);
        i += 1;
    }
}

fn subst_exprs(v: &mut Vec<Spanned<Expr>>, bindings: &TypeBindings)
    ensures
        exprs_rel(old(v)@, final(v)@, bindings@),
    decreases old(v)@,
{
    let ghost old_v = v@;
    let mut i: usize = 0;
    while i < v.len()
        invariant
            i <= v.len(),
            v@.len() == old_v.len(),
            old_v == old(v)@,
            forall|j: int| 0 <= j < i ==> #[trigger] sexpr_rel(old_v[j], v@[j], bindings@),
            forall|j: int| i <= j < old_v.len() ==> #[trigger] v@[j] == old_v[j],
        decreases v.len() - i,
    {
        proof {
            assert(decreases_to!(old_v => old_v[i as int]));
            assert(decreases_to!(old_v[i as int] => old_v[i as int].node));
        }
        substitute_in_expr(&mut v[i].node, bindings);
        i += 1;
    }
    proof { lemma_exprs_rel_intro(old_v, v@, bindings@); }
}

fn subst_fields(v: &mut Vec<(Spanned<String>, Spanned<Expr>)>, bindings: &TypeBindings)
    ensures
        fields_rel(old(v)@, final(v)@, bindings@),
    decreases old(v)@,
{
    let ghost old_v = v@;
    let mut i: usize = 0;
    while i < v.len()
        invariant
            i <= v.len(),
            v@.len() == old_v.len(),
            old_v == old(v)@,
            forall|j: int| 0 <= j < i ==> #[trigger] field_rel(old_v[j], v@[j], bindings@),
            forall|j: int| i <= j < old_v.len() ==> #[trigger] v@[j] == old_v[j],
        decreases v.len() - i,
    {
        proof {
            assert(decreases_to!(old_v => old_v[i as int]));
            assert(decreases_to!(old_v[i as int] => old_v[i as int].1));
            assert(decreases_to!(old_v[i as int].1 => old_v[i as int].1.node));
        }
        substitute_in_expr(&mut v[i].1.node, bindings);
        i += 1;
    }
    proof { lemma_fields_rel_intro(old_v, v@, bindings@); }
}

fn subst_entries(v: &mut Vec<(Spanned<Expr>, Spanned<Expr>)>, bindings: &TypeBindings)
    ensures
        entries_rel(old(v)@, final(v)@, bindings@),
    decreases old(v)@,
{
    let ghost old_v = v@;
    let mut i: usize = 0;
    while i < v.len()
        invariant
            i <= v.len(),
            v@.len() == old_v.len(),
            old_v == old(v)@,
            forall|j: int| 0 <= j < i ==> #[trigger] entry_rel(old_v[j], v@[j], bindings@),
            forall|j: int| i <= j < old_v.len() ==> #[trigger] v@[j] == old_v[j],
        decreases v.len() - i,
    {
        proof {
            assert(decreases_to!(old_v => old_v[i as int]));
            assert(decreases_to!(old_v[i as int] => old_v[i as int].0));
            assert(decreases_to!(old_v[i as int].0 => old_v[i as int].0.node));
            assert(decreases_to!(old_v[i as int] => old_v[i as int].1));
            assert(decreases_to!(old_v[i as int].1 => old_v[i as int].1.node));
        }
        substitute_in_expr(&mut v[i].0.node, bindings);
        substitute_in_expr(&mut v[i].1.node, bindings);
        i += 1;
    }
    proof { lemma_entries_rel_intro(old_v, v@, bindings@); }
}

fn subst_part(p: &mut StringInterpPart, bindings: &TypeBindings)
    ensures
        part_rel(*old(p), *final(p), bindings@),
    decreases *old(p),
{
    let mut tmp = StringInterpPart::Lit(String::new());
    std::mem::swap(&mut tmp, p);
    match tmp {
        StringInterpPart::Expr(mut x) => {
            substitute_in_expr(&mut x.node, bindings);
            *p = StringInterpPart::Expr(x);
        },
        other => {
            *p = other;
        },
    }
}

fn subst_parts(v: &mut Vec<StringInterpPart>, bindings: &TypeBindings)
    ensures
        parts_rel(old(v)@, final(v)@, bindings@),
    decreases old(v)@,
{
    let ghost old_v = v@;
    let mut i: usize = 0;
    while i < v.len()
        invariant
            i <= v.len(),
            v@.len() == old_v.len(),
            old_v == old(v)@,
            forall|j: int| 0 <= j < i ==> #[trigger] part_rel(old_v[j], v@[j], bindings@),
            forall|j: int| i <= j < old_v.len() ==> #[trigger] v@[j] == old_v[j],
        decreases v.len() - i,
    {
        proof {
            assert(decreases_to!(old_v => old_v[i as int]));
        }
        subst_part(&mut v[i], bindings);
        i += 1;
    }
    proof { lemma_parts_rel_intro(old_v, v@, bindings@); }
}

fn subst_arms(v: &mut Vec<MatchArm>, bindings: &TypeBindings)
    ensures
        arms_rel(old(v)@, final(v)@, bindings@),
    decreases old(v)@,
{
    let ghost old_v = v@;
    let mut i: usize = 0;
    while i < v.len()
        invariant
            i <= v.len(),
            v@.len() == old_v.len(),
            old_v == old(v)@,
            forall|j: int| 0 <= j < i ==> #[trigger] arm_rel(old_v[j], v@[j], bindings@),
            forall|j: int| i <= j < old_v.len() ==> #[trigger] v@[j] == old_v[j],
        decreases v.len() - i,
    {
        proof {
            assert(decreases_to!(old_v => old_v[i as int]));
            assert(decreases_to!(old_v[i as int] => old_v[i as int].body));
            assert(decreases_to!(old_v[i as int].body => old_v[i as int].body.node));
        }
        subst_block(&mut v[i].body.node, bindings);
        subst_tes(&mut v[i].type_args, bindings);
        i += 1;
    }
    proof { lemma_arms_rel_intro(old_v, v@, bindings@); }
}

fn subst_select_op(op: &mut SelectOp, bindings: &TypeBindings)
    ensures
        select_op_rel(*old(op), *final(op), bindings@),
    decreases *old(op),
{
    let mut tmp = SelectOp::Recv {
        binding: Spanned { node: String::new(), span: Span::dummy() },
        channel: Spanned { node: Expr::NoneLit, span: Span::dummy() },
    };
    std::mem::swap(&mut tmp, op);
    match tmp {
        SelectOp::Recv { binding, mut channel } => {
            substitute_in_expr(&mut channel.node, bindings);
            *op = SelectOp::Recv { binding, channel };
        },
        SelectOp::Send { mut channel, mut value } => {
            substitute_in_expr(&mut channel.node, bindings);
            substitute_in_expr(&mut value.node, bindings);
            *op = SelectOp::Send { channel, value };
        },
    }
}

fn subst_select_arms(v: &mut Vec<SelectArm>, bindings: &TypeBindings)
    ensures
        select_arms_rel(old(v)@, final(v)@, bindings@),
    decreases old(v)@,
{
    let ghost old_v = v@;
    let mut i: usize = 0;
    while i < v.len()
        invariant
            i <= v.len(),
            v@.len() == old_v.len(),
            old_v == old(v)@,
            forall|j: int| 0 <= j < i ==> #[trigger] select_arm_rel(old_v[j], v@[j], bindings@),
            forall|j: int| i <= j < old_v.len() ==> #[trigger] v@[j] == old_v[j],
        decreases v.len() - i,
    {
        proof {
            assert(decreases_to!(old_v => old_v[i as int]));
            assert(decreases_to!(old_v[i as int] => old_v[i as int].op));
            assert(decreases_to!(old_v[i as int] => old_v[i as int].body));
            assert(decreases_to!(old_v[i as int].body => old_v[i as int].body.node));
        }
        subst_select_op(&mut v[i].op, bindings);
        subst_block(&mut v[i].body.node, bindings);
        i += 1;
    }
    proof { lemma_select_arms_rel_intro(old_v, v@, bindings@); }
}

/// Substitute the bindings' type expressions for the type parameters they
/// bind in every type expression of a block.
pub fn subst_block(block: &mut Block, bindings: &TypeBindings)
    ensures
        block_rel(*old(block), *final(block), bindings@),
    decreases *old(block),
{
    let ghost old_v = block.stmts@;
    proof {
        assert(decreases_to!(*old(block) => old(block).stmts));
        assert(decreases_to!(old(block).stmts => old_v));
    }
    let mut i: usize = 0;
    while i < block.stmts.len()
        invariant
            i <= block.stmts.len(),
            block.stmts@.len() == old_v.len(),
            old_v == old(block).stmts@,
            forall|j: int| 0 <= j < i ==> #[trigger] sstmt_rel(old_v[j], block.stmts@[j], bindings@),
            forall|j: int| i <= j < old_v.len() ==> #[trigger] block.stmts@[j] == old_v[j],
        decreases block.stmts.len() - i,
    {
        proof {
            assert(decreases_to!(old_v => old_v[i as int]));
            assert(decreases_to!(old_v[i as int] => old_v[i as int].node));
        }
        substitute_in_stmt(&mut block.stmts[i].node, bindings);
        i += 1;
    }
    proof { lemma_stmts_rel_intro(old_v, block.stmts@, bindings@); }
}

/// Substitute the bindings' type expressions for the type parameters they
/// bind in every type expression of a statement.
pub fn substitute_in_stmt(stmt: &mut Stmt, bindings: &TypeBindings)
    ensures
        stmt_rel(*old(stmt), *final(stmt), bindings@),
    decreases *old(stmt),
{
    let mut tmp = Stmt::Break;
    std::mem::swap(&mut tmp, stmt);
    match tmp {
        Stmt::Let { name, ty, mut value, is_mut } => {
            let ty = subst_opt_te(ty, bindings);
            substitute_in_expr(&mut value.node, bindings);
            *stmt = Stmt::Let { name, ty, value, is_mut };
        },
        Stmt::Return(v) => {
            let v = match v {
                Some(mut x) => {
                    substitute_in_expr(&mut x.node, bindings);
                    Some(x)
                },
                None => None,
            };
            *stmt = Stmt::Return(v);
        },
        Stmt::Assign { target, mut value } => {
            substitute_in_expr(&mut value.node, bindings);
            *stmt = Stmt::Assign { target, value };
        },
        Stmt::FieldAssign { mut object, field, mut value } => {
            substitute_in_expr(&mut object.node, bindings);
            substitute_in_expr(&mut value.node, bindings);
            *stmt = Stmt::FieldAssign { object, field, value };
        },
        Stmt::If { mut condition, mut then_block, else_block } => {
            substitute_in_expr(&mut condition.node, bindings);
            subst_block(&mut then_block.node, bindings);
            let else_block = match else_block {
                Some(mut eb) => {
                    subst_block(&mut eb.node, bindings);
                    Some(eb)
                },
                None => None,
            };
            *stmt = Stmt::If { condition, then_block, else_block };
        },
        Stmt::While { mut condition, mut body } => {
            substitute_in_expr(&mut condition.node, bindings);
            subst_block(&mut body.node, bindings);
            *stmt = Stmt::While { condition, body };
        },
        Stmt::For { var, mut iterable, mut body } => {
            substitute_in_expr(&mut iterable.node, bindings);
            subst_block(&mut body.node, bindings);
            *stmt = Stmt::For { var, iterable, body };
        },
        Stmt::IndexAssign { mut object, mut index, mut value } => {
            substitute_in_expr(&mut object.node, bindings);
            substitute_in_expr(&mut index.node, bindings);
            substitute_in_expr(&mut value.node, bindings);
            *stmt = Stmt::IndexAssign { object, index, value };
        },
        Stmt::Match { mut expr, mut arms } => {
            substitute_in_expr(&mut expr.node, bindings);
            subst_arms(&mut arms, bindings);
            *stmt = Stmt::Match { expr, arms };
        },
        Stmt::Raise { error_name, mut fields, error_id } => {
            subst_fields(&mut fields, bindings);
            *stmt = Stmt::Raise { error_name, fields, error_id };
        },
        Stmt::LetChan { sender, receiver, mut elem_type, capacity } => {
            substitute_in_type_expr(&mut elem_type.node, bindings);
            let capacity = match capacity {
                Some(mut c) => {
                    substitute_in_expr(&mut c.node, bindings);
                    Some(c)
                },
                None => None,
            };
            *stmt = Stmt::LetChan { sender, receiver, elem_type, capacity };
        },
        Stmt::Select { mut arms, default } => {
            subst_select_arms(&mut arms, bindings);
            let default = match default {
                Some(mut d) => {
                    subst_block(&mut d.node, bindings);
                    Some(d)
                },
                None => None,
            };
            *stmt = Stmt::Select { arms, default };
        },
        Stmt::Scope { mut seeds, bindings: mut scope_bindings, mut body } => {
            subst_exprs(&mut seeds, bindings);
            subst_scope_bindings(&mut scope_bindings, bindings);
            subst_block(&mut body.node, bindings);
            *stmt = Stmt::Scope { seeds, bindings: scope_bindings, body };
        },
        Stmt::Yield { mut value } => {
            substitute_in_expr(&mut value.node, bindings);
            *stmt = Stmt::Yield { value };
        },
        Stmt::Expr(mut x) => {
            substitute_in_expr(&mut x.node, bindings);
            *stmt = Stmt::Expr(x);
        },
        other => {
            *stmt = other;
        },
    }
}

/// Substitute the bindings' type expressions for the type parameters they
/// bind in every type expression of an expression: explicit type arguments,
/// casts, closure signatures and bodies, collection literals' element types.
pub fn substitute_in_expr(expr: &mut Expr, bindings: &TypeBindings)
    ensures
        expr_rel(*old(expr), *final(expr), bindings@),
    decreases *old(expr),
{
    let mut tmp = Expr::NoneLit;
    std::mem::swap(&mut tmp, expr);
    match tmp {
        Expr::BinOp { op, mut lhs, mut rhs } => {
            substitute_in_expr(&mut lhs.node, bindings);
            substitute_in_expr(&mut rhs.node, bindings);
            *expr = Expr::BinOp { op, lhs, rhs };
        },
        Expr::UnaryOp { op, mut operand } => {
            substitute_in_expr(&mut operand.node, bindings);
            *expr = Expr::UnaryOp { op, operand };
        },
        Expr::Call { name, mut args, mut type_args, target_id } => {
            subst_exprs(&mut args, bindings);
            subst_tes(&mut type_args, bindings);
            *expr = Expr::Call { name, args, type_args, target_id };
        },
        Expr::FieldAccess { mut object, field } => {
            substitute_in_expr(&mut object.node, bindings);
            *expr = Expr::FieldAccess { object, field };
        },
        Expr::MethodCall { mut object, method, mut args } => {
            substitute_in_expr(&mut object.node, bindings);
            subst_exprs(&mut args, bindings);
            *expr = Expr::MethodCall { object, method, args };
        },
        Expr::StructLit { name, mut type_args, mut fields, target_id } => {
            subst_tes(&mut type_args, bindings);
            subst_fields(&mut fields, bindings);
            *expr = Expr::StructLit { name, type_args, fields, target_id };
        },
        Expr::ArrayLit { mut elements } => {
            subst_exprs(&mut elements, bindings);
            *expr = Expr::ArrayLit { elements };
        },
        Expr::Index { mut object, mut index } => {
            substitute_in_expr(&mut object.node, bindings);
            substitute_in_expr(&mut index.node, bindings);
            *expr = Expr::Index { object, index };
        },
        Expr::EnumUnit { enum_name, variant, mut type_args, enum_id, variant_id } => {
            subst_tes(&mut type_args, bindings);
            *expr = Expr::EnumUnit { enum_name, variant, type_args, enum_id, variant_id };
        },
        Expr::EnumData { enum_name, variant, mut type_args, mut fields, enum_id, variant_id } => {
            subst_tes(&mut type_args, bindings);
            subst_fields(&mut fields, bindings);
            *expr = Expr::EnumData { enum_name, variant, type_args, fields, enum_id, variant_id };
        },
        Expr::StringInterp { mut parts } => {
            subst_parts(&mut parts, bindings);
            *expr = Expr::StringInterp { parts };
        },
        Expr::Closure { mut params, return_type, mut body } => {
            subst_params(&mut params, bindings);
            let return_type = subst_opt_te(return_type, bindings);
            subst_block(&mut body.node, bindings);
            *expr = Expr::Closure { params, return_type, body };
        },
        Expr::MapLit { mut key_type, mut value_type, mut entries } => {
            substitute_in_type_expr(&mut key_type.node, bindings);
            substitute_in_type_expr(&mut value_type.node, bindings);
            subst_entries(&mut entries, bindings);
            *expr = Expr::MapLit { key_type, value_type, entries };
        },
        Expr::SetLit { mut elem_type, mut elements } => {
            substitute_in_type_expr(&mut elem_type.node, bindings);
            subst_exprs(&mut elements, bindings);
            *expr = Expr::SetLit { elem_type, elements };
        },
        Expr::Propagate { expr: mut inner } => {
            substitute_in_expr(&mut inner.node, bindings);
            *expr = Expr::Propagate { expr: inner };
        },
        Expr::Catch { expr: mut inner, handler } => {
            substitute_in_expr(&mut inner.node, bindings);
            let ghost h0 = handler;
            let handler = match handler {
                CatchHandler::Wildcard { var, mut body } => {
                    let ghost b0 = body;
                    subst_block(&mut body.node, bindings);
                    assert(sblock_rel(b0, body, bindings@));
                    CatchHandler::Wildcard { var, body }
                },
                CatchHandler::Shorthand(mut b) => {
                    let ghost x0 = *b;
                    substitute_in_expr(&mut b.node, bindings);
                    assert(sexpr_rel(x0, *b, bindings@));
                    CatchHandler::Shorthand(b)
                },
            };
            assert(handler_rel(h0, handler, bindings@));
            *expr = Expr::Catch { expr: inner, handler };
        },
        Expr::Cast { expr: mut inner, mut target_type } => {
            substitute_in_expr(&mut inner.node, bindings);
            substitute_in_type_expr(&mut target_type.node, bindings);
            *expr = Expr::Cast { expr: inner, target_type };
        },
        Expr::Range { mut start, mut end, inclusive } => {
            substitute_in_expr(&mut start.node, bindings);
            substitute_in_expr(&mut end.node, bindings);
            *expr = Expr::Range { start, end, inclusive };
        },
        Expr::Spawn { mut call } => {
            substitute_in_expr(&mut call.node, bindings);
            *expr = Expr::Spawn { call };
        },
        Expr::NullPropagate { expr: mut inner } => {
            substitute_in_expr(&mut inner.node, bindings);
            *expr = Expr::NullPropagate { expr: inner };
        },
        other => {
            *expr = other;
        },
    }
}



// ── Functions and classes ───────────────────────────────────────────

/// A function with its parameter types, return type and body substituted
/// under `m`; its contracts, name, type parameters and flags as they were.
pub open spec fn function_rel(a: Function, b: Function, m: Map<Seq<char>, TypeExprM>) -> bool {
    &&& b.id == a.id
    &&& b.name == a.name
    &&& b.type_params == a.type_params
    &&& b.type_param_bounds == a.type_param_bounds
    &&& b.contracts == a.contracts
    &&& b.is_pub == a.is_pub
    &&& b.is_override == a.is_override
    &&& b.is_generator == a.is_generator
    &&& params_rel(a.params@, b.params@, m)
    &&& opt_te_rel(a.return_type, b.return_type, m)
    &&& sblock_rel(a.body, b.body, m)
}

/// Substitute the bindings' type expressions for the type parameters they
/// bind in a function's parameter types, return type and body.
pub fn substitute_in_function(func: &mut Function, bindings: &TypeBindings)
    ensures
        function_rel(*old(func), *final(func), bindings@),
{
    subst_params(&mut func.params, bindings);
    let mut rt: Option<Spanned<TypeExpr>> = None;
    std::mem::swap(&mut rt, &mut func.return_type);
    func.return_type = subst_opt_te(rt, bindings);
    let ghost b0 = func.body;
    subst_block(&mut func.body.node, bindings);
    assert(sblock_rel(b0, func.body, bindings@));
}

pub open spec fn class_field_rel(a: Field, b: Field, m: Map<Seq<char>, TypeExprM>) -> bool {
    b.id == a.id && b.name == a.name && b.is_injected == a.is_injected && b.is_ambient == a.is_ambient
        && te_rel(a.ty, b.ty, m)
}

pub open spec fn method_rel(a: Spanned<Function>, b: Spanned<Function>, m: Map<Seq<char>, TypeExprM>) -> bool {
    b.span == a.span && function_rel(a.node, b.node, m)
}

/// A class with its field types and methods substituted under `m`, and the
/// rest as it was.
pub open spec fn class_rel(a: ClassDecl, b: ClassDecl, m: Map<Seq<char>, TypeExprM>) -> bool {
    &&& b.id == a.id
    &&& b.name == a.name
    &&& b.type_params == a.type_params
    &&& b.type_param_bounds == a.type_param_bounds
    &&& b.invariants == a.invariants
    &&& b.impl_traits == a.impl_traits
    &&& b.uses == a.uses
    &&& b.is_pub == a.is_pub
    &&& b.lifecycle == a.lifecycle
    &&& a.fields@.len() == b.fields@.len()
    &&& forall|i: int| 0 <= i < a.fields@.len() ==> #[trigger] class_field_rel(a.fields@[i], b.fields@[i], m)
    &&& a.methods@.len() == b.methods@.len()
    &&& forall|i: int| 0 <= i < a.methods@.len() ==> #[trigger] method_rel(a.methods@[i], b.methods@[i], m)
}

/// Substitute the bindings' type expressions for the type parameters they
/// bind in a class's field types and in each of its methods.
pub fn substitute_in_class(class: &mut ClassDecl, bindings: &TypeBindings)
    ensures
        class_rel(*old(class), *final(class), bindings@),
{
    let ghost old_f = class.fields@;
    let mut i: usize = 0;
    while i < class.fields.len()
        invariant
            i <= class.fields.len(),
            class.fields@.len() == old_f.len(),
            old_f == old(class).fields@,
            class.methods == old(class).methods,
            class.id == old(class).id,
            class.name == old(class).name,
            class.type_params == old(class).type_params,
            class.type_param_bounds == old(class).type_param_bounds,
            class.invariants == old(class).invariants,
            class.impl_traits == old(class).impl_traits,
            class.uses == old(class).uses,
            class.is_pub == old(class).is_pub,
            class.lifecycle == old(class).lifecycle,
            forall|j: int| 0 <= j < i ==> #[trigger] class_field_rel(old_f[j], class.fields@[j], bindings@),
            forall|j: int| i <= j < old_f.len() ==> #[trigger] class.fields@[j] == old_f[j],
        decreases class.fields.len() - i,
    {
        substitute_in_type_expr(&mut class.fields[i].ty.node, bindings);
        i += 1;
    }
    let ghost old_m = class.methods@;
    let mut k: usize = 0;
    while k < class.methods.len()
        invariant
            k <= class.methods.len(),
            class.methods@.len() == old_m.len(),
            old_m == old(class).methods@,
            class.fields@.len() == old_f.len(),
            old_f == old(class).fields@,
            class.id == old(class).id,
            class.name == old(class).name,
            class.type_params == old(class).type_params,
            class.type_param_bounds == old(class).type_param_bounds,
            class.invariants == old(class).invariants,
            class.impl_traits == old(class).impl_traits,
            class.uses == old(class).uses,
            class.is_pub == old(class).is_pub,
            class.lifecycle == old(class).lifecycle,
            forall|j: int| 0 <= j < old_f.len() ==> #[trigger] class_field_rel(old_f[j], class.fields@[j], bindings@),
            forall|j: int| 0 <= j < k ==> #[trigger] method_rel(old_m[j], class.methods@[j], bindings@),
            forall|j: int| k <= j < old_m.len() ==> #[trigger] class.methods@[j] == old_m[j],
        decreases class.methods.len() - k,
    {
        substitute_in_function(&mut class.methods[k].node, bindings);
        k += 1;
    }
}

// ── Fresh ids for copies ────────────────────────────────────────────

/// `b` is `a` with a fresh (version 4) id.
pub open spec fn param_reid(a: Param, b: Param) -> bool {
    b == (Param { id: b.id, ..a }) && uuid_version(b.id) == 4
}

pub open spec fn field_reid(a: Field, b: Field) -> bool {
    b == (Field { id: b.id, ..a }) && uuid_version(b.id) == 4
}

/// `b` is the function `a` with each parameter given a fresh id.
pub open spec fn function_reid(a: Function, b: Function) -> bool {
    &&& b == (Function { params: b.params, ..a })
    &&& a.params@.len() == b.params@.len()
    &&& forall|i: int| 0 <= i < a.params@.len() ==> #[trigger] param_reid(a.params@[i], b.params@[i])
}

/// `b` is the method `a` with a fresh id for itself and for each parameter.
pub open spec fn method_reid(a: Spanned<Function>, b: Spanned<Function>) -> bool {
    &&& b.span == a.span
    &&& uuid_version(b.node.id) == 4
    &&& function_reid((Function { id: b.node.id, ..a.node }), b.node)
}

/// Give every parameter of a function a fresh id; nothing else changes.
pub fn reassign_function_uuids(func: &mut Function)
    ensures
        function_reid(*old(func), *final(func)),
{
    let ghost old_p = func.params@;
    let mut i: usize = 0;
    while i < func.params.len()
        invariant
            i <= func.params.len(),
            func.params@.len() == old_p.len(),
            old_p == old(func).params@,
            *func == (Function { params: func.params, ..*old(func) }),
            forall|j: int| 0 <= j < i ==> #[trigger] param_reid(old_p[j], func.params@[j]),
            forall|j: int| i <= j < old_p.len() ==> #[trigger] func.params@[j] == old_p[j],
        decreases func.params.len() - i,
    {
        func.params[i].id = fresh_id();
        i += 1;
    }
}

/// The class `a` with fresh ids for its fields and for its methods and their
/// parameters; nothing else changes.
pub open spec fn class_reid(a: ClassDecl, b: ClassDecl) -> bool {
    &&& b == (ClassDecl { fields: b.fields, methods: b.methods, ..a })
    &&& a.fields@.len() == b.fields@.len()
    &&& forall|i: int| 0 <= i < a.fields@.len() ==> #[trigger] field_reid(a.fields@[i], b.fields@[i])
    &&& a.methods@.len() == b.methods@.len()
    &&& forall|i: int| 0 <= i < a.methods@.len() ==> #[trigger] method_reid(a.methods@[i], b.methods@[i])
}

/// Give every field and method of a class, and every parameter of its
/// methods, a fresh id.
pub fn reassign_class_uuids(class: &mut ClassDecl)
    ensures
        class_reid(*old(class), *final(class)),
{
    let ghost old_f = class.fields@;
    let mut i: usize = 0;
    while i < class.fields.len()
        invariant
            i <= class.fields.len(),
            class.fields@.len() == old_f.len(),
            old_f == old(class).fields@,
            *class == (ClassDecl { fields: class.fields, ..*old(class) }),
            forall|j: int| 0 <= j < i ==> #[trigger] field_reid(old_f[j], class.fields@[j]),
            forall|j: int| i <= j < old_f.len() ==> #[trigger] class.fields@[j] == old_f[j],
        decreases class.fields.len() - i,
    {
        class.fields[i].id = fresh_id();
        i += 1;
    }
    let ghost old_m = class.methods@;
    let mut k: usize = 0;
    while k < class.methods.len()
        invariant
            k <= class.methods.len(),
            class.methods@.len() == old_m.len(),
            old_m == old(class).methods@,
            class.fields@.len() == old_f.len(),
            old_f == old(class).fields@,
            *class == (ClassDecl { fields: class.fields, methods: class.methods, ..*old(class) }),
            forall|j: int| 0 <= j < old_f.len() ==> #[trigger] field_reid(old_f[j], class.fields@[j]),
            forall|j: int| 0 <= j < k ==> #[trigger] method_reid(old_m[j], class.methods@[j]),
            forall|j: int| k <= j < old_m.len() ==> #[trigger] class.methods@[j] == old_m[j],
        decreases class.methods.len() - k,
    {
        class.methods[k].node.id = fresh_id();
        reassign_function_uuids(&mut class.methods[k].node);
        k += 1;
    }
}

// Each sequence relation holds where its elements are related pairwise.

proof fn lemma_exprs_rel_intro(a: Seq<Spanned<Expr>>, b: Seq<Spanned<Expr>>, m: Map<Seq<char>, TypeExprM>)
    requires
        a.len() == b.len(),
        forall|i: int| #![trigger a[i]] 0 <= i < a.len() ==> sexpr_rel(a[i], b[i], m),
    ensures
        exprs_rel(a, b, m),
{
}

proof fn lemma_fields_rel_intro(a: Seq<(Spanned<String>, Spanned<Expr>)>, b: Seq<(Spanned<String>, Spanned<Expr>)>, m: Map<Seq<char>, TypeExprM>)
    requires
        a.len() == b.len(),
        forall|i: int| #![trigger a[i]] 0 <= i < a.len() ==> field_rel(a[i], b[i], m),
    ensures
        fields_rel(a, b, m),
{
}

proof fn lemma_entries_rel_intro(a: Seq<(Spanned<Expr>, Spanned<Expr>)>, b: Seq<(Spanned<Expr>, Spanned<Expr>)>, m: Map<Seq<char>, TypeExprM>)
    requires
        a.len() == b.len(),
        forall|i: int| #![trigger a[i]] 0 <= i < a.len() ==> entry_rel(a[i], b[i], m),
    ensures
        entries_rel(a, b, m),
{
}

proof fn lemma_parts_rel_intro(a: Seq<StringInterpPart>, b: Seq<StringInterpPart>, m: Map<Seq<char>, TypeExprM>)
    requires
        a.len() == b.len(),
        forall|i: int| #![trigger a[i]] 0 <= i < a.len() ==> part_rel(a[i], b[i], m),
    ensures
        parts_rel(a, b, m),
{
}

proof fn lemma_arms_rel_intro(a: Seq<MatchArm>, b: Seq<MatchArm>, m: Map<Seq<char>, TypeExprM>)
    requires
        a.len() == b.len(),
        forall|i: int| #![trigger a[i]] 0 <= i < a.len() ==> arm_rel(a[i], b[i], m),
    ensures
        arms_rel(a, b, m),
{
}

proof fn lemma_select_arms_rel_intro(a: Seq<SelectArm>, b: Seq<SelectArm>, m: Map<Seq<char>, TypeExprM>)
    requires
        a.len() == b.len(),
        forall|i: int| #![trigger a[i]] 0 <= i < a.len() ==> select_arm_rel(a[i], b[i], m),
    ensures
        select_arms_rel(a, b, m),
{
}

proof fn lemma_stmts_rel_intro(a: Seq<Spanned<Stmt>>, b: Seq<Spanned<Stmt>>, m: Map<Seq<char>, TypeExprM>)
    requires
        a.len() == b.len(),
        forall|i: int| #![trigger a[i]] 0 <= i < a.len() ==> sstmt_rel(a[i], b[i], m),
    ensures
        stmts_rel(a, b, m),
{
}

}
