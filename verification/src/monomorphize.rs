pub mod decls;
pub mod body;

use vstd::prelude::*;
use vstd::hash_map::StringHashMap;
use crate::span::Span;
use crate::span::Spanned;
use crate::parser::ast::TypeExpr;
use crate::parser::ast::TypeExprM;
use crate::parser::ast::spanned_te_model;
use crate::typeck::types::PlutoType;
use crate::typeck::types::pt_to_te;
use crate::typeck::types::pluto_type_to_type_expr;
use crate::typeck::types::PlutoTypeM;
use crate::typeck::env::TypeEnv;
use crate::typeck::env::names;
use crate::typeck::env::names_contain;
use crate::typeck::env::mangle_name;
use crate::typeck::env::spec_mangle_name;
use crate::typeck::env::pt_models;
use crate::typeck::env::Instantiation;
use crate::typeck::env::InstM;
use crate::typeck::env::insts_model;
use crate::typeck::env::same_names;
use crate::diagnostics::CompileError;
use crate::text::str_eq;
use vstd::string::StringExecFns;

verus! {

broadcast use vstd::hash_map::group_hash_map_axioms;

/// A map from type parameter names to the type expressions that replace them.
pub struct TypeBindings {
    map: StringHashMap<TypeExpr>,
}

impl View for TypeBindings {
    type V = Map<Seq<char>, TypeExprM>;

    closed spec fn view(&self) -> Map<Seq<char>, TypeExprM> {
        self.map@.map_values(|t: TypeExpr| t.model())
    }
}

impl TypeBindings {
    pub fn new() -> (b: Self)
        ensures
            b@ == Map::<Seq<char>, TypeExprM>::empty(),
    {
        let b = TypeBindings { map: StringHashMap::new() };
        proof {
            assert(b@ =~= Map::<Seq<char>, TypeExprM>::empty());
        }
        b
    }

    pub fn insert(&mut self, name: String, ty: TypeExpr)
        ensures
            final(self)@ == old(self)@.insert(name@, ty.model()),
    {
        let ghost k = name@;
        let ghost m = ty.model();
        self.map.insert(name, ty);
        proof {
            assert(self@ =~= old(self)@.insert(k, m));
        }
    }

    pub fn get(&self, name: &str) -> (r: Option<&TypeExpr>)
        ensures
            match r {
                Some(t) => self@.contains_key(name@) && t.model() == self@[name@],
                None => !self@.contains_key(name@),
            },
    {
        self.map.get(name)
    }

    pub fn len(&self) -> (n: usize)
        ensures
            n == self@.len(),
    {
        proof {
            assert(self@.dom() =~= self.map@.dom());
        }
        self.map.len()
    }
}

/// The bindings made from the first `n` pairs of parameter names and type arguments,
/// a later pair overriding an earlier one with the same name.
pub open spec fn spec_bindings(params: Seq<Seq<char>>, args: Seq<PlutoType>, n: nat) -> Map<Seq<char>, TypeExprM>
    decreases n,
{
    if n == 0 {
        Map::empty()
    } else {
        spec_bindings(params, args, (n - 1) as nat).insert(params[n - 1], pt_to_te(args[n - 1].model()))
    }
}

/// Pairs each type parameter with the type expression of its argument
/// (as many pairs as the shorter list has entries).
pub fn build_type_expr_bindings(type_params: &[String], type_args: &[PlutoType]) -> (b: TypeBindings)
    ensures
        b@ == spec_bindings(names(type_params@), type_args@,
            if type_params@.len() <= type_args@.len() { type_params@.len() } else { type_args@.len() }),
{
    let n = if type_params.len() <= type_args.len() { type_params.len() } else { type_args.len() };
    let mut b = TypeBindings::new();
    let mut i: usize = 0;
    while i < n
        invariant
            i <= n,
            n <= type_params@.len(),
            n <= type_args@.len(),
            b@ == spec_bindings(names(type_params@), type_args@, i as nat),
        decreases n - i,
    {
        b.insert(type_params[i].clone(), pluto_type_to_type_expr(&type_args[i]));
        i += 1;
    }
    b
}

/// A type expression with every named type that `b` binds replaced by its binding.
pub open spec fn spec_subst(t: TypeExprM, b: Map<Seq<char>, TypeExprM>) -> TypeExprM
    decreases t,
{
    match t {
        TypeExprM::Named(n) => if b.contains_key(n) { b[n] } else { t },
        TypeExprM::Array(e) => TypeExprM::Array(Box::new(Spanned { node: spec_subst(e.node, b), span: e.span })),
        TypeExprM::Qualified { .. } => t,
        TypeExprM::Fn { params, return_type } => TypeExprM::Fn {
            params: Seq::new(params.len(), |i: int| if 0 <= i < params.len() {
                Spanned { node: spec_subst(params[i].node, b), span: params[i].span }
            } else {
                arbitrary()
            }),
            return_type: Box::new(Spanned { node: spec_subst(return_type.node, b), span: return_type.span }),
        },
        TypeExprM::Generic { name, type_args } => TypeExprM::Generic {
            name,
            type_args: Seq::new(type_args.len(), |i: int| if 0 <= i < type_args.len() {
                Spanned { node: spec_subst(type_args[i].node, b), span: type_args[i].span }
            } else {
                arbitrary()
            }),
        },
        TypeExprM::Nullable(e) => TypeExprM::Nullable(Box::new(Spanned { node: spec_subst(e.node, b), span: e.span })),
        TypeExprM::Stream(e) => TypeExprM::Stream(Box::new(Spanned { node: spec_subst(e.node, b), span: e.span })),
    }
}

/// Replace type parameters by their bindings throughout a type expression.
#[verifier::loop_isolation(false)]
pub fn substitute_in_type_expr(te: &mut TypeExpr, bindings: &TypeBindings)
    ensures
        final(te).model() == spec_subst(old(te).model(), bindings@),
    decreases *old(te),
{
    match te {
        TypeExpr::Named(name) => {
            let rep = bindings.get(name.as_str());
            match rep {
                Some(r) => {
                    let c = r.deep_clone();
                    *te = c;
                },
                None => {},
            }
        },
        TypeExpr::Array(inner) => {
            substitute_in_type_expr(&mut inner.node, bindings);
        },
        TypeExpr::Qualified { .. } => {},
        TypeExpr::Fn { params, return_type } => {
            let ghost old_params = params@;
            let ghost b = bindings@;
            let mut i: usize = 0;
            while i < params.len()
                invariant
                    i <= params.len(),
                    params@.len() == old_params.len(),
                    forall|j: int| i <= j < old_params.len() ==> #[trigger] params@[j] == old_params[j],
                    forall|j: int| 0 <= j < i ==> spanned_te_model(*#[trigger] params@[j]) == (Spanned {
                        node: spec_subst(old_params[j].node.model(), b),
                        span: old_params[j].span,
                    }),
                decreases params.len() - i,
            {
                proof {
                    assert(decreases_to!(*old(te) => old_params[i as int]));
                }
                substitute_in_type_expr(&mut params[i].node, bindings);
                i += 1;
            }
            substitute_in_type_expr(&mut return_type.node, bindings);
            proof {
                let a = TypeExpr::Fn { params: *params, return_type: *return_type }.model()->params;
                let c = spec_subst(old(te).model(), b)->params;
                assert forall|j: int| 0 <= j < a.len() implies a[j] == c[j] by {
                    assert(spanned_te_model(*params@[j]) == (Spanned {
                        node: spec_subst(old_params[j].node.model(), b),
                        span: old_params[j].span,
                    }));
                }
                assert(a =~= c);
            }
        },
        TypeExpr::Generic { name, type_args } => {
            let ghost old_args = type_args@;
            let ghost b = bindings@;
            let mut i: usize = 0;
            while i < type_args.len()
                invariant
                    i <= type_args.len(),
                    type_args@.len() == old_args.len(),
                    forall|j: int| i <= j < old_args.len() ==> #[trigger] type_args@[j] == old_args[j],
                    forall|j: int| 0 <= j < i ==> spanned_te_model(#[trigger] type_args@[j]) == (Spanned {
                        node: spec_subst(old_args[j].node.model(), b),
                        span: old_args[j].span,
                    }),
                decreases type_args.len() - i,
            {
                proof {
                    assert(decreases_to!(*old(te) => old_args[i as int]));
                }
                substitute_in_type_expr(&mut type_args[i].node, bindings);
                i += 1;
            }
            proof {
                let a = TypeExpr::Generic { name: *name, type_args: *type_args }.model()->type_args;
                let c = spec_subst(old(te).model(), b)->type_args;
                assert forall|j: int| 0 <= j < a.len() implies a[j] == c[j] by {
                    assert(spanned_te_model(type_args@[j]) == (Spanned {
                        node: spec_subst(old_args[j].node.model(), b),
                        span: old_args[j].span,
                    }));
                }
                assert(a =~= c);
            }
        },
        TypeExpr::Nullable(inner) => {
            substitute_in_type_expr(&mut inner.node, bindings);
        },
        TypeExpr::Stream(inner) => {
            substitute_in_type_expr(&mut inner.node, bindings);
        },
    }
}


// ── Span offsetting ─────────────────────────────────────────────────

pub fn offset_span(span: &mut Span, offset: usize)
    requires
        old(span).start + offset <= usize::MAX,
        old(span).end + offset <= usize::MAX,
    ensures
        final(span).start == old(span).start + offset,
        final(span).end == old(span).end + offset,
        final(span).file_id == old(span).file_id,
{
    span.start += offset;
    span.end += offset;
}

pub fn offset_spanned<T>(s: &mut Spanned<T>, offset: usize)
    requires
        old(s).span.start + offset <= usize::MAX,
        old(s).span.end + offset <= usize::MAX,
    ensures
        final(s).node == old(s).node,
        final(s).span.start == old(s).span.start + offset,
        final(s).span.end == old(s).span.end + offset,
        final(s).span.file_id == old(s).span.file_id,
{
    offset_span(&mut s.span, offset);
}

// ── Type expression to type ─────────────────────────────────────────

/// The resolved type a (generic-free or builtin-generic) type expression names.
/// Primitive names map to primitive types; other names to the class, enum or
/// trait the environment knows by that name, and to a class otherwise.
pub open spec fn spec_te_to_pt(t: TypeExprM, env: TypeEnv) -> PlutoTypeM
    decreases t,
{
    match t {
        TypeExprM::Named(n) => {
            if n == "int"@ {
                PlutoTypeM::Int
            } else if n == "float"@ {
                PlutoTypeM::Float
            } else if n == "bool"@ {
                PlutoTypeM::Bool
            } else if n == "string"@ {
                PlutoTypeM::Str
            } else if n == "void"@ {
                PlutoTypeM::Void
            } else if n == "byte"@ {
                PlutoTypeM::Byte
            } else if n == "bytes"@ {
                PlutoTypeM::Bytes
            } else if names(env.classes@).contains(n) || names(env.generic_classes@).contains(n) {
                PlutoTypeM::Class(n)
            } else if names(env.enums@).contains(n) || names(env.generic_enums@).contains(n) {
                PlutoTypeM::Enum(n)
            } else if names(env.traits@).contains(n) {
                PlutoTypeM::Trait(n)
            } else {
                PlutoTypeM::Class(n)
            }
        },
        TypeExprM::Array(e) => PlutoTypeM::Array(Box::new(spec_te_to_pt(e.node, env))),
        TypeExprM::Fn { params, return_type } => PlutoTypeM::Func(
            spec_te_to_pt_seq(params, env),
            Box::new(spec_te_to_pt(return_type.node, env)),
        ),
        TypeExprM::Qualified { module, name } => PlutoTypeM::Class(module + "."@ + name),
        TypeExprM::Generic { name, type_args } => {
            let r = spec_te_to_pt_seq(type_args, env);
            if name == "Sender"@ && r.len() == 1 {
                PlutoTypeM::Sender(Box::new(r[0]))
            } else if name == "Receiver"@ && r.len() == 1 {
                PlutoTypeM::Receiver(Box::new(r[0]))
            } else if name == "Map"@ && r.len() == 2 {
                PlutoTypeM::MapOf(Box::new(r[0]), Box::new(r[1]))
            } else if name == "Set"@ && r.len() == 1 {
                PlutoTypeM::SetOf(Box::new(r[0]))
            } else if name == "Task"@ && r.len() == 1 {
                PlutoTypeM::Task(Box::new(r[0]))
            } else {
                PlutoTypeM::Class(spec_mangle_name(name, r))
            }
        },
        TypeExprM::Nullable(e) => PlutoTypeM::Nullable(Box::new(spec_te_to_pt(e.node, env))),
        TypeExprM::Stream(e) => PlutoTypeM::Stream(Box::new(spec_te_to_pt(e.node, env))),
    }
}

/// The resolved types of a sequence of type expressions, in order.
pub open spec fn spec_te_to_pt_seq(s: Seq<Spanned<TypeExprM>>, env: TypeEnv) -> Seq<PlutoTypeM>
    decreases s,
{
    if s.len() == 0 {
        Seq::empty()
    } else {
        seq![spec_te_to_pt(s[0].node, env)] + spec_te_to_pt_seq(s.drop_first(), env)
    }
}

/// `spec_te_to_pt_seq` converts each element in place.
pub proof fn lemma_te_to_pt_seq(s: Seq<Spanned<TypeExprM>>, env: TypeEnv)
    ensures
        spec_te_to_pt_seq(s, env).len() == s.len(),
        forall|j: int| 0 <= j < s.len() ==> #[trigger] spec_te_to_pt_seq(s, env)[j] == spec_te_to_pt(s[j].node, env),
    decreases s.len(),
{
    if s.len() > 0 {
        lemma_te_to_pt_seq(s.drop_first(), env);
        assert forall|j: int| 0 <= j < s.len() implies #[trigger] spec_te_to_pt_seq(s, env)[j] == spec_te_to_pt(s[j].node, env) by {
            if j > 0 {
                assert(s.drop_first()[j - 1] == s[j]);
            }
        }
    }
}

/// Convert a type expression to the resolved type it names; this never fails.
#[verifier::loop_isolation(false)]
pub fn type_expr_to_pluto_type(te: &TypeExpr, env: &TypeEnv) -> (r: Result<PlutoType, CompileError>)
    ensures
        r matches Ok(p) && p.model() == spec_te_to_pt(te.model(), *env),
    decreases te,
{
    match te {
        TypeExpr::Named(name) => {
            let n = name.as_str();
            if str_eq(n, "int") {
                Ok(PlutoType::Int)
            } else if str_eq(n, "float") {
                Ok(PlutoType::Float)
            } else if str_eq(n, "bool") {
                Ok(PlutoType::Bool)
            } else if str_eq(n, "string") {
                Ok(PlutoType::String)
            } else if str_eq(n, "void") {
                Ok(PlutoType::Void)
            } else if str_eq(n, "byte") {
                Ok(PlutoType::Byte)
            } else if str_eq(n, "bytes") {
                Ok(PlutoType::Bytes)
            } else if names_contain(&env.classes, n) || names_contain(&env.generic_classes, n) {
                Ok(PlutoType::Class(name.clone()))
            } else if names_contain(&env.enums, n) || names_contain(&env.generic_enums, n) {
                Ok(PlutoType::Enum(name.clone()))
            } else if names_contain(&env.traits, n) {
                Ok(PlutoType::Trait(name.clone()))
            } else {
                let r = PlutoType::Class(name.clone());
                assert(r.model() == spec_te_to_pt(te.model(), *env));
                Ok(r)
            }
        },
        TypeExpr::Array(inner) => {
            let t = type_expr_to_pluto_type(&inner.node, env)?;
            let r = PlutoType::Array(Box::new(t));
            assert(r.model() == spec_te_to_pt(te.model(), *env));
            Ok(r)
        },
        TypeExpr::Fn { params, return_type } => {
            let mut param_types: Vec<PlutoType> = Vec::new();
            let mut i: usize = 0;
            while i < params.len()
                invariant
                    i <= params.len(),
                    param_types.len() == i,
                    forall|j: int| 0 <= j < i ==> (#[trigger] param_types@[j]).model() == spec_te_to_pt(params@[j].node.model(), *env),
                decreases params.len() - i,
            {
                proof {
                    assert(decreases_to!(te => params@[i as int]));
                }
                let t = type_expr_to_pluto_type(&params[i].node, env)?;
                param_types.push(t);
                i += 1;
            }
            let ret = type_expr_to_pluto_type(&return_type.node, env)?;
            let r = PlutoType::Fn(param_types, Box::new(ret));
            proof {
                let a = r.model()->Func_0;
                let c = spec_te_to_pt(te.model(), *env)->Func_0;
                lemma_te_to_pt_seq(te.model()->params, *env);
                assert forall|j: int| 0 <= j < a.len() implies a[j] == c[j] by {
                    assert(param_types@[j].model() == spec_te_to_pt(params@[j].node.model(), *env));
                }
                assert(a =~= c);
            }
            Ok(r)
        },
        TypeExpr::Qualified { module, name } => {
            let mut q = module.clone();
            q.append(".");
            q.append(name.as_str());
            let r = PlutoType::Class(q);
            assert(r.model() == spec_te_to_pt(te.model(), *env));
            Ok(r)
        },
        TypeExpr::Generic { name, type_args } => {
            let mut resolved: Vec<PlutoType> = Vec::new();
            let mut i: usize = 0;
            while i < type_args.len()
                invariant
                    i <= type_args.len(),
                    resolved.len() == i,
                    forall|j: int| 0 <= j < i ==> (#[trigger] resolved@[j]).model() == spec_te_to_pt(type_args@[j].node.model(), *env),
                decreases type_args.len() - i,
            {
                proof {
                    assert(decreases_to!(te => type_args@[i as int]));
                }
                let t = type_expr_to_pluto_type(&type_args[i].node, env)?;
                resolved.push(t);
                i += 1;
            }
            let ghost rm = Seq::new(type_args.len() as nat, |k: int| if 0 <= k < type_args.len() {
                spec_te_to_pt(te.model()->type_args[k].node, *env)
            } else {
                arbitrary()
            });
            proof {
                assert(pt_models(resolved@) =~= rm);
                let ta = te.model()->type_args;
                lemma_te_to_pt_seq(ta, *env);
                assert(spec_te_to_pt_seq(ta, *env) =~= rm);
            }
            let n = name.as_str();
            if str_eq(n, "Sender") && resolved.len() == 1 {
                return Ok(PlutoType::Sender(Box::new(resolved[0].clone())));
            }
            if str_eq(n, "Receiver") && resolved.len() == 1 {
                return Ok(PlutoType::Receiver(Box::new(resolved[0].clone())));
            }
            if str_eq(n, "Map") && resolved.len() == 2 {
                return Ok(PlutoType::MapOf(Box::new(resolved[0].clone()), Box::new(resolved[1].clone())));
            }
            if str_eq(n, "Set") && resolved.len() == 1 {
                return Ok(PlutoType::SetOf(Box::new(resolved[0].clone())));
            }
            if str_eq(n, "Task") && resolved.len() == 1 {
                return Ok(PlutoType::Task(Box::new(resolved[0].clone())));
            }
            let mangled = mangle_name(n, resolved.as_slice());
            let r = PlutoType::Class(mangled);
            assert(r.model() == spec_te_to_pt(te.model(), *env));
            Ok(r)
        },
        TypeExpr::Nullable(inner) => {
            let t = type_expr_to_pluto_type(&inner.node, env)?;
            Ok(PlutoType::Nullable(Box::new(t)))
        },
        TypeExpr::Stream(inner) => {
            let t = type_expr_to_pluto_type(&inner.node, env)?;
            Ok(PlutoType::Stream(Box::new(t)))
        },
    }
}


// ── Generic type resolution ─────────────────────────────────────────

/// The generic types that are built into the language and are never monomorphized.
pub open spec fn is_builtin_generic(n: Seq<char>) -> bool {
    n == "Map"@ || n == "Set"@ || n == "Task"@ || n == "Sender"@ || n == "Receiver"@
}

/// The message of the error for an unknown generic type.
pub open spec fn unknown_generic_msg(n: Seq<char>) -> Seq<char> {
    "unknown generic type '"@ + n + "'"@
}

/// Resolution of generic instances in a type expression, visiting children in order:
/// a user generic whose name the environment knows as a generic class or enum becomes
/// the named type of its mangled instance (its arguments resolved first); built-in
/// generics keep their shape. The result is the expression as resolution leaves it
/// and, when resolution stops at an unknown generic, that generic's name.
pub open spec fn spec_resolve(t: TypeExprM, env: TypeEnv) -> (TypeExprM, Option<Seq<char>>)
    decreases t,
{
    match t {
        TypeExprM::Generic { name, type_args } => {
            let (args2, err) = spec_resolve_seq(type_args, env);
            if err is Some {
                (TypeExprM::Generic { name, type_args: args2 }, err)
            } else if is_builtin_generic(name) {
                (TypeExprM::Generic { name, type_args: args2 }, None)
            } else if names(env.generic_classes@).contains(name) || names(env.generic_enums@).contains(name) {
                (TypeExprM::Named(spec_mangle_name(name, spec_te_to_pt_seq(args2, env))), None)
            } else {
                (TypeExprM::Generic { name, type_args: args2 }, Some(name))
            }
        },
        TypeExprM::Array(e) => {
            let (n2, err) = spec_resolve(e.node, env);
            (TypeExprM::Array(Box::new(Spanned { node: n2, span: e.span })), err)
        },
        TypeExprM::Fn { params, return_type } => {
            let (p2, err) = spec_resolve_seq(params, env);
            if err is Some {
                (TypeExprM::Fn { params: p2, return_type }, err)
            } else {
                let (r2, err2) = spec_resolve(return_type.node, env);
                (TypeExprM::Fn { params: p2, return_type: Box::new(Spanned { node: r2, span: return_type.span }) }, err2)
            }
        },
        TypeExprM::Nullable(e) => {
            let (n2, err) = spec_resolve(e.node, env);
            (TypeExprM::Nullable(Box::new(Spanned { node: n2, span: e.span })), err)
        },
        TypeExprM::Stream(e) => {
            let (n2, err) = spec_resolve(e.node, env);
            (TypeExprM::Stream(Box::new(Spanned { node: n2, span: e.span })), err)
        },
        _ => (t, None),
    }
}

/// Resolution of a sequence of type expressions, front to back, stopping at the first error.
pub open spec fn spec_resolve_seq(s: Seq<Spanned<TypeExprM>>, env: TypeEnv) -> (Seq<Spanned<TypeExprM>>, Option<Seq<char>>)
    decreases s,
{
    if s.len() == 0 {
        (s, None)
    } else {
        let (h, e) = spec_resolve(s[0].node, env);
        let hs = Spanned { node: h, span: s[0].span };
        if e is Some {
            (seq![hs] + s.drop_first(), e)
        } else {
            let (rest, e2) = spec_resolve_seq(s.drop_first(), env);
            (seq![hs] + rest, e2)
        }
    }
}

/// Resolution of a sequence keeps its length.
pub proof fn lemma_resolve_seq_len(s: Seq<Spanned<TypeExprM>>, env: TypeEnv)
    ensures
        spec_resolve_seq(s, env).0.len() == s.len(),
    decreases s.len(),
{
    if s.len() > 0 {
        lemma_resolve_seq_len(s.drop_first(), env);
    }
}

/// Resolving the elements from index `i` on, when the element at `i` resolves without error,
/// is resolving that element and then those from `i + 1` on.
pub proof fn lemma_resolve_seq_step(s: Seq<Spanned<TypeExprM>>, env: TypeEnv, i: int)
    requires
        0 <= i < s.len(),
    ensures
        ({
            let (h, e) = spec_resolve(s[i].node, env);
            let hs = Spanned { node: h, span: s[i].span };
            spec_resolve_seq(s.skip(i), env) == if e is Some {
                (seq![hs] + s.skip(i + 1), e)
            } else {
                (seq![hs] + spec_resolve_seq(s.skip(i + 1), env).0, spec_resolve_seq(s.skip(i + 1), env).1)
            }
        }),
{
    assert(s.skip(i).drop_first() =~= s.skip(i + 1));
    assert(s.skip(i)[0] == s[i]);
}

// ── Registered instantiations ───────────────────────────────────────

/// `l` with the instantiation `i` registered: added at the end, unless an
/// instantiation of the same mangled name is there already.
pub open spec fn spec_register(l: Seq<InstM>, i: InstM) -> Seq<InstM> {
    if l.map_values(|x: InstM| x.mangled).contains(i.mangled) {
        l
    } else {
        l.push(i)
    }
}

/// The registered instantiations `l` after resolving `t`: each user generic
/// that resolution replaces by its mangled instance registers that instance,
/// inner ones first, up to the point where resolution stops at an error.
pub open spec fn spec_resolve_insts(t: TypeExprM, env: TypeEnv, l: Seq<InstM>) -> Seq<InstM>
    decreases t,
{
    match t {
        TypeExprM::Generic { name, type_args } => {
            let l2 = spec_resolve_seq_insts(type_args, env, l);
            let (args2, err) = spec_resolve_seq(type_args, env);
            if err is Some || is_builtin_generic(name) {
                l2
            } else if names(env.generic_classes@).contains(name) || names(env.generic_enums@).contains(name) {
                let ps = spec_te_to_pt_seq(args2, env);
                spec_register(l2, InstM { name, args: ps, mangled: spec_mangle_name(name, ps) })
            } else {
                l2
            }
        },
        TypeExprM::Array(e) => spec_resolve_insts(e.node, env, l),
        TypeExprM::Fn { params, return_type } => {
            let l2 = spec_resolve_seq_insts(params, env, l);
            if spec_resolve_seq(params, env).1 is Some {
                l2
            } else {
                spec_resolve_insts(return_type.node, env, l2)
            }
        },
        TypeExprM::Nullable(e) => spec_resolve_insts(e.node, env, l),
        TypeExprM::Stream(e) => spec_resolve_insts(e.node, env, l),
        _ => l,
    }
}

/// The registered instantiations after resolving a sequence front to back,
/// stopping at the first error.
pub open spec fn spec_resolve_seq_insts(s: Seq<Spanned<TypeExprM>>, env: TypeEnv, l: Seq<InstM>) -> Seq<InstM>
    decreases s,
{
    if s.len() == 0 {
        l
    } else {
        let l2 = spec_resolve_insts(s[0].node, env, l);
        if spec_resolve(s[0].node, env).1 is Some {
            l2
        } else {
            spec_resolve_seq_insts(s.drop_first(), env, l2)
        }
    }
}

proof fn lemma_resolve_seq_insts_step(s: Seq<Spanned<TypeExprM>>, env: TypeEnv, i: int, l: Seq<InstM>)
    requires
        0 <= i < s.len(),
    ensures
        spec_resolve_seq_insts(s.skip(i), env, l) == (if spec_resolve(s[i].node, env).1 is Some {
            spec_resolve_insts(s[i].node, env, l)
        } else {
            spec_resolve_seq_insts(s.skip(i + 1), env, spec_resolve_insts(s[i].node, env, l))
        }),
{
    assert(s.skip(i).drop_first() =~= s.skip(i + 1));
    assert(s.skip(i)[0] == s[i]);
}

/// Converting to a type reads only the names an environment knows.
proof fn lemma_pt_same_names(t: TypeExprM, e1: TypeEnv, e2: TypeEnv)
    requires
        same_names(e1, e2),
    ensures
        spec_te_to_pt(t, e1) == spec_te_to_pt(t, e2),
    decreases t,
{
    match t {
        TypeExprM::Generic { name, type_args } => lemma_pt_seq_same_names(type_args, e1, e2),
        TypeExprM::Array(e) => lemma_pt_same_names(e.node, e1, e2),
        TypeExprM::Fn { params, return_type } => {
            lemma_pt_seq_same_names(params, e1, e2);
            lemma_pt_same_names(return_type.node, e1, e2);
        },
        TypeExprM::Nullable(e) => lemma_pt_same_names(e.node, e1, e2),
        TypeExprM::Stream(e) => lemma_pt_same_names(e.node, e1, e2),
        _ => {},
    }
}

proof fn lemma_pt_seq_same_names(s: Seq<Spanned<TypeExprM>>, e1: TypeEnv, e2: TypeEnv)
    requires
        same_names(e1, e2),
    ensures
        spec_te_to_pt_seq(s, e1) == spec_te_to_pt_seq(s, e2),
    decreases s,
{
    if s.len() > 0 {
        lemma_pt_same_names(s[0].node, e1, e2);
        lemma_pt_seq_same_names(s.drop_first(), e1, e2);
    }
}

/// Resolution reads only the names an environment knows.
proof fn lemma_resolve_same_names(t: TypeExprM, e1: TypeEnv, e2: TypeEnv, l: Seq<InstM>)
    requires
        same_names(e1, e2),
    ensures
        spec_resolve(t, e1) == spec_resolve(t, e2),
        spec_resolve_insts(t, e1, l) == spec_resolve_insts(t, e2, l),
    decreases t,
{
    match t {
        TypeExprM::Generic { name, type_args } => {
            lemma_resolve_seq_same_names(type_args, e1, e2, l);
            lemma_pt_seq_same_names(spec_resolve_seq(type_args, e1).0, e1, e2);
        },
        TypeExprM::Array(e) => lemma_resolve_same_names(e.node, e1, e2, l),
        TypeExprM::Fn { params, return_type } => {
            lemma_resolve_seq_same_names(params, e1, e2, l);
            lemma_resolve_same_names(return_type.node, e1, e2, l);
            lemma_resolve_same_names(return_type.node, e1, e2, spec_resolve_seq_insts(params, e1, l));
        },
        TypeExprM::Nullable(e) => lemma_resolve_same_names(e.node, e1, e2, l),
        TypeExprM::Stream(e) => lemma_resolve_same_names(e.node, e1, e2, l),
        _ => {},
    }
}

proof fn lemma_resolve_seq_same_names(s: Seq<Spanned<TypeExprM>>, e1: TypeEnv, e2: TypeEnv, l: Seq<InstM>)
    requires
        same_names(e1, e2),
    ensures
        spec_resolve_seq(s, e1) == spec_resolve_seq(s, e2),
        spec_resolve_seq_insts(s, e1, l) == spec_resolve_seq_insts(s, e2, l),
    decreases s,
{
    if s.len() > 0 {
        lemma_resolve_same_names(s[0].node, e1, e2, l);
        lemma_resolve_seq_same_names(s.drop_first(), e1, e2, l);
        lemma_resolve_seq_same_names(s.drop_first(), e1, e2, spec_resolve_insts(s[0].node, e1, l));
    }
}

/// The text of an error's message built as `unknown generic type '<name>'`.
fn unknown_generic_error(name: &str) -> (e: CompileError)
    ensures
        e matches CompileError::Type { msg, span } && msg@ == unknown_generic_msg(name@) && span == Span::spec_dummy(),
{
    let mut msg = String::from_str("unknown generic type '");
    msg.append(name);
    msg.append("'");
    CompileError::type_err(msg, Span::dummy())
}

/// Resolution of generic instances in `te` against the names `env` knows,
/// registering in `insts` each instantiation it makes.
#[verifier::loop_isolation(false)]
#[verifier::rlimit(60)]
fn resolve_in(te: &mut TypeExpr, env: &TypeEnv, insts: &mut Vec<Instantiation>) -> (r: Result<(), CompileError>)
    ensures
        final(te).model() == spec_resolve(old(te).model(), *env).0,
        r is Ok <==> spec_resolve(old(te).model(), *env).1 is None,
        r matches Err(e) ==> e matches CompileError::Type { msg, span }
            && msg@ == unknown_generic_msg(spec_resolve(old(te).model(), *env).1->0)
            && span == Span::spec_dummy(),
        insts_model(final(insts)@) == spec_resolve_insts(old(te).model(), *env, insts_model(old(insts)@)),
    decreases *old(te),
{
    let ghost e0 = *env;
    let ghost l0 = insts_model(insts@);
    match te {
        TypeExpr::Generic { name, type_args } => {
            let ghost old_args = type_args@;
            let ghost old_m = old(te).model()->type_args;
            proof {
                lemma_resolve_seq_len(old_m, e0);
                assert(old_m.skip(0) =~= old_m);
            }
            let mut i: usize = 0;
            while i < type_args.len()
                invariant
                    i <= type_args.len(),
                    *env == e0,
                    type_args@.len() == old_args.len(),
                    old_m.len() == old_args.len(),
                    forall|j: int| 0 <= j < old_args.len() ==> old_m[j] == spanned_te_model(old_args[j]),
                    forall|j: int| i <= j < old_args.len() ==> #[trigger] type_args@[j] == old_args[j],
                    forall|j: int| 0 <= j < i ==> spanned_te_model(#[trigger] type_args@[j]) == spec_resolve_seq(old_m, e0).0[j],
                    spec_resolve_seq(old_m.skip(i as int), e0).1 == spec_resolve_seq(old_m, e0).1,
                    forall|k: int| 0 <= k < old_args.len() - i ==> spec_resolve_seq(old_m, e0).0[i + k] == #[trigger] spec_resolve_seq(old_m.skip(i as int), e0).0[k],
                    spec_resolve_seq(old_m.skip(i as int), e0).0.len() == old_args.len() - i,
                    l0 == insts_model(old(insts)@),
                    spec_resolve_seq_insts(old_m, e0, l0) == spec_resolve_seq_insts(old_m.skip(i as int), e0, insts_model(insts@)),
                decreases type_args.len() - i,
            {
                proof {
                    assert(decreases_to!(*old(te) => old_args[i as int]));
                    lemma_resolve_seq_step(old_m, e0, i as int);
                    lemma_resolve_seq_len(old_m.skip(i + 1), e0);
                    lemma_resolve_seq_insts_step(old_m, e0, i as int, insts_model(insts@));
                }
                let ghost before_i = type_args@[i as int];
                let res = resolve_in(&mut type_args[i].node, env, insts);
                proof {
                    let sk = spec_resolve_seq(old_m.skip(i as int), e0);
                    assert(sk.0[0] == spec_resolve_seq(old_m, e0).0[i as int]);
                    assert(spanned_te_model(type_args@[i as int]) == spec_resolve_seq(old_m, e0).0[i as int]);
                }
                match res {
                    Err(e) => {
                        proof {
                            let fm = TypeExpr::Generic { name: *name, type_args: *type_args }.model()->type_args;
                            let sm = spec_resolve_seq(old_m, e0).0;
                            assert forall|j: int| 0 <= j < fm.len() implies fm[j] == sm[j] by {
                                if j < i {
                                    assert(spanned_te_model(type_args@[j]) == sm[j]);
                                } else if j > i {
                                    assert(old_m.skip(i as int)[j - i] == old_m[j]);
                                    assert(spec_resolve_seq(old_m, e0).0[i + (j - i)] == spec_resolve_seq(old_m.skip(i as int), e0).0[j - i]);
                                }
                            }
                            assert(fm =~= sm);
                        }
                        return Err(e);
                    },
                    Ok(()) => {},
                }
                i += 1;
                proof {
                    assert forall|k: int| 0 <= k < old_args.len() - i implies spec_resolve_seq(old_m, e0).0[i + k] == #[trigger] spec_resolve_seq(old_m.skip(i as int), e0).0[k] by {
                        assert(spec_resolve_seq(old_m, e0).0[(i - 1) + (k + 1)] == spec_resolve_seq(old_m.skip(i - 1), e0).0[k + 1]);
                    }
                }
            }
            let ghost args2 = spec_resolve_seq(old_m, e0).0;
            proof {
                assert(old_m.skip(old_args.len() as int) =~= Seq::<Spanned<TypeExprM>>::empty());
                assert(insts_model(insts@) == spec_resolve_seq_insts(old_m, e0, l0));
                let fm = TypeExpr::Generic { name: *name, type_args: *type_args }.model()->type_args;
                assert forall|j: int| 0 <= j < fm.len() implies fm[j] == args2[j] by {
                    assert(spanned_te_model(type_args@[j]) == args2[j]);
                }
                assert(fm =~= args2);
            }
            let n = name.as_str();
            if str_eq(n, "Map") || str_eq(n, "Set") || str_eq(n, "Task") || str_eq(n, "Sender") || str_eq(n, "Receiver") {
                return Ok(());
            }
            let mut resolved: Vec<PlutoType> = Vec::new();
            let mut k: usize = 0;
            while k < type_args.len()
                invariant
                    k <= type_args.len(),
                    *env == e0,
                    resolved.len() == k,
                    forall|j: int| 0 <= j < k ==> (#[trigger] resolved@[j]).model() == spec_te_to_pt(type_args@[j].node.model(), e0),
                decreases type_args.len() - k,
            {
                let t = type_expr_to_pluto_type(&type_args[k].node, env);
                match t {
                    Ok(p) => resolved.push(p),
                    Err(e) => return Err(e),
                }
                k += 1;
            }
            proof {
                lemma_te_to_pt_seq(args2, e0);
                assert forall|j: int| 0 <= j < resolved.len() implies pt_models(resolved@)[j] == spec_te_to_pt_seq(args2, e0)[j] by {
                    assert(spanned_te_model(type_args@[j]) == args2[j]);
                }
                assert(pt_models(resolved@) =~= spec_te_to_pt_seq(args2, e0));
            }
            if names_contain(&env.generic_classes, n) || names_contain(&env.generic_enums, n) {
                let mangled = mangle_name(n, resolved.as_slice());
                register_instantiation(insts, n, resolved, &mangled);
                *te = TypeExpr::Named(mangled);
                Ok(())
            } else {
                Err(unknown_generic_error(n))
            }
        },
        TypeExpr::Array(inner) => resolve_in(&mut inner.node, env, insts),
        TypeExpr::Fn { params, return_type } => {
            let ghost old_params = params@;
            let ghost old_m = old(te).model()->params;
            proof {
                lemma_resolve_seq_len(old_m, e0);
                assert(old_m.skip(0) =~= old_m);
            }
            let mut i: usize = 0;
            while i < params.len()
                invariant
                    i <= params.len(),
                    *env == e0,
                    params@.len() == old_params.len(),
                    old_m.len() == old_params.len(),
                    forall|j: int| 0 <= j < old_params.len() ==> old_m[j] == spanned_te_model(*old_params[j]),
                    forall|j: int| i <= j < old_params.len() ==> #[trigger] params@[j] == old_params[j],
                    forall|j: int| 0 <= j < i ==> spanned_te_model(*#[trigger] params@[j]) == spec_resolve_seq(old_m, e0).0[j],
                    spec_resolve_seq(old_m.skip(i as int), e0).1 == spec_resolve_seq(old_m, e0).1,
                    forall|k: int| 0 <= k < old_params.len() - i ==> spec_resolve_seq(old_m, e0).0[i + k] == #[trigger] spec_resolve_seq(old_m.skip(i as int), e0).0[k],
                    spec_resolve_seq(old_m.skip(i as int), e0).0.len() == old_params.len() - i,
                    l0 == insts_model(old(insts)@),
                    spec_resolve_seq_insts(old_m, e0, l0) == spec_resolve_seq_insts(old_m.skip(i as int), e0, insts_model(insts@)),
                decreases params.len() - i,
            {
                proof {
                    assert(decreases_to!(*old(te) => old_params[i as int]));
                    lemma_resolve_seq_step(old_m, e0, i as int);
                    lemma_resolve_seq_len(old_m.skip(i + 1), e0);
                    lemma_resolve_seq_insts_step(old_m, e0, i as int, insts_model(insts@));
                }
                let ghost before_i = params@[i as int];
                let res = resolve_in(&mut params[i].node, env, insts);
                proof {
                    let sk = spec_resolve_seq(old_m.skip(i as int), e0);
                    assert(sk.0[0] == spec_resolve_seq(old_m, e0).0[i as int]);
                    assert(spanned_te_model(*params@[i as int]) == spec_resolve_seq(old_m, e0).0[i as int]);
                }
                match res {
                    Err(e) => {
                        proof {
                            let fm = TypeExpr::Fn { params: *params, return_type: *return_type }.model()->params;
                            let sm = spec_resolve_seq(old_m, e0).0;
                            assert forall|j: int| 0 <= j < fm.len() implies fm[j] == sm[j] by {
                                if j < i {
                                    assert(spanned_te_model(*params@[j]) == sm[j]);
                                } else if j > i {
                                    assert(old_m.skip(i as int)[j - i] == old_m[j]);
                                    assert(spec_resolve_seq(old_m, e0).0[i + (j - i)] == spec_resolve_seq(old_m.skip(i as int), e0).0[j - i]);
                                }
                            }
                            assert(fm =~= sm);
                        }
                        return Err(e);
                    },
                    Ok(()) => {},
                }
                i += 1;
                proof {
                    assert forall|k: int| 0 <= k < old_params.len() - i implies spec_resolve_seq(old_m, e0).0[i + k] == #[trigger] spec_resolve_seq(old_m.skip(i as int), e0).0[k] by {
                        assert(spec_resolve_seq(old_m, e0).0[(i - 1) + (k + 1)] == spec_resolve_seq(old_m.skip(i - 1), e0).0[k + 1]);
                    }
                }
            }
            proof {
                let fm = TypeExpr::Fn { params: *params, return_type: *return_type }.model()->params;
                let p2 = spec_resolve_seq(old_m, e0).0;
                assert(old_m.skip(old_params.len() as int) =~= Seq::<Spanned<TypeExprM>>::empty());
                assert forall|j: int| 0 <= j < fm.len() implies fm[j] == p2[j] by {
                    assert(spanned_te_model(*params@[j]) == p2[j]);
                }
                assert(fm =~= p2);
            }
            resolve_in(&mut return_type.node, env, insts)
        },
        TypeExpr::Named(_) | TypeExpr::Qualified { .. } => Ok(()),
        TypeExpr::Nullable(inner) => resolve_in(&mut inner.node, env, insts),
        TypeExpr::Stream(inner) => resolve_in(&mut inner.node, env, insts),
    }
}

/// The instantiation of `name` at `args` registered in `insts`, unless one of
/// the same mangled name is there already.
fn register_instantiation(insts: &mut Vec<Instantiation>, name: &str, args: Vec<PlutoType>, mangled: &String)
    ensures
        insts_model(final(insts)@) == spec_register(insts_model(old(insts)@),
            InstM { name: name@, args: pt_models(args@), mangled: mangled@ }),
{
    let ghost l = insts_model(insts@);
    let mut j: usize = 0;
    while j < insts.len()
        invariant
            j <= insts@.len(),
            l == insts_model(insts@),
            forall|k: int| 0 <= k < j ==> insts@[k].mangled@ != mangled@,
        decreases insts@.len() - j,
    {
        if str_eq(insts[j].mangled.as_str(), mangled.as_str()) {
            proof {
                assert(l.map_values(|x: InstM| x.mangled)[j as int] == mangled@);
            }
            return;
        }
        j += 1;
    }
    proof {
        let ms = l.map_values(|x: InstM| x.mangled);
        assert forall|k: int| 0 <= k < ms.len() implies #[trigger] ms[k] != mangled@ by {
            assert(insts@[k].mangled@ != mangled@);
        }
        assert(!ms.contains(mangled@));
    }
    insts.push(Instantiation { name: name.to_string(), args, mangled: mangled.clone() });
    proof {
        assert(insts_model(insts@) =~= l.push(InstM { name: name@, args: pt_models(args@), mangled: mangled@ }));
    }
}

/// Replace each user generic instance in a type expression by the named type of its
/// mangled instantiation, resolving arguments first, and register each
/// instantiation made in the environment; built-in generics (Map, Set, Task,
/// Sender, Receiver) keep their shape. Fails at the first generic whose name
/// the environment does not know, leaving what was resolved and registered
/// before it in place.
pub fn resolve_generic_te(te: &mut TypeExpr, env: &mut TypeEnv) -> (r: Result<(), CompileError>)
    ensures
        final(te).model() == spec_resolve(old(te).model(), *old(env)).0,
        r is Ok <==> spec_resolve(old(te).model(), *old(env)).1 is None,
        r matches Err(e) ==> e matches CompileError::Type { msg, span }
            && msg@ == unknown_generic_msg(spec_resolve(old(te).model(), *old(env)).1->0)
            && span == Span::spec_dummy(),
        same_names(*final(env), *old(env)),
        insts_model(final(env).instantiations@)
            == spec_resolve_insts(old(te).model(), *old(env), insts_model(old(env).instantiations@)),
{
    let ghost e0 = *env;
    let mut insts: Vec<Instantiation> = Vec::new();
    std::mem::swap(&mut insts, &mut env.instantiations);
    proof {
        assert(same_names(*env, e0));
        lemma_resolve_same_names(old(te).model(), *env, e0, insts_model(insts@));
    }
    let r = resolve_in(te, env, &mut insts);
    std::mem::swap(&mut insts, &mut env.instantiations);
    r
}

// ── Laws ────────────────────────────────────────────────────────────

/// Resolution is idempotent: resolving what a successful resolution produced
/// gives it back unchanged, without error, and registers no instantiation.
pub proof fn lemma_resolve_idempotent(t: TypeExprM, env: TypeEnv, l: Seq<InstM>)
    requires
        spec_resolve(t, env).1 is None,
    ensures
        spec_resolve(spec_resolve(t, env).0, env) == (spec_resolve(t, env).0, None::<Seq<char>>),
        spec_resolve_insts(spec_resolve(t, env).0, env, l) == l,
    decreases t,
{
    match t {
        TypeExprM::Generic { name, type_args } => {
            lemma_resolve_seq_idempotent(type_args, env, l);
        },
        TypeExprM::Array(e) => lemma_resolve_idempotent(e.node, env, l),
        TypeExprM::Fn { params, return_type } => {
            lemma_resolve_seq_idempotent(params, env, l);
            lemma_resolve_idempotent(return_type.node, env, l);
        },
        TypeExprM::Nullable(e) => lemma_resolve_idempotent(e.node, env, l),
        TypeExprM::Stream(e) => lemma_resolve_idempotent(e.node, env, l),
        _ => {},
    }
}

/// Resolving a resolved sequence of type expressions gives it back, without
/// error, and registers no instantiation.
pub proof fn lemma_resolve_seq_idempotent(s: Seq<Spanned<TypeExprM>>, env: TypeEnv, l: Seq<InstM>)
    requires
        spec_resolve_seq(s, env).1 is None,
    ensures
        spec_resolve_seq(spec_resolve_seq(s, env).0, env) == (spec_resolve_seq(s, env).0, None::<Seq<char>>),
        spec_resolve_seq_insts(spec_resolve_seq(s, env).0, env, l) == l,
    decreases s,
{
    if s.len() > 0 {
        let (h, e) = spec_resolve(s[0].node, env);
        let hs = Spanned { node: h, span: s[0].span };
        let rest = spec_resolve_seq(s.drop_first(), env).0;
        let r = spec_resolve_seq(s, env).0;
        lemma_resolve_idempotent(s[0].node, env, l);
        lemma_resolve_seq_idempotent(s.drop_first(), env, l);
        assert(r == seq![hs] + rest);
        assert(r[0] == hs);
        assert(r.drop_first() =~= rest);
        assert(spec_resolve_seq(r, env).0 =~= seq![hs] + rest);
    }
}


/// Substituting with no bindings leaves a type expression as it was.
pub proof fn lemma_subst_no_bindings(t: TypeExprM)
    ensures
        spec_subst(t, Map::empty()) == t,
    decreases t,
{
    match t {
        TypeExprM::Array(e) => {
            lemma_subst_no_bindings(e.node);
        },
        TypeExprM::Fn { params, return_type } => {
            assert forall|i: int| 0 <= i < params.len() implies spec_subst(params[i].node, Map::empty()) == params[i].node by {
                assert(decreases_to!(t => params[i]));
                lemma_subst_no_bindings(params[i].node);
            }
            lemma_subst_no_bindings(return_type.node);
            let r = spec_subst(t, Map::empty());
            assert(r->Fn_params =~= params);
        },
        TypeExprM::Generic { name, type_args } => {
            assert forall|i: int| 0 <= i < type_args.len() implies spec_subst(type_args[i].node, Map::empty()) == type_args[i].node by {
                assert(decreases_to!(t => type_args[i]));
                lemma_subst_no_bindings(type_args[i].node);
            }
            let r = spec_subst(t, Map::empty());
            assert(r->type_args =~= type_args);
        },
        TypeExprM::Nullable(e) => {
            lemma_subst_no_bindings(e.node);
        },
        TypeExprM::Stream(e) => {
            lemma_subst_no_bindings(e.node);
        },
        _ => {},
    }
}

/// Whether the named type `n` occurs anywhere in `t`.
pub open spec fn mentions(t: TypeExprM, n: Seq<char>) -> bool
    decreases t,
{
    match t {
        TypeExprM::Named(m) => m == n,
        TypeExprM::Array(e) => mentions(e.node, n),
        TypeExprM::Qualified { .. } => false,
        TypeExprM::Fn { params, return_type } =>
            (exists|i: int| #![trigger params[i]] 0 <= i < params.len() && mentions(params[i].node, n))
                || mentions(return_type.node, n),
        TypeExprM::Generic { name, type_args } =>
            exists|i: int| #![trigger type_args[i]] 0 <= i < type_args.len() && mentions(type_args[i].node, n),
        TypeExprM::Nullable(e) => mentions(e.node, n),
        TypeExprM::Stream(e) => mentions(e.node, n),
    }
}

/// Substitution leaves no occurrence of a bound name, wherever it stood in
/// the type expression, as long as no binding itself mentions that name.
pub proof fn lemma_subst_removes_bound_name(t: TypeExprM, b: Map<Seq<char>, TypeExprM>, n: Seq<char>)
    requires
        b.contains_key(n),
        forall|k: Seq<char>| b.contains_key(k) ==> !mentions(#[trigger] b[k], n),
    ensures
        !mentions(spec_subst(t, b), n),
    decreases t,
{
    let r = spec_subst(t, b);
    match t {
        TypeExprM::Named(m) => {},
        TypeExprM::Array(e) => lemma_subst_removes_bound_name(e.node, b, n),
        TypeExprM::Qualified { .. } => {},
        TypeExprM::Fn { params, return_type } => {
            let ps = r->Fn_params;
            assert forall|i: int| #![trigger ps[i]] 0 <= i < ps.len() implies !mentions(ps[i].node, n) by {
                assert(decreases_to!(t => params[i]));
                lemma_subst_removes_bound_name(params[i].node, b, n);
            }
            lemma_subst_removes_bound_name(return_type.node, b, n);
        },
        TypeExprM::Generic { name, type_args } => {
            let ts = r->type_args;
            assert forall|i: int| #![trigger ts[i]] 0 <= i < ts.len() implies !mentions(ts[i].node, n) by {
                assert(decreases_to!(t => type_args[i]));
                lemma_subst_removes_bound_name(type_args[i].node, b, n);
            }
        },
        TypeExprM::Nullable(e) => lemma_subst_removes_bound_name(e.node, b, n),
        TypeExprM::Stream(e) => lemma_subst_removes_bound_name(e.node, b, n),
    }
}

/// Bindings that bind each name to that same name change nothing: every
/// part of a type expression, spans included, stays where it was.
pub proof fn lemma_subst_identity_bindings(t: TypeExprM, b: Map<Seq<char>, TypeExprM>)
    requires
        forall|k: Seq<char>| b.contains_key(k) ==> #[trigger] b[k] == TypeExprM::Named(k),
    ensures
        spec_subst(t, b) == t,
    decreases t,
{
    match t {
        TypeExprM::Array(e) => lemma_subst_identity_bindings(e.node, b),
        TypeExprM::Fn { params, return_type } => {
            assert forall|i: int| 0 <= i < params.len() implies spec_subst(params[i].node, b) == params[i].node by {
                assert(decreases_to!(t => params[i]));
                lemma_subst_identity_bindings(params[i].node, b);
            }
            lemma_subst_identity_bindings(return_type.node, b);
            assert(spec_subst(t, b)->Fn_params =~= params);
        },
        TypeExprM::Generic { name, type_args } => {
            assert forall|i: int| 0 <= i < type_args.len() implies spec_subst(type_args[i].node, b) == type_args[i].node by {
                assert(decreases_to!(t => type_args[i]));
                lemma_subst_identity_bindings(type_args[i].node, b);
            }
            assert(spec_subst(t, b)->type_args =~= type_args);
        },
        TypeExprM::Nullable(e) => lemma_subst_identity_bindings(e.node, b),
        TypeExprM::Stream(e) => lemma_subst_identity_bindings(e.node, b),
        _ => {},
    }
}

/// Substitution keeps every occurrence of a name the bindings do not bind.
pub proof fn lemma_subst_keeps_unbound_name(t: TypeExprM, b: Map<Seq<char>, TypeExprM>, n: Seq<char>)
    requires
        !b.contains_key(n),
        mentions(t, n),
    ensures
        mentions(spec_subst(t, b), n),
    decreases t,
{
    let r = spec_subst(t, b);
    match t {
        TypeExprM::Named(m) => {},
        TypeExprM::Array(e) => lemma_subst_keeps_unbound_name(e.node, b, n),
        TypeExprM::Qualified { .. } => {},
        TypeExprM::Fn { params, return_type } => {
            let ps = r->Fn_params;
            if mentions(return_type.node, n) {
                lemma_subst_keeps_unbound_name(return_type.node, b, n);
            } else {
                let i = choose|i: int| #![trigger params[i]] 0 <= i < params.len() && mentions(params[i].node, n);
                assert(decreases_to!(t => params[i]));
                lemma_subst_keeps_unbound_name(params[i].node, b, n);
                assert(ps[i].node == spec_subst(params[i].node, b));
            }
        },
        TypeExprM::Generic { name, type_args } => {
            let ts = r->type_args;
            let i = choose|i: int| #![trigger type_args[i]] 0 <= i < type_args.len() && mentions(type_args[i].node, n);
            assert(decreases_to!(t => type_args[i]));
            lemma_subst_keeps_unbound_name(type_args[i].node, b, n);
            assert(ts[i].node == spec_subst(type_args[i].node, b));
        },
        TypeExprM::Nullable(e) => lemma_subst_keeps_unbound_name(e.node, b, n),
        TypeExprM::Stream(e) => lemma_subst_keeps_unbound_name(e.node, b, n),
    }
}

/// The names of the primitive types.
pub open spec fn is_primitive_name(n: Seq<char>) -> bool {
    n == "int"@ || n == "float"@ || n == "bool"@ || n == "string"@ || n == "void"@ || n == "byte"@ || n == "bytes"@
}

/// `n` names a class or generic class of `env`.
pub open spec fn declares_class(env: TypeEnv, n: Seq<char>) -> bool {
    names(env.classes@).contains(n) || names(env.generic_classes@).contains(n)
}

/// `n` names an enum or generic enum of `env`.
pub open spec fn declares_enum(env: TypeEnv, n: Seq<char>) -> bool {
    names(env.enums@).contains(n) || names(env.generic_enums@).contains(n)
}

/// Every class, enum and trait name in `t` is one that `env` reads back as the
/// same kind: not a primitive's name, and declared as that kind (a class may
/// also be undeclared, as an unknown name reads as a class).
pub open spec fn names_read_back(t: PlutoTypeM, env: TypeEnv) -> bool
    decreases t,
{
    match t {
        PlutoTypeM::Class(n) => !is_primitive_name(n) && (declares_class(env, n) || (!declares_enum(env, n) && !names(env.traits@).contains(n))),
        PlutoTypeM::Enum(n) => !is_primitive_name(n) && !declares_class(env, n) && declares_enum(env, n),
        PlutoTypeM::Trait(n) => !is_primitive_name(n) && !declares_class(env, n) && !declares_enum(env, n) && names(env.traits@).contains(n),
        PlutoTypeM::Array(e) => names_read_back(*e, env),
        PlutoTypeM::Func(ps, r) => (forall|i: int| 0 <= i < ps.len() ==> names_read_back(#[trigger] ps[i], env)) && names_read_back(*r, env),
        PlutoTypeM::MapOf(k, v) => names_read_back(*k, env) && names_read_back(*v, env),
        PlutoTypeM::SetOf(e) => names_read_back(*e, env),
        PlutoTypeM::Task(e) => names_read_back(*e, env),
        PlutoTypeM::Sender(e) => names_read_back(*e, env),
        PlutoTypeM::Receiver(e) => names_read_back(*e, env),
        PlutoTypeM::Nullable(e) => names_read_back(*e, env),
        PlutoTypeM::Stream(e) => names_read_back(*e, env),
        _ => true,
    }
}

/// The primitive and built-in generic type names are distinct from each other.
pub proof fn lemma_builtin_names_distinct()
    ensures
        "float"@ != "int"@,
        "bool"@ != "int"@,
        "bool"@ != "float"@,
        "string"@ != "int"@,
        "string"@ != "float"@,
        "string"@ != "bool"@,
        "void"@ != "int"@,
        "void"@ != "float"@,
        "void"@ != "bool"@,
        "void"@ != "string"@,
        "byte"@ != "int"@,
        "byte"@ != "float"@,
        "byte"@ != "bool"@,
        "byte"@ != "string"@,
        "byte"@ != "void"@,
        "bytes"@ != "int"@,
        "bytes"@ != "float"@,
        "bytes"@ != "bool"@,
        "bytes"@ != "string"@,
        "bytes"@ != "void"@,
        "bytes"@ != "byte"@,
        "Receiver"@ != "Sender"@,
        "Map"@ != "Sender"@,
        "Map"@ != "Receiver"@,
        "Set"@ != "Sender"@,
        "Set"@ != "Receiver"@,
        "Set"@ != "Map"@,
        "Task"@ != "Sender"@,
        "Task"@ != "Receiver"@,
        "Task"@ != "Map"@,
        "Task"@ != "Set"@,
{
    reveal_strlit("int");
    reveal_strlit("float");
    reveal_strlit("bool");
    reveal_strlit("string");
    reveal_strlit("void");
    reveal_strlit("byte");
    reveal_strlit("bytes");
    reveal_strlit("Sender");
    reveal_strlit("Receiver");
    reveal_strlit("Map");
    reveal_strlit("Set");
    reveal_strlit("Task");
    assert("int"@.len() == 3);
    assert("float"@.len() == 5);
    assert("bool"@.len() == 4);
    assert("string"@.len() == 6);
    assert("void"@.len() == 4);
    assert("byte"@.len() == 4);
    assert("bytes"@.len() == 5);
    assert("Sender"@.len() == 6);
    assert("Receiver"@.len() == 8);
    assert("Map"@.len() == 3);
    assert("Set"@.len() == 3);
    assert("Task"@.len() == 4);
    assert("bool"@[0] == 'b');
    assert("void"@[0] == 'v');
    assert("byte"@[0] == 'b');
    assert("float"@[0] == 'f');
    assert("bytes"@[0] == 'b');
    assert("Map"@[0] == 'M');
    assert("Set"@[0] == 'S');
    assert("bool"@[1] == 'o');
    assert("void"@[1] == 'o');
    assert("byte"@[1] == 'y');
}

/// Writing a resolved type as a type expression and resolving that expression
/// again gives the type back, when its names read back as their kinds.
pub proof fn lemma_type_expr_roundtrip(t: PlutoTypeM, env: TypeEnv)
    requires
        names_read_back(t, env),
    ensures
        spec_te_to_pt(pt_to_te(t), env) == t,
    decreases t,
{
    lemma_builtin_names_distinct();
    match t {
        PlutoTypeM::Array(e) => {
            lemma_type_expr_roundtrip(*e, env);
        },
        PlutoTypeM::Func(ps, r) => {
            lemma_type_expr_roundtrip(*r, env);
            let te = pt_to_te(t);
            let params = te->Fn_params;
            lemma_te_to_pt_seq(params, env);
            assert forall|i: int| 0 <= i < ps.len() implies spec_te_to_pt_seq(params, env)[i] == ps[i] by {
                lemma_type_expr_roundtrip(ps[i], env);
            }
            assert(spec_te_to_pt_seq(params, env) =~= ps);
        },
        PlutoTypeM::MapOf(k, v) => {
            lemma_type_expr_roundtrip(*k, env);
            lemma_type_expr_roundtrip(*v, env);
            lemma_te_to_pt_seq(pt_to_te(t)->type_args, env);
        },
        PlutoTypeM::SetOf(e) => {
            lemma_type_expr_roundtrip(*e, env);
            lemma_te_to_pt_seq(pt_to_te(t)->type_args, env);
        },
        PlutoTypeM::Task(e) => {
            lemma_type_expr_roundtrip(*e, env);
            lemma_te_to_pt_seq(pt_to_te(t)->type_args, env);
        },
        PlutoTypeM::Sender(e) => {
            lemma_type_expr_roundtrip(*e, env);
            lemma_te_to_pt_seq(pt_to_te(t)->type_args, env);
        },
        PlutoTypeM::Receiver(e) => {
            lemma_type_expr_roundtrip(*e, env);
            lemma_te_to_pt_seq(pt_to_te(t)->type_args, env);
        },
        PlutoTypeM::Nullable(e) => {
            lemma_type_expr_roundtrip(*e, env);
        },
        PlutoTypeM::Stream(e) => {
            lemma_type_expr_roundtrip(*e, env);
        },
        _ => {},
    }
}

} // verus!
