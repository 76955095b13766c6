use vstd::prelude::*;
use crate::span::Span;
use crate::span::Spanned;
use crate::parser::ast::TypeExpr;
use crate::parser::ast::TypeExprM;
use crate::text::str_eq;
use crate::parser::ast::Param;
use crate::parser::ast::Field;
use crate::parser::ast::EnumVariant;
use crate::rust_ffi::metadata::opt_int;
use crate::parser::ast::EnumDecl;
use crate::parser::ast::ErrorDecl;
use crate::typeck::env::names;
use vstd::string::StringExecFns;

verus! {

/// What a sync of a `.pt` text into its `.pluto` file changed: the
/// declarations added, removed and modified, and how many stayed the same.
#[derive(Debug, Clone)]
pub struct SyncResult {
    pub added: Vec<String>,
    pub removed: Vec<String>,
    pub modified: Vec<String>,
    pub unchanged: usize,
}

/// A type expression with every span replaced by the dummy span.
pub open spec fn erase_spans(t: TypeExprM) -> TypeExprM
    decreases t,
{
    match t {
        TypeExprM::Array(e) => TypeExprM::Array(Box::new(Spanned { node: erase_spans(e.node), span: Span::spec_dummy() })),
        TypeExprM::Fn { params, return_type } => TypeExprM::Fn {
            params: Seq::new(params.len(), |i: int| if 0 <= i < params.len() {
                Spanned { node: erase_spans(params[i].node), span: Span::spec_dummy() }
            } else {
                arbitrary()
            }),
            return_type: Box::new(Spanned { node: erase_spans(return_type.node), span: Span::spec_dummy() }),
        },
        TypeExprM::Generic { name, type_args } => TypeExprM::Generic {
            name,
            type_args: Seq::new(type_args.len(), |i: int| if 0 <= i < type_args.len() {
                Spanned { node: erase_spans(type_args[i].node), span: Span::spec_dummy() }
            } else {
                arbitrary()
            }),
        },
        TypeExprM::Nullable(e) => TypeExprM::Nullable(Box::new(Spanned { node: erase_spans(e.node), span: Span::spec_dummy() })),
        TypeExprM::Stream(e) => TypeExprM::Stream(Box::new(Spanned { node: erase_spans(e.node), span: Span::spec_dummy() })),
        _ => t,
    }
}

/// Two type expressions are the same type, whatever their spans.
pub open spec fn same_type(a: TypeExprM, b: TypeExprM) -> bool {
    erase_spans(a) == erase_spans(b)
}

/// Compare two type expressions semantically, ignoring spans.
#[verifier::loop_isolation(false)]
pub fn types_equal(t1: &Spanned<TypeExpr>, t2: &Spanned<TypeExpr>) -> (r: bool)
    ensures
        r == same_type(t1.node.model(), t2.node.model()),
    decreases t1,
{
    let ghost m1 = t1.node.model();
    let ghost m2 = t2.node.model();
    match (&t1.node, &t2.node) {
        (TypeExpr::Named(n1), TypeExpr::Named(n2)) => str_eq(n1.as_str(), n2.as_str()),
        (TypeExpr::Array(a1), TypeExpr::Array(a2)) => types_equal(a1, a2),
        (TypeExpr::Qualified { module: m_1, name: n_1 }, TypeExpr::Qualified { module: m_2, name: n_2 }) => {
            str_eq(m_1.as_str(), m_2.as_str()) && str_eq(n_1.as_str(), n_2.as_str())
        },
        (TypeExpr::Fn { params: p1, return_type: r1 }, TypeExpr::Fn { params: p2, return_type: r2 }) => {
            let ghost e1 = erase_spans(m1)->params;
            let ghost e2 = erase_spans(m2)->params;
            if p1.len() != p2.len() {
                assert(e1.len() != e2.len());
                return false;
            }
            let mut i: usize = 0;
            while i < p1.len()
                invariant
                    i <= p1.len(),
                    p1.len() == p2.len(),
                    forall|j: int| 0 <= j < i ==> #[trigger] e1[j] == e2[j],
                decreases p1.len() - i,
            {
                proof {
                    assert(decreases_to!(t1 => p1@[i as int]));
                }
                if !types_equal(&p1[i], &p2[i]) {
                    assert(e1[i as int] != e2[i as int]);
                    return false;
                }
                i += 1;
            }
            assert(e1 =~= e2);
            types_equal(r1, r2)
        },
        (TypeExpr::Generic { name: n1, type_args: a1 }, TypeExpr::Generic { name: n2, type_args: a2 }) => {
            let ghost e1 = erase_spans(m1)->type_args;
            let ghost e2 = erase_spans(m2)->type_args;
            if !str_eq(n1.as_str(), n2.as_str()) {
                return false;
            }
            if a1.len() != a2.len() {
                assert(e1.len() != e2.len());
                return false;
            }
            let mut i: usize = 0;
            while i < a1.len()
                invariant
                    i <= a1.len(),
                    a1.len() == a2.len(),
                    forall|j: int| 0 <= j < i ==> #[trigger] e1[j] == e2[j],
                decreases a1.len() - i,
            {
                proof {
                    assert(decreases_to!(t1 => a1@[i as int]));
                }
                if !types_equal(&a1[i], &a2[i]) {
                    assert(e1[i as int] != e2[i as int]);
                    return false;
                }
                i += 1;
            }
            assert(e1 =~= e2);
            true
        },
        (TypeExpr::Nullable(a1), TypeExpr::Nullable(a2)) => types_equal(a1, a2),
        (TypeExpr::Stream(a1), TypeExpr::Stream(a2)) => types_equal(a1, a2),
        _ => false,
    }
}

/// Every type expression is the same type as itself.
pub proof fn lemma_types_equal_reflexive(t: Spanned<TypeExprM>)
    ensures
        same_type(t.node, t.node),
{
}

/// Type sameness does not depend on the order of the two expressions.
pub proof fn lemma_types_equal_symmetric(a: Spanned<TypeExprM>, b: Spanned<TypeExprM>)
    ensures
        same_type(a.node, b.node) == same_type(b.node, a.node),
{
}

/// Two expressions that are each the same type as a third are the same type.
pub proof fn lemma_types_equal_transitive(a: Spanned<TypeExprM>, b: Spanned<TypeExprM>, c: Spanned<TypeExprM>)
    requires
        same_type(a.node, b.node),
        same_type(b.node, c.node),
    ensures
        same_type(a.node, c.node),
{
}

/// Erasing spans twice is erasing them once.
pub proof fn lemma_erase_spans_idempotent(t: TypeExprM)
    ensures
        erase_spans(erase_spans(t)) == erase_spans(t),
    decreases t,
{
    match t {
        TypeExprM::Array(e) => {
            lemma_erase_spans_idempotent(e.node);
        },
        TypeExprM::Fn { params, return_type } => {
            let once = erase_spans(t)->Fn_params;
            assert forall|i: int| 0 <= i < params.len() implies erase_spans(once[i].node) == once[i].node by {
                assert(decreases_to!(t => params[i]));
                lemma_erase_spans_idempotent(params[i].node);
            }
            lemma_erase_spans_idempotent(return_type.node);
            assert(erase_spans(erase_spans(t))->Fn_params =~= once);
        },
        TypeExprM::Generic { name, type_args } => {
            let once = erase_spans(t)->type_args;
            assert forall|i: int| 0 <= i < type_args.len() implies erase_spans(once[i].node) == once[i].node by {
                assert(decreases_to!(t => type_args[i]));
                lemma_erase_spans_idempotent(type_args[i].node);
            }
            assert(erase_spans(erase_spans(t))->type_args =~= once);
        },
        TypeExprM::Nullable(e) => {
            lemma_erase_spans_idempotent(e.node);
        },
        TypeExprM::Stream(e) => {
            lemma_erase_spans_idempotent(e.node);
        },
        _ => {},
    }
}

/// Spans do not matter to type sameness: a type expression is the same type as
/// its copy with every span erased.
pub proof fn lemma_same_type_ignores_spans(t: TypeExprM)
    ensures
        same_type(t, erase_spans(t)),
{
    lemma_erase_spans_idempotent(t);
}

// ── Keeping ids across edits ────────────────────────────────────────

/// The first index whose name is `name`, scanning from `k`.
pub open spec fn first_named(names: Seq<Seq<char>>, name: Seq<char>, k: int) -> Option<int>
    decreases names.len() - k,
{
    if k < 0 || k >= names.len() {
        None
    } else if names[k] == name {
        Some(k)
    } else {
        first_named(names, name, k + 1)
    }
}

pub open spec fn param_names(ps: Seq<Param>) -> Seq<Seq<char>> {
    ps.map_values(|p: Param| p.name.node@)
}

pub open spec fn field_names(fs: Seq<Field>) -> Seq<Seq<char>> {
    fs.map_values(|f: Field| f.name.node@)
}

pub open spec fn variant_names(vs: Seq<EnumVariant>) -> Seq<Seq<char>> {
    vs.map_values(|v: EnumVariant| v.name.node@)
}

/// A new parameter with the id of the first old parameter of the same name, if any.
pub open spec fn transplanted_param(p: Param, olds: Seq<Param>) -> Param {
    match first_named(param_names(olds), p.name.node@, 0) {
        Some(j) => Param { id: olds[j].id, ..p },
        None => p,
    }
}

/// Each new parameter with the id of the first old parameter of the same name.
pub open spec fn spec_transplant_params(news: Seq<Param>, olds: Seq<Param>) -> Seq<Param> {
    Seq::new(news.len(), |i: int| transplanted_param(news[i], olds))
}

/// A new field with the id of the first old field of the same name, if any.
pub open spec fn transplanted_field(f: Field, olds: Seq<Field>) -> Field {
    match first_named(field_names(olds), f.name.node@, 0) {
        Some(j) => Field { id: olds[j].id, ..f },
        None => f,
    }
}

/// Each new field with the id of the first old field of the same name.
pub open spec fn spec_transplant_fields(news: Seq<Field>, olds: Seq<Field>) -> Seq<Field> {
    Seq::new(news.len(), |i: int| transplanted_field(news[i], olds))
}

/// Find the first parameter named `name`.
fn find_param(params: &Vec<Param>, name: &str) -> (r: Option<usize>)
    ensures
        opt_int(r) == first_named(param_names(params@), name@, 0),
        r matches Some(j) ==> j < params@.len(),
{
    let mut j: usize = 0;
    while j < params.len()
        invariant
            j <= params@.len(),
            first_named(param_names(params@), name@, j as int) == first_named(param_names(params@), name@, 0),
        decreases params@.len() - j,
    {
        if str_eq(params[j].name.node.as_str(), name) {
            return Some(j);
        }
        j += 1;
    }
    None
}

/// Find the first field named `name`.
fn find_field(fields: &Vec<Field>, name: &str) -> (r: Option<usize>)
    ensures
        opt_int(r) == first_named(field_names(fields@), name@, 0),
        r matches Some(j) ==> j < fields@.len(),
{
    let mut j: usize = 0;
    while j < fields.len()
        invariant
            j <= fields@.len(),
            first_named(field_names(fields@), name@, j as int) == first_named(field_names(fields@), name@, 0),
        decreases fields@.len() - j,
    {
        if str_eq(fields[j].name.node.as_str(), name) {
            return Some(j);
        }
        j += 1;
    }
    None
}

/// Find the first variant named `name`.
fn find_variant(variants: &Vec<EnumVariant>, name: &str) -> (r: Option<usize>)
    ensures
        opt_int(r) == first_named(variant_names(variants@), name@, 0),
        r matches Some(j) ==> j < variants@.len(),
{
    let mut j: usize = 0;
    while j < variants.len()
        invariant
            j <= variants@.len(),
            first_named(variant_names(variants@), name@, j as int) == first_named(variant_names(variants@), name@, 0),
        decreases variants@.len() - j,
    {
        if str_eq(variants[j].name.node.as_str(), name) {
            return Some(j);
        }
        j += 1;
    }
    None
}

/// Match parameters by name and give each new one the id of the old one.
pub fn transplant_params(new_params: &mut Vec<Param>, old_params: &Vec<Param>)
    ensures
        final(new_params)@ == spec_transplant_params(old(new_params)@, old_params@),
{
    let ghost before = new_params@;
    let mut i: usize = 0;
    while i < new_params.len()
        invariant
            i <= new_params@.len(),
            new_params@.len() == before.len(),
            forall|k: int| 0 <= k < i ==> new_params@[k] == transplanted_param(before[k], old_params@),
            forall|k: int| i <= k < new_params@.len() ==> new_params@[k] == before[k],
        decreases new_params@.len() - i,
    {
        if let Some(j) = find_param(old_params, new_params[i].name.node.as_str()) {
            let id = old_params[j].id;
            new_params[i].id = id;
        }
        i += 1;
    }
    proof {
        assert(new_params@ =~= spec_transplant_params(before, old_params@));
    }
}

/// Match fields by name and give each new one the id of the old one.
pub fn transplant_fields(new_fields: &mut Vec<Field>, old_fields: &Vec<Field>)
    ensures
        final(new_fields)@ == spec_transplant_fields(old(new_fields)@, old_fields@),
{
    let ghost before = new_fields@;
    let mut i: usize = 0;
    while i < new_fields.len()
        invariant
            i <= new_fields@.len(),
            new_fields@.len() == before.len(),
            forall|k: int| 0 <= k < i ==> new_fields@[k] == transplanted_field(before[k], old_fields@),
            forall|k: int| i <= k < new_fields@.len() ==> new_fields@[k] == before[k],
        decreases new_fields@.len() - i,
    {
        if let Some(j) = find_field(old_fields, new_fields[i].name.node.as_str()) {
            let id = old_fields[j].id;
            new_fields[i].id = id;
        }
        i += 1;
    }
    proof {
        assert(new_fields@ =~= spec_transplant_fields(before, old_fields@));
    }
}

/// `after` is `before` with the id and fields carried over from the first old
/// variant of the same name, if there is one.
pub open spec fn variant_transplanted(before: EnumVariant, after: EnumVariant, olds: Seq<EnumVariant>) -> bool {
    &&& after.name == before.name
    &&& match first_named(variant_names(olds), before.name.node@, 0) {
        Some(j) => after.id == olds[j].id && after.fields@ == spec_transplant_fields(before.fields@, olds[j].fields@),
        None => after.id == before.id && after.fields@ == before.fields@,
    }
}

/// Match enum variants by name; a matched variant gets the old id, and its
/// fields are matched by name in turn.
pub fn transplant_variants(new_variants: &mut Vec<EnumVariant>, old_variants: &Vec<EnumVariant>)
    ensures
        final(new_variants)@.len() == old(new_variants)@.len(),
        forall|i: int| 0 <= i < old(new_variants)@.len()
            ==> variant_transplanted(old(new_variants)@[i], #[trigger] final(new_variants)@[i], old_variants@),
{
    let ghost before = new_variants@;
    let mut i: usize = 0;
    while i < new_variants.len()
        invariant
            i <= new_variants@.len(),
            new_variants@.len() == before.len(),
            forall|k: int| 0 <= k < i ==> variant_transplanted(before[k], #[trigger] new_variants@[k], old_variants@),
            forall|k: int| i <= k < new_variants@.len() ==> new_variants@[k] == before[k],
        decreases new_variants@.len() - i,
    {
        if let Some(j) = find_variant(old_variants, new_variants[i].name.node.as_str()) {
            let id = old_variants[j].id;
            new_variants[i].id = id;
            transplant_fields(&mut new_variants[i].fields, &old_variants[j].fields);
        }
        i += 1;
    }
}

// ── Matching declarations by name ───────────────────────────────────

/// A declaration whose ids are kept across edits: a new declaration takes the
/// ids of the old declaration of the same name.
pub trait Transplant: Sized {
    /// The name a declaration is matched by.
    spec fn decl_name(&self) -> Seq<char>;

    /// `after` is `before` with the ids of `prev` carried over.
    spec fn carried_over(before: Self, after: Self, prev: Self) -> bool;

    fn name_text(&self) -> (r: &str)
        ensures
            r@ == self.decl_name(),
    ;

    fn carry_over(&mut self, prev: &Self)
        ensures
            Self::carried_over(*old(self), *final(self), *prev),
    ;
}

impl Transplant for Spanned<EnumDecl> {
    open spec fn decl_name(&self) -> Seq<char> {
        self.node.name.node@
    }

    /// The enum takes the old id; its variants are matched by name in turn.
    open spec fn carried_over(before: Self, after: Self, prev: Self) -> bool {
        &&& after.span == before.span
        &&& after.node.id == prev.node.id
        &&& after.node.name == before.node.name
        &&& after.node.type_params == before.node.type_params
        &&& after.node.type_param_bounds == before.node.type_param_bounds
        &&& after.node.is_pub == before.node.is_pub
        &&& after.node.variants@.len() == before.node.variants@.len()
        &&& forall|i: int| 0 <= i < before.node.variants@.len()
            ==> variant_transplanted(before.node.variants@[i], #[trigger] after.node.variants@[i], prev.node.variants@)
    }

    fn name_text(&self) -> (r: &str) {
        self.node.name.node.as_str()
    }

    fn carry_over(&mut self, prev: &Self) {
        self.node.id = prev.node.id;
        transplant_variants(&mut self.node.variants, &prev.node.variants);
    }
}

impl Transplant for Spanned<ErrorDecl> {
    open spec fn decl_name(&self) -> Seq<char> {
        self.node.name.node@
    }

    /// The error takes the old id; its fields are matched by name in turn.
    open spec fn carried_over(before: Self, after: Self, prev: Self) -> bool {
        &&& after.span == before.span
        &&& after.node.id == prev.node.id
        &&& after.node.name == before.node.name
        &&& after.node.is_pub == before.node.is_pub
        &&& after.node.fields@ == spec_transplant_fields(before.node.fields@, prev.node.fields@)
    }

    fn name_text(&self) -> (r: &str) {
        self.node.name.node.as_str()
    }

    fn carry_over(&mut self, prev: &Self) {
        self.node.id = prev.node.id;
        transplant_fields(&mut self.node.fields, &prev.node.fields);
    }
}

/// The names of a list of declarations.
pub open spec fn decl_names<T: Transplant>(ds: Seq<T>) -> Seq<Seq<char>> {
    ds.map_values(|d: T| d.decl_name())
}

/// Whether old declaration `j` is taken by one of the matches `ms`.
pub open spec fn taken(ms: Seq<Option<int>>, j: int) -> bool {
    ms.contains(Some(j))
}

/// The first old declaration, from `j` on, named `name` and not yet taken.
pub open spec fn first_free(olds: Seq<Seq<char>>, ms: Seq<Option<int>>, name: Seq<char>, j: int) -> Option<int>
    decreases olds.len() - j,
{
    if j < 0 || j >= olds.len() {
        None
    } else if !taken(ms, j) && olds[j] == name {
        Some(j)
    } else {
        first_free(olds, ms, name, j + 1)
    }
}

/// For each of the first `k` new names in turn, the old declaration it takes:
/// the first of its name that no earlier new declaration took.
pub open spec fn name_matches(news: Seq<Seq<char>>, olds: Seq<Seq<char>>, k: int) -> Seq<Option<int>>
    decreases k,
{
    if k <= 0 {
        Seq::empty()
    } else {
        let ms = name_matches(news, olds, k - 1);
        ms.push(first_free(olds, ms, news[k - 1], 0))
    }
}

/// How many of the matches found a declaration.
pub open spec fn count_matched(ms: Seq<Option<int>>) -> nat
    decreases ms.len(),
{
    if ms.len() == 0 {
        0
    } else {
        count_matched(ms.drop_last()) + if ms.last() is Some { 1nat } else { 0nat }
    }
}

/// `kind name` for each of the first `k` new names that took no old declaration.
pub open spec fn added_lines(kind: Seq<char>, news: Seq<Seq<char>>, ms: Seq<Option<int>>, k: int) -> Seq<Seq<char>>
    decreases k,
{
    if k <= 0 {
        Seq::empty()
    } else {
        let prev = added_lines(kind, news, ms, k - 1);
        if ms[k - 1] is None {
            prev.push(kind + " "@ + news[k - 1])
        } else {
            prev
        }
    }
}

/// `kind name` for each of the first `k` old names that no new declaration took.
pub open spec fn removed_lines(kind: Seq<char>, olds: Seq<Seq<char>>, ms: Seq<Option<int>>, k: int) -> Seq<Seq<char>>
    decreases k,
{
    if k <= 0 {
        Seq::empty()
    } else {
        let prev = removed_lines(kind, olds, ms, k - 1);
        if !taken(ms, k - 1) {
            prev.push(kind + " "@ + olds[k - 1])
        } else {
            prev
        }
    }
}

proof fn lemma_taken_push(ms: Seq<Option<int>>, x: Option<int>, j: int)
    ensures
        taken(ms.push(x), j) == (taken(ms, j) || x == Some(j)),
{
    if taken(ms.push(x), j) && x != Some(j) {
        let k = choose|k: int| 0 <= k < ms.push(x).len() && ms.push(x)[k] == Some(j);
        assert(ms[k] == Some(j));
    }
    if taken(ms, j) {
        let k = choose|k: int| 0 <= k < ms.len() && ms[k] == Some(j);
        assert(ms.push(x)[k] == Some(j));
    }
    if x == Some(j) {
        assert(ms.push(x)[ms.len() as int] == Some(j));
    }
}

/// The matches of a prefix of the new names are a prefix of the matches of all.
proof fn lemma_name_matches_prefix(news: Seq<Seq<char>>, olds: Seq<Seq<char>>, k: int, n: int)
    requires
        0 <= k <= n,
    ensures
        name_matches(news, olds, n).len() == n,
        forall|m: int| 0 <= m < k ==> #[trigger] name_matches(news, olds, k)[m] == name_matches(news, olds, n)[m],
    decreases n,
{
    if n > 0 {
        if k < n {
            lemma_name_matches_prefix(news, olds, k, n - 1);
        } else {
            lemma_name_matches_prefix(news, olds, 0, n - 1);
        }
    }
}

/// The first old declaration of a name that `flags` does not mark as taken.
fn first_free_exec<T: Transplant>(old_items: &Vec<T>, flags: &Vec<bool>, name: &str, Ghost(ms): Ghost<Seq<Option<int>>>) -> (r: Option<usize>)
    requires
        flags@.len() == old_items@.len(),
        forall|j: int| 0 <= j < flags@.len() ==> flags@[j] == taken(ms, j),
    ensures
        opt_int(r) == first_free(decl_names(old_items@), ms, name@, 0),
        r matches Some(j) ==> j < old_items@.len(),
{
    let ghost olds = decl_names(old_items@);
    let mut j: usize = 0;
    while j < old_items.len()
        invariant
            j <= old_items@.len(),
            flags@.len() == old_items@.len(),
            forall|k: int| 0 <= k < flags@.len() ==> flags@[k] == taken(ms, k),
            olds == decl_names(old_items@),
            first_free(olds, ms, name@, j as int) == first_free(olds, ms, name@, 0),
        decreases old_items@.len() - j,
    {
        if !flags[j] && str_eq(old_items[j].name_text(), name) {
            return Some(j);
        }
        j += 1;
    }
    None
}

/// `kind name`.
fn kind_line(kind: &str, name: &str) -> (s: String)
    ensures
        s@ == kind@ + " "@ + name@,
{
    let mut s = String::new();
    s.append(kind);
    s.append(" ");
    s.append(name);
    proof {
        reveal_strlit(" ");
    }
    s
}

/// Keeps ids across an edit of a list of declarations, matching by name: each
/// new declaration in turn takes the ids of the first old declaration of its
/// name that no earlier one took. The new declarations that took none are
/// recorded in `added`, the old ones that none took in `removed`, each as
/// `kind name`, and `unchanged` counts the matches.
pub fn transplant_decls<T: Transplant>(
    new_items: &mut Vec<T>,
    old_items: &Vec<T>,
    added: &mut Vec<String>,
    removed: &mut Vec<String>,
    unchanged: &mut usize,
    kind: &str,
)
    requires
        *old(unchanged) + old(new_items)@.len() <= usize::MAX,
    ensures
        final(new_items)@.len() == old(new_items)@.len(),
        forall|i: int| 0 <= i < old(new_items)@.len() ==> match #[trigger] name_matches(decl_names(old(new_items)@), decl_names(old_items@), old(new_items)@.len() as int)[i] {
            Some(j) => T::carried_over(old(new_items)@[i], final(new_items)@[i], old_items@[j]),
            None => final(new_items)@[i] == old(new_items)@[i],
        },
        *final(unchanged) == *old(unchanged) + count_matched(name_matches(decl_names(old(new_items)@), decl_names(old_items@), old(new_items)@.len() as int)),
        names(final(added)@) == names(old(added)@) + added_lines(kind@, decl_names(old(new_items)@),
            name_matches(decl_names(old(new_items)@), decl_names(old_items@), old(new_items)@.len() as int), old(new_items)@.len() as int),
        names(final(removed)@) == names(old(removed)@) + removed_lines(kind@, decl_names(old_items@),
            name_matches(decl_names(old(new_items)@), decl_names(old_items@), old(new_items)@.len() as int), old_items@.len() as int),
{
    let ghost before = new_items@;
    let ghost news = decl_names(before);
    let ghost olds = decl_names(old_items@);
    let ghost n = before.len() as int;
    let ghost all = name_matches(news, olds, n);
    proof {
        lemma_name_matches_prefix(news, olds, 0, n);
    }
    let mut old_matched: Vec<bool> = Vec::new();
    let mut j: usize = 0;
    while j < old_items.len()
        invariant
            j <= old_items@.len(),
            old_matched@.len() == j,
            forall|k: int| 0 <= k < j ==> !old_matched@[k],
        decreases old_items@.len() - j,
    {
        old_matched.push(false);
        j += 1;
    }
    let mut new_matched: Vec<bool> = Vec::new();
    let mut i: usize = 0;
    while i < new_items.len()
        invariant
            new_items@.len() == before.len(),
            n == before.len(),
            i <= n,
            news == decl_names(before),
            olds == decl_names(old_items@),
            all == name_matches(news, olds, n),
            all.len() == n,
            old_matched@.len() == old_items@.len(),
            forall|k: int| 0 <= k < old_matched@.len() ==> old_matched@[k] == taken(name_matches(news, olds, i as int), k),
            new_matched@.len() == i,
            forall|k: int| 0 <= k < i ==> new_matched@[k] == (all[k] is Some),
            forall|k: int| 0 <= k < i ==> match #[trigger] all[k] {
                Some(j) => T::carried_over(before[k], new_items@[k], old_items@[j]),
                None => new_items@[k] == before[k],
            },
            forall|k: int| i <= k < n ==> new_items@[k] == before[k],
            *unchanged == *old(unchanged) + count_matched(name_matches(news, olds, i as int)),
            *old(unchanged) + n <= usize::MAX,
        decreases n - i,
    {
        let ghost ms = name_matches(news, olds, i as int);
        proof {
            lemma_name_matches_prefix(news, olds, i as int, i as int);
            lemma_name_matches_prefix(news, olds, i as int, n);
            lemma_name_matches_prefix(news, olds, i + 1, n);
            assert(name_matches(news, olds, i + 1)[i as int] == all[i as int]);
            assert(decl_names(new_items@)[i as int] == news[i as int]);
            assert(count_matched(ms) <= i) by {
                lemma_count_matched_bound(ms);
            }
        }
        let found = first_free_exec(old_items, &old_matched, new_items[i].name_text(), Ghost(ms));
        proof {
            assert(name_matches(news, olds, i + 1) == ms.push(opt_int(found)));
            assert(ms.push(opt_int(found)).drop_last() =~= ms);
        }
        match found {
            Some(j) => {
                new_items[i].carry_over(&old_items[j]);
                *unchanged += 1;
                old_matched.set(j, true);
                new_matched.push(true);
            },
            None => {
                new_matched.push(false);
            },
        }
        proof {
            assert forall|k: int| 0 <= k < old_matched@.len() implies old_matched@[k] == taken(name_matches(news, olds, i + 1), k) by {
                lemma_taken_push(ms, opt_int(found), k);
            }
        }
        i += 1;
    }
    proof {
        lemma_name_matches_prefix(news, olds, n, n);
        assert(name_matches(news, olds, n) == all);
    }
    // The new declarations that took no old one.
    let ghost added0 = names(added@);
    let mut i: usize = 0;
    while i < new_items.len()
        invariant
            new_items@.len() == before.len(),
            n == before.len(),
            i <= n,
            news == decl_names(before),
            all.len() == n,
            new_matched@.len() == n,
            forall|k: int| 0 <= k < n ==> new_matched@[k] == (all[k] is Some),
            forall|k: int| 0 <= k < n ==> (#[trigger] all[k]) is None ==> new_items@[k] == before[k],
            names(added@) == added0 + added_lines(kind@, news, all, i as int),
        decreases n - i,
    {
        if !new_matched[i] {
            proof {
                assert(new_items@[i as int] == before[i as int]);
                assert(news[i as int] == before[i as int].decl_name());
            }
            let line = kind_line(kind, new_items[i].name_text());
            let ghost prev = names(added@);
            added.push(line);
            proof {
                assert(names(added@) =~= prev.push(line@));
            }
        }
        i += 1;
    }
    // The old declarations that none took.
    let ghost removed0 = names(removed@);
    let mut j: usize = 0;
    while j < old_items.len()
        invariant
            j <= old_items@.len(),
            olds == decl_names(old_items@),
            old_matched@.len() == old_items@.len(),
            forall|k: int| 0 <= k < old_matched@.len() ==> old_matched@[k] == taken(all, k),
            names(removed@) == removed0 + removed_lines(kind@, olds, all, j as int),
        decreases old_items@.len() - j,
    {
        if !old_matched[j] {
            let line = kind_line(kind, old_items[j].name_text());
            let ghost prev = names(removed@);
            removed.push(line);
            proof {
                assert(olds[j as int] == old_items@[j as int].decl_name());
                assert(names(removed@) =~= prev.push(line@));
            }
        }
        j += 1;
    }
}

proof fn lemma_count_matched_bound(ms: Seq<Option<int>>)
    ensures
        count_matched(ms) <= ms.len(),
    decreases ms.len(),
{
    if ms.len() > 0 {
        lemma_count_matched_bound(ms.drop_last());
    }
}

pub open spec fn in_place(k: int) -> Seq<Option<int>> {
    Seq::new(k as nat, |i: int| Some(i))
}

proof fn lemma_first_free_in_place(ns: Seq<Seq<char>>, k: int, j: int)
    requires
        0 <= j <= k < ns.len(),
    ensures
        first_free(ns, in_place(k), ns[k], j) == Some(k),
    decreases k - j,
{
    if j < k {
        assert(in_place(k)[j] == Some(j));
        assert(taken(in_place(k), j));
        lemma_first_free_in_place(ns, k, j + 1);
    } else {
        assert(!taken(in_place(k), k)) by {
            if taken(in_place(k), k) {
                let m = choose|m: int| 0 <= m < in_place(k).len() && in_place(k)[m] == Some(k);
            }
        }
    }
}

proof fn lemma_name_matches_in_place(ns: Seq<Seq<char>>, k: int)
    requires
        0 <= k <= ns.len(),
    ensures
        name_matches(ns, ns, k) == in_place(k),
    decreases k,
{
    if k > 0 {
        lemma_name_matches_in_place(ns, k - 1);
        lemma_first_free_in_place(ns, k - 1, 0);
        assert(in_place(k - 1).push(Some(k - 1)) =~= in_place(k));
    }
}

proof fn lemma_in_place_lines(kind: Seq<char>, ns: Seq<Seq<char>>, k: int)
    requires
        0 <= k <= ns.len(),
    ensures
        added_lines(kind, ns, in_place(ns.len() as int), k) == Seq::<Seq<char>>::empty(),
        removed_lines(kind, ns, in_place(ns.len() as int), k) == Seq::<Seq<char>>::empty(),
        count_matched(in_place(k)) == k,
    decreases k,
{
    if k > 0 {
        lemma_in_place_lines(kind, ns, k - 1);
        let all = in_place(ns.len() as int);
        assert(all[k - 1] == Some(k - 1));
        assert(taken(all, k - 1));
        assert(in_place(k).drop_last() =~= in_place(k - 1));
    }
}

/// Matching declarations against old ones of the same names in the same order
/// keeps each in place: it takes the old declaration at its own position,
/// nothing is recorded as added or removed, and every one counts as unchanged.
pub proof fn lemma_transplant_same_names(ns: Seq<Seq<char>>, kind: Seq<char>)
    ensures
        forall|i: int| 0 <= i < ns.len() ==> #[trigger] name_matches(ns, ns, ns.len() as int)[i] == Some(i),
        added_lines(kind, ns, name_matches(ns, ns, ns.len() as int), ns.len() as int) == Seq::<Seq<char>>::empty(),
        removed_lines(kind, ns, name_matches(ns, ns, ns.len() as int), ns.len() as int) == Seq::<Seq<char>>::empty(),
        count_matched(name_matches(ns, ns, ns.len() as int)) == ns.len(),
{
    lemma_name_matches_in_place(ns, ns.len() as int);
    lemma_in_place_lines(kind, ns, ns.len() as int);
}

/// A name found by `first_named` is the name at that index.
pub proof fn lemma_first_named(names: Seq<Seq<char>>, name: Seq<char>, k: int)
    requires
        0 <= k,
    ensures
        first_named(names, name, k) matches Some(j) ==> k <= j < names.len() && names[j] == name
            && forall|m: int| k <= m < j ==> names[m] != name,
        first_named(names, name, k) is None ==> forall|m: int| k <= m < names.len() ==> names[m] != name,
    decreases names.len() - k,
{
    if k < names.len() && names[k] != name {
        lemma_first_named(names, name, k + 1);
    }
}

/// Carrying ids over twice from the same old parameters is carrying them over once.
pub proof fn lemma_transplant_params_idempotent(news: Seq<Param>, olds: Seq<Param>)
    ensures
        spec_transplant_params(spec_transplant_params(news, olds), olds) == spec_transplant_params(news, olds),
{
    let once = spec_transplant_params(news, olds);
    assert forall|i: int| 0 <= i < news.len() implies #[trigger] transplanted_param(once[i], olds) == once[i] by {
        assert(once[i].name == news[i].name);
    }
    assert(spec_transplant_params(once, olds) =~= once);
}

/// With no old parameters, nothing changes.
pub proof fn lemma_transplant_params_from_nothing(news: Seq<Param>)
    ensures
        spec_transplant_params(news, Seq::empty()) == news,
{
    assert(spec_transplant_params(news, Seq::empty()) =~= news);
}

/// Parameters whose names are all different keep their own ids when carried
/// over from themselves: an unchanged declaration keeps its ids.
pub proof fn lemma_transplant_params_unchanged(ps: Seq<Param>)
    requires
        forall|a: int, b: int| 0 <= a < b < ps.len() ==> ps[a].name.node@ != ps[b].name.node@,
    ensures
        spec_transplant_params(ps, ps) == ps,
{
    assert forall|i: int| 0 <= i < ps.len() implies #[trigger] transplanted_param(ps[i], ps) == ps[i] by {
        let names = param_names(ps);
        lemma_first_named(names, ps[i].name.node@, 0);
        assert(names[i] == ps[i].name.node@);
        match first_named(names, ps[i].name.node@, 0) {
            Some(j) => {
                assert(j == i) by {
                    if j < i {
                        assert(names[j] == ps[j].name.node@);
                    } else if j > i {
                        assert(names[i] != ps[i].name.node@);
                    }
                }
            },
            None => {},
        }
    }
    assert(spec_transplant_params(ps, ps) =~= ps);
}

/// Carrying ids over twice from the same old fields is carrying them over once.
pub proof fn lemma_transplant_fields_idempotent(news: Seq<Field>, olds: Seq<Field>)
    ensures
        spec_transplant_fields(spec_transplant_fields(news, olds), olds) == spec_transplant_fields(news, olds),
{
    let once = spec_transplant_fields(news, olds);
    assert forall|i: int| 0 <= i < news.len() implies #[trigger] transplanted_field(once[i], olds) == once[i] by {
        assert(once[i].name == news[i].name);
    }
    assert(spec_transplant_fields(once, olds) =~= once);
}

/// Fields whose names are all different keep their own ids when carried over
/// from themselves.
pub proof fn lemma_transplant_fields_unchanged(fs: Seq<Field>)
    requires
        forall|a: int, b: int| 0 <= a < b < fs.len() ==> fs[a].name.node@ != fs[b].name.node@,
    ensures
        spec_transplant_fields(fs, fs) == fs,
{
    assert forall|i: int| 0 <= i < fs.len() implies #[trigger] transplanted_field(fs[i], fs) == fs[i] by {
        let names = field_names(fs);
        lemma_first_named(names, fs[i].name.node@, 0);
        assert(names[i] == fs[i].name.node@);
        match first_named(names, fs[i].name.node@, 0) {
            Some(j) => {
                assert(j == i) by {
                    if j < i {
                        assert(names[j] == fs[j].name.node@);
                    } else if j > i {
                        assert(names[i] != fs[i].name.node@);
                    }
                }
            },
            None => {},
        }
    }
    assert(spec_transplant_fields(fs, fs) =~= fs);
}

} // verus!
