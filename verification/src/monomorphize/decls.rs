//! Instances of generic declarations: copies with fresh ids, type parameters
//! bound, and spans moved past the originals.

use vstd::prelude::*;
use vstd::string::StringExecFns;
use crate::span::Span;
use crate::span::Spanned;
use crate::parser::ast::TypeExpr;
use crate::parser::ast::TypeExprM;
use crate::parser::ast::spanned_te_model;
use crate::parser::ast::Field;
use crate::parser::ast::FieldM;
use crate::parser::ast::EnumVariant;
use crate::parser::ast::VariantM;
use crate::parser::ast::EnumDecl;
use crate::parser::ast::EnumDeclM;
use crate::parser::ast::fields_model;
use crate::parser::ast::variants_model;
use crate::parser::ast::fresh_id;
use crate::parser::ast::uuid_version;
use crate::parser::ast::clone_name;
use crate::parser::ast::clone_names;
use crate::parser::ast::clone_field;
use crate::parser::ast::names_model;
use crate::typeck::types::PlutoType;
use crate::typeck::env::names;
use crate::text::str_eq;
use crate::rust_ffi::metadata::opt_int;
use crate::monomorphize::TypeBindings;
use crate::monomorphize::spec_subst;
use crate::monomorphize::spec_bindings;
use crate::monomorphize::substitute_in_type_expr;
use crate::monomorphize::build_type_expr_bindings;
use crate::monomorphize::offset_span;
use crate::monomorphize::offset_spanned;

verus! {

/// `s` moved `n` bytes later.
pub open spec fn shifted(s: Span, n: int) -> Span {
    Span { start: (s.start + n) as usize, end: (s.end + n) as usize, file_id: s.file_id }
}

/// `s` can move `n` bytes later without leaving `usize`.
pub open spec fn span_fits(s: Span, n: int) -> bool {
    s.start + n <= usize::MAX && s.end + n <= usize::MAX
}

/// A spanned type expression with its span and every span within it moved `n` bytes later.
pub open spec fn spec_offset_ste(s: Spanned<TypeExprM>, n: int) -> Spanned<TypeExprM>
    decreases s, 1int,
{
    Spanned { node: spec_offset_te(s.node, n), span: shifted(s.span, n) }
}

/// A type expression with every span within it moved `n` bytes later.
pub open spec fn spec_offset_te(t: TypeExprM, n: int) -> TypeExprM
    decreases t, 0int,
{
    match t {
        TypeExprM::Array(e) => TypeExprM::Array(Box::new(spec_offset_ste(*e, n))),
        TypeExprM::Fn { params, return_type } => TypeExprM::Fn {
            params: Seq::new(params.len(), |i: int| if 0 <= i < params.len() { spec_offset_ste(params[i], n) } else { arbitrary() }),
            return_type: Box::new(spec_offset_ste(*return_type, n)),
        },
        TypeExprM::Generic { name, type_args } => TypeExprM::Generic {
            name,
            type_args: Seq::new(type_args.len(), |i: int| if 0 <= i < type_args.len() { spec_offset_ste(type_args[i], n) } else { arbitrary() }),
        },
        TypeExprM::Nullable(e) => TypeExprM::Nullable(Box::new(spec_offset_ste(*e, n))),
        TypeExprM::Stream(e) => TypeExprM::Stream(Box::new(spec_offset_ste(*e, n))),
        _ => t,
    }
}

/// Every span in and within `s` can move `n` bytes later.
pub open spec fn ste_fits(s: Spanned<TypeExprM>, n: int) -> bool
    decreases s, 1int,
{
    span_fits(s.span, n) && te_fits(s.node, n)
}

/// Every span within `t` can move `n` bytes later.
pub open spec fn te_fits(t: TypeExprM, n: int) -> bool
    decreases t, 0int,
{
    match t {
        TypeExprM::Array(e) => ste_fits(*e, n),
        TypeExprM::Fn { params, return_type } => (forall|i: int| 0 <= i < params.len() ==> ste_fits(#[trigger] params[i], n))
            && ste_fits(*return_type, n),
        TypeExprM::Generic { type_args, .. } => forall|i: int| 0 <= i < type_args.len() ==> ste_fits(#[trigger] type_args[i], n),
        TypeExprM::Nullable(e) => ste_fits(*e, n),
        TypeExprM::Stream(e) => ste_fits(*e, n),
        _ => true,
    }
}

/// Move every span within a type expression `offset` bytes later.
#[verifier::loop_isolation(false)]
pub fn offset_type_expr_spans(te: &mut TypeExpr, offset: usize)
    requires
        te_fits(old(te).model(), offset as int),
    ensures
        final(te).model() == spec_offset_te(old(te).model(), offset as int),
    decreases *old(te),
{
    match te {
        TypeExpr::Array(inner) => {
            offset_span(&mut inner.span, offset);
            offset_type_expr_spans(&mut inner.node, offset);
        },
        TypeExpr::Fn { params, return_type } => {
            let ghost old_params = params@;
            let ghost n = offset as int;
            let mut i: usize = 0;
            while i < params.len()
                invariant
                    i <= params.len(),
                    params@.len() == old_params.len(),
                    forall|j: int| i <= j < old_params.len() ==> #[trigger] params@[j] == old_params[j],
                    forall|j: int| 0 <= j < i ==> spanned_te_model(*#[trigger] params@[j]) == spec_offset_ste(spanned_te_model(*old_params[j]), n),
                decreases params.len() - i,
            {
                proof {
                    assert(decreases_to!(*old(te) => old_params[i as int]));
                    assert(ste_fits(old(te).model()->Fn_params[i as int], n));
                }
                offset_span(&mut params[i].span, offset);
                offset_type_expr_spans(&mut params[i].node, offset);
                i += 1;
            }
            offset_span(&mut return_type.span, offset);
            offset_type_expr_spans(&mut return_type.node, offset);
            proof {
                let a = TypeExpr::Fn { params: *params, return_type: *return_type }.model()->Fn_params;
                let c = spec_offset_te(old(te).model(), n)->Fn_params;
                assert forall|j: int| 0 <= j < a.len() implies a[j] == c[j] by {
                    assert(spanned_te_model(*params@[j]) == spec_offset_ste(spanned_te_model(*old_params[j]), n));
                }
                assert(a =~= c);
            }
        },
        TypeExpr::Generic { name, type_args } => {
            let ghost old_args = type_args@;
            let ghost n = offset as int;
            let mut i: usize = 0;
            while i < type_args.len()
                invariant
                    i <= type_args.len(),
                    type_args@.len() == old_args.len(),
                    forall|j: int| i <= j < old_args.len() ==> #[trigger] type_args@[j] == old_args[j],
                    forall|j: int| 0 <= j < i ==> spanned_te_model(#[trigger] type_args@[j]) == spec_offset_ste(spanned_te_model(old_args[j]), n),
                decreases type_args.len() - i,
            {
                proof {
                    assert(decreases_to!(*old(te) => old_args[i as int]));
                    assert(ste_fits(old(te).model()->type_args[i as int], n));
                }
                offset_span(&mut type_args[i].span, offset);
                offset_type_expr_spans(&mut type_args[i].node, offset);
                i += 1;
            }
            proof {
                let a = TypeExpr::Generic { name: *name, type_args: *type_args }.model()->type_args;
                let c = spec_offset_te(old(te).model(), n)->type_args;
                assert forall|j: int| 0 <= j < a.len() implies a[j] == c[j] by {
                    assert(spanned_te_model(type_args@[j]) == spec_offset_ste(spanned_te_model(old_args[j]), n));
                }
                assert(a =~= c);
            }
        },
        TypeExpr::Nullable(inner) => {
            offset_span(&mut inner.span, offset);
            offset_type_expr_spans(&mut inner.node, offset);
        },
        TypeExpr::Stream(inner) => {
            offset_span(&mut inner.span, offset);
            offset_type_expr_spans(&mut inner.node, offset);
        },
        _ => {},
    }
}

/// Move the span of a type expression, and every span within it, `offset` bytes later.
pub fn offset_type_expr(te: &mut Spanned<TypeExpr>, offset: usize)
    requires
        ste_fits(spanned_te_model(*old(te)), offset as int),
    ensures
        spanned_te_model(*final(te)) == spec_offset_ste(spanned_te_model(*old(te)), offset as int),
{
    offset_span(&mut te.span, offset);
    offset_type_expr_spans(&mut te.node, offset);
}

// ── Enum declarations ───────────────────────────────────────────────

/// A name moved `n` bytes later.
pub open spec fn shifted_name(s: Spanned<Seq<char>>, n: int) -> Spanned<Seq<char>> {
    Spanned { node: s.node, span: shifted(s.span, n) }
}

pub open spec fn spec_offset_field(f: FieldM, n: int) -> FieldM {
    FieldM { name: shifted_name(f.name, n), ty: spec_offset_ste(f.ty, n), ..f }
}

pub open spec fn spec_offset_variant(v: VariantM, n: int) -> VariantM {
    VariantM { name: shifted_name(v.name, n), fields: v.fields.map_values(|f: FieldM| spec_offset_field(f, n)), ..v }
}

/// An enum declaration with its name, its variants' names, and its fields'
/// names and types moved `n` bytes later.
pub open spec fn spec_offset_enum(e: EnumDeclM, n: int) -> EnumDeclM {
    EnumDeclM { name: shifted_name(e.name, n), variants: e.variants.map_values(|v: VariantM| spec_offset_variant(v, n)), ..e }
}

pub open spec fn field_fits(f: FieldM, n: int) -> bool {
    span_fits(f.name.span, n) && ste_fits(f.ty, n)
}

pub open spec fn variant_fits(v: VariantM, n: int) -> bool {
    span_fits(v.name.span, n) && forall|k: int| 0 <= k < v.fields.len() ==> field_fits(#[trigger] v.fields[k], n)
}

/// Every span that `offset_enum_spans` moves can move `n` bytes later.
pub open spec fn enum_fits(e: EnumDeclM, n: int) -> bool {
    span_fits(e.name.span, n) && forall|k: int| 0 <= k < e.variants.len() ==> variant_fits(#[trigger] e.variants[k], n)
}

fn offset_field_spans(f: &mut Field, offset: usize)
    requires
        field_fits(old(f).model(), offset as int),
    ensures
        final(f).model() == spec_offset_field(old(f).model(), offset as int),
{
    offset_spanned(&mut f.name, offset);
    offset_type_expr(&mut f.ty, offset);
}

fn offset_variant_spans(v: &mut EnumVariant, offset: usize)
    requires
        variant_fits(old(v).model(), offset as int),
    ensures
        final(v).model() == spec_offset_variant(old(v).model(), offset as int),
{
    let ghost n = offset as int;
    let ghost before = old(v).model().fields;
    proof {
        assert forall|j: int| 0 <= j < before.len() implies field_fits(#[trigger] before[j], n) by {
            assert(field_fits(old(v).model().fields[j], n));
        }
    }
    offset_spanned(&mut v.name, offset);
    let mut k: usize = 0;
    while k < v.fields.len()
        invariant
            k <= v.fields@.len(),
            n == offset as int,
            v.model().id == old(v).model().id,
            v.model().name == shifted_name(old(v).model().name, n),
            v.fields@.len() == before.len(),
            forall|j: int| 0 <= j < before.len() ==> field_fits(#[trigger] before[j], n),
            forall|j: int| 0 <= j < k ==> (#[trigger] v.fields@[j]).model() == spec_offset_field(before[j], n),
            forall|j: int| k <= j < before.len() ==> (#[trigger] v.fields@[j]).model() == before[j],
        decreases v.fields@.len() - k,
    {
        offset_field_spans(&mut v.fields[k], offset);
        k += 1;
    }
    proof {
        assert(fields_model(v.fields@) =~= before.map_values(|f: FieldM| spec_offset_field(f, n)));
    }
}

/// Move the spans of an enum declaration `offset` bytes later: its name, its
/// variants' names, and its fields' names and types.
pub fn offset_enum_spans(edecl: &mut EnumDecl, offset: usize)
    requires
        enum_fits(old(edecl).model(), offset as int),
    ensures
        final(edecl).model() == spec_offset_enum(old(edecl).model(), offset as int),
{
    let ghost n = offset as int;
    let ghost before = old(edecl).model().variants;
    proof {
        assert forall|j: int| 0 <= j < before.len() implies variant_fits(#[trigger] before[j], n) by {
            assert(variant_fits(old(edecl).model().variants[j], n));
        }
    }
    offset_spanned(&mut edecl.name, offset);
    let mut k: usize = 0;
    while k < edecl.variants.len()
        invariant
            k <= edecl.variants@.len(),
            n == offset as int,
            edecl.model().id == old(edecl).model().id,
            edecl.model().name == shifted_name(old(edecl).model().name, n),
            edecl.model().type_params == old(edecl).model().type_params,
            edecl.model().type_param_bounds == old(edecl).model().type_param_bounds,
            edecl.model().is_pub == old(edecl).model().is_pub,
            edecl.variants@.len() == before.len(),
            forall|j: int| 0 <= j < before.len() ==> variant_fits(#[trigger] before[j], n),
            forall|j: int| 0 <= j < k ==> (#[trigger] edecl.variants@[j]).model() == spec_offset_variant(before[j], n),
            forall|j: int| k <= j < before.len() ==> (#[trigger] edecl.variants@[j]).model() == before[j],
        decreases edecl.variants@.len() - k,
    {
        offset_variant_spans(&mut edecl.variants[k], offset);
        k += 1;
    }
    proof {
        assert(variants_model(edecl.variants@) =~= before.map_values(|v: VariantM| spec_offset_variant(v, n)));
    }
}

pub open spec fn spec_subst_field(f: FieldM, b: Map<Seq<char>, TypeExprM>) -> FieldM {
    FieldM { ty: Spanned { node: spec_subst(f.ty.node, b), span: f.ty.span }, ..f }
}

pub open spec fn spec_subst_variant(v: VariantM, b: Map<Seq<char>, TypeExprM>) -> VariantM {
    VariantM { fields: v.fields.map_values(|f: FieldM| spec_subst_field(f, b)), ..v }
}

/// An enum declaration with the type parameters in its fields' types replaced by their bindings.
pub open spec fn spec_subst_enum(e: EnumDeclM, b: Map<Seq<char>, TypeExprM>) -> EnumDeclM {
    EnumDeclM { variants: e.variants.map_values(|v: VariantM| spec_subst_variant(v, b)), ..e }
}

/// Replace type parameters by their bindings in the field types of every variant.
pub fn substitute_in_enum(edecl: &mut EnumDecl, bindings: &TypeBindings)
    ensures
        final(edecl).model() == spec_subst_enum(old(edecl).model(), bindings@),
{
    let ghost b = bindings@;
    let ghost before = variants_model(edecl.variants@);
    let mut k: usize = 0;
    while k < edecl.variants.len()
        invariant
            k <= edecl.variants@.len(),
            edecl.variants@.len() == before.len(),
            b == bindings@,
            edecl.model().name == old(edecl).model().name,
            edecl.model().id == old(edecl).model().id,
            edecl.model().type_params == old(edecl).model().type_params,
            edecl.model().type_param_bounds == old(edecl).model().type_param_bounds,
            edecl.model().is_pub == old(edecl).model().is_pub,
            before == old(edecl).model().variants,
            forall|j: int| 0 <= j < k ==> (#[trigger] edecl.variants@[j]).model() == spec_subst_variant(before[j], b),
            forall|j: int| k <= j < before.len() ==> (#[trigger] edecl.variants@[j]).model() == before[j],
        decreases edecl.variants@.len() - k,
    {
        let ghost fields_before = fields_model(edecl.variants@[k as int].fields@);
        let mut j: usize = 0;
        while j < edecl.variants[k].fields.len()
            invariant
                k < edecl.variants@.len(),
                edecl.variants@.len() == before.len(),
                b == bindings@,
                edecl.model().name == old(edecl).model().name,
                edecl.model().id == old(edecl).model().id,
                edecl.model().type_params == old(edecl).model().type_params,
                edecl.model().type_param_bounds == old(edecl).model().type_param_bounds,
                edecl.model().is_pub == old(edecl).model().is_pub,
                before == old(edecl).model().variants,
                forall|i: int| 0 <= i < k ==> (#[trigger] edecl.variants@[i]).model() == spec_subst_variant(before[i], b),
                forall|i: int| k < i < before.len() ==> (#[trigger] edecl.variants@[i]).model() == before[i],
                edecl.variants@[k as int].id == before[k as int].id,
                edecl.variants@[k as int].model().name == before[k as int].name,
                fields_before == before[k as int].fields,
                edecl.variants@[k as int].fields@.len() == fields_before.len(),
                j <= fields_before.len(),
                forall|i: int| 0 <= i < j ==> (#[trigger] edecl.variants@[k as int].fields@[i]).model() == spec_subst_field(fields_before[i], b),
                forall|i: int| j <= i < fields_before.len() ==> (#[trigger] edecl.variants@[k as int].fields@[i]).model() == fields_before[i],
            decreases fields_before.len() - j,
        {
            substitute_in_type_expr(&mut edecl.variants[k].fields[j].ty.node, bindings);
            j += 1;
        }
        proof {
            assert(fields_model(edecl.variants@[k as int].fields@) =~= fields_before.map_values(|f: FieldM| spec_subst_field(f, b)));
        }
        k += 1;
    }
    proof {
        assert(variants_model(edecl.variants@) =~= before.map_values(|v: VariantM| spec_subst_variant(v, b)));
    }
}

// ── Fresh ids ───────────────────────────────────────────────────────

pub open spec fn field_without_id(f: FieldM) -> FieldM {
    FieldM { id: arbitrary(), ..f }
}

pub open spec fn variant_without_ids(v: VariantM) -> VariantM {
    VariantM { id: arbitrary(), fields: v.fields.map_values(|f: FieldM| field_without_id(f)), ..v }
}

/// An enum declaration with its own id and those of its variants and fields
/// left out: what stays when ids are given afresh.
pub open spec fn without_ids(e: EnumDeclM) -> EnumDeclM {
    EnumDeclM { id: arbitrary(), variants: e.variants.map_values(|v: VariantM| variant_without_ids(v)), ..e }
}

/// Give every variant and field of an enum declaration a fresh id: each now
/// carries a newly drawn random (version 4) id, and nothing else changes.
pub fn reassign_enum_uuids(edecl: &mut EnumDecl)
    ensures
        without_ids(final(edecl).model()) == without_ids(old(edecl).model()),
        final(edecl).id == old(edecl).id,
        forall|i: int| 0 <= i < final(edecl).variants@.len() ==> uuid_version((#[trigger] final(edecl).variants@[i]).id) == 4,
        forall|i: int, j: int| 0 <= i < final(edecl).variants@.len() && 0 <= j < final(edecl).variants@[i].fields@.len()
            ==> uuid_version((#[trigger] final(edecl).variants@[i].fields@[j]).id) == 4,
{
    let ghost before = old(edecl).model().variants;
    let mut k: usize = 0;
    while k < edecl.variants.len()
        invariant
            k <= edecl.variants@.len(),
            edecl.variants@.len() == before.len(),
            before == old(edecl).model().variants,
            edecl.id == old(edecl).id,
            edecl.model().name == old(edecl).model().name,
            edecl.model().type_params == old(edecl).model().type_params,
            edecl.model().type_param_bounds == old(edecl).model().type_param_bounds,
            edecl.model().is_pub == old(edecl).model().is_pub,
            forall|j: int| 0 <= j < k ==> variant_without_ids((#[trigger] edecl.variants@[j]).model()) == variant_without_ids(before[j]),
            forall|j: int| k <= j < before.len() ==> (#[trigger] edecl.variants@[j]).model() == before[j],
            forall|i: int| 0 <= i < k ==> uuid_version((#[trigger] edecl.variants@[i]).id) == 4,
            forall|i: int, j: int| 0 <= i < k && 0 <= j < edecl.variants@[i].fields@.len()
                ==> uuid_version((#[trigger] edecl.variants@[i].fields@[j]).id) == 4,
        decreases edecl.variants@.len() - k,
    {
        edecl.variants[k].id = fresh_id();
        let ghost fields_before = before[k as int].fields;
        let mut j: usize = 0;
        while j < edecl.variants[k].fields.len()
            invariant
                k < edecl.variants@.len(),
                edecl.variants@.len() == before.len(),
                before == old(edecl).model().variants,
                edecl.id == old(edecl).id,
                edecl.model().name == old(edecl).model().name,
                edecl.model().type_params == old(edecl).model().type_params,
                edecl.model().type_param_bounds == old(edecl).model().type_param_bounds,
                edecl.model().is_pub == old(edecl).model().is_pub,
                forall|i: int| 0 <= i < k ==> variant_without_ids((#[trigger] edecl.variants@[i]).model()) == variant_without_ids(before[i]),
                forall|i: int| k < i < before.len() ==> (#[trigger] edecl.variants@[i]).model() == before[i],
                edecl.variants@[k as int].model().name == before[k as int].name,
                fields_before == before[k as int].fields,
                edecl.variants@[k as int].fields@.len() == fields_before.len(),
                j <= fields_before.len(),
                forall|i: int| 0 <= i < j ==> field_without_id((#[trigger] edecl.variants@[k as int].fields@[i]).model()) == field_without_id(fields_before[i]),
                forall|i: int| j <= i < fields_before.len() ==> (#[trigger] edecl.variants@[k as int].fields@[i]).model() == fields_before[i],
                forall|i: int| 0 <= i <= k ==> uuid_version((#[trigger] edecl.variants@[i]).id) == 4,
                forall|i: int, m: int| 0 <= i < k && 0 <= m < edecl.variants@[i].fields@.len()
                    ==> uuid_version((#[trigger] edecl.variants@[i].fields@[m]).id) == 4,
                forall|m: int| 0 <= m < j ==> uuid_version((#[trigger] edecl.variants@[k as int].fields@[m]).id) == 4,
            decreases fields_before.len() - j,
        {
            edecl.variants[k].fields[j].id = fresh_id();
            j += 1;
        }
        proof {
            let now = edecl.variants@[k as int].model();
            assert(now.fields.map_values(|f: FieldM| field_without_id(f)) =~= fields_before.map_values(|f: FieldM| field_without_id(f)));
            assert(variant_without_ids(now) == variant_without_ids(before[k as int]));
        }
        k += 1;
    }
    proof {
        let now = edecl.model();
        assert(now.variants.map_values(|v: VariantM| variant_without_ids(v)) =~= before.map_values(|v: VariantM| variant_without_ids(v)));
    }
}

// ── Copies ──────────────────────────────────────────────────────────

fn clone_variant(v: &EnumVariant) -> (r: EnumVariant)
    ensures
        r.model() == v.model(),
{
    let mut fields: Vec<Field> = Vec::new();
    let mut k: usize = 0;
    while k < v.fields.len()
        invariant
            k <= v.fields@.len(),
            fields@.len() == k,
            forall|j: int| 0 <= j < k ==> (#[trigger] fields@[j]).model() == v.fields@[j].model(),
        decreases v.fields@.len() - k,
    {
        fields.push(clone_field(&v.fields[k]));
        k += 1;
    }
    proof {
        assert(fields_model(fields@) =~= fields_model(v.fields@));
    }
    EnumVariant { id: v.id, name: clone_name(&v.name), fields }
}

/// A copy of an enum declaration.
pub(crate) fn clone_enum_decl(e: &EnumDecl) -> (r: EnumDecl)
    ensures
        r.model() == e.model(),
{
    let mut variants: Vec<EnumVariant> = Vec::new();
    let mut k: usize = 0;
    while k < e.variants.len()
        invariant
            k <= e.variants@.len(),
            variants@.len() == k,
            forall|j: int| 0 <= j < k ==> (#[trigger] variants@[j]).model() == e.variants@[j].model(),
        decreases e.variants@.len() - k,
    {
        variants.push(clone_variant(&e.variants[k]));
        k += 1;
    }
    let mut bounds: Vec<(String, Vec<Spanned<String>>)> = Vec::new();
    let mut k: usize = 0;
    while k < e.type_param_bounds.len()
        invariant
            k <= e.type_param_bounds@.len(),
            bounds@.len() == k,
            forall|j: int| 0 <= j < k ==> crate::parser::ast::bound_model(#[trigger] bounds@[j]) == crate::parser::ast::bound_model(e.type_param_bounds@[j]),
        decreases e.type_param_bounds@.len() - k,
    {
        let b = &e.type_param_bounds[k];
        bounds.push((b.0.clone(), clone_names(&b.1)));
        k += 1;
    }
    let r = EnumDecl {
        id: e.id,
        name: clone_name(&e.name),
        type_params: clone_names(&e.type_params),
        type_param_bounds: bounds,
        variants,
        is_pub: e.is_pub,
    };
    proof {
        assert(variants_model(r.variants@) =~= variants_model(e.variants@));
        assert(r.model().type_param_bounds =~= e.model().type_param_bounds);
    }
    r
}

// ── Instantiating a generic enum ────────────────────────────────────

/// `e` is a generic enum named `name`.
pub open spec fn is_generic_enum_named(e: Spanned<EnumDecl>, name: Seq<char>) -> bool {
    e.node.name.node@ == name && e.node.type_params@.len() > 0
}

/// The first generic enum named `name`, from index `k` on.
pub open spec fn template_index(enums: Seq<Spanned<EnumDecl>>, name: Seq<char>, k: int) -> Option<int>
    decreases enums.len() - k,
{
    if k < 0 || k >= enums.len() {
        None
    } else if is_generic_enum_named(enums[k], name) {
        Some(k)
    } else {
        template_index(enums, name, k + 1)
    }
}

/// The names of an enum's type parameters.
pub open spec fn type_param_names(e: EnumDeclM) -> Seq<Seq<char>> {
    e.type_params.map_values(|p: Spanned<Seq<char>>| p.node)
}

/// The bindings of an enum's type parameters to the type arguments.
pub open spec fn enum_bindings(t: EnumDeclM, args: Seq<PlutoType>) -> Map<Seq<char>, TypeExprM> {
    let params = type_param_names(t);
    spec_bindings(params, args, if params.len() <= args.len() { params.len() } else { args.len() })
}

/// A generic enum renamed to its mangled name, without type parameters.
pub open spec fn renamed(t: EnumDeclM, mangled: Seq<char>) -> EnumDeclM {
    EnumDeclM { name: Spanned { node: mangled, span: t.name.span }, type_params: Seq::empty(), ..t }
}

/// The instance of the generic enum `t` for `args`: named `mangled`, without type
/// parameters, its fields' types bound to the arguments, and its spans moved `n` bytes.
pub open spec fn spec_instance(t: EnumDeclM, args: Seq<PlutoType>, mangled: Seq<char>, n: int) -> EnumDeclM {
    spec_offset_enum(spec_subst_enum(renamed(t, mangled), enum_bindings(t, args)), n)
}

/// The spans of the instance can all move `n` bytes later.
pub open spec fn instance_fits(enums: Seq<Spanned<EnumDecl>>, name: Seq<char>, args: Seq<PlutoType>, mangled: Seq<char>, n: int) -> bool {
    match template_index(enums, name, 0) {
        Some(k) => span_fits(enums[k].span, n)
            && enum_fits(spec_subst_enum(renamed(enums[k].node.model(), mangled), enum_bindings(enums[k].node.model(), args)), n),
        None => true,
    }
}

/// Two declarations equal but for ids have equally many variants, and their
/// variants have equally many fields, equal but for ids.
proof fn lemma_without_ids_parts(x: EnumDeclM, y: EnumDeclM)
    requires
        without_ids(x) == without_ids(y),
    ensures
        x.variants.len() == y.variants.len(),
        x.name == y.name,
        forall|i: int| 0 <= i < x.variants.len() ==> {
            let vx = #[trigger] x.variants[i];
            let vy = y.variants[i];
            &&& vx.name == vy.name
            &&& vx.fields.len() == vy.fields.len()
            &&& forall|j: int| 0 <= j < vx.fields.len() ==> field_without_id(#[trigger] vx.fields[j]) == field_without_id(vy.fields[j])
        },
{
    let wx = without_ids(x);
    let wy = without_ids(y);
    assert(wx.variants.len() == x.variants.len());
    assert(wy.variants.len() == y.variants.len());
    assert forall|i: int| 0 <= i < x.variants.len() implies {
        let vx = #[trigger] x.variants[i];
        let vy = y.variants[i];
        &&& vx.name == vy.name
        &&& vx.fields.len() == vy.fields.len()
        &&& forall|j: int| 0 <= j < vx.fields.len() ==> field_without_id(#[trigger] vx.fields[j]) == field_without_id(vy.fields[j])
    } by {
        let vx = x.variants[i];
        let vy = y.variants[i];
        assert(wx.variants[i] == variant_without_ids(vx));
        assert(wy.variants[i] == variant_without_ids(vy));
        let fx = variant_without_ids(vx).fields;
        let fy = variant_without_ids(vy).fields;
        assert(fx.len() == vx.fields.len());
        assert(fy.len() == vy.fields.len());
        assert forall|j: int| 0 <= j < vx.fields.len() implies field_without_id(#[trigger] vx.fields[j]) == field_without_id(vy.fields[j]) by {
            assert(fx[j] == field_without_id(vx.fields[j]));
            assert(fy[j] == field_without_id(vy.fields[j]));
        }
    }
}

/// Declarations equal but for ids build from parts equal but for ids.
proof fn lemma_without_ids_from_parts(x: EnumDeclM, y: EnumDeclM)
    requires
        x.name == y.name,
        x.type_params == y.type_params,
        x.type_param_bounds == y.type_param_bounds,
        x.is_pub == y.is_pub,
        x.variants.len() == y.variants.len(),
        forall|i: int| 0 <= i < x.variants.len() ==> {
            let vx = #[trigger] x.variants[i];
            let vy = y.variants[i];
            &&& vx.name == vy.name
            &&& vx.fields.len() == vy.fields.len()
            &&& forall|j: int| 0 <= j < vx.fields.len() ==> field_without_id(#[trigger] vx.fields[j]) == field_without_id(vy.fields[j])
        },
    ensures
        without_ids(x) == without_ids(y),
{
    assert forall|i: int| 0 <= i < x.variants.len() implies variant_without_ids(#[trigger] x.variants[i]) == variant_without_ids(y.variants[i]) by {
        let vx = x.variants[i];
        let vy = y.variants[i];
        assert(vx.fields.map_values(|f: FieldM| field_without_id(f)) =~= vy.fields.map_values(|f: FieldM| field_without_id(f)));
    }
    assert(without_ids(x).variants =~= without_ids(y).variants);
}

/// Renaming and binding type parameters do not look at ids.
proof fn lemma_subst_ignores_ids(x: EnumDeclM, y: EnumDeclM, mangled: Seq<char>, b: Map<Seq<char>, TypeExprM>)
    requires
        without_ids(x) == without_ids(y),
    ensures
        without_ids(spec_subst_enum(renamed(x, mangled), b)) == without_ids(spec_subst_enum(renamed(y, mangled), b)),
{
    lemma_without_ids_parts(x, y);
    let sx = spec_subst_enum(renamed(x, mangled), b);
    let sy = spec_subst_enum(renamed(y, mangled), b);
    assert forall|i: int| 0 <= i < sx.variants.len() implies {
        let vx = #[trigger] sx.variants[i];
        let vy = sy.variants[i];
        &&& vx.name == vy.name
        &&& vx.fields.len() == vy.fields.len()
        &&& forall|j: int| 0 <= j < vx.fields.len() ==> field_without_id(#[trigger] vx.fields[j]) == field_without_id(vy.fields[j])
    } by {
        assert forall|j: int| 0 <= j < sx.variants[i].fields.len() implies field_without_id(#[trigger] sx.variants[i].fields[j])
            == field_without_id(sy.variants[i].fields[j]) by {
            assert(field_without_id(x.variants[i].fields[j]) == field_without_id(y.variants[i].fields[j]));
        }
    }
    assert(without_ids(x).type_params == x.type_params);
    lemma_without_ids_from_parts(sx, sy);
}

/// Moving spans does not look at ids.
proof fn lemma_offset_ignores_ids(x: EnumDeclM, y: EnumDeclM, n: int)
    requires
        without_ids(x) == without_ids(y),
    ensures
        without_ids(spec_offset_enum(x, n)) == without_ids(spec_offset_enum(y, n)),
        enum_fits(x, n) == enum_fits(y, n),
{
    lemma_without_ids_parts(x, y);
    let ox = spec_offset_enum(x, n);
    let oy = spec_offset_enum(y, n);
    assert forall|i: int| 0 <= i < ox.variants.len() implies {
        let vx = #[trigger] ox.variants[i];
        let vy = oy.variants[i];
        &&& vx.name == vy.name
        &&& vx.fields.len() == vy.fields.len()
        &&& forall|j: int| 0 <= j < vx.fields.len() ==> field_without_id(#[trigger] vx.fields[j]) == field_without_id(vy.fields[j])
    } by {
        assert forall|j: int| 0 <= j < ox.variants[i].fields.len() implies field_without_id(#[trigger] ox.variants[i].fields[j])
            == field_without_id(oy.variants[i].fields[j]) by {
            assert(field_without_id(x.variants[i].fields[j]) == field_without_id(y.variants[i].fields[j]));
        }
    }
    assert(without_ids(x).type_params == x.type_params);
    assert(without_ids(x).type_param_bounds == x.type_param_bounds);
    assert(without_ids(x).is_pub == x.is_pub);
    lemma_without_ids_from_parts(ox, oy);
    if enum_fits(x, n) {
        assert forall|k: int| 0 <= k < y.variants.len() implies variant_fits(#[trigger] y.variants[k], n) by {
            assert(variant_fits(x.variants[k], n));
            assert forall|j: int| 0 <= j < y.variants[k].fields.len() implies field_fits(#[trigger] y.variants[k].fields[j], n) by {
                assert(field_fits(x.variants[k].fields[j], n));
                assert(field_without_id(x.variants[k].fields[j]) == field_without_id(y.variants[k].fields[j]));
            }
        }
    }
    if enum_fits(y, n) {
        assert forall|k: int| 0 <= k < x.variants.len() implies variant_fits(#[trigger] x.variants[k], n) by {
            assert(variant_fits(y.variants[k], n));
            assert forall|j: int| 0 <= j < x.variants[k].fields.len() implies field_fits(#[trigger] x.variants[k].fields[j], n) by {
                assert(field_fits(y.variants[k].fields[j], n));
                assert(field_without_id(x.variants[k].fields[j]) == field_without_id(y.variants[k].fields[j]));
            }
        }
    }
}

/// Find the first generic enum named `name`.
fn find_template(enums: &Vec<Spanned<EnumDecl>>, name: &str) -> (r: Option<usize>)
    ensures
        opt_int(r) == template_index(enums@, name@, 0),
        r matches Some(k) ==> k < enums@.len(),
{
    let mut k: usize = 0;
    while k < enums.len()
        invariant
            k <= enums@.len(),
            template_index(enums@, name@, k as int) == template_index(enums@, name@, 0),
        decreases enums@.len() - k,
    {
        if str_eq(enums[k].node.name.node.as_str(), name) && enums[k].node.type_params.len() > 0 {
            return Some(k);
        }
        k += 1;
    }
    None
}

/// Add the instance of the generic enum `name` for `type_args` under the name
/// `mangled`: a copy of the first generic enum of that name with fresh ids, no
/// type parameters, its fields' types bound to the arguments, and its spans
/// moved `span_offset` bytes later. Nothing is added when there is no such enum.
pub fn instantiate_enum(
    enums: &mut Vec<Spanned<EnumDecl>>,
    name: &str,
    type_args: &[PlutoType],
    mangled: &str,
    span_offset: usize,
)
    requires
        instance_fits(old(enums)@, name@, type_args@, mangled@, span_offset as int),
    ensures
        match template_index(old(enums)@, name@, 0) {
            None => final(enums)@ == old(enums)@,
            Some(k) => {
                &&& final(enums)@.len() == old(enums)@.len() + 1
                &&& final(enums)@.take(old(enums)@.len() as int) == old(enums)@
                &&& without_ids(final(enums)@.last().node.model())
                    == without_ids(spec_instance(old(enums)@[k].node.model(), type_args@, mangled@, span_offset as int))
                &&& final(enums)@.last().span == shifted(old(enums)@[k].span, span_offset as int)
            },
        },
{
    let k = match find_template(enums, name) {
        Some(k) => k,
        None => return,
    };
    let ghost t = enums@[k as int].node.model();
    let mut type_params: Vec<String> = Vec::new();
    let mut i: usize = 0;
    while i < enums[k].node.type_params.len()
        invariant
            k < enums@.len(),
            t == enums@[k as int].node.model(),
            i <= t.type_params.len(),
            names(type_params@) == type_param_names(t).take(i as int),
            type_params@.len() == i,
        decreases t.type_params.len() - i,
    {
        type_params.push(enums[k].node.type_params[i].node.clone());
        proof {
            assert(names(type_params@) =~= type_param_names(t).take(i + 1));
        }
        i += 1;
    }
    proof {
        assert(names(type_params@) =~= type_param_names(t));
    }
    let bindings = build_type_expr_bindings(&type_params, type_args);
    let mut edecl = clone_enum_decl(&enums[k].node);
    let template_name_span = enums[k].node.name.span;
    let template_span = enums[k].span;
    edecl.id = fresh_id();
    let ghost m0 = edecl.model();
    reassign_enum_uuids(&mut edecl);
    let ghost m1 = edecl.model();
    proof {
        assert(m0.variants == t.variants);
        assert(without_ids(m0) =~= without_ids(t));
    }
    edecl.name = Spanned::new(String::from_str(mangled), template_name_span);
    edecl.type_params.clear();
    proof {
        assert(names_model(edecl.type_params@) =~= Seq::<Spanned<Seq<char>>>::empty());
        assert(m1.name == t.name) by {
            lemma_without_ids_parts(m1, m0);
        }
        assert(edecl.model() == renamed(m1, mangled@));
        assert(bindings@ == enum_bindings(t, type_args@));
        lemma_subst_ignores_ids(m1, t, mangled@, bindings@);
    }
    substitute_in_enum(&mut edecl, &bindings);
    proof {
        let s1 = spec_subst_enum(renamed(m1, mangled@), bindings@);
        let st = spec_subst_enum(renamed(t, mangled@), bindings@);
        lemma_offset_ignores_ids(s1, st, span_offset as int);
    }
    offset_enum_spans(&mut edecl, span_offset);
    let start = template_span.start + span_offset;
    let end = template_span.end + span_offset;
    enums.push(Spanned::new(edecl, Span::with_file(start, end, template_span.file_id)));
}

// ── Laws ────────────────────────────────────────────────────────────

/// Moving every span of a type expression by nothing leaves it as it was.
pub proof fn lemma_offset_by_zero(t: TypeExprM)
    ensures
        spec_offset_te(t, 0) == t,
    decreases t,
{
    match t {
        TypeExprM::Array(e) => {
            lemma_offset_by_zero(e.node);
        },
        TypeExprM::Fn { params, return_type } => {
            assert forall|i: int| 0 <= i < params.len() implies spec_offset_ste(params[i], 0) == params[i] by {
                assert(decreases_to!(t => params[i]));
                lemma_offset_by_zero(params[i].node);
            }
            lemma_offset_by_zero(return_type.node);
            assert(spec_offset_te(t, 0)->Fn_params =~= params);
        },
        TypeExprM::Generic { name, type_args } => {
            assert forall|i: int| 0 <= i < type_args.len() implies spec_offset_ste(type_args[i], 0) == type_args[i] by {
                assert(decreases_to!(t => type_args[i]));
                lemma_offset_by_zero(type_args[i].node);
            }
            assert(spec_offset_te(t, 0)->type_args =~= type_args);
        },
        TypeExprM::Nullable(e) => {
            lemma_offset_by_zero(e.node);
        },
        TypeExprM::Stream(e) => {
            lemma_offset_by_zero(e.node);
        },
        _ => {},
    }
}

/// Moving every span of a type expression by `a` and then by `b` is moving it
/// by `a + b`.
pub proof fn lemma_offset_compose(t: TypeExprM, a: int, b: int)
    requires
        0 <= a,
        0 <= b,
        te_fits(t, a + b),
    ensures
        te_fits(t, a),
        te_fits(spec_offset_te(t, a), b),
        spec_offset_te(spec_offset_te(t, a), b) == spec_offset_te(t, a + b),
    decreases t,
{
    match t {
        TypeExprM::Array(e) => {
            lemma_offset_compose(e.node, a, b);
        },
        TypeExprM::Fn { params, return_type } => {
            let once = spec_offset_te(t, a)->Fn_params;
            assert forall|i: int| 0 <= i < params.len() implies ste_fits(#[trigger] params[i], a) && ste_fits(once[i], b)
                && spec_offset_ste(once[i], b) == spec_offset_ste(params[i], a + b) by {
                assert(decreases_to!(t => params[i]));
                assert(ste_fits(params[i], a + b));
                lemma_offset_compose(params[i].node, a, b);
            }
            lemma_offset_compose(return_type.node, a, b);
            assert(spec_offset_te(spec_offset_te(t, a), b)->Fn_params =~= spec_offset_te(t, a + b)->Fn_params);
        },
        TypeExprM::Generic { name, type_args } => {
            let once = spec_offset_te(t, a)->type_args;
            assert forall|i: int| 0 <= i < type_args.len() implies ste_fits(#[trigger] type_args[i], a) && ste_fits(once[i], b)
                && spec_offset_ste(once[i], b) == spec_offset_ste(type_args[i], a + b) by {
                assert(decreases_to!(t => type_args[i]));
                assert(ste_fits(type_args[i], a + b));
                lemma_offset_compose(type_args[i].node, a, b);
            }
            assert(spec_offset_te(spec_offset_te(t, a), b)->type_args =~= spec_offset_te(t, a + b)->type_args);
        },
        TypeExprM::Nullable(e) => {
            lemma_offset_compose(e.node, a, b);
        },
        TypeExprM::Stream(e) => {
            lemma_offset_compose(e.node, a, b);
        },
        _ => {},
    }
}

/// An instance has no type parameters, whatever the template had.
pub proof fn lemma_instance_not_generic(t: EnumDeclM, args: Seq<PlutoType>, mangled: Seq<char>, n: int)
    ensures
        spec_instance(t, args, mangled, n).type_params.len() == 0,
        spec_instance(t, args, mangled, n).name.node == mangled,
{
}

} // verus!
