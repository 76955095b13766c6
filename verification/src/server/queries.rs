use vstd::prelude::*;
use crate::span::Spanned;
use crate::parser::ast::Program;
use crate::parser::ast::Function;
use crate::parser::ast::ClassDecl;
use crate::parser::ast::EnumDecl;
use crate::parser::ast::TraitDecl;
use crate::parser::ast::ErrorDecl;
use crate::server::types::DeclKind;
use crate::server::types::DeclSummary;
use uuid::Uuid;

verus! {

/// A declaration summary as a plain value: id, name, kind.
pub open spec fn summary_model(d: DeclSummary) -> (Uuid, Seq<char>, DeclKind) {
    (d.uuid, d.name@, d.kind)
}

pub open spec fn summaries_model(v: Seq<DeclSummary>) -> Seq<(Uuid, Seq<char>, DeclKind)> {
    v.map_values(|d: DeclSummary| summary_model(d))
}

/// Whether a filter lets declarations of kind `k` through.
pub open spec fn wanted(filter: Option<DeclKind>, k: DeclKind) -> bool {
    filter is None || filter == Some(k)
}

pub open spec fn fn_summaries(v: Seq<Spanned<Function>>) -> Seq<(Uuid, Seq<char>, DeclKind)> {
    v.map_values(|f: Spanned<Function>| (f.node.id, f.node.name.node@, DeclKind::Function))
}

pub open spec fn class_summaries(v: Seq<Spanned<ClassDecl>>) -> Seq<(Uuid, Seq<char>, DeclKind)> {
    v.map_values(|c: Spanned<ClassDecl>| (c.node.id, c.node.name.node@, DeclKind::Class))
}

pub open spec fn enum_summaries(v: Seq<Spanned<EnumDecl>>) -> Seq<(Uuid, Seq<char>, DeclKind)> {
    v.map_values(|e: Spanned<EnumDecl>| (e.node.id, e.node.name.node@, DeclKind::Enum))
}

pub open spec fn trait_summaries(v: Seq<Spanned<TraitDecl>>) -> Seq<(Uuid, Seq<char>, DeclKind)> {
    v.map_values(|t: Spanned<TraitDecl>| (t.node.id, t.node.name.node@, DeclKind::Trait))
}

pub open spec fn error_summaries(v: Seq<Spanned<ErrorDecl>>) -> Seq<(Uuid, Seq<char>, DeclKind)> {
    v.map_values(|e: Spanned<ErrorDecl>| (e.node.id, e.node.name.node@, DeclKind::Error))
}

/// The summaries of a program's declarations that `filter` lets through:
/// functions, classes, enums, traits, errors, then the app, each kind in
/// source order.
pub open spec fn spec_decl_summaries(p: Program, filter: Option<DeclKind>) -> Seq<(Uuid, Seq<char>, DeclKind)> {
    let none = Seq::<(Uuid, Seq<char>, DeclKind)>::empty();
    (if wanted(filter, DeclKind::Function) { fn_summaries(p.functions@) } else { none })
        + (if wanted(filter, DeclKind::Class) { class_summaries(p.classes@) } else { none })
        + (if wanted(filter, DeclKind::Enum) { enum_summaries(p.enums@) } else { none })
        + (if wanted(filter, DeclKind::Trait) { trait_summaries(p.traits@) } else { none })
        + (if wanted(filter, DeclKind::Error) { error_summaries(p.errors@) } else { none })
        + (if wanted(filter, DeclKind::App) {
            match p.app {
                Some(a) => seq![(a.node.id, a.node.name.node@, DeclKind::App)],
                None => none,
            }
        } else { none })
}

fn wants(filter: Option<DeclKind>, k: DeclKind) -> (r: bool)
    ensures
        r == wanted(filter, k),
{
    match filter {
        None => true,
        Some(f) => f == k,
    }
}

fn push_summary(out: &mut Vec<DeclSummary>, uuid: Uuid, name: &String, kind: DeclKind)
    ensures
        summaries_model(final(out)@) == summaries_model(old(out)@).push((uuid, name@, kind)),
{
    out.push(DeclSummary { uuid, name: name.clone(), kind });
    proof {
        assert(summaries_model(out@) =~= summaries_model(old(out)@).push((uuid, name@, kind)));
    }
}

/// The summaries (id, name, kind) of a program's declarations that `filter`
/// lets through: functions, classes, enums, traits, errors, then the app,
/// each kind in source order.
pub fn collect_decl_summaries(program: &Program, filter: Option<DeclKind>) -> (r: Vec<DeclSummary>)
    ensures
        summaries_model(r@) == spec_decl_summaries(*program, filter),
{
    let mut out: Vec<DeclSummary> = Vec::new();
    let ghost none = Seq::<(Uuid, Seq<char>, DeclKind)>::empty();
    let ghost mut acc = none;
    proof { assert(summaries_model(out@) =~= acc); }
    if wants(filter, DeclKind::Function) {
        let mut i: usize = 0;
        while i < program.functions.len()
            invariant
                i <= program.functions.len(),
                summaries_model(out@) == acc + fn_summaries(program.functions@).take(i as int),
            decreases program.functions.len() - i,
        {
            push_summary(&mut out, program.functions[i].node.id, &program.functions[i].node.name.node, DeclKind::Function);
            proof {
                assert(fn_summaries(program.functions@).take(i + 1) =~= fn_summaries(program.functions@).take(i as int).push(fn_summaries(program.functions@)[i as int]));
                assert(acc + fn_summaries(program.functions@).take(i + 1) =~= (acc + fn_summaries(program.functions@).take(i as int)).push(fn_summaries(program.functions@)[i as int]));
            }
            i += 1;
        }
        proof {
            assert(fn_summaries(program.functions@).take(program.functions@.len() as int) =~= fn_summaries(program.functions@));
            acc = acc + fn_summaries(program.functions@);
        }
    } else {
        proof { acc = acc + none; }
    }
    if wants(filter, DeclKind::Class) {
        let mut i: usize = 0;
        while i < program.classes.len()
            invariant
                i <= program.classes.len(),
                summaries_model(out@) == acc + class_summaries(program.classes@).take(i as int),
            decreases program.classes.len() - i,
        {
            push_summary(&mut out, program.classes[i].node.id, &program.classes[i].node.name.node, DeclKind::Class);
            proof {
                assert(class_summaries(program.classes@).take(i + 1) =~= class_summaries(program.classes@).take(i as int).push(class_summaries(program.classes@)[i as int]));
                assert(acc + class_summaries(program.classes@).take(i + 1) =~= (acc + class_summaries(program.classes@).take(i as int)).push(class_summaries(program.classes@)[i as int]));
            }
            i += 1;
        }
        proof {
            assert(class_summaries(program.classes@).take(program.classes@.len() as int) =~= class_summaries(program.classes@));
            acc = acc + class_summaries(program.classes@);
        }
    } else {
        proof { acc = acc + none; }
    }
    if wants(filter, DeclKind::Enum) {
        let mut i: usize = 0;
        while i < program.enums.len()
            invariant
                i <= program.enums.len(),
                summaries_model(out@) == acc + enum_summaries(program.enums@).take(i as int),
            decreases program.enums.len() - i,
        {
            push_summary(&mut out, program.enums[i].node.id, &program.enums[i].node.name.node, DeclKind::Enum);
            proof {
                assert(enum_summaries(program.enums@).take(i + 1) =~= enum_summaries(program.enums@).take(i as int).push(enum_summaries(program.enums@)[i as int]));
                assert(acc + enum_summaries(program.enums@).take(i + 1) =~= (acc + enum_summaries(program.enums@).take(i as int)).push(enum_summaries(program.enums@)[i as int]));
            }
            i += 1;
        }
        proof {
            assert(enum_summaries(program.enums@).take(program.enums@.len() as int) =~= enum_summaries(program.enums@));
            acc = acc + enum_summaries(program.enums@);
        }
    } else {
        proof { acc = acc + none; }
    }
    if wants(filter, DeclKind::Trait) {
        let mut i: usize = 0;
        while i < program.traits.len()
            invariant
                i <= program.traits.len(),
                summaries_model(out@) == acc + trait_summaries(program.traits@).take(i as int),
            decreases program.traits.len() - i,
        {
            push_summary(&mut out, program.traits[i].node.id, &program.traits[i].node.name.node, DeclKind::Trait);
            proof {
                assert(trait_summaries(program.traits@).take(i + 1) =~= trait_summaries(program.traits@).take(i as int).push(trait_summaries(program.traits@)[i as int]));
                assert(acc + trait_summaries(program.traits@).take(i + 1) =~= (acc + trait_summaries(program.traits@).take(i as int)).push(trait_summaries(program.traits@)[i as int]));
            }
            i += 1;
        }
        proof {
            assert(trait_summaries(program.traits@).take(program.traits@.len() as int) =~= trait_summaries(program.traits@));
            acc = acc + trait_summaries(program.traits@);
        }
    } else {
        proof { acc = acc + none; }
    }
    if wants(filter, DeclKind::Error) {
        let mut i: usize = 0;
        while i < program.errors.len()
            invariant
                i <= program.errors.len(),
                summaries_model(out@) == acc + error_summaries(program.errors@).take(i as int),
            decreases program.errors.len() - i,
        {
            push_summary(&mut out, program.errors[i].node.id, &program.errors[i].node.name.node, DeclKind::Error);
            proof {
                assert(error_summaries(program.errors@).take(i + 1) =~= error_summaries(program.errors@).take(i as int).push(error_summaries(program.errors@)[i as int]));
                assert(acc + error_summaries(program.errors@).take(i + 1) =~= (acc + error_summaries(program.errors@).take(i as int)).push(error_summaries(program.errors@)[i as int]));
            }
            i += 1;
        }
        proof {
            assert(error_summaries(program.errors@).take(program.errors@.len() as int) =~= error_summaries(program.errors@));
            acc = acc + error_summaries(program.errors@);
        }
    } else {
        proof { acc = acc + none; }
    }
    if wants(filter, DeclKind::App) {
        if let Some(app) = &program.app {
            push_summary(&mut out, app.node.id, &app.node.name.node, DeclKind::App);
            proof { acc = acc.push((app.node.id, app.node.name.node@, DeclKind::App)); }
        } else {
            proof { acc = acc + none; }
        }
    } else {
        proof { acc = acc + none; }
    }
    proof {
        assert(summaries_model(out@) =~= spec_decl_summaries(*program, filter));
    }
    out
}


/// Whether a summary is of kind `k`.
pub open spec fn of_kind(k: DeclKind) -> spec_fn((Uuid, Seq<char>, DeclKind)) -> bool {
    |x: (Uuid, Seq<char>, DeclKind)| x.2 == k
}

proof fn lemma_filter_uniform(s: Seq<(Uuid, Seq<char>, DeclKind)>, k0: DeclKind, k: DeclKind)
    requires
        forall|i: int| 0 <= i < s.len() ==> (#[trigger] s[i]).2 == k0,
    ensures
        s.filter(of_kind(k)) == (if k0 == k { s } else { Seq::<(Uuid, Seq<char>, DeclKind)>::empty() }),
    decreases s.len(),
{
    reveal(Seq::filter);
    if s.len() > 0 {
        lemma_filter_uniform(s.drop_last(), k0, k);
        if k0 == k {
            assert(s.drop_last().push(s.last()) =~= s);
        }
    }
}

/// Filtering by a kind gives exactly the unfiltered summaries of that kind,
/// in the same order.
pub proof fn lemma_filter_by_kind(p: Program, k: DeclKind)
    ensures
        spec_decl_summaries(p, Some(k)) == spec_decl_summaries(p, None).filter(of_kind(k)),
{
    broadcast use Seq::filter_distributes_over_add;
    let none = Seq::<(Uuid, Seq<char>, DeclKind)>::empty();
    let f = fn_summaries(p.functions@);
    let c = class_summaries(p.classes@);
    let e = enum_summaries(p.enums@);
    let t = trait_summaries(p.traits@);
    let r = error_summaries(p.errors@);
    let a = match p.app {
        Some(x) => seq![(x.node.id, x.node.name.node@, DeclKind::App)],
        None => none,
    };
    lemma_filter_uniform(f, DeclKind::Function, k);
    lemma_filter_uniform(c, DeclKind::Class, k);
    lemma_filter_uniform(e, DeclKind::Enum, k);
    lemma_filter_uniform(t, DeclKind::Trait, k);
    lemma_filter_uniform(r, DeclKind::Error, k);
    lemma_filter_uniform(a, DeclKind::App, k);
    assert(spec_decl_summaries(p, None) == f + c + e + t + r + a);
    assert(spec_decl_summaries(p, None).filter(of_kind(k))
        == f.filter(of_kind(k)) + c.filter(of_kind(k)) + e.filter(of_kind(k)) + t.filter(of_kind(k))
            + r.filter(of_kind(k)) + a.filter(of_kind(k)));
    assert(spec_decl_summaries(p, Some(k)) =~= spec_decl_summaries(p, None).filter(of_kind(k)));
}
}
