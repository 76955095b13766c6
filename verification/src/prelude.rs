//! The checks made before the prelude's declarations are put in front of a
//! program's own: that the prelude is not there already, and that no
//! declaration of the program takes a name the prelude declares.

use vstd::prelude::*;
use crate::span::Span;
use crate::span::Spanned;
use crate::diagnostics::CompileError;
use crate::typeck::env::names;
use crate::typeck::env::names_contain;
use crate::sync::first_named;
use crate::sync::lemma_first_named;
use crate::rust_ffi::metadata::opt_int;
use crate::parser::ast::names_model;
use crate::stages::spanned_names;
use crate::stages::find_spanned_name;
use crate::parser::ast::EnumDecl;
use crate::parser::ast::EnumDeclM;
use crate::monomorphize::decls::clone_enum_decl;
use crate::parser::ast::ErrorDecl;
use crate::parser::ast::name_model;
use crate::parser::ast::clone_name;

verus! {

/// The names the prelude declares, by kind.
#[derive(Debug, Clone)]
pub struct PreludeNames {
    pub enums: Vec<String>,
    pub classes: Vec<String>,
    pub traits: Vec<String>,
}

/// The names a program declares, by kind, each with its span.
#[derive(Debug, Clone)]
pub struct ProgramNames {
    pub enums: Vec<Spanned<String>>,
    pub classes: Vec<Spanned<String>>,
    pub traits: Vec<Spanned<String>>,
    pub errors: Vec<Spanned<String>>,
}

/// The names the prelude declares, by kind, as the checks read them.
pub struct PreludeNamesM {
    pub enums: Seq<Seq<char>>,
    pub classes: Seq<Seq<char>>,
    pub traits: Seq<Seq<char>>,
}

/// The names a program declares, by kind, each with its span.
pub struct ProgramNamesM {
    pub enums: Seq<Spanned<Seq<char>>>,
    pub classes: Seq<Spanned<Seq<char>>>,
    pub traits: Seq<Spanned<Seq<char>>>,
    pub errors: Seq<Spanned<Seq<char>>>,
}

impl PreludeNames {
    pub open spec fn model(&self) -> PreludeNamesM {
        PreludeNamesM { enums: names(self.enums@), classes: names(self.classes@), traits: names(self.traits@) }
    }
}

impl ProgramNames {
    pub open spec fn model(&self) -> ProgramNamesM {
        ProgramNamesM {
            enums: names_model(self.enums@),
            classes: names_model(self.classes@),
            traits: names_model(self.traits@),
            errors: names_model(self.errors@),
        }
    }
}

/// All the prelude's names: enums, then classes, then traits.
pub open spec fn prelude_all(p: PreludeNamesM) -> Seq<Seq<char>> {
    p.enums + p.classes + p.traits
}

/// The first declaration of the program named `x`, looking at enums, then
/// classes, traits and errors: its kind and the span of its name.
pub open spec fn conflict_with(d: ProgramNamesM, x: Seq<char>) -> Option<(Seq<char>, Span)> {
    match first_named(spanned_names(d.enums), x, 0) {
        Some(j) => Some(("enum"@, d.enums[j].span)),
        None => match first_named(spanned_names(d.classes), x, 0) {
            Some(j) => Some(("class"@, d.classes[j].span)),
            None => match first_named(spanned_names(d.traits), x, 0) {
                Some(j) => Some(("trait"@, d.traits[j].span)),
                None => match first_named(spanned_names(d.errors), x, 0) {
                    Some(j) => Some(("error"@, d.errors[j].span)),
                    None => None,
                },
            },
        },
    }
}

/// The first of the prelude names `all`, from `k` on, that the program declares.
pub open spec fn first_conflict(all: Seq<Seq<char>>, d: ProgramNamesM, k: int) -> Option<int>
    decreases all.len() - k,
{
    if k < 0 || k >= all.len() {
        None
    } else if conflict_with(d, all[k]) is Some {
        Some(k)
    } else {
        first_conflict(all, d, k + 1)
    }
}

pub open spec fn conflict_msg(kind: Seq<char>, name: Seq<char>) -> Seq<char> {
    "cannot define "@ + kind + " '"@ + name + "': conflicts with built-in prelude type"@
}

/// Whether the program already holds the prelude: its first enum is a prelude enum.
pub open spec fn already_injected(p: PreludeNamesM, d: ProgramNamesM) -> bool {
    d.enums.len() > 0 && p.enums.contains(d.enums[0].node)
}

/// The outcome of the checks: `Ok(true)` where the prelude is there already,
/// `Ok(false)` where it may be put in, or the error for the first prelude
/// name (enums, then classes, then traits) that the program declares too.
pub open spec fn spec_check_prelude(p: PreludeNamesM, d: ProgramNamesM) -> Result<bool, (Seq<char>, Span)> {
    if already_injected(p, d) {
        Ok(true)
    } else {
        let all = prelude_all(p);
        match first_conflict(all, d, 0) {
            Some(k) => match conflict_with(d, all[k]) {
                Some((kind, sp)) => Err((conflict_msg(kind, all[k]), sp)),
                None => Ok(false),
            },
            None => Ok(false),
        }
    }
}

/// The first declaration of the program named `x`: its kind and the span of its name.
fn conflict_for(d: &ProgramNames, x: &str) -> (r: Option<(&'static str, Span)>)
    ensures
        match conflict_with(d.model(), x@) {
            Some((kind, sp)) => r matches Some((k, s)) && k@ == kind && s == sp,
            None => r is None,
        },
{
    proof {
        reveal_strlit("enum");
        reveal_strlit("class");
        reveal_strlit("trait");
        reveal_strlit("error");
    }
    if let Some(j) = find_spanned_name(&d.enums, x) {
        return Some(("enum", d.enums[j].span));
    }
    if let Some(j) = find_spanned_name(&d.classes, x) {
        return Some(("class", d.classes[j].span));
    }
    if let Some(j) = find_spanned_name(&d.traits, x) {
        return Some(("trait", d.traits[j].span));
    }
    if let Some(j) = find_spanned_name(&d.errors, x) {
        return Some(("error", d.errors[j].span));
    }
    None
}

/// Appends copies of `src` to `dst`.
fn append_names(dst: &mut Vec<String>, src: &Vec<String>)
    ensures
        names(final(dst)@) == names(old(dst)@) + names(src@),
{
    let ghost d0 = names(dst@);
    let mut k: usize = 0;
    while k < src.len()
        invariant
            k <= src@.len(),
            names(dst@) == d0 + names(src@).take(k as int),
        decreases src@.len() - k,
    {
        let ghost before = names(dst@);
        dst.push(src[k].clone());
        proof {
            assert(names(dst@) =~= before.push(src@[k as int]@));
            assert(names(src@).take(k + 1) =~= names(src@).take(k as int).push(src@[k as int]@));
        }
        k += 1;
    }
    proof {
        assert(names(src@).take(k as int) =~= names(src@));
    }
}

/// Checks a program's declarations before the prelude is put in front of
/// them: `Ok(true)` where it is there already (the program's first enum is a
/// prelude enum), `Ok(false)` where it may be put in, and an error for the
/// first prelude name (enums, then classes, then traits) that one of the
/// program's enums, classes, traits or errors takes.
pub fn check_prelude(prelude: &PreludeNames, decls: &ProgramNames) -> (r: Result<bool, CompileError>)
    ensures
        match spec_check_prelude(prelude.model(), decls.model()) {
            Ok(b) => r == Ok::<bool, CompileError>(b),
            Err((m, sp)) => r matches Err(CompileError::Type { msg, span }) && msg@ == m && span == sp,
        },
{
    if decls.enums.len() > 0 && names_contain(&prelude.enums, decls.enums[0].node.as_str()) {
        return Ok(true);
    }
    let mut all: Vec<String> = Vec::new();
    append_names(&mut all, &prelude.enums);
    append_names(&mut all, &prelude.classes);
    append_names(&mut all, &prelude.traits);
    let ghost pall = prelude_all(prelude.model());
    proof {
        assert(names(all@) =~= pall);
    }
    let mut k: usize = 0;
    while k < all.len()
        invariant
            k <= all@.len(),
            names(all@) == pall,
            pall == prelude_all(prelude.model()),
            !already_injected(prelude.model(), decls.model()),
            first_conflict(pall, decls.model(), 0) == first_conflict(pall, decls.model(), k as int),
        decreases all@.len() - k,
    {
        proof {
            assert(pall[k as int] == all@[k as int]@);
        }
        if let Some((kind, span)) = conflict_for(decls, all[k].as_str()) {
            let mut msg = String::new();
            msg.append("cannot define ");
            msg.append(kind);
            msg.append(" '");
            msg.append(all[k].as_str());
            msg.append("': conflicts with built-in prelude type");
            proof {
                reveal_strlit("cannot define ");
                reveal_strlit(" '");
                reveal_strlit("': conflicts with built-in prelude type");
            }
            return Err(CompileError::type_err(msg, span));
        }
        k += 1;
    }
    Ok(false)
}


/// The model of a list of spanned enum declarations.
pub open spec fn enums_model(v: Seq<Spanned<EnumDecl>>) -> Seq<Spanned<EnumDeclM>> {
    v.map_values(|e: Spanned<EnumDecl>| Spanned { node: e.node.model(), span: e.span })
}

/// Puts copies of the prelude's enums in front of the program's own.
pub fn prepend_prelude_enums(enums: &mut Vec<Spanned<EnumDecl>>, prelude_enums: &Vec<Spanned<EnumDecl>>)
    ensures
        enums_model(final(enums)@) == enums_model(prelude_enums@) + enums_model(old(enums)@),
{
    let mut front: Vec<Spanned<EnumDecl>> = Vec::new();
    let mut k: usize = 0;
    while k < prelude_enums.len()
        invariant
            k <= prelude_enums@.len(),
            enums_model(front@) == enums_model(prelude_enums@).take(k as int),
        decreases prelude_enums@.len() - k,
    {
        let ghost before = enums_model(front@);
        let e = &prelude_enums[k];
        front.push(Spanned { node: clone_enum_decl(&e.node), span: e.span });
        proof {
            assert(enums_model(front@) =~= before.push(enums_model(prelude_enums@)[k as int]));
            assert(enums_model(prelude_enums@).take(k + 1) =~= enums_model(prelude_enums@).take(k as int).push(enums_model(prelude_enums@)[k as int]));
        }
        k += 1;
    }
    let ghost f = front@;
    let ghost o = enums@;
    front.append(enums);
    *enums = front;
    proof {
        assert(enums_model(prelude_enums@).take(k as int) =~= enums_model(prelude_enums@));
        assert(enums_model(enums@) =~= enums_model(f) + enums_model(o));
    }
}

proof fn lemma_first_conflict(all: Seq<Seq<char>>, d: ProgramNamesM, k: int)
    requires
        0 <= k,
    ensures
        first_conflict(all, d, k) matches Some(j) ==> k <= j < all.len() && conflict_with(d, all[j]) is Some,
        first_conflict(all, d, k) is None ==> forall|j: int| k <= j < all.len() ==> (#[trigger] conflict_with(d, all[j])) is None,
    decreases all.len() - k,
{
    if k < all.len() && conflict_with(d, all[k]) is None {
        lemma_first_conflict(all, d, k + 1);
    }
}

/// The check fails exactly when the prelude is not there yet and the program
/// declares one of the prelude's names.
pub proof fn lemma_check_prelude_fails_iff_conflict(p: PreludeNamesM, d: ProgramNamesM)
    ensures
        spec_check_prelude(p, d) is Err <==> !already_injected(p, d)
            && exists|k: int| 0 <= k < prelude_all(p).len() && (#[trigger] conflict_with(d, prelude_all(p)[k])) is Some,
{
    lemma_first_conflict(prelude_all(p), d, 0);
}


/// Whether the prelude declares the name `x`, as an enum, class or trait.
pub open spec fn is_prelude_name(p: PreludeNamesM, x: Seq<char>) -> bool {
    p.enums.contains(x) || p.classes.contains(x) || p.traits.contains(x)
}

/// Whether one of the declarations `ds` takes a name the prelude declares.
pub open spec fn takes_prelude_name(ds: Seq<Spanned<Seq<char>>>, p: PreludeNamesM) -> bool {
    exists|j: int| #![trigger ds[j]] 0 <= j < ds.len() && is_prelude_name(p, ds[j].node)
}

/// Whether one of the declarations `ds` is named `x`.
pub open spec fn declares(ds: Seq<Spanned<Seq<char>>>, x: Seq<char>) -> bool {
    exists|j: int| #![trigger ds[j]] 0 <= j < ds.len() && ds[j].node == x
}

/// Whether one of the declarations `ds` is named `x` at the span `sp`.
pub open spec fn declares_at(ds: Seq<Spanned<Seq<char>>>, x: Seq<char>, sp: Span) -> bool {
    exists|j: int| #![trigger ds[j]] 0 <= j < ds.len() && ds[j].node == x && ds[j].span == sp
}

proof fn lemma_first_named_in(ds: Seq<Spanned<Seq<char>>>, x: Seq<char>)
    ensures
        first_named(spanned_names(ds), x, 0) is Some <==> declares(ds, x),
        first_named(spanned_names(ds), x, 0) matches Some(j) ==> 0 <= j < ds.len() && ds[j].node == x,
{
    let ns = spanned_names(ds);
    lemma_first_named(ns, x, 0);
    if declares(ds, x) {
        let j = choose|j: int| #![trigger ds[j]] 0 <= j < ds.len() && ds[j].node == x;
        assert(ns[j] == x);
    }
    if let Some(j) = first_named(ns, x, 0) {
        assert(ns[j] == ds[j].node);
        assert(ds[j].node == x);
    }
}

proof fn lemma_conflict_with_declared(d: ProgramNamesM, x: Seq<char>)
    ensures
        conflict_with(d, x) is Some <==> declares(d.enums, x) || declares(d.classes, x)
            || declares(d.traits, x) || declares(d.errors, x),
        conflict_with(d, x) matches Some((kind, sp)) ==>
            (kind == "enum"@ && declares_at(d.enums, x, sp))
            || (kind == "class"@ && declares_at(d.classes, x, sp))
            || (kind == "trait"@ && declares_at(d.traits, x, sp))
            || (kind == "error"@ && declares_at(d.errors, x, sp)),
{
    lemma_first_named_in(d.enums, x);
    lemma_first_named_in(d.classes, x);
    lemma_first_named_in(d.traits, x);
    lemma_first_named_in(d.errors, x);
    if let Some(j) = first_named(spanned_names(d.enums), x, 0) {
        assert(d.enums[j].node == x);
    } else if let Some(j) = first_named(spanned_names(d.classes), x, 0) {
        assert(d.classes[j].node == x);
    } else if let Some(j) = first_named(spanned_names(d.traits), x, 0) {
        assert(d.traits[j].node == x);
    } else if let Some(j) = first_named(spanned_names(d.errors), x, 0) {
        assert(d.errors[j].node == x);
    }
}

proof fn lemma_prelude_all_names(p: PreludeNamesM, x: Seq<char>)
    ensures
        is_prelude_name(p, x) <==> prelude_all(p).contains(x),
{
    let all = prelude_all(p);
    let (a, b, c) = (p.enums.len(), p.classes.len(), p.traits.len());
    if p.enums.contains(x) {
        let i = choose|i: int| 0 <= i < a && p.enums[i] == x;
        assert(all[i] == x);
    } else if p.classes.contains(x) {
        let i = choose|i: int| 0 <= i < b && p.classes[i] == x;
        assert(all[a + i] == x);
    } else if p.traits.contains(x) {
        let i = choose|i: int| 0 <= i < c && p.traits[i] == x;
        assert(all[a + b + i] == x);
    }
    if all.contains(x) {
        let k = choose|k: int| 0 <= k < all.len() && all[k] == x;
        if k < a {
            assert(p.enums[k] == x);
        } else if k < a + b {
            assert(p.classes[k - a] == x);
        } else {
            assert(p.traits[k - a - b] == x);
        }
    }
}

/// Where the prelude is not there yet, the checks reject a program exactly
/// when one of its enums, classes, traits or errors takes a name the prelude
/// declares; the error then names such a declaration: its kind, its name and
/// the span of that name.
pub proof fn lemma_prelude_clash_rejected(p: PreludeNamesM, d: ProgramNamesM)
    ensures
        spec_check_prelude(p, d) is Err <==> !already_injected(p, d) && (takes_prelude_name(d.enums, p)
            || takes_prelude_name(d.classes, p) || takes_prelude_name(d.traits, p) || takes_prelude_name(d.errors, p)),
        spec_check_prelude(p, d) matches Err((m, sp)) ==> exists|x: Seq<char>| #[trigger] is_prelude_name(p, x) && (
            (m == conflict_msg("enum"@, x) && declares_at(d.enums, x, sp))
            || (m == conflict_msg("class"@, x) && declares_at(d.classes, x, sp))
            || (m == conflict_msg("trait"@, x) && declares_at(d.traits, x, sp))
            || (m == conflict_msg("error"@, x) && declares_at(d.errors, x, sp))),
{
    let all = prelude_all(p);
    lemma_check_prelude_fails_iff_conflict(p, d);
    lemma_first_conflict(all, d, 0);
    let takes = takes_prelude_name(d.enums, p) || takes_prelude_name(d.classes, p)
        || takes_prelude_name(d.traits, p) || takes_prelude_name(d.errors, p);
    if spec_check_prelude(p, d) is Err {
        let k = choose|k: int| 0 <= k < all.len() && (#[trigger] conflict_with(d, all[k])) is Some;
        let x = all[k];
        lemma_prelude_all_names(p, x);
        assert(all.contains(x));
        lemma_conflict_with_declared(d, x);
        if declares(d.enums, x) {
            let j = choose|j: int| #![trigger d.enums[j]] 0 <= j < d.enums.len() && d.enums[j].node == x;
            assert(is_prelude_name(p, d.enums[j].node));
        } else if declares(d.classes, x) {
            let j = choose|j: int| #![trigger d.classes[j]] 0 <= j < d.classes.len() && d.classes[j].node == x;
            assert(is_prelude_name(p, d.classes[j].node));
        } else if declares(d.traits, x) {
            let j = choose|j: int| #![trigger d.traits[j]] 0 <= j < d.traits.len() && d.traits[j].node == x;
            assert(is_prelude_name(p, d.traits[j].node));
        } else {
            let j = choose|j: int| #![trigger d.errors[j]] 0 <= j < d.errors.len() && d.errors[j].node == x;
            assert(is_prelude_name(p, d.errors[j].node));
        }
        let k0 = first_conflict(all, d, 0)->0;
        let x0 = all[k0];
        lemma_prelude_all_names(p, x0);
        assert(all.contains(x0));
        lemma_conflict_with_declared(d, x0);
        assert(is_prelude_name(p, x0));
    }
    if !already_injected(p, d) && takes {
        let x = if takes_prelude_name(d.enums, p) {
            let j = choose|j: int| #![trigger d.enums[j]] 0 <= j < d.enums.len() && is_prelude_name(p, d.enums[j].node);
            assert(declares(d.enums, d.enums[j].node));
            d.enums[j].node
        } else if takes_prelude_name(d.classes, p) {
            let j = choose|j: int| #![trigger d.classes[j]] 0 <= j < d.classes.len() && is_prelude_name(p, d.classes[j].node);
            assert(declares(d.classes, d.classes[j].node));
            d.classes[j].node
        } else if takes_prelude_name(d.traits, p) {
            let j = choose|j: int| #![trigger d.traits[j]] 0 <= j < d.traits.len() && is_prelude_name(p, d.traits[j].node);
            assert(declares(d.traits, d.traits[j].node));
            d.traits[j].node
        } else {
            let j = choose|j: int| #![trigger d.errors[j]] 0 <= j < d.errors.len() && is_prelude_name(p, d.errors[j].node);
            assert(declares(d.errors, d.errors[j].node));
            d.errors[j].node
        };
        lemma_prelude_all_names(p, x);
        lemma_conflict_with_declared(d, x);
        let k = choose|k: int| 0 <= k < all.len() && all[k] == x;
        assert(conflict_with(d, all[k]) is Some);
    }
}

// ── Injecting the prelude ───────────────────────────────────────────

/// A class or trait declaration, as prelude injection reads it: its name, and
/// `key`, where the caller keeps the full declaration.
#[derive(Debug, Clone)]
pub struct DeclRef {
    pub name: Spanned<String>,
    pub key: usize,
}

/// The prelude's declarations: enums, classes and traits.
#[derive(Debug)]
pub struct PreludeDecls {
    pub enums: Vec<Spanned<EnumDecl>>,
    pub classes: Vec<Spanned<DeclRef>>,
    pub traits: Vec<Spanned<DeclRef>>,
}

/// The top-level declarations of a program that prelude injection reads or
/// changes.
#[derive(Debug)]
pub struct ProgramDecls {
    pub enums: Vec<Spanned<EnumDecl>>,
    pub classes: Vec<Spanned<DeclRef>>,
    pub traits: Vec<Spanned<DeclRef>>,
    pub errors: Vec<Spanned<ErrorDecl>>,
}

pub struct PreludeDeclsM {
    pub enums: Seq<Spanned<EnumDeclM>>,
    pub classes: Seq<Spanned<DeclRef>>,
    pub traits: Seq<Spanned<DeclRef>>,
}

pub struct ProgramDeclsM {
    pub enums: Seq<Spanned<EnumDeclM>>,
    pub classes: Seq<Spanned<DeclRef>>,
    pub traits: Seq<Spanned<DeclRef>>,
    pub errors: Seq<Spanned<ErrorDecl>>,
}

impl PreludeDecls {
    pub open spec fn model(&self) -> PreludeDeclsM {
        PreludeDeclsM { enums: enums_model(self.enums@), classes: self.classes@, traits: self.traits@ }
    }
}

impl ProgramDecls {
    pub open spec fn model(&self) -> ProgramDeclsM {
        ProgramDeclsM { enums: enums_model(self.enums@), classes: self.classes@, traits: self.traits@, errors: self.errors@ }
    }
}

pub open spec fn ref_names(v: Seq<Spanned<DeclRef>>) -> Seq<Seq<char>> {
    v.map_values(|c: Spanned<DeclRef>| c.node.name.node@)
}

pub open spec fn ref_spanned_names(v: Seq<Spanned<DeclRef>>) -> Seq<Spanned<Seq<char>>> {
    v.map_values(|c: Spanned<DeclRef>| name_model(c.node.name))
}

/// The names the prelude declares.
pub open spec fn prelude_names_of(p: PreludeDeclsM) -> PreludeNamesM {
    PreludeNamesM {
        enums: p.enums.map_values(|e: Spanned<EnumDeclM>| e.node.name.node),
        classes: ref_names(p.classes),
        traits: ref_names(p.traits),
    }
}

/// The names a program declares, with their spans.
pub open spec fn program_names_of(d: ProgramDeclsM) -> ProgramNamesM {
    ProgramNamesM {
        enums: d.enums.map_values(|e: Spanned<EnumDeclM>| e.node.name),
        classes: ref_spanned_names(d.classes),
        traits: ref_spanned_names(d.traits),
        errors: d.errors.map_values(|e: Spanned<ErrorDecl>| name_model(e.node.name)),
    }
}

/// Injecting the prelude into a program: nothing changes where it is there
/// already; where no declaration of the program takes a prelude name, the
/// prelude's enums, classes and traits are put in front of the program's own;
/// otherwise the error for the first conflict.
pub open spec fn spec_inject_prelude(p: PreludeDeclsM, d: ProgramDeclsM) -> Result<ProgramDeclsM, (Seq<char>, Span)> {
    match spec_check_prelude(prelude_names_of(p), program_names_of(d)) {
        Ok(true) => Ok(d),
        Ok(false) => Ok(ProgramDeclsM {
            enums: p.enums + d.enums,
            classes: p.classes + d.classes,
            traits: p.traits + d.traits,
            errors: d.errors,
        }),
        Err(e) => Err(e),
    }
}

/// The names of a list of enum declarations.
fn enum_texts(v: &Vec<Spanned<EnumDecl>>) -> (r: Vec<String>)
    ensures
        names(r@) == enums_model(v@).map_values(|e: Spanned<EnumDeclM>| e.node.name.node),
{
    let mut r: Vec<String> = Vec::new();
    let mut k: usize = 0;
    while k < v.len()
        invariant
            k <= v@.len(),
            names(r@) == enums_model(v@).map_values(|e: Spanned<EnumDeclM>| e.node.name.node).take(k as int),
        decreases v@.len() - k,
    {
        let ghost before = names(r@);
        r.push(v[k].node.name.node.clone());
        proof {
            let all = enums_model(v@).map_values(|e: Spanned<EnumDeclM>| e.node.name.node);
            assert(names(r@) =~= before.push(v@[k as int].node.name.node@));
            assert(all.take(k + 1) =~= all.take(k as int).push(all[k as int]));
        }
        k += 1;
    }
    proof {
        assert(enums_model(v@).map_values(|e: Spanned<EnumDeclM>| e.node.name.node).take(k as int)
            =~= enums_model(v@).map_values(|e: Spanned<EnumDeclM>| e.node.name.node));
    }
    r
}

/// The names of a list of class or trait declarations.
fn ref_texts(v: &Vec<Spanned<DeclRef>>) -> (r: Vec<String>)
    ensures
        names(r@) == ref_names(v@),
{
    let mut r: Vec<String> = Vec::new();
    let mut k: usize = 0;
    while k < v.len()
        invariant
            k <= v@.len(),
            names(r@) == ref_names(v@).take(k as int),
        decreases v@.len() - k,
    {
        let ghost before = names(r@);
        r.push(v[k].node.name.node.clone());
        proof {
            assert(names(r@) =~= before.push(v@[k as int].node.name.node@));
            assert(ref_names(v@).take(k + 1) =~= ref_names(v@).take(k as int).push(ref_names(v@)[k as int]));
        }
        k += 1;
    }
    proof {
        assert(ref_names(v@).take(k as int) =~= ref_names(v@));
    }
    r
}

/// The spanned names of a list of enum declarations.
fn enum_spanned_names(v: &Vec<Spanned<EnumDecl>>) -> (r: Vec<Spanned<String>>)
    ensures
        names_model(r@) == enums_model(v@).map_values(|e: Spanned<EnumDeclM>| e.node.name),
{
    let mut r: Vec<Spanned<String>> = Vec::new();
    let mut k: usize = 0;
    while k < v.len()
        invariant
            k <= v@.len(),
            names_model(r@) == enums_model(v@).map_values(|e: Spanned<EnumDeclM>| e.node.name).take(k as int),
        decreases v@.len() - k,
    {
        let ghost before = names_model(r@);
        r.push(clone_name(&v[k].node.name));
        proof {
            let all = enums_model(v@).map_values(|e: Spanned<EnumDeclM>| e.node.name);
            assert(names_model(r@) =~= before.push(name_model(v@[k as int].node.name)));
            assert(all.take(k + 1) =~= all.take(k as int).push(all[k as int]));
        }
        k += 1;
    }
    proof {
        assert(enums_model(v@).map_values(|e: Spanned<EnumDeclM>| e.node.name).take(k as int)
            =~= enums_model(v@).map_values(|e: Spanned<EnumDeclM>| e.node.name));
    }
    r
}

/// The spanned names of a list of class or trait declarations.
fn ref_spanned(v: &Vec<Spanned<DeclRef>>) -> (r: Vec<Spanned<String>>)
    ensures
        names_model(r@) == ref_spanned_names(v@),
{
    let mut r: Vec<Spanned<String>> = Vec::new();
    let mut k: usize = 0;
    while k < v.len()
        invariant
            k <= v@.len(),
            names_model(r@) == ref_spanned_names(v@).take(k as int),
        decreases v@.len() - k,
    {
        let ghost before = names_model(r@);
        r.push(clone_name(&v[k].node.name));
        proof {
            assert(names_model(r@) =~= before.push(name_model(v@[k as int].node.name)));
            assert(ref_spanned_names(v@).take(k + 1) =~= ref_spanned_names(v@).take(k as int).push(ref_spanned_names(v@)[k as int]));
        }
        k += 1;
    }
    proof {
        assert(ref_spanned_names(v@).take(k as int) =~= ref_spanned_names(v@));
    }
    r
}

/// The spanned names of a list of error declarations.
fn error_spanned_names(v: &Vec<Spanned<ErrorDecl>>) -> (r: Vec<Spanned<String>>)
    ensures
        names_model(r@) == v@.map_values(|e: Spanned<ErrorDecl>| name_model(e.node.name)),
{
    let mut r: Vec<Spanned<String>> = Vec::new();
    let mut k: usize = 0;
    while k < v.len()
        invariant
            k <= v@.len(),
            names_model(r@) == v@.map_values(|e: Spanned<ErrorDecl>| name_model(e.node.name)).take(k as int),
        decreases v@.len() - k,
    {
        let ghost before = names_model(r@);
        r.push(clone_name(&v[k].node.name));
        proof {
            let all = v@.map_values(|e: Spanned<ErrorDecl>| name_model(e.node.name));
            assert(names_model(r@) =~= before.push(name_model(v@[k as int].node.name)));
            assert(all.take(k + 1) =~= all.take(k as int).push(all[k as int]));
        }
        k += 1;
    }
    proof {
        assert(v@.map_values(|e: Spanned<ErrorDecl>| name_model(e.node.name)).take(k as int)
            =~= v@.map_values(|e: Spanned<ErrorDecl>| name_model(e.node.name)));
    }
    r
}

/// Puts copies of `front` before the class or trait declarations `decls`.
fn prepend_refs(decls: &mut Vec<Spanned<DeclRef>>, front: &Vec<Spanned<DeclRef>>)
    ensures
        final(decls)@ == front@ + old(decls)@,
{
    let mut out: Vec<Spanned<DeclRef>> = Vec::new();
    let mut k: usize = 0;
    while k < front.len()
        invariant
            k <= front@.len(),
            out@ == front@.take(k as int),
        decreases front@.len() - k,
    {
        let c = &front[k];
        out.push(Spanned { node: DeclRef { name: clone_name(&c.node.name), key: c.node.key }, span: c.span });
        proof {
            assert(front@.take(k + 1) =~= front@.take(k as int).push(front@[k as int]));
        }
        k += 1;
    }
    proof {
        assert(front@.take(k as int) =~= front@);
    }
    out.append(decls);
    *decls = out;
}

/// Injects the prelude into a program: where the program's first enum is a
/// prelude enum the prelude is there already and nothing changes; where one
/// of the program's enums, classes, traits or errors takes a name of the
/// prelude, the error for the first such name and nothing changes; otherwise
/// the prelude's enums, classes and traits are put in front of the program's
/// own.
pub fn inject_prelude(program: &mut ProgramDecls, prelude: &PreludeDecls) -> (r: Result<(), CompileError>)
    ensures
        match spec_inject_prelude(prelude.model(), old(program).model()) {
            Ok(d) => r is Ok && final(program).model() == d,
            Err((m, sp)) => (r matches Err(CompileError::Type { msg, span }) && msg@ == m && span == sp)
                && final(program).model() == old(program).model(),
        },
{
    let pn = PreludeNames {
        enums: enum_texts(&prelude.enums),
        classes: ref_texts(&prelude.classes),
        traits: ref_texts(&prelude.traits),
    };
    let dn = ProgramNames {
        enums: enum_spanned_names(&program.enums),
        classes: ref_spanned(&program.classes),
        traits: ref_spanned(&program.traits),
        errors: error_spanned_names(&program.errors),
    };
    proof {
        assert(pn.model() == prelude_names_of(prelude.model()));
        assert(dn.model() == program_names_of(program.model()));
    }
    match check_prelude(&pn, &dn) {
        Err(e) => {
            return Err(e);
        },
        Ok(true) => {
            return Ok(());
        },
        Ok(false) => {},
    }
    prepend_prelude_enums(&mut program.enums, &prelude.enums);
    prepend_refs(&mut program.classes, &prelude.classes);
    prepend_refs(&mut program.traits, &prelude.traits);
    Ok(())
}

/// Injecting the prelude a second time changes nothing, once the prelude
/// declares an enum: after the first injection the program's first enum is a
/// prelude enum.
pub proof fn lemma_inject_prelude_idempotent(p: PreludeDeclsM, d: ProgramDeclsM)
    requires
        p.enums.len() > 0,
        spec_inject_prelude(p, d) is Ok,
    ensures
        spec_inject_prelude(p, d) matches Ok(d2) ==> spec_inject_prelude(p, d2) == Ok::<ProgramDeclsM, (Seq<char>, Span)>(d2),
{
    if let Ok(d2) = spec_inject_prelude(p, d) {
        let pn = prelude_names_of(p);
        if spec_check_prelude(pn, program_names_of(d)) == Ok::<bool, (Seq<char>, Span)>(false) {
            assert(d2.enums[0] == p.enums[0]);
            assert(program_names_of(d2).enums[0].node == pn.enums[0]);
            assert(pn.enums.contains(pn.enums[0]));
        }
    }
}

} // verus!
