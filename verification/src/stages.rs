//! Flattening of stage inheritance: each stage that inherits from a parent
//! receives the injected fields, ambient types, lifecycle overrides and
//! methods of its ancestors, and stages left with required methods that no
//! stage of their chain defines are dropped.

use vstd::prelude::*;
use crate::span::Span;
use crate::span::Spanned;
use crate::diagnostics::CompileError;
use crate::text::str_eq;
use crate::typeck::env::names;
use crate::typeck::env::names_contain;
use crate::sync::first_named;
use crate::sync::lemma_first_named;
use crate::rust_ffi::metadata::opt_int;
use crate::parser::ast::StageDecl;
use crate::parser::ast::StageM;
use crate::parser::ast::stages_model;
use crate::parser::ast::stage_model;
use crate::parser::ast::Field;
use crate::parser::ast::FieldM;
use crate::parser::ast::fields_model;
use crate::parser::ast::names_model;
use crate::parser::ast::name_model;
use crate::parser::ast::Lifecycle;
use crate::parser::ast::lifecycle_model;
use crate::parser::ast::RequiredMethod;
use crate::parser::ast::RequiredM;
use crate::parser::ast::required_model;
use crate::parser::ast::StageMethod;
use crate::parser::ast::StageMethodM;
use crate::parser::ast::method_model;
use crate::parser::ast::clone_name;
use crate::parser::ast::clone_field;
use crate::parser::ast::clone_required;
use crate::parser::ast::clone_method;
use crate::parser::ast::clone_opt_name;
use crate::parser::ast::lifecycles_model;
use crate::parser::ast::requireds_model;
use crate::parser::ast::methods_model;

verus! {

// ── Names and parents ───────────────────────────────────────────────

/// The names of the stages, in order.
pub open spec fn stage_names(ss: Seq<Spanned<StageM>>) -> Seq<Seq<char>> {
    ss.map_values(|s: Spanned<StageM>| s.node.name.node)
}

/// The position of the last of the first `k` stages named `x`, or -1.
pub open spec fn last_named(ss: Seq<Spanned<StageM>>, x: Seq<char>, k: int) -> int
    decreases k,
{
    if k <= 0 {
        -1
    } else if ss[k - 1].node.name.node == x {
        k - 1
    } else {
        last_named(ss, x, k - 1)
    }
}

/// The stage that a parent name refers to: the last stage of that name.
pub open spec fn parent_index(ss: Seq<Spanned<StageM>>, x: Seq<char>) -> int {
    last_named(ss, x, ss.len() as int)
}

/// Whether a stage names a parent that no stage has.
pub open spec fn has_unknown_parent(ss: Seq<Spanned<StageM>>, s: StageM) -> bool {
    match s.parent {
        Some(p) => !stage_names(ss).contains(p.node),
        None => false,
    }
}

/// The first stage, from `i` on, whose parent is unknown.
pub open spec fn first_unknown_parent(ss: Seq<Spanned<StageM>>, i: int) -> Option<int>
    decreases ss.len() - i,
{
    if i >= ss.len() {
        None
    } else if has_unknown_parent(ss, ss[i].node) {
        Some(i)
    } else {
        first_unknown_parent(ss, i + 1)
    }
}

pub open spec fn unknown_parent_msg(stage: Seq<char>, parent: Seq<char>) -> Seq<char> {
    "stage '"@ + stage + "' inherits from unknown stage '"@ + parent + "'"@
}

pub open spec fn cycle_msg(stage: Seq<char>) -> Seq<char> {
    "circular stage inheritance: '"@ + stage + "' eventually inherits from itself"@
}

// ── Ancestry ────────────────────────────────────────────────────────

/// Walking up from stage `cur` with the names `visited` already passed: the
/// stages reached on the way, nearest first, or the span of the first parent
/// name reached a second time.
pub open spec fn walk_up(ss: Seq<Spanned<StageM>>, cur: int, visited: Seq<Seq<char>>, fuel: nat) -> Result<Seq<int>, Span>
    decreases fuel,
{
    match ss[cur].node.parent {
        None => Ok(Seq::empty()),
        Some(p) => if visited.contains(p.node) {
            Err(p.span)
        } else if fuel == 0 {
            Ok(Seq::empty())
        } else {
            let j = parent_index(ss, p.node);
            match walk_up(ss, j, visited.push(p.node), (fuel - 1) as nat) {
                Ok(rest) => Ok(seq![j] + rest),
                Err(e) => Err(e),
            }
        },
    }
}

/// The ancestors of stage `i`, nearest first, or the span where its chain of
/// parents comes back to a name already on it.
pub open spec fn ancestry(ss: Seq<Spanned<StageM>>, i: int) -> Result<Seq<int>, Span> {
    walk_up(ss, i, seq![ss[i].node.name.node], ss.len())
}

/// The first stage, from `i` on, whose chain of parents is circular.
pub open spec fn first_cycle(ss: Seq<Spanned<StageM>>, i: int) -> Option<int>
    decreases ss.len() - i,
{
    if i >= ss.len() {
        None
    } else if ancestry(ss, i) is Err {
        Some(i)
    } else {
        first_cycle(ss, i + 1)
    }
}

pub open spec fn prepend(c: Seq<int>, r: Result<Seq<int>, Span>) -> Result<Seq<int>, Span> {
    match r {
        Ok(rest) => Ok(c + rest),
        Err(e) => Err(e),
    }
}


// ── Merging a chain ─────────────────────────────────────────────────

/// What the stages of a chain contribute to its last stage, as it is gathered.
pub struct MergeM {
    pub fields: Seq<FieldM>,
    pub ambient: Seq<Spanned<Seq<char>>>,
    pub lifecycles: Seq<(Spanned<Seq<char>>, Lifecycle)>,
    pub required: Seq<Spanned<RequiredM>>,
    pub methods: Seq<Spanned<StageMethodM>>,
}

pub open spec fn fieldm_names(fs: Seq<FieldM>) -> Seq<Seq<char>> {
    fs.map_values(|f: FieldM| f.name.node)
}

pub open spec fn spanned_names(ns: Seq<Spanned<Seq<char>>>) -> Seq<Seq<char>> {
    ns.map_values(|n: Spanned<Seq<char>>| n.node)
}

pub open spec fn required_names(rs: Seq<Spanned<RequiredM>>) -> Seq<Seq<char>> {
    rs.map_values(|r: Spanned<RequiredM>| r.node.name.node)
}

pub open spec fn method_names(ms: Seq<Spanned<StageMethodM>>) -> Seq<Seq<char>> {
    ms.map_values(|m: Spanned<StageMethodM>| m.node.name.node)
}

pub open spec fn duplicate_field_msg(field: Seq<char>, stage: Seq<char>) -> Seq<char> {
    "duplicate injected field '"@ + field + "' in stage inheritance chain for '"@ + stage + "'"@
}

pub open spec fn bad_override_msg(method: Seq<char>, stage: Seq<char>) -> Seq<char> {
    "'override fn "@ + method + "' in stage '"@ + stage + "' does not override any method from parent stage"@
}

pub open spec fn shadow_msg(method: Seq<char>, stage: Seq<char>) -> Seq<char> {
    "method '"@ + method + "' in stage '"@ + stage + "' shadows a parent method \u{2014} use 'override fn' to override"@
}

/// The fields `acc` followed by the first `k` of `src`; an error at the first
/// of them whose name is already taken. `stage` is the stage being flattened.
pub open spec fn merge_fields(acc: Seq<FieldM>, src: Seq<FieldM>, stage: Seq<char>, k: int) -> Result<Seq<FieldM>, (Seq<char>, Span)>
    decreases k,
{
    if k <= 0 {
        Ok(acc)
    } else {
        match merge_fields(acc, src, stage, k - 1) {
            Err(e) => Err(e),
            Ok(a) => if fieldm_names(a).contains(src[k - 1].name.node) {
                Err((duplicate_field_msg(src[k - 1].name.node, stage), src[k - 1].name.span))
            } else {
                Ok(a.push(src[k - 1]))
            },
        }
    }
}

/// The ambient types `acc` followed by those of the first `k` of `src` whose
/// names are not there yet.
pub open spec fn merge_ambient(acc: Seq<Spanned<Seq<char>>>, src: Seq<Spanned<Seq<char>>>, k: int) -> Seq<Spanned<Seq<char>>>
    decreases k,
{
    if k <= 0 {
        acc
    } else {
        let a = merge_ambient(acc, src, k - 1);
        if spanned_names(a).contains(src[k - 1].node) {
            a
        } else {
            a.push(src[k - 1])
        }
    }
}

/// `rs` with `r` in place of the entry of the same name, or after them all.
pub open spec fn required_insert(rs: Seq<Spanned<RequiredM>>, r: Spanned<RequiredM>) -> Seq<Spanned<RequiredM>> {
    match first_named(required_names(rs), r.node.name.node, 0) {
        Some(p) => rs.update(p, r),
        None => rs.push(r),
    }
}

/// `rs` without the entry named `name`.
pub open spec fn required_remove(rs: Seq<Spanned<RequiredM>>, name: Seq<char>) -> Seq<Spanned<RequiredM>> {
    match first_named(required_names(rs), name, 0) {
        Some(p) => rs.remove(p),
        None => rs,
    }
}

/// `ms` with `m` in place of the method of the same name, or after them all.
pub open spec fn method_insert(ms: Seq<Spanned<StageMethodM>>, m: Spanned<StageMethodM>) -> Seq<Spanned<StageMethodM>> {
    match first_named(method_names(ms), m.node.name.node, 0) {
        Some(p) => ms.update(p, m),
        None => ms.push(m),
    }
}

/// The required methods `acc` with the first `k` of `src` put in.
pub open spec fn merge_requires(acc: Seq<Spanned<RequiredM>>, src: Seq<Spanned<RequiredM>>, k: int) -> Seq<Spanned<RequiredM>>
    decreases k,
{
    if k <= 0 {
        acc
    } else {
        required_insert(merge_requires(acc, src, k - 1), src[k - 1])
    }
}

/// The methods `ms` and required methods `rs` after the first `k` methods of
/// the stage named `stage` are put in. A method declared `override fn` must
/// replace one defined or required before it; where `check_shadow` holds, any
/// other method must not.
pub open spec fn merge_methods(
    ms: Seq<Spanned<StageMethodM>>,
    rs: Seq<Spanned<RequiredM>>,
    src: Seq<Spanned<StageMethodM>>,
    check_shadow: bool,
    stage: Seq<char>,
    k: int,
) -> Result<(Seq<Spanned<StageMethodM>>, Seq<Spanned<RequiredM>>), (Seq<char>, Span)>
    decreases k,
{
    if k <= 0 {
        Ok((ms, rs))
    } else {
        match merge_methods(ms, rs, src, check_shadow, stage, k - 1) {
            Err(e) => Err(e),
            Ok((ms1, rs1)) => {
                let m = src[k - 1];
                let name = m.node.name.node;
                let defined = method_names(ms1).contains(name) || required_names(rs1).contains(name);
                if m.node.is_override && !defined {
                    Err((bad_override_msg(name, stage), m.node.name.span))
                } else if !m.node.is_override && check_shadow && defined {
                    Err((shadow_msg(name, stage), m.node.name.span))
                } else {
                    Ok((method_insert(ms1, m), required_remove(rs1, name)))
                }
            },
        }
    }
}

/// `st` with the stage at position `pos` of `order` merged in, for the
/// flattening of stage `i`.
pub open spec fn merge_source(ss: Seq<Spanned<StageM>>, i: int, order: Seq<int>, pos: int, st: MergeM) -> Result<MergeM, (Seq<char>, Span)> {
    let idx = order[pos];
    let src = ss[idx].node;
    match merge_fields(st.fields, src.inject_fields, ss[i].node.name.node, src.inject_fields.len() as int) {
        Err(e) => Err(e),
        Ok(fields) => {
            let ambient = merge_ambient(st.ambient, src.ambient_types, src.ambient_types.len() as int);
            let lifecycles = st.lifecycles + src.lifecycle_overrides;
            let reqs = merge_requires(st.required, src.required_methods, src.required_methods.len() as int);
            let check_shadow = idx != order[0] || src.parent is Some;
            match merge_methods(st.methods, reqs, src.methods, check_shadow, src.name.node, src.methods.len() as int) {
                Err(e) => Err(e),
                Ok((methods, reqs)) => Ok(MergeM { fields, ambient, lifecycles, required: reqs, methods }),
            }
        },
    }
}

pub open spec fn empty_merge() -> MergeM {
    MergeM {
        fields: Seq::empty(),
        ambient: Seq::empty(),
        lifecycles: Seq::empty(),
        required: Seq::empty(),
        methods: Seq::empty(),
    }
}

/// The first `k` stages of `order` merged, for the flattening of stage `i`.
pub open spec fn merge_chain(ss: Seq<Spanned<StageM>>, i: int, order: Seq<int>, k: int) -> Result<MergeM, (Seq<char>, Span)>
    decreases k,
{
    if k <= 0 {
        Ok(empty_merge())
    } else {
        match merge_chain(ss, i, order, k - 1) {
            Err(e) => Err(e),
            Ok(st) => merge_source(ss, i, order, k - 1, st),
        }
    }
}

/// The order in which stages are merged into stage `i`: its ancestors from
/// the root down, then itself.
pub open spec fn merge_order(chain: Seq<int>, i: int) -> Seq<int> {
    chain.reverse().push(i)
}

/// Stage `i` flattened along its ancestors `chain`; a stage that inherits
/// nothing is left as it is.
pub open spec fn flatten_stage(ss: Seq<Spanned<StageM>>, i: int, chain: Seq<int>) -> Result<Spanned<StageM>, (Seq<char>, Span)> {
    let s = ss[i];
    if chain.len() == 0 && s.node.parent is None {
        Ok(s)
    } else {
        let order = merge_order(chain, i);
        match merge_chain(ss, i, order, order.len() as int) {
            Err(e) => Err(e),
            Ok(m) => Ok(Spanned {
                node: StageM {
                    inject_fields: m.fields,
                    ambient_types: m.ambient,
                    lifecycle_overrides: m.lifecycles,
                    required_methods: m.required,
                    methods: m.methods,
                    ..s.node
                },
                span: s.span,
            }),
        }
    }
}


// ── Gathering a chain ───────────────────────────────────────────────

/// What the stages of a chain contribute to its last stage, as it is gathered.
struct Merged {
    fields: Vec<Field>,
    ambient: Vec<Spanned<String>>,
    lifecycles: Vec<(Spanned<String>, Lifecycle)>,
    required: Vec<Spanned<RequiredMethod>>,
    methods: Vec<Spanned<StageMethod>>,
}

impl Merged {
    spec fn model(&self) -> MergeM {
        MergeM {
            fields: fields_model(self.fields@),
            ambient: names_model(self.ambient@),
            lifecycles: lifecycles_model(self.lifecycles@),
            required: requireds_model(self.required@),
            methods: methods_model(self.methods@),
        }
    }
}

/// The position of the first field named `name`.
fn find_field_named(fs: &Vec<Field>, name: &str) -> (r: Option<usize>)
    ensures
        opt_int(r) == first_named(fieldm_names(fields_model(fs@)), name@, 0),
        r matches Some(j) ==> j < fs@.len(),
{
    let ghost ns = fieldm_names(fields_model(fs@));
    let mut j: usize = 0;
    while j < fs.len()
        invariant
            j <= fs@.len(),
            ns == fieldm_names(fields_model(fs@)),
            first_named(ns, name@, j as int) == first_named(ns, name@, 0),
        decreases fs@.len() - j,
    {
        proof {
            assert(ns[j as int] == fs@[j as int].name.node@);
        }
        if str_eq(fs[j].name.node.as_str(), name) {
            return Some(j);
        }
        j += 1;
    }
    None
}

/// The position of the first spanned name equal to `name`.
pub(crate) fn find_spanned_name(ns: &Vec<Spanned<String>>, name: &str) -> (r: Option<usize>)
    ensures
        opt_int(r) == first_named(spanned_names(names_model(ns@)), name@, 0),
        r matches Some(j) ==> j < ns@.len(),
{
    let ghost xs = spanned_names(names_model(ns@));
    let mut j: usize = 0;
    while j < ns.len()
        invariant
            j <= ns@.len(),
            xs == spanned_names(names_model(ns@)),
            first_named(xs, name@, j as int) == first_named(xs, name@, 0),
        decreases ns@.len() - j,
    {
        proof {
            assert(xs[j as int] == ns@[j as int].node@);
        }
        if str_eq(ns[j].node.as_str(), name) {
            return Some(j);
        }
        j += 1;
    }
    None
}

/// The position of the first required method named `name`.
fn find_required(rs: &Vec<Spanned<RequiredMethod>>, name: &str) -> (r: Option<usize>)
    ensures
        opt_int(r) == first_named(required_names(requireds_model(rs@)), name@, 0),
        r matches Some(j) ==> j < rs@.len(),
{
    let ghost xs = required_names(requireds_model(rs@));
    let mut j: usize = 0;
    while j < rs.len()
        invariant
            j <= rs@.len(),
            xs == required_names(requireds_model(rs@)),
            first_named(xs, name@, j as int) == first_named(xs, name@, 0),
        decreases rs@.len() - j,
    {
        proof {
            assert(xs[j as int] == rs@[j as int].node.name.node@);
        }
        if str_eq(rs[j].node.name.node.as_str(), name) {
            return Some(j);
        }
        j += 1;
    }
    None
}

/// The position of the first method named `name`.
fn find_method(ms: &Vec<Spanned<StageMethod>>, name: &str) -> (r: Option<usize>)
    ensures
        opt_int(r) == first_named(method_names(methods_model(ms@)), name@, 0),
        r matches Some(j) ==> j < ms@.len(),
{
    let ghost xs = method_names(methods_model(ms@));
    let mut j: usize = 0;
    while j < ms.len()
        invariant
            j <= ms@.len(),
            xs == method_names(methods_model(ms@)),
            first_named(xs, name@, j as int) == first_named(xs, name@, 0),
        decreases ms@.len() - j,
    {
        proof {
            assert(xs[j as int] == ms@[j as int].node.name.node@);
        }
        if str_eq(ms[j].node.name.node.as_str(), name) {
            return Some(j);
        }
        j += 1;
    }
    None
}

/// Appends the fields of `src` to `acc`, refusing a name already taken.
fn merge_fields_into(acc: &mut Vec<Field>, src: &Vec<Field>, stage: &str) -> (r: Result<(), CompileError>)
    ensures
        match merge_fields(fields_model(old(acc)@), fields_model(src@), stage@, src@.len() as int) {
            Ok(f) => r is Ok && fields_model(final(acc)@) == f,
            Err((m, sp)) => r matches Err(CompileError::Type { msg, span }) && msg@ == m && span == sp,
        },
{
    let ghost acc0 = fields_model(acc@);
    let ghost srcm = fields_model(src@);
    let mut k: usize = 0;
    while k < src.len()
        invariant
            k <= src@.len(),
            srcm == fields_model(src@),
            acc0 == fields_model(old(acc)@),
            merge_fields(acc0, srcm, stage@, k as int) == Ok::<Seq<FieldM>, (Seq<char>, Span)>(fields_model(acc@)),
        decreases src@.len() - k,
    {
        let f = &src[k];
        let pos = find_field_named(acc, f.name.node.as_str());
        proof {
            lemma_first_named(fieldm_names(fields_model(acc@)), f.name.node@, 0);
            assert(srcm[k as int].name == name_model(f.name));
        }
        if pos.is_some() {
            let mut msg = String::new();
            msg.append("duplicate injected field '");
            msg.append(f.name.node.as_str());
            msg.append("' in stage inheritance chain for '");
            msg.append(stage);
            msg.append("'");
            proof {
                reveal_strlit("duplicate injected field '");
                reveal_strlit("' in stage inheritance chain for '");
                reveal_strlit("'");
                assert(fieldm_names(fields_model(acc@)).contains(f.name.node@));
                lemma_merge_fields_err(acc0, srcm, stage@, k + 1, src@.len() as int);
            }
            return Err(CompileError::type_err(msg, f.name.span));
        }
        let ghost before = fields_model(acc@);
        acc.push(clone_field(f));
        proof {
            assert(!fieldm_names(before).contains(f.name.node@)) by {
                if fieldm_names(before).contains(f.name.node@) {
                    let m = choose|m: int| 0 <= m < fieldm_names(before).len() && fieldm_names(before)[m] == f.name.node@;
                }
            }
            assert(fields_model(acc@) =~= before.push(srcm[k as int]));
        }
        k += 1;
    }
    Ok(())
}

/// Appends to `acc` the ambient types of `src` whose names it lacks.
fn merge_ambient_into(acc: &mut Vec<Spanned<String>>, src: &Vec<Spanned<String>>)
    ensures
        names_model(final(acc)@) == merge_ambient(names_model(old(acc)@), names_model(src@), src@.len() as int),
{
    let ghost acc0 = names_model(acc@);
    let ghost srcm = names_model(src@);
    let mut k: usize = 0;
    while k < src.len()
        invariant
            k <= src@.len(),
            srcm == names_model(src@),
            merge_ambient(acc0, srcm, k as int) == names_model(acc@),
        decreases src@.len() - k,
    {
        let a = &src[k];
        let pos = find_spanned_name(acc, a.node.as_str());
        proof {
            lemma_first_named(spanned_names(names_model(acc@)), a.node@, 0);
            assert(srcm[k as int] == name_model(*a));
        }
        if pos.is_none() {
            let ghost before = names_model(acc@);
            acc.push(clone_name(a));
            proof {
                assert(!spanned_names(before).contains(a.node@)) by {
                    if spanned_names(before).contains(a.node@) {
                        let m = choose|m: int| 0 <= m < spanned_names(before).len() && spanned_names(before)[m] == a.node@;
                    }
                }
                assert(names_model(acc@) =~= before.push(srcm[k as int]));
            }
        } else {
            proof {
                assert(spanned_names(names_model(acc@)).contains(a.node@));
            }
        }
        k += 1;
    }
}

/// Appends copies of the lifecycle overrides of `src` to `acc`.
fn append_lifecycles(acc: &mut Vec<(Spanned<String>, Lifecycle)>, src: &Vec<(Spanned<String>, Lifecycle)>)
    ensures
        lifecycles_model(final(acc)@) == lifecycles_model(old(acc)@) + lifecycles_model(src@),
{
    let ghost acc0 = lifecycles_model(acc@);
    let mut k: usize = 0;
    while k < src.len()
        invariant
            k <= src@.len(),
            lifecycles_model(acc@) == acc0 + lifecycles_model(src@).take(k as int),
        decreases src@.len() - k,
    {
        let ghost before = lifecycles_model(acc@);
        acc.push((clone_name(&src[k].0), src[k].1));
        proof {
            assert(lifecycles_model(acc@) =~= before.push(lifecycles_model(src@)[k as int]));
            assert(lifecycles_model(src@).take(k + 1) =~= lifecycles_model(src@).take(k as int).push(lifecycles_model(src@)[k as int]));
        }
        k += 1;
    }
    proof {
        assert(lifecycles_model(src@).take(k as int) =~= lifecycles_model(src@));
    }
}

/// Puts the required methods of `src` into `acc`, each replacing the one of
/// its name.
fn merge_required_into(acc: &mut Vec<Spanned<RequiredMethod>>, src: &Vec<Spanned<RequiredMethod>>)
    ensures
        requireds_model(final(acc)@) == merge_requires(requireds_model(old(acc)@), requireds_model(src@), src@.len() as int),
{
    let ghost acc0 = requireds_model(acc@);
    let ghost srcm = requireds_model(src@);
    let mut k: usize = 0;
    while k < src.len()
        invariant
            k <= src@.len(),
            srcm == requireds_model(src@),
            merge_requires(acc0, srcm, k as int) == requireds_model(acc@),
        decreases src@.len() - k,
    {
        let r = &src[k];
        let pos = find_required(acc, r.node.name.node.as_str());
        let ghost before = requireds_model(acc@);
        proof {
            assert(srcm[k as int] == required_model(*r));
        }
        match pos {
            Some(p) => {
                acc.set(p, clone_required(r));
                proof {
                    assert(requireds_model(acc@) =~= before.update(p as int, srcm[k as int]));
                }
            },
            None => {
                acc.push(clone_required(r));
                proof {
                    assert(requireds_model(acc@) =~= before.push(srcm[k as int]));
                }
            },
        }
        k += 1;
    }
}


/// Puts the methods of the stage named `stage` into `ms`, each replacing the
/// one of its name and taking its name off the required methods `rs`.
fn merge_methods_into(
    ms: &mut Vec<Spanned<StageMethod>>,
    rs: &mut Vec<Spanned<RequiredMethod>>,
    src: &Vec<Spanned<StageMethod>>,
    check_shadow: bool,
    stage: &str,
) -> (r: Result<(), CompileError>)
    ensures
        match merge_methods(methods_model(old(ms)@), requireds_model(old(rs)@), methods_model(src@), check_shadow, stage@, src@.len() as int) {
            Ok((a, b)) => r is Ok && methods_model(final(ms)@) == a && requireds_model(final(rs)@) == b,
            Err((m, sp)) => r matches Err(CompileError::Type { msg, span }) && msg@ == m && span == sp,
        },
{
    let ghost ms0 = methods_model(ms@);
    let ghost rs0 = requireds_model(rs@);
    let ghost srcm = methods_model(src@);
    let mut k: usize = 0;
    while k < src.len()
        invariant
            k <= src@.len(),
            srcm == methods_model(src@),
            ms0 == methods_model(old(ms)@),
            rs0 == requireds_model(old(rs)@),
            merge_methods(ms0, rs0, srcm, check_shadow, stage@, k as int)
                == Ok::<(Seq<Spanned<StageMethodM>>, Seq<Spanned<RequiredM>>), (Seq<char>, Span)>((methods_model(ms@), requireds_model(rs@))),
        decreases src@.len() - k,
    {
        let m = &src[k];
        let in_m = find_method(ms, m.node.name.node.as_str());
        let in_r = find_required(rs, m.node.name.node.as_str());
        let ghost msb = methods_model(ms@);
        let ghost rsb = requireds_model(rs@);
        proof {
            lemma_first_named(method_names(msb), m.node.name.node@, 0);
            lemma_first_named(required_names(rsb), m.node.name.node@, 0);
            assert(srcm[k as int] == method_model(*m));
            if method_names(msb).contains(m.node.name.node@) {
                let w = choose|w: int| 0 <= w < method_names(msb).len() && method_names(msb)[w] == m.node.name.node@;
            }
            if required_names(rsb).contains(m.node.name.node@) {
                let w = choose|w: int| 0 <= w < required_names(rsb).len() && required_names(rsb)[w] == m.node.name.node@;
            }
        }
        let defined = in_m.is_some() || in_r.is_some();
        if m.node.is_override && !defined {
            let mut msg = String::new();
            msg.append("'override fn ");
            msg.append(m.node.name.node.as_str());
            msg.append("' in stage '");
            msg.append(stage);
            msg.append("' does not override any method from parent stage");
            proof {
                reveal_strlit("'override fn ");
                reveal_strlit("' in stage '");
                reveal_strlit("' does not override any method from parent stage");
                lemma_merge_methods_err(ms0, rs0, srcm, check_shadow, stage@, k + 1, src@.len() as int);
            }
            return Err(CompileError::type_err(msg, m.node.name.span));
        }
        if !m.node.is_override && check_shadow && defined {
            let mut msg = String::new();
            msg.append("method '");
            msg.append(m.node.name.node.as_str());
            msg.append("' in stage '");
            msg.append(stage);
            msg.append("' shadows a parent method \u{2014} use 'override fn' to override");
            proof {
                reveal_strlit("method '");
                reveal_strlit("' in stage '");
                reveal_strlit("' shadows a parent method \u{2014} use 'override fn' to override");
                lemma_merge_methods_err(ms0, rs0, srcm, check_shadow, stage@, k + 1, src@.len() as int);
            }
            return Err(CompileError::type_err(msg, m.node.name.span));
        }
        if let Some(p) = in_r {
            rs.remove(p);
            proof {
                assert(requireds_model(rs@) =~= rsb.remove(p as int));
            }
        }
        match in_m {
            Some(p) => {
                ms.set(p, clone_method(m));
                proof {
                    assert(methods_model(ms@) =~= msb.update(p as int, srcm[k as int]));
                }
            },
            None => {
                ms.push(clone_method(m));
                proof {
                    assert(methods_model(ms@) =~= msb.push(srcm[k as int]));
                }
            },
        }
        k += 1;
    }
    Ok(())
}


/// Merges the stage at position `pos` of `order` into `st`, for the
/// flattening of stage `i`.
fn merge_source_into(st: &mut Merged, stages: &Vec<Spanned<StageDecl>>, i: usize, order: &Vec<usize>, pos: usize) -> (r: Result<(), CompileError>)
    requires
        i < stages@.len(),
        pos < order@.len(),
        forall|k: int| 0 <= k < order@.len() ==> order@[k] < stages@.len(),
    ensures
        match merge_source(stages_model(stages@), i as int, ints(order@), pos as int, old(st).model()) {
            Ok(m) => r is Ok && final(st).model() == m,
            Err((m, sp)) => r matches Err(CompileError::Type { msg, span }) && msg@ == m && span == sp,
        },
{
    let ghost ss = stages_model(stages@);
    let idx = order[pos];
    let src = &stages[idx].node;
    proof {
        assert(ss[idx as int].node == src.model());
        assert(ss[i as int].node.name.node == stages@[i as int].node.name.node@);
        assert(ints(order@)[pos as int] == idx as int);
        assert(ints(order@)[0] == order@[0] as int);
    }
    let r = merge_fields_into(&mut st.fields, &src.inject_fields, stages[i].node.name.node.as_str());
    if r.is_err() {
        return r;
    }
    merge_ambient_into(&mut st.ambient, &src.ambient_types);
    append_lifecycles(&mut st.lifecycles, &src.lifecycle_overrides);
    merge_required_into(&mut st.required, &src.required_methods);
    let check_shadow = idx != order[0] || src.parent.is_some();
    merge_methods_into(&mut st.methods, &mut st.required, &src.methods, check_shadow, src.name.node.as_str())
}

/// The stages of `order` merged, for the flattening of stage `i`.
fn merge_chain_exec(stages: &Vec<Spanned<StageDecl>>, i: usize, order: &Vec<usize>) -> (r: Result<Merged, CompileError>)
    requires
        i < stages@.len(),
        forall|k: int| 0 <= k < order@.len() ==> order@[k] < stages@.len(),
    ensures
        match merge_chain(stages_model(stages@), i as int, ints(order@), order@.len() as int) {
            Ok(m) => r matches Ok(x) && x.model() == m,
            Err((m, sp)) => r matches Err(CompileError::Type { msg, span }) && msg@ == m && span == sp,
        },
{
    let ghost ss = stages_model(stages@);
    let mut st = Merged {
        fields: Vec::new(),
        ambient: Vec::new(),
        lifecycles: Vec::new(),
        required: Vec::new(),
        methods: Vec::new(),
    };
    proof {
        assert(fields_model(st.fields@) =~= Seq::<FieldM>::empty());
        assert(names_model(st.ambient@) =~= Seq::<Spanned<Seq<char>>>::empty());
        assert(lifecycles_model(st.lifecycles@) =~= Seq::<(Spanned<Seq<char>>, Lifecycle)>::empty());
        assert(requireds_model(st.required@) =~= Seq::<Spanned<RequiredM>>::empty());
        assert(methods_model(st.methods@) =~= Seq::<Spanned<StageMethodM>>::empty());
    }
    let mut k: usize = 0;
    while k < order.len()
        invariant
            k <= order@.len(),
            i < stages@.len(),
            ss == stages_model(stages@),
            forall|j: int| 0 <= j < order@.len() ==> order@[j] < stages@.len(),
            merge_chain(ss, i as int, ints(order@), k as int) == Ok::<MergeM, (Seq<char>, Span)>(st.model()),
        decreases order@.len() - k,
    {
        let r = merge_source_into(&mut st, stages, i, order, k);
        match r {
            Err(e) => {
                proof {
                    lemma_merge_chain_err(ss, i as int, ints(order@), k + 1, order@.len() as int);
                }
                return Err(e);
            },
            Ok(()) => {},
        }
        k += 1;
    }
    Ok(st)
}

/// Stage `i` flattened along its ancestors `chain`, nearest first; `None`
/// where it inherits nothing and stays as it is.
fn flatten_one(stages: &Vec<Spanned<StageDecl>>, i: usize, chain: &Vec<usize>) -> (r: Result<Option<Spanned<StageDecl>>, CompileError>)
    requires
        i < stages@.len(),
        forall|k: int| 0 <= k < chain@.len() ==> chain@[k] < stages@.len(),
    ensures
        match flatten_stage(stages_model(stages@), i as int, ints(chain@)) {
            Ok(s) => r matches Ok(o) && match o {
                Some(x) => stage_model(x) == s,
                None => s == stages_model(stages@)[i as int],
            },
            Err((m, sp)) => r matches Err(CompileError::Type { msg, span }) && msg@ == m && span == sp,
        },
{
    let ghost ss = stages_model(stages@);
    if chain.len() == 0 && stages[i].node.parent.is_none() {
        return Ok(None);
    }
    let mut order: Vec<usize> = Vec::new();
    let mut k: usize = chain.len();
    while k > 0
        invariant
            k <= chain@.len(),
            forall|j: int| 0 <= j < chain@.len() ==> chain@[j] < stages@.len(),
            forall|j: int| 0 <= j < order@.len() ==> order@[j] < stages@.len(),
            ints(order@) == ints(chain@).subrange(k as int, chain@.len() as int).reverse(),
        decreases k,
    {
        let ghost before = ints(order@);
        let ghost old_order = order@;
        order.push(chain[k - 1]);
        proof {
            let n = chain@.len() as int;
            let target = ints(chain@).subrange(k - 1, n).reverse();
            assert(before.len() == n - k);
            assert(order@ == old_order.push(chain@[k - 1]));
            assert(ints(order@).len() == order@.len());
            assert(ints(order@).len() == target.len());
            assert forall|j: int| 0 <= j < target.len() implies ints(order@)[j] == target[j] by {
                assert(target[j] == ints(chain@)[n - 1 - j]);
                if j < before.len() {
                    assert(before[j] == ints(chain@).subrange(k as int, n).reverse()[j]);
                    assert(before[j] == ints(chain@)[n - 1 - j]);
                }
            }
            assert(ints(order@) =~= target);
        }
        k -= 1;
    }
    proof {
        assert(ints(chain@).subrange(0, chain@.len() as int) =~= ints(chain@));
    }
    order.push(i);
    proof {
        assert(ints(order@) =~= merge_order(ints(chain@), i as int));
    }
    let merged = match merge_chain_exec(stages, i, &order) {
        Ok(m) => m,
        Err(e) => {
            return Err(e);
        },
    };
    let s = Spanned {
        node: StageDecl {
            id: stages[i].node.id,
            name: clone_name(&stages[i].node.name),
            parent: clone_opt_name(&stages[i].node.parent),
            inject_fields: merged.fields,
            ambient_types: merged.ambient,
            lifecycle_overrides: merged.lifecycles,
            required_methods: merged.required,
            methods: merged.methods,
        },
        span: stages[i].span,
    };
    Ok(Some(s))
}


// ── The whole flattening ────────────────────────────────────────────

/// The ancestors of stage `i`, nearest first (none where its chain is circular).
pub open spec fn chain_of(ss: Seq<Spanned<StageM>>, i: int) -> Seq<int> {
    match ancestry(ss, i) {
        Ok(c) => c,
        Err(_) => Seq::empty(),
    }
}

/// Stage `i` flattened along its ancestors.
pub open spec fn flattened(ss: Seq<Spanned<StageM>>, i: int) -> Result<Spanned<StageM>, (Seq<char>, Span)> {
    flatten_stage(ss, i, chain_of(ss, i))
}

/// The first stage, from `i` on, whose flattening fails.
pub open spec fn first_merge_error(ss: Seq<Spanned<StageM>>, i: int) -> Option<int>
    decreases ss.len() - i,
{
    if i >= ss.len() {
        None
    } else if flattened(ss, i) is Err {
        Some(i)
    } else {
        first_merge_error(ss, i + 1)
    }
}

/// Stage `l` flattened, where that succeeds.
pub open spec fn flat_or_same(ss: Seq<Spanned<StageM>>, l: int) -> Spanned<StageM> {
    match flattened(ss, l) {
        Ok(s) => s,
        Err(_) => ss[l],
    }
}

/// The stages with those before `j` flattened.
pub open spec fn flattened_before(ss: Seq<Spanned<StageM>>, j: int) -> Seq<Spanned<StageM>> {
    Seq::new(ss.len(), |l: int| if l < j { flat_or_same(ss, l) } else { ss[l] })
}

/// A stage is concrete when no method it requires is left undefined.
pub open spec fn is_concrete() -> spec_fn(Spanned<StageM>) -> bool {
    |s: Spanned<StageM>| s.node.required_methods.len() == 0
}

/// The outcome of flattening: the stages after it, or the error with the
/// stages as it leaves them.
pub enum FlattenM {
    Done(Seq<Spanned<StageM>>),
    Failed { msg: Seq<char>, span: Span, stages: Seq<Spanned<StageM>> },
}

/// Flattening the stages `ss`: every parent must name a stage and no chain of
/// parents may be circular (checked for all stages before anything changes);
/// then each stage in turn is flattened along its ancestors, and at last the
/// stages that still require a method are dropped.
pub open spec fn spec_flatten(ss: Seq<Spanned<StageM>>) -> FlattenM {
    match first_unknown_parent(ss, 0) {
        Some(i) => {
            let p = ss[i].node.parent->0;
            FlattenM::Failed { msg: unknown_parent_msg(ss[i].node.name.node, p.node), span: p.span, stages: ss }
        },
        None => match first_cycle(ss, 0) {
            Some(i) => match ancestry(ss, i) {
                Err(sp) => FlattenM::Failed { msg: cycle_msg(ss[i].node.name.node), span: sp, stages: ss },
                Ok(_) => FlattenM::Done(ss),
            },
            None => match first_merge_error(ss, 0) {
                Some(j) => match flattened(ss, j) {
                    Err((m, sp)) => FlattenM::Failed { msg: m, span: sp, stages: flattened_before(ss, j) },
                    Ok(_) => FlattenM::Done(ss),
                },
                None => FlattenM::Done(flattened_before(ss, ss.len() as int).filter(is_concrete())),
            },
        },
    }
}


/// Flattens stage inheritance: checks that every parent names a stage and
/// that no chain of parents is circular, then gives each stage with a parent
/// the injected fields, ambient types, lifecycle overrides, required methods
/// and methods of its chain, root first, and drops the stages that still
/// require a method.
pub fn flatten_stage_hierarchy(stages: &mut Vec<Spanned<StageDecl>>) -> (r: Result<(), CompileError>)
    ensures
        match spec_flatten(stages_model(old(stages)@)) {
            FlattenM::Done(ss) => r is Ok && stages_model(final(stages)@) == ss,
            FlattenM::Failed { msg, span, stages: ss } => (r matches Err(CompileError::Type { msg: m, span: sp }) && m@ == msg && sp == span)
                && stages_model(final(stages)@) == ss,
        },
{
    let ghost ss = stages_model(stages@);
    let n = stages.len();
    match check_parents(stages) {
        Err(e) => {
            return Err(e);
        },
        Ok(()) => {},
    }
    // The ancestors of every stage, nearest first.
    let mut chains: Vec<Vec<usize>> = Vec::new();
    let mut i: usize = 0;
    while i < n
        invariant
            n == stages@.len(),
            ss == stages_model(stages@),
            i <= n,
            first_unknown_parent(ss, 0) is None,
            first_cycle(ss, 0) == first_cycle(ss, i as int),
            chains@.len() == i,
            forall|j: int| 0 <= j < i ==> ints(#[trigger] chains@[j]@) == chain_of(ss, j),
            forall|j: int, k: int| 0 <= j < i && 0 <= k < chains@[j]@.len() ==> #[trigger] chains@[j]@[k] < n,
        decreases n - i,
    {
        match stage_ancestry(stages, i) {
            Ok(c) => {
                chains.push(c);
            },
            Err(e) => {
                return Err(e);
            },
        }
        i += 1;
    }
    // Each stage flattened, up to the first that fails.
    let mut news: Vec<Option<Spanned<StageDecl>>> = Vec::new();
    let mut failure: Option<CompileError> = None;
    let mut i: usize = 0;
    while i < n && failure.is_none()
        invariant
            n == stages@.len(),
            ss == stages_model(stages@),
            i <= n,
            first_unknown_parent(ss, 0) is None,
            first_cycle(ss, 0) is None,
            chains@.len() == n,
            forall|j: int| 0 <= j < n ==> ints(#[trigger] chains@[j]@) == chain_of(ss, j),
            forall|j: int, k: int| 0 <= j < n && 0 <= k < chains@[j]@.len() ==> #[trigger] chains@[j]@[k] < n,
            news@.len() == i,
            forall|j: int| 0 <= j < i ==> match #[trigger] news@[j] {
                Some(x) => stage_model(x) == flat_or_same(ss, j),
                None => flat_or_same(ss, j) == ss[j],
            },
            failure is None ==> first_merge_error(ss, 0) == first_merge_error(ss, i as int),
            failure is Some ==> i < n && first_merge_error(ss, 0) == Some(i as int),
            failure matches Some(CompileError::Type { msg, span }) ==> flattened(ss, i as int) == Err::<Spanned<StageM>, (Seq<char>, Span)>((msg@, span)),
            failure is Some ==> failure->0 is Type,
        decreases n - i + (if failure is None { 1int } else { 0int }),
    {
        match flatten_one(stages, i, &chains[i]) {
            Ok(o) => {
                news.push(o);
                i += 1;
            },
            Err(e) => {
                failure = Some(e);
            },
        }
    }
    // Write back what was flattened.
    let ghost stop = i as int;
    while news.len() > 0
        invariant
            n == stages@.len(),
            news@.len() <= stop <= n,
            forall|j: int| 0 <= j < news@.len() ==> match #[trigger] news@[j] {
                Some(x) => stage_model(x) == flat_or_same(ss, j),
                None => flat_or_same(ss, j) == ss[j],
            },
            forall|l: int| 0 <= l < n ==> #[trigger] stages_model(stages@)[l] == (if news@.len() <= l < stop { flat_or_same(ss, l) } else { ss[l] }),
        decreases news@.len(),
    {
        let ghost before_news = news@;
        let o = news.pop();
        let j = news.len();
        proof {
            assert(news@.len() == j);
            assert(forall|l: int| 0 <= l < j ==> news@[l] == before_news[l]);
        }
        let ghost before_stages = stages_model(stages@);
        match o {
            Some(Some(s)) => {
                stages.set(j, s);
                proof {
                    assert(stages_model(stages@) =~= before_stages.update(j as int, stage_model(s)));
                }
            },
            _ => {},
        }
    }
    proof {
        assert(stages_model(stages@) =~= flattened_before(ss, stop));
    }
    match failure {
        Some(e) => {
            return Err(e);
        },
        None => {},
    }
    // Drop the stages that still require a method.
    let ghost flat = stages_model(stages@);
    let mut k: usize = 0;
    let mut w: usize = 0;
    while k < n
        invariant
            k <= n,
            flat.len() == n,
            w == flat.take(k as int).filter(is_concrete()).len(),
            stages_model(stages@) == flat.take(k as int).filter(is_concrete()) + flat.skip(k as int),
        decreases n - k,
    {
        let ghost before = stages_model(stages@);
        proof {
            assert(before.len() == stages@.len());
            assert(flat.take(k + 1) =~= flat.take(k as int).push(flat[k as int]));
            flat.take(k as int).lemma_filter_push(flat[k as int], is_concrete());
            assert(before[w as int] == flat[k as int]);
        }
        if stages[w].node.required_methods.len() == 0 {
            proof {
                assert(before =~= flat.take(k + 1).filter(is_concrete()) + flat.skip(k + 1));
            }
            w += 1;
        } else {
            stages.remove(w);
            proof {
                assert(stages_model(stages@) =~= before.remove(w as int));
                assert(stages_model(stages@) =~= flat.take(k + 1).filter(is_concrete()) + flat.skip(k + 1));
            }
        }
        k += 1;
    }
    proof {
        assert(flat.take(n as int) =~= flat);
        assert(flat.skip(n as int) =~= Seq::<Spanned<StageM>>::empty());
        assert(stages_model(stages@) =~= flat.filter(is_concrete()));
    }
    Ok(())
}

// ── Lemmas on names ─────────────────────────────────────────────────

proof fn lemma_last_named(ss: Seq<Spanned<StageM>>, x: Seq<char>, k: int)
    requires
        0 <= k <= ss.len(),
    ensures
        -1 <= last_named(ss, x, k) < k,
        last_named(ss, x, k) >= 0 ==> ss[last_named(ss, x, k)].node.name.node == x,
        last_named(ss, x, k) == -1 <==> !stage_names(ss).take(k).contains(x),
    decreases k,
{
    if k > 0 {
        lemma_last_named(ss, x, k - 1);
        assert(stage_names(ss).take(k).drop_last() =~= stage_names(ss).take(k - 1));
        if ss[k - 1].node.name.node == x {
            assert(stage_names(ss).take(k)[k - 1] == x);
        } else if stage_names(ss).take(k).contains(x) {
            let m = choose|m: int| 0 <= m < k && stage_names(ss).take(k)[m] == x;
            assert(stage_names(ss).take(k - 1)[m] == x);
        }
    }
}

/// Once merging fields fails, it fails the same way with more fields.
proof fn lemma_merge_fields_err(acc: Seq<FieldM>, src: Seq<FieldM>, stage: Seq<char>, k: int, n: int)
    requires
        0 <= k <= n,
        merge_fields(acc, src, stage, k) is Err,
    ensures
        merge_fields(acc, src, stage, n) == merge_fields(acc, src, stage, k),
    decreases n - k,
{
    if k < n {
        lemma_merge_fields_err(acc, src, stage, k, n - 1);
    }
}

/// Once merging methods fails, it fails the same way with more methods.
proof fn lemma_merge_methods_err(
    ms: Seq<Spanned<StageMethodM>>,
    rs: Seq<Spanned<RequiredM>>,
    src: Seq<Spanned<StageMethodM>>,
    check_shadow: bool,
    stage: Seq<char>,
    k: int,
    n: int,
)
    requires
        0 <= k <= n,
        merge_methods(ms, rs, src, check_shadow, stage, k) is Err,
    ensures
        merge_methods(ms, rs, src, check_shadow, stage, n) == merge_methods(ms, rs, src, check_shadow, stage, k),
    decreases n - k,
{
    if k < n {
        lemma_merge_methods_err(ms, rs, src, check_shadow, stage, k, n - 1);
    }
}

/// Once merging a chain fails, it fails the same way with more stages.
proof fn lemma_merge_chain_err(ss: Seq<Spanned<StageM>>, i: int, order: Seq<int>, k: int, n: int)
    requires
        0 <= k <= n,
        merge_chain(ss, i, order, k) is Err,
    ensures
        merge_chain(ss, i, order, n) == merge_chain(ss, i, order, k),
    decreases n - k,
{
    if k < n {
        lemma_merge_chain_err(ss, i, order, k, n - 1);
    }
}

/// A list of distinct names, each a stage name, is no longer than the list of stages.
proof fn lemma_distinct_names_bounded(v: Seq<Seq<char>>, ss: Seq<Spanned<StageM>>)
    requires
        v.no_duplicates(),
        forall|k: int| 0 <= k < v.len() ==> stage_names(ss).contains(#[trigger] v[k]),
    ensures
        v.len() <= ss.len(),
{
    let all = stage_names(ss);
    v.unique_seq_to_set();
    all.lemma_cardinality_of_set();
    assert(v.to_set().subset_of(all.to_set())) by {
        assert forall|x: Seq<char>| v.to_set().contains(x) implies all.to_set().contains(x) by {
            let k = choose|k: int| 0 <= k < v.len() && v[k] == x;
            assert(stage_names(ss).contains(v[k]));
        }
    }
    vstd::set_lib::lemma_len_subset(v.to_set(), all.to_set());
}

// ── Executable steps ────────────────────────────────────────────────

/// The position of the last stage named `name`.
fn stage_position(stages: &Vec<Spanned<StageDecl>>, name: &str) -> (r: Option<usize>)
    ensures
        match r {
            Some(j) => j as int == parent_index(stages_model(stages@), name@) && j < stages@.len(),
            None => parent_index(stages_model(stages@), name@) == -1,
        },
{
    let ghost ss = stages_model(stages@);
    let mut k: usize = stages.len();
    while k > 0
        invariant
            k <= stages@.len(),
            ss == stages_model(stages@),
            last_named(ss, name@, k as int) == parent_index(ss, name@),
        decreases k,
    {
        if str_eq(stages[k - 1].node.name.node.as_str(), name) {
            return Some(k - 1);
        }
        k -= 1;
    }
    None
}

/// Checks that every parent names a stage.
fn check_parents(stages: &Vec<Spanned<StageDecl>>) -> (r: Result<(), CompileError>)
    ensures
        match first_unknown_parent(stages_model(stages@), 0) {
            None => r is Ok,
            Some(i) => {
                let ss = stages_model(stages@);
                let p = ss[i].node.parent->0;
                r matches Err(CompileError::Type { msg, span }) && msg@ == unknown_parent_msg(ss[i].node.name.node, p.node) && span == p.span
            },
        },
{
    let ghost ss = stages_model(stages@);
    let mut i: usize = 0;
    while i < stages.len()
        invariant
            i <= stages@.len(),
            ss == stages_model(stages@),
            first_unknown_parent(ss, 0) == first_unknown_parent(ss, i as int),
        decreases stages@.len() - i,
    {
        if let Some(p) = &stages[i].node.parent {
            let pos = stage_position(stages, p.node.as_str());
            proof {
                lemma_last_named(ss, p.node@, ss.len() as int);
                assert(stage_names(ss).take(ss.len() as int) =~= stage_names(ss));
            }
            if pos.is_none() {
                let mut msg = String::new();
                msg.append("stage '");
                msg.append(stages[i].node.name.node.as_str());
                msg.append("' inherits from unknown stage '");
                msg.append(p.node.as_str());
                msg.append("'");
                proof {
                    reveal_strlit("stage '");
                    reveal_strlit("' inherits from unknown stage '");
                    reveal_strlit("'");
                }
                return Err(CompileError::type_err(msg, p.span));
            }
        }
        i += 1;
    }
    Ok(())
}


/// Indices as integers.
pub open spec fn ints(v: Seq<usize>) -> Seq<int> {
    v.map_values(|x: usize| x as int)
}

proof fn lemma_parents_known(ss: Seq<Spanned<StageM>>, i: int)
    requires
        0 <= i,
        first_unknown_parent(ss, i) is None,
    ensures
        forall|j: int| i <= j < ss.len() ==> !has_unknown_parent(ss, #[trigger] ss[j].node),
    decreases ss.len() - i,
{
    if i < ss.len() {
        lemma_parents_known(ss, i + 1);
    }
}

/// The ancestors of stage `i`, nearest first; an error where its chain of
/// parents is circular.
fn stage_ancestry(stages: &Vec<Spanned<StageDecl>>, i: usize) -> (r: Result<Vec<usize>, CompileError>)
    requires
        i < stages@.len(),
        first_unknown_parent(stages_model(stages@), 0) is None,
    ensures
        r matches Ok(v) ==> forall|k: int| 0 <= k < v@.len() ==> v@[k] < stages@.len(),
        match ancestry(stages_model(stages@), i as int) {
            Ok(c) => r matches Ok(v) && ints(v@) == c,
            Err(sp) => r matches Err(CompileError::Type { msg, span })
                && msg@ == cycle_msg(stages_model(stages@)[i as int].node.name.node) && span == sp,
        },
{
    let ghost ss = stages_model(stages@);
    proof {
        lemma_parents_known(ss, 0);
    }
    let mut visited: Vec<String> = Vec::new();
    visited.push(stages[i].node.name.node.clone());
    let mut chain: Vec<usize> = Vec::new();
    let mut cur: usize = i;
    let ghost mut fuel: nat = ss.len();
    proof {
        assert(names(visited@) =~= seq![ss[i as int].node.name.node]);
        assert(ints(chain@) =~= Seq::<int>::empty());
        assert(stage_names(ss)[i as int] == ss[i as int].node.name.node);
    }
    loop
        invariant
            ss == stages_model(stages@),
            i < ss.len(),
            cur < ss.len(),
            forall|j: int| 0 <= j < ss.len() ==> !has_unknown_parent(ss, #[trigger] ss[j].node),
            names(visited@).no_duplicates(),
            forall|k: int| 0 <= k < names(visited@).len() ==> stage_names(ss).contains(#[trigger] names(visited@)[k]),
            fuel == ss.len() + 1 - visited@.len(),
            forall|k: int| 0 <= k < chain@.len() ==> chain@[k] < stages@.len(),
            ancestry(ss, i as int) == prepend(ints(chain@), walk_up(ss, cur as int, names(visited@), fuel)),
        decreases fuel,
    {
        proof {
            lemma_distinct_names_bounded(names(visited@), ss);
        }
        match &stages[cur].node.parent {
            None => {
                proof {
                    assert(ints(chain@) + Seq::<int>::empty() =~= ints(chain@));
                }
                return Ok(chain);
            },
            Some(p) => {
                if names_contain(&visited, p.node.as_str()) {
                    let mut msg = String::new();
                    msg.append("circular stage inheritance: '");
                    msg.append(stages[i].node.name.node.as_str());
                    msg.append("' eventually inherits from itself");
                    proof {
                        reveal_strlit("circular stage inheritance: '");
                        reveal_strlit("' eventually inherits from itself");
                    }
                    return Err(CompileError::type_err(msg, p.span));
                }
                let pos = stage_position(stages, p.node.as_str());
                proof {
                    assert(!has_unknown_parent(ss, ss[cur as int].node));
                    lemma_last_named(ss, p.node@, ss.len() as int);
                    assert(stage_names(ss).take(ss.len() as int) =~= stage_names(ss));
                    let nv = names(visited@).push(p.node@);
                    assert forall|k: int| 0 <= k < nv.len() implies stage_names(ss).contains(#[trigger] nv[k]) by {
                        if k < names(visited@).len() {
                            assert(nv[k] == names(visited@)[k]);
                        }
                    }
                    lemma_distinct_names_bounded(nv, ss);
                }
                let j = match pos {
                    Some(j) => j,
                    None => {
                        proof {
                            assert(false);
                        }
                        return Ok(chain);
                    },
                };
                let ghost old_chain = ints(chain@);
                let ghost old_visited = names(visited@);
                visited.push(p.node.clone());
                chain.push(j);
                cur = j;
                proof {
                    fuel = (fuel - 1) as nat;
                    assert(names(visited@) =~= old_visited.push(p.node@));
                    assert(ints(chain@) =~= old_chain.push(j as int));
                    match walk_up(ss, j as int, names(visited@), fuel) {
                        Ok(rest) => {
                            assert(old_chain + (seq![j as int] + rest) =~= ints(chain@) + rest);
                        },
                        Err(e) => {},
                    }
                }
            },
        }
    }
}


// ── Laws ────────────────────────────────────────────────────────────

proof fn lemma_first_cycle_found(ss: Seq<Spanned<StageM>>, k: int)
    ensures
        first_cycle(ss, k) matches Some(i) ==> k <= i < ss.len() && ancestry(ss, i) is Err,
    decreases ss.len() - k,
{
    if k < ss.len() && ancestry(ss, k) is Ok {
        lemma_first_cycle_found(ss, k + 1);
    }
}

proof fn lemma_first_merge_error_found(ss: Seq<Spanned<StageM>>, k: int)
    ensures
        first_merge_error(ss, k) matches Some(i) ==> k <= i < ss.len() && flattened(ss, i) is Err,
    decreases ss.len() - k,
{
    if k < ss.len() && flattened(ss, k) is Ok {
        lemma_first_merge_error_found(ss, k + 1);
    }
}

/// Every stage left after a successful flattening defines all the methods its
/// chain requires: none is left abstract.
pub proof fn lemma_flattened_stages_are_concrete(ss: Seq<Spanned<StageM>>)
    ensures
        spec_flatten(ss) matches FlattenM::Done(out) ==> forall|k: int| 0 <= k < out.len()
            ==> (#[trigger] out[k]).node.required_methods.len() == 0,
{
    lemma_first_cycle_found(ss, 0);
    lemma_first_merge_error_found(ss, 0);
    if let FlattenM::Done(out) = spec_flatten(ss) {
        if first_unknown_parent(ss, 0) is None && first_cycle(ss, 0) is None && first_merge_error(ss, 0) is None {
            let flat = flattened_before(ss, ss.len() as int);
            assert forall|k: int| 0 <= k < out.len() implies (#[trigger] out[k]).node.required_methods.len() == 0 by {
                flat.lemma_filter_pred(is_concrete(), k);
            }
        }
    }
}

proof fn lemma_no_parents_no_unknown(ss: Seq<Spanned<StageM>>, i: int)
    requires
        0 <= i,
        forall|k: int| 0 <= k < ss.len() ==> (#[trigger] ss[k]).node.parent is None,
    ensures
        first_unknown_parent(ss, i) is None,
        first_cycle(ss, i) is None,
        first_merge_error(ss, i) is None,
    decreases ss.len() - i,
{
    if i < ss.len() {
        assert(ss[i].node.parent is None);
        assert(ancestry(ss, i) == Ok::<Seq<int>, Span>(Seq::empty()));
        assert(flattened(ss, i) == Ok::<Spanned<StageM>, (Seq<char>, Span)>(ss[i]));
        lemma_no_parents_no_unknown(ss, i + 1);
    }
}

/// Where no stage names a parent there is nothing to flatten: the stages stay
/// as they are, and only those that require a method are dropped.
pub proof fn lemma_flatten_without_parents(ss: Seq<Spanned<StageM>>)
    requires
        forall|k: int| 0 <= k < ss.len() ==> (#[trigger] ss[k]).node.parent is None,
    ensures
        spec_flatten(ss) == FlattenM::Done(ss.filter(is_concrete())),
{
    lemma_no_parents_no_unknown(ss, 0);
    let flat = flattened_before(ss, ss.len() as int);
    assert forall|l: int| 0 <= l < ss.len() implies flat[l] == ss[l] by {
        assert(ss[l].node.parent is None);
        assert(ancestry(ss, l) == Ok::<Seq<int>, Span>(Seq::empty()));
    }
    assert(flat =~= ss);
}


// ── Distinct names along a chain ────────────────────────────────────

/// The names that a merge keeps apart: injected fields, required methods and
/// methods, each without two of one name.
pub open spec fn merge_distinct(m: MergeM) -> bool {
    &&& fieldm_names(m.fields).no_duplicates()
    &&& required_names(m.required).no_duplicates()
    &&& method_names(m.methods).no_duplicates()
}

/// A stage whose injected fields, required methods and methods each have
/// distinct names.
pub open spec fn stage_distinct(s: StageM) -> bool {
    &&& fieldm_names(s.inject_fields).no_duplicates()
    &&& required_names(s.required_methods).no_duplicates()
    &&& method_names(s.methods).no_duplicates()
}

proof fn lemma_push_distinct(s: Seq<Seq<char>>, x: Seq<char>)
    requires
        s.no_duplicates(),
        !s.contains(x),
    ensures
        s.push(x).no_duplicates(),
{
    let t = s.push(x);
    assert forall|i: int, j: int| 0 <= i < t.len() && 0 <= j < t.len() && i != j implies t[i] != t[j] by {
        if i == s.len() {
            assert(s[j] != x) by {
                if s[j] == x {
                    assert(s.contains(x));
                }
            }
        } else if j == s.len() {
            assert(s[i] != x) by {
                if s[i] == x {
                    assert(s.contains(x));
                }
            }
        }
    }
}

proof fn lemma_remove_distinct(s: Seq<Seq<char>>, p: int)
    requires
        s.no_duplicates(),
        0 <= p < s.len(),
    ensures
        s.remove(p).no_duplicates(),
{
    let t = s.remove(p);
    assert forall|i: int, j: int| 0 <= i < t.len() && 0 <= j < t.len() && i != j implies t[i] != t[j] by {
        let i2 = if i < p { i } else { i + 1 };
        let j2 = if j < p { j } else { j + 1 };
        assert(t[i] == s[i2]);
        assert(t[j] == s[j2]);
    }
}

proof fn lemma_merge_fields_distinct(acc: Seq<FieldM>, src: Seq<FieldM>, stage: Seq<char>, k: int)
    requires
        fieldm_names(acc).no_duplicates(),
    ensures
        merge_fields(acc, src, stage, k) matches Ok(f) ==> fieldm_names(f).no_duplicates(),
    decreases k,
{
    if k > 0 {
        lemma_merge_fields_distinct(acc, src, stage, k - 1);
        if let Ok(a) = merge_fields(acc, src, stage, k - 1) {
            if !fieldm_names(a).contains(src[k - 1].name.node) {
                assert(fieldm_names(a.push(src[k - 1])) =~= fieldm_names(a).push(src[k - 1].name.node));
                lemma_push_distinct(fieldm_names(a), src[k - 1].name.node);
            }
        }
    }
}

proof fn lemma_required_insert_distinct(rs: Seq<Spanned<RequiredM>>, r: Spanned<RequiredM>)
    requires
        required_names(rs).no_duplicates(),
    ensures
        required_names(required_insert(rs, r)).no_duplicates(),
{
    lemma_first_named(required_names(rs), r.node.name.node, 0);
    match first_named(required_names(rs), r.node.name.node, 0) {
        Some(p) => {
            assert(required_names(rs.update(p, r)) =~= required_names(rs));
        },
        None => {
            assert(!required_names(rs).contains(r.node.name.node));
            assert(required_names(rs.push(r)) =~= required_names(rs).push(r.node.name.node));
            lemma_push_distinct(required_names(rs), r.node.name.node);
        },
    }
}

proof fn lemma_required_remove_distinct(rs: Seq<Spanned<RequiredM>>, name: Seq<char>)
    requires
        required_names(rs).no_duplicates(),
    ensures
        required_names(required_remove(rs, name)).no_duplicates(),
{
    lemma_first_named(required_names(rs), name, 0);
    if let Some(p) = first_named(required_names(rs), name, 0) {
        assert(required_names(rs.remove(p)) =~= required_names(rs).remove(p));
        lemma_remove_distinct(required_names(rs), p);
    }
}

proof fn lemma_method_insert_distinct(ms: Seq<Spanned<StageMethodM>>, m: Spanned<StageMethodM>)
    requires
        method_names(ms).no_duplicates(),
    ensures
        method_names(method_insert(ms, m)).no_duplicates(),
{
    lemma_first_named(method_names(ms), m.node.name.node, 0);
    match first_named(method_names(ms), m.node.name.node, 0) {
        Some(p) => {
            assert(method_names(ms.update(p, m)) =~= method_names(ms));
        },
        None => {
            assert(!method_names(ms).contains(m.node.name.node));
            assert(method_names(ms.push(m)) =~= method_names(ms).push(m.node.name.node));
            lemma_push_distinct(method_names(ms), m.node.name.node);
        },
    }
}

proof fn lemma_merge_requires_distinct(acc: Seq<Spanned<RequiredM>>, src: Seq<Spanned<RequiredM>>, k: int)
    requires
        required_names(acc).no_duplicates(),
    ensures
        required_names(merge_requires(acc, src, k)).no_duplicates(),
    decreases k,
{
    if k > 0 {
        lemma_merge_requires_distinct(acc, src, k - 1);
        lemma_required_insert_distinct(merge_requires(acc, src, k - 1), src[k - 1]);
    }
}

proof fn lemma_merge_methods_distinct(
    ms: Seq<Spanned<StageMethodM>>,
    rs: Seq<Spanned<RequiredM>>,
    src: Seq<Spanned<StageMethodM>>,
    check_shadow: bool,
    stage: Seq<char>,
    k: int,
)
    requires
        method_names(ms).no_duplicates(),
        required_names(rs).no_duplicates(),
    ensures
        merge_methods(ms, rs, src, check_shadow, stage, k) matches Ok((a, b))
            ==> method_names(a).no_duplicates() && required_names(b).no_duplicates(),
    decreases k,
{
    if k > 0 {
        lemma_merge_methods_distinct(ms, rs, src, check_shadow, stage, k - 1);
        if let Ok((ms1, rs1)) = merge_methods(ms, rs, src, check_shadow, stage, k - 1) {
            lemma_method_insert_distinct(ms1, src[k - 1]);
            lemma_required_remove_distinct(rs1, src[k - 1].node.name.node);
        }
    }
}

proof fn lemma_merge_chain_distinct(ss: Seq<Spanned<StageM>>, i: int, order: Seq<int>, k: int)
    ensures
        merge_chain(ss, i, order, k) matches Ok(m) ==> merge_distinct(m),
    decreases k,
{
    if k <= 0 {
        assert(fieldm_names(empty_merge().fields) =~= Seq::<Seq<char>>::empty());
        assert(required_names(empty_merge().required) =~= Seq::<Seq<char>>::empty());
        assert(method_names(empty_merge().methods) =~= Seq::<Seq<char>>::empty());
    } else {
        lemma_merge_chain_distinct(ss, i, order, k - 1);
        if let Ok(st) = merge_chain(ss, i, order, k - 1) {
            let src = ss[order[k - 1]].node;
            lemma_merge_fields_distinct(st.fields, src.inject_fields, ss[i].node.name.node, src.inject_fields.len() as int);
            lemma_merge_requires_distinct(st.required, src.required_methods, src.required_methods.len() as int);
            let reqs = merge_requires(st.required, src.required_methods, src.required_methods.len() as int);
            let check_shadow = order[k - 1] != order[0] || src.parent is Some;
            lemma_merge_methods_distinct(st.methods, reqs, src.methods, check_shadow, src.name.node, src.methods.len() as int);
        }
    }
}

proof fn lemma_no_merge_error(ss: Seq<Spanned<StageM>>, k: int)
    requires
        0 <= k,
        first_merge_error(ss, k) is None,
    ensures
        forall|l: int| k <= l < ss.len() ==> (#[trigger] flattened(ss, l)) is Ok,
    decreases ss.len() - k,
{
    if k < ss.len() {
        lemma_no_merge_error(ss, k + 1);
    }
}

/// After a successful flattening, every stage that inherits from a parent has
/// injected fields, required methods and methods of distinct names: what its
/// chain defines under one name, it holds once.
pub proof fn lemma_flattened_names_distinct(ss: Seq<Spanned<StageM>>)
    ensures
        spec_flatten(ss) matches FlattenM::Done(out) ==> forall|k: int| 0 <= k < out.len()
            && (#[trigger] out[k]).node.parent is Some ==> stage_distinct(out[k].node),
{
    lemma_first_cycle_found(ss, 0);
    lemma_first_merge_error_found(ss, 0);
    if let FlattenM::Done(out) = spec_flatten(ss) {
        if first_unknown_parent(ss, 0) is None && first_cycle(ss, 0) is None && first_merge_error(ss, 0) is None {
            let flat = flattened_before(ss, ss.len() as int);
            lemma_no_merge_error(ss, 0);
            assert forall|k: int| 0 <= k < out.len() && (#[trigger] out[k]).node.parent is Some implies stage_distinct(out[k].node) by {
                assert(out.contains(out[k]));
                flat.lemma_filter_contains_rev(is_concrete(), out[k]);
                let l = choose|l: int| 0 <= l < flat.len() && flat[l] == out[k];
                assert(flattened(ss, l) is Ok);
                let chain = chain_of(ss, l);
                let order = merge_order(chain, l);
                lemma_merge_chain_distinct(ss, l, order, order.len() as int);
            }
        }
    }
}


// ── What a chain passes down ────────────────────────────────────────

/// The injected fields of the first `k` stages of `order`, one stage after another.
pub open spec fn chain_fields(ss: Seq<Spanned<StageM>>, order: Seq<int>, k: int) -> Seq<FieldM>
    decreases k,
{
    if k <= 0 {
        Seq::empty()
    } else {
        chain_fields(ss, order, k - 1) + ss[order[k - 1]].node.inject_fields
    }
}

/// The lifecycle overrides of the first `k` stages of `order`, one stage after another.
pub open spec fn chain_lifecycles(ss: Seq<Spanned<StageM>>, order: Seq<int>, k: int) -> Seq<(Spanned<Seq<char>>, Lifecycle)>
    decreases k,
{
    if k <= 0 {
        Seq::empty()
    } else {
        chain_lifecycles(ss, order, k - 1) + ss[order[k - 1]].node.lifecycle_overrides
    }
}

proof fn lemma_merge_fields_appends(acc: Seq<FieldM>, src: Seq<FieldM>, stage: Seq<char>, k: int)
    requires
        0 <= k <= src.len(),
    ensures
        merge_fields(acc, src, stage, k) matches Ok(f) ==> f == acc + src.take(k),
    decreases k,
{
    if k > 0 {
        lemma_merge_fields_appends(acc, src, stage, k - 1);
        if let Ok(a) = merge_fields(acc, src, stage, k - 1) {
            assert(acc + src.take(k) =~= (acc + src.take(k - 1)).push(src[k - 1]));
        }
    } else {
        assert(acc + src.take(0) =~= acc);
    }
}

proof fn lemma_merge_chain_concatenates(ss: Seq<Spanned<StageM>>, i: int, order: Seq<int>, k: int)
    ensures
        merge_chain(ss, i, order, k) matches Ok(m) ==> m.fields == chain_fields(ss, order, k)
            && m.lifecycles == chain_lifecycles(ss, order, k),
    decreases k,
{
    if k > 0 {
        lemma_merge_chain_concatenates(ss, i, order, k - 1);
        if let Ok(st) = merge_chain(ss, i, order, k - 1) {
            let src = ss[order[k - 1]].node;
            lemma_merge_fields_appends(st.fields, src.inject_fields, ss[i].node.name.node, src.inject_fields.len() as int);
            assert(src.inject_fields.take(src.inject_fields.len() as int) =~= src.inject_fields);
        }
    } else {
        assert(empty_merge().fields =~= chain_fields(ss, order, 0));
        assert(empty_merge().lifecycles =~= chain_lifecycles(ss, order, 0));
    }
}

/// A stage that inherits receives the injected fields and the lifecycle
/// overrides of its whole chain, root first and itself last, each stage's in
/// their own order.
pub proof fn lemma_flatten_passes_down_fields(ss: Seq<Spanned<StageM>>, i: int)
    ensures
        ({
            let order = merge_order(chain_of(ss, i), i);
            flattened(ss, i) matches Ok(s) ==> ((chain_of(ss, i).len() > 0 || ss[i].node.parent is Some)
                ==> s.node.inject_fields == chain_fields(ss, order, order.len() as int)
                && s.node.lifecycle_overrides == chain_lifecycles(ss, order, order.len() as int))
        }),
{
    let order = merge_order(chain_of(ss, i), i);
    lemma_merge_chain_concatenates(ss, i, order, order.len() as int);
}

} // verus!
