//! Support for the reflection functions generated for each type.

use vstd::prelude::*;
use vstd::string::StringExecFns;
use crate::span::Span;
use crate::typeck::types::PlutoType;
use crate::typeck::types::PlutoTypeM;
use crate::typeck::env::TypeEnv;
use crate::typeck::env::EnumInfo;
use crate::span::Spanned;
use crate::parser::ast::Block;
use crate::parser::ast::Expr;
use crate::parser::ast::Function;
use crate::parser::ast::Stmt;
use crate::parser::ast::TypeExpr;
use crate::parser::ast::TypeExprM;
use crate::parser::ast::fresh_id;
use crate::parser::ast::uuid_version;
use crate::diagnostics::CompileError;

verus! {

/// The span given to generated code, which has no source text.
pub fn synthetic_span() -> (s: Span)
    ensures
        s == (Span { start: 0, end: 0, file_id: 0 }),
{
    Span { start: 0, end: 0, file_id: 0 }
}

// ── Debug text of types ─────────────────────────────────────────────

/// The debug text of a string: the string in double quotes, with its special
/// characters escaped, as `{:?}` formats a `str`.
pub uninterp spec fn str_debug(s: Seq<char>) -> Seq<char>;

/// The `{:?}` text of a string slice, from std's `Debug` for `str`.
#[verifier::external_body]
fn debug_quoted(s: &str) -> (r: String)
    ensures
        r@ == str_debug(s@),
{
    format!("{:?}", s)
}

/// The debug text of a type, as the derived `Debug` of the compiler's type
/// enum writes it: the variant's name, then its fields in parentheses, names
/// quoted, lists in square brackets, separated by `", "`.
pub open spec fn pt_debug(t: PlutoTypeM) -> Seq<char>
    decreases t,
{
    match t {
        PlutoTypeM::Int => "Int"@,
        PlutoTypeM::Float => "Float"@,
        PlutoTypeM::Bool => "Bool"@,
        PlutoTypeM::Str => "String"@,
        PlutoTypeM::Void => "Void"@,
        PlutoTypeM::Byte => "Byte"@,
        PlutoTypeM::Bytes => "Bytes"@,
        PlutoTypeM::Class(n) => "Class("@ + str_debug(n) + ")"@,
        PlutoTypeM::Enum(n) => "Enum("@ + str_debug(n) + ")"@,
        PlutoTypeM::Trait(n) => "Trait("@ + str_debug(n) + ")"@,
        PlutoTypeM::Array(e) => "Array("@ + pt_debug(*e) + ")"@,
        PlutoTypeM::Func(ps, r) => "Fn(["@ + pt_debug_join(ps) + "], "@ + pt_debug(*r) + ")"@,
        PlutoTypeM::MapOf(k, v) => "Map("@ + pt_debug(*k) + ", "@ + pt_debug(*v) + ")"@,
        PlutoTypeM::SetOf(e) => "Set("@ + pt_debug(*e) + ")"@,
        PlutoTypeM::Task(e) => "Task("@ + pt_debug(*e) + ")"@,
        PlutoTypeM::Sender(e) => "Sender("@ + pt_debug(*e) + ")"@,
        PlutoTypeM::Receiver(e) => "Receiver("@ + pt_debug(*e) + ")"@,
        PlutoTypeM::Nullable(e) => "Nullable("@ + pt_debug(*e) + ")"@,
        PlutoTypeM::Stream(e) => "Stream("@ + pt_debug(*e) + ")"@,
    }
}

/// The debug texts of a sequence of types, separated by `", "`.
pub open spec fn pt_debug_join(s: Seq<PlutoTypeM>) -> Seq<char>
    decreases s,
{
    if s.len() == 0 {
        Seq::empty()
    } else if s.len() == 1 {
        pt_debug(s[0])
    } else {
        pt_debug_join(s.drop_last()) + ", "@ + pt_debug(s.last())
    }
}

proof fn lemma_pt_debug_join_take_step(s: Seq<PlutoTypeM>, i: int)
    requires
        0 <= i < s.len(),
    ensures
        pt_debug_join(s.take(i + 1)) == (if i == 0 { pt_debug(s[0]) } else { pt_debug_join(s.take(i)) + ", "@ + pt_debug(s[i]) }),
{
    assert(s.take(i + 1).drop_last() =~= s.take(i));
}

fn wrap(head: &str, inner: String) -> (r: String)
    ensures
        r@ == head@ + inner@ + ")"@,
{
    let mut out = String::from_str(head);
    out.append(inner.as_str());
    out.append(")");
    out
}

/// The debug text of a type.
#[verifier::loop_isolation(false)]
pub fn pt_debug_text(t: &PlutoType) -> (r: String)
    ensures
        r@ == pt_debug(t.model()),
    decreases t,
{
    match t {
        PlutoType::Int => String::from_str("Int"),
        PlutoType::Float => String::from_str("Float"),
        PlutoType::Bool => String::from_str("Bool"),
        PlutoType::String => String::from_str("String"),
        PlutoType::Void => String::from_str("Void"),
        PlutoType::Byte => String::from_str("Byte"),
        PlutoType::Bytes => String::from_str("Bytes"),
        PlutoType::Class(n) => wrap("Class(", debug_quoted(n.as_str())),
        PlutoType::Enum(n) => wrap("Enum(", debug_quoted(n.as_str())),
        PlutoType::Trait(n) => wrap("Trait(", debug_quoted(n.as_str())),
        PlutoType::Array(e) => wrap("Array(", pt_debug_text(e)),
        PlutoType::Fn(ps, ret) => {
            let ghost ms = t.model()->Func_0;
            let mut out = String::from_str("Fn([");
            let ghost base = out@;
            let mut i: usize = 0;
            while i < ps.len()
                invariant
                    i <= ps.len(),
                    ms.len() == ps.len(),
                    forall|j: int| 0 <= j < ps.len() ==> ms[j] == #[trigger] ps@[j].model(),
                    out@ == base + pt_debug_join(ms.take(i as int)),
                decreases ps.len() - i,
            {
                proof {
                    lemma_pt_debug_join_take_step(ms, i as int);
                    assert(decreases_to!(t => ps@[i as int]));
                }
                if i > 0 {
                    out.append(", ");
                }
                let s = pt_debug_text(&ps[i]);
                out.append(s.as_str());
                i += 1;
                proof {
                    assert(out@ =~= base + pt_debug_join(ms.take(i as int)));
                }
            }
            proof {
                assert(ms.take(ps.len() as int) =~= ms);
            }
            out.append("], ");
            let r = pt_debug_text(ret);
            out.append(r.as_str());
            out.append(")");
            out
        },
        PlutoType::MapOf(k, v) => {
            let mut out = String::from_str("Map(");
            let ks = pt_debug_text(k);
            out.append(ks.as_str());
            out.append(", ");
            let vs = pt_debug_text(v);
            out.append(vs.as_str());
            out.append(")");
            out
        },
        PlutoType::SetOf(e) => wrap("Set(", pt_debug_text(e)),
        PlutoType::Task(e) => wrap("Task(", pt_debug_text(e)),
        PlutoType::Sender(e) => wrap("Sender(", pt_debug_text(e)),
        PlutoType::Receiver(e) => wrap("Receiver(", pt_debug_text(e)),
        PlutoType::Nullable(e) => wrap("Nullable(", pt_debug_text(e)),
        PlutoType::Stream(e) => wrap("Stream(", pt_debug_text(e)),
    }
}

// ── The kind function of an enum ────────────────────────────────────

/// What an environment knows of an enum's variants: each variant's name and
/// its fields' names and types.
pub open spec fn variants_info(v: Seq<(String, Vec<(String, PlutoType)>)>) -> Seq<(Seq<char>, Seq<(Seq<char>, PlutoTypeM)>)> {
    v.map_values(|x: (String, Vec<(String, PlutoType)>)|
        (x.0@, x.1@.map_values(|f: (String, PlutoType)| (f.0@, f.1.model()))))
}

/// The index of the first enum of that name the environment knows, if any.
pub open spec fn enum_info_index(infos: Seq<EnumInfo>, name: Seq<char>) -> Option<int> {
    if exists|i: int| 0 <= i < infos.len() && (#[trigger] infos[i]).name@ == name {
        Some(choose|i: int| 0 <= i < infos.len() && (#[trigger] infos[i]).name@ == name
            && forall|j: int| 0 <= j < i ==> (#[trigger] infos[j]).name@ != name)
    } else {
        None
    }
}

pub open spec fn synth(s: Span) -> bool {
    s == (Span { start: 0, end: 0, file_id: 0 })
}

/// A name at the synthetic span.
pub open spec fn sname(x: Spanned<String>, n: Seq<char>) -> bool {
    x.node@ == n && synth(x.span)
}

/// A struct-literal field `key: "val"`.
pub open spec fn str_field(f: (Spanned<String>, Spanned<Expr>), key: Seq<char>, val: Seq<char>) -> bool {
    &&& sname(f.0, key)
    &&& synth(f.1.span)
    &&& f.1.node matches Expr::StringLit(v) && v@ == val
}

/// `FieldInfo { name: "<name>", type_name: "<debug text>", offset: 0 }`.
pub open spec fn field_info_expr(e: Spanned<Expr>, name: Seq<char>, ty: PlutoTypeM) -> bool {
    &&& synth(e.span)
    &&& e.node matches Expr::StructLit { name: n, type_args, fields, target_id }
    &&& sname(n, "FieldInfo"@) && type_args@.len() == 0 && target_id is None && fields@.len() == 3
    &&& str_field(fields@[0], "name"@, name)
    &&& str_field(fields@[1], "type_name"@, pt_debug(ty))
    &&& sname(fields@[2].0, "offset"@) && synth(fields@[2].1.span) && fields@[2].1.node == Expr::IntLit(0)
}

/// `VariantInfo { name: "<name>", fields: [FieldInfo ...] }`.
pub open spec fn variant_info_expr(e: Spanned<Expr>, name: Seq<char>, fs: Seq<(Seq<char>, PlutoTypeM)>) -> bool {
    &&& synth(e.span)
    &&& e.node matches Expr::StructLit { name: n, type_args, fields, target_id }
    &&& sname(n, "VariantInfo"@) && type_args@.len() == 0 && target_id is None && fields@.len() == 2
    &&& str_field(fields@[0], "name"@, name)
    &&& sname(fields@[1].0, "fields"@) && synth(fields@[1].1.span)
    &&& fields@[1].1.node matches Expr::ArrayLit { elements }
    &&& elements@.len() == fs.len()
    &&& forall|i: int| 0 <= i < fs.len() ==> #[trigger] field_info_expr(elements@[i], fs[i].0, fs[i].1)
}

/// `TypeKind.Enum { info: EnumInfo { name: "<name>", variants: [VariantInfo ...] } }`.
pub open spec fn enum_kind_expr(e: Spanned<Expr>, name: Seq<char>, vs: Seq<(Seq<char>, Seq<(Seq<char>, PlutoTypeM)>)>) -> bool {
    &&& synth(e.span)
    &&& e.node matches Expr::EnumData { enum_name, variant, type_args, fields, enum_id, variant_id }
    &&& sname(enum_name, "TypeKind"@) && sname(variant, "Enum"@) && type_args@.len() == 0
    &&& enum_id is None && variant_id is None && fields@.len() == 1
    &&& sname(fields@[0].0, "info"@) && synth(fields@[0].1.span)
    &&& fields@[0].1.node matches Expr::StructLit { name: n, type_args: ta, fields: ef, target_id }
    &&& sname(n, "EnumInfo"@) && ta@.len() == 0 && target_id is None && ef@.len() == 2
    &&& str_field(ef@[0], "name"@, name)
    &&& sname(ef@[1].0, "variants"@) && synth(ef@[1].1.span)
    &&& ef@[1].1.node matches Expr::ArrayLit { elements }
    &&& elements@.len() == vs.len()
    &&& forall|i: int| 0 <= i < vs.len() ==> #[trigger] variant_info_expr(elements@[i], vs[i].0, vs[i].1)
}

/// The generated `fn TypeInfo_kind_<name>() TypeKind { return <kind> }`, with a
/// fresh id, every span synthetic.
pub open spec fn kind_fn(f: Spanned<Function>, name: Seq<char>, vs: Seq<(Seq<char>, Seq<(Seq<char>, PlutoTypeM)>)>) -> bool {
    &&& synth(f.span)
    &&& uuid_version(f.node.id) == 4
    &&& sname(f.node.name, "TypeInfo_kind_"@ + name)
    &&& f.node.type_params@.len() == 0 && f.node.type_param_bounds@.len() == 0 && f.node.params@.len() == 0
    &&& f.node.return_type matches Some(rt) && synth(rt.span) && rt.node.model() == TypeExprM::Named("TypeKind"@)
    &&& f.node.contracts@.len() == 0
    &&& !f.node.is_pub && !f.node.is_override && !f.node.is_generator
    &&& synth(f.node.body.span) && f.node.body.node.stmts@.len() == 1
    &&& synth(f.node.body.node.stmts@[0].span)
    &&& f.node.body.node.stmts@[0].node matches Stmt::Return(Some(x)) && enum_kind_expr(x, name, vs)
}

/// The message of the error for an enum the environment does not know.
pub open spec fn enum_not_found_msg(name: Seq<char>) -> Seq<char> {
    "enum '"@ + name + "' not found during reflection generation"@
}

fn sp_name(s: &str) -> (r: Spanned<String>)
    ensures
        sname(r, s@),
{
    Spanned { node: String::from_str(s), span: synthetic_span() }
}

fn sp_expr(e: Expr) -> (r: Spanned<Expr>)
    ensures
        r.node == e && synth(r.span),
{
    Spanned { node: e, span: synthetic_span() }
}

fn field_info(name: &String, ty: &PlutoType) -> (r: Spanned<Expr>)
    ensures
        field_info_expr(r, name@, ty.model()),
{
    let mut fields: Vec<(Spanned<String>, Spanned<Expr>)> = Vec::new();
    fields.push((sp_name("name"), sp_expr(Expr::StringLit(name.clone()))));
    fields.push((sp_name("type_name"), sp_expr(Expr::StringLit(pt_debug_text(ty)))));
    fields.push((sp_name("offset"), sp_expr(Expr::IntLit(0))));
    sp_expr(Expr::StructLit { name: sp_name("FieldInfo"), type_args: Vec::new(), fields, target_id: None })
}

fn variant_info(name: &String, fs: &Vec<(String, PlutoType)>) -> (r: Spanned<Expr>)
    ensures
        variant_info_expr(r, name@, fs@.map_values(|f: (String, PlutoType)| (f.0@, f.1.model()))),
{
    let ghost m = fs@.map_values(|f: (String, PlutoType)| (f.0@, f.1.model()));
    let mut elements: Vec<Spanned<Expr>> = Vec::new();
    let mut i: usize = 0;
    while i < fs.len()
        invariant
            i <= fs.len(),
            m == fs@.map_values(|f: (String, PlutoType)| (f.0@, f.1.model())),
            elements@.len() == i,
            forall|j: int| 0 <= j < i ==> #[trigger] field_info_expr(elements@[j], m[j].0, m[j].1),
        decreases fs.len() - i,
    {
        elements.push(field_info(&fs[i].0, &fs[i].1));
        i += 1;
    }
    let mut fields: Vec<(Spanned<String>, Spanned<Expr>)> = Vec::new();
    fields.push((sp_name("name"), sp_expr(Expr::StringLit(name.clone()))));
    fields.push((sp_name("fields"), sp_expr(Expr::ArrayLit { elements })));
    sp_expr(Expr::StructLit { name: sp_name("VariantInfo"), type_args: Vec::new(), fields, target_id: None })
}

/// Generate `TypeInfo_kind_<name>()` for an enum the environment knows: a
/// function returning `TypeKind.Enum` with the enum's name and, for each
/// variant in order, its name and its fields' names and debug type texts.
/// Fails when the environment knows no enum of that name.
pub fn generate_kind_impl_for_enum(enum_name: &str, env: &TypeEnv) -> (r: Result<Spanned<Function>, CompileError>)
    ensures
        r is Err <==> enum_info_index(env.enum_infos@, enum_name@) is None,
        r matches Err(e) ==> e matches CompileError::Codegen { msg } && msg@ == enum_not_found_msg(enum_name@),
        r matches Ok(f) ==> kind_fn(f, enum_name@,
            variants_info(env.enum_infos@[enum_info_index(env.enum_infos@, enum_name@)->0].variants@)),
{
    let mut k: usize = 0;
    let mut found = false;
    while k < env.enum_infos.len() && !found
        invariant
            k <= env.enum_infos.len(),
            found ==> k < env.enum_infos.len() && env.enum_infos@[k as int].name@ == enum_name@,
            forall|j: int| 0 <= j < k ==> (#[trigger] env.enum_infos@[j]).name@ != enum_name@,
        decreases env.enum_infos.len() - k, (if found { 0int } else { 1int }),
    {
        if crate::text::str_eq(env.enum_infos[k].name.as_str(), enum_name) {
            found = true;
        } else {
            k += 1;
        }
    }
    if !found {
        let mut msg = String::from_str("enum '");
        msg.append(enum_name);
        msg.append("' not found during reflection generation");
        return Err(CompileError::codegen(msg));
    }
    let info = &env.enum_infos[k];
    proof {
        let infos = env.enum_infos@;
        assert(infos[k as int].name@ == enum_name@);
        assert(enum_info_index(infos, enum_name@) == Some(k as int));
    }
    let ghost vs = variants_info(info.variants@);
    let mut elements: Vec<Spanned<Expr>> = Vec::new();
    let mut i: usize = 0;
    while i < info.variants.len()
        invariant
            i <= info.variants.len(),
            vs == variants_info(info.variants@),
            elements@.len() == i,
            forall|j: int| 0 <= j < i ==> #[trigger] variant_info_expr(elements@[j], vs[j].0, vs[j].1),
        decreases info.variants.len() - i,
    {
        elements.push(variant_info(&info.variants[i].0, &info.variants[i].1));
        i += 1;
    }
    let mut info_fields: Vec<(Spanned<String>, Spanned<Expr>)> = Vec::new();
    info_fields.push((sp_name("name"), sp_expr(Expr::StringLit(String::from_str(enum_name)))));
    info_fields.push((sp_name("variants"), sp_expr(Expr::ArrayLit { elements })));
    let enum_info = Expr::StructLit { name: sp_name("EnumInfo"), type_args: Vec::new(), fields: info_fields, target_id: None };
    let mut kind_fields: Vec<(Spanned<String>, Spanned<Expr>)> = Vec::new();
    kind_fields.push((sp_name("info"), sp_expr(enum_info)));
    let kind = Expr::EnumData {
        enum_name: sp_name("TypeKind"),
        variant: sp_name("Enum"),
        type_args: Vec::new(),
        fields: kind_fields,
        enum_id: None,
        variant_id: None,
    };
    let mut stmts: Vec<Spanned<Stmt>> = Vec::new();
    stmts.push(Spanned { node: Stmt::Return(Some(sp_expr(kind))), span: synthetic_span() });
    let mut fname = String::from_str("TypeInfo_kind_");
    fname.append(enum_name);
    let function = Function {
        id: fresh_id(),
        name: Spanned { node: fname, span: synthetic_span() },
        type_params: Vec::new(),
        type_param_bounds: Vec::new(),
        params: Vec::new(),
        return_type: Some(Spanned { node: TypeExpr::Named(String::from_str("TypeKind")), span: synthetic_span() }),
        contracts: Vec::new(),
        body: Spanned { node: Block { stmts }, span: synthetic_span() },
        is_pub: false,
        is_override: false,
        is_generator: false,
    };
    Ok(Spanned { node: function, span: synthetic_span() })
}

// ── Shape of the debug text ─────────────────────────────────────────

/// The name of a type's variant as derived `Debug` prints it.
pub open spec fn debug_name(t: PlutoTypeM) -> Seq<char> {
    match t {
        PlutoTypeM::Int => "Int"@,
        PlutoTypeM::Float => "Float"@,
        PlutoTypeM::Bool => "Bool"@,
        PlutoTypeM::Str => "String"@,
        PlutoTypeM::Void => "Void"@,
        PlutoTypeM::Byte => "Byte"@,
        PlutoTypeM::Bytes => "Bytes"@,
        PlutoTypeM::Class(_) => "Class"@,
        PlutoTypeM::Enum(_) => "Enum"@,
        PlutoTypeM::Trait(_) => "Trait"@,
        PlutoTypeM::Array(_) => "Array"@,
        PlutoTypeM::SetOf(_) => "Set"@,
        PlutoTypeM::Task(_) => "Task"@,
        PlutoTypeM::Sender(_) => "Sender"@,
        PlutoTypeM::Receiver(_) => "Receiver"@,
        PlutoTypeM::Nullable(_) => "Nullable"@,
        PlutoTypeM::Stream(_) => "Stream"@,
        PlutoTypeM::Func(_, _) => "Fn"@,
        PlutoTypeM::MapOf(_, _) => "Map"@,
    }
}

/// Whether a type's variant carries fields.
pub open spec fn has_fields(t: PlutoTypeM) -> bool {
    !(t is Int || t is Float || t is Bool || t is Str || t is Void || t is Byte || t is Bytes)
}

/// The text of the one field of a variant that carries exactly one: a
/// quoted name, or a type's debug text.
pub open spec fn single_field_text(t: PlutoTypeM) -> Option<Seq<char>> {
    match t {
        PlutoTypeM::Class(x) => Some(str_debug(x)),
        PlutoTypeM::Enum(x) => Some(str_debug(x)),
        PlutoTypeM::Trait(x) => Some(str_debug(x)),
        PlutoTypeM::Array(e) => Some(pt_debug(*e)),
        PlutoTypeM::SetOf(e) => Some(pt_debug(*e)),
        PlutoTypeM::Task(e) => Some(pt_debug(*e)),
        PlutoTypeM::Sender(e) => Some(pt_debug(*e)),
        PlutoTypeM::Receiver(e) => Some(pt_debug(*e)),
        PlutoTypeM::Nullable(e) => Some(pt_debug(*e)),
        PlutoTypeM::Stream(e) => Some(pt_debug(*e)),
        _ => None,
    }
}

/// The debug text of every type starts with its variant's name; a variant
/// without fields is its name alone, and one with fields continues with `(`
/// and ends with `)`. For a variant with a single field, the text between
/// the parentheses is that field's text, so a type and the same type wrapped
/// (such as `int?` and `int`) never print alike.
pub proof fn lemma_pt_debug_shape(t: PlutoTypeM)
    ensures
        pt_debug(t).len() >= debug_name(t).len(),
        pt_debug(t).subrange(0, debug_name(t).len() as int) == debug_name(t),
        !has_fields(t) ==> pt_debug(t) == debug_name(t),
        has_fields(t) ==> pt_debug(t).len() >= debug_name(t).len() + 2
            && pt_debug(t)[debug_name(t).len() as int] == '('
            && pt_debug(t).last() == ')',
        t matches PlutoTypeM::MapOf(k, v) ==> pt_debug(t).subrange(4, 4 + pt_debug(*k).len() as int) == pt_debug(*k)
            && pt_debug(t).subrange(4 + pt_debug(*k).len() as int, 6 + pt_debug(*k).len() as int) == ", "@
            && pt_debug(t).subrange(pt_debug(t).len() - 1 - pt_debug(*v).len(), pt_debug(t).len() - 1) == pt_debug(*v),
        t matches PlutoTypeM::Func(ps, r) ==> pt_debug(t).subrange(0, 4) == "Fn(["@
            && pt_debug(t).subrange(4, 4 + pt_debug_join(ps).len() as int) == pt_debug_join(ps)
            && pt_debug(t).subrange(pt_debug(t).len() - 4 - pt_debug(*r).len(), pt_debug(t).len() - 1) == "], "@ + pt_debug(*r),
        single_field_text(t) matches Some(x) ==> pt_debug(t)
            == debug_name(t) + "("@ + x + ")"@
            && pt_debug(t).subrange(debug_name(t).len() as int + 1, pt_debug(t).len() - 1) == x
            && pt_debug(t).len() > x.len(),
{
    reveal_strlit("(");
    reveal_strlit("Fn([");
    reveal_strlit("[");
    reveal_strlit(")");
    reveal_strlit(", ");
    reveal_strlit("Array");
    reveal_strlit("Array(");
    reveal_strlit("Bool");
    reveal_strlit("Bool(");
    reveal_strlit("Byte");
    reveal_strlit("Byte(");
    reveal_strlit("Bytes");
    reveal_strlit("Bytes(");
    reveal_strlit("Class");
    reveal_strlit("Class(");
    reveal_strlit("Enum");
    reveal_strlit("Enum(");
    reveal_strlit("Float");
    reveal_strlit("Float(");
    reveal_strlit("Fn");
    reveal_strlit("Fn(");
    reveal_strlit("Fn([");
    reveal_strlit("Int");
    reveal_strlit("Int(");
    reveal_strlit("Map");
    reveal_strlit("Map(");
    reveal_strlit("Nullable");
    reveal_strlit("Nullable(");
    reveal_strlit("Receiver");
    reveal_strlit("Receiver(");
    reveal_strlit("Sender");
    reveal_strlit("Sender(");
    reveal_strlit("Set");
    reveal_strlit("Set(");
    reveal_strlit("Stream");
    reveal_strlit("Stream(");
    reveal_strlit("String");
    reveal_strlit("String(");
    reveal_strlit("Task");
    reveal_strlit("Task(");
    reveal_strlit("Trait");
    reveal_strlit("Trait(");
    reveal_strlit("Void");
    reveal_strlit("Void(");
    reveal_strlit("], ");
    let d = pt_debug(t);
    let nm = debug_name(t);
    match t {
        PlutoTypeM::Func(ps, r) => {
            assert(d =~= nm + "("@ + ("["@ + pt_debug_join(ps) + "], "@ + pt_debug(*r)) + ")"@);
            assert(d.subrange(0, 4) =~= "Fn(["@);
            assert(d.subrange(4, 4 + pt_debug_join(ps).len() as int) =~= pt_debug_join(ps));
            let head = "Fn(["@ + pt_debug_join(ps);
            let tail = "], "@ + pt_debug(*r);
            assert(d =~= head + tail + ")"@);
            assert(tail.len() == 3 + pt_debug(*r).len());
            assert(d.len() == head.len() + tail.len() + 1);
            assert(d.subrange(head.len() as int, head.len() + tail.len() as int) =~= tail);
            assert(head.len() == d.len() - 4 - pt_debug(*r).len());
        },
        PlutoTypeM::MapOf(k, v) => {
            assert(d =~= nm + "("@ + (pt_debug(*k) + ", "@ + pt_debug(*v)) + ")"@);
            assert(d.subrange(4, 4 + pt_debug(*k).len() as int) =~= pt_debug(*k));
            assert(d.subrange(4 + pt_debug(*k).len() as int, 6 + pt_debug(*k).len() as int) =~= ", "@);
            assert(d.subrange(d.len() - 1 - pt_debug(*v).len(), d.len() - 1) =~= pt_debug(*v));
        },
        _ => {
            if single_field_text(t) is Some {
                let x = single_field_text(t)->0;
                assert(d =~= nm + "("@ + x + ")"@);
                assert(d.subrange(nm.len() as int + 1, d.len() - 1) =~= x);
            }
        },
    }
    if has_fields(t) {
        assert(d.subrange(0, nm.len() as int) =~= nm);
    }
}

} // verus!
