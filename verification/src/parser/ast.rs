use vstd::prelude::*;
use crate::span::Span;
use crate::span::Spanned;
use crate::text::join_with;
use vstd::string::StringExecFns;
use uuid::Uuid;

verus! {

#[derive(Debug, Clone)]
pub struct TestInfo {
    pub display_name: String,
    pub fn_name: String,
}

#[derive(Debug, Clone)]
pub struct ImportDecl {
    pub path: Vec<Spanned<String>>,
    pub alias: Option<Spanned<String>>,
}

/// The segments of an import path, as text.
pub open spec fn path_texts(path: Seq<Spanned<String>>) -> Seq<Seq<char>> {
    path.map_values(|s: Spanned<String>| s.node@)
}

impl ImportDecl {
    /// The name the import is bound to: its alias, or else the last path segment.
    pub open spec fn spec_binding_name(&self) -> Seq<char> {
        match self.alias {
            Some(a) => a.node@,
            None => self.path@.last().node@,
        }
    }

    pub fn binding_name(&self) -> (r: &str)
        requires
            self.alias.is_some() || self.path.len() > 0,
        ensures
            r@ == self.spec_binding_name(),
    {
        if let Some(alias) = &self.alias {
            alias.node.as_str()
        } else {
            self.path[self.path.len() - 1].node.as_str()
        }
    }

    /// The path segments joined by dots.
    pub fn full_path(&self) -> (r: String)
        ensures
            r@ == join_with(path_texts(self.path@), "."@),
    {
        let mut out = String::new();
        let mut i: usize = 0;
        proof {
            reveal_strlit(".");
            assert(path_texts(self.path@).take(0) =~= Seq::<Seq<char>>::empty());
        }
        while i < self.path.len()
            invariant
                i <= self.path.len(),
                out@ == join_with(path_texts(self.path@).take(i as int), "."@),
            decreases self.path.len() - i,
        {
            let ghost prev = path_texts(self.path@).take(i as int);
            if i > 0 {
                out.append(".");
            }
            out.append(self.path[i].node.as_str());
            i += 1;
            proof {
                let cur = path_texts(self.path@).take(i as int);
                assert(cur.drop_last() =~= prev);
                assert(cur.last() == self.path@[i - 1].node@);
                if i == 1 {
                    assert(out@ =~= cur[0]);
                }
            }
        }
        proof {
            assert(path_texts(self.path@).take(self.path.len() as int) =~= path_texts(self.path@));
        }
        out
    }
}

/// A function declared `extern`, implemented outside Pluto.
#[derive(Debug)]
pub struct ExternFnDecl {
    pub name: Spanned<String>,
    pub params: Vec<Param>,
    pub return_type: Option<Spanned<TypeExpr>>,
    pub is_pub: bool,
}

#[derive(Debug, Clone)]
pub struct ExternRustDecl {
    pub crate_path: Spanned<String>,
    pub alias: Spanned<String>,
}

#[derive(Debug, Clone, Copy, PartialEq, Eq, Structural)]
pub enum Lifecycle {
    Singleton,
    Scoped,
    Transient,
}

impl Lifecycle {
    pub open spec fn spec_text(&self) -> Seq<char> {
        match self {
            Lifecycle::Singleton => "singleton"@,
            Lifecycle::Scoped => "scoped"@,
            Lifecycle::Transient => "transient"@,
        }
    }

    /// The lifecycle's name as written in source.
    pub fn to_string(&self) -> (r: String)
        ensures
            r@ == self.spec_text(),
    {
        match self {
            Lifecycle::Singleton => String::from_str("singleton"),
            Lifecycle::Scoped => String::from_str("scoped"),
            Lifecycle::Transient => String::from_str("transient"),
        }
    }
}

#[derive(Debug, Clone, Copy, PartialEq, Eq, Structural)]
pub enum BinOp {
    Add,
    Sub,
    Mul,
    Div,
    Mod,
    Eq,
    Neq,
    Lt,
    Gt,
    LtEq,
    GtEq,
    And,
    Or,
    BitAnd,
    BitOr,
    BitXor,
    Shl,
    Shr,
}

#[derive(Debug, Clone, Copy, PartialEq, Eq, Structural)]
pub enum UnaryOp {
    Neg,
    Not,
    BitNot,
}

#[derive(Debug, Clone, Copy, PartialEq, Eq, Structural)]
pub enum ContractKind {
    Requires,
    Ensures,
    Invariant,
}

/// The version number of an id, the one `Uuid::get_version_num` reads from
/// its version bits.
pub uninterp spec fn uuid_version(id: Uuid) -> usize;

/// A fresh random id, from `Uuid::new_v4`. Its bits are random but for the
/// version bits, which `new_v4` sets to version 4 (random), as the crate's
/// documentation and source show; nothing else is claimed of it.
/// `new_v4` panics where the operating system's random source fails, a
/// failure of the environment that no precondition can rule out.
#[verifier::external_body]
pub(crate) fn fresh_id() -> (id: Uuid)
    ensures
        uuid_version(id) == 4,
{
    Uuid::new_v4()
}

/// A field of a class, error or enum variant, with the id that identifies it
/// across edits.
#[derive(Debug)]
pub struct Field {
    pub id: Uuid,
    pub name: Spanned<String>,
    pub ty: Spanned<TypeExpr>,
    pub is_injected: bool,
    pub is_ambient: bool,
}

/// A function parameter, with the id that identifies it across edits.
#[derive(Debug)]
pub struct Param {
    pub id: Uuid,
    pub name: Spanned<String>,
    pub ty: Spanned<TypeExpr>,
    pub is_mut: bool,
}

/// A variant of an enum, with its fields.
#[derive(Debug)]
pub struct EnumVariant {
    pub id: Uuid,
    pub name: Spanned<String>,
    pub fields: Vec<Field>,
}

/// An enum declaration; generic when it has type parameters.
#[derive(Debug)]
pub struct EnumDecl {
    pub id: Uuid,
    pub name: Spanned<String>,
    pub type_params: Vec<Spanned<String>>,
    /// The trait bounds of each bounded type parameter.
    pub type_param_bounds: Vec<(String, Vec<Spanned<String>>)>,
    pub variants: Vec<EnumVariant>,
    pub is_pub: bool,
}

/// A method that a stage requires the stages inheriting from it to define.
#[derive(Debug)]
pub struct RequiredMethod {
    pub id: Uuid,
    pub name: Spanned<String>,
    pub params: Vec<Param>,
    pub return_type: Option<Spanned<TypeExpr>>,
    pub is_pub: bool,
}

/// A method defined in a stage, as far as stage flattening reads it: its name,
/// whether it is declared `override fn`, and `key`, where the caller keeps the
/// method's full declaration.
#[derive(Debug)]
pub struct StageMethod {
    pub name: Spanned<String>,
    pub is_override: bool,
    pub key: usize,
}

/// A stage declaration, which may inherit from a parent stage.
#[derive(Debug)]
pub struct StageDecl {
    pub id: Uuid,
    pub name: Spanned<String>,
    pub parent: Option<Spanned<String>>,
    pub inject_fields: Vec<Field>,
    pub ambient_types: Vec<Spanned<String>>,
    pub lifecycle_overrides: Vec<(Spanned<String>, Lifecycle)>,
    pub required_methods: Vec<Spanned<RequiredMethod>>,
    pub methods: Vec<Spanned<StageMethod>>,
}

/// An error declaration, with its fields.
#[derive(Debug)]
pub struct ErrorDecl {
    pub id: Uuid,
    pub name: Spanned<String>,
    pub fields: Vec<Field>,
    pub is_pub: bool,
}

#[derive(Debug, Clone)]
pub struct ScopeBinding {
    pub name: Spanned<String>,
    pub ty: Spanned<TypeExpr>,
}

#[derive(Debug, PartialEq)]
pub enum TypeExpr {
    Named(String),
    Array(Box<Spanned<TypeExpr>>),
    Qualified { module: String, name: String },
    Fn {
        params: Vec<Box<Spanned<TypeExpr>>>,
        return_type: Box<Spanned<TypeExpr>>,
    },
    Generic {
        name: String,
        type_args: Vec<Spanned<TypeExpr>>,
    },
    Nullable(Box<Spanned<TypeExpr>>),
    Stream(Box<Spanned<TypeExpr>>),
}

pub enum TypeExprM {
    Named(Seq<char>),
    Array(Box<Spanned<TypeExprM>>),
    Qualified { module: Seq<char>, name: Seq<char> },
    Fn { params: Seq<Spanned<TypeExprM>>, return_type: Box<Spanned<TypeExprM>> },
    Generic { name: Seq<char>, type_args: Seq<Spanned<TypeExprM>> },
    Nullable(Box<Spanned<TypeExprM>>),
    Stream(Box<Spanned<TypeExprM>>),
}

impl TypeExpr {
    pub open spec fn model(&self) -> TypeExprM
        decreases self,
    {
        match self {
            TypeExpr::Named(n) => TypeExprM::Named(n@),
            TypeExpr::Array(inner) => TypeExprM::Array(Box::new(Spanned { node: inner.node.model(), span: inner.span })),
            TypeExpr::Qualified { module, name } => TypeExprM::Qualified { module: module@, name: name@ },
            TypeExpr::Fn { params, return_type } => TypeExprM::Fn {
                params: Seq::new(params.len() as nat, |i: int| if 0 <= i < params.len() { Spanned { node: params@[i].node.model(), span: params@[i].span } } else { arbitrary() }),
                return_type: Box::new(Spanned { node: return_type.node.model(), span: return_type.span }),
            },
            TypeExpr::Generic { name, type_args } => TypeExprM::Generic {
                name: name@,
                type_args: Seq::new(type_args.len() as nat, |i: int| if 0 <= i < type_args.len() { Spanned { node: type_args@[i].node.model(), span: type_args@[i].span } } else { arbitrary() }),
            },
            TypeExpr::Nullable(inner) => TypeExprM::Nullable(Box::new(Spanned { node: inner.node.model(), span: inner.span })),
            TypeExpr::Stream(inner) => TypeExprM::Stream(Box::new(Spanned { node: inner.node.model(), span: inner.span })),
        }
    }
}


/// The model of a spanned type expression: the node's model with the same span.
pub open spec fn spanned_te_model(s: Spanned<TypeExpr>) -> Spanned<TypeExprM> {
    Spanned { node: s.node.model(), span: s.span }
}

impl TypeExpr {
    /// A deep copy of `self`; the copy has the same model.
    #[verifier::loop_isolation(false)]
    pub fn deep_clone(&self) -> (r: TypeExpr)
        ensures
            r.model() == self.model(),
        decreases self,
    {
        match self {
            TypeExpr::Named(n) => TypeExpr::Named(n.clone()),
            TypeExpr::Array(inner) => TypeExpr::Array(Box::new(clone_spanned_te(inner))),
            TypeExpr::Qualified { module, name } => TypeExpr::Qualified { module: module.clone(), name: name.clone() },
            TypeExpr::Fn { params, return_type } => {
                let mut ps: Vec<Box<Spanned<TypeExpr>>> = Vec::new();
                let mut i: usize = 0;
                while i < params.len()
                    invariant
                        i <= params.len(),
                        ps.len() == i,
                        forall|j: int| 0 <= j < i ==> spanned_te_model(*#[trigger] ps@[j]) == spanned_te_model(*params@[j]),
                    decreases params.len() - i,
                {
                    proof {
                        assert(decreases_to!(self => params@[i as int]));
                    }
                    ps.push(Box::new(clone_spanned_te(&params[i])));
                    i += 1;
                }
                let r = TypeExpr::Fn { params: ps, return_type: Box::new(clone_spanned_te(return_type)) };
                proof {
                    let a = r.model()->params;
                    let b = self.model()->params;
                    assert(a.len() == b.len());
                    assert forall|j: int| 0 <= j < a.len() implies a[j] == b[j] by {
                        assert(spanned_te_model(*ps@[j]) == spanned_te_model(*params@[j]));
                    }
                    assert(a =~= b);
                }
                r
            },
            TypeExpr::Generic { name, type_args } => {
                let mut ts: Vec<Spanned<TypeExpr>> = Vec::new();
                let mut i: usize = 0;
                while i < type_args.len()
                    invariant
                        i <= type_args.len(),
                        ts.len() == i,
                        forall|j: int| 0 <= j < i ==> spanned_te_model(#[trigger] ts@[j]) == spanned_te_model(type_args@[j]),
                    decreases type_args.len() - i,
                {
                    proof {
                        assert(decreases_to!(self => type_args@[i as int]));
                    }
                    ts.push(clone_spanned_te(&type_args[i]));
                    i += 1;
                }
                let r = TypeExpr::Generic { name: name.clone(), type_args: ts };
                proof {
                    let a = r.model()->type_args;
                    let b = self.model()->type_args;
                    assert(a.len() == b.len());
                    assert forall|j: int| 0 <= j < a.len() implies a[j] == b[j] by {
                        assert(spanned_te_model(ts@[j]) == spanned_te_model(type_args@[j]));
                    }
                    assert(a =~= b);
                }
                r
            },
            TypeExpr::Nullable(inner) => TypeExpr::Nullable(Box::new(clone_spanned_te(inner))),
            TypeExpr::Stream(inner) => TypeExpr::Stream(Box::new(clone_spanned_te(inner))),
        }
    }
}

impl Clone for TypeExpr {
    fn clone(&self) -> (r: Self)
        ensures
            r.model() == self.model(),
    {
        self.deep_clone()
    }
}

/// A deep copy of a spanned type expression.
pub fn clone_spanned_te(s: &Spanned<TypeExpr>) -> (r: Spanned<TypeExpr>)
    ensures
        spanned_te_model(r) == spanned_te_model(*s),
    decreases s,
{
    Spanned { node: s.node.deep_clone(), span: s.span }
}

// ── Models of declarations ──────────────────────────────────────────

/// A name with its span, the name by its characters.
pub open spec fn name_model(s: Spanned<String>) -> Spanned<Seq<char>> {
    Spanned { node: s.node@, span: s.span }
}

pub open spec fn names_model(s: Seq<Spanned<String>>) -> Seq<Spanned<Seq<char>>> {
    s.map_values(|n: Spanned<String>| name_model(n))
}

/// The model of a field.
pub struct FieldM {
    pub id: Uuid,
    pub name: Spanned<Seq<char>>,
    pub ty: Spanned<TypeExprM>,
    pub is_injected: bool,
    pub is_ambient: bool,
}

/// The model of an enum variant.
pub struct VariantM {
    pub id: Uuid,
    pub name: Spanned<Seq<char>>,
    pub fields: Seq<FieldM>,
}

/// The model of an enum declaration.
pub struct EnumDeclM {
    pub id: Uuid,
    pub name: Spanned<Seq<char>>,
    pub type_params: Seq<Spanned<Seq<char>>>,
    pub type_param_bounds: Seq<(Seq<char>, Seq<Spanned<Seq<char>>>)>,
    pub variants: Seq<VariantM>,
    pub is_pub: bool,
}

impl Field {
    pub open spec fn model(&self) -> FieldM {
        FieldM {
            id: self.id,
            name: name_model(self.name),
            ty: spanned_te_model(self.ty),
            is_injected: self.is_injected,
            is_ambient: self.is_ambient,
        }
    }
}

pub open spec fn fields_model(fs: Seq<Field>) -> Seq<FieldM> {
    fs.map_values(|f: Field| f.model())
}

impl EnumVariant {
    pub open spec fn model(&self) -> VariantM {
        VariantM { id: self.id, name: name_model(self.name), fields: fields_model(self.fields@) }
    }
}

pub open spec fn variants_model(vs: Seq<EnumVariant>) -> Seq<VariantM> {
    vs.map_values(|v: EnumVariant| v.model())
}

pub open spec fn bound_model(b: (String, Vec<Spanned<String>>)) -> (Seq<char>, Seq<Spanned<Seq<char>>>) {
    (b.0@, names_model(b.1@))
}

impl EnumDecl {
    pub open spec fn model(&self) -> EnumDeclM {
        EnumDeclM {
            id: self.id,
            name: name_model(self.name),
            type_params: names_model(self.type_params@),
            type_param_bounds: self.type_param_bounds@.map_values(|b: (String, Vec<Spanned<String>>)| bound_model(b)),
            variants: variants_model(self.variants@),
            is_pub: self.is_pub,
        }
    }
}


/// The model of a parameter.
pub struct ParamM {
    pub id: Uuid,
    pub name: Spanned<Seq<char>>,
    pub ty: Spanned<TypeExprM>,
    pub is_mut: bool,
}

impl Param {
    pub open spec fn model(&self) -> ParamM {
        ParamM { id: self.id, name: name_model(self.name), ty: spanned_te_model(self.ty), is_mut: self.is_mut }
    }
}

pub open spec fn params_model(ps: Seq<Param>) -> Seq<ParamM> {
    ps.map_values(|p: Param| p.model())
}

pub open spec fn opt_te_model(t: Option<Spanned<TypeExpr>>) -> Option<Spanned<TypeExprM>> {
    match t {
        Some(s) => Some(spanned_te_model(s)),
        None => None,
    }
}

/// The model of a required method.
pub struct RequiredM {
    pub id: Uuid,
    pub name: Spanned<Seq<char>>,
    pub params: Seq<ParamM>,
    pub return_type: Option<Spanned<TypeExprM>>,
    pub is_pub: bool,
}

impl RequiredMethod {
    pub open spec fn model(&self) -> RequiredM {
        RequiredM {
            id: self.id,
            name: name_model(self.name),
            params: params_model(self.params@),
            return_type: opt_te_model(self.return_type),
            is_pub: self.is_pub,
        }
    }
}

pub open spec fn required_model(r: Spanned<RequiredMethod>) -> Spanned<RequiredM> {
    Spanned { node: r.node.model(), span: r.span }
}

/// The model of a stage method.
pub struct StageMethodM {
    pub name: Spanned<Seq<char>>,
    pub is_override: bool,
    pub key: usize,
}

impl StageMethod {
    pub open spec fn model(&self) -> StageMethodM {
        StageMethodM { name: name_model(self.name), is_override: self.is_override, key: self.key }
    }
}

pub open spec fn method_model(m: Spanned<StageMethod>) -> Spanned<StageMethodM> {
    Spanned { node: m.node.model(), span: m.span }
}

pub open spec fn opt_name_model(o: Option<Spanned<String>>) -> Option<Spanned<Seq<char>>> {
    match o {
        Some(n) => Some(name_model(n)),
        None => None,
    }
}

pub open spec fn lifecycle_model(l: (Spanned<String>, Lifecycle)) -> (Spanned<Seq<char>>, Lifecycle) {
    (name_model(l.0), l.1)
}

pub open spec fn lifecycles_model(v: Seq<(Spanned<String>, Lifecycle)>) -> Seq<(Spanned<Seq<char>>, Lifecycle)> {
    v.map_values(|l: (Spanned<String>, Lifecycle)| lifecycle_model(l))
}

pub open spec fn requireds_model(v: Seq<Spanned<RequiredMethod>>) -> Seq<Spanned<RequiredM>> {
    v.map_values(|r: Spanned<RequiredMethod>| required_model(r))
}

pub open spec fn methods_model(v: Seq<Spanned<StageMethod>>) -> Seq<Spanned<StageMethodM>> {
    v.map_values(|m: Spanned<StageMethod>| method_model(m))
}

/// The model of a stage declaration.
pub struct StageM {
    pub id: Uuid,
    pub name: Spanned<Seq<char>>,
    pub parent: Option<Spanned<Seq<char>>>,
    pub inject_fields: Seq<FieldM>,
    pub ambient_types: Seq<Spanned<Seq<char>>>,
    pub lifecycle_overrides: Seq<(Spanned<Seq<char>>, Lifecycle)>,
    pub required_methods: Seq<Spanned<RequiredM>>,
    pub methods: Seq<Spanned<StageMethodM>>,
}

impl StageDecl {
    pub open spec fn model(&self) -> StageM {
        StageM {
            id: self.id,
            name: name_model(self.name),
            parent: opt_name_model(self.parent),
            inject_fields: fields_model(self.inject_fields@),
            ambient_types: names_model(self.ambient_types@),
            lifecycle_overrides: lifecycles_model(self.lifecycle_overrides@),
            required_methods: requireds_model(self.required_methods@),
            methods: methods_model(self.methods@),
        }
    }
}

pub open spec fn stage_model(s: Spanned<StageDecl>) -> Spanned<StageM> {
    Spanned { node: s.node.model(), span: s.span }
}

pub open spec fn stages_model(ss: Seq<Spanned<StageDecl>>) -> Seq<Spanned<StageM>> {
    ss.map_values(|s: Spanned<StageDecl>| stage_model(s))
}

// ── Copies ──────────────────────────────────────────────────────────

/// A copy of a spanned name.
pub fn clone_name(s: &Spanned<String>) -> (r: Spanned<String>)
    ensures
        r == *s,
{
    Spanned { node: s.node.clone(), span: s.span }
}

/// A copy of a list of spanned names.
pub fn clone_names(v: &Vec<Spanned<String>>) -> (r: Vec<Spanned<String>>)
    ensures
        r@ == v@,
{
    let mut r: Vec<Spanned<String>> = Vec::new();
    let mut k: usize = 0;
    while k < v.len()
        invariant
            k <= v@.len(),
            r@ == v@.take(k as int),
        decreases v@.len() - k,
    {
        r.push(clone_name(&v[k]));
        proof {
            assert(v@.take(k + 1) =~= v@.take(k as int).push(v@[k as int]));
        }
        k += 1;
    }
    proof {
        assert(v@.take(k as int) =~= v@);
    }
    r
}

/// A copy of a field, with the same id.
pub fn clone_field(f: &Field) -> (r: Field)
    ensures
        r.model() == f.model(),
{
    Field {
        id: f.id,
        name: clone_name(&f.name),
        ty: clone_spanned_te(&f.ty),
        is_injected: f.is_injected,
        is_ambient: f.is_ambient,
    }
}


/// A copy of a parameter, with the same id.
pub fn clone_param(p: &Param) -> (r: Param)
    ensures
        r.model() == p.model(),
{
    Param { id: p.id, name: clone_name(&p.name), ty: clone_spanned_te(&p.ty), is_mut: p.is_mut }
}

/// A copy of a required method.
pub fn clone_required(r: &Spanned<RequiredMethod>) -> (c: Spanned<RequiredMethod>)
    ensures
        required_model(c) == required_model(*r),
{
    let mut params: Vec<Param> = Vec::new();
    let mut k: usize = 0;
    while k < r.node.params.len()
        invariant
            k <= r.node.params@.len(),
            params@.len() == k,
            forall|j: int| 0 <= j < k ==> (#[trigger] params@[j]).model() == r.node.params@[j].model(),
        decreases r.node.params@.len() - k,
    {
        params.push(clone_param(&r.node.params[k]));
        k += 1;
    }
    proof {
        assert(params_model(params@) =~= params_model(r.node.params@));
    }
    let return_type = match &r.node.return_type {
        Some(t) => Some(clone_spanned_te(t)),
        None => None,
    };
    Spanned {
        node: RequiredMethod {
            id: r.node.id,
            name: clone_name(&r.node.name),
            params,
            return_type,
            is_pub: r.node.is_pub,
        },
        span: r.span,
    }
}

/// A copy of a stage method.
pub fn clone_method(m: &Spanned<StageMethod>) -> (c: Spanned<StageMethod>)
    ensures
        method_model(c) == method_model(*m),
{
    Spanned {
        node: StageMethod { name: clone_name(&m.node.name), is_override: m.node.is_override, key: m.node.key },
        span: m.span,
    }
}

/// A copy of an optional spanned name.
pub fn clone_opt_name(o: &Option<Spanned<String>>) -> (c: Option<Spanned<String>>)
    ensures
        c == *o,
{
    match o {
        Some(n) => Some(clone_name(n)),
        None => None,
    }
}


// ── Statements and expressions ──────────────────────────────────────

#[derive(Debug)]
pub struct Block {
    pub stmts: Vec<Spanned<Stmt>>,
}

#[derive(Debug)]
pub enum Stmt {
    Let { name: Spanned<String>, ty: Option<Spanned<TypeExpr>>, value: Spanned<Expr>, is_mut: bool },
    Return(Option<Spanned<Expr>>),
    Assign { target: Spanned<String>, value: Spanned<Expr> },
    FieldAssign { object: Spanned<Expr>, field: Spanned<String>, value: Spanned<Expr> },
    If { condition: Spanned<Expr>, then_block: Spanned<Block>, else_block: Option<Spanned<Block>> },
    While { condition: Spanned<Expr>, body: Spanned<Block> },
    For { var: Spanned<String>, iterable: Spanned<Expr>, body: Spanned<Block> },
    IndexAssign { object: Spanned<Expr>, index: Spanned<Expr>, value: Spanned<Expr> },
    Match { expr: Spanned<Expr>, arms: Vec<MatchArm> },
    Raise { error_name: Spanned<String>, fields: Vec<(Spanned<String>, Spanned<Expr>)>, error_id: Option<Uuid> },
    LetChan { sender: Spanned<String>, receiver: Spanned<String>, elem_type: Spanned<TypeExpr>, capacity: Option<Spanned<Expr>> },
    Select { arms: Vec<SelectArm>, default: Option<Spanned<Block>> },
    Scope { seeds: Vec<Spanned<Expr>>, bindings: Vec<ScopeBinding>, body: Spanned<Block> },
    Yield { value: Spanned<Expr> },
    Break,
    Continue,
    Expr(Spanned<Expr>),
}

#[derive(Debug)]
pub enum SelectOp {
    Recv { binding: Spanned<String>, channel: Spanned<Expr> },
    Send { channel: Spanned<Expr>, value: Spanned<Expr> },
}

#[derive(Debug)]
pub struct SelectArm {
    pub op: SelectOp,
    pub body: Spanned<Block>,
}

/// An expression. A float literal is held by the bits of its IEEE 754
/// double-precision value.
#[derive(Debug)]
pub enum Expr {
    IntLit(i64),
    FloatLit(u64),
    BoolLit(bool),
    StringLit(String),
    Ident(String),
    BinOp { op: BinOp, lhs: Box<Spanned<Expr>>, rhs: Box<Spanned<Expr>> },
    UnaryOp { op: UnaryOp, operand: Box<Spanned<Expr>> },
    Call { name: Spanned<String>, args: Vec<Spanned<Expr>>, type_args: Vec<Spanned<TypeExpr>>, target_id: Option<Uuid> },
    FieldAccess { object: Box<Spanned<Expr>>, field: Spanned<String> },
    MethodCall { object: Box<Spanned<Expr>>, method: Spanned<String>, args: Vec<Spanned<Expr>> },
    StructLit { name: Spanned<String>, type_args: Vec<Spanned<TypeExpr>>, fields: Vec<(Spanned<String>, Spanned<Expr>)>, target_id: Option<Uuid> },
    ArrayLit { elements: Vec<Spanned<Expr>> },
    Index { object: Box<Spanned<Expr>>, index: Box<Spanned<Expr>> },
    EnumUnit { enum_name: Spanned<String>, variant: Spanned<String>, type_args: Vec<Spanned<TypeExpr>>, enum_id: Option<Uuid>, variant_id: Option<Uuid> },
    EnumData { enum_name: Spanned<String>, variant: Spanned<String>, type_args: Vec<Spanned<TypeExpr>>, fields: Vec<(Spanned<String>, Spanned<Expr>)>, enum_id: Option<Uuid>, variant_id: Option<Uuid> },
    StringInterp { parts: Vec<StringInterpPart> },
    Closure { params: Vec<Param>, return_type: Option<Spanned<TypeExpr>>, body: Spanned<Block> },
    MapLit { key_type: Spanned<TypeExpr>, value_type: Spanned<TypeExpr>, entries: Vec<(Spanned<Expr>, Spanned<Expr>)> },
    SetLit { elem_type: Spanned<TypeExpr>, elements: Vec<Spanned<Expr>> },
    ClosureCreate { fn_name: String, captures: Vec<String>, target_id: Option<Uuid> },
    Propagate { expr: Box<Spanned<Expr>> },
    Catch { expr: Box<Spanned<Expr>>, handler: CatchHandler },
    Cast { expr: Box<Spanned<Expr>>, target_type: Spanned<TypeExpr> },
    Range { start: Box<Spanned<Expr>>, end: Box<Spanned<Expr>>, inclusive: bool },
    Spawn { call: Box<Spanned<Expr>> },
    NoneLit,
    NullPropagate { expr: Box<Spanned<Expr>> },
}

#[derive(Debug)]
pub enum StringInterpPart {
    Lit(String),
    Expr(Spanned<Expr>),
}

#[derive(Debug)]
pub enum CatchHandler {
    Wildcard { var: Spanned<String>, body: Spanned<Block> },
    Shorthand(Box<Spanned<Expr>>),
}

#[derive(Debug)]
pub struct MatchArm {
    pub enum_name: Spanned<String>,
    pub variant_name: Spanned<String>,
    pub type_args: Vec<Spanned<TypeExpr>>,
    pub bindings: Vec<(Spanned<String>, Option<Spanned<String>>)>,
    pub body: Spanned<Block>,
    pub enum_id: Option<Uuid>,
    pub variant_id: Option<Uuid>,
}


#[derive(Debug)]
pub struct ContractClause {
    pub kind: ContractKind,
    pub expr: Spanned<Expr>,
}

/// A function or method declaration; generic when it has type parameters.
#[derive(Debug)]
pub struct Function {
    pub id: Uuid,
    pub name: Spanned<String>,
    pub type_params: Vec<Spanned<String>>,
    /// The trait bounds of each bounded type parameter.
    pub type_param_bounds: Vec<(String, Vec<Spanned<String>>)>,
    pub params: Vec<Param>,
    pub return_type: Option<Spanned<TypeExpr>>,
    pub contracts: Vec<Spanned<ContractClause>>,
    pub body: Spanned<Block>,
    pub is_pub: bool,
    pub is_override: bool,
    pub is_generator: bool,
}

/// A class declaration; generic when it has type parameters.
#[derive(Debug)]
pub struct ClassDecl {
    pub id: Uuid,
    pub name: Spanned<String>,
    pub type_params: Vec<Spanned<String>>,
    /// The trait bounds of each bounded type parameter.
    pub type_param_bounds: Vec<(String, Vec<Spanned<String>>)>,
    pub fields: Vec<Field>,
    pub methods: Vec<Spanned<Function>>,
    pub invariants: Vec<Spanned<ContractClause>>,
    pub impl_traits: Vec<Spanned<String>>,
    pub uses: Vec<Spanned<String>>,
    pub is_pub: bool,
    pub lifecycle: Lifecycle,
}


#[derive(Debug)]
pub struct TraitMethod {
    pub id: Uuid,
    pub name: Spanned<String>,
    pub params: Vec<Param>,
    pub return_type: Option<Spanned<TypeExpr>>,
    pub contracts: Vec<Spanned<ContractClause>>,
    pub body: Option<Spanned<Block>>,
}

#[derive(Debug)]
pub struct TraitDecl {
    pub id: Uuid,
    pub name: Spanned<String>,
    pub methods: Vec<TraitMethod>,
    pub is_pub: bool,
}

#[derive(Debug)]
pub struct AppDecl {
    pub id: Uuid,
    pub name: Spanned<String>,
    pub inject_fields: Vec<Field>,
    pub ambient_types: Vec<Spanned<String>>,
    pub lifecycle_overrides: Vec<(Spanned<String>, Lifecycle)>,
    pub methods: Vec<Spanned<Function>>,
}

#[derive(Debug)]
pub struct SystemMember {
    pub id: Uuid,
    /// The deployment name.
    pub name: Spanned<String>,
    /// The imported module's name.
    pub module_name: Spanned<String>,
}

#[derive(Debug)]
pub struct SystemDecl {
    pub id: Uuid,
    pub name: Spanned<String>,
    pub members: Vec<SystemMember>,
}

#[derive(Debug)]
pub struct TestsDecl {
    pub id: Uuid,
    /// How tests are scheduled: "Sequential", "RoundRobin" or "Random".
    pub strategy: String,
}

/// A parsed Pluto program: its declarations by kind, in source order.
#[derive(Debug)]
pub struct Program {
    pub imports: Vec<Spanned<ImportDecl>>,
    pub functions: Vec<Spanned<Function>>,
    pub extern_fns: Vec<Spanned<ExternFnDecl>>,
    pub extern_rust_crates: Vec<Spanned<ExternRustDecl>>,
    pub classes: Vec<Spanned<ClassDecl>>,
    pub traits: Vec<Spanned<TraitDecl>>,
    pub enums: Vec<Spanned<EnumDecl>>,
    pub app: Option<Spanned<AppDecl>>,
    pub stages: Vec<Spanned<StageDecl>>,
    pub system: Option<Spanned<SystemDecl>>,
    pub errors: Vec<Spanned<ErrorDecl>>,
    pub test_info: Vec<TestInfo>,
    pub tests: Option<Spanned<TestsDecl>>,
    /// The extern functions (bridged from Rust) that return `Result`.
    pub fallible_extern_fns: Vec<String>,
}

} // verus!
