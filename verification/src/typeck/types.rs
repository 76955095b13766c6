use vstd::prelude::*;
use vstd::string::StringExecFns;
use crate::span::Span;
use crate::span::Spanned;
use crate::parser::ast::TypeExpr;
use crate::parser::ast::TypeExprM;
use crate::parser::ast::spanned_te_model;

verus! {

/// A resolved type of the Pluto language.
#[derive(Debug, PartialEq)]
pub enum PlutoType {
    Int,
    Float,
    Bool,
    String,
    Void,
    Byte,
    Bytes,
    Class(String),
    Enum(String),
    Trait(String),
    Array(Box<PlutoType>),
    Fn(Vec<PlutoType>, Box<PlutoType>),
    MapOf(Box<PlutoType>, Box<PlutoType>),
    SetOf(Box<PlutoType>),
    Task(Box<PlutoType>),
    Sender(Box<PlutoType>),
    Receiver(Box<PlutoType>),
    Nullable(Box<PlutoType>),
    Stream(Box<PlutoType>),
}

/// The mathematical model of a `PlutoType`: names as character sequences.
pub enum PlutoTypeM {
    Int,
    Float,
    Bool,
    Str,
    Void,
    Byte,
    Bytes,
    Class(Seq<char>),
    Enum(Seq<char>),
    Trait(Seq<char>),
    Array(Box<PlutoTypeM>),
    Func(Seq<PlutoTypeM>, Box<PlutoTypeM>),
    MapOf(Box<PlutoTypeM>, Box<PlutoTypeM>),
    SetOf(Box<PlutoTypeM>),
    Task(Box<PlutoTypeM>),
    Sender(Box<PlutoTypeM>),
    Receiver(Box<PlutoTypeM>),
    Nullable(Box<PlutoTypeM>),
    Stream(Box<PlutoTypeM>),
}

impl PlutoType {
    pub open spec fn model(&self) -> PlutoTypeM
        decreases self,
    {
        match self {
            PlutoType::Int => PlutoTypeM::Int,
            PlutoType::Float => PlutoTypeM::Float,
            PlutoType::Bool => PlutoTypeM::Bool,
            PlutoType::String => PlutoTypeM::Str,
            PlutoType::Void => PlutoTypeM::Void,
            PlutoType::Byte => PlutoTypeM::Byte,
            PlutoType::Bytes => PlutoTypeM::Bytes,
            PlutoType::Class(n) => PlutoTypeM::Class(n@),
            PlutoType::Enum(n) => PlutoTypeM::Enum(n@),
            PlutoType::Trait(n) => PlutoTypeM::Trait(n@),
            PlutoType::Array(e) => PlutoTypeM::Array(Box::new(e.model())),
            PlutoType::Fn(ps, r) => PlutoTypeM::Func(
                Seq::new(ps.len() as nat, |i: int| if 0 <= i < ps.len() { ps@[i].model() } else { arbitrary() }),
                Box::new(r.model()),
            ),
            PlutoType::MapOf(k, v) => PlutoTypeM::MapOf(Box::new(k.model()), Box::new(v.model())),
            PlutoType::SetOf(e) => PlutoTypeM::SetOf(Box::new(e.model())),
            PlutoType::Task(e) => PlutoTypeM::Task(Box::new(e.model())),
            PlutoType::Sender(e) => PlutoTypeM::Sender(Box::new(e.model())),
            PlutoType::Receiver(e) => PlutoTypeM::Receiver(Box::new(e.model())),
            PlutoType::Nullable(e) => PlutoTypeM::Nullable(Box::new(e.model())),
            PlutoType::Stream(e) => PlutoTypeM::Stream(Box::new(e.model())),
        }
    }

    pub fn is_void(&self) -> (r: bool)
        ensures
            r <==> self.model() == PlutoTypeM::Void,
    {
        match self {
            PlutoType::Void => true,
            _ => false,
        }
    }
}

impl PlutoType {
    /// A deep copy of `self`; the copy has the same model.
    #[verifier::loop_isolation(false)]
    pub fn deep_clone(&self) -> (r: PlutoType)
        ensures
            r.model() == self.model(),
        decreases self,
    {
        match self {
            PlutoType::Int => PlutoType::Int,
            PlutoType::Float => PlutoType::Float,
            PlutoType::Bool => PlutoType::Bool,
            PlutoType::String => PlutoType::String,
            PlutoType::Void => PlutoType::Void,
            PlutoType::Byte => PlutoType::Byte,
            PlutoType::Bytes => PlutoType::Bytes,
            PlutoType::Class(n) => PlutoType::Class(n.clone()),
            PlutoType::Enum(n) => PlutoType::Enum(n.clone()),
            PlutoType::Trait(n) => PlutoType::Trait(n.clone()),
            PlutoType::Array(e) => PlutoType::Array(Box::new(e.deep_clone())),
            PlutoType::Fn(ps, ret) => {
                let mut out: Vec<PlutoType> = Vec::new();
                let mut i: usize = 0;
                while i < ps.len()
                    invariant
                        i <= ps.len(),
                        out.len() == i,
                        forall|j: int| 0 <= j < i ==> (#[trigger] out@[j]).model() == ps@[j].model(),
                    decreases ps.len() - i,
                {
                    proof {
                        assert(decreases_to!(self => ps@[i as int]));
                    }
                    out.push(ps[i].deep_clone());
                    i += 1;
                }
                let r = PlutoType::Fn(out, Box::new(ret.deep_clone()));
                proof {
                    assert(r.model()->Func_0 =~= self.model()->Func_0);
                }
                r
            },
            PlutoType::MapOf(k, v) => PlutoType::MapOf(Box::new(k.deep_clone()), Box::new(v.deep_clone())),
            PlutoType::SetOf(e) => PlutoType::SetOf(Box::new(e.deep_clone())),
            PlutoType::Task(e) => PlutoType::Task(Box::new(e.deep_clone())),
            PlutoType::Sender(e) => PlutoType::Sender(Box::new(e.deep_clone())),
            PlutoType::Receiver(e) => PlutoType::Receiver(Box::new(e.deep_clone())),
            PlutoType::Nullable(e) => PlutoType::Nullable(Box::new(e.deep_clone())),
            PlutoType::Stream(e) => PlutoType::Stream(Box::new(e.deep_clone())),
        }
    }
}

impl Clone for PlutoType {
    fn clone(&self) -> (r: Self)
        ensures
            r.model() == self.model(),
    {
        self.deep_clone()
    }
}

/// A type expression node carrying the dummy span.
pub open spec fn dummy_spanned(t: TypeExprM) -> Spanned<TypeExprM> {
    Spanned { node: t, span: Span::spec_dummy() }
}

/// The type expression that names a resolved type; nested nodes carry the dummy span.
pub open spec fn pt_to_te(t: PlutoTypeM) -> TypeExprM
    decreases t,
{
    match t {
        PlutoTypeM::Int => TypeExprM::Named("int"@),
        PlutoTypeM::Float => TypeExprM::Named("float"@),
        PlutoTypeM::Bool => TypeExprM::Named("bool"@),
        PlutoTypeM::Str => TypeExprM::Named("string"@),
        PlutoTypeM::Void => TypeExprM::Named("void"@),
        PlutoTypeM::Byte => TypeExprM::Named("byte"@),
        PlutoTypeM::Bytes => TypeExprM::Named("bytes"@),
        PlutoTypeM::Class(n) => TypeExprM::Named(n),
        PlutoTypeM::Enum(n) => TypeExprM::Named(n),
        PlutoTypeM::Trait(n) => TypeExprM::Named(n),
        PlutoTypeM::Array(e) => TypeExprM::Array(Box::new(dummy_spanned(pt_to_te(*e)))),
        PlutoTypeM::Func(ps, r) => TypeExprM::Fn {
            params: Seq::new(ps.len(), |i: int| if 0 <= i < ps.len() { dummy_spanned(pt_to_te(ps[i])) } else { arbitrary() }),
            return_type: Box::new(dummy_spanned(pt_to_te(*r))),
        },
        PlutoTypeM::MapOf(k, v) => TypeExprM::Generic {
            name: "Map"@,
            type_args: seq![dummy_spanned(pt_to_te(*k)), dummy_spanned(pt_to_te(*v))],
        },
        PlutoTypeM::SetOf(e) => TypeExprM::Generic { name: "Set"@, type_args: seq![dummy_spanned(pt_to_te(*e))] },
        PlutoTypeM::Task(e) => TypeExprM::Generic { name: "Task"@, type_args: seq![dummy_spanned(pt_to_te(*e))] },
        PlutoTypeM::Sender(e) => TypeExprM::Generic { name: "Sender"@, type_args: seq![dummy_spanned(pt_to_te(*e))] },
        PlutoTypeM::Receiver(e) => TypeExprM::Generic { name: "Receiver"@, type_args: seq![dummy_spanned(pt_to_te(*e))] },
        PlutoTypeM::Nullable(e) => TypeExprM::Nullable(Box::new(dummy_spanned(pt_to_te(*e)))),
        PlutoTypeM::Stream(e) => TypeExprM::Stream(Box::new(dummy_spanned(pt_to_te(*e)))),
    }
}

fn dummy_box(t: TypeExpr) -> (r: Box<Spanned<TypeExpr>>)
    ensures
        spanned_te_model(*r) == dummy_spanned(t.model()),
{
    Box::new(Spanned { node: t, span: Span::dummy() })
}

fn generic_of(name: &str, args: Vec<Spanned<TypeExpr>>) -> (r: TypeExpr)
    ensures
        r.model() == (TypeExprM::Generic {
            name: name@,
            type_args: Seq::new(args.len() as nat, |i: int| if 0 <= i < args.len() { spanned_te_model(args@[i]) } else { arbitrary() }),
        }),
{
    let r = TypeExpr::Generic { name: String::from_str(name), type_args: args };
    proof {
        let a = r.model()->type_args;
        let b = Seq::new(args.len() as nat, |i: int| if 0 <= i < args.len() { spanned_te_model(args@[i]) } else { arbitrary() });
        assert(a =~= b);
    }
    r
}

/// Convert a resolved type to the type expression that names it.
#[verifier::loop_isolation(false)]
pub fn pluto_type_to_type_expr(ty: &PlutoType) -> (r: TypeExpr)
    ensures
        r.model() == pt_to_te(ty.model()),
    decreases ty,
{
    match ty {
        PlutoType::Int => TypeExpr::Named(String::from_str("int")),
        PlutoType::Float => TypeExpr::Named(String::from_str("float")),
        PlutoType::Bool => TypeExpr::Named(String::from_str("bool")),
        PlutoType::String => TypeExpr::Named(String::from_str("string")),
        PlutoType::Void => TypeExpr::Named(String::from_str("void")),
        PlutoType::Byte => TypeExpr::Named(String::from_str("byte")),
        PlutoType::Bytes => TypeExpr::Named(String::from_str("bytes")),
        PlutoType::Class(n) => TypeExpr::Named(n.clone()),
        PlutoType::Enum(n) => TypeExpr::Named(n.clone()),
        PlutoType::Trait(n) => TypeExpr::Named(n.clone()),
        PlutoType::Array(e) => TypeExpr::Array(dummy_box(pluto_type_to_type_expr(e))),
        PlutoType::Fn(ps, ret) => {
            let mut params: Vec<Box<Spanned<TypeExpr>>> = Vec::new();
            let mut i: usize = 0;
            while i < ps.len()
                invariant
                    i <= ps.len(),
                    params.len() == i,
                    forall|j: int| 0 <= j < i ==> spanned_te_model(*#[trigger] params@[j]) == dummy_spanned(pt_to_te(ps@[j].model())),
                decreases ps.len() - i,
            {
                proof {
                    assert(decreases_to!(ty => ps@[i as int]));
                }
                params.push(dummy_box(pluto_type_to_type_expr(&ps[i])));
                i += 1;
            }
            let r = TypeExpr::Fn { params, return_type: dummy_box(pluto_type_to_type_expr(ret)) };
            proof {
                let a = r.model()->params;
                let b = pt_to_te(ty.model())->params;
                assert forall|j: int| 0 <= j < a.len() implies a[j] == b[j] by {
                    assert(spanned_te_model(*params@[j]) == dummy_spanned(pt_to_te(ps@[j].model())));
                }
                assert(a =~= b);
            }
            r
        },
        PlutoType::MapOf(k, v) => {
            let mut args: Vec<Spanned<TypeExpr>> = Vec::new();
            args.push(Spanned { node: pluto_type_to_type_expr(k), span: Span::dummy() });
            args.push(Spanned { node: pluto_type_to_type_expr(v), span: Span::dummy() });
            let r = generic_of("Map", args);
            proof {
                assert(r.model()->type_args =~= pt_to_te(ty.model())->type_args);
            }
            r
        },
        PlutoType::SetOf(e) => {
            let mut args: Vec<Spanned<TypeExpr>> = Vec::new();
            args.push(Spanned { node: pluto_type_to_type_expr(e), span: Span::dummy() });
            let r = generic_of("Set", args);
            proof {
                assert(r.model()->type_args =~= pt_to_te(ty.model())->type_args);
            }
            r
        },
        PlutoType::Task(e) => {
            let mut args: Vec<Spanned<TypeExpr>> = Vec::new();
            args.push(Spanned { node: pluto_type_to_type_expr(e), span: Span::dummy() });
            let r = generic_of("Task", args);
            proof {
                assert(r.model()->type_args =~= pt_to_te(ty.model())->type_args);
            }
            r
        },
        PlutoType::Sender(e) => {
            let mut args: Vec<Spanned<TypeExpr>> = Vec::new();
            args.push(Spanned { node: pluto_type_to_type_expr(e), span: Span::dummy() });
            let r = generic_of("Sender", args);
            proof {
                assert(r.model()->type_args =~= pt_to_te(ty.model())->type_args);
            }
            r
        },
        PlutoType::Receiver(e) => {
            let mut args: Vec<Spanned<TypeExpr>> = Vec::new();
            args.push(Spanned { node: pluto_type_to_type_expr(e), span: Span::dummy() });
            let r = generic_of("Receiver", args);
            proof {
                assert(r.model()->type_args =~= pt_to_te(ty.model())->type_args);
            }
            r
        },
        PlutoType::Nullable(e) => TypeExpr::Nullable(dummy_box(pluto_type_to_type_expr(e))),
        PlutoType::Stream(e) => TypeExpr::Stream(dummy_box(pluto_type_to_type_expr(e))),
    }
}

} // verus!
