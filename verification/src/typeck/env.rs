use vstd::prelude::*;
use vstd::string::StringExecFns;
use crate::text::join_with;
use crate::text::lemma_join_take_step;
use crate::text::str_eq;
use crate::typeck::types::PlutoType;
use crate::typeck::types::PlutoTypeM;
use crate::typeck::types::pt_to_te;
use crate::typeck::types::pluto_type_to_type_expr;
use crate::pretty::PrettyPrinter;
use crate::pretty::te_text;

verus! {

/// The text of each name in a list.
pub open spec fn names(v: Seq<String>) -> Seq<Seq<char>> {
    v.map_values(|s: String| s@)
}

/// Whether a list of names holds `n`.
pub fn names_contain(v: &Vec<String>, n: &str) -> (r: bool)
    ensures
        r == names(v@).contains(n@),
{
    let mut i: usize = 0;
    while i < v.len()
        invariant
            i <= v.len(),
            forall|j: int| 0 <= j < i ==> v@[j]@ != n@,
        decreases v.len() - i,
    {
        if str_eq(v[i].as_str(), n) {
            proof {
                assert(names(v@)[i as int] == n@);
            }
            return true;
        }
        i += 1;
    }
    proof {
        if names(v@).contains(n@) {
            let k = choose|k: int| 0 <= k < names(v@).len() && names(v@)[k] == n@;
            assert(v@[k]@ == n@);
        }
    }
    false
}

/// A generic class or enum instantiated at resolved type arguments, with the
/// mangled name of the instance.
#[derive(Debug, Clone)]
pub struct Instantiation {
    pub name: String,
    pub args: Vec<PlutoType>,
    pub mangled: String,
}

/// The model of an instantiation.
pub struct InstM {
    pub name: Seq<char>,
    pub args: Seq<PlutoTypeM>,
    pub mangled: Seq<char>,
}

impl Instantiation {
    pub open spec fn model(&self) -> InstM {
        InstM { name: self.name@, args: pt_models(self.args@), mangled: self.mangled@ }
    }
}

/// The models of a list of instantiations.
pub open spec fn insts_model(v: Seq<Instantiation>) -> Seq<InstM> {
    v.map_values(|i: Instantiation| i.model())
}

/// What the type checker knows of an enum: its name and, for each variant,
/// the variant's name and its fields' names and types.
#[derive(Debug, Clone)]
pub struct EnumInfo {
    pub name: String,
    pub variants: Vec<(String, Vec<(String, PlutoType)>)>,
}

/// The names the type checker knows, by kind, the variants of the enums it
/// knows, and the instantiations of generic classes and enums registered so
/// far.
#[derive(Debug, Clone)]
pub struct TypeEnv {
    pub classes: Vec<String>,
    pub generic_classes: Vec<String>,
    pub enums: Vec<String>,
    pub generic_enums: Vec<String>,
    pub traits: Vec<String>,
    pub instantiations: Vec<Instantiation>,
    pub enum_infos: Vec<EnumInfo>,
}

/// Two environments that know the same names, whatever instantiations they hold.
pub open spec fn same_names(a: TypeEnv, b: TypeEnv) -> bool {
    &&& a.classes@ == b.classes@
    &&& a.generic_classes@ == b.generic_classes@
    &&& a.enums@ == b.enums@
    &&& a.generic_enums@ == b.generic_enums@
    &&& a.traits@ == b.traits@
}

impl TypeEnv {
    pub fn new() -> (env: Self)
        ensures
            env.classes@.len() == 0,
            env.generic_classes@.len() == 0,
            env.enums@.len() == 0,
            env.generic_enums@.len() == 0,
            env.traits@.len() == 0,
            env.instantiations@.len() == 0,
            env.enum_infos@.len() == 0,
    {
        TypeEnv {
            classes: Vec::new(),
            generic_classes: Vec::new(),
            enums: Vec::new(),
            generic_enums: Vec::new(),
            traits: Vec::new(),
            instantiations: Vec::new(),
            enum_infos: Vec::new(),
        }
    }
}

/// The text of a resolved type, as it is written in source.
pub open spec fn pt_text(t: PlutoTypeM) -> Seq<char> {
    te_text(pt_to_te(t))
}

/// The models of a list of resolved types.
pub open spec fn pt_models(args: Seq<PlutoType>) -> Seq<PlutoTypeM> {
    args.map_values(|a: PlutoType| a.model())
}

/// The texts of a list of resolved types.
pub open spec fn pt_texts(args: Seq<PlutoTypeM>) -> Seq<Seq<char>> {
    args.map_values(|a: PlutoTypeM| pt_text(a))
}

/// The name of a generic item instantiated at `args`: the base name, then
/// each argument's text, each preceded by `$`.
pub open spec fn spec_mangle_name(name: Seq<char>, args: Seq<PlutoTypeM>) -> Seq<char> {
    if args.len() == 0 {
        name
    } else {
        name + "$"@ + join_with(pt_texts(args), "$"@)
    }
}

pub fn mangle_name(name: &str, args: &[PlutoType]) -> (r: String)
    ensures
        r@ == spec_mangle_name(name@, pt_models(args@)),
{
    let mut out = String::from_str(name);
    if args.len() == 0 {
        return out;
    }
    out.append("$");
    let ghost base = out@;
    let mut i: usize = 0;
    while i < args.len()
        invariant
            i <= args.len(),
            out@ == base + join_with(pt_texts(pt_models(args@)).take(i as int), "$"@),
        decreases args.len() - i,
    {
        proof {
            lemma_join_take_step(pt_texts(pt_models(args@)), "$"@, i as int);
        }
        if i > 0 {
            out.append("$");
        }
        let te = pluto_type_to_type_expr(&args[i]);
        let mut pp = PrettyPrinter::new();
        pp.emit_type_expr(&te);
        out.append(pp.buf.as_str());
        i += 1;
        proof {
            assert(out@ =~= base + join_with(pt_texts(pt_models(args@)).take(i as int), "$"@));
        }
    }
    proof {
        assert(pt_texts(pt_models(args@)).take(i as int) =~= pt_texts(pt_models(args@)));
    }
    out
}

} // verus!
