//! The text of the glue crate that exposes the bridged Rust functions with the
//! C ABI: its `Cargo.toml` and its `src/lib.rs`.

use vstd::prelude::*;
use vstd::string::StringExecFns;
use crate::text::join_with;
use crate::text::lemma_join_take_step;
use crate::pretty::push_char;
use crate::rust_ffi::parser::RustType;
use crate::rust_ffi::parser::RustFnSig;
use crate::rust_ffi::parser::SigM;
use crate::rust_ffi::parser::sigs_model;
use crate::rust_ffi::parser::params_model;
use crate::rust_ffi::spec_rust_type_to_c_type;
use crate::rust_ffi::rust_type_to_c_type;
use crate::rust_ffi::metadata::slashes;
use crate::rust_ffi::metadata::with_forward_slashes;

verus! {

/// A Rust crate to bridge: the alias it is imported under, its lib target name,
/// its manifest directory, and the signatures found in it.
pub struct CrateInfo {
    pub alias: String,
    pub lib_name: String,
    pub manifest_dir: String,
    pub functions: Vec<RustFnSig>,
}

// ── Cargo.toml ──────────────────────────────────────────────────────

/// The dependency line for one crate.
pub open spec fn dependency_line(c: CrateInfo) -> Seq<char> {
    c.lib_name@ + " = { path = \""@ + slashes(c.manifest_dir@) + "\" }\n"@
}

/// The dependency lines of the first crates.
pub open spec fn dependency_lines(cs: Seq<CrateInfo>) -> Seq<char>
    decreases cs.len(),
{
    if cs.len() == 0 {
        Seq::empty()
    } else {
        dependency_lines(cs.drop_last()) + dependency_line(cs.last())
    }
}

/// The glue crate's `Cargo.toml`: a static library depending on each crate by path.
pub open spec fn glue_cargo_toml_text(cs: Seq<CrateInfo>) -> Seq<char> {
    "[package]\nname = \"pluto_ffi_glue\"\nversion = \"0.1.0\"\nedition = \"2021\"\n\n[lib]\ncrate-type = [\"staticlib\"]\n\n[dependencies]\n"@
        + dependency_lines(cs)
}

/// The glue crate's `Cargo.toml`.
pub fn glue_cargo_toml(crates: &[CrateInfo]) -> (s: String)
    ensures
        s@ == glue_cargo_toml_text(crates@),
{
    let mut cargo_toml = String::from_str(
        "[package]\nname = \"pluto_ffi_glue\"\nversion = \"0.1.0\"\nedition = \"2021\"\n\n[lib]\ncrate-type = [\"staticlib\"]\n\n[dependencies]\n",
    );
    let ghost head = cargo_toml@;
    let mut k: usize = 0;
    while k < crates.len()
        invariant
            k <= crates@.len(),
            cargo_toml@ == head + dependency_lines(crates@.take(k as int)),
        decreases crates@.len() - k,
    {
        let info = &crates[k];
        let dep_path = with_forward_slashes(info.manifest_dir.as_str());
        cargo_toml.append(info.lib_name.as_str());
        cargo_toml.append(" = { path = \"");
        cargo_toml.append(dep_path.as_str());
        cargo_toml.append("\" }\n");
        proof {
            assert(crates@.take(k + 1).drop_last() =~= crates@.take(k as int));
            assert(cargo_toml@ =~= head + dependency_lines(crates@.take(k + 1)));
        }
        k += 1;
    }
    proof {
        assert(crates@.take(k as int) =~= crates@);
    }
    cargo_toml
}

// ── src/lib.rs ──────────────────────────────────────────────────────

/// A parameter of a wrapper, typed as it crosses the C ABI.
pub open spec fn param_decl(p: (Seq<char>, RustType)) -> Seq<char> {
    p.0 + ": "@ + spec_rust_type_to_c_type(p.1)
}

/// A parameter passed on to the wrapped function (an `i8` flag becomes a `bool`).
pub open spec fn param_arg(p: (Seq<char>, RustType)) -> Seq<char> {
    match p.1 {
        RustType::Bool => p.0 + " != 0"@,
        _ => p.0,
    }
}

pub open spec fn param_decls(ps: Seq<(Seq<char>, RustType)>) -> Seq<Seq<char>> {
    ps.map_values(|p: (Seq<char>, RustType)| param_decl(p))
}

pub open spec fn param_args(ps: Seq<(Seq<char>, RustType)>) -> Seq<Seq<char>> {
    ps.map_values(|p: (Seq<char>, RustType)| param_arg(p))
}

/// The name a bridged function has in Pluto: `alias.name`.
pub open spec fn pluto_fn_name(alias: Seq<char>, name: Seq<char>) -> Seq<char> {
    alias + "."@ + name
}

/// The Rust name of a wrapper: `__` and the Pluto name with dots as underscores.
pub open spec fn wrapper_fn_name(pluto: Seq<char>) -> Seq<char> {
    "__"@ + pluto.map_values(|c: char| if c == '.' { '_' } else { c })
}

/// The arm that aborts when the wrapped function panics.
pub open spec fn panic_arm(pluto: Seq<char>) -> Seq<char> {
    "Err(_) => { eprintln!(\"fatal: panic in Rust FFI '"@ + pluto + "'\"); abort(); }"@
}

/// A line of the error arm's block.
pub open spec fn arm_line(x: Seq<char>) -> Seq<char> {
    "                "@ + x + "\n"@
}

/// The error arm of a fallible wrapper: raise the error's text as a Pluto error,
/// then give the dummy value, if the function returns one.
pub open spec fn err_arm(dummy: Option<Seq<char>>) -> Seq<char> {
    "Ok(Err(e)) => unsafe {\n"@
        + arm_line("let msg = format!(\"{}\", e);"@)
        + arm_line("let msg_ptr = __pluto_string_new(msg.as_ptr(), msg.len() as i64);"@)
        + arm_line("let err_obj = __pluto_alloc(8);"@)
        + arm_line("*(err_obj as *mut i64) = msg_ptr as i64;"@)
        + arm_line("__pluto_raise_error(err_obj);"@)
        + match dummy {
            Some(d) => arm_line(d),
            None => Seq::empty(),
        }
        + "            },"@
}

/// The C return type of a wrapper.
pub open spec fn ret_text(rt: Option<RustType>) -> Seq<char> {
    match rt {
        Some(t) => " -> "@ + spec_rust_type_to_c_type(t),
        None => Seq::empty(),
    }
}

/// The success arm of a fallible wrapper.
pub open spec fn fallible_ok(rt: Option<RustType>) -> Seq<char> {
    match rt {
        None => "Ok(Ok(())) => {}"@,
        Some(RustType::Bool) => "Ok(Ok(true)) => 1i8,\n            Ok(Ok(false)) => 0i8,"@,
        Some(_) => "Ok(Ok(v)) => v,"@,
    }
}

/// The value a fallible wrapper returns after raising an error.
pub open spec fn fallible_dummy(rt: Option<RustType>) -> Option<Seq<char>> {
    match rt {
        None => None,
        Some(RustType::Bool) => Some("0i8"@),
        Some(RustType::I64) => Some("0i64"@),
        Some(RustType::F64) => Some("0.0f64"@),
    }
}

/// The success arm of a wrapper that cannot fail.
pub open spec fn plain_ok(rt: Option<RustType>) -> Seq<char> {
    match rt {
        None => "Ok(()) => {}"@,
        Some(RustType::Bool) => "Ok(true) => 1,\n        Ok(false) => 0,"@,
        Some(_) => "Ok(v) => v,"@,
    }
}

/// The head of a wrapper, up to its first match arm.
pub open spec fn wrapper_head(lib: Seq<char>, alias: Seq<char>, sig: SigM) -> Seq<char> {
    let pluto = pluto_fn_name(alias, sig.name);
    "#[export_name = \""@ + pluto + "\"]\npub extern \"C\" fn "@ + wrapper_fn_name(pluto) + "("@
        + join_with(param_decls(sig.params), ", "@) + ")"@ + ret_text(sig.return_type)
        + " {\n    match catch_unwind(|| "@ + lib + "::"@ + sig.name + "("@
        + join_with(param_args(sig.params), ", "@) + ")) {\n        "@
}

/// The C-ABI wrapper of one function of crate `lib` imported as `alias`: it
/// catches panics (and aborts), and for a `Result` raises the error in Pluto.
pub open spec fn wrapper_text(lib: Seq<char>, alias: Seq<char>, sig: SigM) -> Seq<char> {
    let pluto = pluto_fn_name(alias, sig.name);
    if sig.is_fallible {
        wrapper_head(lib, alias, sig) + fallible_ok(sig.return_type) + "\n        "@
            + err_arm(fallible_dummy(sig.return_type)) + "\n        "@ + panic_arm(pluto)
            + "\n    }\n}\n\n"@
    } else {
        wrapper_head(lib, alias, sig) + plain_ok(sig.return_type) + "\n        "@ + panic_arm(pluto)
            + "\n    }\n}\n\n"@
    }
}

/// The wrappers of the first signatures.
pub open spec fn wrappers_text(lib: Seq<char>, alias: Seq<char>, sigs: Seq<SigM>) -> Seq<char>
    decreases sigs.len(),
{
    if sigs.len() == 0 {
        Seq::empty()
    } else {
        wrappers_text(lib, alias, sigs.drop_last()) + wrapper_text(lib, alias, sigs.last())
    }
}

/// The section of one crate.
pub open spec fn crate_text(c: CrateInfo) -> Seq<char> {
    "// --- crate: "@ + c.lib_name@ + ", alias: "@ + c.alias@ + " ---\n\n"@
        + wrappers_text(c.lib_name@, c.alias@, sigs_model(c.functions@))
}

/// The sections of the first crates.
pub open spec fn crates_text(cs: Seq<CrateInfo>) -> Seq<char>
    decreases cs.len(),
{
    if cs.len() == 0 {
        Seq::empty()
    } else {
        crates_text(cs.drop_last()) + crate_text(cs.last())
    }
}

/// Some bridged function returns a `Result`.
pub open spec fn any_fallible(cs: Seq<CrateInfo>) -> bool {
    exists|i: int, j: int| 0 <= i < cs.len() && 0 <= j < cs[i].functions@.len() && (#[trigger] cs[i].functions@[j]).is_fallible
}

/// The declarations of the Pluto runtime functions that raise an error.
pub open spec fn runtime_externs() -> Seq<char> {
    "extern \"C\" {\n"@ + "    fn __pluto_alloc(size: i64) -> *mut u8;\n"@
        + "    fn __pluto_string_new(data: *const u8, len: i64) -> *mut u8;\n"@
        + "    fn __pluto_raise_error(error_obj: *mut u8);\n"@ + "}\n\n"@
}

/// The glue crate's `src/lib.rs`.
pub open spec fn glue_lib_rs_text(cs: Seq<CrateInfo>) -> Seq<char> {
    "use std::panic::catch_unwind;\nuse std::process::abort;\n\n"@
        + (if any_fallible(cs) { runtime_externs() } else { Seq::empty() })
        + crates_text(cs)
}

// ── Building src/lib.rs ─────────────────────────────────────────────

/// The parameters of a wrapper, comma-separated.
fn params_decl_string(params: &Vec<(String, RustType)>) -> (s: String)
    ensures
        s@ == join_with(param_decls(params_model(params@)), ", "@),
{
    let ghost parts = param_decls(params_model(params@));
    let mut s = String::new();
    let mut k: usize = 0;
    while k < params.len()
        invariant
            k <= params@.len(),
            parts == param_decls(params_model(params@)),
            parts.len() == params@.len(),
            s@ == join_with(parts.take(k as int), ", "@),
        decreases params@.len() - k,
    {
        proof {
            lemma_join_take_step(parts, ", "@, k as int);
        }
        let ghost prefix = s@;
        if k > 0 {
            s.append(", ");
        }
        s.append(params[k].0.as_str());
        s.append(": ");
        s.append(rust_type_to_c_type(&params[k].1));
        proof {
            assert(parts[k as int] == param_decl(params_model(params@)[k as int]));
            assert(s@ =~= join_with(parts.take(k + 1), ", "@));
        }
        k += 1;
    }
    proof {
        assert(parts.take(k as int) =~= parts);
    }
    s
}

/// The arguments a wrapper passes on, comma-separated.
fn args_string(params: &Vec<(String, RustType)>) -> (s: String)
    ensures
        s@ == join_with(param_args(params_model(params@)), ", "@),
{
    let ghost parts = param_args(params_model(params@));
    let mut s = String::new();
    let mut k: usize = 0;
    while k < params.len()
        invariant
            k <= params@.len(),
            parts == param_args(params_model(params@)),
            parts.len() == params@.len(),
            s@ == join_with(parts.take(k as int), ", "@),
        decreases params@.len() - k,
    {
        proof {
            lemma_join_take_step(parts, ", "@, k as int);
        }
        if k > 0 {
            s.append(", ");
        }
        s.append(params[k].0.as_str());
        match params[k].1 {
            RustType::Bool => {
                s.append(" != 0");
            },
            _ => {},
        }
        proof {
            assert(parts[k as int] == param_arg(params_model(params@)[k as int]));
            assert(s@ =~= join_with(parts.take(k + 1), ", "@));
        }
        k += 1;
    }
    proof {
        assert(parts.take(k as int) =~= parts);
    }
    s
}

/// The Rust name of the wrapper of `pluto`.
fn wrapper_fn_name_string(pluto: &str) -> (s: String)
    ensures
        s@ == wrapper_fn_name(pluto@),
{
    let cs = crate::text::chars_of(pluto);
    let mut mapped = String::new();
    let mut k: usize = 0;
    while k < cs.len()
        invariant
            k <= cs@.len(),
            cs@ == pluto@,
            mapped@ == cs@.take(k as int).map_values(|c: char| if c == '.' { '_' } else { c }),
        decreases cs@.len() - k,
    {
        let c = cs[k];
        push_char(&mut mapped, if c == '.' { '_' } else { c });
        proof {
            assert(cs@.take(k + 1).map_values(|c: char| if c == '.' { '_' } else { c }) =~= cs@.take(k as int).map_values(
                |c: char| if c == '.' { '_' } else { c },
            ).push(if c == '.' { '_' } else { c }));
        }
        k += 1;
    }
    proof {
        assert(cs@.take(k as int) =~= cs@);
    }
    let mut s = String::from_str("__");
    s.append(mapped.as_str());
    s
}

/// The C return type of a wrapper.
fn ret_string(rt: &Option<RustType>) -> (s: String)
    ensures
        s@ == ret_text(*rt),
{
    match rt {
        Some(t) => {
            let mut s = String::from_str(" -> ");
            s.append(rust_type_to_c_type(t));
            s
        },
        None => String::new(),
    }
}

fn fallible_ok_str(rt: &Option<RustType>) -> (s: &'static str)
    ensures
        s@ == fallible_ok(*rt),
{
    match rt {
        None => "Ok(Ok(())) => {}",
        Some(RustType::Bool) => "Ok(Ok(true)) => 1i8,\n            Ok(Ok(false)) => 0i8,",
        Some(_) => "Ok(Ok(v)) => v,",
    }
}

fn plain_ok_str(rt: &Option<RustType>) -> (s: &'static str)
    ensures
        s@ == plain_ok(*rt),
{
    match rt {
        None => "Ok(()) => {}",
        Some(RustType::Bool) => "Ok(true) => 1,\n        Ok(false) => 0,",
        Some(_) => "Ok(v) => v,",
    }
}

/// The error arm of a fallible wrapper of a function returning `rt`.
fn err_arm_string(rt: &Option<RustType>) -> (s: String)
    ensures
        s@ == err_arm(fallible_dummy(*rt)),
{
    let mut s = String::from_str("Ok(Err(e)) => unsafe {\n");
    s.append("                ");
    s.append("let msg = format!(\"{}\", e);");
    s.append("\n");
    s.append("                ");
    s.append("let msg_ptr = __pluto_string_new(msg.as_ptr(), msg.len() as i64);");
    s.append("\n");
    s.append("                ");
    s.append("let err_obj = __pluto_alloc(8);");
    s.append("\n");
    s.append("                ");
    s.append("*(err_obj as *mut i64) = msg_ptr as i64;");
    s.append("\n");
    s.append("                ");
    s.append("__pluto_raise_error(err_obj);");
    s.append("\n");
    let ghost lines = s@;
    let dummy: Option<&str> = match rt {
        None => None,
        Some(RustType::Bool) => Some("0i8"),
        Some(RustType::I64) => Some("0i64"),
        Some(RustType::F64) => Some("0.0f64"),
    };
    if let Some(d) = dummy {
        s.append("                ");
        s.append(d);
        s.append("\n");
    }
    s.append("            },");
    proof {
        let d_text = match fallible_dummy(*rt) {
            Some(d) => arm_line(d),
            None => Seq::<char>::empty(),
        };
        assert(s@ =~= lines + d_text + "            },"@);
    }
    s
}

/// The C-ABI wrapper of one function of crate `lib` imported as `alias`.
fn wrapper_string(lib: &str, alias: &str, sig: &RustFnSig) -> (s: String)
    ensures
        s@ == wrapper_text(lib@, alias@, sig.model()),
{
    let mut pluto_name = String::from_str(alias);
    pluto_name.append(".");
    pluto_name.append(sig.name.as_str());
    let rust_fn_name = wrapper_fn_name_string(pluto_name.as_str());
    let params_str = params_decl_string(&sig.params);
    let args_str = args_string(&sig.params);
    let ret_type = ret_string(&sig.return_type);
    let mut s = String::from_str("#[export_name = \"");
    s.append(pluto_name.as_str());
    s.append("\"]\npub extern \"C\" fn ");
    s.append(rust_fn_name.as_str());
    s.append("(");
    s.append(params_str.as_str());
    s.append(")");
    s.append(ret_type.as_str());
    s.append(" {\n    match catch_unwind(|| ");
    s.append(lib);
    s.append("::");
    s.append(sig.name.as_str());
    s.append("(");
    s.append(args_str.as_str());
    s.append(")) {\n        ");
    let ghost head = s@;
    assert(head == wrapper_head(lib@, alias@, sig.model()));
    let mut panic_arm = String::from_str("Err(_) => { eprintln!(\"fatal: panic in Rust FFI '");
    panic_arm.append(pluto_name.as_str());
    panic_arm.append("'\"); abort(); }");
    if sig.is_fallible {
        s.append(fallible_ok_str(&sig.return_type));
        s.append("\n        ");
        let err = err_arm_string(&sig.return_type);
        s.append(err.as_str());
        s.append("\n        ");
        s.append(panic_arm.as_str());
        s.append("\n    }\n}\n\n");
    } else {
        s.append(plain_ok_str(&sig.return_type));
        s.append("\n        ");
        s.append(panic_arm.as_str());
        s.append("\n    }\n}\n\n");
    }
    s
}

/// Whether some bridged function returns a `Result`.
fn has_fallible(crates: &[CrateInfo]) -> (b: bool)
    ensures
        b == any_fallible(crates@),
{
    let mut i: usize = 0;
    while i < crates.len()
        invariant
            i <= crates@.len(),
            forall|a: int, j: int| 0 <= a < i && 0 <= j < crates@[a].functions@.len() ==> !(#[trigger] crates@[a].functions@[j]).is_fallible,
        decreases crates@.len() - i,
    {
        let fs = &crates[i].functions;
        let mut j: usize = 0;
        while j < fs.len()
            invariant
                i < crates@.len(),
                fs == crates@[i as int].functions,
                j <= fs@.len(),
                forall|b: int| 0 <= b < j ==> !(#[trigger] fs@[b]).is_fallible,
            decreases fs@.len() - j,
        {
            if fs[j].is_fallible {
                proof {
                    assert(crates@[i as int].functions@[j as int].is_fallible);
                }
                return true;
            }
            j += 1;
        }
        i += 1;
    }
    false
}

/// The glue crate's `src/lib.rs`: a C-ABI wrapper for each bridged function,
/// grouped by crate, with the runtime's error functions declared when a
/// function returns a `Result`.
pub fn glue_lib_rs(crates: &[CrateInfo]) -> (s: String)
    ensures
        s@ == glue_lib_rs_text(crates@),
{
    let mut lib_rs = String::from_str("use std::panic::catch_unwind;\nuse std::process::abort;\n\n");
    let ghost top = lib_rs@;
    if has_fallible(crates) {
        lib_rs.append("extern \"C\" {\n");
        lib_rs.append("    fn __pluto_alloc(size: i64) -> *mut u8;\n");
        lib_rs.append("    fn __pluto_string_new(data: *const u8, len: i64) -> *mut u8;\n");
        lib_rs.append("    fn __pluto_raise_error(error_obj: *mut u8);\n");
        lib_rs.append("}\n\n");
        proof {
            assert(lib_rs@ =~= top + runtime_externs());
        }
    } else {
        proof {
            assert(lib_rs@ =~= top + Seq::<char>::empty());
        }
    }
    let ghost pre = lib_rs@;
    let mut k: usize = 0;
    while k < crates.len()
        invariant
            k <= crates@.len(),
            lib_rs@ == pre + crates_text(crates@.take(k as int)),
        decreases crates@.len() - k,
    {
        let info = &crates[k];
        let ghost before = lib_rs@;
        lib_rs.append("// --- crate: ");
        lib_rs.append(info.lib_name.as_str());
        lib_rs.append(", alias: ");
        lib_rs.append(info.alias.as_str());
        lib_rs.append(" ---\n\n");
        let ghost crate_head = "// --- crate: "@ + info.lib_name@ + ", alias: "@ + info.alias@ + " ---\n\n"@;
        proof {
            assert(lib_rs@ =~= before + crate_head);
        }
        let ghost sigs = sigs_model(info.functions@);
        let mut j: usize = 0;
        while j < info.functions.len()
            invariant
                k < crates@.len(),
                info == crates@[k as int],
                sigs == sigs_model(info.functions@),
                j <= info.functions@.len(),
                lib_rs@ == before + crate_head + wrappers_text(info.lib_name@, info.alias@, sigs.take(j as int)),
            decreases info.functions@.len() - j,
        {
            let w = wrapper_string(info.lib_name.as_str(), info.alias.as_str(), &info.functions[j]);
            let ghost mid = lib_rs@;
            lib_rs.append(w.as_str());
            proof {
                assert(sigs.take(j + 1).drop_last() =~= sigs.take(j as int));
                assert(lib_rs@ =~= before + crate_head + wrappers_text(info.lib_name@, info.alias@, sigs.take(j + 1)));
            }
            j += 1;
        }
        proof {
            assert(sigs.take(j as int) =~= sigs);
            assert(crates@.take(k + 1).drop_last() =~= crates@.take(k as int));
            assert(lib_rs@ =~= pre + crates_text(crates@.take(k + 1)));
        }
        k += 1;
    }
    proof {
        assert(crates@.take(k as int) =~= crates@);
    }
    lib_rs
}

// ── How a bool crosses the C ABI ────────────────────────────────────

/// `d` is a one-digit integer literal that the wrappers' parameter decoding
/// (`x != 0`) reads back as `b`.
pub open spec fn reads_back(d: Seq<char>, b: bool) -> bool {
    d.len() == 1 && '0' <= d[0] <= '9' && ((d[0] != '0') == b)
}

/// A bool crosses the C ABI one way everywhere: a parameter flag is decoded
/// with `!= 0`, and the plain and the fallible wrappers both encode a
/// returned `true` and `false` as the same digits, which that decoding reads
/// back as the value returned.
pub proof fn lemma_bool_crosses_abi_consistently()
    ensures
        forall|n: Seq<char>| #[trigger] param_arg((n, RustType::Bool)) == n + " != 0"@,
        exists|t: Seq<char>, f: Seq<char>| #[trigger] reads_back(t, true) && #[trigger] reads_back(f, false)
            && plain_ok(Some(RustType::Bool)) == "Ok(true) => "@ + t + ",\n        Ok(false) => "@ + f + ","@
            && fallible_ok(Some(RustType::Bool)) == "Ok(Ok(true)) => "@ + t + "i8,\n            Ok(Ok(false)) => "@ + f + "i8,"@
            && fallible_dummy(Some(RustType::Bool)) == Some(f + "i8"@),
{
    let t = "1"@;
    let f = "0"@;
    reveal_strlit("1");
    reveal_strlit("0");
    reveal_strlit("Ok(true) => ");
    reveal_strlit(",\n        Ok(false) => ");
    reveal_strlit(",");
    reveal_strlit("Ok(true) => 1,\n        Ok(false) => 0,");
    reveal_strlit("Ok(Ok(true)) => ");
    reveal_strlit("i8,\n            Ok(Ok(false)) => ");
    reveal_strlit("i8,");
    reveal_strlit("Ok(Ok(true)) => 1i8,\n            Ok(Ok(false)) => 0i8,");
    reveal_strlit("i8");
    reveal_strlit("0i8");
    assert(reads_back(t, true));
    assert(reads_back(f, false));
    assert(plain_ok(Some(RustType::Bool)) =~= "Ok(true) => "@ + t + ",\n        Ok(false) => "@ + f + ","@);
    assert(fallible_ok(Some(RustType::Bool)) =~= "Ok(Ok(true)) => "@ + t + "i8,\n            Ok(Ok(false)) => "@ + f + "i8,"@);
    assert(f + "i8"@ =~= "0i8"@);
}

} // verus!
