pub mod parser;
pub mod metadata;
pub mod glue;

use vstd::prelude::*;
use vstd::string::StringExecFns;
use std::path::PathBuf;
use crate::parser::ast::TypeExpr;
use crate::parser::ast::TypeExprM;
use crate::typeck::types::PlutoType;
use crate::typeck::types::PlutoTypeM;
use crate::text::chars_of;
use crate::pretty::push_char;
use parser::RustType;
use parser::RustFnSig;
use parser::char_is_whitespace;
use parser::skip_ws;
use parser::find_char;
use crate::typeck::env::names;
use crate::typeck::env::names_contain;
use crate::diagnostics::CompileError;
use crate::span::Span;
use crate::span::Spanned;
use crate::parser::ast::ExternRustDecl;
use crate::parser::ast::ExternFnDecl;
use crate::parser::ast::Param;
use crate::text::decimal;
use crate::text::push_decimal;
use crate::parser::ast::fresh_id;
use crate::text::string_of_range;
use crate::text::str_eq;
use metadata::find_from;
use metadata::opt_int;
use glue::CrateInfo;

verus! {

/// The static library built for the `extern rust` crates, its native link
/// libraries, and the functions bridged from one crate.
pub struct RustCrateArtifact {
    pub static_lib: PathBuf,
    pub native_libs: Vec<String>,
    pub functions: Vec<BridgedFunction>,
}

/// A Rust function made callable from Pluto.
pub struct BridgedFunction {
    pub pluto_name: String,
    pub symbol_name: String,
    pub params: Vec<PlutoType>,
    pub return_type: PlutoType,
    pub is_fallible: bool,
}

pub open spec fn spec_rust_type_to_pluto(rt: RustType) -> PlutoTypeM {
    match rt {
        RustType::I64 => PlutoTypeM::Int,
        RustType::F64 => PlutoTypeM::Float,
        RustType::Bool => PlutoTypeM::Bool,
    }
}

pub fn rust_type_to_pluto(rt: &RustType) -> (t: PlutoType)
    ensures
        t.model() == spec_rust_type_to_pluto(*rt),
{
    match rt {
        RustType::I64 => PlutoType::Int,
        RustType::F64 => PlutoType::Float,
        RustType::Bool => PlutoType::Bool,
    }
}

/// The C ABI type a bridged value of this Rust type crosses as (booleans as `i8`).
pub open spec fn spec_rust_type_to_c_type(rt: RustType) -> Seq<char> {
    match rt {
        RustType::I64 => "i64"@,
        RustType::F64 => "f64"@,
        RustType::Bool => "i8"@,
    }
}

pub fn rust_type_to_c_type(rt: &RustType) -> (s: &'static str)
    ensures
        s@ == spec_rust_type_to_c_type(*rt),
{
    match rt {
        RustType::I64 => "i64",
        RustType::F64 => "f64",
        RustType::Bool => "i8",
    }
}

/// The types that can cross the Rust bridge.
pub open spec fn is_bridge_type(t: PlutoTypeM) -> bool {
    t == PlutoTypeM::Int || t == PlutoTypeM::Float || t == PlutoTypeM::Bool || t == PlutoTypeM::Void
}

/// The named type expression of a bridged type.
pub fn pluto_type_to_type_expr(ty: &PlutoType) -> (te: TypeExpr)
    requires
        is_bridge_type(ty.model()),
    ensures
        te.model() == TypeExprM::Named(match ty.model() {
            PlutoTypeM::Int => "int"@,
            PlutoTypeM::Float => "float"@,
            PlutoTypeM::Bool => "bool"@,
            _ => "void"@,
        }),
{
    match ty {
        PlutoType::Int => TypeExpr::Named(String::from_str("int")),
        PlutoType::Float => TypeExpr::Named(String::from_str("float")),
        PlutoType::Bool => TypeExpr::Named(String::from_str("bool")),
        _ => TypeExpr::Named(String::from_str("void")),
    }
}

/// The djb2 hash (times 33, plus byte; wrapping) of a byte sequence.
pub open spec fn spec_simple_hash(b: Seq<u8>) -> u64
    decreases b.len(),
{
    if b.len() == 0 {
        5381
    } else {
        vstd::wrapping::u64_specs::wrapping_add(
            vstd::wrapping::u64_specs::wrapping_mul(spec_simple_hash(b.drop_last()), 33),
            b.last() as u64,
        )
    }
}

/// A hash of the UTF-8 bytes of `s`, used to name a build directory.
pub fn simple_hash(s: &str) -> (h: u64)
    ensures
        h == spec_simple_hash(vstd::string::StringSliceAdditionalSpecFns::spec_bytes(s)),
{
    let bytes = s.as_bytes();
    let mut hash: u64 = 5381;
    let mut i: usize = 0;
    while i < bytes.len()
        invariant
            i <= bytes@.len(),
            hash == spec_simple_hash(bytes@.take(i as int)),
        decreases bytes.len() - i,
    {
        proof {
            assert(bytes@.take(i + 1).drop_last() =~= bytes@.take(i as int));
        }
        hash = hash.wrapping_mul(33).wrapping_add(bytes[i] as u64);
        i += 1;
    }
    proof {
        assert(bytes@.take(i as int) =~= bytes@);
    }
    hash
}

// ── ANSI escapes ────────────────────────────────────────────────────

/// The index just past the first `m` at or after `j`, or the end of `s`.
pub open spec fn escape_end(s: Seq<char>, j: int) -> int
    decreases s.len() - j,
{
    if j >= s.len() {
        s.len() as int
    } else if s[j] == 'm' {
        j + 1
    } else {
        escape_end(s, j + 1)
    }
}

pub proof fn lemma_escape_end_after(s: Seq<char>, j: int)
    requires
        0 <= j,
    ensures
        j <= escape_end(s, j) <= s.len() || (j > s.len() && escape_end(s, j) == s.len()),
    decreases s.len() - j,
{
    if j < s.len() && s[j] != 'm' {
        lemma_escape_end_after(s, j + 1);
    }
}

/// The characters of `s` from `i` on, with each ANSI escape sequence (from an
/// escape character up to and including the next `m`) removed.
pub open spec fn strip_ansi_from(s: Seq<char>, i: int) -> Seq<char>
    decreases s.len() - i,
{
    if i < 0 || i >= s.len() {
        Seq::empty()
    } else if s[i] == '\u{1b}' {
        proof {
            lemma_escape_end_after(s, i + 1);
        }
        strip_ansi_from(s, escape_end(s, i + 1))
    } else {
        seq![s[i]] + strip_ansi_from(s, i + 1)
    }
}

/// Removes ANSI escape sequences: an escape character and everything up to and
/// including the next `m`.
pub fn strip_ansi(s: &str) -> (out: String)
    ensures
        out@ == strip_ansi_from(s@, 0),
{
    let cs = chars_of(s);
    let mut out = String::new();
    let mut i: usize = 0;
    while i < cs.len()
        invariant
            i <= cs.len(),
            cs@ == s@,
            out@ + strip_ansi_from(cs@, i as int) == strip_ansi_from(cs@, 0),
        decreases cs.len() - i,
    {
        if cs[i] == '\u{1b}' {
            let ghost i0 = i as int;
            i += 1;
            while i < cs.len() && cs[i] != 'm'
                invariant
                    i0 < i <= cs.len(),
                    escape_end(cs@, i as int) == escape_end(cs@, i0 + 1),
                decreases cs.len() - i,
            {
                i += 1;
            }
            if i < cs.len() {
                i += 1;
            }
        } else {
            let ghost prev = out@;
            push_char(&mut out, cs[i]);
            proof {
                assert(out@ + strip_ansi_from(cs@, i + 1) =~= prev + strip_ansi_from(cs@, i as int));
            }
            i += 1;
        }
    }
    proof {
        assert(out@ =~= out@ + strip_ansi_from(cs@, i as int));
    }
    out
}

// ── Native libraries ────────────────────────────────────────────────

/// The first whitespace at or after `i`, or the end.
pub open spec fn skip_non_ws(s: Seq<char>, i: int) -> int
    decreases s.len() - i,
{
    if 0 <= i < s.len() && !char_is_whitespace(s[i]) {
        skip_non_ws(s, i + 1)
    } else {
        i
    }
}

pub proof fn lemma_skip_non_ws(s: Seq<char>, i: int)
    requires
        0 <= i <= s.len(),
    ensures
        i <= skip_non_ws(s, i) <= s.len(),
        i < s.len() && !char_is_whitespace(s[i]) ==> i < skip_non_ws(s, i),
    decreases s.len() - i,
{
    if i < s.len() && !char_is_whitespace(s[i]) {
        lemma_skip_non_ws(s, i + 1);
    }
}

/// The whitespace-separated words of `s` from `i` on.
pub open spec fn words_from(s: Seq<char>, i: int) -> Seq<Seq<char>>
    decreases s.len() - i,
{
    if 0 <= i <= s.len() {
        proof {
            parser::lemma_scans_advance(s, i, ' ');
        }
        let a = skip_ws(s, i);
        if a < s.len() {
            proof {
                lemma_skip_non_ws(s, a);
                skip_ws_stops(s, i);
            }
            let b = skip_non_ws(s, a);
            seq![s.subrange(a, b)] + words_from(s, b)
        } else {
            Seq::empty()
        }
    } else {
        Seq::empty()
    }
}

pub proof fn skip_ws_stops(s: Seq<char>, i: int)
    requires
        0 <= i <= s.len(),
    ensures
        skip_ws(s, i) < s.len() ==> !char_is_whitespace(s[skip_ws(s, i)]),
    decreases s.len() - i,
{
    if i < s.len() && char_is_whitespace(s[i]) {
        skip_ws_stops(s, i + 1);
    }
}

/// The words of `s`, split at whitespace.
fn split_words(s: &str) -> (v: Vec<String>)
    ensures
        names(v@) == words_from(s@, 0),
{
    let cs = chars_of(s);
    let len = cs.len();
    let mut v: Vec<String> = Vec::new();
    let mut i: usize = 0;
    proof {
        assert(names(v@) =~= Seq::<Seq<char>>::empty());
    }
    while i < len
        invariant
            cs@ == s@,
            len == cs@.len(),
            i <= len,
            names(v@) + words_from(cs@, i as int) == words_from(cs@, 0),
        decreases len - i,
    {
        let a = parser::skip_ws_at(cs.as_slice(), i);
        if a >= len {
            proof {
                assert(words_from(cs@, i as int) =~= Seq::<Seq<char>>::empty());
            }
            i = len;
        } else {
            let mut b = a;
            while b < len && !parser::is_ws(cs[b])
                invariant
                    a <= b <= len,
                    len == cs@.len(),
                    skip_non_ws(cs@, b as int) == skip_non_ws(cs@, a as int),
                decreases len - b,
            {
                b += 1;
            }
            proof {
                skip_ws_stops(cs@, i as int);
                lemma_skip_non_ws(cs@, a as int);
            }
            let ghost before = names(v@);
            v.push(string_of_range(cs.as_slice(), a, b));
            proof {
                assert(names(v@) =~= before.push(cs@.subrange(a as int, b as int)));
                assert(names(v@) + words_from(cs@, b as int) =~= before + words_from(cs@, i as int));
            }
            i = b;
        }
    }
    proof {
        assert(words_from(cs@, i as int) =~= Seq::<Seq<char>>::empty());
        assert(names(v@) =~= names(v@) + words_from(cs@, i as int));
    }
    v
}

/// The native libraries to link when no build output names them.
pub open spec fn default_native_libs(on_macos: bool) -> Seq<Seq<char>> {
    if on_macos {
        seq!["-lSystem"@, "-lc"@, "-lm"@]
    } else {
        seq!["-lgcc_s"@, "-lpthread"@, "-lm"@, "-ldl"@, "-lc"@]
    }
}

/// The native libraries named by the build output: the words after
/// `native-static-libs:` on the line that first mentions it (ANSI escapes
/// removed), or the platform's defaults.
pub open spec fn spec_native_static_libs(stderr: Seq<char>, on_macos: bool) -> Seq<Seq<char>> {
    let s = strip_ansi_from(stderr, 0);
    match find_from(s, "native-static-libs:"@, 0) {
        Some(p) => {
            let start = p + "native-static-libs:"@.len();
            words_from(s.subrange(start, find_char(s, start, '\n')), 0)
        },
        None => default_native_libs(on_macos),
    }
}

/// The native libraries that `rustc --print native-static-libs` reported in
/// `stderr`; `on_macos` picks the defaults when it reported none.
pub fn parse_native_static_libs(stderr: &str, on_macos: bool) -> (libs: Vec<String>)
    ensures
        names(libs@) == spec_native_static_libs(stderr@, on_macos),
{
    let stripped = strip_ansi(stderr);
    let cs = chars_of(stripped.as_str());
    let n = cs.len();
    let key = chars_of("native-static-libs:");
    if let Some(pos) = metadata::find_seq_from(cs.as_slice(), key.as_slice(), 0) {
        let start = pos + key.len();
        let end = parser::find_char_at(cs.as_slice(), start, '\n');
        let libs_str = string_of_range(cs.as_slice(), start, end);
        return split_words(libs_str.as_str());
    }
    let mut libs: Vec<String> = Vec::new();
    if on_macos {
        libs.push(String::from_str("-lSystem"));
        libs.push(String::from_str("-lc"));
        libs.push(String::from_str("-lm"));
    } else {
        libs.push(String::from_str("-lgcc_s"));
        libs.push(String::from_str("-lpthread"));
        libs.push(String::from_str("-lm"));
        libs.push(String::from_str("-ldl"));
        libs.push(String::from_str("-lc"));
    }
    proof {
        assert(names(libs@) =~= default_native_libs(on_macos));
    }
    libs
}

// ── Checks across the extern rust declarations ─────────────────────

/// `a[j]` already occurs before index `j`.
pub open spec fn seen_before(a: Seq<Seq<char>>, j: int) -> bool {
    exists|k: int| 0 <= k < j && a[k] == a[j]
}

/// The first index from `j` on whose entry already occurred before it.
pub open spec fn first_repeat(a: Seq<Seq<char>>, j: int) -> Option<int>
    decreases a.len() - j,
{
    if j < 0 || j >= a.len() {
        None
    } else if seen_before(a, j) {
        Some(j)
    } else {
        first_repeat(a, j + 1)
    }
}

/// The aliases of the `extern rust` declarations.
pub open spec fn decl_aliases(decls: Seq<Spanned<ExternRustDecl>>) -> Seq<Seq<char>> {
    decls.map_values(|d: Spanned<ExternRustDecl>| d.node.alias.node@)
}

/// Every `extern rust` alias is used once; the first one given twice is an error
/// at the span of its second use.
pub fn check_extern_rust_aliases(decls: &[Spanned<ExternRustDecl>]) -> (r: Result<(), CompileError>)
    ensures
        match first_repeat(decl_aliases(decls@), 0) {
            None => r is Ok,
            Some(j) => r == Err::<(), CompileError>(CompileError::Syntax {
                msg: r->Err_0->Syntax_msg,
                span: decls@[j].node.alias.span,
            }) && r->Err_0->Syntax_msg@ == "duplicate extern rust alias '"@ + decl_aliases(decls@)[j] + "'"@,
        },
{
    let ghost a = decl_aliases(decls@);
    let mut seen: Vec<String> = Vec::new();
    let mut j: usize = 0;
    while j < decls.len()
        invariant
            j <= decls@.len(),
            a == decl_aliases(decls@),
            names(seen@) == a.take(j as int),
            first_repeat(a, j as int) == first_repeat(a, 0),
        decreases decls@.len() - j,
    {
        let alias = &decls[j].node.alias.node;
        if names_contain(&seen, alias.as_str()) {
            proof {
                let k = choose|k: int| 0 <= k < names(seen@).len() && names(seen@)[k] == alias@;
                assert(a[k] == a[j as int]);
                assert(seen_before(a, j as int));
            }
            let mut msg = String::from_str("duplicate extern rust alias '");
            msg.append(alias.as_str());
            msg.append("'");
            return Err(CompileError::syntax(msg, decls[j].node.alias.span));
        }
        proof {
            assert forall|k: int| 0 <= k < j implies a[k] != a[j as int] by {
                assert(names(seen@)[k] == a[k]);
            }
            assert(!seen_before(a, j as int));
        }
        let ghost before = names(seen@);
        seen.push(alias.clone());
        proof {
            assert(names(seen@) =~= a.take(j + 1));
        }
        j += 1;
    }
    Ok(())
}

/// The first index below `j` whose entry is `x`.
pub open spec fn first_index_of(a: Seq<Seq<char>>, x: Seq<char>, j: int) -> int
    decreases j,
{
    if j <= 0 {
        0
    } else if exists|k: int| 0 <= k < j - 1 && a[k] == x {
        first_index_of(a, x, j - 1)
    } else {
        j - 1
    }
}

/// The lib target names of the crates.
pub open spec fn crate_lib_names(cs: Seq<CrateInfo>) -> Seq<Seq<char>> {
    cs.map_values(|c: CrateInfo| c.lib_name@)
}

/// The error for two crates with the same lib target name.
pub open spec fn lib_name_clash_msg(prev: Seq<char>, alias: Seq<char>, lib: Seq<char>) -> Seq<char> {
    "extern rust crates '"@ + prev + "' and '"@ + alias + "' have the same lib target name '"@ + lib
        + "'; this is not supported"@
}

/// No two crates share a lib target name: the first crate whose name was taken
/// already is an error naming both aliases.
#[verifier::loop_isolation(false)]
pub fn check_lib_names(crates: &[CrateInfo]) -> (r: Result<(), CompileError>)
    ensures
        match first_repeat(crate_lib_names(crates@), 0) {
            None => r is Ok,
            Some(j) => r is Err && r->Err_0 is Codegen && r->Err_0->Codegen_msg@ == lib_name_clash_msg(
                crates@[first_index_of(crate_lib_names(crates@), crate_lib_names(crates@)[j], j)].alias@,
                crates@[j].alias@,
                crates@[j].lib_name@,
            ),
        },
{
    let ghost a = crate_lib_names(crates@);
    let mut seen: Vec<String> = Vec::new();
    let mut j: usize = 0;
    while j < crates.len()
        invariant
            j <= crates@.len(),
            a == crate_lib_names(crates@),
            names(seen@) == a.take(j as int),
            seen@.len() == j,
            first_repeat(a, j as int) == first_repeat(a, 0),
            forall|x: int, y: int| 0 <= x < y < j ==> a[x] != a[y],
        decreases crates@.len() - j,
    {
        let lib_name = &crates[j].lib_name;
        let mut k: usize = 0;
        while k < j
            invariant
                k <= j,
                forall|x: int| 0 <= x < k ==> a[x] != a[j as int],
            decreases j - k,
        {
            if str_eq(seen[k].as_str(), lib_name.as_str()) {
                proof {
                    assert(names(seen@)[k as int] == a[k as int]);
                    assert(seen_before(a, j as int));
                    lemma_first_index_of(a, a[j as int], j as int, k as int);
                }
                let prev_alias = &crates[k].alias;
                let mut msg = String::from_str("extern rust crates '");
                msg.append(prev_alias.as_str());
                msg.append("' and '");
                msg.append(crates[j].alias.as_str());
                msg.append("' have the same lib target name '");
                msg.append(lib_name.as_str());
                msg.append("'; this is not supported");
                return Err(CompileError::codegen(msg));
            }
            proof {
                assert(names(seen@)[k as int] == a[k as int]);
            }
            k += 1;
        }
        proof {
            assert(!seen_before(a, j as int));
        }
        seen.push(lib_name.clone());
        proof {
            assert(names(seen@) =~= a.take(j + 1));
            assert forall|x: int, y: int| 0 <= x < y < j + 1 implies a[x] != a[y] by {
                if y == j {
                    assert(a[x] != a[j as int]);
                }
            }
        }
        j += 1;
    }
    Ok(())
}

/// With no repeats before `j`, the only earlier index holding `a[j]` is the first.
pub proof fn lemma_first_index_of(a: Seq<Seq<char>>, x: Seq<char>, j: int, k: int)
    requires
        0 <= k < j <= a.len(),
        a[k] == x,
        forall|p: int, q: int| 0 <= p < q < j ==> a[p] != a[q],
    ensures
        first_index_of(a, x, j) == k,
    decreases j,
{
    if k < j - 1 {
        assert(exists|p: int| 0 <= p < j - 1 && a[p] == x);
        lemma_first_index_of(a, x, j - 1, k);
    } else {
        assert(!exists|p: int| 0 <= p < j - 1 && a[p] == x);
    }
}

// ── Bridged functions ───────────────────────────────────────────────

/// The Pluto type a bridged function returns.
pub open spec fn bridged_return(rt: Option<RustType>) -> PlutoTypeM {
    match rt {
        Some(t) => spec_rust_type_to_pluto(t),
        None => PlutoTypeM::Void,
    }
}

/// `f` bridges `sig` of the crate imported as `alias`: it is named `alias.name`
/// in Pluto and as a symbol, with the Pluto types of the signature.
pub open spec fn bridges(f: BridgedFunction, alias: Seq<char>, sig: RustFnSig) -> bool {
    &&& f.pluto_name@ == alias + "."@ + sig.name@
    &&& f.symbol_name@ == f.pluto_name@
    &&& f.params@.len() == sig.params@.len()
    &&& forall|k: int| 0 <= k < f.params@.len() ==> (#[trigger] f.params@[k]).model() == spec_rust_type_to_pluto(sig.params@[k].1)
    &&& f.return_type.model() == bridged_return(sig.return_type)
    &&& f.is_fallible == sig.is_fallible
}

/// The functions bridged from the signatures found in the crate imported as `alias`.
pub fn bridge_functions(alias: &str, sigs: &[RustFnSig]) -> (fs: Vec<BridgedFunction>)
    ensures
        fs@.len() == sigs@.len(),
        forall|i: int| 0 <= i < sigs@.len() ==> bridges(#[trigger] fs@[i], alias@, sigs@[i]),
{
    let mut fs: Vec<BridgedFunction> = Vec::new();
    let mut i: usize = 0;
    while i < sigs.len()
        invariant
            i <= sigs@.len(),
            fs@.len() == i,
            forall|x: int| 0 <= x < i ==> bridges(#[trigger] fs@[x], alias@, sigs@[x]),
        decreases sigs@.len() - i,
    {
        let sig = &sigs[i];
        let mut pluto_name = String::from_str(alias);
        pluto_name.append(".");
        pluto_name.append(sig.name.as_str());
        let mut params: Vec<PlutoType> = Vec::new();
        let mut k: usize = 0;
        while k < sig.params.len()
            invariant
                k <= sig.params@.len(),
                params@.len() == k,
                forall|x: int| 0 <= x < k ==> (#[trigger] params@[x]).model() == spec_rust_type_to_pluto(sig.params@[x].1),
            decreases sig.params@.len() - k,
        {
            params.push(rust_type_to_pluto(&sig.params[k].1));
            k += 1;
        }
        let return_type = match &sig.return_type {
            Some(rt) => rust_type_to_pluto(rt),
            None => PlutoType::Void,
        };
        let symbol_name = pluto_name.clone();
        fs.push(BridgedFunction {
            pluto_name,
            symbol_name,
            params,
            return_type,
            is_fallible: sig.is_fallible,
        });
        i += 1;
    }
    fs
}

// ── Laws ────────────────────────────────────────────────────────────

/// What is left of a text with its ANSI escapes removed holds no escape
/// character, and a text without one is left as it was.
pub proof fn lemma_strip_ansi_clean(s: Seq<char>, i: int)
    requires
        0 <= i <= s.len(),
    ensures
        !strip_ansi_from(s, i).contains('\u{1b}'),
        (forall|k: int| i <= k < s.len() ==> s[k] != '\u{1b}') ==> strip_ansi_from(s, i) == s.subrange(i, s.len() as int),
    decreases s.len() - i,
{
    if i < s.len() {
        if s[i] == '\u{1b}' {
            lemma_escape_end_after(s, i + 1);
            lemma_strip_ansi_clean(s, escape_end(s, i + 1));
        } else {
            lemma_strip_ansi_clean(s, i + 1);
            let rest = strip_ansi_from(s, i + 1);
            assert(strip_ansi_from(s, i) == seq![s[i]] + rest);
            if (seq![s[i]] + rest).contains('\u{1b}') {
                let k = choose|k: int| 0 <= k < (seq![s[i]] + rest).len() && (seq![s[i]] + rest)[k] == '\u{1b}';
                if k > 0 {
                    assert(rest[k - 1] == '\u{1b}');
                }
            }
            if forall|k: int| i <= k < s.len() ==> s[k] != '\u{1b}' {
                assert(seq![s[i]] + s.subrange(i + 1, s.len() as int) =~= s.subrange(i, s.len() as int));
            }
        }
    } else {
        assert(s.subrange(i, s.len() as int) =~= Seq::<char>::empty());
    }
}

/// `first_repeat` from `j` finds nothing exactly when no entry from `j` on
/// occurred before its index.
proof fn lemma_first_repeat_none_from(a: Seq<Seq<char>>, j: int)
    requires
        0 <= j,
    ensures
        (first_repeat(a, j) is None) <==> (forall|q: int| j <= q < a.len() ==> !seen_before(a, q)),
    decreases a.len() - j,
{
    if j < a.len() {
        lemma_first_repeat_none_from(a, j + 1);
    }
}

/// The alias check passes exactly when the aliases are pairwise distinct.
pub proof fn lemma_aliases_ok_iff_distinct(decls: Seq<Spanned<ExternRustDecl>>)
    ensures
        (first_repeat(decl_aliases(decls), 0) is None)
            <==> (forall|p: int, q: int| 0 <= p < q < decls.len() ==> decls[p].node.alias.node@ != decls[q].node.alias.node@),
{
    let a = decl_aliases(decls);
    lemma_first_repeat_none_from(a, 0);
    if first_repeat(a, 0) is None {
        assert forall|p: int, q: int| 0 <= p < q < decls.len() implies decls[p].node.alias.node@ != decls[q].node.alias.node@ by {
            assert(!seen_before(a, q));
            assert(a[p] == decls[p].node.alias.node@);
        }
    } else {
        let q = choose|q: int| 0 <= q < a.len() && seen_before(a, q);
        let p = choose|p: int| 0 <= p < q && a[p] == a[q];
        assert(decls[p].node.alias.node@ == decls[q].node.alias.node@);
    }
}

// ── Declaring the bridged functions ─────────────────────────────────

/// The functions of all artifacts, in order.
pub open spec fn all_bridged(arts: Seq<RustCrateArtifact>) -> Seq<BridgedFunction>
    decreases arts.len(),
{
    if arts.len() == 0 {
        Seq::empty()
    } else {
        all_bridged(arts.drop_last()) + arts.last().functions@
    }
}

/// The Pluto names of the functions that return a `Result`, in order.
pub open spec fn fallible_names(fs: Seq<BridgedFunction>) -> Seq<Seq<char>>
    decreases fs.len(),
{
    if fs.len() == 0 {
        Seq::empty()
    } else {
        fallible_names(fs.drop_last()) + (if fs.last().is_fallible { seq![fs.last().pluto_name@] } else { Seq::empty() })
    }
}

/// Every bridged type crosses the bridge.
pub open spec fn bridgeable(arts: Seq<RustCrateArtifact>) -> bool {
    forall|f: BridgedFunction| #[trigger] all_bridged(arts).contains(f) ==> (forall|k: int| 0 <= k < f.params@.len()
        ==> is_bridge_type(#[trigger] f.params@[k].model())) && is_bridge_type(f.return_type.model())
}

/// The name of a bridged type in Pluto source.
pub open spec fn bridge_type_name(t: PlutoTypeM) -> Seq<char> {
    match t {
        PlutoTypeM::Int => "int"@,
        PlutoTypeM::Float => "float"@,
        PlutoTypeM::Bool => "bool"@,
        _ => "void"@,
    }
}

/// `d` declares the bridged function `f`: its Pluto name, parameters `p0`,
/// `p1`, ... of its types, and its return type unless that is void; all spans
/// dummy, not public. Parameter ids are fresh and not otherwise fixed.
pub open spec fn declares(d: Spanned<ExternFnDecl>, f: BridgedFunction) -> bool {
    &&& d.span == Span::spec_dummy()
    &&& d.node.name == (Spanned { node: d.node.name.node, span: Span::spec_dummy() })
    &&& d.node.name.node@ == f.pluto_name@
    &&& !d.node.is_pub
    &&& d.node.params@.len() == f.params@.len()
    &&& forall|k: int| 0 <= k < f.params@.len() ==> {
        let p = #[trigger] d.node.params@[k];
        &&& p.name.node@ == "p"@ + decimal(k as nat)
        &&& p.name.span == Span::spec_dummy()
        &&& p.ty.node.model() == TypeExprM::Named(bridge_type_name(f.params@[k].model()))
        &&& p.ty.span == Span::spec_dummy()
        &&& !p.is_mut
    }
    &&& if f.return_type.model() == PlutoTypeM::Void {
        d.node.return_type is None
    } else {
        d.node.return_type matches Some(rt) && rt.span == Span::spec_dummy()
            && rt.node.model() == TypeExprM::Named(bridge_type_name(f.return_type.model()))
    }
}

/// The declaration of one bridged function.
fn extern_fn_decl(func: &BridgedFunction) -> (d: Spanned<ExternFnDecl>)
    requires
        forall|k: int| 0 <= k < func.params@.len() ==> is_bridge_type(#[trigger] func.params@[k].model()),
        is_bridge_type(func.return_type.model()),
    ensures
        declares(d, *func),
{
    let mut params: Vec<Param> = Vec::new();
    let mut i: usize = 0;
    while i < func.params.len()
        invariant
            i <= func.params@.len(),
            params@.len() == i,
            forall|k: int| 0 <= k < func.params@.len() ==> is_bridge_type(#[trigger] func.params@[k].model()),
            forall|k: int| 0 <= k < i ==> {
                let p = #[trigger] params@[k];
                &&& p.name.node@ == "p"@ + decimal(k as nat)
                &&& p.name.span == Span::spec_dummy()
                &&& p.ty.node.model() == TypeExprM::Named(bridge_type_name(func.params@[k].model()))
                &&& p.ty.span == Span::spec_dummy()
                &&& !p.is_mut
            },
        decreases func.params@.len() - i,
    {
        let mut name = String::from_str("p");
        push_decimal(&mut name, i);
        let ty = pluto_type_to_type_expr(&func.params[i]);
        params.push(Param {
            id: fresh_id(),
            name: Spanned::new(name, Span::dummy()),
            ty: Spanned::new(ty, Span::dummy()),
            is_mut: false,
        });
        i += 1;
    }
    let return_type = if !func.return_type.is_void() {
        Some(Spanned::new(pluto_type_to_type_expr(&func.return_type), Span::dummy()))
    } else {
        None
    };
    Spanned::new(
        ExternFnDecl {
            name: Spanned::new(func.pluto_name.clone(), Span::dummy()),
            params,
            return_type,
            is_pub: false,
        },
        Span::dummy(),
    )
}

/// Declares each bridged function as an `extern` function, in order, and
/// records the names of those that return a `Result`.
pub fn inject_extern_fns(
    extern_fns: &mut Vec<Spanned<ExternFnDecl>>,
    fallible_extern_fns: &mut Vec<String>,
    artifacts: &[RustCrateArtifact],
)
    requires
        bridgeable(artifacts@),
    ensures
        final(extern_fns)@.len() == old(extern_fns)@.len() + all_bridged(artifacts@).len(),
        final(extern_fns)@.take(old(extern_fns)@.len() as int) == old(extern_fns)@,
        forall|k: int| 0 <= k < all_bridged(artifacts@).len()
            ==> declares(#[trigger] final(extern_fns)@[old(extern_fns)@.len() + k], all_bridged(artifacts@)[k]),
        names(final(fallible_extern_fns)@) == names(old(fallible_extern_fns)@) + fallible_names(all_bridged(artifacts@)),
{
    let ghost decls0 = extern_fns@;
    let ghost fallible0 = names(fallible_extern_fns@);
    let mut a: usize = 0;
    while a < artifacts.len()
        invariant
            a <= artifacts@.len(),
            bridgeable(artifacts@),
            extern_fns@.len() == decls0.len() + all_bridged(artifacts@.take(a as int)).len(),
            extern_fns@.take(decls0.len() as int) == decls0,
            forall|k: int| 0 <= k < all_bridged(artifacts@.take(a as int)).len()
                ==> declares(#[trigger] extern_fns@[decls0.len() + k], all_bridged(artifacts@.take(a as int))[k]),
            names(fallible_extern_fns@) == fallible0 + fallible_names(all_bridged(artifacts@.take(a as int))),
        decreases artifacts@.len() - a,
    {
        let artifact = &artifacts[a];
        let ghost done = all_bridged(artifacts@.take(a as int));
        proof {
            assert(artifacts@.take(a + 1).drop_last() =~= artifacts@.take(a as int));
            lemma_all_bridged_prefix(artifacts@, a as int);
        }
        let mut j: usize = 0;
        while j < artifact.functions.len()
            invariant
                a < artifacts@.len(),
                artifact == artifacts@[a as int],
                done == all_bridged(artifacts@.take(a as int)),
                bridgeable(artifacts@),
                all_bridged(artifacts@.take(a + 1)) == done + artifact.functions@,
                forall|f: BridgedFunction| #[trigger] artifact.functions@.contains(f) ==> all_bridged(artifacts@).contains(f),
                j <= artifact.functions@.len(),
                extern_fns@.len() == decls0.len() + done.len() + j,
                extern_fns@.take(decls0.len() as int) == decls0,
                forall|k: int| 0 <= k < done.len() + j
                    ==> declares(#[trigger] extern_fns@[decls0.len() + k], (done + artifact.functions@)[k]),
                names(fallible_extern_fns@) == fallible0 + fallible_names(done + artifact.functions@.take(j as int)),
            decreases artifact.functions@.len() - j,
        {
            let func = &artifact.functions[j];
            proof {
                assert(artifact.functions@.contains(*func));
                assert(all_bridged(artifacts@).contains(*func));
            }
            let ghost before = extern_fns@;
            let d = extern_fn_decl(func);
            extern_fns.push(d);
            proof {
                assert(extern_fns@.take(decls0.len() as int) =~= before.take(decls0.len() as int));
                assert((done + artifact.functions@.take(j + 1)).drop_last() =~= done + artifact.functions@.take(j as int));
            }
            if func.is_fallible {
                let ghost fb = names(fallible_extern_fns@);
                fallible_extern_fns.push(func.pluto_name.clone());
                proof {
                    assert(names(fallible_extern_fns@) =~= fb.push(func.pluto_name@));
                }
            }
            proof {
                assert(fallible0 + fallible_names(done + artifact.functions@.take(j + 1)) =~= names(fallible_extern_fns@));
            }
            j += 1;
        }
        proof {
            assert(artifact.functions@.take(j as int) =~= artifact.functions@);
        }
        a += 1;
    }
    proof {
        assert(artifacts@.take(a as int) =~= artifacts@);
    }
}

/// The functions of the first `a + 1` artifacts are those of the first `a`,
/// then those of artifact `a`; and every one of them is among all functions.
proof fn lemma_all_bridged_prefix(arts: Seq<RustCrateArtifact>, a: int)
    requires
        0 <= a < arts.len(),
    ensures
        all_bridged(arts.take(a + 1)) == all_bridged(arts.take(a)) + arts[a].functions@,
        forall|f: BridgedFunction| #[trigger] arts[a].functions@.contains(f) ==> all_bridged(arts).contains(f),
{
    assert(arts.take(a + 1).drop_last() =~= arts.take(a));
    lemma_all_bridged_contains(arts, a);
}

proof fn lemma_all_bridged_contains(arts: Seq<RustCrateArtifact>, a: int)
    requires
        0 <= a < arts.len(),
    ensures
        forall|f: BridgedFunction| #[trigger] arts[a].functions@.contains(f) ==> all_bridged(arts).contains(f),
    decreases arts.len(),
{
    if a < arts.len() - 1 {
        lemma_all_bridged_contains(arts.drop_last(), a);
        assert forall|f: BridgedFunction| #[trigger] arts[a].functions@.contains(f) implies all_bridged(arts).contains(f) by {
            assert(arts.drop_last()[a] == arts[a]);
            let k = choose|k: int| 0 <= k < all_bridged(arts.drop_last()).len() && all_bridged(arts.drop_last())[k] == f;
            assert(all_bridged(arts)[k] == f);
        }
    } else {
        assert forall|f: BridgedFunction| #[trigger] arts[a].functions@.contains(f) implies all_bridged(arts).contains(f) by {
            let k = choose|k: int| 0 <= k < arts[a].functions@.len() && arts[a].functions@[k] == f;
            assert(all_bridged(arts)[all_bridged(arts.drop_last()).len() + k] == f);
        }
    }
}

/// What `bridge_functions` gives can always be declared: every parameter and
/// return type of a bridged function crosses the bridge.
pub proof fn lemma_bridged_types_cross(f: BridgedFunction, alias: Seq<char>, sig: RustFnSig)
    requires
        bridges(f, alias, sig),
    ensures
        forall|k: int| 0 <= k < f.params@.len() ==> is_bridge_type(#[trigger] f.params@[k].model()),
        is_bridge_type(f.return_type.model()),
{
    assert forall|k: int| 0 <= k < f.params@.len() implies is_bridge_type(#[trigger] f.params@[k].model()) by {
        assert(f.params@[k].model() == spec_rust_type_to_pluto(sig.params@[k].1));
    }
}

} // verus!
