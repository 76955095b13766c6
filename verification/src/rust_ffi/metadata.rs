//! Reading the lib target of a crate out of `cargo metadata` JSON, with a small
//! scanner that needs no JSON library.

use vstd::prelude::*;
use vstd::string::StringExecFns;
use crate::diagnostics::CompileError;
use crate::rust_ffi::parser::skip_ws;
use crate::rust_ffi::parser::string_end;
use crate::rust_ffi::parser::lemma_string_end;
use crate::rust_ffi::parser::lemma_scans_advance;
use crate::rust_ffi::parser::opt_chars;
use crate::text::chars_of;
use crate::text::str_eq;
use crate::text::string_of_range;
use crate::pretty::push_char;

verus! {

// ── Searching ───────────────────────────────────────────────────────

/// `pat` occurs in `s` at `p`.
pub open spec fn occurs_at(s: Seq<char>, p: int, pat: Seq<char>) -> bool {
    0 <= p && p + pat.len() <= s.len() && s.subrange(p, p + pat.len()) == pat
}

/// The first occurrence of `pat` in `s` at or after `i`.
pub open spec fn find_from(s: Seq<char>, pat: Seq<char>, i: int) -> Option<int>
    decreases s.len() + 1 - i,
{
    if i < 0 || i + pat.len() > s.len() {
        None
    } else if occurs_at(s, i, pat) {
        Some(i)
    } else {
        find_from(s, pat, i + 1)
    }
}

/// An optional index as an integer.
pub open spec fn opt_int(o: Option<usize>) -> Option<int> {
    match o {
        Some(p) => Some(p as int),
        None => None,
    }
}

/// Whether `pat` occurs in `s` at `p`.
fn occurs_at_exec(s: &[char], p: usize, pat: &[char]) -> (r: bool)
    requires
        p + pat@.len() <= s@.len(),
        s@.len() <= usize::MAX,
    ensures
        r == occurs_at(s@, p as int, pat@),
{
    let mut j: usize = 0;
    while j < pat.len()
        invariant
            j <= pat@.len(),
            p + pat@.len() <= s@.len(),
            s@.len() <= usize::MAX,
            forall|k: int| 0 <= k < j ==> s@[p + k] == pat@[k],
        decreases pat@.len() - j,
    {
        if s[p + j] != pat[j] {
            proof {
                assert(s@.subrange(p as int, p + pat@.len())[j as int] == s@[p + j]);
            }
            return false;
        }
        j += 1;
    }
    proof {
        assert(s@.subrange(p as int, p + pat@.len()) =~= pat@);
    }
    true
}

/// The first occurrence of `pat` in `s` at or after `i`.
pub(crate) fn find_seq_from(s: &[char], pat: &[char], i: usize) -> (r: Option<usize>)
    requires
        i <= s@.len(),
    ensures
        opt_int(r) == find_from(s@, pat@, i as int),
        r matches Some(p) ==> i <= p && p + pat@.len() <= s@.len(),
{
    if pat.len() > s.len() {
        return None;
    }
    let last = s.len() - pat.len();
    let mut k = i;
    if k > last {
        return None;
    }
    loop
        invariant
            i <= k <= last,
            last + pat@.len() == s@.len(),
            s@.len() <= usize::MAX,
            find_from(s@, pat@, k as int) == find_from(s@, pat@, i as int),
        decreases last - k,
    {
        if occurs_at_exec(s, k, pat) {
            return Some(k);
        }
        if k == last {
            return None;
        }
        k += 1;
    }
}

/// The first `c` in `s` at or after `i`.
fn find_char_from(s: &[char], c: char, i: usize) -> (r: Option<usize>)
    requires
        i <= s@.len(),
    ensures
        opt_int(r) == find_from(s@, seq![c], i as int),
        r matches Some(p) ==> i <= p < s@.len(),
{
    let pat = vec![c];
    proof {
        assert(pat@ =~= seq![c]);
    }
    find_seq_from(s, pat.as_slice(), i)
}

// ── String values ───────────────────────────────────────────────────

/// `"key"`, the key as it is written in JSON.
pub open spec fn quoted(key: Seq<char>) -> Seq<char> {
    seq!['"'] + key + seq!['"']
}

/// The text after the colon that follows the first `"key"` in `json`, without
/// leading whitespace.
pub open spec fn json_value_text(json: Seq<char>, key: Seq<char>) -> Option<Seq<char>> {
    match find_from(json, quoted(key), 0) {
        None => None,
        Some(pos) => {
            let after_key = json.subrange(pos + quoted(key).len(), json.len() as int);
            match find_from(after_key, seq![':'], 0) {
                None => None,
                Some(cp) => {
                    let after_colon = after_key.subrange(cp + 1, after_key.len() as int);
                    Some(after_colon.subrange(skip_ws(after_colon, 0), after_colon.len() as int))
                },
            }
        },
    }
}

/// A value text that opens a string.
pub open spec fn opens_string(t: Seq<char>) -> bool {
    t.len() > 0 && t[0] == '"'
}

/// The string value of `key` in `json`: the characters between the opening quote
/// and the next unescaped quote (escapes are kept as written), or to the end.
pub open spec fn spec_extract_json_string(json: Seq<char>, key: Seq<char>) -> Option<Seq<char>> {
    match json_value_text(json, key) {
        Some(t) => if opens_string(t) {
            Some(t.subrange(1, string_end(t, 1)))
        } else {
            None
        },
        None => None,
    }
}

/// The value of `key` opens a string whose last escape runs past the end of `json`.
pub open spec fn json_value_overruns(json: Seq<char>, key: Seq<char>) -> bool {
    match json_value_text(json, key) {
        Some(t) => opens_string(t) && string_end(t, 1) > t.len(),
        None => false,
    }
}

pub proof fn lemma_string_end_within(t: Seq<char>, i: int)
    requires
        0 <= i <= t.len(),
        t.len() == 0 || t.last() != '\\',
    ensures
        string_end(t, i) <= t.len(),
    decreases t.len() - i,
{
    if i < t.len() && t[i] != '"' {
        if t[i] == '\\' {
            lemma_string_end_within(t, i + 2);
        } else {
            lemma_string_end_within(t, i + 1);
        }
    }
}

/// No value of a text that does not end in a backslash runs past its end.
pub proof fn lemma_no_overrun(json: Seq<char>, key: Seq<char>)
    requires
        json.len() > 0,
        json.last() != '\\',
    ensures
        !json_value_overruns(json, key),
{
    if let Some(t) = json_value_text(json, key) {
        if opens_string(t) {
            let pos = find_from(json, quoted(key), 0)->0;
            let after_key = json.subrange(pos + quoted(key).len(), json.len() as int);
            let cp = find_from(after_key, seq![':'], 0)->0;
            let after_colon = after_key.subrange(cp + 1, after_key.len() as int);
            lemma_find_from_bounds(json, quoted(key), 0);
            lemma_find_from_bounds(after_key, seq![':'], 0);
            lemma_scans_advance(after_colon, 0, ' ');
            assert(t.last() == json.last());
            lemma_string_end_within(t, 1);
        }
    }
}

pub proof fn lemma_find_from_bounds(s: Seq<char>, pat: Seq<char>, i: int)
    ensures
        find_from(s, pat, i) matches Some(p) ==> i <= p && p + pat.len() <= s.len() && occurs_at(s, p, pat),
    decreases s.len() + 1 - i,
{
    if !(i < 0 || i + pat.len() > s.len()) && !occurs_at(s, i, pat) {
        lemma_find_from_bounds(s, pat, i + 1);
    }
}

/// The string value of `key` in the JSON text `json`.
pub fn extract_json_string(json: &str, key: &str) -> (r: Option<String>)
    requires
        !json_value_overruns(json@, key@),
    ensures
        opt_chars(r) == spec_extract_json_string(json@, key@),
{
    let cs = chars_of(json);
    let mut search = String::from_str("\"");
    search.append(key);
    search.append("\"");
    let sc = chars_of(search.as_str());
    proof {
        reveal_strlit("\"");
        assert(sc@ =~= quoted(key@));
    }
    let pos = match find_seq_from(cs.as_slice(), sc.as_slice(), 0) {
        Some(p) => p,
        None => return None,
    };
    let n = cs.len();
    let after_key = string_of_range(cs.as_slice(), pos + sc.len(), n);
    let ak = chars_of(after_key.as_str());
    let colon_pos = match find_char_from(ak.as_slice(), ':', 0) {
        Some(p) => p,
        None => return None,
    };
    let after_colon = string_of_range(ak.as_slice(), colon_pos + 1, ak.len());
    let ac = chars_of(after_colon.as_str());
    let w = crate::rust_ffi::parser::skip_ws_at(ac.as_slice(), 0);
    let trimmed = string_of_range(ac.as_slice(), w, ac.len());
    let chars = chars_of(trimmed.as_str());
    if !(chars.len() > 0 && chars[0] == '"') {
        return None;
    }
    let start: usize = 1;
    let mut end: usize = start;
    while end < chars.len() && chars[end] != '"'
        invariant
            1 <= end <= chars@.len() + 1,
            chars@ == trimmed@,
            string_end(chars@, end as int) == string_end(chars@, 1),
            string_end(chars@, 1) <= chars@.len(),
        decreases chars@.len() + 1 - end,
    {
        proof {
            lemma_string_end(chars@, end + 2);
        }
        if chars[end] == '\\' {
            end += 1;
        }
        end += 1;
    }
    proof {
        lemma_string_end(chars@, end as int);
    }
    Some(string_of_range(chars.as_slice(), start, end))
}

// ── Packages ────────────────────────────────────────────────────────

/// `s` with each backslash turned into a forward slash.
pub open spec fn slashes(s: Seq<char>) -> Seq<char> {
    s.map_values(|c: char| if c == '\\' { '/' } else { c })
}

/// A package's manifest path matches the one looked for, as written or with
/// backslashes read as forward slashes.
pub open spec fn manifest_matches(mp: Seq<char>, m: Seq<char>) -> bool {
    mp == m || slashes(mp) == slashes(m)
}

/// The scan of a packages array from `i`, at bracket/brace nesting `depth`, with
/// the start of the current top-level object: the first object whose
/// `manifest_path` matches `m`. Strings are skipped; the array's closing bracket ends it.
pub open spec fn package_scan(s: Seq<char>, m: Seq<char>, i: int, depth: int, obj_start: Option<int>) -> Option<Seq<char>>
    decreases s.len() + 2 - i,
{
    if 0 <= i < s.len() {
        let ch = s[i];
        if ch == '"' {
            proof {
                lemma_string_end(s, i + 1);
            }
            package_scan(s, m, string_end(s, i + 1) + 1, depth, obj_start)
        } else if ch == '[' {
            package_scan(s, m, i + 1, depth + 1, obj_start)
        } else if ch == ']' {
            if depth == 1 {
                None
            } else {
                package_scan(s, m, i + 1, depth - 1, obj_start)
            }
        } else if ch == '{' {
            package_scan(s, m, i + 1, depth + 1, if depth == 1 { Some(i) } else { obj_start })
        } else if ch == '}' {
            if depth - 1 == 1 {
                match obj_start {
                    Some(start) => {
                        let obj = s.subrange(start, i + 1);
                        match spec_extract_json_string(obj, "manifest_path"@) {
                            Some(mp) => if manifest_matches(mp, m) {
                                Some(obj)
                            } else {
                                package_scan(s, m, i + 1, depth - 1, None)
                            },
                            None => package_scan(s, m, i + 1, depth - 1, None),
                        }
                    },
                    None => package_scan(s, m, i + 1, depth - 1, None),
                }
            } else {
                package_scan(s, m, i + 1, depth - 1, obj_start)
            }
        } else {
            package_scan(s, m, i + 1, depth, obj_start)
        }
    } else {
        None
    }
}

/// `s` with each backslash turned into a forward slash.
pub(crate) fn with_forward_slashes(s: &str) -> (r: String)
    ensures
        r@ == slashes(s@),
{
    let cs = chars_of(s);
    let mut out = String::new();
    let mut k: usize = 0;
    while k < cs.len()
        invariant
            k <= cs@.len(),
            cs@ == s@,
            out@ == slashes(cs@.take(k as int)),
        decreases cs@.len() - k,
    {
        let c = cs[k];
        push_char(&mut out, if c == '\\' { '/' } else { c });
        proof {
            assert(slashes(cs@.take(k + 1)) =~= slashes(cs@.take(k as int)).push(if c == '\\' { '/' } else { c }));
        }
        k += 1;
    }
    proof {
        assert(cs@.take(k as int) =~= cs@);
    }
    out
}

/// The package object, in the packages array that begins `packages_array`, whose
/// `manifest_path` is `manifest_str`.
#[verifier::loop_isolation(false)]
pub fn find_matching_package(packages_array: &str, manifest_str: &str) -> (r: Option<String>)
    requires
        packages_array@.len() < 0x7fff_fff0,
    ensures
        opt_chars(r) == package_scan(packages_array@, manifest_str@, 0, 0, None),
{
    let cs = chars_of(packages_array);
    let len = cs.len();
    let mut i: usize = 0;
    let mut depth: i32 = 0;
    let mut obj_start: Option<usize> = None;
    while i < len
        invariant
            cs@ == packages_array@,
            len == cs@.len(),
            len < 0x7fff_fff0,
            i <= len + 2,
            -(i as int) <= depth <= i,
            obj_start matches Some(st) ==> st < i,
            package_scan(cs@, manifest_str@, i as int, depth as int, opt_int(obj_start))
                == package_scan(cs@, manifest_str@, 0, 0, None),
        decreases len + 2 - i,
    {
        let ch = cs[i];
        if ch == '"' {
            // Skip over the string, escapes included.
            let ghost from = i + 1;
            i += 1;
            while i < len && cs[i] != '"'
                invariant
                    from <= i <= len + 1,
                    string_end(cs@, i as int) == string_end(cs@, from),
                decreases len + 1 - i,
            {
                proof {
                    lemma_string_end(cs@, i + 2);
                }
                if cs[i] == '\\' {
                    i += 2;
                } else {
                    i += 1;
                }
            }
        } else if ch == '[' {
            depth += 1;
        } else if ch == ']' {
            if depth == 1 {
                return None;
            }
            depth -= 1;
        } else if ch == '{' {
            if depth == 1 {
                obj_start = Some(i);
            }
            depth += 1;
        } else if ch == '}' {
            depth -= 1;
            if depth == 1 {
                if let Some(start) = obj_start {
                    let obj = string_of_range(cs.as_slice(), start, i + 1);
                    proof {
                        lemma_no_overrun(obj@, "manifest_path"@);
                    }
                    if let Some(mp) = extract_json_string(obj.as_str(), "manifest_path") {
                        if str_eq(mp.as_str(), manifest_str)
                            || str_eq(with_forward_slashes(mp.as_str()).as_str(), with_forward_slashes(manifest_str).as_str()) {
                            return Some(obj);
                        }
                    }
                }
                obj_start = None;
            }
        }
        i += 1;
    }
    None
}

// ── The lib target ─────────────────────────────────────────────────

/// The scan of a targets array from `i`: at the first top-level target object that
/// mentions `"lib"`, its `name` and `src_path` values; the array's closing bracket
/// (or the end) gives neither.
pub open spec fn targets_scan(r: Seq<char>, i: int, depth: int, obj_start: Option<int>) -> (Option<Seq<char>>, Option<Seq<char>>)
    decreases r.len() - i,
{
    if 0 <= i < r.len() {
        let ch = r[i];
        if ch == '[' && depth == 0 {
            targets_scan(r, i + 1, 1, obj_start)
        } else if depth == 0 {
            targets_scan(r, i + 1, depth, obj_start)
        } else if ch == '{' {
            targets_scan(r, i + 1, depth + 1, if depth == 1 { Some(i) } else { obj_start })
        } else if ch == '}' {
            if depth - 1 == 1 {
                match obj_start {
                    Some(start) => {
                        let obj = r.subrange(start, i + 1);
                        if find_from(obj, "\"lib\""@, 0) is Some {
                            (spec_extract_json_string(obj, "name"@), spec_extract_json_string(obj, "src_path"@))
                        } else {
                            targets_scan(r, i + 1, depth - 1, None)
                        }
                    },
                    None => targets_scan(r, i + 1, depth - 1, None),
                }
            } else {
                targets_scan(r, i + 1, depth - 1, obj_start)
            }
        } else if ch == ']' && depth == 1 {
            (None, None)
        } else {
            targets_scan(r, i + 1, depth, obj_start)
        }
    } else {
        (None, None)
    }
}

/// The name and source path of the lib target in a targets array.
fn find_lib_target(region: &[char]) -> (r: (Option<String>, Option<String>))
    requires
        region@.len() < 0x7fff_fff0,
    ensures
        (opt_chars(r.0), opt_chars(r.1)) == targets_scan(region@, 0, 0, None),
{
    let len = region.len();
    let mut depth: i32 = 0;
    let mut obj_start: Option<usize> = None;
    let mut ci: usize = 0;
    while ci < len
        invariant
            len == region@.len(),
            len < 0x7fff_fff0,
            ci <= len,
            -(ci as int) <= depth <= ci,
            obj_start matches Some(st) ==> st < ci,
            targets_scan(region@, ci as int, depth as int, opt_int(obj_start)) == targets_scan(region@, 0, 0, None),
        decreases len - ci,
    {
        let ch = region[ci];
        if ch == '[' && depth == 0 {
            depth = 1;
        } else if depth == 0 {
        } else if ch == '{' {
            if depth == 1 {
                obj_start = Some(ci);
            }
            depth += 1;
        } else if ch == '}' {
            depth -= 1;
            if depth == 1 {
                if let Some(start) = obj_start {
                    let obj = string_of_range(region, start, ci + 1);
                    let oc = chars_of(obj.as_str());
                    let lib_key = chars_of("\"lib\"");
                    if find_seq_from(oc.as_slice(), lib_key.as_slice(), 0).is_some() {
                        proof {
                            lemma_no_overrun(obj@, "name"@);
                            lemma_no_overrun(obj@, "src_path"@);
                        }
                        let lib_name = extract_json_string(obj.as_str(), "name");
                        let lib_src_path = extract_json_string(obj.as_str(), "src_path");
                        return (lib_name, lib_src_path);
                    }
                }
                obj_start = None;
            }
        } else if ch == ']' && depth == 1 {
            return (None, None);
        }
        ci += 1;
    }
    (None, None)
}

/// The lib target of a crate: its name and the path of its root source file.
pub struct LibTarget {
    pub lib_name: String,
    pub lib_source_path: String,
}

/// The error text `extern rust '<alias>': <what>`.
pub open spec fn ffi_msg(alias: Seq<char>, what: Seq<char>) -> Seq<char> {
    "extern rust '"@ + alias + "': "@ + what
}

/// What `cargo metadata` output says of the lib target of the package whose
/// manifest is at `m`: its name and source path, or the error text.
pub open spec fn spec_cargo_metadata(json: Seq<char>, m: Seq<char>, alias: Seq<char>) -> Result<(Seq<char>, Seq<char>), Seq<char>> {
    match find_from(json, "\"packages\""@, 0) {
        None => Err(ffi_msg(alias, "cargo metadata output missing 'packages' field"@)),
        Some(ps) => match find_from(json, seq!['['], ps) {
            None => Err(ffi_msg(alias, "malformed cargo metadata output"@)),
            Some(arr) => match package_scan(json.subrange(arr, json.len() as int), m, 0, 0, None) {
                None => Err(ffi_msg(alias, "could not find package in cargo metadata (looking for manifest_path: "@ + m + ")"@)),
                Some(pkg) => match find_from(pkg, "\"targets\""@, 0) {
                    None => Err(ffi_msg(alias, "package has no 'targets' field"@)),
                    Some(tp) => match find_from(pkg, seq!['['], tp) {
                        None => Err(ffi_msg(alias, "malformed targets in cargo metadata"@)),
                        Some(ta) => {
                            let (name, src) = targets_scan(pkg.subrange(ta, pkg.len() as int), 0, 0, None);
                            match name {
                                None => Err(ffi_msg(alias, "no lib target found in crate"@)),
                                Some(n) => match src {
                                    None => Err(ffi_msg(alias, "lib target has no src_path"@)),
                                    Some(sp) => Ok((n, sp)),
                                },
                            }
                        },
                    },
                },
            },
        },
    }
}

/// The error `extern rust '<alias>': <what>` of the code generator.
fn ffi_error(alias: &str, what: &str) -> (e: CompileError)
    ensures
        e is Codegen,
        e->Codegen_msg@ == ffi_msg(alias@, what@),
{
    let mut msg = String::from_str("extern rust '");
    msg.append(alias);
    msg.append("': ");
    msg.append(what);
    CompileError::codegen(msg)
}

/// Reads the lib target of the package whose (canonical) manifest path is
/// `manifest_str` from the output of `cargo metadata`.
pub fn parse_cargo_metadata_json(json: &str, manifest_str: &str, alias: &str) -> (r: Result<LibTarget, CompileError>)
    requires
        json@.len() < 0x7fff_fff0,
    ensures
        match r {
            Ok(t) => spec_cargo_metadata(json@, manifest_str@, alias@) == Ok::<(Seq<char>, Seq<char>), Seq<char>>((t.lib_name@, t.lib_source_path@)),
            Err(e) => e is Codegen && spec_cargo_metadata(json@, manifest_str@, alias@) == Err::<(Seq<char>, Seq<char>), Seq<char>>(e->Codegen_msg@),
        },
{
    let cs = chars_of(json);
    let n = cs.len();
    let packages_key = chars_of("\"packages\"");
    let packages_start = match find_seq_from(cs.as_slice(), packages_key.as_slice(), 0) {
        Some(p) => p,
        None => return Err(ffi_error(alias, "cargo metadata output missing 'packages' field")),
    };
    let arr_start = match find_char_from(cs.as_slice(), '[', packages_start) {
        Some(p) => p,
        None => return Err(ffi_error(alias, "malformed cargo metadata output")),
    };
    let packages = string_of_range(cs.as_slice(), arr_start, n);
    let pkg_object = match find_matching_package(packages.as_str(), manifest_str) {
        Some(o) => o,
        None => {
            let mut what = String::from_str("could not find package in cargo metadata (looking for manifest_path: ");
            what.append(manifest_str);
            what.append(")");
            return Err(ffi_error(alias, what.as_str()));
        },
    };
    let pc = chars_of(pkg_object.as_str());
    let pn = pc.len();
    let targets_key = chars_of("\"targets\"");
    let targets_pos = match find_seq_from(pc.as_slice(), targets_key.as_slice(), 0) {
        Some(p) => p,
        None => return Err(ffi_error(alias, "package has no 'targets' field")),
    };
    let targets_arr_start = match find_char_from(pc.as_slice(), '[', targets_pos) {
        Some(p) => p,
        None => return Err(ffi_error(alias, "malformed targets in cargo metadata")),
    };
    proof {
        lemma_package_scan_sub(cs@.subrange(arr_start as int, n as int), manifest_str@, 0, 0, None);
    }
    let region = string_of_range(pc.as_slice(), targets_arr_start, pn);
    let rc = chars_of(region.as_str());
    let (lib_name, lib_src_path) = find_lib_target(rc.as_slice());
    let lib_name = match lib_name {
        Some(name) => name,
        None => return Err(ffi_error(alias, "no lib target found in crate")),
    };
    let lib_source_path = match lib_src_path {
        Some(src) => src,
        None => return Err(ffi_error(alias, "lib target has no src_path")),
    };
    Ok(LibTarget { lib_name, lib_source_path })
}

/// A package object whose manifest path matches `m`: the text of one JSON
/// object, `{` to `}`.
pub open spec fn is_matching_package(o: Seq<char>, m: Seq<char>) -> bool {
    &&& o.len() >= 2
    &&& o[0] == '{'
    &&& o.last() == '}'
    &&& spec_extract_json_string(o, "manifest_path"@) matches Some(mp) && manifest_matches(mp, m)
}

/// What the package scan finds is a piece of what it scans, and a matching package object.
pub proof fn lemma_package_scan_sub(s: Seq<char>, m: Seq<char>, i: int, depth: int, obj_start: Option<int>)
    requires
        0 <= i,
        obj_start matches Some(st) ==> 0 <= st < i && st < s.len() && s[st] == '{',
    ensures
        package_scan(s, m, i, depth, obj_start) matches Some(o) ==> o.len() <= s.len() && is_matching_package(o, m),
    decreases s.len() + 2 - i,
{
    if 0 <= i < s.len() {
        let ch = s[i];
        if ch == '"' {
            lemma_string_end(s, i + 1);
            lemma_package_scan_sub(s, m, string_end(s, i + 1) + 1, depth, obj_start);
        } else if ch == '[' {
            lemma_package_scan_sub(s, m, i + 1, depth + 1, obj_start);
        } else if ch == ']' {
            if depth != 1 {
                lemma_package_scan_sub(s, m, i + 1, depth - 1, obj_start);
            }
        } else if ch == '{' {
            lemma_package_scan_sub(s, m, i + 1, depth + 1, if depth == 1 { Some(i) } else { obj_start });
        } else if ch == '}' {
            if depth - 1 == 1 {
                lemma_package_scan_sub(s, m, i + 1, depth - 1, None);
            } else {
                lemma_package_scan_sub(s, m, i + 1, depth - 1, obj_start);
            }
        } else {
            lemma_package_scan_sub(s, m, i + 1, depth, obj_start);
        }
    }
}

/// What `find_matching_package` finds is the full text `{...}` of a package
/// object whose `manifest_path` matches the one looked for.
pub proof fn lemma_found_package_matches(packages_array: Seq<char>, m: Seq<char>)
    ensures
        package_scan(packages_array, m, 0, 0, None) matches Some(o) ==> is_matching_package(o, m),
{
    lemma_package_scan_sub(packages_array, m, 0, 0, None);
}


/// The position of the last `/` among the first `k` characters of `s`, or -1.
pub open spec fn last_slash(s: Seq<char>, k: int) -> int
    decreases k,
{
    if k <= 0 {
        -1
    } else if s[k - 1] == '/' {
        k - 1
    } else {
        last_slash(s, k - 1)
    }
}

/// A path written plainly with `/`: an optional leading `/`, then names
/// separated by single `/`s, with no trailing `/`; no name is `.` or `..`,
/// and no character is `\\` or `:` (so no platform reads a prefix in it).
pub open spec fn plain_path(s: Seq<char>) -> bool {
    let body = if s.len() > 0 && s[0] == '/' { s.drop_first() } else { s };
    &&& body.len() > 0
    &&& body[0] != '/'
    &&& body.last() != '/'
    &&& forall|i: int| 0 <= i < s.len() ==> s[i] != '\\' && s[i] != ':'
    &&& forall|i: int| 0 <= i < body.len() - 1 ==> !(#[trigger] body[i] == '/' && body[i + 1] == '/')
    &&& forall|i: int| 0 <= i < body.len() && #[trigger] body[i] == '.' && (i == 0 || body[i - 1] == '/') ==>
            !(i + 1 == body.len() || body[i + 1] == '/')
            && !(i + 1 < body.len() && body[i + 1] == '.' && (i + 2 == body.len() || body[i + 2] == '/'))
}

/// The parent of a plain path: the text before its last `/` (`/` itself
/// where that is the leading one), or the empty path where there is no `/`.
pub open spec fn plain_parent(s: Seq<char>) -> Seq<char> {
    let p = last_slash(s, s.len() as int);
    if p < 0 {
        Seq::empty()
    } else if p == 0 {
        "/"@
    } else {
        s.take(p)
    }
}

/// Where `path` is plain, `r` is its plain parent.
pub open spec fn gives_plain_parent(path: Seq<char>, r: Option<String>) -> bool {
    plain_path(path) ==> (r matches Some(q) && q@ == plain_parent(path))
}

/// The parent of `path`, from `std::path::Path::parent`, as text. The
/// documentation gives the path without its final component, as in
/// `/foo/bar` to `/foo`, `/foo` to `/` and `foo` to the empty path: for a
/// plain path (`plain_path`) that is `plain_parent`, on every platform. Of
/// any other path only that the parent is a shorter prefix of the text is
/// stated: how separators and prefixes are read there depends on the
/// platform.
#[verifier::external_body]
fn path_parent(path: &str) -> (r: Option<String>)
    ensures
        r matches Some(q) ==> q@.len() < path@.len() && q@ == path@.take(q@.len() as int),
        gives_plain_parent(path@, r),
{
    match std::path::Path::new(path).parent() {
        Some(p) => Some(p.to_string_lossy().into_owned()),
        None => None,
    }
}

/// The directory that holds a manifest: the parent of its path, or `.` where
/// the path has none.
pub fn manifest_dir(manifest: &str) -> (d: String)
    ensures
        plain_path(manifest@) ==> d@ == plain_parent(manifest@),
        d@ == "."@ || (d@.len() < manifest@.len() && d@ == manifest@.take(d@.len() as int)),
{
    match path_parent(manifest) {
        Some(q) => q,
        None => String::from_str("."),
    }
}

} // verus!
