//! A focused Rust-subset scanner that extracts top-level `pub fn` signatures
//! with supported types from Rust source text.

use vstd::prelude::*;
use vstd::string::StringExecFns;
use crate::text::chars_of;
use crate::text::str_eq;
use crate::text::string_of_range;

verus! {

#[derive(Debug, Clone, Copy, PartialEq, Eq, Structural)]
pub enum RustType {
    I64,
    F64,
    Bool,
}

#[derive(Debug, Clone)]
pub struct RustFnSig {
    pub name: String,
    pub params: Vec<(String, RustType)>,
    pub return_type: Option<RustType>,
    pub is_fallible: bool,
}

// ── Character classes ───────────────────────────────────────────────

/// Whether `char::is_whitespace` holds of `c`: whether `c` has the Unicode
/// White_Space property, that is, is one of U+0009 to U+000D, U+0020, U+0085,
/// U+00A0, U+1680, U+2000 to U+200A, U+2028, U+2029, U+202F, U+205F, U+3000.
pub open spec fn char_is_whitespace(c: char) -> bool {
    let n = c as u32;
    ||| 0x9 <= n <= 0xd
    ||| n == 0x20
    ||| n == 0x85
    ||| n == 0xa0
    ||| n == 0x1680
    ||| 0x2000 <= n <= 0x200a
    ||| n == 0x2028
    ||| n == 0x2029
    ||| n == 0x202f
    ||| n == 0x205f
    ||| n == 0x3000
}

/// Whether `char::is_alphabetic` holds of a character beyond ASCII (the
/// Unicode Alphabetic property there).
pub uninterp spec fn alphabetic_beyond_ascii(c: char) -> bool;

/// Whether `char::is_alphanumeric` holds of a character beyond ASCII
/// (Alphabetic or Numeric there).
pub uninterp spec fn alphanumeric_beyond_ascii(c: char) -> bool;

/// An ASCII letter.
pub open spec fn ascii_letter(c: char) -> bool {
    ('a' <= c && c <= 'z') || ('A' <= c && c <= 'Z')
}

/// Whether `char::is_alphabetic` holds of `c`: among ASCII characters it
/// holds of the letters alone.
pub open spec fn char_is_alphabetic(c: char) -> bool {
    if (c as u32) < 128 { ascii_letter(c) } else { alphabetic_beyond_ascii(c) }
}

/// Whether `char::is_alphanumeric` holds of `c`: among ASCII characters it
/// holds of the letters and the digits.
pub open spec fn char_is_alphanumeric(c: char) -> bool {
    if (c as u32) < 128 { ascii_letter(c) || ('0' <= c && c <= '9') } else { alphanumeric_beyond_ascii(c) }
}

/// Calls `char::is_whitespace`, which holds exactly of the White_Space characters
/// that `char_is_whitespace` lists.
#[verifier::external_body]
pub(crate) fn is_ws(c: char) -> (r: bool)
    ensures
        r == char_is_whitespace(c),
{
    c.is_whitespace()
}

/// Calls `char::is_alphabetic`: the Unicode Alphabetic property, which
/// among ASCII characters the letters alone have; beyond ASCII the result is
/// named `alphabetic_beyond_ascii`.
#[verifier::external_body]
fn is_alpha(c: char) -> (r: bool)
    ensures
        r == (if (c as u32) < 128 { ascii_letter(c) } else { alphabetic_beyond_ascii(c) }),
{
    c.is_alphabetic()
}

/// Calls `char::is_alphanumeric`: Alphabetic or Numeric, which among ASCII
/// characters the letters and the digits are; beyond ASCII the result is
/// named `alphanumeric_beyond_ascii`.
#[verifier::external_body]
fn is_alnum(c: char) -> (r: bool)
    ensures
        r == (if (c as u32) < 128 { ascii_letter(c) || ('0' <= c && c <= '9') } else { alphanumeric_beyond_ascii(c) }),
{
    c.is_alphanumeric()
}

/// A character that may appear in an identifier.
pub open spec fn is_ident_char(c: char) -> bool {
    char_is_alphanumeric(c) || c == '_'
}

// ── Scanning helpers (specifications) ───────────────────────────────

/// The first index at or after `i` that is not whitespace (or `i` itself when past the end).
pub open spec fn skip_ws(cs: Seq<char>, i: int) -> int
    decreases cs.len() - i,
{
    if 0 <= i < cs.len() && char_is_whitespace(cs[i]) {
        skip_ws(cs, i + 1)
    } else {
        i
    }
}

/// The first index at or after `i` that does not hold an identifier character.
pub open spec fn skip_ident(cs: Seq<char>, i: int) -> int
    decreases cs.len() - i,
{
    if 0 <= i < cs.len() && is_ident_char(cs[i]) {
        skip_ident(cs, i + 1)
    } else {
        i
    }
}

/// The first index at or after `i` holding `c`, or the end.
pub open spec fn find_char(cs: Seq<char>, i: int, c: char) -> int
    decreases cs.len() - i,
{
    if 0 <= i < cs.len() && cs[i] != c {
        find_char(cs, i + 1, c)
    } else {
        i
    }
}

pub proof fn lemma_scans_advance(cs: Seq<char>, i: int, c: char)
    requires
        0 <= i,
    ensures
        i <= skip_ws(cs, i),
        i <= skip_ident(cs, i),
        i <= find_char(cs, i, c),
        i <= cs.len() ==> skip_ws(cs, i) <= cs.len(),
        i <= cs.len() ==> skip_ident(cs, i) <= cs.len(),
        i <= cs.len() ==> find_char(cs, i, c) <= cs.len(),
        i > cs.len() ==> skip_ws(cs, i) == i && skip_ident(cs, i) == i && find_char(cs, i, c) == i,
    decreases cs.len() - i,
{
    if i < cs.len() {
        lemma_scans_advance(cs, i + 1, c);
    }
}

/// Where a (possibly nested) block comment whose body starts at `i`, at nesting `d`, ends.
pub open spec fn block_comment_end(cs: Seq<char>, i: int, d: int) -> int
    decreases cs.len() - i,
{
    if 0 <= i && i + 1 < cs.len() && d > 0 {
        if cs[i] == '/' && cs[i + 1] == '*' {
            block_comment_end(cs, i + 2, d + 1)
        } else if cs[i] == '*' && cs[i + 1] == '/' {
            block_comment_end(cs, i + 2, d - 1)
        } else {
            block_comment_end(cs, i + 1, d)
        }
    } else {
        i
    }
}

/// The index of the quote that closes a string literal whose body starts at `i`
/// (a backslash skips the next character), or an index at or past the end.
pub open spec fn string_end(cs: Seq<char>, i: int) -> int
    decreases cs.len() + 1 - i,
{
    if 0 <= i < cs.len() && cs[i] != '"' {
        if cs[i] == '\\' {
            string_end(cs, i + 2)
        } else {
            string_end(cs, i + 1)
        }
    } else {
        i
    }
}

/// Past a run of `#` starting at `j`, stopping at `limit`.
pub open spec fn hash_run(cs: Seq<char>, j: int, limit: int) -> int
    decreases cs.len() - j,
{
    if 0 <= j < cs.len() && cs[j] == '#' && j < limit {
        hash_run(cs, j + 1, limit)
    } else {
        j
    }
}

/// Where a raw string with `hashes` hashes, whose body starts at `i`, ends:
/// just past the closing quote and hashes, or the end.
pub open spec fn raw_string_end(cs: Seq<char>, i: int, hashes: int) -> int
    decreases cs.len() - i,
{
    if 0 <= i < cs.len() {
        if cs[i] == '"' && hash_run(cs, i + 1, i + 1 + hashes) - (i + 1) == hashes {
            hash_run(cs, i + 1, i + 1 + hashes)
        } else {
            raw_string_end(cs, i + 1, hashes)
        }
    } else {
        i
    }
}

/// Past a bracketed region (the opening bracket already consumed, nesting `d`).
pub open spec fn bracket_end(cs: Seq<char>, i: int, d: int, open: char, close: char) -> int
    decreases cs.len() - i,
{
    if 0 <= i < cs.len() && d > 0 {
        let nd = if cs[i] == open { d + 1 } else if cs[i] == close { d - 1 } else { d };
        bracket_end(cs, i + 1, nd, open, close)
    } else {
        i
    }
}

/// The end of a parameter type: the first `,` or unmatched `)` outside parentheses, or the end.
pub open spec fn type_end(cs: Seq<char>, i: int, pd: int) -> int
    decreases cs.len() - i,
{
    if 0 <= i < cs.len() {
        if cs[i] == '(' {
            type_end(cs, i + 1, pd + 1)
        } else if cs[i] == ')' {
            if pd == 0 { i } else { type_end(cs, i + 1, pd - 1) }
        } else if cs[i] == ',' && pd == 0 {
            i
        } else {
            type_end(cs, i + 1, pd)
        }
    } else {
        i
    }
}

/// The first `*/` at or after `i` (the index of its `*`), or the last index.
pub open spec fn star_slash(cs: Seq<char>, i: int) -> int
    decreases cs.len() - i,
{
    if 0 <= i && i + 1 < cs.len() && !(cs[i] == '*' && cs[i + 1] == '/') {
        star_slash(cs, i + 1)
    } else {
        i
    }
}

pub proof fn lemma_block_comment_end(cs: Seq<char>, i: int, d: int)
    requires
        0 <= i,
    ensures
        i <= block_comment_end(cs, i, d),
        i <= cs.len() ==> block_comment_end(cs, i, d) <= cs.len(),
    decreases cs.len() - i,
{
    if i + 1 < cs.len() && d > 0 {
        if cs[i] == '/' && cs[i + 1] == '*' {
            lemma_block_comment_end(cs, i + 2, d + 1);
        } else if cs[i] == '*' && cs[i + 1] == '/' {
            lemma_block_comment_end(cs, i + 2, d - 1);
        } else {
            lemma_block_comment_end(cs, i + 1, d);
        }
    }
}

pub proof fn lemma_string_end(cs: Seq<char>, i: int)
    requires
        0 <= i,
    ensures
        i <= string_end(cs, i),
        i <= cs.len() + 1 ==> string_end(cs, i) <= cs.len() + 1,
    decreases cs.len() + 1 - i,
{
    if i < cs.len() && cs[i] != '"' {
        if cs[i] == '\\' {
            lemma_string_end(cs, i + 2);
        } else {
            lemma_string_end(cs, i + 1);
        }
    }
}

pub proof fn lemma_hash_run(cs: Seq<char>, j: int, limit: int)
    requires
        0 <= j,
    ensures
        j <= hash_run(cs, j, limit),
        j <= cs.len() ==> hash_run(cs, j, limit) <= cs.len(),
        hash_run(cs, j, limit) <= j || hash_run(cs, j, limit) <= limit,
    decreases cs.len() - j,
{
    if j < cs.len() && cs[j] == '#' && j < limit {
        lemma_hash_run(cs, j + 1, limit);
    }
}

pub proof fn lemma_raw_string_end(cs: Seq<char>, i: int, h: int)
    requires
        0 <= i,
    ensures
        i <= raw_string_end(cs, i, h),
        i <= cs.len() ==> raw_string_end(cs, i, h) <= cs.len(),
    decreases cs.len() - i,
{
    if i < cs.len() {
        lemma_hash_run(cs, i + 1, i + 1 + h);
        lemma_raw_string_end(cs, i + 1, h);
    }
}

pub proof fn lemma_bracket_end(cs: Seq<char>, i: int, d: int, open: char, close: char)
    requires
        0 <= i,
    ensures
        i <= bracket_end(cs, i, d, open, close),
        i <= cs.len() ==> bracket_end(cs, i, d, open, close) <= cs.len(),
    decreases cs.len() - i,
{
    if i < cs.len() && d > 0 {
        let nd = if cs[i] == open { d + 1 } else if cs[i] == close { d - 1 } else { d };
        lemma_bracket_end(cs, i + 1, nd, open, close);
    }
}

pub proof fn lemma_type_end(cs: Seq<char>, i: int, pd: int)
    requires
        0 <= i,
    ensures
        i <= type_end(cs, i, pd),
        i <= cs.len() ==> type_end(cs, i, pd) <= cs.len(),
    decreases cs.len() - i,
{
    if i < cs.len() {
        if cs[i] == '(' {
            lemma_type_end(cs, i + 1, pd + 1);
        } else if cs[i] == ')' {
            if pd != 0 {
                lemma_type_end(cs, i + 1, pd - 1);
            }
        } else if !(cs[i] == ',' && pd == 0) {
            lemma_type_end(cs, i + 1, pd);
        }
    }
}

pub proof fn lemma_star_slash(cs: Seq<char>, i: int)
    requires
        0 <= i,
    ensures
        i <= star_slash(cs, i),
        i <= cs.len() ==> star_slash(cs, i) <= cs.len(),
    decreases cs.len() - i,
{
    if i + 1 < cs.len() && !(cs[i] == '*' && cs[i + 1] == '/') {
        lemma_star_slash(cs, i + 1);
    }
}

/// The body of a function from just past an opening brace, at nesting `d`:
/// the index past the brace that closes it (strings and comments skipped) and
/// the nesting left when the scan stops.
pub open spec fn brace_body_end(cs: Seq<char>, i: int, d: int) -> (int, int)
    decreases cs.len() + 2 - i,
{
    if 0 <= i < cs.len() && d > 0 {
        if cs[i] == '{' {
            brace_body_end(cs, i + 1, d + 1)
        } else if cs[i] == '}' {
            brace_body_end(cs, i + 1, d - 1)
        } else if cs[i] == '"' {
            proof {
                lemma_string_end(cs, i + 1);
            }
            brace_body_end(cs, string_end(cs, i + 1) + 1, d)
        } else if i + 1 < cs.len() && cs[i] == '/' && cs[i + 1] == '/' {
            proof {
                lemma_scans_advance(cs, i, '\n');
            }
            brace_body_end(cs, find_char(cs, i, '\n') + 1, d)
        } else if i + 1 < cs.len() && cs[i] == '/' && cs[i + 1] == '*' {
            proof {
                lemma_star_slash(cs, i + 2);
            }
            let k = star_slash(cs, i + 2);
            if k + 1 < cs.len() {
                brace_body_end(cs, k + 2, d)
            } else {
                brace_body_end(cs, k + 1, d)
            }
        } else {
            brace_body_end(cs, i + 1, d)
        }
    } else {
        (i, d)
    }
}

/// Skip from `i` to the end of the next function body: find the opening brace and
/// the brace that closes it. Gives the new index and brace nesting.
pub open spec fn spec_skip_to_brace_close(cs: Seq<char>, i: int, d: int) -> (int, int) {
    let j = find_char(cs, i, '{');
    if 0 <= j < cs.len() {
        brace_body_end(cs, j + 1, d + 1)
    } else {
        (j, d)
    }
}

// ── Words ───────────────────────────────────────────────────────────

/// `word` stands at `pos` and is not followed by an identifier character.
pub open spec fn spec_starts_with_word(cs: Seq<char>, pos: int, word: Seq<char>) -> bool {
    &&& pos + word.len() <= cs.len()
    &&& cs.subrange(pos, pos + word.len()) == word
    &&& (pos + word.len() == cs.len() || !is_ident_char(cs[pos + word.len()]))
}

/// The start of the whitespace run that ends at `j`.
pub open spec fn ws_back(cs: Seq<char>, j: int) -> int
    decreases j,
{
    if 0 < j <= cs.len() && char_is_whitespace(cs[j - 1]) {
        ws_back(cs, j - 1)
    } else {
        j
    }
}

/// The start of the identifier run that ends at `j`.
pub open spec fn ident_back(cs: Seq<char>, j: int) -> int
    decreases j,
{
    if 0 < j <= cs.len() && is_ident_char(cs[j - 1]) {
        ident_back(cs, j - 1)
    } else {
        j
    }
}

/// The word that ends just before `pos`, skipping whitespace backwards.
pub open spec fn spec_word_before(cs: Seq<char>, pos: int) -> Seq<char> {
    let j = ws_back(cs, pos);
    cs.subrange(ident_back(cs, j), j)
}

// ── Types ───────────────────────────────────────────────────────────

/// The end of `s` with trailing whitespace removed, looking back from `j`.
pub open spec fn trim_end_idx(s: Seq<char>, j: int) -> int
    decreases j,
{
    if 0 < j <= s.len() && char_is_whitespace(s[j - 1]) {
        trim_end_idx(s, j - 1)
    } else {
        j
    }
}

/// `s` without leading and trailing whitespace.
pub open spec fn spec_trim(s: Seq<char>) -> Seq<char> {
    let a = skip_ws(s, 0);
    let b = trim_end_idx(s, s.len() as int);
    if a < b {
        s.subrange(a, b)
    } else {
        Seq::empty()
    }
}

/// The supported Rust type written by `s` (surrounding whitespace ignored);
/// `()` is void, which no parameter can take: it is not a supported type.
pub open spec fn spec_parse_rust_type(s: Seq<char>) -> Option<RustType> {
    let t = spec_trim(s);
    if t == "i64"@ {
        Some(RustType::I64)
    } else if t == "f64"@ {
        Some(RustType::F64)
    } else if t == "bool"@ {
        Some(RustType::Bool)
    } else {
        None
    }
}

/// `s` begins with `p`.
pub open spec fn has_prefix(s: Seq<char>, p: Seq<char>) -> bool {
    p.len() <= s.len() && s.take(p.len() as int) == p
}

/// The first `,` at angle-bracket depth 0, scanning from `i` at depth `d`.
pub open spec fn top_comma(s: Seq<char>, i: int, d: int) -> Option<int>
    decreases s.len() - i,
{
    if 0 <= i < s.len() {
        if s[i] == '<' {
            top_comma(s, i + 1, d + 1)
        } else if s[i] == '>' {
            top_comma(s, i + 1, d - 1)
        } else if s[i] == ',' && d == 0 {
            Some(i)
        } else {
            top_comma(s, i + 1, d)
        }
    } else {
        None
    }
}

/// A `Result<T, E>` return type with a supported `T` (`()` for none); the error type is ignored.
pub open spec fn spec_parse_result_type(s: Seq<char>) -> Option<(Option<RustType>, bool)> {
    let t = spec_trim(s);
    if !(has_prefix(t, "Result<"@) && t.len() > 0 && t.last() == '>') {
        None
    } else {
        let inner = t.subrange(7, t.len() - 1);
        match top_comma(inner, 0, 0) {
            None => None,
            Some(pos) => {
                let ok = spec_trim(inner.take(pos));
                if ok == "()"@ {
                    Some((None, true))
                } else {
                    match spec_parse_rust_type(ok) {
                        Some(rt) => Some((Some(rt), true)),
                        None => None,
                    }
                }
            },
        }
    }
}

// ── Signatures ──────────────────────────────────────────────────────

/// The model of an extracted signature.
pub struct SigM {
    pub name: Seq<char>,
    pub params: Seq<(Seq<char>, RustType)>,
    pub return_type: Option<RustType>,
    pub is_fallible: bool,
}

impl RustFnSig {
    pub open spec fn model(&self) -> SigM {
        SigM {
            name: self.name@,
            params: params_model(self.params@),
            return_type: self.return_type,
            is_fallible: self.is_fallible,
        }
    }
}

/// The parameters of a signature, each name by its characters.
pub open spec fn params_model(v: Seq<(String, RustType)>) -> Seq<(Seq<char>, RustType)> {
    v.map_values(|p: (String, RustType)| (p.0@, p.1))
}

/// The signatures found, by their models.
pub open spec fn sigs_model(v: Seq<RustFnSig>) -> Seq<SigM> {
    v.map_values(|s: RustFnSig| s.model())
}

/// The warnings given, by their characters.
pub open spec fn warns_model(v: Seq<String>) -> Seq<Seq<char>> {
    v.map_values(|w: String| w@)
}

/// An optional string by its characters.
pub open spec fn opt_chars(o: Option<String>) -> Option<Seq<char>> {
    match o {
        Some(s) => Some(s@),
        None => None,
    }
}

/// Where the parameter list scan stopped, the parameters read, and the reason
/// the function is unsupported, if it is.
pub struct ParamsOut {
    pub i: int,
    pub params: Seq<(Seq<char>, RustType)>,
    pub unsupported: Option<Seq<char>>,
}

/// A `self` parameter (`self`, `&self`, `&mut self`, ...) begins at `i`.
pub open spec fn self_param_at(cs: Seq<char>, i: int) -> bool {
    spec_starts_with_word(cs, i, "self"@) || (cs[i] == '&' && {
        let j = skip_ws(cs, i + 1);
        spec_starts_with_word(cs, j, "self"@) || spec_starts_with_word(cs, j, "mut"@)
    })
}

/// One step of the parameter list scan from `i`: either where it stops, or the
/// index of the next parameter and the parameter just read.
pub open spec fn params_step(cs: Seq<char>, i: int) -> (ParamsOut, Option<(int, (Seq<char>, RustType))>) {
    let i1 = skip_ws(cs, i);
    if i1 >= cs.len() || cs[i1] == ')' {
        (ParamsOut { i: if i1 < cs.len() { i1 + 1 } else { i1 }, params: Seq::empty(), unsupported: None }, None)
    } else if self_param_at(cs, i1) {
        (ParamsOut { i: i1, params: Seq::empty(), unsupported: Some("self parameter (method)"@) }, None)
    } else {
        let i2 = skip_ident(cs, i1);
        let pname = cs.subrange(i1, i2);
        let i3 = skip_ws(cs, i2);
        if i3 >= cs.len() || cs[i3] != ':' {
            (ParamsOut { i: i3, params: Seq::empty(), unsupported: Some("malformed parameter"@) }, None)
        } else {
            let i4 = skip_ws(cs, i3 + 1);
            let i5 = type_end(cs, i4, 0);
            let ts = cs.subrange(i4, i5);
            match spec_parse_rust_type(ts) {
                None => (ParamsOut { i: i5, params: Seq::empty(), unsupported: Some(spec_trim(ts)) }, None),
                Some(rt) => {
                    let i6 = if i5 < cs.len() && cs[i5] == ',' { i5 + 1 } else { i5 };
                    (ParamsOut { i: i6, params: Seq::empty(), unsupported: None }, Some((i6, (pname, rt))))
                },
            }
        }
    }
}

/// The parameter list scan from `i` with the parameters `ps` read so far.
pub open spec fn parse_params_from(cs: Seq<char>, i: int, ps: Seq<(Seq<char>, RustType)>) -> ParamsOut
    decreases cs.len() + 1 - i,
{
    let (stop, next) = params_step(cs, i);
    match next {
        Some((j, p)) => if i < j <= cs.len() {
            parse_params_from(cs, j, ps.push(p))
        } else {
            ParamsOut { i: j, params: ps.push(p), unsupported: None }
        },
        None => ParamsOut { i: stop.i, params: ps, unsupported: stop.unsupported },
    }
}

/// The parameter list that begins just past `(` at `i`.
pub open spec fn spec_parse_params(cs: Seq<char>, i: int) -> ParamsOut {
    let j = skip_ws(cs, i);
    if j < cs.len() && cs[j] == ')' {
        ParamsOut { i: j + 1, params: Seq::empty(), unsupported: None }
    } else {
        parse_params_from(cs, j, Seq::empty())
    }
}

/// The state of the scan: position, brace nesting, whether a `#[cfg]` attribute
/// is pending, and what was found so far.
pub struct ScanState {
    pub i: int,
    pub depth: int,
    pub cfg: bool,
    pub sigs: Seq<SigM>,
    pub warns: Seq<Seq<char>>,
}

/// The warning for a function skipped because of a parameter.
pub open spec fn warn_param(name: Seq<char>, ty: Seq<char>) -> Seq<char> {
    "skipping function '"@ + name + "': unsupported type '"@ + ty + "'"@
}

/// The warning for a function skipped because of a `Result` whose Ok type is unsupported.
pub open spec fn warn_ok_type(name: Seq<char>, ty: Seq<char>) -> Seq<char> {
    "skipping function '"@ + name + "': unsupported Ok type in '"@ + ty + "'"@
}

/// The warning for a function skipped because of its return type.
pub open spec fn warn_return(name: Seq<char>, ty: Seq<char>) -> Seq<char> {
    "skipping function '"@ + name + "': unsupported return type '"@ + ty + "'"@
}

/// Record a signature (or a warning) and skip the function body from `i`.
pub open spec fn finish_fn(cs: Seq<char>, st: ScanState, i: int, sig: Option<SigM>, warn: Option<Seq<char>>) -> ScanState {
    let (j, d) = spec_skip_to_brace_close(cs, i, st.depth);
    ScanState {
        i: j,
        depth: d,
        cfg: false,
        sigs: match sig { Some(s) => st.sigs.push(s), None => st.sigs },
        warns: match warn { Some(w) => st.warns.push(w), None => st.warns },
    }
}

/// The scan step at a `pub` at brace depth 0.
pub open spec fn pub_step(cs: Seq<char>, st: ScanState) -> ScanState {
    let pub_start = st.i;
    let i1 = skip_ws(cs, pub_start + 3);
    if i1 < cs.len() && cs[i1] == '(' {
        ScanState { i: bracket_end(cs, i1 + 1, 1, '(', ')'), cfg: false, ..st }
    } else if spec_starts_with_word(cs, i1, "fn"@) {
        let before = spec_word_before(cs, pub_start);
        if before == "async"@ || before == "unsafe"@ || before == "const"@ || st.cfg {
            ScanState { i: i1 + 2, cfg: false, ..st }
        } else {
            let i2 = skip_ws(cs, i1 + 2);
            let i3 = skip_ident(cs, i2);
            let name = cs.subrange(i2, i3);
            let i4 = skip_ws(cs, i3);
            if i4 >= cs.len() || cs[i4] != '(' {
                ScanState { i: i4, cfg: false, ..st }
            } else {
                let p = spec_parse_params(cs, i4 + 1);
                match p.unsupported {
                    Some(ut) => finish_fn(cs, st, p.i, None, Some(warn_param(name, ut))),
                    None => {
                        let i5 = skip_ws(cs, p.i);
                        if i5 + 1 < cs.len() && cs[i5] == '-' && cs[i5 + 1] == '>' {
                            let i6 = skip_ws(cs, i5 + 2);
                            let i7 = find_char(cs, i6, '{');
                            let t = spec_trim(cs.subrange(i6, i7));
                            if has_prefix(t, "Result<"@) {
                                match spec_parse_result_type(t) {
                                    Some((rt, f)) => finish_fn(cs, st, i7,
                                        Some(SigM { name, params: p.params, return_type: rt, is_fallible: f }), None),
                                    None => finish_fn(cs, st, i7, None, Some(warn_ok_type(name, t))),
                                }
                            } else if t == "()"@ {
                                finish_fn(cs, st, i7, Some(SigM { name, params: p.params, return_type: None, is_fallible: false }), None)
                            } else {
                                match spec_parse_rust_type(t) {
                                    Some(rt) => finish_fn(cs, st, i7,
                                        Some(SigM { name, params: p.params, return_type: Some(rt), is_fallible: false }), None),
                                    None => finish_fn(cs, st, i7, None, Some(warn_return(name, t))),
                                }
                            }
                        } else {
                            finish_fn(cs, st, i5, Some(SigM { name, params: p.params, return_type: None, is_fallible: false }), None)
                        }
                    },
                }
            }
        }
    } else {
        ScanState { i: i1 + 1, cfg: false, ..st }
    }
}

/// One step of the source scan at `st.i` (which is inside the source).
pub open spec fn scan_step(cs: Seq<char>, st: ScanState) -> ScanState {
    let i = st.i;
    let len = cs.len() as int;
    if i + 1 < len && cs[i] == '/' && cs[i + 1] == '/' {
        ScanState { i: find_char(cs, i, '\n'), ..st }
    } else if i + 1 < len && cs[i] == '/' && cs[i + 1] == '*' {
        ScanState { i: block_comment_end(cs, i + 2, 1), ..st }
    } else if cs[i] == '"' {
        let j = string_end(cs, i + 1);
        ScanState { i: if j < len { j + 1 } else { j }, ..st }
    } else if cs[i] == 'r' && i + 1 < len && (cs[i + 1] == '"' || cs[i + 1] == '#') {
        let h = hash_run(cs, i + 1, len);
        if h < len && cs[h] == '"' {
            ScanState { i: raw_string_end(cs, h + 1, h - (i + 1)), ..st }
        } else {
            ScanState { i: i + 1, ..st }
        }
    } else if cs[i] == '\'' && i + 1 < len && cs[i + 1] != '\'' {
        if char_is_alphabetic(cs[i + 1]) || cs[i + 1] == '_' {
            let j = skip_ident(cs, i + 1);
            ScanState { i: if j < len && cs[j] == '\'' { j + 1 } else { i + 1 }, ..st }
        } else if cs[i + 1] == '\\' {
            ScanState { i: i + 4, ..st }
        } else {
            ScanState { i: i + 1, ..st }
        }
    } else if cs[i] == '{' {
        ScanState { i: i + 1, depth: st.depth + 1, ..st }
    } else if cs[i] == '}' {
        ScanState { i: i + 1, depth: st.depth - 1, ..st }
    } else if st.depth == 0 && cs[i] == '#' && i + 1 < len && cs[i + 1] == '[' {
        let j = skip_ws(cs, i + 2);
        let k = skip_ident(cs, j);
        ScanState {
            i: bracket_end(cs, k, 1, '[', ']'),
            cfg: if cs.subrange(j, k) == "cfg"@ { true } else { st.cfg },
            ..st
        }
    } else if st.depth == 0 && spec_starts_with_word(cs, i, "pub"@) {
        pub_step(cs, st)
    } else if st.depth == 0 && !char_is_whitespace(cs[i]) && cs[i] != '\n' {
        ScanState {
            i: i + 1,
            cfg: if char_is_alphabetic(cs[i]) && !spec_starts_with_word(cs, i, "pub"@) { false } else { st.cfg },
            ..st
        }
    } else {
        ScanState { i: i + 1, ..st }
    }
}

/// The scan of the whole source from state `st`, step by step until the end.
pub open spec fn scan_from(cs: Seq<char>, st: ScanState) -> ScanState
    decreases cs.len() + 4 - st.i,
{
    if 0 <= st.i < cs.len() {
        let next = scan_step(cs, st);
        if st.i < next.i <= cs.len() + 3 {
            scan_from(cs, next)
        } else {
            next
        }
    } else {
        st
    }
}

/// The scan of a whole source text.
pub open spec fn spec_scan(cs: Seq<char>) -> ScanState {
    scan_from(cs, ScanState { i: 0, depth: 0, cfg: false, sigs: Seq::empty(), warns: Seq::empty() })
}


// ── Scanning helpers ────────────────────────────────────────────────

/// The longest source this scanner takes: brace nesting, never deeper than
/// the position, is kept in an `i32`, and positions run a few characters
/// past the end.
pub open spec fn source_fits(len: int) -> bool {
    len < 0x7fff_fff0
}

fn is_ident_c(c: char) -> (r: bool)
    ensures
        r == is_ident_char(c),
{
    is_alnum(c) || c == '_'
}

pub(crate) fn skip_ws_at(cs: &[char], i: usize) -> (r: usize)
    ensures
        r == skip_ws(cs@, i as int),
        i <= r,
        i <= cs@.len() ==> r <= cs@.len(),
        i > cs@.len() ==> r == i,
{
    let mut k = i;
    while k < cs.len() && is_ws(cs[k])
        invariant
            i <= k,
            i <= cs@.len() ==> k <= cs@.len(),
            i > cs@.len() ==> k == i,
            skip_ws(cs@, k as int) == skip_ws(cs@, i as int),
        decreases cs@.len() - k,
    {
        k += 1;
    }
    k
}

fn skip_ident_at(cs: &[char], i: usize) -> (r: usize)
    ensures
        r == skip_ident(cs@, i as int),
        i <= r,
        i <= cs@.len() ==> r <= cs@.len(),
        i > cs@.len() ==> r == i,
{
    let mut k = i;
    while k < cs.len() && is_ident_c(cs[k])
        invariant
            i <= k,
            i <= cs@.len() ==> k <= cs@.len(),
            i > cs@.len() ==> k == i,
            skip_ident(cs@, k as int) == skip_ident(cs@, i as int),
        decreases cs@.len() - k,
    {
        k += 1;
    }
    k
}

pub(crate) fn find_char_at(cs: &[char], i: usize, c: char) -> (r: usize)
    ensures
        r == find_char(cs@, i as int, c),
        i <= r,
        i < cs@.len() && cs@[i as int] != c ==> i < r,
        i <= cs@.len() ==> r <= cs@.len(),
        i > cs@.len() ==> r == i,
{
    let mut k = i;
    while k < cs.len() && cs[k] != c
        invariant
            i <= k,
            i <= cs@.len() ==> k <= cs@.len(),
            i > cs@.len() ==> k == i,
            find_char(cs@, k as int, c) == find_char(cs@, i as int, c),
        decreases cs@.len() - k,
    {
        k += 1;
    }
    k
}

/// The end of a block comment whose body starts at `i` (one comment open).
fn block_comment_end_at(cs: &[char], i: usize) -> (r: usize)
    requires
        1 <= i <= cs@.len(),
        source_fits(cs@.len() as int),
    ensures
        r == block_comment_end(cs@, i as int, 1),
        i <= r <= cs@.len(),
{
    let mut k = i;
    let mut d: usize = 1;
    while k + 1 < cs.len() && d > 0
        invariant
            source_fits(cs@.len() as int),
            i <= k <= cs@.len(),
            d <= k,
            block_comment_end(cs@, k as int, d as int) == block_comment_end(cs@, i as int, 1),
        decreases cs@.len() - k,
    {
        if cs[k] == '/' && cs[k + 1] == '*' {
            d += 1;
            k += 2;
        } else if cs[k] == '*' && cs[k + 1] == '/' {
            d -= 1;
            k += 2;
        } else {
            k += 1;
        }
    }
    k
}

/// The index of the quote closing a string literal whose body starts at `i`.
fn string_end_at(cs: &[char], i: usize) -> (r: usize)
    requires
        i <= cs@.len() + 1,
        source_fits(cs@.len() as int),
    ensures
        r == string_end(cs@, i as int),
        i <= r <= cs@.len() + 1,
{
    let mut k = i;
    while k < cs.len() && cs[k] != '"'
        invariant
            i <= k <= cs@.len() + 1,
            source_fits(cs@.len() as int),
            string_end(cs@, k as int) == string_end(cs@, i as int),
        decreases cs@.len() + 1 - k,
    {
        if cs[k] == '\\' {
            k += 1;
        }
        k += 1;
    }
    k
}

fn hash_run_at(cs: &[char], j: usize, limit: usize) -> (r: usize)
    requires
        j <= cs@.len(),
    ensures
        r == hash_run(cs@, j as int, limit as int),
        j <= r <= cs@.len(),
        r <= j || r <= limit,
{
    let mut k = j;
    while k < cs.len() && cs[k] == '#' && k < limit
        invariant
            j <= k <= cs@.len(),
            k <= j || k <= limit,
            hash_run(cs@, k as int, limit as int) == hash_run(cs@, j as int, limit as int),
        decreases cs@.len() - k,
    {
        k += 1;
    }
    k
}

/// The end of a raw string body that starts at `i` and closes with `hashes` hashes.
fn raw_string_end_at(cs: &[char], i: usize, hashes: usize) -> (r: usize)
    requires
        i <= cs@.len(),
        hashes <= cs@.len(),
        source_fits(cs@.len() as int),
    ensures
        r == raw_string_end(cs@, i as int, hashes as int),
        i <= r <= cs@.len(),
{
    let mut k = i;
    while k < cs.len()
        invariant
            i <= k <= cs@.len(),
            hashes <= cs@.len(),
            source_fits(cs@.len() as int),
            raw_string_end(cs@, k as int, hashes as int) == raw_string_end(cs@, i as int, hashes as int),
        decreases cs@.len() - k,
    {
        if cs[k] == '"' {
            let e = hash_run_at(cs, k + 1, k + 1 + hashes);
            if e - (k + 1) == hashes {
                return e;
            }
        }
        k += 1;
    }
    k
}

/// Past a bracketed region whose opening bracket is already consumed.
fn bracket_end_at(cs: &[char], i: usize, open: char, close: char) -> (r: usize)
    requires
        i <= cs@.len(),
        source_fits(cs@.len() as int),
    ensures
        r == bracket_end(cs@, i as int, 1, open, close),
        i <= r <= cs@.len(),
{
    let mut k = i;
    let mut d: usize = 1;
    while k < cs.len() && d > 0
        invariant
            source_fits(cs@.len() as int),
            i <= k <= cs@.len(),
            d <= k - i + 1,
            bracket_end(cs@, k as int, d as int, open, close) == bracket_end(cs@, i as int, 1, open, close),
        decreases cs@.len() - k,
    {
        if cs[k] == open {
            d += 1;
        } else if cs[k] == close {
            d -= 1;
        }
        k += 1;
    }
    k
}

/// The end of a parameter type starting at `i`.
fn type_end_at(cs: &[char], i: usize) -> (r: usize)
    requires
        i <= cs@.len(),
    ensures
        r == type_end(cs@, i as int, 0),
        i <= r <= cs@.len(),
{
    let mut k = i;
    let mut pd: usize = 0;
    while k < cs.len()
        invariant
            i <= k <= cs@.len(),
            pd <= k - i,
            type_end(cs@, k as int, pd as int) == type_end(cs@, i as int, 0),
        decreases cs@.len() - k,
    {
        if cs[k] == '(' {
            pd += 1;
        } else if cs[k] == ')' {
            if pd == 0 {
                return k;
            }
            pd -= 1;
        } else if cs[k] == ',' && pd == 0 {
            return k;
        }
        k += 1;
    }
    k
}

fn star_slash_at(cs: &[char], i: usize) -> (r: usize)
    requires
        i <= cs@.len(),
        source_fits(cs@.len() as int),
    ensures
        r == star_slash(cs@, i as int),
        i <= r <= cs@.len(),
{
    let mut k = i;
    while k + 1 < cs.len() && !(cs[k] == '*' && cs[k + 1] == '/')
        invariant
            source_fits(cs@.len() as int),
            i <= k <= cs@.len(),
            star_slash(cs@, k as int) == star_slash(cs@, i as int),
        decreases cs@.len() - k,
    {
        k += 1;
    }
    k
}

/// Scan a function body from just past an opening brace at nesting `d0`.
fn brace_body_end_at(cs: &[char], i: usize, d0: i32) -> (r: (usize, i32))
    requires
        i <= cs@.len(),
        source_fits(cs@.len() as int),
        -(i as int) <= d0 <= i,
    ensures
        (r.0 as int, r.1 as int) == brace_body_end(cs@, i as int, d0 as int),
        i <= r.0 <= cs@.len() + 2,
        d0 > 0 ==> 0 <= r.1 <= d0 + (r.0 - i),
        d0 <= 0 ==> r.1 == d0 && r.0 == i,
{
    let mut k = i;
    let mut d = d0;
    while k < cs.len() && d > 0
        invariant
            i <= k <= cs@.len() + 2,
            source_fits(cs@.len() as int),
            -(i as int) <= d0 <= i,
            d0 > 0 ==> 0 <= d <= d0 + (k - i),
            d0 <= 0 ==> d == d0 && k == i,
            brace_body_end(cs@, k as int, d as int) == brace_body_end(cs@, i as int, d0 as int),
        decreases cs@.len() + 2 - k,
    {
        if cs[k] == '{' {
            d += 1;
            k += 1;
        } else if cs[k] == '}' {
            d -= 1;
            k += 1;
        } else if cs[k] == '"' {
            k = string_end_at(cs, k + 1) + 1;
        } else if k + 1 < cs.len() && cs[k] == '/' && cs[k + 1] == '/' {
            k = find_char_at(cs, k, '\n') + 1;
        } else if k + 1 < cs.len() && cs[k] == '/' && cs[k + 1] == '*' {
            let e = star_slash_at(cs, k + 2);
            if e + 1 < cs.len() {
                k = e + 2;
            } else {
                k = e + 1;
            }
        } else {
            k += 1;
        }
    }
    (k, d)
}

/// Skip from `*i` to the end of the next function body: find its opening brace,
/// then the brace that closes it, keeping `*brace_depth` up to date.
fn skip_to_brace_close(chars: &[char], i: &mut usize, brace_depth: &mut i32)
    requires
        *old(i) <= chars@.len() + 3,
        source_fits(chars@.len() as int),
        -(*old(i) as int) <= *old(brace_depth) <= *old(i),
    ensures
        (*final(i) as int, *final(brace_depth) as int)
            == spec_skip_to_brace_close(chars@, *old(i) as int, *old(brace_depth) as int),
        *old(i) <= *final(i),
        *old(i) <= chars@.len() ==> *final(i) <= chars@.len() + 2,
        *old(i) > chars@.len() ==> *final(i) == *old(i),
        *final(brace_depth) <= *old(brace_depth) + (*final(i) - *old(i)),
        *final(brace_depth) >= *old(brace_depth) || *final(brace_depth) >= 0,
{
    let len = chars.len();
    *i = find_char_at(chars, *i, '{');
    if *i < len {
        *brace_depth += 1;
        *i += 1;
        let (k, d) = brace_body_end_at(chars, *i, *brace_depth);
        *i = k;
        *brace_depth = d;
    }
}

/// Whether `word` stands at `pos` and is not followed by an identifier character.
pub fn starts_with_word(chars: &[char], pos: usize, word: &str) -> (r: bool)
    ensures
        r == spec_starts_with_word(chars@, pos as int, word@),
{
    let wchars = chars_of(word);
    if wchars.len() > chars.len() || pos > chars.len() - wchars.len() {
        return false;
    }
    let mut j: usize = 0;
    while j < wchars.len()
        invariant
            j <= wchars@.len(),
            wchars@ == word@,
            pos + wchars@.len() <= chars@.len(),
            chars@.len() <= usize::MAX,
            forall|k: int| 0 <= k < j ==> chars@[pos + k] == wchars@[k],
        decreases wchars@.len() - j,
    {
        if chars[pos + j] != wchars[j] {
            proof {
                assert(chars@.subrange(pos as int, pos + wchars@.len())[j as int] == chars@[pos + j]);
            }
            return false;
        }
        j += 1;
    }
    proof {
        assert(chars@.subrange(pos as int, pos + wchars@.len()) =~= wchars@);
    }
    let after = pos + wchars.len();
    if after < chars.len() && is_ident_c(chars[after]) {
        return false;
    }
    true
}

/// The word that ends just before `pos`, skipping whitespace backwards.
pub fn get_word_before(chars: &[char], pos: usize) -> (w: String)
    requires
        pos <= chars@.len(),
    ensures
        w@ == spec_word_before(chars@, pos as int),
{
    let mut i = pos;
    while i > 0 && is_ws(chars[i - 1])
        invariant
            i <= pos <= chars@.len(),
            ws_back(chars@, i as int) == ws_back(chars@, pos as int),
        decreases i,
    {
        i -= 1;
    }
    let end = i;
    while i > 0 && is_ident_c(chars[i - 1])
        invariant
            i <= end <= chars@.len(),
            end == ws_back(chars@, pos as int),
            ident_back(chars@, i as int) == ident_back(chars@, end as int),
        decreases i,
    {
        i -= 1;
    }
    string_of_range(chars, i, end)
}

/// `s` without leading and trailing whitespace.
fn trimmed(s: &str) -> (t: String)
    ensures
        t@ == spec_trim(s@),
{
    let cs = chars_of(s);
    let a = skip_ws_at(cs.as_slice(), 0);
    let mut b = cs.len();
    while b > 0 && is_ws(cs[b - 1])
        invariant
            b <= cs@.len(),
            cs@ == s@,
            trim_end_idx(cs@, b as int) == trim_end_idx(cs@, cs@.len() as int),
        decreases b,
    {
        b -= 1;
    }
    if a < b {
        string_of_range(cs.as_slice(), a, b)
    } else {
        String::new()
    }
}

/// Whether the characters `cs` begin with `p`.
fn has_prefix_at(cs: &[char], p: &str) -> (r: bool)
    ensures
        r == has_prefix(cs@, p@),
{
    let pc = chars_of(p);
    if pc.len() > cs.len() {
        return false;
    }
    let mut j: usize = 0;
    while j < pc.len()
        invariant
            j <= pc@.len() <= cs@.len(),
            pc@ == p@,
            forall|k: int| 0 <= k < j ==> cs@[k] == pc@[k],
        decreases pc@.len() - j,
    {
        if cs[j] != pc[j] {
            proof {
                assert(cs@.take(pc@.len() as int)[j as int] == cs@[j as int]);
            }
            return false;
        }
        j += 1;
    }
    proof {
        assert(cs@.take(pc@.len() as int) =~= pc@);
    }
    true
}

/// The supported Rust type written by `s`, surrounding whitespace ignored.
pub fn parse_rust_type(s: &str) -> (r: Option<RustType>)
    ensures
        r == spec_parse_rust_type(s@),
{
    let t = trimmed(s);
    if str_eq(t.as_str(), "i64") {
        Some(RustType::I64)
    } else if str_eq(t.as_str(), "f64") {
        Some(RustType::F64)
    } else if str_eq(t.as_str(), "bool") {
        Some(RustType::Bool)
    } else {
        None
    }
}

/// The first `,` at angle-bracket depth 0 in `cs[a..b]`, as an offset from `a`.
fn top_comma_at(cs: &[char], a: usize, b: usize) -> (r: Option<usize>)
    requires
        a <= b <= cs@.len(),
        source_fits(cs@.len() as int),
    ensures
        match r {
            Some(p) => p < b - a && Some(p as int) == top_comma(cs@.subrange(a as int, b as int), 0, 0),
            None => top_comma(cs@.subrange(a as int, b as int), 0, 0) is None,
        },
{
    let ghost inner = cs@.subrange(a as int, b as int);
    let mut k: usize = 0;
    let mut depth: i32 = 0;
    while k < b - a
        invariant
            a <= b <= cs@.len(),
            source_fits(cs@.len() as int),
            inner == cs@.subrange(a as int, b as int),
            k <= b - a,
            -(k as int) <= depth <= k,
            top_comma(inner, k as int, depth as int) == top_comma(inner, 0, 0),
        decreases b - a - k,
    {
        let ch = cs[a + k];
        assert(ch == inner[k as int]);
        if ch == '<' {
            depth += 1;
        } else if ch == '>' {
            depth -= 1;
        } else if ch == ',' && depth == 0 {
            return Some(k);
        }
        k += 1;
    }
    None
}

/// A `Result<T, E>` return type whose Ok type `T` is supported (`()` for none);
/// the error type is ignored.
pub fn parse_result_type(s: &str) -> (r: Option<(Option<RustType>, bool)>)
    requires
        source_fits(s@.len() as int),
    ensures
        r == spec_parse_result_type(s@),
{
    let t = trimmed(s);
    let tc = chars_of(t.as_str());
    let n = tc.len();
    proof {
        assert(t@.len() <= s@.len()) by {
            lemma_trim_len(s@);
        }
    }
    if !(has_prefix_at(tc.as_slice(), "Result<") && n > 0 && tc[n - 1] == '>') {
        return None;
    }
    proof {
        reveal_strlit("Result<");
        assert(tc@.take(7)[6] == '<');
    }
    let split = top_comma_at(tc.as_slice(), 7, n - 1);
    match split {
        None => None,
        Some(pos) => {
            let ok_raw = string_of_range(tc.as_slice(), 7, 7 + pos);
            proof {
                assert(ok_raw@ =~= tc@.subrange(7, n - 1).take(pos as int));
            }
            let ok = trimmed(ok_raw.as_str());
            if str_eq(ok.as_str(), "()") {
                Some((None, true))
            } else {
                match parse_rust_type(ok.as_str()) {
                    Some(rt) => Some((Some(rt), true)),
                    None => None,
                }
            }
        },
    }
}

pub proof fn lemma_trim_len(s: Seq<char>)
    ensures
        spec_trim(s).len() <= s.len(),
        spec_trim(s).len() > 0 ==> s.len() > 0,
{
    lemma_scans_advance(s, 0, ' ');
    lemma_trim_end_idx(s, s.len() as int);
}

pub proof fn lemma_trim_end_idx(s: Seq<char>, j: int)
    requires
        0 <= j <= s.len(),
    ensures
        0 <= trim_end_idx(s, j) <= j,
    decreases j,
{
    if 0 < j && char_is_whitespace(s[j - 1]) {
        lemma_trim_end_idx(s, j - 1);
    }
}

// ── The scan ────────────────────────────────────────────────────────

/// Whether a `self` parameter begins at `i`.
fn self_param_check(cs: &[char], i: usize) -> (r: bool)
    requires
        i < cs@.len(),
    ensures
        r == self_param_at(cs@, i as int),
{
    if starts_with_word(cs, i, "self") {
        return true;
    }
    if cs[i] == '&' {
        let j = skip_ws_at(cs, i + 1);
        starts_with_word(cs, j, "self") || starts_with_word(cs, j, "mut")
    } else {
        false
    }
}

/// The parameter list that begins just past `(` at `i`: where the scan stopped,
/// the parameters read, and why the function is unsupported, if it is.
fn parse_params(cs: &[char], i: usize) -> (r: (usize, Vec<(String, RustType)>, Option<String>))
    requires
        i <= cs@.len(),
        source_fits(cs@.len() as int),
    ensures
        r.0 as int == spec_parse_params(cs@, i as int).i,
        params_model(r.1@) == spec_parse_params(cs@, i as int).params,
        opt_chars(r.2) == spec_parse_params(cs@, i as int).unsupported,
        i <= r.0 <= cs@.len(),
{
    let len = cs.len();
    let mut params: Vec<(String, RustType)> = Vec::new();
    let j = skip_ws_at(cs, i);
    if j < len && cs[j] == ')' {
        return (j + 1, params, None);
    }
    proof {
        assert(params_model(params@) =~= Seq::empty());
    }
    let mut k = j;
    loop
        invariant
            i <= j <= k <= cs@.len(),
            len == cs@.len(),
            source_fits(cs@.len() as int),
            spec_parse_params(cs@, i as int) == parse_params_from(cs@, j as int, Seq::empty()),
            parse_params_from(cs@, k as int, params_model(params@)) == parse_params_from(cs@, j as int, Seq::empty()),
        decreases cs@.len() - k,
    {
        let i1 = skip_ws_at(cs, k);
        if i1 >= len || cs[i1] == ')' {
            let stop = if i1 < len { i1 + 1 } else { i1 };
            return (stop, params, None);
        }
        if self_param_check(cs, i1) {
            return (i1, params, Some(String::from_str("self parameter (method)")));
        }
        let i2 = skip_ident_at(cs, i1);
        let pname = string_of_range(cs, i1, i2);
        let i3 = skip_ws_at(cs, i2);
        if i3 >= len || cs[i3] != ':' {
            return (i3, params, Some(String::from_str("malformed parameter")));
        }
        let i4 = skip_ws_at(cs, i3 + 1);
        let i5 = type_end_at(cs, i4);
        let type_str = string_of_range(cs, i4, i5);
        match parse_rust_type(type_str.as_str()) {
            Some(rt) => {
                let ghost before = params_model(params@);
                params.push((pname, rt));
                proof {
                    assert(params_model(params@) =~= before.push((cs@.subrange(i1 as int, i2 as int), rt)));
                }
                k = if i5 < len && cs[i5] == ',' { i5 + 1 } else { i5 };
            },
            None => {
                return (i5, params, Some(trimmed(type_str.as_str())));
            },
        }
    }
}

/// The text `head + name + mid + ty + "'"`.
fn warning_text(head: &str, name: &str, mid: &str, ty: &str) -> (w: String)
    ensures
        w@ == head@ + name@ + mid@ + ty@ + "'"@,
{
    let mut w = String::from_str(head);
    w.append(name);
    w.append(mid);
    w.append(ty);
    w.append("'");
    w
}

/// Whether `st` holds exactly the given position, nesting, pending attribute and findings.
pub open spec fn state_is(st: ScanState, i: int, depth: int, cfg: bool, sigs: Seq<SigM>, warns: Seq<Seq<char>>) -> bool {
    st.i == i && st.depth == depth && st.cfg == cfg && st.sigs == sigs && st.warns == warns
}

/// The scan at a `pub` at brace depth 0: a `pub fn` with supported types is
/// recorded, one with unsupported types gives a warning; either way its body is skipped.
fn scan_pub(
    chars: &[char],
    pub_start: usize,
    had_cfg_attr: bool,
    brace_depth: &mut i32,
    sigs: &mut Vec<RustFnSig>,
    warnings: &mut Vec<String>,
) -> (r: (usize, bool))
    requires
        pub_start < chars@.len(),
        source_fits(chars@.len() as int),
        *old(brace_depth) == 0,
    ensures
        state_is(
            pub_step(chars@, (ScanState { i: pub_start as int, depth: 0, cfg: had_cfg_attr, sigs: sigs_model(old(sigs)@), warns: warns_model(old(warnings)@) })),
            r.0 as int, *final(brace_depth) as int, r.1, sigs_model(final(sigs)@), warns_model(final(warnings)@),
        ),
        pub_start < r.0 <= chars@.len() + 3,
        -(r.0 as int) <= *final(brace_depth) <= r.0,
{
    let len = chars.len();
    let ghost st = ScanState { i: pub_start as int, depth: 0, cfg: had_cfg_attr, sigs: sigs_model(sigs@), warns: warns_model(warnings@) };
    let mut i = skip_ws_at(chars, pub_start + 3);
    if i < len && chars[i] == '(' {
        // `pub(crate)` and the like: skip the restriction.
        let e = bracket_end_at(chars, i + 1, '(', ')');
        return (e, false);
    }
    if !starts_with_word(chars, i, "fn") {
        return (i + 1, false);
    }
    let before_pub = get_word_before(chars, pub_start);
    if str_eq(before_pub.as_str(), "async") || str_eq(before_pub.as_str(), "unsafe")
        || str_eq(before_pub.as_str(), "const") {
        return (i + 2, false);
    }
    if had_cfg_attr {
        return (i + 2, false);
    }
    proof {
        reveal_strlit("fn");
    }
    i = skip_ws_at(chars, i + 2);
    let name_start = i;
    i = skip_ident_at(chars, i);
    let fn_name = string_of_range(chars, name_start, i);
    i = skip_ws_at(chars, i);
    if i < len && chars[i] == '<' {
        // Generic functions are not bridged.
        return (i, false);
    }
    if i >= len || chars[i] != '(' {
        return (i, false);
    }
    let (after_params, params, unsupported) = parse_params(chars, i + 1);
    if let Some(unsupported_type) = unsupported {
        let ghost w0 = warns_model(warnings@);
        warnings.push(warning_text("skipping function '", fn_name.as_str(), "': unsupported type '", unsupported_type.as_str()));
        proof {
            assert(warns_model(warnings@) =~= w0.push(warn_param(fn_name@, unsupported_type@)));
        }
        let mut k = after_params;
        skip_to_brace_close(chars, &mut k, brace_depth);
        return (k, false);
    }
    i = skip_ws_at(chars, after_params);
    let mut is_fallible = false;
    let mut return_type: Option<RustType> = None;
    if i + 1 < len && chars[i] == '-' && chars[i + 1] == '>' {
        i = skip_ws_at(chars, i + 2);
        let ret_start = i;
        i = find_char_at(chars, i, '{');
        let ret_str = string_of_range(chars, ret_start, i);
        let ret_trimmed = trimmed(ret_str.as_str());
        proof {
            lemma_trim_len(ret_str@);
        }
        let tc = chars_of(ret_trimmed.as_str());
        if has_prefix_at(tc.as_slice(), "Result<") {
            match parse_result_type(ret_trimmed.as_str()) {
                Some((rt, fallible)) => {
                    is_fallible = fallible;
                    return_type = rt;
                },
                None => {
                    let ghost w0 = warns_model(warnings@);
                    warnings.push(warning_text("skipping function '", fn_name.as_str(), "': unsupported Ok type in '", ret_trimmed.as_str()));
                    proof {
                        assert(warns_model(warnings@) =~= w0.push(warn_ok_type(fn_name@, ret_trimmed@)));
                    }
                    skip_to_brace_close(chars, &mut i, brace_depth);
                    return (i, false);
                },
            }
        } else if str_eq(ret_trimmed.as_str(), "()") {
            return_type = None;
        } else {
            match parse_rust_type(ret_trimmed.as_str()) {
                Some(rt) => {
                    return_type = Some(rt);
                },
                None => {
                    let ghost w0 = warns_model(warnings@);
                    warnings.push(warning_text("skipping function '", fn_name.as_str(), "': unsupported return type '", ret_trimmed.as_str()));
                    proof {
                        assert(warns_model(warnings@) =~= w0.push(warn_return(fn_name@, ret_trimmed@)));
                    }
                    skip_to_brace_close(chars, &mut i, brace_depth);
                    return (i, false);
                },
            }
        }
    }
    let ghost s0 = sigs_model(sigs@);
    let sig = RustFnSig { name: fn_name, params, return_type, is_fallible };
    let ghost m = sig.model();
    sigs.push(sig);
    proof {
        assert(sigs_model(sigs@) =~= s0.push(m));
    }
    skip_to_brace_close(chars, &mut i, brace_depth);
    (i, false)
}

/// Extracts the supported top-level `pub fn` signatures of a Rust source text,
/// with a warning for each `pub fn` skipped for an unsupported type.
pub fn parse_rust_source(source: &str) -> (r: (Vec<RustFnSig>, Vec<String>))
    requires
        source_fits(source@.len() as int),
    ensures
        sigs_model(r.0@) == spec_scan(source@).sigs,
        warns_model(r.1@) == spec_scan(source@).warns,
{
    let mut sigs: Vec<RustFnSig> = Vec::new();
    let mut warnings: Vec<String> = Vec::new();
    let chars_vec = chars_of(source);
    let chars = chars_vec.as_slice();
    let len = chars.len();
    let mut i: usize = 0;
    let mut brace_depth: i32 = 0;
    let mut had_cfg_attr = false;
    proof {
        assert(sigs_model(sigs@) =~= Seq::empty());
        assert(warns_model(warnings@) =~= Seq::empty());
    }
    while i < len
        invariant
            chars@ == source@,
            len == chars@.len(),
            source_fits(len as int),
            i <= len + 3,
            -(i as int) <= brace_depth <= i,
            scan_from(chars@, (ScanState { i: i as int, depth: brace_depth as int, cfg: had_cfg_attr, sigs: sigs_model(sigs@), warns: warns_model(warnings@) }))
                == spec_scan(chars@),
        decreases len + 3 - i,
    {
        let ghost cur = ScanState { i: i as int, depth: brace_depth as int, cfg: had_cfg_attr, sigs: sigs_model(sigs@), warns: warns_model(warnings@) };
        if i + 1 < len && chars[i] == '/' && chars[i + 1] == '/' {
            i = find_char_at(chars, i, '\n');
        } else if i + 1 < len && chars[i] == '/' && chars[i + 1] == '*' {
            i = block_comment_end_at(chars, i + 2);
        } else if chars[i] == '"' {
            let j = string_end_at(chars, i + 1);
            i = if j < len { j + 1 } else { j };
        } else if chars[i] == 'r' && i + 1 < len && (chars[i + 1] == '"' || chars[i + 1] == '#') {
            let h = hash_run_at(chars, i + 1, len);
            if h < len && chars[h] == '"' {
                i = raw_string_end_at(chars, h + 1, h - (i + 1));
            } else {
                i += 1;
            }
        } else if chars[i] == '\'' && i + 1 < len && chars[i + 1] != '\'' {
            if is_alpha(chars[i + 1]) || chars[i + 1] == '_' {
                // A char literal like 'a', or a lifetime.
                let j = skip_ident_at(chars, i + 1);
                if j < len && chars[j] == '\'' {
                    i = j + 1;
                } else {
                    i += 1;
                }
            } else if chars[i + 1] == '\\' {
                i += 4;
            } else {
                i += 1;
            }
        } else if chars[i] == '{' {
            brace_depth += 1;
            i += 1;
        } else if chars[i] == '}' {
            brace_depth -= 1;
            i += 1;
        } else if brace_depth == 0 && chars[i] == '#' && i + 1 < len && chars[i + 1] == '[' {
            let j = skip_ws_at(chars, i + 2);
            let k = skip_ident_at(chars, j);
            let word = string_of_range(chars, j, k);
            if str_eq(word.as_str(), "cfg") {
                had_cfg_attr = true;
            }
            i = bracket_end_at(chars, k, '[', ']');
        } else if brace_depth == 0 && starts_with_word(chars, i, "pub") {
            let (next, cfg) = scan_pub(chars, i, had_cfg_attr, &mut brace_depth, &mut sigs, &mut warnings);
            i = next;
            had_cfg_attr = cfg;
        } else if brace_depth == 0 && !is_ws(chars[i]) && chars[i] != '\n' {
            if is_alpha(chars[i]) && !starts_with_word(chars, i, "pub") {
                had_cfg_attr = false;
            }
            i += 1;
        } else {
            i += 1;
        }
        proof {
            let next = ScanState { i: i as int, depth: brace_depth as int, cfg: had_cfg_attr, sigs: sigs_model(sigs@), warns: warns_model(warnings@) };
            assert(next == scan_step(chars@, cur));
        }
    }
    (sigs, warnings)
}

// ── Laws ────────────────────────────────────────────────────────────

/// Every warning says which function it skipped: it begins `skipping function '`.
pub open spec fn warnings_name_functions(w: Seq<Seq<char>>) -> bool {
    forall|k: int| 0 <= k < w.len() ==> has_prefix(#[trigger] w[k], "skipping function '"@)
}

proof fn lemma_prefix_extend(x: Seq<char>, y: Seq<char>, p: Seq<char>)
    requires
        has_prefix(x, p),
    ensures
        has_prefix(x + y, p),
{
    assert((x + y).take(p.len() as int) =~= x.take(p.len() as int));
}

proof fn lemma_warning_texts(name: Seq<char>, ty: Seq<char>)
    ensures
        has_prefix(warn_param(name, ty), "skipping function '"@),
        has_prefix(warn_ok_type(name, ty), "skipping function '"@),
        has_prefix(warn_return(name, ty), "skipping function '"@),
{
    let p = "skipping function '"@;
    assert(has_prefix(p, p)) by {
        assert(p.take(p.len() as int) =~= p);
    }
    lemma_prefix_extend(p, name, p);
    lemma_prefix_extend(p + name, "': unsupported type '"@, p);
    lemma_prefix_extend(p + name + "': unsupported type '"@, ty, p);
    lemma_prefix_extend(p + name + "': unsupported type '"@ + ty, "'"@, p);
    lemma_prefix_extend(p + name, "': unsupported Ok type in '"@, p);
    lemma_prefix_extend(p + name + "': unsupported Ok type in '"@, ty, p);
    lemma_prefix_extend(p + name + "': unsupported Ok type in '"@ + ty, "'"@, p);
    lemma_prefix_extend(p + name, "': unsupported return type '"@, p);
    lemma_prefix_extend(p + name + "': unsupported return type '"@, ty, p);
    lemma_prefix_extend(p + name + "': unsupported return type '"@ + ty, "'"@, p);
}

proof fn lemma_finish_keeps(cs: Seq<char>, st: ScanState, i: int, sig: Option<SigM>, warn: Option<Seq<char>>)
    requires
        warnings_name_functions(st.warns),
        warn matches Some(w) ==> has_prefix(w, "skipping function '"@),
    ensures
        warnings_name_functions(finish_fn(cs, st, i, sig, warn).warns),
{
    let n = finish_fn(cs, st, i, sig, warn);
    assert forall|k: int| 0 <= k < n.warns.len() implies has_prefix(#[trigger] n.warns[k], "skipping function '"@) by {
        if k < st.warns.len() {
            assert(n.warns[k] == st.warns[k]);
        }
    }
}

proof fn lemma_pub_step_keeps(cs: Seq<char>, st: ScanState)
    requires
        warnings_name_functions(st.warns),
    ensures
        warnings_name_functions(pub_step(cs, st).warns),
{
    let pub_start = st.i;
    let i1 = skip_ws(cs, pub_start + 3);
    if i1 < cs.len() && cs[i1] == '(' {
    } else if spec_starts_with_word(cs, i1, "fn"@) {
        let before = spec_word_before(cs, pub_start);
        if !(before == "async"@ || before == "unsafe"@ || before == "const"@ || st.cfg) {
            let i2 = skip_ws(cs, i1 + 2);
            let i3 = skip_ident(cs, i2);
            let name = cs.subrange(i2, i3);
            let i4 = skip_ws(cs, i3);
            if !(i4 >= cs.len() || cs[i4] != '(') {
                let p = spec_parse_params(cs, i4 + 1);
                match p.unsupported {
                    Some(ut) => {
                        lemma_warning_texts(name, ut);
                        lemma_finish_keeps(cs, st, p.i, None, Some(warn_param(name, ut)));
                    },
                    None => {
                        let i5 = skip_ws(cs, p.i);
                        if i5 + 1 < cs.len() && cs[i5] == '-' && cs[i5 + 1] == '>' {
                            let i6 = skip_ws(cs, i5 + 2);
                            let i7 = find_char(cs, i6, '{');
                            let t = spec_trim(cs.subrange(i6, i7));
                            lemma_warning_texts(name, t);
                            if has_prefix(t, "Result<"@) {
                                match spec_parse_result_type(t) {
                                    Some((rt, f)) => lemma_finish_keeps(cs, st, i7,
                                        Some(SigM { name, params: p.params, return_type: rt, is_fallible: f }), None),
                                    None => lemma_finish_keeps(cs, st, i7, None, Some(warn_ok_type(name, t))),
                                }
                            } else if t == "()"@ {
                                lemma_finish_keeps(cs, st, i7, Some(SigM { name, params: p.params, return_type: None, is_fallible: false }), None);
                            } else {
                                match spec_parse_rust_type(t) {
                                    Some(rt) => lemma_finish_keeps(cs, st, i7,
                                        Some(SigM { name, params: p.params, return_type: Some(rt), is_fallible: false }), None),
                                    None => lemma_finish_keeps(cs, st, i7, None, Some(warn_return(name, t))),
                                }
                            }
                        } else {
                            lemma_finish_keeps(cs, st, i5, Some(SigM { name, params: p.params, return_type: None, is_fallible: false }), None);
                        }
                    },
                }
            }
        }
    }
}

proof fn lemma_scan_from_keeps(cs: Seq<char>, st: ScanState)
    requires
        warnings_name_functions(st.warns),
    ensures
        warnings_name_functions(scan_from(cs, st).warns),
    decreases cs.len() + 4 - st.i,
{
    if 0 <= st.i < cs.len() {
        let i = st.i;
        let len = cs.len() as int;
        if !(i + 1 < len && cs[i] == '/' && cs[i + 1] == '/') && !(i + 1 < len && cs[i] == '/' && cs[i + 1] == '*')
            && cs[i] != '"' && !(cs[i] == 'r' && i + 1 < len && (cs[i + 1] == '"' || cs[i + 1] == '#'))
            && !(cs[i] == '\'' && i + 1 < len && cs[i + 1] != '\'') && cs[i] != '{' && cs[i] != '}'
            && !(st.depth == 0 && cs[i] == '#' && i + 1 < len && cs[i + 1] == '[')
            && st.depth == 0 && spec_starts_with_word(cs, i, "pub"@) {
            lemma_pub_step_keeps(cs, st);
        }
        let next = scan_step(cs, st);
        if st.i < next.i <= cs.len() + 3 {
            lemma_scan_from_keeps(cs, next);
        }
    }
}

/// Every warning of the scan is about a skipped function: it begins
/// `skipping function '`.
pub proof fn lemma_warnings_name_skipped_functions(source: Seq<char>)
    ensures
        warnings_name_functions(spec_scan(source).warns),
{
    lemma_scan_from_keeps(source, ScanState { i: 0, depth: 0, cfg: false, sigs: Seq::empty(), warns: Seq::empty() });
}


proof fn lemma_scan_from_no_pub(cs: Seq<char>, st: ScanState)
    requires
        forall|p: int| !spec_starts_with_word(cs, p, "pub"@),
    ensures
        scan_from(cs, st).sigs == st.sigs,
        scan_from(cs, st).warns == st.warns,
    decreases cs.len() + 4 - st.i,
{
    if 0 <= st.i < cs.len() {
        let next = scan_step(cs, st);
        assert(!spec_starts_with_word(cs, st.i, "pub"@));
        assert(next.sigs == st.sigs && next.warns == st.warns);
        if st.i < next.i <= cs.len() + 3 {
            lemma_scan_from_no_pub(cs, next);
        }
    }
}

/// A signature or a warning comes only from a `pub` item: a source in which
/// the word `pub` stands nowhere yields neither.
pub proof fn lemma_no_pub_no_signatures(source: Seq<char>)
    requires
        forall|p: int| !spec_starts_with_word(source, p, "pub"@),
    ensures
        spec_scan(source).sigs.len() == 0,
        spec_scan(source).warns.len() == 0,
{
    lemma_scan_from_no_pub(source, ScanState { i: 0, depth: 0, cfg: false, sigs: Seq::empty(), warns: Seq::empty() });
}

} // verus!
