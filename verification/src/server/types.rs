//! Result types, options and data structures of the compiler service API.

use vstd::prelude::*;
use vstd::utf8::is_char_boundary;
use vstd::utf8::is_continuation_byte;
use vstd::string::StringSliceAdditionalSpecFns;
use std::path::PathBuf;
use std::time::SystemTime;
use uuid::Uuid;
use crate::span::Span;
use crate::diagnostics::CompileError;
use crate::diagnostics::CompileWarning;

verus! {

/// Declares std's `PathBuf` so that paths can stand in fields; its contents
/// are opaque here and only carried through.
#[verifier::external_type_specification]
#[verifier::external_body]
pub struct ExPathBuf(std::path::PathBuf);

/// Declares std's `SystemTime` so that load times can stand in fields; its
/// contents are opaque here and only carried through.
#[verifier::external_type_specification]
#[verifier::external_body]
pub struct ExSystemTime(std::time::SystemTime);

/// Declares `uuid::Uuid` so that declaration ids can stand in fields; its
/// contents are opaque here and only carried through.
#[verifier::external_type_specification]
#[verifier::external_body]
pub struct ExUuid(uuid::Uuid);

// ========== Options Structs ==========

/// Options for loading modules.
#[derive(Debug)]
pub struct LoadOptions {
    pub stdlib: Option<PathBuf>,
}

impl Default for LoadOptions {
    fn default() -> (o: Self)
        ensures
            o.stdlib is None,
    {
        LoadOptions { stdlib: None }
    }
}

/// Options for compilation operations.
#[derive(Debug)]
pub struct CompileOptions {
    pub stdlib: Option<PathBuf>,
    pub gc: bool,
    pub coverage: bool,
}

impl Default for CompileOptions {
    fn default() -> (o: Self)
        ensures
            o.stdlib is None,
            !o.gc,
            !o.coverage,
    {
        CompileOptions { stdlib: None, gc: false, coverage: false }
    }
}

/// Options for running programs.
#[derive(Debug)]
pub struct RunOptions {
    pub stdlib: Option<PathBuf>,
    pub timeout_ms: Option<u64>,
    pub cwd: Option<PathBuf>,
}

impl Default for RunOptions {
    fn default() -> (o: Self)
        ensures
            o.stdlib is None,
            o.timeout_ms is None,
            o.cwd is None,
    {
        RunOptions { stdlib: None, timeout_ms: None, cwd: None }
    }
}

/// Options for test execution.
#[derive(Debug)]
pub struct TestOptions {
    pub stdlib: Option<PathBuf>,
    pub timeout_ms: Option<u64>,
    pub cwd: Option<PathBuf>,
}

impl Default for TestOptions {
    fn default() -> (o: Self)
        ensures
            o.stdlib is None,
            o.timeout_ms is None,
            o.cwd is None,
    {
        TestOptions { stdlib: None, timeout_ms: None, cwd: None }
    }
}

/// Options for call graph generation.
#[derive(Debug, Clone)]
pub struct CallGraphOptions {
    pub direction: CallGraphDirection,
    pub max_depth: usize,
}

impl Default for CallGraphOptions {
    fn default() -> (o: Self)
        ensures
            o.direction == CallGraphDirection::Callees,
            o.max_depth == 5,
    {
        CallGraphOptions { direction: CallGraphDirection::Callees, max_depth: 5 }
    }
}

#[derive(Debug, Clone, Copy, PartialEq, Eq, Structural)]
pub enum CallGraphDirection {
    Callers,
    Callees,
}

// ========== Result Types ==========

/// Result of type-checking a file.
#[derive(Debug)]
pub struct CheckResult {
    pub success: bool,
    pub path: PathBuf,
    pub errors: Vec<Diagnostic>,
    pub warnings: Vec<Diagnostic>,
}

/// Result of compiling a file.
#[derive(Debug)]
pub struct CompileResult {
    pub success: bool,
    pub path: PathBuf,
    pub output: Option<PathBuf>,
    pub errors: Vec<Diagnostic>,
    pub warnings: Vec<Diagnostic>,
}

/// Result of running a program.
#[derive(Debug)]
pub struct RunResult {
    pub success: bool,
    pub path: PathBuf,
    pub stdout: String,
    pub stderr: String,
    pub exit_code: Option<i32>,
    pub timed_out: bool,
    pub compile_errors: Vec<Diagnostic>,
}

/// Result of running tests.
#[derive(Debug)]
pub struct TestResult {
    pub success: bool,
    pub path: PathBuf,
    pub stdout: String,
    pub stderr: String,
    pub exit_code: Option<i32>,
    pub timed_out: bool,
    pub compile_errors: Vec<Diagnostic>,
}

/// Diagnostic message (error or warning).
#[derive(Debug, Clone)]
pub struct Diagnostic {
    pub message: String,
    pub span: Option<DiagnosticSpan>,
    pub severity: DiagnosticSeverity,
}

#[derive(Debug, Clone, Copy, PartialEq, Eq, Structural)]
pub struct DiagnosticSpan {
    pub start: usize,
    pub end: usize,
    pub line: Option<usize>,
    pub column: Option<usize>,
}

#[derive(Debug, Clone, Copy, PartialEq, Eq, Structural)]
pub enum DiagnosticSeverity {
    Error,
    Warning,
}

// ========== Line and column of a byte offset ==========

/// The number of newline bytes in `b`.
pub open spec fn count_newlines(b: Seq<u8>) -> nat
    decreases b.len(),
{
    if b.len() == 0 {
        0
    } else {
        count_newlines(b.drop_last()) + if b.last() == 10u8 { 1nat } else { 0nat }
    }
}

/// The offset just after the last newline byte in `b`, or 0 when there is none.
pub open spec fn line_start(b: Seq<u8>) -> int
    decreases b.len(),
{
    if b.len() == 0 {
        0
    } else if b.last() == 10u8 {
        b.len() as int
    } else {
        line_start(b.drop_last())
    }
}

/// The number of characters that the UTF-8 bytes `b` encode: the bytes that do
/// not continue a multi-byte character.
pub open spec fn count_chars(b: Seq<u8>) -> nat
    decreases b.len(),
{
    if b.len() == 0 {
        0
    } else {
        count_chars(b.drop_last()) + if is_continuation_byte(b.last()) { 0nat } else { 1nat }
    }
}

/// The 1-based line of byte offset `start` in `b`.
pub open spec fn line_of(b: Seq<u8>, start: int) -> int {
    count_newlines(b.take(start)) + 1int
}

/// The 1-based column, counted in characters, of byte offset `start` in `b`.
pub open spec fn column_of(b: Seq<u8>, start: int) -> int {
    count_chars(b.subrange(line_start(b.take(start)), start)) + 1int
}

proof fn lemma_line_start_bounds(b: Seq<u8>)
    ensures
        0 <= line_start(b) <= b.len(),
    decreases b.len(),
{
    if b.len() > 0 {
        lemma_line_start_bounds(b.drop_last());
    }
}

proof fn lemma_counts_bounded(b: Seq<u8>)
    ensures
        count_newlines(b) <= b.len(),
        count_chars(b) <= b.len(),
    decreases b.len(),
{
    if b.len() > 0 {
        lemma_counts_bounded(b.drop_last());
    }
}

/// Line and column of byte offset `start` of `bytes`.
fn line_and_column(bytes: &[u8], start: usize) -> (lc: (usize, usize))
    requires
        start <= bytes@.len() < usize::MAX,
    ensures
        lc.0 == line_of(bytes@, start as int),
        lc.1 == column_of(bytes@, start as int),
{
    let mut newlines: usize = 0;
    let mut col_start: usize = 0;
    let mut i: usize = 0;
    while i < start
        invariant
            i <= start <= bytes@.len() < usize::MAX,
            newlines == count_newlines(bytes@.take(i as int)),
            col_start == line_start(bytes@.take(i as int)),
            newlines <= i,
        decreases start - i,
    {
        proof {
            assert(bytes@.take(i + 1).drop_last() =~= bytes@.take(i as int));
        }
        if bytes[i] == 10u8 {
            newlines += 1;
            col_start = i + 1;
        }
        i += 1;
    }
    proof {
        lemma_line_start_bounds(bytes@.take(start as int));
    }
    let mut chars: usize = 0;
    let mut j: usize = col_start;
    while j < start
        invariant
            col_start <= j <= start <= bytes@.len() < usize::MAX,
            chars == count_chars(bytes@.subrange(col_start as int, j as int)),
            chars <= j - col_start,
        decreases start - j,
    {
        proof {
            assert(bytes@.subrange(col_start as int, j + 1).drop_last() =~= bytes@.subrange(col_start as int, j as int));
        }
        let b = bytes[j];
        if !(0x80u8 <= b && b <= 0xbfu8) {
            chars += 1;
        }
        j += 1;
    }
    (newlines + 1, chars + 1)
}

impl DiagnosticSpan {
    /// The span's offsets, with line and column computed from `source` when it is given.
    pub fn from_span(span: Span, source: Option<&str>) -> (d: Self)
        requires
            source matches Some(src) ==> span.start <= src.spec_bytes().len() < usize::MAX
                && is_char_boundary(src.spec_bytes(), span.start as int),
        ensures
            d.start == span.start,
            d.end == span.end,
            match source {
                Some(src) => d.line == Some(line_of(src.spec_bytes(), span.start as int) as usize)
                    && d.column == Some(column_of(src.spec_bytes(), span.start as int) as usize),
                None => d.line is None && d.column is None,
            },
    {
        let (line, column) = match source {
            Some(src) => {
                let (l, c) = line_and_column(src.as_bytes(), span.start);
                (Some(l), Some(c))
            },
            None => (None, None),
        };
        DiagnosticSpan { start: span.start, end: span.end, line, column }
    }

    /// A span from byte offsets; line and column are those of `start`, clamped to the source length.
    pub fn from_offset(start: usize, end: usize, source: &str) -> (d: Self)
        requires
            source.spec_bytes().len() < usize::MAX,
            is_char_boundary(source.spec_bytes(),
                if start <= source.spec_bytes().len() { start as int } else { source.spec_bytes().len() as int }),
        ensures
            ({
                let b = source.spec_bytes();
                let s = if start <= b.len() { start as int } else { b.len() as int };
                &&& d.start == start
                &&& d.end == end
                &&& d.line == Some(line_of(b, s) as usize)
                &&& d.column == Some(column_of(b, s) as usize)
            }),
    {
        let bytes = source.as_bytes();
        let s = if start <= bytes.len() { start } else { bytes.len() };
        let (line, column) = line_and_column(bytes, s);
        DiagnosticSpan { start, end, line: Some(line), column: Some(column) }
    }
}

/// The message a compile error carries.
pub open spec fn error_message(err: &CompileError) -> Seq<char>
    decreases err,
{
    match err {
        CompileError::Syntax { msg, .. } => msg@,
        CompileError::Type { msg, .. } => msg@,
        CompileError::Codegen { msg } => msg@,
        CompileError::Link { msg } => msg@,
        CompileError::Manifest { msg, .. } => msg@,
        CompileError::SiblingFile { source, .. } => error_message(source),
        CompileError::Toolchain(msg) => msg@,
        CompileError::VersionNotFound(msg) => msg@,
        CompileError::Network(msg) => msg@,
    }
}

/// The source span a compile error points at, if any; for an error in a sibling
/// file, the span of the underlying error (in that file).
pub open spec fn error_span(err: &CompileError) -> Option<Span>
    decreases err,
{
    match err {
        CompileError::Syntax { span, .. } => Some(*span),
        CompileError::Type { span, .. } => Some(*span),
        CompileError::SiblingFile { source, .. } => error_span(source),
        _ => None,
    }
}

impl Diagnostic {
    pub fn from_compile_error(err: &CompileError, source: Option<&str>) -> (d: Self)
        requires
            !(err is SiblingFile) ==> (source matches Some(src) ==> (error_span(err) matches Some(sp) ==>
                sp.start <= src.spec_bytes().len() < usize::MAX && is_char_boundary(src.spec_bytes(), sp.start as int))),
        ensures
            d.message@ == error_message(err),
            d.severity == DiagnosticSeverity::Error,
            match error_span(err) {
                Some(sp) => d.span matches Some(ds) && ds.start == sp.start && ds.end == sp.end && match source {
                    Some(src) if !(err is SiblingFile) => ds.line == Some(line_of(src.spec_bytes(), sp.start as int) as usize)
                        && ds.column == Some(column_of(src.spec_bytes(), sp.start as int) as usize),
                    _ => ds.line is None && ds.column is None,
                },
                None => d.span is None,
            },
        decreases err,
    {
        let (message, span) = match err {
            CompileError::Syntax { msg, span } => (msg.clone(), Some(*span)),
            CompileError::Type { msg, span } => (msg.clone(), Some(*span)),
            CompileError::Codegen { msg } => (msg.clone(), None),
            CompileError::Link { msg } => (msg.clone(), None),
            CompileError::Manifest { msg, .. } => (msg.clone(), None),
            CompileError::SiblingFile { source, .. } => {
                return Self::from_compile_error(source, None);
            },
            CompileError::Toolchain(msg) => (msg.clone(), None),
            CompileError::VersionNotFound(msg) => (msg.clone(), None),
            CompileError::Network(msg) => (msg.clone(), None),
        };
        let dspan = match span {
            Some(s) => Some(DiagnosticSpan::from_span(s, source)),
            None => None,
        };
        Self { message, span: dspan, severity: DiagnosticSeverity::Error }
    }

    pub fn from_compile_warning(warning: &CompileWarning, source: Option<&str>) -> (d: Self)
        requires
            source matches Some(src) ==> warning.span.start <= src.spec_bytes().len() < usize::MAX
                && is_char_boundary(src.spec_bytes(), warning.span.start as int),
        ensures
            d.message@ == warning.msg@,
            d.severity == DiagnosticSeverity::Warning,
            d.span matches Some(ds) && ds.start == warning.span.start && ds.end == warning.span.end && match source {
                Some(src) => ds.line == Some(line_of(src.spec_bytes(), warning.span.start as int) as usize)
                    && ds.column == Some(column_of(src.spec_bytes(), warning.span.start as int) as usize),
                None => ds.line is None && ds.column is None,
            },
    {
        Self {
            message: warning.msg.clone(),
            span: Some(DiagnosticSpan::from_span(warning.span, source)),
            severity: DiagnosticSeverity::Warning,
        }
    }
}

// ========== Module Types ==========

/// Summary of a loaded module.
#[derive(Debug)]
pub struct ModuleSummary {
    pub path: PathBuf,
    pub name: String,
    pub function_count: usize,
    pub class_count: usize,
    pub enum_count: usize,
    pub trait_count: usize,
    pub error_count: usize,
    pub app_count: usize,
}

/// Information about a loaded module.
#[derive(Debug)]
pub struct ModuleInfo {
    pub path: PathBuf,
    pub name: String,
    pub loaded_at: SystemTime,
}

/// Status of a module (including staleness).
#[derive(Debug)]
pub struct ModuleStatus {
    pub path: PathBuf,
    pub name: String,
    pub loaded_at: SystemTime,
    pub is_stale: bool,
}

/// Summary of a loaded project.
#[derive(Debug)]
pub struct ProjectSummary {
    pub root: PathBuf,
    pub loaded: Vec<PathBuf>,
    pub failed: Vec<(PathBuf, String)>,
}

// ========== Declaration Types ==========

/// Declaration kind filter.
#[derive(Debug, Clone, Copy, PartialEq, Eq, Structural)]
pub enum DeclKind {
    Function,
    Class,
    Enum,
    Trait,
    Error,
    App,
}

/// Summary of a declaration.
#[derive(Debug)]
pub struct DeclSummary {
    pub uuid: Uuid,
    pub name: String,
    pub kind: DeclKind,
}

/// Detailed declaration information.
#[derive(Debug)]
pub enum DeclDetail {
    Function(FunctionDetail),
    Class(ClassDetail),
    Enum(EnumDetail),
    Trait(TraitDetail),
    Error(ErrorDetail),
    App(AppDetail),
}

#[derive(Debug)]
pub struct FunctionDetail {
    pub uuid: Uuid,
    pub name: String,
    pub params: Vec<ParamInfo>,
    pub return_type: String,
    pub is_fallible: bool,
    pub error_set: Vec<String>,
    pub source: String,
}

#[derive(Debug, Clone)]
pub struct ParamInfo {
    pub name: String,
    pub type_text: String,
}

#[derive(Debug)]
pub struct ClassDetail {
    pub uuid: Uuid,
    pub name: String,
    pub fields: Vec<FieldInfo>,
    pub methods: Vec<MethodInfo>,
    pub source: String,
}

#[derive(Debug, Clone)]
pub struct FieldInfo {
    pub name: String,
    pub type_text: String,
}

#[derive(Debug)]
pub struct MethodInfo {
    pub uuid: Uuid,
    pub name: String,
    pub params: Vec<ParamInfo>,
    pub return_type: String,
}

#[derive(Debug)]
pub struct EnumDetail {
    pub uuid: Uuid,
    pub name: String,
    pub variants: Vec<VariantInfo>,
    pub source: String,
}

#[derive(Debug, Clone)]
pub struct VariantInfo {
    pub name: String,
    pub fields: Vec<FieldInfo>,
}

#[derive(Debug)]
pub struct TraitDetail {
    pub uuid: Uuid,
    pub name: String,
    pub methods: Vec<MethodSignature>,
    pub source: String,
}

#[derive(Debug, Clone)]
pub struct MethodSignature {
    pub name: String,
    pub params: Vec<ParamInfo>,
    pub return_type: String,
}

#[derive(Debug)]
pub struct ErrorDetail {
    pub uuid: Uuid,
    pub name: String,
    pub source: String,
}

#[derive(Debug)]
pub struct AppDetail {
    pub uuid: Uuid,
    pub name: String,
    pub deps: Vec<FieldInfo>,
    pub methods: Vec<MethodInfo>,
    pub source: String,
}

/// Match result when finding declarations by name.
#[derive(Debug)]
pub struct DeclMatch {
    pub uuid: Uuid,
    pub name: String,
    pub kind: DeclKind,
    pub module_file: PathBuf,
}

// ========== Cross-Reference Types ==========

/// Cross-reference site (call site, usage, etc.).
#[derive(Debug)]
pub struct XrefSite {
    pub module_file: PathBuf,
    pub span: DiagnosticSpan,
    pub context: Option<String>,
}

/// Call graph result.
#[derive(Debug)]
pub struct CallGraphResult {
    pub root: CallGraphNode,
}

#[derive(Debug)]
pub struct CallGraphNode {
    pub uuid: Uuid,
    pub name: String,
    pub module_file: PathBuf,
    pub children: Vec<CallGraphNode>,
    pub is_cycle: bool,
}

/// Error set information for a function.
#[derive(Debug, Clone)]
pub struct ErrorSetInfo {
    pub is_fallible: bool,
    pub errors: Vec<String>,
}

// ========== Editing Types ==========

/// Result of an edit operation (add, replace, rename).
#[derive(Debug)]
pub struct EditResult {
    pub uuid: Uuid,
    pub name: String,
    pub kind: DeclKind,
}

/// Result of a delete operation.
#[derive(Debug)]
pub struct DeleteResult {
    pub name: String,
    pub deleted_source: String,
    pub dangling_references: Vec<XrefSite>,
}

/// Result of a sync operation.
#[derive(Debug)]
pub struct SyncResult {
    pub pluto_path: PathBuf,
    pub preserved_uuids: usize,
    pub new_declarations: usize,
}

// ========== Utility Types ==========

/// Byte range for source access.
#[derive(Debug, Clone, Copy)]
pub struct ByteRange {
    pub start: usize,
    pub end: usize,
}

} // verus!
