use pluto::server::types::Diagnostic;
use pluto::server::types::DiagnosticSpan;
use pluto::server::types::DiagnosticSeverity;
use pluto::diagnostics::CompileError;
use pluto::diagnostics::CompileWarning;
use pluto::span::Span;

#[test]
fn line_and_column_of_offsets() {
    let src = "ab\ncd\nxyz";
    let d = DiagnosticSpan::from_span(Span::new(6, 9), Some(src));
    assert_eq!((d.start, d.end, d.line, d.column), (6, 9, Some(3), Some(1)));
    let d = DiagnosticSpan::from_span(Span::new(4, 5), Some(src));
    assert_eq!((d.line, d.column), (Some(2), Some(2)));
    let d = DiagnosticSpan::from_span(Span::new(0, 1), None);
    assert_eq!((d.line, d.column), (None, None));
}

#[test]
fn columns_count_characters() {
    let src = "é\nxé";
    let d = DiagnosticSpan::from_offset(6, 6, src);
    assert_eq!((d.line, d.column), (Some(2), Some(3)));
    let d = DiagnosticSpan::from_offset(100, 120, src);
    assert_eq!((d.start, d.end, d.line, d.column), (100, 120, Some(2), Some(3)));
}

#[test]
fn diagnostic_from_errors() {
    let err = CompileError::syntax("bad token".to_string(), Span::new(4, 5));
    let d = Diagnostic::from_compile_error(&err, Some("ab\ncd"));
    assert_eq!(d.message, "bad token");
    assert_eq!(d.severity, DiagnosticSeverity::Error);
    let s = d.span.unwrap();
    assert_eq!((s.start, s.end, s.line, s.column), (4, 5, Some(2), Some(2)));

    let d = Diagnostic::from_compile_error(&CompileError::codegen("no lib".to_string()), Some("x"));
    assert_eq!(d.message, "no lib");
    assert!(d.span.is_none());

    let nested = CompileError::SiblingFile { path: "b.pluto".to_string(), source: Box::new(err) };
    let d = Diagnostic::from_compile_error(&nested, Some("ab\ncd"));
    assert_eq!(d.message, "bad token");
    let s = d.span.unwrap();
    assert_eq!((s.start, s.line, s.column), (4, None, None));
}

#[test]
fn diagnostic_from_warning() {
    let w = CompileWarning { msg: "unused".to_string(), span: Span::new(3, 4) };
    let d = Diagnostic::from_compile_warning(&w, Some("ab\ncd"));
    assert_eq!(d.message, "unused");
    assert_eq!(d.severity, DiagnosticSeverity::Warning);
    let s = d.span.unwrap();
    assert_eq!((s.line, s.column), (Some(2), Some(1)));
}
