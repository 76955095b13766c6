use pluto::rust_ffi::parser::parse_rust_source;
use pluto::rust_ffi::parser::RustType;

#[test]
fn simple_add() {
    let source = "pub fn add(a: i64, b: i64) -> i64 { a + b }";
    let (sigs, warns) = parse_rust_source(source);
    assert!(warns.is_empty());
    assert_eq!(sigs.len(), 1);
    assert_eq!(sigs[0].name, "add");
    assert_eq!(sigs[0].params.len(), 2);
    assert_eq!(sigs[0].params[0], ("a".to_string(), RustType::I64));
    assert_eq!(sigs[0].params[1], ("b".to_string(), RustType::I64));
    assert_eq!(sigs[0].return_type, Some(RustType::I64));
}

#[test]
fn no_return_type() {
    let source = "pub fn noop() { }";
    let (sigs, warns) = parse_rust_source(source);
    assert!(warns.is_empty());
    assert_eq!(sigs.len(), 1);
    assert_eq!(sigs[0].name, "noop");
    assert!(sigs[0].params.is_empty());
    assert_eq!(sigs[0].return_type, None);
}

#[test]
fn bool_params_and_return() {
    let source = "pub fn is_even(n: i64) -> bool { n % 2 == 0 }";
    let (sigs, warns) = parse_rust_source(source);
    assert!(warns.is_empty());
    assert_eq!(sigs.len(), 1);
    assert_eq!(sigs[0].return_type, Some(RustType::Bool));
}

#[test]
fn float_types() {
    let source = "pub fn add_f(a: f64, b: f64) -> f64 { a + b }";
    let (sigs, warns) = parse_rust_source(source);
    assert!(warns.is_empty());
    assert_eq!(sigs.len(), 1);
    assert_eq!(sigs[0].params[0].1, RustType::F64);
    assert_eq!(sigs[0].return_type, Some(RustType::F64));
}

#[test]
fn multiline_signature() {
    let source = r#"
pub fn multi(
    a: i64,
    b: f64,
) -> bool {
    true
}
"#;
    let (sigs, warns) = parse_rust_source(source);
    assert!(warns.is_empty());
    assert_eq!(sigs.len(), 1);
    assert_eq!(sigs[0].name, "multi");
    assert_eq!(sigs[0].params.len(), 2);
}

#[test]
fn skip_private_fn() {
    let source = "fn private(a: i64) -> i64 { a }";
    let (sigs, _) = parse_rust_source(source);
    assert!(sigs.is_empty());
}

#[test]
fn skip_pub_crate_fn() {
    let source = "pub(crate) fn internal(a: i64) -> i64 { a }";
    let (sigs, _) = parse_rust_source(source);
    assert!(sigs.is_empty());
}

#[test]
fn skip_generic_fn() {
    let source = "pub fn identity<T>(x: T) -> T { x }";
    let (sigs, _) = parse_rust_source(source);
    assert!(sigs.is_empty());
}

#[test]
fn skip_async_fn() {
    let source = "async pub fn fetch() { }
pub fn sync_fn(x: i64) -> i64 { x }";
    let (sigs, _) = parse_rust_source(source);
    // sync_fn should be found, async fn should be skipped
    assert_eq!(sigs.len(), 1);
    assert_eq!(sigs[0].name, "sync_fn");
}

#[test]
fn skip_unsupported_types() {
    let source = r#"
pub fn greet(name: &str) -> String { format!("hi {name}") }
pub fn good(x: i64) -> i64 { x }
"#;
    let (sigs, warns) = parse_rust_source(source);
    assert_eq!(sigs.len(), 1);
    assert_eq!(sigs[0].name, "good");
    assert_eq!(warns.len(), 1);
    assert!(warns[0].contains("greet"));
}

#[test]
fn skip_methods_inside_impl() {
    let source = r#"
impl Foo {
    pub fn bar(self, x: i64) -> i64 { x }
}
pub fn free_fn(x: i64) -> i64 { x }
"#;
    let (sigs, _warns) = parse_rust_source(source);
    assert_eq!(sigs.len(), 1);
    assert_eq!(sigs[0].name, "free_fn");
}

#[test]
fn skip_cfg_gated_fn() {
    let source = r#"
#[cfg(feature = "nope")]
pub fn cfg_gated(x: i64) -> i64 { x }

pub fn normal(x: i64) -> i64 { x }
"#;
    let (sigs, _) = parse_rust_source(source);
    assert_eq!(sigs.len(), 1);
    assert_eq!(sigs[0].name, "normal");
}

#[test]
fn non_cfg_attr_not_skipped() {
    let source = r#"
#[inline]
pub fn inlined(x: i64) -> i64 { x }
"#;
    let (sigs, _) = parse_rust_source(source);
    assert_eq!(sigs.len(), 1);
    assert_eq!(sigs[0].name, "inlined");
}

#[test]
fn multiple_functions() {
    let source = r#"
pub fn add(a: i64, b: i64) -> i64 { a + b }
pub fn mul(a: f64, b: f64) -> f64 { a * b }
pub fn negate(x: f64) -> f64 { -x }
pub fn is_positive(x: i64) -> bool { x > 0 }
pub fn bad(data: Vec<u8>) -> Vec<u8> { data }
"#;
    let (sigs, warns) = parse_rust_source(source);
    assert_eq!(sigs.len(), 4);
    assert_eq!(warns.len(), 1);
    assert!(warns[0].contains("bad"));
}

#[test]
fn void_return_explicit() {
    let source = "pub fn do_thing() -> () { }";
    let (sigs, warns) = parse_rust_source(source);
    assert!(warns.is_empty());
    assert_eq!(sigs.len(), 1);
    assert_eq!(sigs[0].return_type, None); // () maps to void
}

#[test]
fn handles_comments() {
    let source = r#"
// This is a comment
pub fn add(a: i64, b: i64) -> i64 {
    // inner comment
    a + b
}
/* block comment
pub fn hidden(x: i64) -> i64 { x }
*/
pub fn visible(x: i64) -> i64 { x }
"#;
    let (sigs, _) = parse_rust_source(source);
    assert_eq!(sigs.len(), 2);
    assert_eq!(sigs[0].name, "add");
    assert_eq!(sigs[1].name, "visible");
}

#[test]
fn handles_string_with_braces() {
    let source = r#"
pub fn stringy() -> i64 {
    let s = "{ } { }";
    42
}
"#;
    let (sigs, _) = parse_rust_source(source);
    assert_eq!(sigs.len(), 1);
    assert_eq!(sigs[0].name, "stringy");
}

// ── Result<T, E> tests ──────────────────────────────────────

#[test]
fn result_i64() {
    let source = r#"pub fn checked(x: i64) -> Result<i64, String> { Ok(x) }"#;
    let (sigs, warns) = parse_rust_source(source);
    assert!(warns.is_empty());
    assert_eq!(sigs.len(), 1);
    assert_eq!(sigs[0].name, "checked");
    assert_eq!(sigs[0].return_type, Some(RustType::I64));
    assert!(sigs[0].is_fallible);
}

#[test]
fn result_f64() {
    let source = r#"pub fn divide(a: f64, b: f64) -> Result<f64, Box<dyn Error>> { Ok(a / b) }"#;
    let (sigs, warns) = parse_rust_source(source);
    assert!(warns.is_empty());
    assert_eq!(sigs.len(), 1);
    assert_eq!(sigs[0].return_type, Some(RustType::F64));
    assert!(sigs[0].is_fallible);
}

#[test]
fn result_bool() {
    let source = r#"pub fn validate(x: i64) -> Result<bool, MyError> { Ok(true) }"#;
    let (sigs, warns) = parse_rust_source(source);
    assert!(warns.is_empty());
    assert_eq!(sigs.len(), 1);
    assert_eq!(sigs[0].return_type, Some(RustType::Bool));
    assert!(sigs[0].is_fallible);
}

#[test]
fn result_void() {
    let source = r#"pub fn check(x: i64) -> Result<(), String> { Ok(()) }"#;
    let (sigs, warns) = parse_rust_source(source);
    assert!(warns.is_empty());
    assert_eq!(sigs.len(), 1);
    assert_eq!(sigs[0].return_type, None);
    assert!(sigs[0].is_fallible);
}

#[test]
fn result_unsupported_ok() {
    let source = r#"pub fn bad(x: i64) -> Result<Vec<i64>, String> { Ok(vec![x]) }"#;
    let (sigs, warns) = parse_rust_source(source);
    assert_eq!(sigs.len(), 0);
    assert_eq!(warns.len(), 1);
    assert!(warns[0].contains("unsupported Ok type"));
}

#[test]
fn result_nested_generics() {
    let source = r#"pub fn checked(x: i64) -> Result<i64, Box<dyn std::error::Error>> { Ok(x) }"#;
    let (sigs, warns) = parse_rust_source(source);
    assert!(warns.is_empty());
    assert_eq!(sigs.len(), 1);
    assert_eq!(sigs[0].return_type, Some(RustType::I64));
    assert!(sigs[0].is_fallible);
}

#[test]
fn plain_types_not_fallible() {
    let source = "pub fn add(a: i64, b: i64) -> i64 { a + b }";
    let (sigs, _) = parse_rust_source(source);
    assert_eq!(sigs.len(), 1);
    assert!(!sigs[0].is_fallible);
}

#[test]
fn void_fn_not_fallible() {
    let source = "pub fn noop() { }";
    let (sigs, _) = parse_rust_source(source);
    assert_eq!(sigs.len(), 1);
    assert!(!sigs[0].is_fallible);
}
