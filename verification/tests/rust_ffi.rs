use pluto::rust_ffi::parser::parse_rust_source;
use pluto::rust_ffi::parser::parse_rust_type;
use pluto::rust_ffi::parser::parse_result_type;
use pluto::rust_ffi::parser::starts_with_word;
use pluto::rust_ffi::parser::get_word_before;
use pluto::rust_ffi::parser::RustType;
use pluto::rust_ffi::parser::RustFnSig;
use pluto::rust_ffi::metadata::extract_json_string;
use pluto::rust_ffi::metadata::find_matching_package;
use pluto::rust_ffi::metadata::parse_cargo_metadata_json;
use pluto::rust_ffi::glue::CrateInfo;
use pluto::rust_ffi::glue::glue_cargo_toml;
use pluto::rust_ffi::glue::glue_lib_rs;
use pluto::rust_ffi::parse_native_static_libs;
use pluto::rust_ffi::strip_ansi;
use pluto::rust_ffi::simple_hash;
use pluto::rust_ffi::check_extern_rust_aliases;
use pluto::rust_ffi::check_lib_names;
use pluto::rust_ffi::bridge_functions;
use pluto::rust_ffi::inject_extern_fns;
use pluto::rust_ffi::RustCrateArtifact;
use pluto::rust_ffi::rust_type_to_pluto;
use pluto::rust_ffi::rust_type_to_c_type;
use pluto::rust_ffi::pluto_type_to_type_expr;
use pluto::parser::ast::ExternRustDecl;
use pluto::parser::ast::TypeExpr;
use pluto::typeck::types::PlutoType;
use pluto::diagnostics::CompileError;
use pluto::span::Span;
use pluto::span::Spanned;

fn chars(s: &str) -> Vec<char> {
    s.chars().collect()
}

// ── Types ───────────────────────────────────────────────────────────

#[test]
fn rust_type_words() {
    assert_eq!(parse_rust_type("  i64 "), Some(RustType::I64));
    assert_eq!(parse_rust_type("f64"), Some(RustType::F64));
    assert_eq!(parse_rust_type("\tbool\n"), Some(RustType::Bool));
    assert_eq!(parse_rust_type("()"), None);
    assert_eq!(parse_rust_type("String"), None);
    assert_eq!(parse_rust_type(""), None);
}

#[test]
fn result_types() {
    assert_eq!(parse_result_type("Result<i64, String>"), Some((Some(RustType::I64), true)));
    assert_eq!(parse_result_type(" Result<(), E> "), Some((None, true)));
    assert_eq!(parse_result_type("Result<bool, Box<dyn Error>>"), Some((Some(RustType::Bool), true)));
    assert_eq!(parse_result_type("Result<Vec<i64>, String>"), None);
    assert_eq!(parse_result_type("Result<i64>"), None);
    assert_eq!(parse_result_type("i64"), None);
}

#[test]
fn words_in_source() {
    let cs = chars("pub fn public pub");
    assert!(starts_with_word(&cs, 0, "pub"));
    assert!(starts_with_word(&cs, 4, "fn"));
    assert!(!starts_with_word(&cs, 7, "pub"));
    assert!(starts_with_word(&cs, 14, "pub"));
    assert!(!starts_with_word(&cs, 15, "pub"));
    let cs = chars("async  pub fn");
    assert_eq!(get_word_before(&cs, 7), "async");
    assert_eq!(get_word_before(&cs, 0), "");
}

// ── The source scan ─────────────────────────────────────────────────

#[test]
fn nested_block_comment_hides_functions() {
    let source = "/* a /* b */ pub fn hidden() {} */\npub fn shown() {}";
    let (sigs, warns) = parse_rust_source(source);
    assert!(warns.is_empty());
    assert_eq!(sigs.len(), 1);
    assert_eq!(sigs[0].name, "shown");
}

#[test]
fn raw_string_at_top_level_is_skipped() {
    let source = "const S: &str = r#\"pub fn fake() {}\"#;\npub fn real() -> f64 { 1.0 }";
    let (sigs, _) = parse_rust_source(source);
    assert_eq!(sigs.len(), 1);
    assert_eq!(sigs[0].name, "real");
    assert_eq!(sigs[0].return_type, Some(RustType::F64));
}

#[test]
fn method_and_malformed_warnings() {
    let source = "pub fn m(&self) {}\npub fn g(x) {}\npub fn s() -> String { }";
    let (sigs, warns) = parse_rust_source(source);
    assert!(sigs.is_empty());
    assert_eq!(warns.len(), 3);
    assert_eq!(warns[0], "skipping function 'm': unsupported type 'self parameter (method)'");
    assert_eq!(warns[1], "skipping function 'g': unsupported type 'malformed parameter'");
    assert_eq!(warns[2], "skipping function 's': unsupported return type 'String'");
}

#[test]
fn unsupported_ok_warning_text() {
    let (_, warns) = parse_rust_source("pub fn bad(x: i64) -> Result<Vec<i64>, String> { Ok(vec![x]) }");
    assert_eq!(warns, vec!["skipping function 'bad': unsupported Ok type in 'Result<Vec<i64>, String>'".to_string()]);
}

#[test]
fn empty_source_has_nothing() {
    let (sigs, warns) = parse_rust_source("");
    assert!(sigs.is_empty());
    assert!(warns.is_empty());
}

// ── cargo metadata ──────────────────────────────────────────────────

const METADATA: &str = r#"{"packages":[{"name":"other","targets":[{"kind":["lib"],"name":"other","src_path":"/o/src/lib.rs"}],"manifest_path":"/o/Cargo.toml"},{"name":"mylib","targets":[{"kind":["bin"],"name":"tool","src_path":"/p/src/main.rs"},{"kind":["lib"],"name":"mylib","src_path":"/p/src/lib.rs"}],"manifest_path":"/p/Cargo.toml"}],"workspace_root":"/p"}"#;

#[test]
fn json_string_values() {
    assert_eq!(extract_json_string(r#"{"name": "foo", "x": 1}"#, "name"), Some("foo".to_string()));
    assert_eq!(extract_json_string(r#"{"name": "foo", "x": 1}"#, "x"), None);
    assert_eq!(extract_json_string(r#"{"name": "foo"}"#, "missing"), None);
    assert_eq!(extract_json_string(r#"{"p": "a\"b"}"#, "p"), Some(r#"a\"b"#.to_string()));
}

#[test]
fn matching_package_by_manifest_path() {
    let pkg = find_matching_package(&METADATA[12..], "/p/Cargo.toml").unwrap();
    assert!(pkg.starts_with('{'));
    assert!(pkg.ends_with('}'));
    assert!(pkg.contains("\"name\":\"mylib\""));
    assert_eq!(find_matching_package(&METADATA[12..], "/q/Cargo.toml"), None);
}

#[test]
fn matching_package_with_backslashes() {
    let packages = r#"[{"name":"w","manifest_path":"C:\b\Cargo.toml"}]"#;
    assert!(find_matching_package(packages, "C:/b/Cargo.toml").is_some());
}

#[test]
fn cargo_metadata_lib_target() {
    let t = parse_cargo_metadata_json(METADATA, "/p/Cargo.toml", "m").unwrap();
    assert_eq!(t.lib_name, "mylib");
    assert_eq!(t.lib_source_path, "/p/src/lib.rs");
}

fn codegen_msg(r: Result<pluto::rust_ffi::metadata::LibTarget, CompileError>) -> String {
    match r {
        Err(CompileError::Codegen { msg }) => msg,
        Err(e) => panic!("unexpected error {:?}", e),
        Ok(_) => panic!("expected an error"),
    }
}

#[test]
fn cargo_metadata_errors() {
    assert_eq!(
        codegen_msg(parse_cargo_metadata_json("{}", "/p/Cargo.toml", "m")),
        "extern rust 'm': cargo metadata output missing 'packages' field"
    );
    assert_eq!(
        codegen_msg(parse_cargo_metadata_json("{\"packages\": 3}", "/p/Cargo.toml", "m")),
        "extern rust 'm': malformed cargo metadata output"
    );
    assert_eq!(
        codegen_msg(parse_cargo_metadata_json(METADATA, "/q/Cargo.toml", "m")),
        "extern rust 'm': could not find package in cargo metadata (looking for manifest_path: /q/Cargo.toml)"
    );
    let no_targets = r#"{"packages":[{"name":"a","manifest_path":"/a/Cargo.toml"}]}"#;
    assert_eq!(
        codegen_msg(parse_cargo_metadata_json(no_targets, "/a/Cargo.toml", "a")),
        "extern rust 'a': package has no 'targets' field"
    );
    let bin_only = r#"{"packages":[{"name":"a","targets":[{"kind":["bin"],"name":"a","src_path":"/a/src/main.rs"}],"manifest_path":"/a/Cargo.toml"}]}"#;
    assert_eq!(
        codegen_msg(parse_cargo_metadata_json(bin_only, "/a/Cargo.toml", "a")),
        "extern rust 'a': no lib target found in crate"
    );
    let no_src = r#"{"packages":[{"name":"a","targets":[{"kind":["lib"],"name":"a"}],"manifest_path":"/a/Cargo.toml"}]}"#;
    assert_eq!(
        codegen_msg(parse_cargo_metadata_json(no_src, "/a/Cargo.toml", "a")),
        "extern rust 'a': lib target has no src_path"
    );
}

// ── Native libraries ────────────────────────────────────────────────

#[test]
fn native_libs_from_output() {
    let out = "   Compiling glue\nnote: native-static-libs: -lgcc_s -lutil  -lc\n    Finished";
    assert_eq!(parse_native_static_libs(out, false), vec!["-lgcc_s", "-lutil", "-lc"]);
}

#[test]
fn native_libs_with_ansi_and_crlf() {
    let out = "\x1b[0m\x1b[1mnote\x1b[0m: native-static-libs: -lm -lc\r\nmore";
    assert_eq!(parse_native_static_libs(out, true), vec!["-lm", "-lc"]);
}

#[test]
fn native_libs_defaults() {
    assert_eq!(parse_native_static_libs("nothing here", true), vec!["-lSystem", "-lc", "-lm"]);
    assert_eq!(parse_native_static_libs("", false), vec!["-lgcc_s", "-lpthread", "-lm", "-ldl", "-lc"]);
}

#[test]
fn strip_ansi_removes_escapes() {
    assert_eq!(strip_ansi("\x1b[31mred\x1b[0m plain"), "red plain");
    assert_eq!(strip_ansi("no escapes"), "no escapes");
    assert_eq!(strip_ansi("cut \x1b[1"), "cut ");
}

#[test]
fn simple_hash_values() {
    assert_eq!(simple_hash(""), 5381);
    assert_eq!(simple_hash("a"), 177670);
    assert_eq!(simple_hash("ab"), 5863208);
}

// ── Glue crate ──────────────────────────────────────────────────────

fn sig(name: &str, params: Vec<(&str, RustType)>, return_type: Option<RustType>, is_fallible: bool) -> RustFnSig {
    RustFnSig {
        name: name.to_string(),
        params: params.into_iter().map(|(n, t)| (n.to_string(), t)).collect(),
        return_type,
        is_fallible,
    }
}

#[test]
fn glue_cargo_toml_text() {
    let crates = vec![CrateInfo {
        alias: "m".to_string(),
        lib_name: "mylib".to_string(),
        manifest_dir: "C:\\x\\y".to_string(),
        functions: vec![],
    }];
    assert_eq!(
        glue_cargo_toml(&crates),
        "[package]\nname = \"pluto_ffi_glue\"\nversion = \"0.1.0\"\nedition = \"2021\"\n\n[lib]\ncrate-type = [\"staticlib\"]\n\n[dependencies]\nmylib = { path = \"C:/x/y\" }\n"
    );
}

#[test]
fn glue_lib_rs_plain_wrapper() {
    let crates = vec![CrateInfo {
        alias: "m".to_string(),
        lib_name: "mylib".to_string(),
        manifest_dir: "/p".to_string(),
        functions: vec![sig("add", vec![("a", RustType::I64), ("flag", RustType::Bool)], Some(RustType::I64), false)],
    }];
    assert_eq!(
        glue_lib_rs(&crates),
        "use std::panic::catch_unwind;\nuse std::process::abort;\n\n// --- crate: mylib, alias: m ---\n\n#[export_name = \"m.add\"]\npub extern \"C\" fn __m_add(a: i64, flag: i8) -> i64 {\n    match catch_unwind(|| mylib::add(a, flag != 0)) {\n        Ok(v) => v,\n        Err(_) => { eprintln!(\"fatal: panic in Rust FFI 'm.add'\"); abort(); }\n    }\n}\n\n"
    );
}

#[test]
fn glue_lib_rs_fallible_wrapper() {
    let crates = vec![CrateInfo {
        alias: "m".to_string(),
        lib_name: "mylib".to_string(),
        manifest_dir: "/p".to_string(),
        functions: vec![sig("checked", vec![("x", RustType::I64)], Some(RustType::I64), true)],
    }];
    assert_eq!(
        glue_lib_rs(&crates),
        "use std::panic::catch_unwind;\nuse std::process::abort;\n\nextern \"C\" {\n    fn __pluto_alloc(size: i64) -> *mut u8;\n    fn __pluto_string_new(data: *const u8, len: i64) -> *mut u8;\n    fn __pluto_raise_error(error_obj: *mut u8);\n}\n\n// --- crate: mylib, alias: m ---\n\n#[export_name = \"m.checked\"]\npub extern \"C\" fn __m_checked(x: i64) -> i64 {\n    match catch_unwind(|| mylib::checked(x)) {\n        Ok(Ok(v)) => v,\n        Ok(Err(e)) => unsafe {\n                let msg = format!(\"{}\", e);\n                let msg_ptr = __pluto_string_new(msg.as_ptr(), msg.len() as i64);\n                let err_obj = __pluto_alloc(8);\n                *(err_obj as *mut i64) = msg_ptr as i64;\n                __pluto_raise_error(err_obj);\n                0i64\n            },\n        Err(_) => { eprintln!(\"fatal: panic in Rust FFI 'm.checked'\"); abort(); }\n    }\n}\n\n"
    );
}

#[test]
fn glue_lib_rs_void_and_bool_returns() {
    let crates = vec![CrateInfo {
        alias: "k".to_string(),
        lib_name: "kit".to_string(),
        manifest_dir: "/k".to_string(),
        functions: vec![
            sig("ping", vec![], None, false),
            sig("ok", vec![], Some(RustType::Bool), false),
            sig("check", vec![], None, true),
        ],
    }];
    let text = glue_lib_rs(&crates);
    assert!(text.contains("pub extern \"C\" fn __k_ping() {\n    match catch_unwind(|| kit::ping()) {\n        Ok(()) => {}\n"));
    assert!(text.contains("pub extern \"C\" fn __k_ok() -> i8 {\n    match catch_unwind(|| kit::ok()) {\n        Ok(true) => 1,\n        Ok(false) => 0,\n"));
    assert!(text.contains("        Ok(Ok(())) => {}\n        Ok(Err(e)) => unsafe {\n"));
    assert!(text.contains("__pluto_raise_error(err_obj);\n            },\n"));
}

// ── Checks across crates ────────────────────────────────────────────

fn decl(alias: &str, start: usize) -> Spanned<ExternRustDecl> {
    Spanned::new(
        ExternRustDecl {
            crate_path: Spanned::new("./c".to_string(), Span::new(start, start + 3)),
            alias: Spanned::new(alias.to_string(), Span::new(start + 10, start + 10 + alias.len())),
        },
        Span::new(start, start + 20),
    )
}

#[test]
fn duplicate_alias_is_syntax_error() {
    assert!(check_extern_rust_aliases(&[decl("a", 0), decl("b", 30)]).is_ok());
    match check_extern_rust_aliases(&[decl("a", 0), decl("b", 30), decl("a", 60)]) {
        Err(CompileError::Syntax { msg, span }) => {
            assert_eq!(msg, "duplicate extern rust alias 'a'");
            assert_eq!(span, Span::new(70, 71));
        },
        other => panic!("unexpected {:?}", other),
    }
}

fn info(alias: &str, lib: &str) -> CrateInfo {
    CrateInfo { alias: alias.to_string(), lib_name: lib.to_string(), manifest_dir: "/d".to_string(), functions: vec![] }
}

#[test]
fn shared_lib_name_is_codegen_error() {
    assert!(check_lib_names(&[info("x", "lib1"), info("y", "lib2")]).is_ok());
    match check_lib_names(&[info("x", "lib1"), info("y", "lib2"), info("z", "lib1")]) {
        Err(CompileError::Codegen { msg }) => assert_eq!(
            msg,
            "extern rust crates 'x' and 'z' have the same lib target name 'lib1'; this is not supported"
        ),
        other => panic!("unexpected {:?}", other),
    }
}

#[test]
fn bridged_functions_named_by_alias() {
    let sigs = vec![
        sig("add", vec![("a", RustType::I64), ("b", RustType::F64)], Some(RustType::Bool), false),
        sig("run", vec![], None, true),
    ];
    let fs = bridge_functions("m", &sigs);
    assert_eq!(fs.len(), 2);
    assert_eq!(fs[0].pluto_name, "m.add");
    assert_eq!(fs[0].symbol_name, "m.add");
    assert_eq!(fs[0].params, vec![PlutoType::Int, PlutoType::Float]);
    assert_eq!(fs[0].return_type, PlutoType::Bool);
    assert!(!fs[0].is_fallible);
    assert_eq!(fs[1].pluto_name, "m.run");
    assert!(fs[1].params.is_empty());
    assert_eq!(fs[1].return_type, PlutoType::Void);
    assert!(fs[1].is_fallible);
}

#[test]
fn bridge_type_conversions() {
    assert_eq!(rust_type_to_pluto(&RustType::F64), PlutoType::Float);
    assert_eq!(rust_type_to_c_type(&RustType::Bool), "i8");
    assert_eq!(rust_type_to_c_type(&RustType::I64), "i64");
    assert_eq!(pluto_type_to_type_expr(&PlutoType::Void), TypeExpr::Named("void".to_string()));
    assert_eq!(pluto_type_to_type_expr(&PlutoType::Float), TypeExpr::Named("float".to_string()));
}

#[test]
fn extern_declarations_for_bridged_functions() {
    let sigs = vec![
        sig("add", vec![("a", RustType::I64), ("b", RustType::Bool)], Some(RustType::F64), true),
        sig("ping", vec![], None, false),
    ];
    let artifact = RustCrateArtifact {
        static_lib: std::path::PathBuf::from("/tmp/libglue.a"),
        native_libs: vec![],
        functions: bridge_functions("m", &sigs),
    };
    let other = RustCrateArtifact {
        static_lib: std::path::PathBuf::from("/tmp/libglue.a"),
        native_libs: vec![],
        functions: bridge_functions("n", &[sig("go", vec![("x", RustType::I64); 12], None, true)]),
    };
    let mut extern_fns = Vec::new();
    let mut fallible = vec!["earlier".to_string()];
    inject_extern_fns(&mut extern_fns, &mut fallible, &[artifact, other]);
    assert_eq!(extern_fns.len(), 3);
    let add = &extern_fns[0].node;
    assert_eq!(add.name.node, "m.add");
    assert!(!add.is_pub);
    assert_eq!(add.params.len(), 2);
    assert_eq!(add.params[0].name.node, "p0");
    assert_eq!(add.params[0].ty.node, TypeExpr::Named("int".to_string()));
    assert_eq!(add.params[1].name.node, "p1");
    assert_eq!(add.params[1].ty.node, TypeExpr::Named("bool".to_string()));
    assert_ne!(add.params[0].id, add.params[1].id);
    assert_eq!(add.return_type.as_ref().unwrap().node, TypeExpr::Named("float".to_string()));
    assert!(extern_fns[1].node.return_type.is_none());
    assert_eq!(extern_fns[2].node.params[10].name.node, "p10");
    assert_eq!(extern_fns[2].node.params[11].name.node, "p11");
    assert_eq!(fallible, vec!["earlier".to_string(), "m.add".to_string(), "n.go".to_string()]);
}

#[test]
fn manifest_dir_is_the_parent_directory() {
    assert_eq!(pluto::rust_ffi::metadata::manifest_dir("/x/Cargo.toml"), "/x");
    assert_eq!(pluto::rust_ffi::metadata::manifest_dir("/"), ".");
}

#[test]
fn unit_parameter_is_not_bridged() {
    let (sigs, warnings) = pluto::rust_ffi::parser::parse_rust_source("pub fn f(x: ()) -> i64 { 0 }");
    assert!(sigs.is_empty());
    assert_eq!(warnings.len(), 1);
}

#[test]
fn manifest_dir_of_plain_paths() {
    assert_eq!(pluto::rust_ffi::metadata::manifest_dir("/home/u/crate/Cargo.toml"), "/home/u/crate");
    assert_eq!(pluto::rust_ffi::metadata::manifest_dir("/Cargo.toml"), "/");
    assert_eq!(pluto::rust_ffi::metadata::manifest_dir("Cargo.toml"), "");
    assert_eq!(pluto::rust_ffi::metadata::manifest_dir("crate/Cargo.toml"), "crate");
}
