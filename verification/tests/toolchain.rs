use pluto::toolchain::normalize_version;
use pluto::toolchain::running_version;
use pluto::toolchain::release_url;
use pluto::toolchain::download_error;
use pluto::toolchain::check_installed;
use pluto::diagnostics::CompileError;

#[test]
fn test_normalize_version() {
    assert_eq!(normalize_version("v0.2.0"), "0.2.0");
    assert_eq!(normalize_version("0.2.0"), "0.2.0");
    assert_eq!(normalize_version("v1.0.0-beta"), "1.0.0-beta");
}

#[test]
fn test_running_version() {
    let version = running_version();
    assert!(!version.is_empty());
    assert_eq!(version, "0.1.0");
}

#[test]
fn normalize_version_strips_one_v_only() {
    assert_eq!(normalize_version("vv1"), "v1");
    assert_eq!(normalize_version(""), "");
    assert_eq!(normalize_version("v"), "");
}

#[test]
fn normalize_version_accepts_both_spellings() {
    assert_eq!(normalize_version("v3.1.4"), normalize_version("3.1.4"));
}

#[test]
fn release_url_names_version_and_target() {
    assert_eq!(
        release_url("0.2.0", "x86_64-unknown-linux-gnu"),
        "https://github.com/pluto-lang/pluto/releases/download/v0.2.0/pluto-x86_64-unknown-linux-gnu"
    );
}

#[test]
fn download_error_404_is_version_not_found() {
    match download_error(Some(404), "9.9.9", "aarch64-apple-darwin", "status 404") {
        CompileError::VersionNotFound(msg) => assert_eq!(
            msg,
            "version 9.9.9 not found for target aarch64-apple-darwin (check https://github.com/pluto-lang/pluto/releases)"
        ),
        other => panic!("unexpected error {:?}", other),
    }
}

#[test]
fn download_error_other_is_network() {
    match download_error(Some(500), "1.0.0", "t", "server error") {
        CompileError::Network(msg) => assert_eq!(msg, "failed to download: server error"),
        other => panic!("unexpected error {:?}", other),
    }
    match download_error(None, "1.0.0", "t", "dns failure") {
        CompileError::Network(msg) => assert_eq!(msg, "failed to download: dns failure"),
        other => panic!("unexpected error {:?}", other),
    }
}

#[test]
fn check_installed_cases() {
    assert!(check_installed("1.0.0", true, true).is_ok());
    match check_installed("999.999.999", false, false) {
        Err(CompileError::Toolchain(msg)) => {
            assert_eq!(msg, "version 999.999.999 is not installed; use 'pluto install 999.999.999' first")
        },
        other => panic!("unexpected result {:?}", other),
    }
    match check_installed("1.0.0", true, false) {
        Err(CompileError::Toolchain(msg)) => assert_eq!(msg, "version 1.0.0 is installed but binary is missing"),
        other => panic!("unexpected result {:?}", other),
    }
}

#[test]
fn missing_active_binary_error() {
    match pluto::toolchain::binary_not_found_error("0.2.0", "/home/u/.pluto/versions/0.2.0/pluto") {
        pluto::diagnostics::CompileError::Toolchain(msg) => {
            assert_eq!(msg, "active version 0.2.0 binary not found at /home/u/.pluto/versions/0.2.0/pluto")
        }
        other => panic!("unexpected {:?}", other),
    }
}

#[test]
fn target_triples() {
    assert_eq!(pluto::toolchain::target_triple("aarch64", "macos"), "aarch64-apple-darwin");
    assert_eq!(pluto::toolchain::target_triple("x86_64", "macos"), "x86_64-apple-darwin");
    assert_eq!(pluto::toolchain::target_triple("x86_64", "linux"), "x86_64-unknown-linux-gnu");
    assert_eq!(pluto::toolchain::target_triple("aarch64", "linux"), "aarch64-unknown-linux-gnu");
    assert_eq!(pluto::toolchain::target_triple("riscv64", "freebsd"), "riscv64-freebsd");
}
