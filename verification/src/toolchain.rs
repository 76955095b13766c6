//! Version strings of the Pluto compiler toolchain.

use vstd::prelude::*;
use crate::text::str_eq;
use vstd::string::StrSliceExecFns;
use vstd::string::StringExecFns;
use crate::diagnostics::CompileError;

verus! {

/// The version of the compiler this library belongs to.
pub fn running_version() -> (v: &'static str)
    ensures
        v@ == "0.1.0"@,
{
    "0.1.0"
}

/// A version string without its leading `v`, if it has one.
pub open spec fn spec_normalize_version(v: Seq<char>) -> Seq<char> {
    if v.len() > 0 && v[0] == 'v' {
        v.drop_first()
    } else {
        v
    }
}

/// Removes a leading "v" from a version string: "v0.2.0" -> "0.2.0", "0.2.0" -> "0.2.0".
pub fn normalize_version(version: &str) -> (r: String)
    ensures
        r@ == spec_normalize_version(version@),
{
    let n = version.unicode_len();
    if n > 0 && version.get_char(0) == 'v' {
        String::from_str(version.substring_char(1, n))
    } else {
        String::from_str(version)
    }
}

/// Where the compiler binary of `version` for the host `target` is published.
pub open spec fn spec_release_url(version: Seq<char>, target: Seq<char>) -> Seq<char> {
    "https://github.com/pluto-lang/pluto/releases/download/v"@ + version + "/pluto-"@ + target
}

/// The download address of the compiler binary of `version` for `target`.
pub fn release_url(version: &str, target: &str) -> (url: String)
    ensures
        url@ == spec_release_url(version@, target@),
{
    let mut url = String::from_str("https://github.com/pluto-lang/pluto/releases/download/v");
    url.append(version);
    url.append("/pluto-");
    url.append(target);
    url
}

/// The error for an active version whose binary is missing at `path`.
pub fn binary_not_found_error(version: &str, path: &str) -> (e: CompileError)
    ensures
        e is Toolchain && e->Toolchain_0@ == "active version "@ + version@ + " binary not found at "@ + path@,
{
    let mut msg = String::from_str("active version ");
    msg.append(version);
    msg.append(" binary not found at ");
    msg.append(path);
    proof {
        reveal_strlit("active version ");
        reveal_strlit(" binary not found at ");
    }
    CompileError::toolchain(msg)
}

/// The release target triple for an architecture and an operating system, as
/// Rust names them (`std::env::consts::ARCH` and `OS`): the four released
/// hosts by their triple, any other as `arch-os`.
pub open spec fn spec_target_triple(arch: Seq<char>, os: Seq<char>) -> Seq<char> {
    if arch == "aarch64"@ && os == "macos"@ {
        "aarch64-apple-darwin"@
    } else if arch == "x86_64"@ && os == "macos"@ {
        "x86_64-apple-darwin"@
    } else if arch == "x86_64"@ && os == "linux"@ {
        "x86_64-unknown-linux-gnu"@
    } else if arch == "aarch64"@ && os == "linux"@ {
        "aarch64-unknown-linux-gnu"@
    } else {
        arch + "-"@ + os
    }
}

/// The release target triple for an architecture and an operating system.
pub fn target_triple(arch: &str, os: &str) -> (t: String)
    ensures
        t@ == spec_target_triple(arch@, os@),
{
    if str_eq(arch, "aarch64") && str_eq(os, "macos") {
        String::from_str("aarch64-apple-darwin")
    } else if str_eq(arch, "x86_64") && str_eq(os, "macos") {
        String::from_str("x86_64-apple-darwin")
    } else if str_eq(arch, "x86_64") && str_eq(os, "linux") {
        String::from_str("x86_64-unknown-linux-gnu")
    } else if str_eq(arch, "aarch64") && str_eq(os, "linux") {
        String::from_str("aarch64-unknown-linux-gnu")
    } else {
        let mut t = String::from_str(arch);
        t.append("-");
        t.append(os);
        proof {
            reveal_strlit("-");
        }
        t
    }
}

/// The error of a failed download. A reply with status 404 means that no such
/// version was released for the target; anything else is a network failure,
/// described by `detail`.
pub fn download_error(status: Option<u16>, version: &str, target: &str, detail: &str) -> (e: CompileError)
    ensures
        status == Some(404u16) ==> e is VersionNotFound && e->VersionNotFound_0@ == "version "@ + version@
            + " not found for target "@ + target@ + " (check https://github.com/pluto-lang/pluto/releases)"@,
        status != Some(404u16) ==> e is Network && e->Network_0@ == "failed to download: "@ + detail@,
{
    match status {
        Some(404) => {
            let mut msg = String::from_str("version ");
            msg.append(version);
            msg.append(" not found for target ");
            msg.append(target);
            msg.append(" (check https://github.com/pluto-lang/pluto/releases)");
            CompileError::version_not_found(msg)
        },
        _ => {
            let mut msg = String::from_str("failed to download: ");
            msg.append(detail);
            CompileError::network(msg)
        },
    }
}

/// A version can be made the active one only when its directory and binary
/// are installed; otherwise the error says which is missing.
pub fn check_installed(version: &str, dir_exists: bool, binary_exists: bool) -> (r: Result<(), CompileError>)
    ensures
        dir_exists && binary_exists <==> r is Ok,
        !dir_exists ==> (r matches Err(CompileError::Toolchain(m)) && m@ == "version "@ + version@
            + " is not installed; use 'pluto install "@ + version@ + "' first"@),
        dir_exists && !binary_exists ==> (r matches Err(CompileError::Toolchain(m)) && m@ == "version "@ + version@
            + " is installed but binary is missing"@),
{
    if !dir_exists {
        let mut msg = String::from_str("version ");
        msg.append(version);
        msg.append(" is not installed; use 'pluto install ");
        msg.append(version);
        msg.append("' first");
        return Err(CompileError::toolchain(msg));
    }
    if !binary_exists {
        let mut msg = String::from_str("version ");
        msg.append(version);
        msg.append(" is installed but binary is missing");
        return Err(CompileError::toolchain(msg));
    }
    Ok(())
}

/// Both spellings of a version name the same version: with a leading `v` or
/// without it.
pub proof fn lemma_normalize_accepts_both(version: Seq<char>)
    requires
        version.len() == 0 || version[0] != 'v',
    ensures
        spec_normalize_version(seq!['v'] + version) == version,
        spec_normalize_version(version) == version,
{
    assert((seq!['v'] + version).drop_first() =~= version);
}

} // verus!
