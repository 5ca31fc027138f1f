//! Where the embedded TinyCC finds its prebuilt binaries and its C headers.
use vstd::prelude::*;
use vstd::string::StringExecFns;
use crate::text::{has_infix, str_contains};

verus! {

/// `target_lexicon::Triple::host()` written out, e.g. `x86_64-unknown-linux-gnu`: the
/// triple of the machine the compiler was built for. Nothing is claimed of the text.
#[verifier::external_body]
fn get_current_platform() -> (r: String) {
    target_lexicon::Triple::host().to_string()
}

/// The directory, under `tinycc/prebuilt`, of the TinyCC binaries for a target triple:
/// x86-64 and ARM64 Linux and macOS, and x86-64 Windows with the MSVC or GNU toolchain.
pub open spec fn platform_dir(target: Seq<char>, msvc: bool) -> Option<Seq<char>> {
    if has_infix(target, "x86_64"@) && has_infix(target, "linux"@) {
        Some("linux-x64"@)
    } else if has_infix(target, "aarch64"@) && has_infix(target, "linux"@) {
        Some("linux-arm64"@)
    } else if has_infix(target, "x86_64"@) && has_infix(target, "windows"@) {
        if msvc { Some("windows-x64/msvc"@) } else { Some("windows-x64/gnu"@) }
    } else if has_infix(target, "x86_64"@) && has_infix(target, "apple"@) {
        Some("macos-x64"@)
    } else if has_infix(target, "aarch64"@) && has_infix(target, "apple"@) {
        Some("macos-arm64"@)
    } else {
        None
    }
}

/// See `platform_dir`; `msvc` tells whether the MSVC toolchain is in use.
pub fn prebuilt_platform_dir(target: &str, msvc: bool) -> (r: Option<String>)
    ensures
        match platform_dir(target@, msvc) {
            Some(d) => r matches Some(s) && s@ == d,
            None => r is None,
        },
{
    let x86 = str_contains(target, "x86_64");
    let arm = str_contains(target, "aarch64");
    if x86 && str_contains(target, "linux") {
        Some(String::from_str("linux-x64"))
    } else if arm && str_contains(target, "linux") {
        Some(String::from_str("linux-arm64"))
    } else if x86 && str_contains(target, "windows") {
        if msvc {
            Some(String::from_str("windows-x64/msvc"))
        } else {
            Some(String::from_str("windows-x64/gnu"))
        }
    } else if x86 && str_contains(target, "apple") {
        Some(String::from_str("macos-x64"))
    } else if arm && str_contains(target, "apple") {
        Some(String::from_str("macos-arm64"))
    } else {
        None
    }
}

/// The prebuilt binaries' directory for the machine the compiler was built for.
pub fn host_prebuilt_platform_dir(msvc: bool) -> (r: Option<String>)
    ensures
        r matches Some(s) ==> exists|t: Seq<char>| platform_dir(t, msvc) == Some(s@),
{
    let target = get_current_platform();
    prebuilt_platform_dir(target.as_str(), msvc)
}

/// The include directories TinyCC needs, relative to the compiler's source directory:
/// the Windows headers and their `winapi`, `sys`, `tcc`, `sec_api` and `sec_api/sys`
/// subdirectories on Windows targets, the standard ones elsewhere.
pub open spec fn include_dirs(target: Seq<char>) -> Seq<Seq<char>> {
    if has_infix(target, "windows"@) {
        seq![
            "vendor/tinycc/win32/include"@,
            "vendor/tinycc/win32/include/winapi"@,
            "vendor/tinycc/win32/include/sys"@,
            "vendor/tinycc/win32/include/tcc"@,
            "vendor/tinycc/win32/include/sec_api"@,
            "vendor/tinycc/win32/include/sec_api/sys"@,
        ]
    } else {
        seq!["vendor/tinycc/include"@]
    }
}

/// See `include_dirs`.
pub fn tinycc_include_dirs(target: &str) -> (r: Vec<String>)
    ensures
        r@.len() == include_dirs(target@).len(),
        forall|i: int| 0 <= i < r@.len() ==> #[trigger] r@[i]@ == include_dirs(target@)[i],
{
    let mut dirs: Vec<String> = Vec::new();
    if str_contains(target, "windows") {
        dirs.push(String::from_str("vendor/tinycc/win32/include"));
        dirs.push(String::from_str("vendor/tinycc/win32/include/winapi"));
        dirs.push(String::from_str("vendor/tinycc/win32/include/sys"));
        dirs.push(String::from_str("vendor/tinycc/win32/include/tcc"));
        dirs.push(String::from_str("vendor/tinycc/win32/include/sec_api"));
        dirs.push(String::from_str("vendor/tinycc/win32/include/sec_api/sys"));
    } else {
        dirs.push(String::from_str("vendor/tinycc/include"));
    }
    dirs
}

/// The include directories for the machine the compiler was built for.
pub fn host_tinycc_include_dirs() -> (r: Vec<String>)
    ensures
        exists|t: Seq<char>| r@.len() == include_dirs(t).len()
            && forall|i: int| 0 <= i < r@.len() ==> #[trigger] r@[i]@ == include_dirs(t)[i],
{
    let target = get_current_platform();
    tinycc_include_dirs(target.as_str())
}

} // verus!
