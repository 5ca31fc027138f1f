use atlas_77::tinycc::{host_prebuilt_platform_dir, host_tinycc_include_dirs, prebuilt_platform_dir, tinycc_include_dirs};
use atlas_77::config::{compiler_invocation, CompilationFlag, OutputType, SupportedCompiler};
use atlas_77::utils::{source_location, string_to_static_str, SourceLocation, Span, Spanned};
use std::str::FromStr;

#[test]
fn compiler_names() {
    assert_eq!(SupportedCompiler::from_name("GCC"), SupportedCompiler::GCC);
    assert_eq!(SupportedCompiler::from_name("tcc"), SupportedCompiler::TinyCC);
    assert_eq!(SupportedCompiler::from_name("Cl"), SupportedCompiler::MSVC);
    assert_eq!(SupportedCompiler::from_name("icc"), SupportedCompiler::Intel);
    assert_eq!(SupportedCompiler::from_name("none"), SupportedCompiler::NoCompiler);
    assert_eq!(SupportedCompiler::from_name("whatever"), SupportedCompiler::TinyCC);
    assert_eq!(SupportedCompiler::from_str("CLANG"), Ok(SupportedCompiler::Clang));
}

#[test]
fn compiler_invocations() {
    let gcc = compiler_invocation(SupportedCompiler::GCC, CompilationFlag::Release, "out", false).unwrap();
    assert_eq!(gcc.program, "gcc");
    assert_eq!(gcc.args, vec!["./build/output.atlas_c.c", "-o", "out/a.out", "-O2"]);
    let msvc = compiler_invocation(SupportedCompiler::MSVC, CompilationFlag::Debug, "out", true).unwrap();
    assert_eq!(msvc.program, "cl");
    assert_eq!(msvc.args, vec!["./build/output.atlas_c.c", "/Fe:out/a.exe"]);
    let tcc = compiler_invocation(SupportedCompiler::TinyCC, CompilationFlag::Release, "o", false).unwrap();
    assert_eq!(tcc.args, vec!["./build/output.atlas_c.c", "-o", "o/a.out"]);
    assert!(compiler_invocation(SupportedCompiler::NoCompiler, CompilationFlag::Release, "o", false).is_none());
}

#[test]
fn output_type_codes() {
    assert_eq!(OutputType::Memory.code(), 1);
    assert_eq!(OutputType::Exe.code(), 2);
    assert_eq!(OutputType::Preprocess.code(), 5);
}

#[test]
fn spans() {
    let a = Span { start: 3, end: 5, path: "a" };
    let b = Span { start: 1, end: 4, path: "b" };
    let u = a.union_span(&b);
    assert_eq!((u.start, u.end, u.path), (1, 5, "a"));
    let d = Span::default();
    assert_eq!((d.start, d.end, d.path), (0, 0, "<stdin>"));
    assert_eq!(string_to_static_str("x.atlas".to_string()), "x.atlas");
}

#[test]
fn span_union_covers_and_groups_freely() {
    let a = Span { start: 4, end: 9, path: "a" };
    let b = Span { start: 2, end: 6, path: "b" };
    let c = Span { start: 7, end: 12, path: "c" };
    let left = a.union_span(&b).union_span(&c);
    let right = a.union_span(&b.union_span(&c));
    assert_eq!((left.start, left.end, left.path), (2, 12, "a"));
    assert_eq!((right.start, right.end, right.path), (2, 12, "a"));
    let same = a.union_span(&a);
    assert_eq!((same.start, same.end), (4, 9));
}

#[test]
fn tinycc_platform_directories() {
    assert_eq!(prebuilt_platform_dir("x86_64-unknown-linux-gnu", false).as_deref(), Some("linux-x64"));
    assert_eq!(prebuilt_platform_dir("aarch64-unknown-linux-gnu", false).as_deref(), Some("linux-arm64"));
    assert_eq!(prebuilt_platform_dir("x86_64-pc-windows-msvc", true).as_deref(), Some("windows-x64/msvc"));
    assert_eq!(prebuilt_platform_dir("x86_64-pc-windows-gnu", false).as_deref(), Some("windows-x64/gnu"));
    assert_eq!(prebuilt_platform_dir("x86_64-apple-darwin", false).as_deref(), Some("macos-x64"));
    assert_eq!(prebuilt_platform_dir("aarch64-apple-darwin", false).as_deref(), Some("macos-arm64"));
    assert_eq!(prebuilt_platform_dir("aarch64-pc-windows-msvc", true), None);
    assert_eq!(prebuilt_platform_dir("riscv64gc-unknown-linux-gnu", false), None);
    let _ = host_prebuilt_platform_dir(false);
}

#[test]
fn tinycc_include_directories() {
    let win = tinycc_include_dirs("x86_64-pc-windows-gnu");
    assert_eq!(win.len(), 6);
    assert_eq!(win[0], "vendor/tinycc/win32/include");
    assert_eq!(win[5], "vendor/tinycc/win32/include/sec_api/sys");
    assert_eq!(tinycc_include_dirs("x86_64-unknown-linux-gnu"), vec!["vendor/tinycc/include".to_string()]);
    assert!(!host_tinycc_include_dirs().is_empty());
}

#[test]
fn source_paths_are_located() {
    match source_location("std/io") {
        SourceLocation::Std(f) => assert_eq!(f, "io.atlas"),
        other => panic!("unexpected {:?}", other),
    }
    match source_location("std/std/vec.atlas") {
        SourceLocation::Std(f) => assert_eq!(f, "vec.atlas"),
        other => panic!("unexpected {:?}", other),
    }
    match source_location("core/mem") {
        SourceLocation::Core(f) => assert_eq!(f, "mem.atlas"),
        other => panic!("unexpected {:?}", other),
    }
    match source_location("lib/util") {
        SourceLocation::Disk { path, fallback } => {
            assert_eq!(path, "lib/util.atlas");
            assert_eq!(fallback, "src/lib/util.atlas");
        },
        other => panic!("unexpected {:?}", other),
    }
}
