use atlas_77::package::header::{belongs_to_header, declaration_file};
use atlas_77::package::cdecl::{
    CDeclSpecifier, CDeclaration, CDeclarator, CDeclaratorKind, CDerived, CFunctionDeclarator, CIdent,
    CInitDeclarator, CParameter, CTypeSpecifier,
};
use atlas_77::package::composite::{CompositeDecl, CompositeField, CompositeKind, EnumDecl, EnumVariant};
use atlas_77::package::atlas_module::generate_atlas_module;
use atlas_77::package::shim::package_declarations;
use atlas_77::package::{
    apply_replacements, build_forward_arg_expr, build_return_expr, c_type_string_to_atlas, namespaced,
    pointer_wrap, slice_source, FunctionDecl, ParamConversion, ReturnConversion, SkipInfo,
};

#[test]
fn c_types_to_atlas() {
    assert_eq!(c_type_string_to_atlas("", "ns"), "unit");
    assert_eq!(c_type_string_to_atlas("  ", "ns"), "unit");
    assert_eq!(c_type_string_to_atlas("int", "ns"), "int32");
    assert_eq!(c_type_string_to_atlas("const char *", "ns"), "*uint8");
    assert_eq!(c_type_string_to_atlas("unsigned long long int", "ns"), "uint64");
    assert_eq!(c_type_string_to_atlas("volatile int", "ns"), "int32");
    assert_eq!(c_type_string_to_atlas("Foo * *", "mylib"), "**mylib::Foo");
    assert_eq!(c_type_string_to_atlas("void", "ns"), "unit");
    assert_eq!(c_type_string_to_atlas("_Bool", "ns"), "bool");
    assert_eq!(c_type_string_to_atlas("double", "ns"), "float64");
}

#[test]
fn namespacing_and_pointers() {
    assert_eq!(namespaced("ns", "ns_foo"), "ns_foo");
    assert_eq!(namespaced("ns", "foo"), "ns_foo");
    assert_eq!(namespaced("ns", "nsfoo"), "ns_nsfoo");
    assert_eq!(pointer_wrap("int".to_string(), 2), "**int");
    assert_eq!(pointer_wrap("int".to_string(), 0), "int");
}

#[test]
fn replacements() {
    let src = "int foo(bar x);";
    let r = |a: usize, b: usize, t: &str| (a, b, t.to_string());
    assert_eq!(apply_replacements(src, vec![r(4, 7, "ns_foo"), r(8, 11, "ns_bar")]), "int ns_foo(ns_bar x);");
    assert_eq!(apply_replacements(src, vec![r(8, 11, "ns_bar"), r(4, 7, "ns_foo")]), "int ns_foo(ns_bar x);");
    assert_eq!(apply_replacements(src, vec![r(4, 7, "A"), r(5, 9, "B")]), "int A(bar x);");
    assert_eq!(apply_replacements(src, vec![r(20, 25, "Z")]), src);
    assert_eq!(apply_replacements(src, vec![]), src);
    assert_eq!(apply_replacements("héllo", vec![r(1, 3, "e")]), "hello");
}

#[test]
fn slices_by_bytes() {
    assert_eq!(slice_source("héllo", 0, 1), "h");
    assert_eq!(slice_source("héllo", 1, 3), "é");
    assert_eq!(slice_source("héllo", 1, 2), "");
    assert_eq!(slice_source("héllo", 3, 1), "");
    assert_eq!(slice_source("héllo", 3, 99), "");
}

#[test]
fn forwarded_arguments_and_results() {
    let known = vec!["T".to_string()];
    let conv = |depth: usize, vendor: Option<&str>| ParamConversion {
        arg_name: "x".to_string(),
        vendor_type: vendor.map(|v| v.to_string()),
        pointer_depth: depth,
    };
    assert_eq!(build_forward_arg_expr(&conv(0, Some("T")), &known, "ns"), "((union { ns_T ns; T vd; }){ .ns = x }).vd");
    assert_eq!(build_forward_arg_expr(&conv(2, Some("T")), &known, "ns"), "(T** )x");
    assert_eq!(build_forward_arg_expr(&conv(0, Some("U")), &known, "ns"), "x");
    assert_eq!(build_forward_arg_expr(&conv(0, None), &known, "ns"), "x");
    let ret = |depth: usize| ReturnConversion { vendor_type: Some("T".to_string()), pointer_depth: depth };
    assert_eq!(build_return_expr("f(x)", &ret(0), &known, "ns"), "((union { ns_T ns; T vd; }){ .vd = f(x) }).ns");
    assert_eq!(build_return_expr("f(x)", &ret(1), &known, "ns"), "(ns_T*)(f(x))");
    assert_eq!(build_return_expr("f(x)", &ReturnConversion { vendor_type: None, pointer_depth: 0 }, &known, "ns"), "f(x)");
}

#[test]
fn atlas_module_text() {
    let function = FunctionDecl {
        name: "f".to_string(),
        namespaced_name: "ns_f".to_string(),
        atlas_signature: "fun f(x: int32) -> int32;".to_string(),
        source_decl: "int f(int x);".to_string(),
        function_name_span_rel: (4, 5),
        is_void_return: false,
        typedef_ref_spans_rel: vec![],
        param_conversions: vec![],
        return_conversion: ReturnConversion { vendor_type: None, pointer_depth: 0 },
    };
    let s = || CompositeDecl {
        kind: CompositeKind::Struct,
        name: "S".to_string(),
        fields: vec![CompositeField { name: "a".to_string(), ty: "int32".to_string() }],
    };
    let e = EnumDecl {
        name: "E".to_string(),
        variants: vec![
            EnumVariant { name: "A".to_string(), value: Some(" 1 ".to_string()) },
            EnumVariant { name: "B".to_string(), value: None },
        ],
    };
    let skipped = vec![SkipInfo { name: "g".to_string(), reason: "variadic function (unsafe forwarding)".to_string() }];
    let text = generate_atlas_module("ns", &vec![function], &vec![s(), s()], &vec![e], &skipped);
    assert_eq!(
        text,
        "namespace ns {\n    public extern struct S\n    {\n    public:\n        a: int32;\n    }\n\n    public enum E {\n        A = 1;\n        B;\n    }\n\n    public extern fun f(x: int32) -> int32;\n\n    // Skipped by package command:\n    // - g: variadic function (unsafe forwarding)\n}\n"
    );
}

fn ident(name: &str, start: usize, end: usize) -> CIdent {
    CIdent { name: name.to_string(), start, end }
}

fn named(id: CIdent, derived: Vec<CDerived>) -> CDeclarator {
    CDeclarator { kind: CDeclaratorKind::Identifier(id), derived }
}

#[test]
fn packages_a_header() {
    let source = "typedef int myint;\nmyint add(myint a, int *b);\n";
    let typedef = CDeclaration {
        specifiers: vec![CDeclSpecifier::Typedef, CDeclSpecifier::TypeSpecifier(CTypeSpecifier::Int)],
        declarators: vec![CInitDeclarator { declarator: named(ident("myint", 12, 17), vec![]), has_initializer: false }],
        start: 0,
        end: 18,
        typedef_refs: vec![],
        tag_names: vec![],
        enum_constants: vec![],
    };
    let params = vec![
        CParameter {
            specifiers: vec![CDeclSpecifier::TypeSpecifier(CTypeSpecifier::TypedefName(ident("myint", 29, 34)))],
            declarator: Some(named(ident("a", 35, 36), vec![])),
        },
        CParameter {
            specifiers: vec![CDeclSpecifier::TypeSpecifier(CTypeSpecifier::Int)],
            declarator: Some(named(ident("b", 43, 44), vec![CDerived::Pointer])),
        },
    ];
    let function = CDeclaration {
        specifiers: vec![CDeclSpecifier::TypeSpecifier(CTypeSpecifier::TypedefName(ident("myint", 19, 24)))],
        declarators: vec![CInitDeclarator {
            declarator: named(ident("add", 25, 28), vec![CDerived::Function(CFunctionDeclarator { parameters: params, ellipsis: false })]),
            has_initializer: false,
        }],
        start: 19,
        end: 46,
        typedef_refs: vec![(19, 24, "myint".to_string()), (29, 34, "myint".to_string())],
        tag_names: vec![],
        enum_constants: vec![],
    };
    let out = package_declarations(&vec![typedef, function], source, "mylib", "mylib", "vendor.h");
    assert_eq!(out.shim_header_name, "atlas77-mylib.h");
    assert_eq!(out.shim_c_name, "atlas77-mylib.c");
    assert_eq!(out.atlas_module_name, "mylib.atlas");
    assert_eq!(
        out.header,
        "#pragma once\n\n#ifdef __cplusplus\nextern \"C\" {\n#endif\n\ntypedef int mylib_myint;\n\nmylib_myint mylib_add(mylib_myint a, int *b);\n\n#ifdef __cplusplus\n}\n#endif\n"
    );
    assert_eq!(
        out.c_source,
        "#include \"vendor.h\"\n#include \"atlas77-mylib.h\"\n\nmylib_myint mylib_add(mylib_myint a, int *b) {\n    return ((union { mylib_myint ns; myint vd; }){ .vd = add(((union { mylib_myint ns; myint vd; }){ .ns = a }).vd, b) }).ns;\n}\n\n"
    );
    assert_eq!(
        out.atlas_module,
        "namespace mylib {\n    public extern fun add(a: mylib::myint, b: *int32) -> mylib::myint;\n}\n"
    );
    assert!(out.skipped.is_empty());
}

#[test]
fn variadic_functions_are_skipped() {
    let source = "int printf(const char *fmt, ...);";
    let params = vec![CParameter {
        specifiers: vec![CDeclSpecifier::Other, CDeclSpecifier::TypeSpecifier(CTypeSpecifier::Char)],
        declarator: Some(named(ident("fmt", 24, 27), vec![CDerived::Pointer])),
    }];
    let decl = CDeclaration {
        specifiers: vec![CDeclSpecifier::TypeSpecifier(CTypeSpecifier::Int)],
        declarators: vec![CInitDeclarator {
            declarator: named(ident("printf", 4, 10), vec![CDerived::Function(CFunctionDeclarator { parameters: params, ellipsis: true })]),
            has_initializer: false,
        }],
        start: 0,
        end: 33,
        typedef_refs: vec![],
        tag_names: vec![],
        enum_constants: vec![],
    };
    let out = package_declarations(&vec![decl], source, "c", "c", "stdio.h");
    assert_eq!(out.skipped.len(), 1);
    assert_eq!(out.skipped[0].name, "printf");
    assert_eq!(out.skipped[0].reason, "variadic function (unsafe forwarding)");
    assert_eq!(out.atlas_module, "namespace c {\n\n    // Skipped by package command:\n    // - printf: variadic function (unsafe forwarding)\n}\n");
}

#[test]
fn pointer_markers_move_in_front_of_the_base_type() {
    for base in ["unsigned int", "Foo", "long long", "my_type_t"] {
        let base_text = c_type_string_to_atlas(base, "lib");
        for k in 1..4 {
            let c_type = format!("{} {}", base, "*".repeat(k));
            assert_eq!(c_type_string_to_atlas(&c_type, "lib"), format!("{}{}", "*".repeat(k), base_text));
        }
    }
}

#[test]
fn declarations_are_placed_in_files_by_line_markers() {
    let source = "# 1 \"/usr/include/stdio.h\"\nint printf(const char *, ...);\n# 3 \"foo.h\"\nint foo(void);\n";
    let printf_at = source.find("int printf").unwrap();
    let foo_at = source.find("int foo").unwrap();
    assert_eq!(declaration_file(source, printf_at).unwrap(), "/usr/include/stdio.h");
    assert_eq!(declaration_file(source, foo_at).unwrap(), "foo.h");
    assert!(declaration_file(source, 0).is_none());
    assert!(declaration_file("int x;", 2).is_none());
    assert!(belongs_to_header("foo.h", false, Some("foo.h"), Some("foo.h")));
    assert!(!belongs_to_header("/usr/include/stdio.h", false, Some("stdio.h"), Some("foo.h")));
    assert!(belongs_to_header("../x/foo.h", true, Some("foo.h"), Some("bar.h")));
    assert!(!belongs_to_header("", true, None, None));
    assert!(belongs_to_header("dir", false, None, None));
}
