use atlas_77::hir::context::{ContextError, ContextFunction, ContextScope, ContextVariable, TypeCheckContexts};
use atlas_77::hir::generic_pool::HirGenericPool;
use atlas_77::hir::signature::{HirFunctionSignature, HirGenericConstraint, HirModuleSignature, HirStructSignature};
use atlas_77::hir::ty::{HirFloatTy, HirInlineArrayTy, HirUnitTy};
use atlas_77::hir::type_check::{
    get_class_name_of_type, get_generic_name, get_generic_ret_ty, get_generic_ty, get_type_display_name, is_arithmetic_type,
    is_equality_comparable, is_equivalent_ty, is_orderable_type, TypeRelationError, check_union, UnionCheckError,
};
use atlas_77::hir::signature::{HirStructMethodModifier, HirStructMethodSignature};
use atlas_77::hir::item::{HirEnum, HirEnumVariant};
use atlas_77::hir::cycles::{has_cyclic_reference, struct_field_cycle};
use atlas_77::hir::signature::HirStructFieldSignature;
use atlas_77::hir::monomorph::{generate_mangled_name, MonomorphizationPass};
use atlas_77::hir::monomorph::register_generic_type;
use atlas_77::hir::signature::find_function_signature_in_module;
use atlas_77::hir::signature::{ConstantValue, HirFlag, HirGenericConstraintKind, HirVisibility};
use atlas_77::hir::special_methods::{
    expected_signature_for_struct, primitive_special_call_descriptor, special_method_by_name,
    special_method_enabled_by_flag, AstFlag, AstVisibility, SpecialMethodKind, SpecialMethodReceiver,
};
use atlas_77::hir::ty::{
    HirBooleanTy, HirGenericTy, HirIntegerTy, HirNamedTy, HirPtrTy, HirSliceTy, HirStringTy, HirTy, HirTyId,
    HirUnsignedIntTy,
};
use atlas_77::utils::Span;
use atlas_77::hir::keyed::set_entry_sorted;

fn int64() -> HirTy {
    HirTy::Integer(HirIntegerTy { size_in_bits: 64 })
}

fn named(n: &str) -> HirTy {
    HirTy::Named(HirNamedTy { name: n.to_string(), span: Span::default() })
}

fn generic(n: &str, inner: Vec<HirTy>) -> HirGenericTy {
    HirGenericTy { name: n.to_string(), inner, span: Span::default() }
}

fn ptr(inner: HirTy, is_const: bool) -> HirTy {
    HirTy::PtrTy(HirPtrTy { inner: Box::new(inner), is_const, span: Span::default() })
}

#[test]
fn type_names() {
    let t = HirTy::Generic(generic("Vec", vec![ptr(named("T"), false), int64()]));
    assert_eq!(t.get_valid_c_string(), "Vec_T_ptr_int64");
    assert_eq!(t.to_string(), "Vec<*T, int64>");
    let s = HirTy::Slice(HirSliceTy { inner: Box::new(ptr(HirTy::Boolean(HirBooleanTy {}), true)) });
    assert_eq!(s.get_valid_c_string(), "list_bool_cstptr");
    assert_eq!(s.to_string(), "[*const bool]");
    assert_eq!(HirTy::UnsignedInteger(HirUnsignedIntTy { size_in_bits: 8 }).to_string(), "uint8");
}

#[test]
fn type_predicates() {
    let p = ptr(int64(), true);
    assert!(p.is_const_ptr());
    assert!(!p.is_mutable_ptr());
    assert!(p.is_raw_ptr());
    assert!(p.get_inner_ptr_ty().is_some());
    assert!(int64().is_primitive());
    assert!(HirTy::String(HirStringTy {}).is_primitive());
    assert!(!named("Foo").is_primitive());
    assert!(int64().get_inner_ptr_ty().is_none());
}

#[test]
fn type_ids_depend_on_structure() {
    let a = HirTyId::from(&HirTy::Generic(generic("Vec", vec![int64()])));
    let b = HirTyId::from(&HirTy::Generic(generic("Vec", vec![int64()])));
    let c = HirTyId::from(&HirTy::Generic(generic("Vec", vec![named("T")])));
    assert!(a.same_as(&b));
    assert!(!a.same_as(&c));
    assert!(HirTyId::compute_int_ty_id(64).same_as(&HirTyId::from(&int64())));
}

#[test]
fn mangled_names() {
    let inner = generic("Pair", vec![int64(), named("Foo")]);
    let outer = generic("Vec", vec![HirTy::Generic(inner), ptr(named("T"), true)]);
    assert_eq!(generate_mangled_name(&outer, "struct"), "__atlas77__Vec____atlas77__Pair__int64_Foo_T_cstptr");
    assert_eq!(generate_mangled_name(&generic("f", vec![]), "function"), "__atlas77__f__");
}

#[test]
fn generic_substitution() {
    let pass = MonomorphizationPass::new(HirGenericPool::new());
    let ty = HirTy::Generic(generic("Vec", vec![ptr(named("T"), false), named("U")]));
    let subst = vec![("T".to_string(), int64()), ("T".to_string(), named("Ignored"))];
    let swapped = pass.swap_generic_types_in_ty(&ty, &subst);
    assert_eq!(swapped.to_string(), "Vec<*int64, U>");
    let unchanged = pass.swap_generic_types_in_ty(&ty, &vec![]);
    assert_eq!(unchanged.to_string(), "Vec<*T, U>");
}

#[test]
fn constants_as_text() {
    assert_eq!(ConstantValue::Int(-3).to_string(), "-3");
    assert_eq!(ConstantValue::String("a\tb".to_string()).to_string(), "\"a\\tb\"");
    assert_eq!(ConstantValue::Char('x').to_string(), "'x'");
    assert_eq!(ConstantValue::Unit.to_string(), "()");
    assert_eq!(ConstantValue::Float("1.5".to_string()).to_string(), "1.5");
    assert_eq!(
        ConstantValue::List(vec![ConstantValue::Bool(true), ConstantValue::UInt(7)]).to_string(),
        "[true, 7]"
    );
}

#[test]
fn flags() {
    let s = Span { start: 1, end: 2, path: "f" };
    assert!(HirFlag::Copyable(s).is_copyable());
    assert!(HirFlag::NonCopyable(s).is_non_copyable());
    assert!(HirFlag::TriviallyCopyable(s).is_trivially_copyable());
    assert!(HirFlag::NonMoveable(s).is_non_moveable());
    assert!(HirFlag::NoFlag.is_no_flag());
    assert_eq!(HirFlag::Copyable(s).span().map(|x| (x.start, x.end)), Some((1, 2)));
    assert!(HirFlag::NoFlag.span().is_none());
    assert!(HirFlag::from(AstFlag::Copyable(s)).is_copyable());
    assert!(HirFlag::from(AstFlag::Hashable(s)).is_no_flag());
    assert_eq!(HirVisibility::from(AstVisibility::Private), HirVisibility::Private);
    assert_eq!(HirVisibility::default(), HirVisibility::Public);
}

#[test]
fn constraint_kinds_as_text() {
    let sp = Span::default();
    assert_eq!(HirGenericConstraintKind::Std { name: "copyable".to_string(), span: sp }.to_string(), "std::copyable");
    assert_eq!(HirGenericConstraintKind::Operator { op: "Add".to_string(), span: sp }.to_string(), "operator Add");
    assert_eq!(HirGenericConstraintKind::Concept { name: "Eq".to_string(), span: sp }.to_string(), "Eq");
}

#[test]
fn special_methods() {
    let copy = special_method_by_name("copy").unwrap();
    assert_eq!(copy.kind, SpecialMethodKind::Copy);
    assert_eq!(copy.receiver, SpecialMethodReceiver::Instance);
    assert_eq!(special_method_by_name("default").unwrap().receiver, SpecialMethodReceiver::Static);
    assert!(special_method_by_name("clone").is_none());
    assert_eq!(expected_signature_for_struct(SpecialMethodKind::Copy, "Point"), "fun copy(*const this) -> Point");
    assert_eq!(expected_signature_for_struct(SpecialMethodKind::Default, "Point"), "fun default() -> Point");
    assert_eq!(expected_signature_for_struct(SpecialMethodKind::Hash, "Point"), "fun hash(*const this) -> uint64");
    let d = primitive_special_call_descriptor("hash", SpecialMethodReceiver::Instance).unwrap();
    assert_eq!(d.intrinsic_name, "__atlas_primitive_hash");
    assert!(primitive_special_call_descriptor("hash", SpecialMethodReceiver::Static).is_none());
    assert!(primitive_special_call_descriptor("nope", SpecialMethodReceiver::Instance).is_none());
    let s = Span::default();
    assert!(special_method_enabled_by_flag(SpecialMethodKind::Copy, AstFlag::TriviallyCopyable(s)));
    assert!(!special_method_enabled_by_flag(SpecialMethodKind::Copy, AstFlag::Default(s)));
    assert!(special_method_enabled_by_flag(SpecialMethodKind::Default, AstFlag::Default(s)));
    assert!(special_method_enabled_by_flag(SpecialMethodKind::Hash, AstFlag::Hashable(s)));
}

fn var(name: &str, is_param: bool) -> ContextVariable {
    ContextVariable {
        name: name.to_string(),
        name_span: Span::default(),
        ty: int64(),
        _ty_span: Span::default(),
        _is_mut: false,
        is_param,
        ptrs_to_locals: vec![],
    }
}

#[test]
fn scopes_see_their_parents() {
    let mut ctx = ContextFunction::new();
    ctx.insert("x", var("x", true));
    assert_eq!(ctx.new_scope(), 0);
    ctx.insert("y", var("y", false));
    assert!(ctx.get("x").unwrap().is_param);
    assert!(!ctx.get("y").unwrap().is_param);
    ctx.insert("x", var("x", false));
    assert!(!ctx.get_variable("x").unwrap().is_param);
    assert_eq!(ctx.end_scope(), 0);
    assert!(ctx.get("y").is_none());
    assert!(ctx.get("x").unwrap().is_param);
}

#[test]
fn scope_insert_replaces() {
    let mut scope = ContextScope::new(None);
    scope.insert("a", var("a", true));
    scope.insert("a", var("a", false));
    assert_eq!(scope.variables.len(), 1);
    assert!(!scope.get("a").unwrap().is_param);
    assert!(scope.get("b").is_none());
}

#[test]
fn insert_then_get_and_scope_round_trip() {
    let mut ctx = ContextFunction::new();
    ctx.insert("a", var("a", true));
    ctx.insert("b", var("b", false));
    assert_eq!(ctx.get("a").unwrap().name, "a");
    assert!(ctx.get("a").unwrap().is_param);
    assert!(!ctx.get("b").unwrap().is_param);
    ctx.new_scope();
    assert!(ctx.get("a").unwrap().is_param);
    assert!(ctx.get("c").is_none());
    ctx.end_scope();
    assert_eq!(ctx.scopes.len(), 1);
    assert_eq!(ctx.scopes[0].variables.len(), 2);
}

fn module(structs: Vec<&str>) -> HirModuleSignature {
    HirModuleSignature {
        functions: vec![],
        structs: structs.into_iter().map(|n| (n.to_string(), struct_sig(n))).collect(),
        enums: vec![],
        unions: vec![],
        docstring: None,
        module_name: "m".to_string(),
        imported_modules: vec![],
    }
}

fn struct_sig(name: &str) -> HirStructSignature {
    HirStructSignature {
        declaration_span: Span::default(),
        vis: HirVisibility::Public,
        flag: HirFlag::NoFlag,
        name: name.to_string(),
        pre_mangled_ty: None,
        name_span: Span::default(),
        methods: vec![],
        fields: vec![],
        generics: vec![],
        constants: vec![],
        destructor: None,
        had_user_defined_destructor: false,
        copy_constructor: None,
        move_constructor: None,
        is_std_copyable: false,
        is_std_default: false,
        is_trivially_copyable: false,
        is_instantiated: false,
        docstring: None,
        is_extern: false,
    }
}

fn keys(entries: &Vec<(String, atlas_77::hir::generic_pool::HirGenericInstance)>) -> Vec<String> {
    entries.iter().map(|(k, _)| k.clone()).collect()
}

#[test]
fn concrete_struct_instances_are_registered() {
    let m = module(vec![]);
    let mut pool = HirGenericPool::new();
    pool.register_struct_instance(generic("Vector", vec![int64()]), &m);
    assert_eq!(keys(&pool.structs), vec!["__atlas77__Vector__int64"]);
    let inst = &pool.structs[0].1;
    assert_eq!(inst.name, "Vector");
    assert_eq!(inst.args.len(), 1);
    assert!(!inst.is_done);
    pool.register_struct_instance(generic("Vector", vec![named("T")]), &m);
    assert_eq!(pool.structs.len(), 1);
    pool.register_struct_instance(generic("Vector", vec![ptr(named("U"), true)]), &m);
    assert_eq!(pool.structs.len(), 1);
}

#[test]
fn declared_one_letter_names_are_concrete() {
    let m = module(vec!["T"]);
    let mut pool = HirGenericPool::new();
    pool.register_struct_instance(generic("Vector", vec![named("T")]), &m);
    assert_eq!(keys(&pool.structs), vec!["__atlas77__Vector__T"]);
}

#[test]
fn nested_instances_are_registered_in_key_order() {
    let m = module(vec![]);
    let mut pool = HirGenericPool::new();
    let inner = generic("Vector", vec![HirTy::UnsignedInteger(HirUnsignedIntTy { size_in_bits: 64 })]);
    pool.register_struct_instance(generic("Box", vec![HirTy::Generic(inner)]), &m);
    assert_eq!(
        keys(&pool.structs),
        vec!["__atlas77__Box____atlas77__Vector__uint64", "__atlas77__Vector__uint64"]
    );
    let again = generic("Vector", vec![HirTy::UnsignedInteger(HirUnsignedIntTy { size_in_bits: 64 })]);
    pool.register_struct_instance(again, &m);
    assert_eq!(pool.structs.len(), 2);
    let half_generic = generic("Box", vec![HirTy::Generic(generic("Vector", vec![named("T")]))]);
    pool.register_struct_instance(half_generic, &m);
    assert_eq!(pool.structs.len(), 2);
}

#[test]
fn union_and_function_instances() {
    let mut m = module(vec![]);
    let mut pool = HirGenericPool::new();
    pool.register_union_instance(&generic("Option", vec![int64()]), &m);
    assert_eq!(keys(&pool.unions), vec!["__atlas77__Option__int64"]);
    pool.register_function_instance(generic("max", vec![int64()]), &m);
    assert_eq!(keys(&pool.functions), vec!["__atlas77__max__int64"]);
    m.functions.push((
        "ext".to_string(),
        HirFunctionSignature {
            span: Span::default(),
            vis: HirVisibility::Public,
            params: vec![],
            generics: vec![HirGenericConstraint { span: Span::default(), generic_name: "T".to_string(), kind: vec![] }],
            type_params: vec![],
            return_ty: HirTy::Unit(HirUnitTy {}),
            return_ty_span: None,
            is_external: true,
            is_intrinsic: false,
            pre_mangled_ty: None,
            docstring: None,
            is_instantiated: false,
        },
    ));
    pool.register_function_instance(generic("ext", vec![int64()]), &m);
    assert_eq!(pool.functions.len(), 1);
    pool.register_function_instance(generic("ext", vec![int64(), int64()]), &m);
    assert_eq!(pool.functions.len(), 2);
}

#[test]
fn copyable_types_and_constraints() {
    let m = module(vec![]);
    let pool = HirGenericPool::new();
    assert!(pool.implements_std_copyable(&m, &int64()));
    assert!(pool.implements_std_copyable(&m, &ptr(named("Foo"), false)));
    assert!(!pool.implements_std_copyable(&m, &named("Foo")));
    let sp = Span { start: 4, end: 9, path: "decl.atlas" };
    let constraints = vec![
        HirGenericConstraint {
            span: sp,
            generic_name: "T".to_string(),
            kind: vec![HirGenericConstraintKind::Std { name: "copyable".to_string(), span: sp }],
        },
        HirGenericConstraint {
            span: sp,
            generic_name: "U".to_string(),
            kind: vec![
                HirGenericConstraintKind::Concept { name: "Eq".to_string(), span: sp },
                HirGenericConstraintKind::Std { name: "hashable".to_string(), span: sp },
            ],
        },
    ];
    let inst = HirGenericTy { name: "Map".to_string(), inner: vec![int64(), named("Key")], span: Span { start: 1, end: 2, path: "use.atlas" } };
    let failures = pool.unsatisfied_constraints(&m, &inst, &constraints, sp);
    assert_eq!(failures.len(), 1);
    assert_eq!(failures[0].ty, "Key");
    assert_eq!(failures[0].constraint, "std::hashable");
    assert_eq!(failures[0].origin_path, "decl.atlas");
    assert_eq!(failures[0].span.path, "use.atlas");
    assert!(!pool.check_constraint_satisfaction(&m, &inst, &constraints, sp));
    let ok = HirGenericTy { name: "Map".to_string(), inner: vec![int64()], span: Span::default() };
    assert!(pool.check_constraint_satisfaction(&m, &ok, &constraints, sp));
    let not_copyable = HirGenericTy { name: "Map".to_string(), inner: vec![named("Foo")], span: Span::default() };
    assert!(!pool.check_constraint_satisfaction(&m, &not_copyable, &constraints, sp));
}

fn uint(bits: u8) -> HirTy {
    HirTy::UnsignedInteger(HirUnsignedIntTy { size_in_bits: bits })
}

fn signed(bits: u8) -> HirTy {
    HirTy::Integer(HirIntegerTy { size_in_bits: bits })
}

fn method() -> HirStructMethodSignature {
    HirStructMethodSignature {
        span: Span::default(),
        vis: HirVisibility::Public,
        modifier: HirStructMethodModifier::Const,
        params: vec![],
        generics: None,
        type_params: vec![],
        return_ty: HirTy::Unit(HirUnitTy {}),
        return_ty_span: None,
        where_clause: None,
        is_constraint_satisfied: true,
        docstring: None,
    }
}

fn checker_module() -> HirModuleSignature {
    let mut m = module(vec![]);
    let mut copy_only = struct_sig("Copied");
    copy_only.copy_constructor = Some(method());
    m.structs.push(("Copied".to_string(), copy_only));
    let mut move_only = struct_sig("Moved");
    move_only.move_constructor = Some(method());
    m.structs.push(("Moved".to_string(), move_only));
    m.enums.push((
        "Color".to_string(),
        HirEnum {
            span: Span::default(),
            name: "Color".to_string(),
            name_span: Span::default(),
            variants: vec![HirEnumVariant { span: Span::default(), name: "Red".to_string(), name_span: Span::default(), value: 0 }],
            vis: HirVisibility::Public,
            docstring: None,
        },
    ));
    m
}

fn fits(m: &HirModuleSignature, expected: &HirTy, found: &HirTy) -> Result<(), TypeRelationError> {
    is_equivalent_ty(m, expected, Span { start: 1, end: 2, path: "e" }, found, Span { start: 3, end: 4, path: "f" })
}

#[test]
fn types_fit_where_expected() {
    let m = checker_module();
    assert!(fits(&m, &signed(64), &signed(32)).is_ok());
    assert!(fits(&m, &uint(64), &uint(8)).is_ok());
    assert!(fits(&m, &HirTy::Float(HirFloatTy { size_in_bits: 64 }), &HirTy::Float(HirFloatTy { size_in_bits: 32 })).is_ok());
    assert!(fits(&m, &named("Color"), &uint(64)).is_ok());
    assert!(fits(&m, &uint(64), &named("Color")).is_ok());
    assert!(fits(&m, &named("__atlas77__Vec__int64"), &HirTy::Generic(generic("Vec", vec![int64()]))).is_ok());
    assert!(fits(&m, &ptr(int64(), true), &ptr(int64(), false)).is_ok());
    assert!(fits(&m, &named("Copied"), &ptr(named("Copied"), true)).is_ok());
    assert!(fits(&m, &ptr(named("Moved"), false), &named("Moved")).is_ok());
    assert!(fits(&m, &ptr(named("Anything"), true), &named("Anything")).is_ok());
    let arr = |n: usize| HirTy::InlineArray(HirInlineArrayTy { inner: Box::new(signed(64)), size: n });
    assert!(fits(&m, &arr(3), &arr(3)).is_ok());
    assert!(fits(&m, &named("Foo"), &named("Foo")).is_ok());
}

#[test]
fn type_errors_say_what_failed() {
    let m = checker_module();
    match fits(&m, &signed(32), &signed(64)) {
        Err(TypeRelationError::TypeMismatch { expected_ty, expected_span, found_ty, found_span }) => {
            assert_eq!(expected_ty, "int32");
            assert_eq!(found_ty, "int64");
            assert_eq!((expected_span.path, found_span.path), ("e", "f"));
        },
        other => panic!("unexpected {:?}", other),
    }
    assert!(matches!(fits(&m, &ptr(int64(), false), &ptr(int64(), true)), Err(TypeRelationError::TypeMismatch { .. })));
    assert!(matches!(fits(&m, &named("Moved"), &ptr(named("Moved"), true)), Err(TypeRelationError::TypeIsNotCopyable { .. })));
    match fits(&m, &ptr(named("Copied"), false), &named("Copied")) {
        Err(TypeRelationError::TypeIsNotMoveable { ty_name, span }) => {
            assert_eq!(ty_name, "Copied");
            assert_eq!(span.start, 3);
        },
        other => panic!("unexpected {:?}", other),
    }
    let arr = |n: usize, t: HirTy| HirTy::InlineArray(HirInlineArrayTy { inner: Box::new(t), size: n });
    assert!(matches!(fits(&m, &arr(3, signed(64)), &arr(4, signed(64))), Err(TypeRelationError::TypeMismatch { .. })));
    match fits(&m, &arr(2, signed(8)), &arr(2, signed(16))) {
        Err(TypeRelationError::TypeMismatch { expected_ty, found_ty, .. }) => {
            assert_eq!((expected_ty.as_str(), found_ty.as_str()), ("int8", "int16"));
        },
        other => panic!("unexpected {:?}", other),
    }
    assert!(matches!(fits(&m, &named("Color2"), &uint(64)), Err(TypeRelationError::TypeMismatch { .. })));
    assert!(matches!(fits(&m, &named("Foo"), &named("Bar")), Err(TypeRelationError::TypeMismatch { .. })));
}

#[test]
fn copyable_and_moveable_types() {
    let m = checker_module();
    assert!(int64().is_copyable(&m));
    assert!(ptr(named("X"), true).is_moveable(&m));
    assert!(named("Copied").is_copyable(&m));
    assert!(!named("Copied").is_moveable(&m));
    assert!(named("Moved").is_moveable(&m));
    assert!(HirTy::Generic(generic("Moved", vec![int64()])).is_moveable(&m));
    assert!(!named("Unknown").is_copyable(&m));
}

#[test]
fn changing_a_generic_parameter_registers_instances() {
    let mut m = module(vec!["Vec"]);
    m.unions.push((
        "Opt".to_string(),
        atlas_77::hir::signature::HirUnionSignature {
            declaration_span: Span::default(),
            vis: HirVisibility::Public,
            name: "Opt".to_string(),
            name_span: Span::default(),
            variants: vec![],
            generics: vec![],
            pre_mangled_ty: None,
            docstring: None,
            is_instantiated: false,
        },
    ));
    let mut pass = MonomorphizationPass::new(HirGenericPool::new());
    let vec_t = HirTy::Generic(generic("Vec", vec![named("T")]));
    let changed = pass.change_inner_type(&vec_t, "T", &int64(), &m);
    assert_eq!(changed.to_string(), "Vec<int64>");
    assert_eq!(keys(&pass.generic_pool.structs), vec!["__atlas77__Vec__int64"]);
    let opt_ptr = ptr(HirTy::Generic(generic("Opt", vec![named("T")])), true);
    let changed = pass.change_inner_type(&opt_ptr, "T", &named("Foo"), &m);
    assert_eq!(changed.to_string(), "*const Opt<Foo>");
    assert_eq!(keys(&pass.generic_pool.unions), vec!["__atlas77__Opt__Foo"]);
    let unknown = HirTy::Generic(generic("Other", vec![named("T"), named("U")]));
    let changed = pass.change_inner_type(&unknown, "U", &int64(), &m);
    assert_eq!(changed.to_string(), "Other<T, int64>");
    assert_eq!(pass.generic_pool.structs.len(), 1);
    assert_eq!(pass.generic_pool.unions.len(), 1);
}

#[test]
fn where_constraints_on_methods() {
    let m = module(vec![]);
    let pass = MonomorphizationPass::new(HirGenericPool::new());
    let sp = Span::default();
    let param = |n: &str| HirGenericConstraint { span: sp, generic_name: n.to_string(), kind: vec![] };
    let struct_generics = vec![param("T"), param("U")];
    let copyable_u = vec![HirGenericConstraint {
        span: sp,
        generic_name: "U".to_string(),
        kind: vec![HirGenericConstraintKind::Std { name: "copyable".to_string(), span: sp }],
    }];
    let pair = |a: HirTy, b: HirTy| generic("Pair", vec![a, b]);
    assert!(pass.check_where_constraints_on_method(&copyable_u, &struct_generics, &pair(int64(), int64()), &m));
    assert!(!pass.check_where_constraints_on_method(&copyable_u, &struct_generics, &pair(int64(), named("Foo")), &m));
    assert!(!pass.check_where_constraints_on_method(&copyable_u, &struct_generics, &generic("Pair", vec![int64()]), &m));
    let on_other = vec![HirGenericConstraint {
        span: sp,
        generic_name: "V".to_string(),
        kind: vec![HirGenericConstraintKind::Std { name: "copyable".to_string(), span: sp }],
    }];
    assert!(pass.check_where_constraints_on_method(&on_other, &struct_generics, &pair(int64(), named("Foo")), &m));
    assert!(pass.check_where_constraints_on_method(&vec![], &struct_generics, &pair(int64(), named("Foo")), &m));
}

#[test]
fn type_checker_helpers() {
    let m = checker_module();
    let arr = HirTy::InlineArray(HirInlineArrayTy { inner: Box::new(ptr(named("T"), true)), size: 4 });
    assert_eq!(get_type_display_name(&arr), "[*const T; 4]");
    assert_eq!(get_type_display_name(&HirTy::Generic(generic("Map", vec![signed(8), uint(16)]))), "Map<int64, uint64>");
    assert_eq!(get_type_display_name(&HirTy::Generic(generic("Unit", vec![]))), "Unit<>");
    assert_eq!(get_type_display_name(&HirTy::Unit(HirUnitTy {})), "unit");
    assert_eq!(get_class_name_of_type(&m, &ptr(named("Copied"), false)).as_deref(), Some("Copied"));
    assert_eq!(get_class_name_of_type(&m, &HirTy::Generic(generic("Vec", vec![int64()]))), None);
    let mut with_vec = checker_module();
    with_vec.structs.push(("__atlas77__Vec__int64".to_string(), struct_sig("__atlas77__Vec__int64")));
    assert_eq!(
        get_class_name_of_type(&with_vec, &HirTy::Generic(generic("Vec", vec![int64()]))).as_deref(),
        Some("__atlas77__Vec__int64")
    );
    assert_eq!(get_class_name_of_type(&m, &int64()), None);
    let slice_of_ptr = HirTy::Slice(HirSliceTy { inner: Box::new(ptr(named("T"), false)) });
    assert_eq!(get_generic_name(&slice_of_ptr).map(|s| s.as_str()), Some("T"));
    assert_eq!(get_generic_name(&int64()), None);
    assert_eq!(get_generic_ret_ty(&slice_of_ptr, &uint(32)).to_string(), "[*uint32]");
    assert_eq!(get_generic_ret_ty(&named("T"), &uint(32)).to_string(), "uint32");
    assert_eq!(get_generic_ty(&ptr(named("T"), true), &ptr(int64(), false)).map(|t| t.to_string()), Some("int64".to_string()));
    assert_eq!(get_generic_ty(&named("T"), &ptr(int64(), false)).map(|t| t.to_string()), Some("*int64".to_string()));
    assert!(get_generic_ty(&slice_of_ptr, &int64()).is_none());
    assert!(is_arithmetic_type(&HirTy::Float(HirFloatTy { size_in_bits: 32 })));
    assert!(!is_arithmetic_type(&HirTy::Boolean(HirBooleanTy {})));
    assert!(is_orderable_type(&uint(8)));
    assert!(is_equality_comparable(&m, &HirTy::Boolean(HirBooleanTy {})));
    assert!(is_equality_comparable(&m, &named("Color")));
    assert!(!is_equality_comparable(&m, &named("Copied")));
}

#[test]
fn nullable_ids_differ_from_their_inner_type() {
    let inner = HirTyId::from(&int64());
    let nullable = HirTyId::compute_nullable_ty_id(&inner);
    assert!(nullable.same_as(&HirTyId::compute_nullable_ty_id(&HirTyId::from(&int64()))));
    assert!(!nullable.same_as(&inner));
}

fn field(name: &str, ty: HirTy, start: usize) -> HirStructFieldSignature {
    HirStructFieldSignature {
        span: Span { start, end: start + 1, path: "s.atlas" },
        vis: HirVisibility::Public,
        name: name.to_string(),
        name_span: Span::default(),
        ty,
        ty_span: Span::default(),
        docstring: None,
    }
}

fn with_fields(name: &str, fields: Vec<HirStructFieldSignature>) -> HirStructSignature {
    let mut s = struct_sig(name);
    s.fields = fields.into_iter().map(|f| (f.name.clone(), f)).collect();
    s
}

#[test]
fn structs_holding_themselves_are_found() {
    let mut m = module(vec![]);
    m.structs.push(("A".to_string(), with_fields("A", vec![field("b", named("B"), 10)])));
    m.structs.push(("B".to_string(), with_fields("B", vec![field("n", int64(), 20), field("a", named("A"), 30)])));
    m.structs.push(("Node".to_string(), with_fields("Node", vec![field("next", ptr(named("Node"), false), 40)])));
    let a = with_fields("A", vec![field("b", named("B"), 10)]);
    let path = struct_field_cycle(&m, &vec![field("b", named("B"), 10)], &a, "A").unwrap();
    let texts: Vec<(String, usize)> = path.iter().map(|l| (l.label.clone(), l.span.start)).collect();
    assert_eq!(
        texts,
        vec![
            ("→ field of type `B`".to_string(), 10),
            ("field of type `A` completes the cycle back to `A`".to_string(), 30),
        ]
    );
    let node = with_fields("Node", vec![field("next", ptr(named("Node"), false), 40)]);
    assert!(struct_field_cycle(&m, &vec![field("next", ptr(named("Node"), false), 40)], &node, "Node").is_none());
    let mut visited = vec!["B".to_string()];
    let mut path = Vec::new();
    assert!(!has_cyclic_reference(&m, &named("B"), &a, "A", &mut visited, &mut path, Span::default()));
    assert_eq!(visited, vec!["B".to_string()]);
    assert!(path.is_empty());
}

#[test]
fn generic_instances_close_cycles_by_mangled_name() {
    let mut m = module(vec![]);
    let target = with_fields("__atlas77__Box__int64", vec![]);
    let pair = with_fields("Pair", vec![field("inner", HirTy::Generic(generic("Box", vec![int64()])), 5)]);
    m.structs.push(("Pair".to_string(), pair));
    let mut visited = Vec::new();
    let mut path = Vec::new();
    assert!(has_cyclic_reference(&m, &named("Pair"), &target, "Box<int64>", &mut visited, &mut path, Span::default()));
    assert_eq!(path.len(), 2);
    assert_eq!(path[1].label, "field of type `Box<int64>` completes the cycle back to `Box<int64>`");
    assert_eq!(path[1].span.start, 5);
}

#[test]
fn lowering_generic_types_registers_concrete_instances() {
    let m = module(vec![]);
    let mut pool = HirGenericPool::new();
    let boxed = || HirTy::Generic(generic("Box", vec![int64()]));
    let ty = register_generic_type(&mut pool, &m, &generic("Vec", vec![boxed()]));
    assert_eq!(ty.to_string(), "Vec<Box<int64>>");
    assert_eq!(keys(&pool.structs), vec!["__atlas77__Box__int64", "__atlas77__Vec____atlas77__Box__int64"]);

    let mut pool = HirGenericPool::new();
    let ty = register_generic_type(&mut pool, &m, &generic("Vec", vec![named("T")]));
    assert_eq!(ty.to_string(), "Vec<T>");
    assert!(pool.structs.is_empty());

    let ty = register_generic_type(&mut pool, &m, &generic("Map", vec![named("K"), boxed()]));
    assert_eq!(ty.to_string(), "Map<K, Box<int64>>");
    assert_eq!(keys(&pool.structs), vec!["__atlas77__Box__int64"]);
}

fn function_returning(ret: HirTy) -> HirFunctionSignature {
    HirFunctionSignature {
        span: Span::default(),
        vis: HirVisibility::Public,
        params: vec![],
        generics: vec![],
        type_params: vec![],
        return_ty: ret,
        return_ty_span: None,
        is_external: false,
        is_intrinsic: false,
        pre_mangled_ty: None,
        docstring: None,
        is_instantiated: false,
    }
}

#[test]
fn function_signatures_are_found_in_imported_modules() {
    let mut inner = module(vec![]);
    inner.functions.push(("helper".to_string(), function_returning(int64())));
    inner.functions.push(("shared".to_string(), function_returning(int64())));
    let mut outer = module(vec![]);
    outer.functions.push(("main".to_string(), function_returning(HirTy::Unit(HirUnitTy {}))));
    outer.functions.push(("shared".to_string(), function_returning(named("Own"))));
    outer.imported_modules.push(("inner".to_string(), inner));

    let own = find_function_signature_in_module(&outer, "main").unwrap();
    assert_eq!(own.return_ty.to_string(), "unit");
    let imported = find_function_signature_in_module(&outer, "helper").unwrap();
    assert_eq!(imported.return_ty.to_string(), "int64");
    let shadowed = find_function_signature_in_module(&outer, "shared").unwrap();
    assert_eq!(shadowed.return_ty.to_string(), "Own");
    assert!(find_function_signature_in_module(&outer, "missing").is_none());
}

#[test]
fn clearing_generics_keeps_only_instantiated_items() {
    let mut m = module(vec!["Vec"]);
    let mut concrete = struct_sig("__atlas77__Vec__int64");
    concrete.is_instantiated = true;
    let mut template = method();
    template.generics = Some(vec![HirGenericConstraint { span: Span::default(), generic_name: "U".to_string(), kind: vec![] }]);
    concrete.methods.push(("push".to_string(), method()));
    concrete.methods.push(("map".to_string(), template));
    concrete.methods.push(("len".to_string(), method()));
    m.structs.push(("__atlas77__Vec__int64".to_string(), concrete));
    let mut plain = struct_sig("Plain");
    plain.is_instantiated = true;
    m.structs.push(("Plain".to_string(), plain));

    let mut main_fn = function_returning(int64());
    main_fn.is_instantiated = true;
    let mut printf = function_returning(int64());
    printf.is_external = true;
    m.functions.push(("max".to_string(), function_returning(int64())));
    m.functions.push(("main".to_string(), main_fn));
    m.functions.push(("helper".to_string(), function_returning(int64())));
    m.functions.push(("printf".to_string(), printf));

    let union_sig = |name: &str, instantiated: bool| atlas_77::hir::signature::HirUnionSignature {
        declaration_span: Span::default(),
        vis: HirVisibility::Public,
        name: name.to_string(),
        name_span: Span::default(),
        variants: vec![],
        generics: vec![],
        pre_mangled_ty: None,
        docstring: None,
        is_instantiated: instantiated,
    };
    m.unions.push(("Opt".to_string(), union_sig("Opt", false)));
    m.unions.push(("__atlas77__Opt__int64".to_string(), union_sig("__atlas77__Opt__int64", true)));

    let mut pass = MonomorphizationPass::new(HirGenericPool::new());
    pass.generic_pool.register_struct_instance(generic("Vec", vec![int64()]), &m);
    pass.generic_pool.register_function_instance(generic("max", vec![int64()]), &m);
    pass.generic_pool.register_union_instance(&generic("Opt", vec![int64()]), &m);
    pass.clear_generic(&mut m);

    let names = |v: Vec<String>| v;
    assert_eq!(names(m.structs.iter().map(|(k, _)| k.clone()).collect()), vec!["__atlas77__Vec__int64", "Plain"]);
    let methods: Vec<String> = m.structs[0].1.methods.iter().map(|(k, _)| k.clone()).collect();
    assert_eq!(methods, vec!["push", "len"]);
    assert_eq!(names(m.functions.iter().map(|(k, _)| k.clone()).collect()), vec!["main", "printf"]);
    assert_eq!(names(m.unions.iter().map(|(k, _)| k.clone()).collect()), vec!["__atlas77__Opt__int64"]);
    assert_eq!(pass.generic_pool.structs.len(), 1);
    pass.clear_generic(&mut m);
    assert_eq!(names(m.structs.iter().map(|(k, _)| k.clone()).collect()), vec!["__atlas77__Vec__int64", "Plain"]);
    assert_eq!(m.structs[0].1.methods.len(), 2);
    assert_eq!(names(m.functions.iter().map(|(k, _)| k.clone()).collect()), vec!["main", "printf"]);
    assert_eq!(m.unions.len(), 1);
}

#[test]
fn variables_of_the_function_being_checked() {
    let mut contexts = TypeCheckContexts { context_functions: vec![], current_func_name: None };
    assert!(contexts.is_local_variable("x"));
    assert!(contexts.get_ptrs_to_locals("x").is_empty());
    assert!(matches!(contexts.insert_new_variable(var("x", false)), Err(ContextError::UnknownIdentifier { .. })));

    let mut main_ctx = ContextFunction::new();
    main_ctx.insert("p", var("p", true));
    contexts.context_functions.push(vec![("main".to_string(), main_ctx)]);
    contexts.current_func_name = Some("main".to_string());
    assert!(!contexts.is_local_variable("p"));
    assert!(contexts.is_local_variable("unknown"));

    let mut holder = var("r", false);
    holder.ptrs_to_locals = vec!["x".to_string()];
    holder.name_span = Span { start: 30, end: 31, path: "f.atlas" };
    assert!(contexts.insert_new_variable(holder).is_ok());
    assert!(contexts.is_local_variable("r"));
    assert_eq!(contexts.get_ptrs_to_locals("r"), vec!["x".to_string()]);
    assert_eq!(contexts.get_ident_ty("r", Span::default()).ok().unwrap().name, "r");

    let mut again = var("r", false);
    again.name_span = Span { start: 50, end: 51, path: "f.atlas" };
    match contexts.insert_new_variable(again) {
        Err(ContextError::VariableNameAlreadyDefined { name, first_definition_span, second_definition_span }) => {
            assert_eq!(name, "r");
            assert_eq!(first_definition_span.start, 30);
            assert_eq!(second_definition_span.start, 50);
        },
        _ => panic!("a second definition must be refused"),
    }
    match contexts.get_ident_ty("missing", Span { start: 7, end: 14, path: "f.atlas" }) {
        Err(ContextError::UnknownIdentifier { name, span }) => {
            assert_eq!(name, "missing");
            assert_eq!(span.start, 7);
        },
        _ => panic!("an unknown identifier must be refused"),
    }

    contexts.current_func_name = Some("other".to_string());
    assert!(matches!(contexts.insert_new_variable(var("y", false)), Err(ContextError::UnknownIdentifier { .. })));
}

fn union_of(variant_tys: Vec<HirTy>) -> atlas_77::hir::item::HirUnion {
    let variants: Vec<HirStructFieldSignature> =
        variant_tys.into_iter().enumerate().map(|(i, t)| field(&format!("v{}", i), t, 10 * (i + 1))).collect();
    atlas_77::hir::item::HirUnion {
        span: Span::default(),
        name: "Value".to_string(),
        name_span: Span { start: 3, end: 8, path: "u.atlas" },
        variants,
        signature: atlas_77::hir::signature::HirUnionSignature {
            declaration_span: Span::default(),
            vis: HirVisibility::Public,
            name: "Value".to_string(),
            name_span: Span::default(),
            variants: vec![],
            generics: vec![],
            pre_mangled_ty: None,
            docstring: None,
            is_instantiated: true,
        },
        vis: HirVisibility::Public,
        pre_mangled_ty: None,
    }
}

#[test]
fn unions_need_distinct_variant_types() {
    match check_union(&union_of(vec![int64()])) {
        Err(UnionCheckError::UnionMustHaveAtLeastTwoVariant { union_name, span }) => {
            assert_eq!(union_name, "Value");
            assert_eq!(span.start, 3);
        },
        _ => panic!("one variant is too few"),
    }
    assert!(check_union(&union_of(vec![int64(), uint(64), named("Foo")])).is_ok());
    match check_union(&union_of(vec![int64(), named("Foo"), uint(8), named("Foo"), int64()])) {
        Err(UnionCheckError::UnionVariantDefinedMultipleTimes { union_name, variant_ty, first_span, second_span }) => {
            assert_eq!(union_name, "Value");
            assert_eq!(variant_ty, "Foo");
            assert_eq!((first_span.start, second_span.start), (20, 40));
        },
        _ => panic!("a repeated variant type must be refused"),
    }
}

fn opt_template() -> atlas_77::hir::item::HirUnion {
    let gen_t = vec![HirGenericConstraint { span: Span::default(), generic_name: "T".to_string(), kind: vec![] }];
    let vec_t = HirTy::Generic(generic("Vec", vec![named("T")]));
    atlas_77::hir::item::HirUnion {
        span: Span::default(),
        name: "Opt".to_string(),
        name_span: Span { start: 6, end: 9, path: "opt.atlas" },
        variants: vec![field("some", named("T"), 10), field("many", vec_t, 20)],
        signature: atlas_77::hir::signature::HirUnionSignature {
            declaration_span: Span::default(),
            vis: HirVisibility::Public,
            name: "Opt".to_string(),
            name_span: Span { start: 6, end: 9, path: "opt.atlas" },
            variants: vec![
                ("many".to_string(), field("many", HirTy::Generic(generic("Vec", vec![named("T")])), 20)),
                ("some".to_string(), field("some", named("T"), 10)),
            ],
            generics: gen_t,
            pre_mangled_ty: None,
            docstring: None,
            is_instantiated: false,
        },
        vis: HirVisibility::Public,
        pre_mangled_ty: None,
    }
}

#[test]
fn generic_unions_are_instantiated() {
    let mut m = module(vec!["Vec"]);
    let mut body_unions: Vec<(String, atlas_77::hir::item::HirUnion)> = vec![];
    let mut pass = MonomorphizationPass::new(HirGenericPool::new());
    let actual = generic("Opt", vec![int64()]);
    let t = pass
        .monomorphize_union(&mut m, &mut body_unions, opt_template(), &actual, "__atlas77__Opt__int64", Span::default())
        .ok()
        .unwrap();
    assert_eq!(t.to_string(), "__atlas77__Opt__int64");
    assert_eq!(m.unions.len(), 1);
    let sig = &m.unions[0].1;
    assert_eq!(m.unions[0].0, "__atlas77__Opt__int64");
    assert_eq!(sig.name, "__atlas77__Opt__int64");
    assert!(sig.is_instantiated);
    assert!(sig.generics.is_empty());
    assert_eq!(sig.variants[0].1.ty.to_string(), "Vec<int64>");
    assert_eq!(sig.variants[1].1.ty.to_string(), "int64");
    assert_eq!(sig.pre_mangled_ty.as_ref().unwrap().name, "Opt");
    let u = &body_unions[0].1;
    assert_eq!(u.variants[0].ty.to_string(), "int64");
    assert_eq!(u.variants[0].name, "some");
    assert_eq!(keys(&pass.generic_pool.structs), vec!["__atlas77__Vec__int64"]);

    let wrong = generic("Opt", vec![int64(), int64()]);
    let e = pass
        .monomorphize_union(&mut m, &mut body_unions, opt_template(), &wrong, "__atlas77__Opt__int64_int64", Span { start: 40, end: 41, path: "use.atlas" })
        .err()
        .unwrap();
    assert_eq!((e.ty_name.as_str(), e.found, e.expected), ("Opt", 2, 1));
    assert_eq!((e.error_span.start, e.declaration_span.start), (40, 6));
    assert_eq!(m.unions.len(), 1);
}

#[test]
fn fields_of_struct_instances_get_the_actual_types() {
    let m = module(vec!["Node"]);
    let mut pass = MonomorphizationPass::new(HirGenericPool::new());
    let node_t = HirTy::PtrTy(HirPtrTy { inner: Box::new(HirTy::Generic(generic("Node", vec![named("T")]))), is_const: false, span: Span::default() });
    let mut sig = with_fields("Node", vec![field("value", named("T"), 1), field("next", node_t, 2)]);
    let generics = vec![HirGenericConstraint { span: Span::default(), generic_name: "T".to_string(), kind: vec![] }];
    pass.monomorphize_fields(&mut sig, &generics, &generic("Node", vec![uint(8)]), &m);
    assert_eq!(sig.fields[0].1.ty.to_string(), "uint8");
    assert_eq!(sig.fields[1].1.ty.to_string(), "*Node<uint8>");
    assert_eq!(sig.fields[1].0, "next");
    assert_eq!(keys(&pass.generic_pool.structs), vec!["__atlas77__Node__uint64"]);
}

fn union_holding(name: &str, variants: Vec<(&str, HirTy)>) -> atlas_77::hir::signature::HirUnionSignature {
    atlas_77::hir::signature::HirUnionSignature {
        declaration_span: Span::default(),
        vis: HirVisibility::Public,
        name: name.to_string(),
        name_span: Span::default(),
        variants: variants.into_iter().map(|(n, t)| (n.to_string(), field(n, t, 50))).collect(),
        generics: vec![],
        pre_mangled_ty: None,
        docstring: None,
        is_instantiated: true,
    }
}

#[test]
fn one_variant_unions_are_searched_for_cycles() {
    let mut m = module(vec![]);
    m.unions.push(("U".to_string(), union_holding("U", vec![("s", named("S"))])));
    m.unions.push(("W".to_string(), union_holding("W", vec![("s", named("S")), ("n", int64())])));
    let s = with_fields("S", vec![field("u", named("U"), 10)]);
    let mut visited = Vec::new();
    let mut path = Vec::new();
    assert!(has_cyclic_reference(&m, &named("U"), &s, "S", &mut visited, &mut path, Span::default()));
    assert_eq!(path.len(), 2);
    assert_eq!(path[1].span.start, 50);
    let mut visited = Vec::new();
    let mut path = Vec::new();
    assert!(!has_cyclic_reference(&m, &named("W"), &s, "S", &mut visited, &mut path, Span::default()));
    assert!(path.is_empty());
}

#[test]
fn bindings_made_in_a_scope_go_with_it() {
    let mut ctx = ContextFunction::new();
    ctx.insert("a", var("a", true));
    let opened = ctx.new_scope();
    ctx.insert("a", var("a", false));
    ctx.insert("b", var("b", false));
    ctx.insert("c", var("c", false));
    assert!(!ctx.get("a").unwrap().is_param);
    let closed = ctx.end_scope();
    assert_eq!(opened, closed);
    assert!(ctx.get("a").unwrap().is_param);
    assert!(ctx.get("b").is_none());
    assert!(ctx.get("c").is_none());
}

#[test]
fn c_names_are_identifiers() {
    let f = HirTy::Function(atlas_77::hir::ty::HirFunctionTy {
        ret_ty: Box::new(ptr(HirTy::Generic(generic("Vec", vec![named("T")])), false)),
        params: vec![HirTy::InlineArray(HirInlineArrayTy { inner: Box::new(uint(8)), size: 16 }), ptr(named("Node"), true)],
        span: Span::default(),
    });
    let name = f.get_valid_c_string();
    assert_eq!(name, "fn_inlinearr_uint64_16_Node_cstptr_ret_Vec_T_ptr");
    assert!(name.chars().next().unwrap().is_ascii_alphabetic());
    assert!(name.chars().all(|c| c.is_ascii_alphanumeric() || c == '_'));
}

#[test]
fn union_instances_stay_in_name_order_in_the_signature() {
    let mut m = module(vec!["Vec"]);
    let mut body_unions: Vec<(String, atlas_77::hir::item::HirUnion)> = vec![];
    let mut pass = MonomorphizationPass::new(HirGenericPool::new());
    pass.monomorphize_union(&mut m, &mut body_unions, opt_template(), &generic("Opt", vec![uint(8)]), "__atlas77__Opt__uint8", Span::default())
        .ok()
        .unwrap();
    pass.monomorphize_union(&mut m, &mut body_unions, opt_template(), &generic("Opt", vec![int64()]), "__atlas77__Opt__int64", Span::default())
        .ok()
        .unwrap();
    let names: Vec<&str> = m.unions.iter().map(|e| e.0.as_str()).collect();
    assert_eq!(names, vec!["__atlas77__Opt__int64", "__atlas77__Opt__uint8"]);
    assert_eq!(body_unions.len(), 2);
}

#[test]
fn sorted_entries_take_new_keys_in_order_and_replace_old_ones() {
    let mut v: Vec<(String, u32)> = vec![("a".to_string(), 1), ("c".to_string(), 3)];
    set_entry_sorted(&mut v, "b".to_string(), 2);
    set_entry_sorted(&mut v, "c".to_string(), 30);
    set_entry_sorted(&mut v, "d".to_string(), 4);
    set_entry_sorted(&mut v, "0".to_string(), 0);
    let got: Vec<(&str, u32)> = v.iter().map(|e| (e.0.as_str(), e.1)).collect();
    assert_eq!(got, vec![("0", 0), ("a", 1), ("b", 2), ("c", 30), ("d", 4)]);
}
