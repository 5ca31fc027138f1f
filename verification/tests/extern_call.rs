use atlas_77::hir::extern_call::{check_extern_fn, monomorphize_extern_signature, ExternInstance};
use atlas_77::hir::signature::{HirFunctionParameterSignature, HirFunctionSignature, HirGenericConstraint, HirVisibility};
use atlas_77::hir::ty::{HirIntegerTy, HirNamedTy, HirPtrTy, HirSliceTy, HirTy, HirUnitTy, HirUnsignedIntTy};
use atlas_77::utils::Span;

fn at(start: usize) -> Span {
    Span { start, end: start + 1, path: "call.atlas" }
}

fn int64() -> HirTy {
    HirTy::Integer(HirIntegerTy { size_in_bits: 64 })
}

fn named(n: &str) -> HirTy {
    HirTy::Named(HirNamedTy { name: n.to_string(), span: Span::default() })
}

fn param(name: &str, ty: HirTy, start: usize) -> HirFunctionParameterSignature {
    HirFunctionParameterSignature { span: at(start), name: name.to_string(), name_span: at(start), ty, ty_span: at(start) }
}

fn extern_fn(generics: &[&str], params: Vec<HirFunctionParameterSignature>, ret: HirTy) -> HirFunctionSignature {
    HirFunctionSignature {
        span: at(100),
        vis: HirVisibility::Public,
        params,
        generics: generics
            .iter()
            .map(|g| HirGenericConstraint { span: Span::default(), generic_name: g.to_string(), kind: vec![] })
            .collect(),
        type_params: vec![],
        return_ty: ret,
        return_ty_span: None,
        is_external: true,
        is_intrinsic: false,
        pre_mangled_ty: None,
        docstring: None,
        is_instantiated: false,
    }
}

#[test]
fn generic_parameters_are_inferred_from_arguments() {
    let sig = extern_fn(&["T"], vec![param("x", named("T"), 5), param("y", named("T"), 9)], named("T"));
    let m = monomorphize_extern_signature(sig, &vec![], &vec![int64()], &vec![at(50)], at(40)).ok().unwrap();
    assert_eq!(m.params.len(), 1);
    assert_eq!(m.params[0].name, "x");
    assert_eq!(m.params[0].ty.to_string(), "int64");
    assert_eq!(m.return_ty.to_string(), "int64");
    assert!(m.generics.is_empty());
    assert!(m.is_external);
}

#[test]
fn explicit_type_arguments_bind_in_order() {
    let count = HirTy::UnsignedInteger(HirUnsignedIntTy { size_in_bits: 64 });
    let ret = HirTy::PtrTy(HirPtrTy { inner: Box::new(named("T")), is_const: false, span: Span::default() });
    let sig = extern_fn(&["T"], vec![param("n", count, 5)], ret);
    let m = monomorphize_extern_signature(sig, &vec![int64()], &vec![HirTy::UnsignedInteger(HirUnsignedIntTy { size_in_bits: 64 })], &vec![at(50)], at(40))
        .ok()
        .unwrap();
    assert_eq!(m.params[0].ty.to_string(), "uint64");
    assert_eq!(m.return_ty.to_string(), "*int64");
}

#[test]
fn refused_calls_say_why() {
    let slice_t = HirTy::Slice(HirSliceTy { inner: Box::new(named("T")) });
    let sig = extern_fn(&["T"], vec![param("xs", slice_t, 7)], named("T"));
    let e = monomorphize_extern_signature(sig, &vec![], &vec![int64()], &vec![at(50)], at(40)).err().unwrap();
    assert_eq!(e.expected_ty, "int64");
    assert_eq!(e.span.start, 50);
    assert_eq!(e.actual_ty, "[T]");
    assert_eq!(e.actual_span.start, 7);

    let sig = extern_fn(&["T"], vec![], named("T"));
    let e = monomorphize_extern_signature(sig, &vec![], &vec![], &vec![], at(40)).err().unwrap();
    assert_eq!(e.expected_ty, "parameterless generic function");
    assert_eq!(e.span.start, 40);
    assert_eq!(e.actual_ty, "explicit type arguments (e.g., `function::<Int64>()`)");
    assert_eq!(e.actual_span.start, 100);

    let sig = extern_fn(&[], vec![], named("Foo"));
    let e = monomorphize_extern_signature(sig, &vec![], &vec![], &vec![], at(40)).err().unwrap();
    assert_eq!(e.expected_ty, "generic parameter `Foo` should be inferred from function arguments");
    assert_eq!(e.span.start, 100);
    assert_eq!(e.actual_ty, "inferred type for `Foo` from the return type `Foo`");
    assert_eq!(e.actual_span.start, 40);
}

#[test]
fn calls_are_recorded_once() {
    let mut cache: Vec<ExternInstance> = Vec::new();
    let sig = extern_fn(&["T"], vec![param("x", named("T"), 5)], named("T"));
    let t = check_extern_fn(&mut cache, "id", &vec![], vec![int64()], &vec![at(50)], at(40), sig).ok().unwrap();
    assert_eq!(t.to_string(), "int64");
    assert_eq!(cache.len(), 1);
    assert_eq!(cache[0].name, "id");
    let other = extern_fn(&[], vec![param("x", int64(), 5)], HirTy::Unit(HirUnitTy {}));
    let t = check_extern_fn(&mut cache, "id", &vec![], vec![int64()], &vec![at(60)], at(45), other).ok().unwrap();
    assert_eq!(t.to_string(), "int64");
    assert_eq!(cache.len(), 1);
    let unit_fn = extern_fn(&[], vec![], HirTy::Unit(HirUnitTy {}));
    let t = check_extern_fn(&mut cache, "flush", &vec![], vec![], &vec![], at(70), unit_fn).ok().unwrap();
    assert_eq!(t.to_string(), "unit");
    assert_eq!(cache.len(), 2);
    let bad = extern_fn(&[], vec![], named("Foo"));
    assert!(check_extern_fn(&mut cache, "make", &vec![], vec![], &vec![], at(80), bad).is_err());
    assert_eq!(cache.len(), 2);
}
