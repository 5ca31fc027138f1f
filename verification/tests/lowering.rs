use atlas_77::hir::lowering::{merge_generic_constraints, method_returns_self};
use atlas_77::hir::signature::{
    HirGenericConstraint, HirGenericConstraintKind, HirStructMethodModifier, HirStructMethodSignature, HirVisibility,
};
use atlas_77::hir::ty::{HirGenericTy, HirNamedTy, HirTy, HirUnitTy};
use atlas_77::utils::Span;

fn at(start: usize) -> Span {
    Span { start, end: start + 1, path: "m.atlas" }
}

fn std_kind(n: &str) -> HirGenericConstraintKind {
    HirGenericConstraintKind::Std { name: n.to_string(), span: at(1) }
}

fn concept(n: &str) -> HirGenericConstraintKind {
    HirGenericConstraintKind::Concept { name: n.to_string(), span: at(2) }
}

fn op(n: &str) -> HirGenericConstraintKind {
    HirGenericConstraintKind::Operator { op: n.to_string(), span: at(3) }
}

fn generic(name: &str, start: usize, kind: Vec<HirGenericConstraintKind>) -> HirGenericConstraint {
    HirGenericConstraint { span: at(start), generic_name: name.to_string(), kind }
}

fn kinds(g: &HirGenericConstraint) -> Vec<String> {
    g.kind.iter().map(|k| k.to_string()).collect()
}

#[test]
fn where_constraints_join_method_generics() {
    let method = Some(vec![generic("T", 10, vec![std_kind("copyable")])]);
    let wc = Some(vec![
        generic("T", 20, vec![concept("Show")]),
        generic("U", 30, vec![std_kind("default")]),
        generic("T", 40, vec![op("Add")]),
    ]);
    let (merged, rest) = merge_generic_constraints(method, wc);
    let merged = merged.unwrap();
    assert_eq!(merged.len(), 1);
    assert_eq!(merged[0].generic_name, "T");
    assert_eq!(merged[0].span.start, 10);
    assert_eq!(kinds(&merged[0]), vec!["std::copyable", "Show", "operator Add"]);
    let rest = rest.unwrap();
    assert_eq!(rest.len(), 1);
    assert_eq!(rest[0].generic_name, "U");
    assert_eq!(kinds(&rest[0]), vec!["std::default"]);
}

#[test]
fn empty_lists_become_none_only_with_a_where_clause() {
    let (merged, rest) = merge_generic_constraints(Some(vec![]), None);
    assert_eq!(merged.unwrap().len(), 0);
    assert!(rest.is_none());
    let (merged, rest) = merge_generic_constraints(Some(vec![]), Some(vec![generic("T", 5, vec![])]));
    assert!(merged.is_none());
    assert_eq!(rest.unwrap()[0].generic_name, "T");
    let (merged, rest) = merge_generic_constraints(None, Some(vec![generic("U", 5, vec![concept("Eq")])]));
    assert!(merged.is_none());
    assert_eq!(kinds(&rest.unwrap()[0]), vec!["Eq"]);
    let method = Some(vec![generic("T", 10, vec![]), generic("V", 11, vec![])]);
    let (merged, rest) = merge_generic_constraints(method, Some(vec![generic("V", 12, vec![concept("Hash")])]));
    let merged = merged.unwrap();
    assert!(kinds(&merged[0]).is_empty());
    assert_eq!(kinds(&merged[1]), vec!["Hash"]);
    assert!(rest.is_none());
}

fn returning(ret: HirTy) -> HirStructMethodSignature {
    HirStructMethodSignature {
        span: Span::default(),
        vis: HirVisibility::Public,
        modifier: HirStructMethodModifier::Static,
        params: vec![],
        generics: None,
        type_params: vec![],
        return_ty: ret,
        return_ty_span: None,
        where_clause: None,
        is_constraint_satisfied: true,
        docstring: None,
    }
}

#[test]
fn methods_returning_their_struct() {
    let named = |n: &str| HirTy::Named(HirNamedTy { name: n.to_string(), span: Span::default() });
    assert!(method_returns_self(&returning(named("Vec")), "Vec"));
    assert!(!method_returns_self(&returning(named("Other")), "Vec"));
    let g = HirTy::Generic(HirGenericTy { name: "Vec".to_string(), inner: vec![named("T")], span: Span::default() });
    assert!(method_returns_self(&returning(g), "Vec"));
    assert!(!method_returns_self(&returning(HirTy::Unit(HirUnitTy {})), "Vec"));
}
