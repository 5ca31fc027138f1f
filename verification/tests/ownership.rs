use atlas_77::hir::item::HirEnum;
use atlas_77::hir::ownership::{
    combine_spans, conditionalize_state, find_local, find_state, is_delete_family, is_move_family, mark_deleted,
    mark_assigned_alive, mark_moved, merge_control_flow_states, merge_join_state, register_local, state_spans, ty_eq,
    validate_identifier_use, AccessError, HirOwnershipPass, LocalVar, OwnershipState, ScopeFrame,
};
use atlas_77::hir::signature::{
    HirFlag, HirModuleSignature, HirStructDestructorSignature, HirStructSignature, HirVisibility,
};
use atlas_77::hir::ty::{HirGenericTy, HirInlineArrayTy, HirIntegerTy, HirNamedTy, HirPtrTy, HirTy};
use atlas_77::utils::Span;

fn sp(n: usize) -> Span {
    Span { start: n, end: n + 1, path: "f.atlas" }
}

fn kind(s: &OwnershipState) -> &'static str {
    match s {
        OwnershipState::Alive => "alive",
        OwnershipState::Deleted(_) => "deleted",
        OwnershipState::Moved(_) => "moved",
        OwnershipState::Consumed(_) => "consumed",
        OwnershipState::ConditionallyDeleted(_) => "cond-deleted",
        OwnershipState::ConditionallyMoved(_) => "cond-moved",
        OwnershipState::ConditionallyConsumed(_) => "cond-consumed",
    }
}

fn starts(s: &OwnershipState) -> Vec<usize> {
    state_spans(s).iter().map(|x| x.start).collect()
}

fn int64() -> HirTy {
    HirTy::Integer(HirIntegerTy { size_in_bits: 64 })
}

fn named(n: &str) -> HirTy {
    HirTy::Named(HirNamedTy { name: n.to_string(), span: Span::default() })
}

#[test]
fn span_lists_are_combined_without_repeats() {
    let r = combine_spans(vec![sp(1), sp(2)], vec![sp(2), sp(3), sp(3)]);
    assert_eq!(r.iter().map(|x| x.start).collect::<Vec<_>>(), vec![1, 2, 3]);
    let other_file = Span { start: 1, end: 2, path: "g.atlas" };
    assert_eq!(combine_spans(vec![sp(1)], vec![other_file]).len(), 2);
}

#[test]
fn states_join_after_branches() {
    let del = |n| OwnershipState::Deleted(vec![sp(n)]);
    let mov = |n| OwnershipState::Moved(vec![sp(n)]);
    let j = merge_join_state(OwnershipState::Alive, del(1), del(1));
    assert_eq!((kind(&j), starts(&j)), ("deleted", vec![1]));
    let j = merge_join_state(OwnershipState::Alive, OwnershipState::Alive, del(4));
    assert_eq!((kind(&j), starts(&j)), ("cond-deleted", vec![4]));
    let j = merge_join_state(OwnershipState::Alive, mov(5), OwnershipState::Alive);
    assert_eq!((kind(&j), starts(&j)), ("cond-moved", vec![5]));
    let j = merge_join_state(OwnershipState::Alive, del(1), OwnershipState::ConditionallyDeleted(vec![sp(2), sp(1)]));
    assert_eq!((kind(&j), starts(&j)), ("deleted", vec![1, 2]));
    let j = merge_join_state(OwnershipState::Alive, mov(7), OwnershipState::ConditionallyMoved(vec![sp(8)]));
    assert_eq!((kind(&j), starts(&j)), ("moved", vec![7, 8]));
    let j = merge_join_state(OwnershipState::Alive, del(1), mov(2));
    assert_eq!((kind(&j), starts(&j)), ("consumed", vec![1, 2]));
    let swapped = merge_join_state(OwnershipState::Alive, mov(2), del(1));
    assert_eq!((kind(&swapped), starts(&swapped)), ("consumed", vec![2, 1]));
    assert!(conditionalize_state(OwnershipState::Alive).is_none());
    let c = conditionalize_state(OwnershipState::Consumed(vec![sp(3)])).unwrap();
    assert_eq!(kind(&c), "cond-consumed");
    assert_eq!(kind(&conditionalize_state(c).unwrap()), "cond-consumed");
    assert!(is_delete_family(&OwnershipState::ConditionallyDeleted(vec![])));
    assert!(!is_delete_family(&OwnershipState::Moved(vec![])));
    assert!(is_move_family(&OwnershipState::ConditionallyMoved(vec![])));
}

fn local(name: &str, ty: HirTy) -> LocalVar {
    LocalVar { name: name.to_string(), ty, is_compiler_temp: false }
}

#[test]
fn scope_frames_track_states() {
    let mut stack = vec![ScopeFrame { locals: vec![], states: vec![] }];
    register_local(&mut stack, local("a", int64()));
    stack.push(ScopeFrame { locals: vec![], states: vec![] });
    register_local(&mut stack, local("b", int64()));
    register_local(&mut stack, local("a", named("Box")));
    assert_eq!(kind(&find_state(&stack, "a").unwrap()), "alive");
    mark_deleted(&mut stack, "a", sp(9));
    assert_eq!(kind(&find_state(&stack, "a").unwrap()), "deleted");
    assert_eq!(kind(&stack[0].states[0].1), "alive");
    mark_moved(&mut stack, "b", sp(10));
    assert_eq!(starts(&find_state(&stack, "b").unwrap()), vec![10]);
    mark_moved(&mut stack, "zz", sp(11));
    assert!(find_state(&stack, "zz").is_none());
    assert!(matches!(find_local(&stack, "a").unwrap().ty, HirTy::Named(_)));
    assert!(find_local(&stack, "c").is_none());
    stack.pop();
    assert_eq!(kind(&find_state(&stack, "a").unwrap()), "alive");
}

#[test]
fn branch_states_are_merged_into_the_base() {
    let frame = |states: Vec<(&str, OwnershipState)>| ScopeFrame {
        locals: vec![],
        states: states.into_iter().map(|(n, s)| (n.to_string(), s)).collect(),
    };
    let mut base = vec![frame(vec![("x", OwnershipState::Alive), ("y", OwnershipState::Alive)])];
    let then_stack = vec![frame(vec![("x", OwnershipState::Deleted(vec![sp(1)]))])];
    let else_stack = vec![frame(vec![("y", OwnershipState::Moved(vec![sp(2)]))])];
    merge_control_flow_states(&mut base, &then_stack, Some(&else_stack));
    assert_eq!(kind(&base[0].states[0].1), "cond-deleted");
    assert_eq!(kind(&base[0].states[1].1), "cond-moved");
    let mut base2 = vec![frame(vec![("x", OwnershipState::Alive)]), frame(vec![("z", OwnershipState::Alive)])];
    merge_control_flow_states(&mut base2, &then_stack, None);
    assert_eq!(kind(&base2[0].states[0].1), "cond-deleted");
    assert_eq!(kind(&base2[1].states[0].1), "alive");
}

fn struct_sig(name: &str, destructor: bool, trivially_copyable: bool, pre: Option<HirGenericTy>) -> HirStructSignature {
    HirStructSignature {
        declaration_span: Span::default(),
        vis: HirVisibility::Public,
        flag: HirFlag::NoFlag,
        name: name.to_string(),
        pre_mangled_ty: pre,
        name_span: Span::default(),
        methods: vec![],
        fields: vec![],
        generics: vec![],
        constants: vec![],
        destructor: if destructor {
            Some(HirStructDestructorSignature { span: Span::default(), vis: HirVisibility::Public, where_clause: None, docstring: None })
        } else {
            None
        },
        had_user_defined_destructor: false,
        copy_constructor: None,
        move_constructor: None,
        is_std_copyable: false,
        is_std_default: false,
        is_trivially_copyable: trivially_copyable,
        is_instantiated: true,
        docstring: None,
        is_extern: false,
    }
}

#[test]
fn deleted_and_copied_types() {
    let vec_int = HirGenericTy { name: "Vec".to_string(), inner: vec![int64()], span: Span::default() };
    let sig = HirModuleSignature {
        functions: vec![],
        structs: vec![
            ("File".to_string(), struct_sig("File", true, false, None)),
            ("Point".to_string(), struct_sig("Point", false, true, None)),
            ("__atlas77__Vec__int64".to_string(), struct_sig("__atlas77__Vec__int64", true, false, Some(vec_int))),
        ],
        enums: Vec::<(String, HirEnum)>::new(),
        unions: vec![],
        docstring: None,
        module_name: "m".to_string(),
        imported_modules: vec![],
    };
    let pass = HirOwnershipPass::new(sig);
    assert!(pass.should_auto_delete(&named("File")));
    assert!(!pass.should_auto_delete(&named("Point")));
    assert!(!pass.should_auto_delete(&HirTy::PtrTy(HirPtrTy { inner: Box::new(named("File")), is_const: false, span: Span::default() })));
    assert!(pass.should_auto_delete(&HirTy::InlineArray(HirInlineArrayTy { inner: Box::new(named("File")), size: 2 })));
    let generic = HirTy::Generic(HirGenericTy { name: "Vec".to_string(), inner: vec![int64()], span: Span::default() });
    assert!(pass.should_auto_delete(&generic));
    assert!(!pass.is_implicitly_copyable(&generic));
    let other = HirTy::Generic(HirGenericTy { name: "Vec".to_string(), inner: vec![named("Point")], span: Span::default() });
    assert!(!pass.should_auto_delete(&other));
    assert!(pass.is_implicitly_copyable(&named("Point")));
    assert!(pass.is_implicitly_copyable(&int64()));
    assert!(!pass.is_implicitly_copyable(&named("File")));
    assert!(pass.should_auto_delete_local(&local("f", named("File"))));
    assert!(pass.is_compiler_temp_name("__tmp3"));
    assert!(!pass.is_compiler_temp_name("tmp"));
    assert!(ty_eq(&generic, &HirTy::Generic(HirGenericTy { name: "Vec".to_string(), inner: vec![int64()], span: Span::default() })));
    assert!(!ty_eq(&generic, &other));
    assert!(!ty_eq(&named("A"), &HirTy::Named(HirNamedTy { name: "A".to_string(), span: Span { start: 1, end: 2, path: "x" } })));
}

#[test]
fn uses_of_variables_that_lost_their_value_are_refused() {
    let frame = |states: Vec<(&str, OwnershipState)>| ScopeFrame {
        locals: vec![],
        states: states.into_iter().map(|(n, s)| (n.to_string(), s)).collect(),
    };
    let stack = vec![
        frame(vec![("a", OwnershipState::Deleted(vec![sp(1)])), ("b", OwnershipState::Alive)]),
        frame(vec![
            ("c", OwnershipState::Consumed(vec![sp(3), sp(4)])),
            ("d", OwnershipState::ConditionallyMoved(vec![])),
            ("b", OwnershipState::Moved(vec![sp(6)])),
        ]),
    ];
    match validate_identifier_use(&stack, "a", sp(20)) {
        Err(AccessError::TryingToAccessADeletedValue { delete_span, access_span }) => {
            assert_eq!((delete_span.start, access_span.start), (1, 20));
        },
        _ => panic!("a deleted value must be refused"),
    }
    match validate_identifier_use(&stack, "b", sp(21)) {
        Err(AccessError::TryingToAccessAMovedValue { move_span, .. }) => assert_eq!(move_span.start, 6),
        _ => panic!("the innermost state decides"),
    }
    match validate_identifier_use(&stack, "c", sp(22)) {
        Err(AccessError::TryingToAccessAConsumedValue { consume_spans, .. }) => {
            assert_eq!(consume_spans.iter().map(|s| s.start).collect::<Vec<_>>(), vec![3, 4]);
        },
        _ => panic!("a consumed value must be refused"),
    }
    match validate_identifier_use(&stack, "d", sp(23)) {
        Err(AccessError::TryingToAccessAPotentiallyMovedValue { move_span, .. }) => assert_eq!(move_span.start, 23),
        _ => panic!("a value that may have moved must be refused"),
    }
    assert!(validate_identifier_use(&stack, "unknown", sp(24)).is_ok());
    let outer_only = vec![frame(vec![("b", OwnershipState::Alive)])];
    assert!(validate_identifier_use(&outer_only, "b", sp(25)).is_ok());
}

#[test]
fn assignments_make_variables_alive_again() {
    let mut stack = vec![ScopeFrame { locals: vec![], states: vec![] }];
    register_local(&mut stack, local("a", int64()));
    mark_moved(&mut stack, "a", sp(2));
    mark_assigned_alive(&mut stack, Some("a"));
    assert_eq!(kind(&find_state(&stack, "a").unwrap()), "alive");
    mark_deleted(&mut stack, "a", sp(3));
    mark_assigned_alive(&mut stack, None);
    assert_eq!(kind(&find_state(&stack, "a").unwrap()), "deleted");
}

#[test]
fn copies_of_variables_need_copyable_values() {
    let sig = HirModuleSignature {
        functions: vec![],
        structs: vec![
            ("File".to_string(), struct_sig("File", true, false, None)),
            ("Point".to_string(), struct_sig("Point", false, true, None)),
        ],
        enums: Vec::<(String, HirEnum)>::new(),
        unions: vec![],
        docstring: None,
        module_name: "m".to_string(),
        imported_modules: vec![],
    };
    let pass = HirOwnershipPass::new(sig);
    let mut stack = vec![ScopeFrame { locals: vec![], states: vec![] }];
    register_local(&mut stack, local("f", named("File")));
    register_local(&mut stack, local("p", named("Point")));
    register_local(&mut stack, LocalVar { name: "__tmp0".to_string(), ty: named("File"), is_compiler_temp: true });
    match pass.ensure_identifier_copy_allowed(&stack, Some(("f", sp(7))), Some("g")) {
        Err(AccessError::TypeIsNotTriviallyCopyable { span, ty_name }) => {
            assert_eq!(span.start, 7);
            assert_eq!(ty_name, "File");
        },
        _ => panic!("a File is not copied implicitly"),
    }
    assert!(pass.ensure_identifier_copy_allowed(&stack, Some(("f", sp(7))), Some("f")).is_ok());
    assert!(pass.ensure_identifier_copy_allowed(&stack, Some(("p", sp(8))), None).is_ok());
    assert!(pass.ensure_identifier_copy_allowed(&stack, Some(("__tmp0", sp(9))), None).is_ok());
    assert!(pass.ensure_identifier_copy_allowed(&stack, Some(("nowhere", sp(9))), None).is_ok());
    assert!(pass.ensure_identifier_copy_allowed(&stack, None, None).is_ok());
    mark_moved(&mut stack, "f", sp(10));
    assert!(pass.ensure_identifier_copy_allowed(&stack, Some(("f", sp(11))), None).is_ok());
}

fn file_module() -> HirModuleSignature {
    HirModuleSignature {
        functions: vec![],
        structs: vec![
            ("File".to_string(), struct_sig("File", true, false, None)),
            ("Point".to_string(), struct_sig("Point", false, true, None)),
        ],
        enums: Vec::<(String, HirEnum)>::new(),
        unions: vec![],
        docstring: None,
        module_name: "m".to_string(),
        imported_modules: vec![],
    }
}

#[test]
fn scope_ends_delete_alive_locals_innermost_first() {
    let pass = HirOwnershipPass::new(file_module());
    let mut stack = vec![ScopeFrame { locals: vec![], states: vec![] }];
    register_local(&mut stack, local("a", named("File")));
    register_local(&mut stack, local("p", named("Point")));
    stack.push(ScopeFrame { locals: vec![], states: vec![] });
    register_local(&mut stack, local("b", named("File")));
    register_local(&mut stack, local("c", named("File")));
    register_local(&mut stack, local("moved", named("File")));
    mark_moved(&mut stack, "moved", sp(4));
    let drops = pass.collect_scope_drops(&stack, None);
    let names: Vec<&str> = drops.iter().map(|d| d.name.as_str()).collect();
    assert_eq!(names, vec!["c", "b", "a"]);
    assert_eq!(drops[0].ty.to_string(), "File");
    assert_eq!(drops[0].span.start, 0);
    let drops = pass.collect_scope_drops(&stack, Some("b"));
    let names: Vec<&str> = drops.iter().map(|d| d.name.as_str()).collect();
    assert_eq!(names, vec!["c", "a"]);
}

#[test]
fn assignments_delete_the_old_value_first() {
    let pass = HirOwnershipPass::new(file_module());
    let mut stack = vec![ScopeFrame { locals: vec![], states: vec![] }];
    register_local(&mut stack, local("f", named("File")));
    register_local(&mut stack, local("p", named("Point")));
    let d = pass.pre_delete_before_assign(&stack, Some("f"), sp(12)).unwrap();
    assert_eq!((d.name.as_str(), d.span.start), ("f", 12));
    assert!(pass.pre_delete_before_assign(&stack, Some("p"), sp(12)).is_none());
    assert!(pass.pre_delete_before_assign(&stack, Some("nowhere"), sp(12)).is_none());
    assert!(pass.pre_delete_before_assign(&stack, None, sp(12)).is_none());
    mark_deleted(&mut stack, "f", sp(13));
    assert!(pass.pre_delete_before_assign(&stack, Some("f"), sp(14)).is_none());
}

#[test]
fn using_a_moved_or_deleted_variable_is_refused() {
    let mut stack = vec![ScopeFrame { locals: vec![], states: vec![] }];
    register_local(&mut stack, local("a", named("File")));
    register_local(&mut stack, local("b", named("File")));
    assert!(validate_identifier_use(&stack, "a", sp(1)).is_ok());
    mark_moved(&mut stack, "a", sp(5));
    match validate_identifier_use(&stack, "a", sp(9)) {
        Err(AccessError::TryingToAccessAMovedValue { move_span, access_span }) => {
            assert_eq!((move_span.start, access_span.start), (5, 9));
        },
        _ => panic!("a moved value must be refused"),
    }
    mark_deleted(&mut stack, "b", sp(6));
    match validate_identifier_use(&stack, "b", sp(10)) {
        Err(AccessError::TryingToAccessADeletedValue { delete_span, access_span }) => {
            assert_eq!((delete_span.start, access_span.start), (6, 10));
        },
        _ => panic!("a deleted value must be refused"),
    }
    mark_assigned_alive(&mut stack, Some("a"));
    assert!(validate_identifier_use(&stack, "a", sp(11)).is_ok());
}
