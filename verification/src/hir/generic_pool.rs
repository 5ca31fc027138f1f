//! The generic instances that monomorphization has to produce.
use vstd::prelude::*;
use crate::hir::ty::{ty_view, tys_view, HirGenericTy, HirTy, TyV};
use crate::text::{byte_len_is_one, bytes_len, lemma_seq_lt_order, seq_lt, str_eq, str_lt};
use crate::hir::keyed::{contains_key, find_key, has_key, lookup};
use crate::hir::monomorph::{generate_mangled_name, mangled};
use crate::hir::signature::{constraint_kind_text, HirGenericConstraint, HirGenericConstraintKind, HirModuleSignature};
use crate::hir::ty::display;
use crate::utils::Span;

verus! {

/// An instance of a generic struct, union or function: the generic item's name and the
/// actual type arguments.
#[derive(Debug)]
pub struct HirGenericInstance {
    pub name: String,
    pub args: Vec<HirTy>,
    pub span: Span,
    pub is_done: bool,
}

/// The model of an instance: item name, argument types, span, and whether it was produced.
pub open spec fn instance_view(i: HirGenericInstance) -> (Seq<char>, Seq<TyV>, Span, bool) {
    (i.name@, tys_view(i.args@), i.span, i.is_done)
}

/// Entries keyed by mangled name, in strictly increasing order of the keys.
pub open spec fn keys_increasing(e: Seq<(String, HirGenericInstance)>) -> bool {
    forall|i: int, j: int| 0 <= i < j < e.len() ==> seq_lt(#[trigger] e[i].0@, #[trigger] e[j].0@)
}

/// The map that the entries stand for.
pub open spec fn instances_map(e: Seq<(String, HirGenericInstance)>) -> Map<Seq<char>, (Seq<char>, Seq<TyV>, Span, bool)>
    decreases e.len(),
{
    if e.len() == 0 {
        Map::empty()
    } else {
        instances_map(e.drop_last()).insert(e.last().0@, instance_view(e.last().1))
    }
}

/// With increasing keys, the map holds exactly the entries' keys, each with its entry's
/// instance.
proof fn lemma_instances_map(e: Seq<(String, HirGenericInstance)>)
    requires
        keys_increasing(e),
    ensures
        forall|k: Seq<char>| #[trigger] instances_map(e).contains_key(k) <==> has_key(e, k),
        forall|i: int| 0 <= i < e.len() ==> #[trigger] instances_map(e)[e[i].0@] == instance_view(e[i].1),
    decreases e.len(),
{
    if e.len() > 0 {
        let d = e.drop_last();
        lemma_instances_map(d);
        let last = e.len() - 1;
        assert(instances_map(e) == instances_map(d).insert(e[last].0@, instance_view(e[last].1)));
        assert forall|i: int| 0 <= i < last implies e[i].0@ != e[last].0@ by {
            lemma_seq_lt_order(e[i].0@, e[last].0@, e[last].0@);
        }
        assert forall|k: Seq<char>| #[trigger] instances_map(e).contains_key(k) <==> has_key(e, k) by {
            if has_key(e, k) && k != e[last].0@ {
                let i = choose|i: int| 0 <= i < e.len() && #[trigger] e[i].0@ == k;
                assert(d[i].0@ == k);
            }
            if k == e[last].0@ {
                assert(has_key(e, k));
            }
            if has_key(d, k) {
                let i = choose|i: int| 0 <= i < d.len() && #[trigger] d[i].0@ == k;
                assert(e[i].0@ == k);
            }
        }
        assert forall|i: int| 0 <= i < e.len() implies #[trigger] instances_map(e)[e[i].0@] == instance_view(e[i].1) by {
            if i < last {
                assert(d[i] == e[i]);
                assert(instances_map(d)[d[i].0@] == instance_view(d[i].1));
            }
        }
    }
}

/// Adds `key` with `inst` unless the key is there already; keys stay in increasing order.
fn insert_instance(entries: &mut Vec<(String, HirGenericInstance)>, key: String, inst: HirGenericInstance)
    requires
        keys_increasing(old(entries)@),
    ensures
        keys_increasing(final(entries)@),
        instances_map(final(entries)@) == (if instances_map(old(entries)@).contains_key(key@) {
            instances_map(old(entries)@)
        } else {
            instances_map(old(entries)@).insert(key@, instance_view(inst))
        }),
{
    let ghost e0 = entries@;
    proof {
        lemma_instances_map(e0);
    }
    let mut pos: usize = 0;
    while pos < entries.len() && str_lt(entries[pos].0.as_str(), key.as_str())
        invariant
            entries@ == e0,
            pos <= e0.len(),
            forall|q: int| 0 <= q < pos ==> seq_lt(#[trigger] e0[q].0@, key@),
        decreases e0.len() - pos,
    {
        pos = pos + 1;
    }
    if pos < entries.len() && str_eq(entries[pos].0.as_str(), key.as_str()) {
        proof {
            assert(has_key(e0, key@));
        }
        return;
    }
    proof {
        assert forall|q: int| 0 <= q < e0.len() implies #[trigger] e0[q].0@ != key@ by {
            lemma_seq_lt_order(key@, key@, key@);
            if q > pos {
                lemma_seq_lt_order(key@, e0[pos as int].0@, e0[q].0@);
                lemma_seq_lt_order(e0[pos as int].0@, key@, key@);
            }
        }
        assert(!has_key(e0, key@));
    }
    let ghost entry = (key, inst);
    entries.insert(pos, (key, inst));
    proof {
        let e1 = entries@;
        assert(e1 == e0.insert(pos as int, entry));
        assert forall|i: int, j: int| 0 <= i < j < e1.len() implies seq_lt(#[trigger] e1[i].0@, #[trigger] e1[j].0@) by {
            if j == pos {
                assert(seq_lt(e0[i].0@, key@));
            } else if i == pos {
                lemma_seq_lt_order(key@, e0[pos as int].0@, e0[j - 1].0@);
                lemma_seq_lt_order(e0[pos as int].0@, key@, key@);
                if j - 1 > pos {
                    assert(seq_lt(e0[pos as int].0@, e0[j - 1].0@));
                }
            } else if i > pos {
                assert(seq_lt(e0[i - 1].0@, e0[j - 1].0@));
            } else if j > pos {
                assert(seq_lt(e0[i].0@, e0[j - 1].0@));
            } else {
                assert(seq_lt(e0[i].0@, e0[j].0@));
            }
        }
        lemma_instances_map(e1);
        let m0 = instances_map(e0);
        let m1 = instances_map(e1);
        assert forall|k: Seq<char>| #[trigger] m1.contains_key(k) <==> m0.insert(key@, instance_view(inst)).contains_key(k) by {
            if has_key(e1, k) {
                let i = choose|i: int| 0 <= i < e1.len() && #[trigger] e1[i].0@ == k;
                if i < pos {
                    assert(e0[i].0@ == k);
                } else if i > pos {
                    assert(e0[i - 1].0@ == k);
                }
            }
            if has_key(e0, k) {
                let i = choose|i: int| 0 <= i < e0.len() && #[trigger] e0[i].0@ == k;
                if i < pos {
                    assert(e1[i].0@ == k);
                } else {
                    assert(e1[i + 1].0@ == k);
                }
            }
            assert(e1[pos as int].0@ == key@);
        }
        assert forall|k: Seq<char>| #[trigger] m1.contains_key(k) implies m1[k] == m0.insert(key@, instance_view(inst))[k] by {
            if k == key@ {
                assert(m1[e1[pos as int].0@] == instance_view(e1[pos as int].1));
            } else {
                let i = choose|i: int| 0 <= i < e0.len() && #[trigger] e0[i].0@ == k;
                if i < pos {
                    assert(e1[i] == e0[i]);
                    assert(m1[e1[i].0@] == instance_view(e1[i].1));
                } else {
                    assert(e1[i + 1] == e0[i]);
                    assert(m1[e1[i + 1].0@] == instance_view(e1[i + 1].1));
                }
                assert(m0[e0[i].0@] == instance_view(e0[i].1));
            }
        }
        assert(m1 =~= m0.insert(key@, instance_view(inst)));
    }
}


/// `name` is a struct or a union of the module.
pub open spec fn declares_type(m: HirModuleSignature, name: Seq<char>) -> bool {
    has_key(m.structs@, name) || has_key(m.unions@, name)
}

/// A name one byte long that the module does not declare stands for a generic parameter.
pub open spec fn is_type_parameter(m: HirModuleSignature, name: Seq<char>) -> bool {
    bytes_len(name) == 1 && !declares_type(m, name)
}

/// A generic argument is concrete: it is no generic parameter, nor a pointer to one, nor an
/// instance with such arguments.
pub open spec fn arg_instantiated(m: HirModuleSignature, t: TyV) -> bool
    decreases t, 1nat,
{
    match t {
        TyV::Named(n, _) => !is_type_parameter(m, n),
        TyV::Generic(_, inner, _) => args_instantiated(m, inner),
        TyV::PtrTy(p, _, _) => match *p {
            TyV::Named(n, _) => !is_type_parameter(m, n),
            TyV::Generic(_, inner, _) => args_instantiated(m, inner),
            _ => true,
        },
        _ => true,
    }
}

/// Every argument is concrete.
pub open spec fn args_instantiated(m: HirModuleSignature, ts: Seq<TyV>) -> bool
    decreases ts, 0nat,
{
    if ts.len() == 0 {
        true
    } else {
        args_instantiated(m, ts.drop_last()) && arg_instantiated(m, ts.last())
    }
}

/// The struct instances that checking an argument registers, in order: a nested instance
/// is checked, and when it is concrete it is registered (after being checked once more).
pub open spec fn arg_registrations(m: HirModuleSignature, t: TyV) -> Seq<TyV>
    decreases t, 1nat,
{
    match t {
        TyV::Generic(_, inner, _) => args_registrations(m, inner) + (if args_instantiated(m, inner) {
            args_registrations(m, inner).push(t)
        } else {
            Seq::empty()
        }),
        TyV::PtrTy(p, _, _) => match *p {
            TyV::Generic(_, inner, _) => args_registrations(m, inner) + (if args_instantiated(m, inner) {
                args_registrations(m, inner).push(*p)
            } else {
                Seq::empty()
            }),
            _ => Seq::empty(),
        },
        _ => Seq::empty(),
    }
}

/// The struct instances that checking the arguments `ts` registers, in order.
pub open spec fn args_registrations(m: HirModuleSignature, ts: Seq<TyV>) -> Seq<TyV>
    decreases ts, 0nat,
{
    if ts.len() == 0 {
        Seq::empty()
    } else {
        args_registrations(m, ts.drop_last()) + arg_registrations(m, ts.last())
    }
}

/// The model of a generic type.
pub open spec fn generic_view(g: HirGenericTy) -> TyV {
    TyV::Generic(g.name@, tys_view(g.inner@), g.span)
}

/// The map after registering the instance `g` of the given kind: a new key gets a fresh
/// instance, a known key keeps its instance.
pub open spec fn add_instance(
    mp: Map<Seq<char>, (Seq<char>, Seq<TyV>, Span, bool)>,
    g: TyV,
    kind: Seq<char>,
) -> Map<Seq<char>, (Seq<char>, Seq<TyV>, Span, bool)> {
    match g {
        TyV::Generic(name, inner, span) => {
            let key = mangled(name, inner, kind);
            if mp.contains_key(key) {
                mp
            } else {
                mp.insert(key, (name, inner, span, false))
            }
        },
        _ => mp,
    }
}

/// The map after registering each of `gs` in turn.
pub open spec fn add_instances(
    mp: Map<Seq<char>, (Seq<char>, Seq<TyV>, Span, bool)>,
    gs: Seq<TyV>,
    kind: Seq<char>,
) -> Map<Seq<char>, (Seq<char>, Seq<TyV>, Span, bool)>
    decreases gs.len(),
{
    if gs.len() == 0 {
        mp
    } else {
        add_instance(add_instances(mp, gs.drop_last(), kind), gs.last(), kind)
    }
}

proof fn lemma_add_instances_append(
    mp: Map<Seq<char>, (Seq<char>, Seq<TyV>, Span, bool)>,
    a: Seq<TyV>,
    b: Seq<TyV>,
    kind: Seq<char>,
)
    ensures
        add_instances(mp, a + b, kind) == add_instances(add_instances(mp, a, kind), b, kind),
    decreases b.len(),
{
    if b.len() == 0 {
        assert(a + b =~= a);
    } else {
        lemma_add_instances_append(mp, a, b.drop_last(), kind);
        assert((a + b).drop_last() =~= a + b.drop_last());
    }
}

/// The key under which `g` is registered.
pub open spec fn instance_key(g: TyV, kind: Seq<char>) -> Seq<char> {
    match g {
        TyV::Generic(name, inner, _) => mangled(name, inner, kind),
        _ => Seq::empty(),
    }
}

/// Registering never replaces nor removes an instance that is in the pool already.
pub proof fn lemma_registration_keeps_instances(
    mp: Map<Seq<char>, (Seq<char>, Seq<TyV>, Span, bool)>,
    gs: Seq<TyV>,
    kind: Seq<char>,
    key: Seq<char>,
)
    requires
        mp.contains_key(key),
    ensures
        add_instances(mp, gs, kind).contains_key(key),
        add_instances(mp, gs, kind)[key] == mp[key],
    decreases gs.len(),
{
    if gs.len() > 0 {
        lemma_registration_keeps_instances(mp, gs.drop_last(), kind, key);
    }
}

/// After registering `gs`, every generic instance among them has its key in the pool.
pub proof fn lemma_registered_keys_present(
    mp: Map<Seq<char>, (Seq<char>, Seq<TyV>, Span, bool)>,
    gs: Seq<TyV>,
    kind: Seq<char>,
)
    ensures
        forall|i: int| 0 <= i < gs.len() && (#[trigger] gs[i] is Generic) ==>
            add_instances(mp, gs, kind).contains_key(instance_key(gs[i], kind)),
    decreases gs.len(),
{
    if gs.len() > 0 {
        let d = gs.drop_last();
        lemma_registered_keys_present(mp, d, kind);
        let before = add_instances(mp, d, kind);
        assert forall|i: int| 0 <= i < gs.len() && (#[trigger] gs[i] is Generic) implies
            add_instances(mp, gs, kind).contains_key(instance_key(gs[i], kind)) by {
            if i < gs.len() - 1 {
                assert(d[i] == gs[i]);
                assert(before.contains_key(instance_key(gs[i], kind)));
            }
        }
    }
}

proof fn lemma_present_keys_change_nothing(
    mp: Map<Seq<char>, (Seq<char>, Seq<TyV>, Span, bool)>,
    gs: Seq<TyV>,
    kind: Seq<char>,
)
    requires
        forall|i: int| 0 <= i < gs.len() && (#[trigger] gs[i] is Generic) ==> mp.contains_key(instance_key(gs[i], kind)),
    ensures
        add_instances(mp, gs, kind) == mp,
    decreases gs.len(),
{
    if gs.len() > 0 {
        let d = gs.drop_last();
        assert forall|i: int| 0 <= i < d.len() && (#[trigger] d[i] is Generic) implies mp.contains_key(instance_key(d[i], kind)) by {
            assert(gs[i] == d[i]);
        }
        lemma_present_keys_change_nothing(mp, d, kind);
        let g = gs[gs.len() - 1];
        if g is Generic {
            assert(mp.contains_key(instance_key(g, kind)));
        }
    }
}

/// Registering the same instances a second time changes nothing.
pub proof fn lemma_registration_idempotent(
    mp: Map<Seq<char>, (Seq<char>, Seq<TyV>, Span, bool)>,
    gs: Seq<TyV>,
    kind: Seq<char>,
)
    ensures
        add_instances(add_instances(mp, gs, kind), gs, kind) == add_instances(mp, gs, kind),
{
    lemma_registered_keys_present(mp, gs, kind);
    lemma_present_keys_change_nothing(add_instances(mp, gs, kind), gs, kind);
}

/// The struct instances that registering the struct instance `g` registers: those of its
/// arguments, then `g` itself when it is concrete.
pub open spec fn struct_registrations(m: HirModuleSignature, g: TyV) -> Seq<TyV> {
    match g {
        TyV::Generic(_, inner, _) => args_registrations(m, inner) + (if args_instantiated(m, inner) {
            seq![g]
        } else {
            Seq::empty()
        }),
        _ => Seq::empty(),
    }
}

/// The function `name` of the module is external and its generic parameters match
/// `arg_count` arguments: its instances need no monomorphization.
pub open spec fn is_external_generic_function(m: HirModuleSignature, name: Seq<char>, arg_count: nat) -> bool {
    match lookup(m.functions@, name) {
        Some(sig) => sig.generics@.len() > 0 && sig.generics@.len() == arg_count && sig.is_external,
        None => false,
    }
}


/// Copies of the types `ts`.
pub fn copy_tys(ts: &Vec<HirTy>) -> (r: Vec<HirTy>)
    ensures
        tys_view(r@) == tys_view(ts@),
{
    let mut out: Vec<HirTy> = Vec::new();
    let mut i: usize = 0;
    while i < ts.len()
        invariant
            i <= ts.len(),
            tys_view(out@) == tys_view(ts@.subrange(0, i as int)),
        decreases ts.len() - i,
    {
        let t = ts[i].duplicate();
        proof {
            assert(ts@.subrange(0, i + 1).drop_last() =~= ts@.subrange(0, i as int));
            assert(out@.push(t).drop_last() =~= out@);
        }
        out.push(t);
        i = i + 1;
    }
    proof {
        assert(ts@.subrange(0, ts.len() as int) =~= ts@);
    }
    out
}

/// A fresh, not yet produced instance of `generic`.
fn new_instance(generic: &HirGenericTy) -> (r: HirGenericInstance)
    ensures
        instance_view(r) == (generic.name@, tys_view(generic.inner@), generic.span, false),
{
    HirGenericInstance { name: generic.name.clone(), args: copy_tys(&generic.inner), span: generic.span, is_done: false }
}

proof fn lemma_args_push(m: HirModuleSignature, ts: Seq<HirTy>, i: int)
    requires
        0 <= i < ts.len(),
    ensures
        tys_view(ts.subrange(0, i + 1)) == tys_view(ts.subrange(0, i)).push(ty_view(ts[i])),
        args_instantiated(m, tys_view(ts.subrange(0, i + 1)))
            == (args_instantiated(m, tys_view(ts.subrange(0, i))) && arg_instantiated(m, ty_view(ts[i]))),
        args_registrations(m, tys_view(ts.subrange(0, i + 1)))
            == args_registrations(m, tys_view(ts.subrange(0, i))) + arg_registrations(m, ty_view(ts[i])),
{
    let pre = ts.subrange(0, i + 1);
    assert(pre.drop_last() =~= ts.subrange(0, i));
    let v = tys_view(pre);
    assert(v.drop_last() == tys_view(ts.subrange(0, i)));
}


/// Whether values of a type are copyable in the sense of `std::copyable`: scalars, text,
/// pointers, functions and slices are.
pub open spec fn std_copyable(t: TyV) -> bool {
    match t {
        TyV::Boolean | TyV::Integer(_) | TyV::Float(_) | TyV::Char | TyV::String
        | TyV::UnsignedInteger(_) | TyV::PtrTy(..) | TyV::Function(..) | TyV::Slice(_) => true,
        _ => false,
    }
}

/// The copyability of a struct of the module is not decided yet: asking about one stops
/// the compiler.
pub open spec fn copyability_undecided(m: HirModuleSignature, t: TyV) -> bool {
    match t {
        TyV::Named(n, _) => has_key(m.structs@, n),
        TyV::Generic(name, inner, _) => has_key(m.structs@, mangled(name, inner, "struct"@)),
        _ => false,
    }
}

/// A constraint kind that the argument `t` fails: `std::copyable` when `t` is not
/// copyable, and every other standard constraint; operators and concepts are not checked.
pub open spec fn kind_fails(t: TyV, k: HirGenericConstraintKind) -> bool {
    match k {
        HirGenericConstraintKind::Std { name, .. } => name@ != "copyable"@ || !std_copyable(t),
        _ => false,
    }
}

/// Where a constraint kind is written.
pub open spec fn kind_span(k: HirGenericConstraintKind) -> Span {
    match k {
        HirGenericConstraintKind::Std { span, .. } => span,
        HirGenericConstraintKind::Operator { span, .. } => span,
        HirGenericConstraintKind::Concept { span, .. } => span,
    }
}

/// The kinds among the first `n` of `kinds` that `t` fails, as (argument, kind) indices.
pub open spec fn kind_failures(t: TyV, kinds: Seq<HirGenericConstraintKind>, arg: int, n: int) -> Seq<(int, int)>
    decreases n,
{
    if n <= 0 || n > kinds.len() {
        Seq::empty()
    } else {
        kind_failures(t, kinds, arg, n - 1) + (if kind_fails(t, kinds[n - 1]) {
            seq![(arg, n - 1)]
        } else {
            Seq::empty()
        })
    }
}

/// The failed constraints of the first `n` arguments, as (argument, kind) indices in order.
pub open spec fn constraint_failures(tys: Seq<TyV>, cs: Seq<HirGenericConstraint>, n: int) -> Seq<(int, int)>
    decreases n,
{
    if n <= 0 || n > tys.len() || n > cs.len() {
        Seq::empty()
    } else {
        constraint_failures(tys, cs, n - 1) + kind_failures(tys[n - 1], cs[n - 1].kind@, n - 1, cs[n - 1].kind@.len() as int)
    }
}

/// How many arguments are paired with a constraint.
pub open spec fn paired(tys: Seq<TyV>, cs: Seq<HirGenericConstraint>) -> int {
    if tys.len() <= cs.len() { tys.len() as int } else { cs.len() as int }
}

/// No `std::copyable` constraint is asked of a struct whose copyability is undecided.
pub open spec fn constraints_decidable(m: HirModuleSignature, tys: Seq<TyV>, cs: Seq<HirGenericConstraint>) -> bool {
    forall|i: int, k: int| 0 <= i < paired(tys, cs) && 0 <= k < cs[i].kind@.len() ==>
        (#[trigger] cs[i].kind@[k] matches HirGenericConstraintKind::Std { name, .. } && name@ == "copyable"@)
        ==> !copyability_undecided(m, tys[i])
}

/// A constraint that an instance's argument does not satisfy, with what a report needs.
#[derive(Debug)]
pub struct ConstraintFailure {
    /// The argument type, as written in source.
    pub ty: String,
    /// The constraint, as written in source.
    pub constraint: String,
    /// Where the instance is written.
    pub span: Span,
    /// Where the constraint is written.
    pub origin_span: Span,
    /// The file that declares the constraint.
    pub origin_path: &'static str,
}

/// The instances to produce, each list keyed by mangled name in increasing order.
#[derive(Debug)]
pub struct HirGenericPool {
    pub structs: Vec<(String, HirGenericInstance)>,
    pub methods: Vec<(String, HirGenericInstance)>,
    pub functions: Vec<(String, HirGenericInstance)>,
    pub unions: Vec<(String, HirGenericInstance)>,
}

impl HirGenericPool {
    /// Each list has its keys in increasing order.
    pub open spec fn wf(&self) -> bool {
        &&& keys_increasing(self.structs@)
        &&& keys_increasing(self.methods@)
        &&& keys_increasing(self.functions@)
        &&& keys_increasing(self.unions@)
    }

    pub open spec fn structs_map(&self) -> Map<Seq<char>, (Seq<char>, Seq<TyV>, Span, bool)> {
        instances_map(self.structs@)
    }

    pub open spec fn unions_map(&self) -> Map<Seq<char>, (Seq<char>, Seq<TyV>, Span, bool)> {
        instances_map(self.unions@)
    }

    pub open spec fn functions_map(&self) -> Map<Seq<char>, (Seq<char>, Seq<TyV>, Span, bool)> {
        instances_map(self.functions@)
    }

    /// Whether `name` stands for a generic parameter (see `is_type_parameter`).
    fn is_type_parameter_name(name: &str, module: &HirModuleSignature) -> (b: bool)
        ensures
            b == is_type_parameter(*module, name@),
    {
        byte_len_is_one(name) && !contains_key(&module.structs, name) && !contains_key(&module.unions, name)
    }

    /// Registers `generic` as a struct instance when all its arguments are concrete (a
    /// generic definition such as `Vector<T>` is not registered); the concrete instances
    /// nested in its arguments are registered first.
    pub fn register_struct_instance(&mut self, generic: HirGenericTy, module: &HirModuleSignature)
        requires
            old(self).wf(),
        ensures
            final(self).wf(),
            final(self).structs_map() == add_instances(old(self).structs_map(), struct_registrations(*module, generic_view(generic)), "struct"@),
            final(self).unions@ == old(self).unions@,
            final(self).functions@ == old(self).functions@,
            final(self).methods@ == old(self).methods@,
    {
        self.register_struct_ref(&generic, module);
    }

    fn register_struct_ref(&mut self, generic: &HirGenericTy, module: &HirModuleSignature)
        requires
            old(self).wf(),
        ensures
            final(self).wf(),
            final(self).structs_map() == add_instances(old(self).structs_map(), struct_registrations(*module, generic_view(*generic)), "struct"@),
            final(self).unions@ == old(self).unions@,
            final(self).functions@ == old(self).functions@,
            final(self).methods@ == old(self).methods@,
        decreases generic, 3nat,
    {
        let ghost s0 = self.structs_map();
        let ghost regs = args_registrations(*module, tys_view(generic.inner@));
        let inst = self.is_generic_instantiated(generic, module);
        if !inst {
            proof {
                assert(struct_registrations(*module, generic_view(*generic)) =~= regs);
            }
            return;
        }
        let ghost s1 = self.structs_map();
        let name = generate_mangled_name(generic, "struct");
        let instance = new_instance(generic);
        insert_instance(&mut self.structs, name, instance);
        proof {
            let g = generic_view(*generic);
            lemma_add_instances_append(s0, regs, seq![g], "struct"@);
            assert(seq![g].drop_last() =~= Seq::<TyV>::empty());
            assert(add_instances(s1, seq![g].drop_last(), "struct"@) == s1);
            assert(add_instances(s1, seq![g], "struct"@) == add_instance(s1, g, "struct"@));
            assert(struct_registrations(*module, g) == regs + seq![g]);
        }
    }

    /// Whether every argument of `generic` is concrete; concrete generic instances met in
    /// the arguments are registered as struct instances on the way.
    fn is_generic_instantiated(&mut self, generic: &HirGenericTy, module: &HirModuleSignature) -> (b: bool)
        requires
            old(self).wf(),
        ensures
            final(self).wf(),
            b == args_instantiated(*module, tys_view(generic.inner@)),
            final(self).structs_map() == add_instances(old(self).structs_map(), args_registrations(*module, tys_view(generic.inner@)), "struct"@),
            final(self).unions@ == old(self).unions@,
            final(self).functions@ == old(self).functions@,
            final(self).methods@ == old(self).methods@,
        decreases generic, 2nat,
    {
        self.args_instantiated_of(generic, &generic.inner, module)
    }

    fn args_instantiated_of(&mut self, owner: &HirGenericTy, ts: &Vec<HirTy>, module: &HirModuleSignature) -> (b: bool)
        requires
            old(self).wf(),
            forall|i: int| 0 <= i < ts@.len() ==> decreases_to!(*owner => #[trigger] ts@[i]),
        ensures
            final(self).wf(),
            b == args_instantiated(*module, tys_view(ts@)),
            final(self).structs_map() == add_instances(old(self).structs_map(), args_registrations(*module, tys_view(ts@)), "struct"@),
            final(self).unions@ == old(self).unions@,
            final(self).functions@ == old(self).functions@,
            final(self).methods@ == old(self).methods@,
        decreases owner, 1nat,
    {
        let ghost s0 = self.structs_map();
        let ghost u0 = self.unions@;
        let ghost f0 = self.functions@;
        let ghost m0 = self.methods@;
        let mut ok = true;
        let mut i: usize = 0;
        proof {
            assert(ts@.subrange(0, 0) =~= Seq::<HirTy>::empty());
        }
        while i < ts.len()
            invariant
                i <= ts.len(),
                self.wf(),
                forall|j: int| 0 <= j < ts@.len() ==> decreases_to!(*owner => #[trigger] ts@[j]),
                ok == args_instantiated(*module, tys_view(ts@.subrange(0, i as int))),
                self.structs_map() == add_instances(s0, args_registrations(*module, tys_view(ts@.subrange(0, i as int))), "struct"@),
                self.unions@ == u0,
                self.functions@ == f0,
                self.methods@ == m0,
            decreases ts.len() - i,
        {
            let ghost before = self.structs_map();
            let a = self.arg_instantiated_of(&ts[i], module);
            proof {
                lemma_args_push(*module, ts@, i as int);
                lemma_add_instances_append(
                    s0,
                    args_registrations(*module, tys_view(ts@.subrange(0, i as int))),
                    arg_registrations(*module, ty_view(ts@[i as int])),
                    "struct"@,
                );
            }
            if !a {
                ok = false;
            }
            i = i + 1;
        }
        proof {
            assert(ts@.subrange(0, ts.len() as int) =~= ts@);
        }
        ok
    }

    fn arg_instantiated_of(&mut self, t: &HirTy, module: &HirModuleSignature) -> (b: bool)
        requires
            old(self).wf(),
        ensures
            final(self).wf(),
            b == arg_instantiated(*module, t@),
            final(self).structs_map() == add_instances(old(self).structs_map(), arg_registrations(*module, t@), "struct"@),
            final(self).unions@ == old(self).unions@,
            final(self).functions@ == old(self).functions@,
            final(self).methods@ == old(self).methods@,
        decreases t, 0nat,
    {
        let ghost s0 = self.structs_map();
        match t {
            HirTy::Named(n) => {
                proof {
                    assert(t@ == TyV::Named(n.name@, n.span));
                    assert(add_instances(s0, arg_registrations(*module, t@), "struct"@) == s0);
                }
                !Self::is_type_parameter_name(n.name.as_str(), module)
            },
            HirTy::Generic(g) => {
                let ghost regs = args_registrations(*module, tys_view(g.inner@));
                let inst = self.is_generic_instantiated(g, module);
                if inst {
                    let ghost s1 = self.structs_map();
                    self.register_struct_ref(g, module);
                    proof {
                        lemma_add_instances_append(s0, regs, regs.push(generic_view(*g)), "struct"@);
                        lemma_add_instances_append(s1, regs, seq![generic_view(*g)], "struct"@);
                        assert(regs + seq![generic_view(*g)] =~= regs.push(generic_view(*g)));
                    }
                } else {
                    proof {
                        assert(arg_registrations(*module, t@) =~= regs);
                    }
                }
                inst
            },
            HirTy::PtrTy(p) => match &*p.inner {
                HirTy::Named(n) => {
                    proof {
                        assert(t@ == TyV::PtrTy(Box::new(ty_view(*p.inner)), p.is_const, p.span));
                        assert(ty_view(*p.inner) == TyV::Named(n.name@, n.span));
                        assert(add_instances(s0, arg_registrations(*module, t@), "struct"@) == s0);
                    }
                    !Self::is_type_parameter_name(n.name.as_str(), module)
                },
                HirTy::Generic(g) => {
                    proof {
                        assert(t@ == TyV::PtrTy(Box::new(ty_view(*p.inner)), p.is_const, p.span));
                        assert(ty_view(*p.inner) == generic_view(*g));
                    }
                    let ghost regs = args_registrations(*module, tys_view(g.inner@));
                    let inst = self.is_generic_instantiated(g, module);
                    if inst {
                        let ghost s1 = self.structs_map();
                        self.register_struct_ref(g, module);
                        proof {
                            lemma_add_instances_append(s0, regs, regs.push(generic_view(*g)), "struct"@);
                            lemma_add_instances_append(s1, regs, seq![generic_view(*g)], "struct"@);
                            assert(regs + seq![generic_view(*g)] =~= regs.push(generic_view(*g)));
                        }
                    } else {
                        proof {
                            assert(arg_registrations(*module, t@) =~= regs);
                        }
                    }
                    inst
                },
                _ => {
                    proof {
                        assert(t@ == TyV::PtrTy(Box::new(ty_view(*p.inner)), p.is_const, p.span));
                        assert(add_instances(s0, arg_registrations(*module, t@), "struct"@) == s0);
                    }
                    true
                },
            },
            _ => {
                proof {
                    assert(add_instances(s0, arg_registrations(*module, t@), "struct"@) == s0);
                }
                true
            },
        }
    }

    /// Registers `generic` as a union instance when all its arguments are concrete; the
    /// concrete instances nested in its arguments are registered as structs.
    pub fn register_union_instance(&mut self, generic: &HirGenericTy, module: &HirModuleSignature)
        requires
            old(self).wf(),
        ensures
            final(self).wf(),
            final(self).structs_map() == add_instances(old(self).structs_map(), args_registrations(*module, tys_view(generic.inner@)), "struct"@),
            final(self).unions_map() == (if args_instantiated(*module, tys_view(generic.inner@)) {
                add_instance(old(self).unions_map(), generic_view(*generic), "union"@)
            } else {
                old(self).unions_map()
            }),
            final(self).functions@ == old(self).functions@,
            final(self).methods@ == old(self).methods@,
    {
        if !self.is_generic_instantiated(generic, module) {
            return;
        }
        let name = generate_mangled_name(generic, "union");
        let instance = new_instance(generic);
        insert_instance(&mut self.unions, name, instance);
    }

    /// Registers `generic` as a function instance when all its arguments are concrete and
    /// the function is not external; the concrete instances nested in its arguments are
    /// registered as structs.
    pub fn register_function_instance(&mut self, generic: HirGenericTy, module: &HirModuleSignature)
        requires
            old(self).wf(),
        ensures
            final(self).wf(),
            is_external_generic_function(*module, generic.name@, generic.inner@.len()) ==> (
                final(self).structs@ == old(self).structs@ && final(self).functions@ == old(self).functions@),
            !is_external_generic_function(*module, generic.name@, generic.inner@.len()) ==> (
                final(self).structs_map() == add_instances(old(self).structs_map(), args_registrations(*module, tys_view(generic.inner@)), "struct"@)
                && final(self).functions_map() == (if args_instantiated(*module, tys_view(generic.inner@)) {
                    add_instance(old(self).functions_map(), generic_view(generic), "function"@)
                } else {
                    old(self).functions_map()
                })),
            final(self).unions@ == old(self).unions@,
            final(self).methods@ == old(self).methods@,
    {
        let mut is_external = false;
        match find_key(&module.functions, generic.name.as_str()) {
            Some(i) => {
                let sig = &module.functions[i].1;
                if sig.generics.len() > 0 && sig.generics.len() == generic.inner.len() {
                    is_external = sig.is_external;
                }
            },
            None => {},
        }
        if is_external {
            return;
        }
        if !self.is_generic_instantiated(&generic, module) {
            return;
        }
        let name = generate_mangled_name(&generic, "function");
        let instance = new_instance(&generic);
        insert_instance(&mut self.functions, name, instance);
    }

    /// Whether `ty` satisfies `std::copyable` (see `std_copyable`).
    pub fn implements_std_copyable(&self, module: &HirModuleSignature, ty: &HirTy) -> (b: bool)
        requires
            !copyability_undecided(*module, ty@),
        ensures
            b == std_copyable(ty@),
    {
        match ty {
            HirTy::Boolean(_) | HirTy::Integer(_) | HirTy::Float(_) | HirTy::Char(_) | HirTy::String(_)
            | HirTy::UnsignedInteger(_) | HirTy::PtrTy(_) | HirTy::Function(_) | HirTy::Slice(_) => true,
            _ => false,
        }
    }

    /// The constraints that the arguments of `instantiated_generic` fail, argument by
    /// argument (each paired with the constraint at its position), in order.
    pub fn unsatisfied_constraints(
        &self,
        module: &HirModuleSignature,
        instantiated_generic: &HirGenericTy,
        constraints: &Vec<HirGenericConstraint>,
        declaration_span: Span,
    ) -> (r: Vec<ConstraintFailure>)
        requires
            constraints_decidable(*module, tys_view(instantiated_generic.inner@), constraints@),
        ensures
            ({
                let tys = tys_view(instantiated_generic.inner@);
                let f = constraint_failures(tys, constraints@, paired(tys, constraints@));
                &&& r@.len() == f.len()
                &&& forall|j: int| 0 <= j < f.len() ==> {
                    let (i, k) = #[trigger] f[j];
                    let kind = constraints@[i].kind@[k];
                    &&& r@[j].ty@ == display(tys[i])
                    &&& r@[j].constraint@ == constraint_kind_text(kind)
                    &&& r@[j].span == instantiated_generic.span
                    &&& r@[j].origin_span == kind_span(kind)
                    &&& r@[j].origin_path == declaration_span.path
                }
            }),
    {
        let ghost tys = tys_view(instantiated_generic.inner@);
        let ghost cs = constraints@;
        proof {
            crate::hir::ty::lemma_tys_view_len(instantiated_generic.inner@);
        }
        let n = if instantiated_generic.inner.len() <= constraints.len() {
            instantiated_generic.inner.len()
        } else {
            constraints.len()
        };
        let mut out: Vec<ConstraintFailure> = Vec::new();
        let mut i: usize = 0;
        while i < n
            invariant
                i <= n,
                n == paired(tys, cs),
                tys == tys_view(instantiated_generic.inner@),
                tys.len() == instantiated_generic.inner@.len(),
                cs == constraints@,
                constraints_decidable(*module, tys, cs),
                ({
                    let f = constraint_failures(tys, cs, i as int);
                    &&& out@.len() == f.len()
                    &&& forall|j: int| 0 <= j < f.len() ==> {
                        let (a, k) = #[trigger] f[j];
                        let kind = cs[a].kind@[k];
                        &&& out@[j].ty@ == display(tys[a])
                        &&& out@[j].constraint@ == constraint_kind_text(kind)
                        &&& out@[j].span == instantiated_generic.span
                        &&& out@[j].origin_span == kind_span(kind)
                        &&& out@[j].origin_path == declaration_span.path
                    }
                }),
            decreases n - i,
        {
            let ty = &instantiated_generic.inner[i];
            let kinds = &constraints[i].kind;
            proof {
                crate::hir::ty::lemma_tys_view_len(instantiated_generic.inner@);
            }
            let ghost base = out@;
            let ghost fb = constraint_failures(tys, cs, i as int);
            let mut k: usize = 0;
            while k < kinds.len()
                invariant
                    i < n,
                    k <= kinds@.len(),
                    n == paired(tys, cs),
                    tys == tys_view(instantiated_generic.inner@),
                    tys.len() == instantiated_generic.inner@.len(),
                    cs == constraints@,
                    kinds@ == cs[i as int].kind@,
                    ty@ == tys[i as int],
                    constraints_decidable(*module, tys, cs),
                    fb == constraint_failures(tys, cs, i as int),
                    out@.len() >= base.len(),
                    forall|j: int| 0 <= j < base.len() ==> #[trigger] out@[j] == base[j],
                    ({
                        let g = kind_failures(tys[i as int], kinds@, i as int, k as int);
                        &&& out@.len() == base.len() + g.len()
                        &&& forall|j: int| 0 <= j < g.len() ==> {
                            let (a, q) = #[trigger] g[j];
                            let kind = cs[a].kind@[q];
                            &&& a == i
                            &&& 0 <= q < k
                            &&& out@[base.len() + j].ty@ == display(tys[a])
                            &&& out@[base.len() + j].constraint@ == constraint_kind_text(kind)
                            &&& out@[base.len() + j].span == instantiated_generic.span
                            &&& out@[base.len() + j].origin_span == kind_span(kind)
                            &&& out@[base.len() + j].origin_path == declaration_span.path
                        }
                    }),
                decreases kinds@.len() - k,
            {
                let kind = &kinds[k];
                let fails = match kind {
                    HirGenericConstraintKind::Std { name, .. } => {
                        if str_eq(name.as_str(), "copyable") {
                            proof {
                                assert(cs[i as int].kind@[k as int] == *kind);
                            }
                            !self.implements_std_copyable(module, ty)
                        } else {
                            true
                        }
                    },
                    _ => false,
                };
                let ghost g0 = kind_failures(tys[i as int], kinds@, i as int, k as int);
                if fails {
                    let span = match kind {
                        HirGenericConstraintKind::Std { span, .. } => *span,
                        HirGenericConstraintKind::Operator { span, .. } => *span,
                        HirGenericConstraintKind::Concept { span, .. } => *span,
                    };
                    out.push(ConstraintFailure {
                        ty: ty.to_string(),
                        constraint: kind.to_string(),
                        span: instantiated_generic.span,
                        origin_span: span,
                        origin_path: declaration_span.path,
                    });
                }
                proof {
                    let g1 = kind_failures(tys[i as int], kinds@, i as int, k + 1);
                    assert(fails == kind_fails(tys[i as int], kinds@[k as int]));
                    if fails {
                        assert(g1 == g0 + seq![(i as int, k as int)]);
                        assert forall|j: int| 0 <= j < g1.len() implies {
                            let (a, q) = #[trigger] g1[j];
                            let kind = cs[a].kind@[q];
                            &&& a == i
                            &&& 0 <= q < k + 1
                            &&& out@[base.len() + j].ty@ == display(tys[a])
                            &&& out@[base.len() + j].constraint@ == constraint_kind_text(kind)
                            &&& out@[base.len() + j].span == instantiated_generic.span
                            &&& out@[base.len() + j].origin_span == kind_span(kind)
                            &&& out@[base.len() + j].origin_path == declaration_span.path
                        } by {
                            if j < g0.len() {
                                assert(g1[j] == g0[j]);
                            }
                        }
                    } else {
                        assert(g1 =~= g0);
                    }
                }
                k = k + 1;
            }
            proof {
                let f1 = constraint_failures(tys, cs, i + 1);
                let g = kind_failures(tys[i as int], kinds@, i as int, kinds@.len() as int);
                assert(f1 == fb + g);
                assert forall|j: int| 0 <= j < f1.len() implies {
                    let (a, q) = #[trigger] f1[j];
                    let kind = cs[a].kind@[q];
                    &&& out@[j].ty@ == display(tys[a])
                    &&& out@[j].constraint@ == constraint_kind_text(kind)
                    &&& out@[j].span == instantiated_generic.span
                    &&& out@[j].origin_span == kind_span(kind)
                    &&& out@[j].origin_path == declaration_span.path
                } by {
                    if j < fb.len() {
                        assert(f1[j] == fb[j]);
                        assert(out@[j] == base[j]);
                    } else {
                        assert(f1[j] == g[j - fb.len()]);
                    }
                }
            }
            i = i + 1;
        }
        out
    }

    /// Whether the arguments of `instantiated_generic` satisfy their constraints.
    pub fn check_constraint_satisfaction(
        &self,
        module: &HirModuleSignature,
        instantiated_generic: &HirGenericTy,
        constraints: &Vec<HirGenericConstraint>,
        declaration_span: Span,
    ) -> (b: bool)
        requires
            constraints_decidable(*module, tys_view(instantiated_generic.inner@), constraints@),
        ensures
            b == (constraint_failures(
                tys_view(instantiated_generic.inner@),
                constraints@,
                paired(tys_view(instantiated_generic.inner@), constraints@),
            ).len() == 0),
    {
        self.unsatisfied_constraints(module, instantiated_generic, constraints, declaration_span).len() == 0
    }

    /// An empty pool.
    pub fn new() -> (r: Self)
        ensures
            r.wf(),
            r.structs@.len() == 0,
            r.methods@.len() == 0,
            r.functions@.len() == 0,
            r.unions@.len() == 0,
    {
        HirGenericPool { structs: Vec::new(), methods: Vec::new(), functions: Vec::new(), unions: Vec::new() }
    }
}

} // verus!
