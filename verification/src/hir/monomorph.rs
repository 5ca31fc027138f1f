//! Monomorphization helpers: mangled names of generic instances, and substitution of
//! generic parameters by actual types.
use vstd::prelude::*;
use vstd::string::StringExecFns;
use crate::hir::ty::{c_name, tys_view, ty_view, HirFunctionTy, HirGenericTy, HirInlineArrayTy, HirPtrTy,
    HirSliceTy, HirTy, TyV};
use crate::text::{join, join_strings, seq_lt, str_eq, views};
use crate::utils::Span;
use crate::hir::generic_pool::{add_instance, add_instances, args_instantiated, args_registrations, copy_tys,
    struct_registrations, HirGenericPool};
use crate::hir::keyed::{contains_key, has_key, keep_flagged, reversed};
use crate::hir::signature::{HirFunctionSignature, HirGenericConstraint, HirGenericConstraintKind, HirModuleSignature,
    HirStructMethodSignature, HirStructSignature, HirUnionSignature};
use crate::hir::generic_pool::HirGenericInstance;
use crate::hir::generic_pool::{copyability_undecided, std_copyable};

verus! {

/// The mangled-name fragment of an instance argument: nested generic instances are
/// mangled themselves, other types give their C name.
pub open spec fn mangle_part(t: TyV, kind: Seq<char>) -> Seq<char>
    decreases t, 2nat,
{
    match t {
        TyV::Generic(name, inner, _) => mangled(name, inner, kind),
        _ => c_name(t),
    }
}

/// `__atlas77__<name>__<part>_<part>_..._<part>`; the kind of item does not appear in it.
pub open spec fn mangled(name: Seq<char>, inner: Seq<TyV>, kind: Seq<char>) -> Seq<char>
    decreases inner, 1nat,
{
    "__atlas77__"@ + name + "__"@ + join(mangle_parts(inner, kind), "_"@)
}

pub open spec fn mangle_parts(ts: Seq<TyV>, kind: Seq<char>) -> Seq<Seq<char>>
    decreases ts, 0nat,
{
    if ts.len() == 0 {
        Seq::empty()
    } else {
        mangle_parts(ts.drop_last(), kind).push(mangle_part(ts.last(), kind))
    }
}

/// The fragment of one argument.
fn mangle_part_of(t: &HirTy, kind: &str) -> (r: String)
    ensures
        r@ == mangle_part(t@, kind@),
    decreases t, 1nat,
{
    match t {
        HirTy::Generic(g) => {
            let parts = mangle_parts_of(g, &g.inner, kind);
            let r = mangled_from_parts(g.name.as_str(), &parts);
            proof {
                assert(t@ == TyV::Generic(g.name@, tys_view(g.inner@), g.span));
            }
            r
        },
        _ => t.get_valid_c_string(),
    }
}

/// The fragments of the arguments `ts`, parts of `owner`.
fn mangle_parts_of(owner: &HirGenericTy, ts: &Vec<HirTy>, kind: &str) -> (r: Vec<String>)
    requires
        forall|i: int| 0 <= i < ts@.len() ==> decreases_to!(*owner => #[trigger] ts@[i]),
    ensures
        views(r@) == mangle_parts(tys_view(ts@), kind@),
    decreases owner, 0nat,
{
    let mut out: Vec<String> = Vec::new();
    let mut i: usize = 0;
    while i < ts.len()
        invariant
            i <= ts.len(),
            forall|j: int| 0 <= j < ts@.len() ==> decreases_to!(*owner => #[trigger] ts@[j]),
            views(out@) == mangle_parts(tys_view(ts@.subrange(0, i as int)), kind@),
        decreases ts.len() - i,
    {
        let t = mangle_part_of(&ts[i], kind);
        proof {
            let pre = ts@.subrange(0, i + 1);
            assert(pre.drop_last() =~= ts@.subrange(0, i as int));
            assert(views(out@.push(t)) =~= views(out@).push(t@));
            let pv = tys_view(pre);
            assert(pv == tys_view(ts@.subrange(0, i as int)).push(ty_view(ts@[i as int])));
            assert(pv.drop_last() =~= tys_view(ts@.subrange(0, i as int)));
        }
        out.push(t);
        i = i + 1;
    }
    proof {
        assert(ts@.subrange(0, ts.len() as int) =~= ts@);
    }
    out
}

fn mangled_from_parts(name: &str, parts: &Vec<String>) -> (r: String)
    ensures
        r@ == "__atlas77__"@ + name@ + "__"@ + join(views(parts@), "_"@),
{
    let mut out = String::from_str("__atlas77__");
    out.append(name);
    out.append("__");
    out.append(join_strings(parts, "_").as_str());
    out
}

/// The stable C-level name of a generic instance: `__atlas77__<name>__<arg>_<arg>_..._<arg>`,
/// nested instances mangled in turn. The kind (`struct`, `union`, `function`) is the same
/// for the nested ones and does not appear in the name.
pub fn generate_mangled_name(generic: &HirGenericTy, kind: &str) -> (r: String)
    ensures
        r@ == mangled(generic.name@, tys_view(generic.inner@), kind@),
{
    let parts = mangle_parts_of(generic, &generic.inner, kind);
    mangled_from_parts(generic.name.as_str(), &parts)
}

/// The actual type a generic parameter name stands for: the first entry with that name.
pub open spec fn subst_lookup(subst: Seq<(Seq<char>, TyV)>, name: Seq<char>) -> Option<TyV>
    decreases subst.len(),
{
    if subst.len() == 0 {
        None
    } else if subst[0].0 == name {
        Some(subst[0].1)
    } else {
        subst_lookup(subst.drop_first(), name)
    }
}

/// `t` with each named type that a substitution entry names replaced by the entry's type,
/// inside slices, arrays, generic arguments, pointers and function types.
pub open spec fn swap_ty(t: TyV, subst: Seq<(Seq<char>, TyV)>) -> TyV
    decreases t, 1nat,
{
    match t {
        TyV::Named(n, _) => match subst_lookup(subst, n) {
            Some(a) => a,
            None => t,
        },
        TyV::Slice(inner) => TyV::Slice(Box::new(swap_ty(*inner, subst))),
        TyV::InlineArray(inner, size) => TyV::InlineArray(Box::new(swap_ty(*inner, subst)), size),
        TyV::Generic(name, inner, span) => TyV::Generic(name, swap_tys(inner, subst), span),
        TyV::PtrTy(inner, c, span) => TyV::PtrTy(Box::new(swap_ty(*inner, subst)), c, span),
        TyV::Function(ret, params, span) => TyV::Function(Box::new(swap_ty(*ret, subst)), swap_tys(params, subst), span),
        _ => t,
    }
}

pub open spec fn swap_tys(ts: Seq<TyV>, subst: Seq<(Seq<char>, TyV)>) -> Seq<TyV>
    decreases ts, 0nat,
{
    if ts.len() == 0 {
        Seq::empty()
    } else {
        swap_tys(ts.drop_last(), subst).push(swap_ty(ts.last(), subst))
    }
}

/// With no substitution, a type is left as it is.
pub proof fn lemma_swap_nothing(t: TyV)
    ensures
        swap_ty(t, Seq::empty()) == t,
    decreases t, 1nat,
{
    match t {
        TyV::Slice(inner) => lemma_swap_nothing(*inner),
        TyV::InlineArray(inner, _) => lemma_swap_nothing(*inner),
        TyV::Generic(_, inner, _) => lemma_swap_nothing_all(inner),
        TyV::PtrTy(inner, _, _) => lemma_swap_nothing(*inner),
        TyV::Function(ret, params, _) => {
            lemma_swap_nothing(*ret);
            lemma_swap_nothing_all(params);
        },
        _ => {},
    }
}

proof fn lemma_swap_nothing_all(ts: Seq<TyV>)
    ensures
        swap_tys(ts, Seq::empty()) == ts,
    decreases ts, 0nat,
{
    if ts.len() > 0 {
        lemma_swap_nothing_all(ts.drop_last());
        lemma_swap_nothing(ts.last());
        assert(swap_tys(ts, Seq::empty()) =~= ts);
    }
}

pub open spec fn subst_view(s: Seq<(String, HirTy)>) -> Seq<(Seq<char>, TyV)> {
    s.map_values(|e: (String, HirTy)| (e.0@, e.1@))
}

/// The struct and union instance maps of a pool.
pub type PoolMaps = (Map<Seq<char>, (Seq<char>, Seq<TyV>, Span, bool)>, Map<Seq<char>, (Seq<char>, Seq<TyV>, Span, bool)>);

/// The registrations that changing a generic parameter inside `t` makes, in order: each
/// generic instance rebuilt (after its arguments) is registered as a struct instance
/// (`true`) when the module has a struct of its name, else as a union instance (`false`)
/// when the module has such a union.
pub open spec fn change_events(m: HirModuleSignature, t: TyV, subst: Seq<(Seq<char>, TyV)>) -> Seq<(bool, TyV)>
    decreases t, 1nat,
{
    match t {
        TyV::Slice(inner) => change_events(m, *inner, subst),
        TyV::InlineArray(inner, _) => change_events(m, *inner, subst),
        TyV::PtrTy(inner, _, _) => change_events(m, *inner, subst),
        TyV::Generic(name, inner, span) => {
            let rebuilt = TyV::Generic(name, swap_tys(inner, subst), span);
            change_events_all(m, inner, subst) + (if has_key(m.structs@, name) {
                seq![(true, rebuilt)]
            } else if has_key(m.unions@, name) {
                seq![(false, rebuilt)]
            } else {
                Seq::empty()
            })
        },
        TyV::Function(ret, params, _) => change_events(m, *ret, subst) + change_events_all(m, params, subst),
        _ => Seq::empty(),
    }
}

pub open spec fn change_events_all(m: HirModuleSignature, ts: Seq<TyV>, subst: Seq<(Seq<char>, TyV)>) -> Seq<(bool, TyV)>
    decreases ts, 0nat,
{
    if ts.len() == 0 {
        Seq::empty()
    } else {
        change_events_all(m, ts.drop_last(), subst) + change_events(m, ts.last(), subst)
    }
}

/// The pool's maps after one registration (see `register_struct_instance` and
/// `register_union_instance`).
pub open spec fn apply_event(m: HirModuleSignature, s: PoolMaps, e: (bool, TyV)) -> PoolMaps {
    if e.0 {
        (add_instances(s.0, struct_registrations(m, e.1), "struct"@), s.1)
    } else {
        match e.1 {
            TyV::Generic(_, inner, _) => (
                add_instances(s.0, args_registrations(m, inner), "struct"@),
                if args_instantiated(m, inner) { add_instance(s.1, e.1, "union"@) } else { s.1 },
            ),
            _ => s,
        }
    }
}

pub open spec fn apply_events(m: HirModuleSignature, s: PoolMaps, es: Seq<(bool, TyV)>) -> PoolMaps
    decreases es.len(),
{
    if es.len() == 0 {
        s
    } else {
        apply_event(m, apply_events(m, s, es.drop_last()), es.last())
    }
}

pub(crate) proof fn lemma_apply_events_append(m: HirModuleSignature, s: PoolMaps, a: Seq<(bool, TyV)>, b: Seq<(bool, TyV)>)
    ensures
        apply_events(m, s, a + b) == apply_events(m, apply_events(m, s, a), b),
    decreases b.len(),
{
    if b.len() == 0 {
        assert(a + b =~= a);
    } else {
        lemma_apply_events_append(m, s, a, b.drop_last());
        assert((a + b).drop_last() =~= a + b.drop_last());
    }
}

proof fn lemma_apply_one(m: HirModuleSignature, s: PoolMaps, e: (bool, TyV))
    ensures
        apply_events(m, s, seq![e]) == apply_event(m, s, e),
{
    assert(seq![e].drop_last() =~= Seq::<(bool, TyV)>::empty());
    assert(apply_events(m, s, seq![e].drop_last()) == s);
}

/// The maps of a pool.
pub open spec fn pool_maps(p: HirGenericPool) -> PoolMaps {
    (p.structs_map(), p.unions_map())
}

/// The index of the first generic parameter called `name`.
pub open spec fn generic_position(gs: Seq<HirGenericConstraint>, name: Seq<char>) -> Option<int>
    decreases gs.len(),
{
    if gs.len() == 0 {
        None
    } else if gs[0].generic_name@ == name {
        Some(0)
    } else {
        match generic_position(gs.drop_first(), name) {
            Some(i) => Some(i + 1),
            None => None,
        }
    }
}

/// The outcome of checking the constraint kinds `ks` on `t`, one after the other until
/// one fails: `Some(false)` when `t` is not `std::copyable` though asked to be, `None` when
/// the check stops the compiler (see `copyability_undecided`); other kinds pass.
pub open spec fn kinds_outcome(m: HirModuleSignature, t: TyV, ks: Seq<HirGenericConstraintKind>) -> Option<bool>
    decreases ks.len(),
{
    if ks.len() == 0 {
        Some(true)
    } else {
        let first = if ks[0] matches HirGenericConstraintKind::Std { name, .. } && name@ == "copyable"@ {
            if copyability_undecided(m, t) {
                None
            } else {
                Some(std_copyable(t))
            }
        } else {
            Some(true)
        };
        match first {
            Some(true) => kinds_outcome(m, t, ks.drop_first()),
            other => other,
        }
    }
}

/// The outcome of a method's `where` constraint for the actual arguments of its struct: a
/// constraint on a parameter the struct does not have passes; one on a parameter beyond
/// the actual arguments fails.
pub open spec fn where_constraint_outcome(
    m: HirModuleSignature,
    struct_generics: Seq<HirGenericConstraint>,
    actual: Seq<TyV>,
    c: HirGenericConstraint,
) -> Option<bool> {
    match generic_position(struct_generics, c.generic_name@) {
        None => Some(true),
        Some(i) => if i >= actual.len() { Some(false) } else { kinds_outcome(m, actual[i], c.kind@) },
    }
}

/// The outcome of the constraints `wc`, one after the other until one fails.
pub open spec fn where_outcome(
    m: HirModuleSignature,
    struct_generics: Seq<HirGenericConstraint>,
    actual: Seq<TyV>,
    wc: Seq<HirGenericConstraint>,
) -> Option<bool>
    decreases wc.len(),
{
    if wc.len() == 0 {
        Some(true)
    } else {
        match where_constraint_outcome(m, struct_generics, actual, wc[0]) {
            Some(true) => where_outcome(m, struct_generics, actual, wc.drop_first()),
            other => other,
        }
    }
}

/// A request to instantiate a generic method of a generic struct.
#[derive(Debug)]
pub struct MethodMonomorphizationRequest {
    pub owner_name: String,
    pub method_name: String,
    pub generic_args: Vec<HirTy>,
    pub span: Span,
}

/// Some instance of `list` instantiates the item `name`.
pub open spec fn instantiates(list: Seq<(String, HirGenericInstance)>, name: Seq<char>) -> bool {
    exists|i: int| 0 <= i < list.len() && (#[trigger] list[i]).1.name@ == name
}

/// A struct signature that `clear_generic` keeps: no instance was made of it, and it is
/// itself an instantiated (or non-generic) struct.
pub open spec fn keeps_struct(pool: HirGenericPool) -> spec_fn((String, HirStructSignature)) -> bool {
    |e: (String, HirStructSignature)| !instantiates(pool.structs@, e.0@) && e.1.is_instantiated
}

/// A function signature that `clear_generic` keeps: no instance was made of it, and it is
/// instantiated, external or intrinsic.
pub open spec fn keeps_function(pool: HirGenericPool) -> spec_fn((String, HirFunctionSignature)) -> bool {
    |e: (String, HirFunctionSignature)| !instantiates(pool.functions@, e.0@)
        && (e.1.is_instantiated || e.1.is_external || e.1.is_intrinsic)
}

/// A union signature that `clear_generic` keeps: no instance was made of it, and it is
/// instantiated.
pub open spec fn keeps_union(pool: HirGenericPool) -> spec_fn((String, HirUnionSignature)) -> bool {
    |e: (String, HirUnionSignature)| !instantiates(pool.unions@, e.0@) && e.1.is_instantiated
}

/// A method that is not a generic template.
pub open spec fn concrete_method() -> spec_fn((String, HirStructMethodSignature)) -> bool {
    |m: (String, HirStructMethodSignature)| m.1.generics is None
}

/// `b` is `a` with its generic method templates removed.
pub open spec fn without_generic_methods(a: HirStructSignature, b: HirStructSignature) -> bool {
    &&& b.methods@ == a.methods@.filter(concrete_method())
    &&& b == (HirStructSignature { methods: b.methods, ..a })
}

/// `after` holds the struct signatures of `before` that `clear_generic` keeps, in their
/// order, each without its generic method templates.
pub open spec fn cleared_structs(pool: HirGenericPool, before: Seq<(String, HirStructSignature)>,
    after: Seq<(String, HirStructSignature)>) -> bool {
    let kept = before.filter(keeps_struct(pool));
    &&& after.len() == kept.len()
    &&& forall|i: int| 0 <= i < after.len() ==> (#[trigger] after[i]).0 == kept[i].0
        && without_generic_methods(kept[i].1, after[i].1)
}

/// Clearing twice with the same pool is clearing once: the second clearing keeps every
/// struct, function and union that the first kept, each struct with the same methods.
pub proof fn lemma_clear_generic_idempotent(
    pool: HirGenericPool,
    structs0: Seq<(String, HirStructSignature)>,
    structs1: Seq<(String, HirStructSignature)>,
    structs2: Seq<(String, HirStructSignature)>,
    functions0: Seq<(String, HirFunctionSignature)>,
    unions0: Seq<(String, HirUnionSignature)>,
)
    requires
        cleared_structs(pool, structs0, structs1),
        cleared_structs(pool, structs1, structs2),
    ensures
        structs2.len() == structs1.len(),
        forall|i: int| 0 <= i < structs2.len() ==> (#[trigger] structs2[i]).0 == structs1[i].0
            && structs2[i].1.methods@ == structs1[i].1.methods@
            && structs2[i].1 == (HirStructSignature { methods: structs2[i].1.methods, ..structs1[i].1 }),
        functions0.filter(keeps_function(pool)).filter(keeps_function(pool)) == functions0.filter(keeps_function(pool)),
        unions0.filter(keeps_union(pool)).filter(keeps_union(pool)) == unions0.filter(keeps_union(pool)),
{
    let kept0 = structs0.filter(keeps_struct(pool));
    assert forall|i: int| 0 <= i < structs1.len() implies keeps_struct(pool)(#[trigger] structs1[i]) by {
        structs0.lemma_filter_pred(keeps_struct(pool), i);
        assert(structs1[i].1.is_instantiated == kept0[i].1.is_instantiated);
    }
    crate::hir::keyed::lemma_filter_all(structs1, keeps_struct(pool));
    assert forall|i: int| 0 <= i < structs2.len() implies (#[trigger] structs2[i]).0 == structs1[i].0
        && structs2[i].1.methods@ == structs1[i].1.methods@
        && structs2[i].1 == (HirStructSignature { methods: structs2[i].1.methods, ..structs1[i].1 }) by {
        let m0 = kept0[i].1.methods@;
        assert(structs1[i].1.methods@ == m0.filter(concrete_method()));
        crate::hir::keyed::lemma_filter_twice(m0, concrete_method());
    }
    crate::hir::keyed::lemma_filter_twice(functions0, keeps_function(pool));
    crate::hir::keyed::lemma_filter_twice(unions0, keeps_union(pool));
}

/// Whether some instance of `list` instantiates `name`.
fn names_an_instance(list: &Vec<(String, HirGenericInstance)>, name: &String) -> (r: bool)
    ensures
        r == instantiates(list@, name@),
{
    let mut i: usize = 0;
    while i < list.len()
        invariant
            i <= list.len(),
            forall|k: int| 0 <= k < i ==> (#[trigger] list@[k]).1.name@ != name@,
        decreases list.len() - i,
    {
        if list[i].1.name == *name {
            return true;
        }
        i = i + 1;
    }
    false
}

/// The struct without its generic method templates.
fn strip_generic_methods(s: HirStructSignature) -> (r: HirStructSignature)
    ensures
        without_generic_methods(s, r),
{
    let mut s = s;
    let ghost before = s;
    let mut methods: Vec<(String, HirStructMethodSignature)> = Vec::new();
    std::mem::swap(&mut methods, &mut s.methods);
    let mut flags: Vec<bool> = Vec::new();
    let mut i: usize = 0;
    while i < methods.len()
        invariant
            i <= methods.len(),
            flags@.len() == i,
            forall|k: int| 0 <= k < i ==> flags@[k] == concrete_method()(#[trigger] methods@[k]),
        decreases methods.len() - i,
    {
        flags.push(methods[i].1.generics.is_none());
        i = i + 1;
    }
    let kept = keep_flagged(methods, &flags, Ghost(concrete_method()));
    s.methods = kept;
    s
}

/// Each struct of `v`, in order, without its generic method templates.
fn strip_all_generic_methods(v: Vec<(String, HirStructSignature)>) -> (r: Vec<(String, HirStructSignature)>)
    ensures
        r@.len() == v@.len(),
        forall|i: int| 0 <= i < r@.len() ==> (#[trigger] r@[i]).0 == v@[i].0
            && without_generic_methods(v@[i].1, r@[i].1),
{
    let ghost all = v@;
    let mut back = reversed(v);
    let mut out: Vec<(String, HirStructSignature)> = Vec::new();
    while back.len() > 0
        invariant
            all.take(out@.len() as int) + back@.reverse() == all,
            out@.len() + back@.len() == all.len(),
            forall|i: int| 0 <= i < out@.len() ==> (#[trigger] out@[i]).0 == all[i].0
                && without_generic_methods(all[i].1, out@[i].1),
        decreases back.len(),
    {
        let ghost prev = back@;
        let ghost k = out@.len() as int;
        let (name, sig) = back.pop().unwrap();
        proof {
            assert(prev =~= back@.push((name, sig)));
            assert(back@.push((name, sig)).reverse() =~= seq![(name, sig)] + back@.reverse());
            assert(all[k] == (all.take(k) + prev.reverse())[k]);
            assert(all[k] == (name, sig));
            assert(all.take(k + 1) =~= all.take(k).push((name, sig)));
            assert(all.take(k + 1) + back@.reverse() =~= all.take(k) + prev.reverse());
        }
        out.push((name, strip_generic_methods(sig)));
    }
    proof {
        assert(all.take(out@.len() as int) =~= all);
    }
    out
}

/// The monomorphization pass: the generic instances still to produce.
pub struct MonomorphizationPass {
    pub generic_pool: crate::hir::generic_pool::HirGenericPool,
}

impl MonomorphizationPass {
    pub fn new(generic_pool: crate::hir::generic_pool::HirGenericPool) -> (r: Self)
        ensures
            r.generic_pool == generic_pool,
    {
        MonomorphizationPass { generic_pool }
    }

    /// Clears the generic templates from a module signature: the structs, functions and
    /// unions of which an instance was made, and those not instantiated (for functions, also
    /// not external nor intrinsic); then the generic method templates of the structs kept.
    /// The module's bodies are not modelled here: the same names leave them.
    pub fn clear_generic(&mut self, module: &mut HirModuleSignature)
        ensures
            final(self).generic_pool == old(self).generic_pool,
            cleared_structs(old(self).generic_pool, old(module).structs@, final(module).structs@),
            final(module).functions@ == old(module).functions@.filter(keeps_function(old(self).generic_pool)),
            final(module).unions@ == old(module).unions@.filter(keeps_union(old(self).generic_pool)),
            final(module).enums == old(module).enums,
            final(module).docstring == old(module).docstring,
            final(module).module_name == old(module).module_name,
            final(module).imported_modules == old(module).imported_modules,
            old(module).wf() ==> final(module).wf(),
    {
        let ghost pool = self.generic_pool;
        let ghost m0 = *module;
        let mut structs: Vec<(String, HirStructSignature)> = Vec::new();
        std::mem::swap(&mut structs, &mut module.structs);
        let mut flags: Vec<bool> = Vec::new();
        let mut i: usize = 0;
        while i < structs.len()
            invariant
                i <= structs.len(),
                flags@.len() == i,
                pool == self.generic_pool,
                forall|k: int| 0 <= k < i ==> flags@[k] == keeps_struct(pool)(#[trigger] structs@[k]),
            decreases structs.len() - i,
        {
            let keep = !names_an_instance(&self.generic_pool.structs, &structs[i].0) && structs[i].1.is_instantiated;
            flags.push(keep);
            i = i + 1;
        }
        let kept = keep_flagged(structs, &flags, Ghost(keeps_struct(pool)));
        module.structs = strip_all_generic_methods(kept);

        let mut functions: Vec<(String, HirFunctionSignature)> = Vec::new();
        std::mem::swap(&mut functions, &mut module.functions);
        let mut flags: Vec<bool> = Vec::new();
        let mut i: usize = 0;
        while i < functions.len()
            invariant
                i <= functions.len(),
                flags@.len() == i,
                pool == self.generic_pool,
                forall|k: int| 0 <= k < i ==> flags@[k] == keeps_function(pool)(#[trigger] functions@[k]),
            decreases functions.len() - i,
        {
            let f = &functions[i].1;
            let keep = !names_an_instance(&self.generic_pool.functions, &functions[i].0)
                && (f.is_instantiated || f.is_external || f.is_intrinsic);
            flags.push(keep);
            i = i + 1;
        }
        module.functions = keep_flagged(functions, &flags, Ghost(keeps_function(pool)));

        let mut unions: Vec<(String, HirUnionSignature)> = Vec::new();
        std::mem::swap(&mut unions, &mut module.unions);
        let mut flags: Vec<bool> = Vec::new();
        let mut i: usize = 0;
        while i < unions.len()
            invariant
                i <= unions.len(),
                flags@.len() == i,
                pool == self.generic_pool,
                forall|k: int| 0 <= k < i ==> flags@[k] == keeps_union(pool)(#[trigger] unions@[k]),
            decreases unions.len() - i,
        {
            let keep = !names_an_instance(&self.generic_pool.unions, &unions[i].0) && unions[i].1.is_instantiated;
            flags.push(keep);
            i = i + 1;
        }
        module.unions = keep_flagged(unions, &flags, Ghost(keeps_union(pool)));
        proof {
            if m0.wf() {
                let kept = m0.structs@.filter(keeps_struct(pool));
                crate::hir::keyed::lemma_filter_sorted(m0.structs@, keeps_struct(pool));
                assert forall|i: int, j: int| 0 <= i < j < module.structs@.len()
                    implies seq_lt(#[trigger] module.structs@[i].0@, #[trigger] module.structs@[j].0@) by {
                    assert(module.structs@[i].0 == kept[i].0 && module.structs@[j].0 == kept[j].0);
                }
                crate::hir::keyed::lemma_filter_sorted(m0.functions@, keeps_function(pool));
                crate::hir::keyed::lemma_filter_sorted(m0.unions@, keeps_union(pool));
            }
        }
    }

    /// The type of the entry for `name`, if any.
    fn lookup<'a>(types_to_change: &'a Vec<(String, HirTy)>, name: &str) -> (r: Option<&'a HirTy>)
        ensures
            match subst_lookup(subst_view(types_to_change@), name@) {
                Some(a) => r matches Some(t) && t@ == a,
                None => r is None,
            },
    {
        let mut k: usize = 0;
        proof {
            assert(subst_view(types_to_change@).subrange(0, types_to_change@.len() as int) =~= subst_view(types_to_change@));
        }
        while k < types_to_change.len()
            invariant
                k <= types_to_change.len(),
                subst_lookup(subst_view(types_to_change@), name@)
                    == subst_lookup(subst_view(types_to_change@).subrange(k as int, types_to_change@.len() as int), name@),
            decreases types_to_change.len() - k,
        {
            proof {
                let rest = subst_view(types_to_change@).subrange(k as int, types_to_change@.len() as int);
                assert(rest.drop_first() =~= subst_view(types_to_change@).subrange(k + 1, types_to_change@.len() as int));
                assert(rest[0] == (types_to_change@[k as int].0@, types_to_change@[k as int].1@));
            }
            if str_eq(types_to_change[k].0.as_str(), name) {
                return Some(&types_to_change[k].1);
            }
            k = k + 1;
        }
        None
    }

    /// `ty` with each generic parameter named in `types_to_change` replaced by its actual
    /// type.
    pub fn swap_generic_types_in_ty(&self, ty: &HirTy, types_to_change: &Vec<(String, HirTy)>) -> (r: HirTy)
        ensures
            r@ == swap_ty(ty@, subst_view(types_to_change@)),
        decreases ty, 1nat,
    {
        match ty {
            HirTy::Named(n) => match Self::lookup(types_to_change, n.name.as_str()) {
                Some(actual) => actual.duplicate(),
                None => ty.duplicate(),
            },
            HirTy::Slice(l) => HirTy::Slice(HirSliceTy { inner: Box::new(self.swap_generic_types_in_ty(&l.inner, types_to_change)) }),
            HirTy::InlineArray(arr) => HirTy::InlineArray(HirInlineArrayTy {
                inner: Box::new(self.swap_generic_types_in_ty(&arr.inner, types_to_change)),
                size: arr.size,
            }),
            HirTy::Generic(g) => {
                let inner = self.swap_all(ty, &g.inner, types_to_change);
                HirTy::Generic(HirGenericTy { name: g.name.clone(), inner, span: g.span })
            },
            HirTy::PtrTy(p) => HirTy::PtrTy(HirPtrTy {
                inner: Box::new(self.swap_generic_types_in_ty(&p.inner, types_to_change)),
                is_const: p.is_const,
                span: p.span,
            }),
            HirTy::Function(f) => {
                let ret = self.swap_generic_types_in_ty(&f.ret_ty, types_to_change);
                let params = self.swap_all(ty, &f.params, types_to_change);
                HirTy::Function(HirFunctionTy { ret_ty: Box::new(ret), params, span: f.span })
            },
            _ => ty.duplicate(),
        }
    }

    /// The substitution applied to the types `ts`, parts of `owner`.
    fn swap_all(&self, owner: &HirTy, ts: &Vec<HirTy>, types_to_change: &Vec<(String, HirTy)>) -> (r: Vec<HirTy>)
        requires
            forall|i: int| 0 <= i < ts@.len() ==> decreases_to!(*owner => #[trigger] ts@[i]),
        ensures
            tys_view(r@) == swap_tys(tys_view(ts@), subst_view(types_to_change@)),
        decreases owner, 0nat,
    {
        let mut out: Vec<HirTy> = Vec::new();
        let mut i: usize = 0;
        while i < ts.len()
            invariant
                i <= ts.len(),
                forall|j: int| 0 <= j < ts@.len() ==> decreases_to!(*owner => #[trigger] ts@[j]),
                tys_view(out@) == swap_tys(tys_view(ts@.subrange(0, i as int)), subst_view(types_to_change@)),
            decreases ts.len() - i,
        {
            let t = self.swap_generic_types_in_ty(&ts[i], types_to_change);
            proof {
                let pre = ts@.subrange(0, i + 1);
                assert(pre.drop_last() =~= ts@.subrange(0, i as int));
                let pv = tys_view(pre);
                assert(pv == tys_view(ts@.subrange(0, i as int)).push(ty_view(ts@[i as int])));
                assert(pv.drop_last() =~= tys_view(ts@.subrange(0, i as int)));
                assert(out@.push(t).drop_last() =~= out@);
            }
            out.push(t);
            i = i + 1;
        }
        proof {
            assert(ts@.subrange(0, ts.len() as int) =~= ts@);
        }
        out
    }

    /// The index of the first parameter called `name` among `gs`.
    fn generic_index(gs: &Vec<HirGenericConstraint>, name: &str) -> (r: Option<usize>)
        ensures
            r matches Some(k) ==> generic_position(gs@, name@) == Some(k as int),
            r is None ==> generic_position(gs@, name@) is None,
    {
        let mut k: usize = 0;
        proof {
            assert(gs@.skip(0) =~= gs@);
        }
        while k < gs.len()
            invariant
                k <= gs@.len(),
                match generic_position(gs@, name@) {
                    Some(i) => match generic_position(gs@.skip(k as int), name@) {
                        Some(j) => i == j + k,
                        None => false,
                    },
                    None => generic_position(gs@.skip(k as int), name@) is None,
                },
            decreases gs.len() - k,
        {
            if str_eq(gs[k].generic_name.as_str(), name) {
                return Some(k);
            }
            proof {
                assert(gs@.skip(k as int).drop_first() =~= gs@.skip(k + 1));
            }
            k = k + 1;
        }
        None
    }

    /// Whether the concrete arguments of the struct instance `actual_type` satisfy a
    /// method's `where` constraints on the struct's generic parameters (see
    /// `where_outcome`).
    pub fn check_where_constraints_on_method(
        &self,
        where_clause: &Vec<HirGenericConstraint>,
        struct_generics: &Vec<HirGenericConstraint>,
        actual_type: &HirGenericTy,
        module_sig: &HirModuleSignature,
    ) -> (b: bool)
        requires
            where_outcome(*module_sig, struct_generics@, tys_view(actual_type.inner@), where_clause@) is Some,
        ensures
            where_outcome(*module_sig, struct_generics@, tys_view(actual_type.inner@), where_clause@) == Some(b),
    {
        let ghost actual = tys_view(actual_type.inner@);
        proof {
            crate::hir::ty::lemma_tys_view_len(actual_type.inner@);
            assert(where_clause@.skip(0) =~= where_clause@);
        }
        let mut c: usize = 0;
        while c < where_clause.len()
            invariant
                c <= where_clause@.len(),
                actual == tys_view(actual_type.inner@),
                actual.len() == actual_type.inner@.len(),
                forall|q: int| 0 <= q < actual.len() ==> #[trigger] actual[q] == ty_view(actual_type.inner@[q]),
                where_outcome(*module_sig, struct_generics@, actual, where_clause@)
                    == where_outcome(*module_sig, struct_generics@, actual, where_clause@.skip(c as int)),
                where_outcome(*module_sig, struct_generics@, actual, where_clause@) is Some,
            decreases where_clause.len() - c,
        {
            let constraint = &where_clause[c];
            proof {
                assert(where_clause@.skip(c as int)[0] == *constraint);
                assert(where_clause@.skip(c as int).drop_first() =~= where_clause@.skip(c + 1));
            }
            match Self::generic_index(struct_generics, constraint.generic_name.as_str()) {
                Some(index) => {
                    if index >= actual_type.inner.len() {
                        return false;
                    }
                    let concrete_type = &actual_type.inner[index];
                    let kinds = &constraint.kind;
                    let ghost total = where_outcome(*module_sig, struct_generics@, actual, where_clause@);
                    let ghost rest = where_outcome(*module_sig, struct_generics@, actual, where_clause@.skip(c + 1));
                    let mut k: usize = 0;
                    proof {
                        assert(kinds@.skip(0) =~= kinds@);
                        assert(concrete_type@ == actual[index as int]);
                        assert(total == match kinds_outcome(*module_sig, concrete_type@, kinds@) {
                            Some(true) => rest,
                            other => other,
                        });
                    }
                    while k < kinds.len()
                        invariant
                            k <= kinds@.len(),
                            kinds@ == constraint.kind@,
                            total == where_outcome(*module_sig, struct_generics@, actual, where_clause@),
                            actual == tys_view(actual_type.inner@),
                            total is Some,
                            total == match kinds_outcome(*module_sig, concrete_type@, kinds@) {
                                Some(true) => rest,
                                other => other,
                            },
                            kinds_outcome(*module_sig, concrete_type@, kinds@)
                                == kinds_outcome(*module_sig, concrete_type@, kinds@.skip(k as int)),
                        decreases kinds.len() - k,
                    {
                        proof {
                            assert(kinds@.skip(k as int)[0] == kinds@[k as int]);
                            assert(kinds@.skip(k as int).drop_first() =~= kinds@.skip(k + 1));
                        }
                        match &kinds[k] {
                            HirGenericConstraintKind::Std { name, .. } => {
                                if str_eq(name.as_str(), "copyable")
                                    && !self.generic_pool.implements_std_copyable(module_sig, concrete_type) {
                                    proof {
                                        let sk = kinds@.skip(k as int);
                                        assert(sk[0] matches HirGenericConstraintKind::Std { name, .. } && name@ == "copyable"@);
                                        assert(kinds_outcome(*module_sig, concrete_type@, sk) == Some(false));
                                    }
                                    return false;
                                }
                            },
                            _ => {},
                        }
                        k = k + 1;
                    }
                    proof {
                        assert(kinds@.skip(k as int) =~= Seq::<HirGenericConstraintKind>::empty());
                    }
                },
                None => {},
            }
            c = c + 1;
        }
        true
    }

    /// `type_to_change` with the generic parameter `generic_name` replaced by `new_type`
    /// everywhere in it; each generic instance rebuilt on the way is registered in the pool
    /// as a struct or union instance, as the module declares its name (see `change_events`).
    pub fn change_inner_type(
        &mut self,
        type_to_change: &HirTy,
        generic_name: &str,
        new_type: &HirTy,
        module: &HirModuleSignature,
    ) -> (r: HirTy)
        requires
            old(self).generic_pool.wf(),
        ensures
            r@ == swap_ty(type_to_change@, seq![(generic_name@, new_type@)]),
            final(self).generic_pool.wf(),
            pool_maps(final(self).generic_pool) == apply_events(*module, pool_maps(old(self).generic_pool),
                change_events(*module, type_to_change@, seq![(generic_name@, new_type@)])),
            final(self).generic_pool.functions@ == old(self).generic_pool.functions@,
            final(self).generic_pool.methods@ == old(self).generic_pool.methods@,
        decreases type_to_change, 1nat,
    {
        let ghost subst = seq![(generic_name@, new_type@)];
        let ghost s0 = pool_maps(self.generic_pool);
        proof {
            assert(subst.drop_first() =~= Seq::<(Seq<char>, TyV)>::empty());
        }
        match type_to_change {
            HirTy::Named(n) => {
                proof {
                    assert(apply_events(*module, s0, Seq::empty()) == s0);
                    assert(subst_lookup(subst.drop_first(), n.name@) is None);
                    assert(type_to_change@ == TyV::Named(n.name@, n.span));
                }
                if str_eq(n.name.as_str(), generic_name) {
                    new_type.duplicate()
                } else {
                    type_to_change.duplicate()
                }
            },
            HirTy::Slice(l) => HirTy::Slice(HirSliceTy {
                inner: Box::new(self.change_inner_type(&l.inner, generic_name, new_type, module)),
            }),
            HirTy::InlineArray(arr) => HirTy::InlineArray(HirInlineArrayTy {
                inner: Box::new(self.change_inner_type(&arr.inner, generic_name, new_type, module)),
                size: arr.size,
            }),
            HirTy::Generic(g) => {
                let inner = self.change_all(type_to_change, &g.inner, generic_name, new_type, module);
                let ghost s1 = pool_maps(self.generic_pool);
                let generic_ty = HirGenericTy { name: g.name.clone(), inner, span: g.span };
                let res = HirTy::Generic(HirGenericTy { name: g.name.clone(), inner: copy_tys(&generic_ty.inner), span: g.span });
                let ghost rebuilt = TyV::Generic(g.name@, swap_tys(tys_view(g.inner@), subst), g.span);
                let ghost evs = change_events_all(*module, tys_view(g.inner@), subst);
                if contains_key(&module.structs, g.name.as_str()) {
                    self.generic_pool.register_struct_instance(generic_ty, module);
                    proof {
                        lemma_apply_events_append(*module, s0, evs, seq![(true, rebuilt)]);
                        lemma_apply_one(*module, s1, (true, rebuilt));
                    }
                } else if contains_key(&module.unions, g.name.as_str()) {
                    self.generic_pool.register_union_instance(&generic_ty, module);
                    proof {
                        lemma_apply_events_append(*module, s0, evs, seq![(false, rebuilt)]);
                        lemma_apply_one(*module, s1, (false, rebuilt));
                    }
                } else {
                    proof {
                        assert(evs + Seq::<(bool, TyV)>::empty() =~= evs);
                    }
                }
                res
            },
            HirTy::Function(f) => {
                let ret = self.change_inner_type(&f.ret_ty, generic_name, new_type, module);
                let params = self.change_all(type_to_change, &f.params, generic_name, new_type, module);
                proof {
                    lemma_apply_events_append(*module, s0, change_events(*module, f.ret_ty@, subst),
                        change_events_all(*module, tys_view(f.params@), subst));
                }
                HirTy::Function(HirFunctionTy { ret_ty: Box::new(ret), params, span: f.span })
            },
            HirTy::PtrTy(p) => HirTy::PtrTy(HirPtrTy {
                inner: Box::new(self.change_inner_type(&p.inner, generic_name, new_type, module)),
                is_const: p.is_const,
                span: p.span,
            }),
            _ => {
                proof {
                    assert(apply_events(*module, s0, Seq::empty()) == s0);
                }
                type_to_change.duplicate()
            },
        }
    }

    /// `change_inner_type` on each of the types `ts`, parts of `owner`, in order.
    fn change_all(
        &mut self,
        owner: &HirTy,
        ts: &Vec<HirTy>,
        generic_name: &str,
        new_type: &HirTy,
        module: &HirModuleSignature,
    ) -> (r: Vec<HirTy>)
        requires
            old(self).generic_pool.wf(),
            forall|i: int| 0 <= i < ts@.len() ==> decreases_to!(*owner => #[trigger] ts@[i]),
        ensures
            tys_view(r@) == swap_tys(tys_view(ts@), seq![(generic_name@, new_type@)]),
            final(self).generic_pool.wf(),
            pool_maps(final(self).generic_pool) == apply_events(*module, pool_maps(old(self).generic_pool),
                change_events_all(*module, tys_view(ts@), seq![(generic_name@, new_type@)])),
            final(self).generic_pool.functions@ == old(self).generic_pool.functions@,
            final(self).generic_pool.methods@ == old(self).generic_pool.methods@,
        decreases owner, 0nat,
    {
        let ghost subst = seq![(generic_name@, new_type@)];
        let ghost s0 = pool_maps(self.generic_pool);
        let ghost f0 = self.generic_pool.functions@;
        let ghost m0 = self.generic_pool.methods@;
        let mut out: Vec<HirTy> = Vec::new();
        let mut i: usize = 0;
        proof {
            assert(ts@.subrange(0, 0) =~= Seq::<HirTy>::empty());
        }
        while i < ts.len()
            invariant
                i <= ts.len(),
                forall|j: int| 0 <= j < ts@.len() ==> decreases_to!(*owner => #[trigger] ts@[j]),
                subst == seq![(generic_name@, new_type@)],
                tys_view(out@) == swap_tys(tys_view(ts@.subrange(0, i as int)), subst),
                self.generic_pool.wf(),
                pool_maps(self.generic_pool) == apply_events(*module, s0, change_events_all(*module, tys_view(ts@.subrange(0, i as int)), subst)),
                self.generic_pool.functions@ == f0,
                self.generic_pool.methods@ == m0,
            decreases ts.len() - i,
        {
            let t = self.change_inner_type(&ts[i], generic_name, new_type, module);
            proof {
                let pre = ts@.subrange(0, i + 1);
                assert(pre.drop_last() =~= ts@.subrange(0, i as int));
                let pv = tys_view(pre);
                assert(pv == tys_view(ts@.subrange(0, i as int)).push(ty_view(ts@[i as int])));
                assert(pv.drop_last() =~= tys_view(ts@.subrange(0, i as int)));
                assert(out@.push(t).drop_last() =~= out@);
                lemma_apply_events_append(*module, s0, change_events_all(*module, tys_view(ts@.subrange(0, i as int)), subst),
                    change_events(*module, ty_view(ts@[i as int]), subst));
            }
            out.push(t);
            i = i + 1;
        }
        proof {
            assert(ts@.subrange(0, ts.len() as int) =~= ts@);
        }
        out
    }
}


/// Some argument is a name one byte long: a generic parameter, as the syntax lowering
/// tells them.
pub open spec fn has_parameter_arg(inner: Seq<TyV>) -> bool {
    exists|i: int| 0 <= i < inner.len() && (#[trigger] inner[i] matches TyV::Named(n, _) && crate::text::bytes_len(n) == 1)
}

/// The struct registrations that lowering a generic type makes, in order: those of the
/// generic instances among its arguments, then the type itself unless one of its
/// arguments is a generic parameter.
pub open spec fn lowering_events(g: TyV) -> Seq<(bool, TyV)>
    decreases g, 1nat,
{
    match g {
        TyV::Generic(_, inner, _) => lowering_events_all(inner) + (if has_parameter_arg(inner) {
            Seq::empty()
        } else {
            seq![(true, g)]
        }),
        _ => Seq::empty(),
    }
}

pub open spec fn lowering_events_all(ts: Seq<TyV>) -> Seq<(bool, TyV)>
    decreases ts, 0nat,
{
    if ts.len() == 0 {
        Seq::empty()
    } else {
        lowering_events_all(ts.drop_last()) + match ts.last() {
            TyV::Generic(..) => lowering_events(ts.last()),
            _ => Seq::empty(),
        }
    }
}

/// Registers the struct instances that a generic type written in the source stands for
/// (see `lowering_events`); the type itself is handed back.
pub fn register_generic_type(pool: &mut HirGenericPool, module: &HirModuleSignature, generic_type: &HirGenericTy) -> (r: HirTy)
    requires
        old(pool).wf(),
    ensures
        r@ == crate::hir::generic_pool::generic_view(*generic_type),
        final(pool).wf(),
        pool_maps(*final(pool)) == apply_events(*module, pool_maps(*old(pool)),
            lowering_events(crate::hir::generic_pool::generic_view(*generic_type))),
        final(pool).functions@ == old(pool).functions@,
        final(pool).methods@ == old(pool).methods@,
    decreases generic_type, 2nat,
{
    let ghost s0 = pool_maps(*pool);
    let ghost gv = crate::hir::generic_pool::generic_view(*generic_type);
    let found = register_generic_args(pool, module, generic_type, &generic_type.inner);
    let ghost s1 = pool_maps(*pool);
    let ghost evs = lowering_events_all(tys_view(generic_type.inner@));
    if !found {
        let copy = HirGenericTy { name: generic_type.name.clone(), inner: copy_tys(&generic_type.inner), span: generic_type.span };
        pool.register_struct_instance(copy, module);
        proof {
            lemma_apply_events_append(*module, s0, evs, seq![(true, gv)]);
            lemma_apply_one(*module, s1, (true, gv));
        }
    } else {
        proof {
            assert(evs + Seq::<(bool, TyV)>::empty() =~= evs);
        }
    }
    HirTy::Generic(HirGenericTy { name: generic_type.name.clone(), inner: copy_tys(&generic_type.inner), span: generic_type.span })
}

/// Registers the instances among the arguments `ts` of `owner`; tells whether one of them
/// is a generic parameter.
fn register_generic_args(pool: &mut HirGenericPool, module: &HirModuleSignature, owner: &HirGenericTy, ts: &Vec<HirTy>) -> (found: bool)
    requires
        old(pool).wf(),
        forall|i: int| 0 <= i < ts@.len() ==> decreases_to!(*owner => #[trigger] ts@[i]),
    ensures
        found == has_parameter_arg(tys_view(ts@)),
        final(pool).wf(),
        pool_maps(*final(pool)) == apply_events(*module, pool_maps(*old(pool)), lowering_events_all(tys_view(ts@))),
        final(pool).functions@ == old(pool).functions@,
        final(pool).methods@ == old(pool).methods@,
    decreases owner, 1nat,
{
    let ghost s0 = pool_maps(*pool);
    let ghost f0 = pool.functions@;
    let ghost m0 = pool.methods@;
    let mut found = false;
    let mut i: usize = 0;
    proof {
        assert(ts@.subrange(0, 0) =~= Seq::<HirTy>::empty());
        crate::hir::ty::lemma_tys_view_len(ts@);
    }
    while i < ts.len()
        invariant
            i <= ts.len(),
            forall|j: int| 0 <= j < ts@.len() ==> decreases_to!(*owner => #[trigger] ts@[j]),
            tys_view(ts@).len() == ts@.len(),
            forall|q: int| 0 <= q < ts@.len() ==> #[trigger] tys_view(ts@)[q] == ty_view(ts@[q]),
            found == exists|q: int| 0 <= q < i && (#[trigger] tys_view(ts@)[q] matches TyV::Named(n, _) && crate::text::bytes_len(n) == 1),
            pool.wf(),
            pool_maps(*pool) == apply_events(*module, s0, lowering_events_all(tys_view(ts@.subrange(0, i as int)))),
            pool.functions@ == f0,
            pool.methods@ == m0,
        decreases ts.len() - i,
    {
        let ghost before = pool_maps(*pool);
        let ghost t = ty_view(ts@[i as int]);
        let ghost pre = ts@.subrange(0, i as int);
        let one = register_generic_arg(pool, module, &ts[i]);
        proof {
            let nxt = ts@.subrange(0, i + 1);
            assert(nxt.drop_last() =~= pre);
            assert(tys_view(nxt).drop_last() =~= tys_view(pre));
            assert(tys_view(nxt).last() == t);
            lemma_apply_events_append(*module, s0, lowering_events_all(tys_view(pre)),
                match t { TyV::Generic(..) => lowering_events(t), _ => Seq::empty() });
        }
        let ghost old_found = found;
        if one {
            found = true;
        }
        proof {
            assert(tys_view(ts@)[i as int] == t);
            if found && !old_found {
                assert(tys_view(ts@)[i as int] matches TyV::Named(n, _) && crate::text::bytes_len(n) == 1);
            }
            if !found {
                assert forall|q: int| 0 <= q < i + 1 implies !(#[trigger] tys_view(ts@)[q] matches TyV::Named(n, _) && crate::text::bytes_len(n) == 1) by {
                    if q < i {
                        assert(!old_found);
                    }
                }
            }
        }
        i = i + 1;
    }
    proof {
        assert(ts@.subrange(0, ts.len() as int) =~= ts@);
    }
    found
}

/// Registers the instances that the argument `t` stands for; tells whether it is a
/// generic parameter.
fn register_generic_arg(pool: &mut HirGenericPool, module: &HirModuleSignature, t: &HirTy) -> (param: bool)
    requires
        old(pool).wf(),
    ensures
        param == (t@ matches TyV::Named(n, _) && crate::text::bytes_len(n) == 1),
        final(pool).wf(),
        pool_maps(*final(pool)) == apply_events(*module, pool_maps(*old(pool)),
            match t@ { TyV::Generic(..) => lowering_events(t@), _ => Seq::empty() }),
        final(pool).functions@ == old(pool).functions@,
        final(pool).methods@ == old(pool).methods@,
    decreases t, 0nat,
{
    let ghost s0 = pool_maps(*pool);
    match t {
        HirTy::Named(n) => {
            proof {
                assert(apply_events(*module, s0, Seq::empty()) == s0);
            }
            crate::text::byte_len_is_one(n.name.as_str())
        },
        HirTy::Generic(g) => {
            let _ = register_generic_type(pool, module, g);
            false
        },
        _ => {
            proof {
                assert(apply_events(*module, s0, Seq::empty()) == s0);
            }
            false
        },
    }
}

} // verus!
