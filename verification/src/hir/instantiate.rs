//! Instances of generic unions, and the fields of instances of generic structs: each
//! generic parameter replaced by the type it is instantiated with.
use vstd::prelude::*;
use vstd::string::StringExecFns;
use crate::hir::generic_pool::{copy_tys, generic_view, HirGenericPool};
use crate::hir::item::HirUnion;
use crate::hir::keyed::{lookup, reversed, set_entry, set_entry_sorted};
use crate::hir::monomorph::{apply_events, change_events, pool_maps, swap_ty, MonomorphizationPass};
use crate::hir::signature::{HirGenericConstraint, HirModuleSignature, HirStructFieldSignature, HirStructSignature,
    HirUnionSignature};
use crate::hir::ty::{tys_view, HirGenericTy, HirNamedTy, HirTy, TyV};
use crate::utils::Span;

verus! {

/// `t` with the first `k` generic parameters replaced, one after the other, each by the
/// type at its position in `actual`.
pub open spec fn subst_each(t: TyV, generics: Seq<HirGenericConstraint>, actual: Seq<TyV>, k: nat) -> TyV
    decreases k,
{
    if k == 0 {
        t
    } else {
        swap_ty(subst_each(t, generics, actual, (k - 1) as nat), seq![(generics[k - 1].generic_name@, actual[k - 1])])
    }
}

/// The instances registered on the way (see `change_events`).
pub open spec fn subst_each_events(m: HirModuleSignature, t: TyV, generics: Seq<HirGenericConstraint>, actual: Seq<TyV>,
    k: nat) -> Seq<(bool, TyV)>
    decreases k,
{
    if k == 0 {
        Seq::empty()
    } else {
        subst_each_events(m, t, generics, actual, (k - 1) as nat) + change_events(m, subst_each(t, generics, actual,
            (k - 1) as nat), seq![(generics[k - 1].generic_name@, actual[k - 1])])
    }
}

/// The instances registered while substituting in each of the types, in order.
pub open spec fn each_type_events(m: HirModuleSignature, ts: Seq<TyV>, generics: Seq<HirGenericConstraint>,
    actual: Seq<TyV>) -> Seq<(bool, TyV)>
    decreases ts.len(),
{
    if ts.len() == 0 {
        Seq::empty()
    } else {
        each_type_events(m, ts.drop_last(), generics, actual) + subst_each_events(m, ts.last(), generics, actual,
            generics.len())
    }
}

pub open spec fn field_tys(fs: Seq<HirStructFieldSignature>) -> Seq<TyV> {
    fs.map_values(|f: HirStructFieldSignature| f.ty@)
}

pub open spec fn entry_field_tys(fs: Seq<(String, HirStructFieldSignature)>) -> Seq<TyV> {
    fs.map_values(|e: (String, HirStructFieldSignature)| e.1.ty@)
}

/// `after` is `before` with the type of each field substituted.
pub open spec fn fields_substituted(before: Seq<HirStructFieldSignature>, after: Seq<HirStructFieldSignature>,
    generics: Seq<HirGenericConstraint>, actual: Seq<TyV>) -> bool {
    &&& after.len() == before.len()
    &&& forall|i: int| 0 <= i < after.len() ==> (#[trigger] after[i]) == (HirStructFieldSignature {
        ty: after[i].ty,
        ..before[i]
    }) && after[i].ty@ == subst_each(before[i].ty@, generics, actual, generics.len())
}

/// The same for fields listed under their names.
pub open spec fn entries_substituted(before: Seq<(String, HirStructFieldSignature)>,
    after: Seq<(String, HirStructFieldSignature)>, generics: Seq<HirGenericConstraint>, actual: Seq<TyV>) -> bool {
    &&& after.len() == before.len()
    &&& forall|i: int| 0 <= i < after.len() ==> (#[trigger] after[i]).0 == before[i].0 && after[i].1 == (
    HirStructFieldSignature { ty: after[i].1.ty, ..before[i].1 }) && after[i].1.ty@ == subst_each(
        before[i].1.ty@,
        generics,
        actual,
        generics.len(),
    )
}

/// A union signature made from `template` for the instance `actual` named `mangled`:
/// its variants' types substituted, no generic parameter left, instantiated, and the
/// instance recorded as the type before mangling.
pub open spec fn union_signature_instance(template: HirUnionSignature, actual: HirGenericTy, mangled: Seq<char>,
    s: HirUnionSignature) -> bool {
    &&& entries_substituted(template.variants@, s.variants@, template.generics@, tys_view(actual.inner@))
    &&& s.name@ == mangled
    &&& s.generics@.len() == 0
    &&& s.is_instantiated
    &&& s.pre_mangled_ty matches Some(g) && generic_view(g) == generic_view(actual)
    &&& s.declaration_span == template.declaration_span
    &&& s.vis == template.vis
    &&& s.name_span == template.name_span
    &&& s.docstring == template.docstring
}

/// Two union signatures alike: the same names, places and flags, and variants of types
/// written alike.
pub open spec fn union_signatures_alike(a: HirUnionSignature, b: HirUnionSignature) -> bool {
    &&& b.variants@.len() == a.variants@.len()
    &&& forall|i: int| 0 <= i < b.variants@.len() ==> (#[trigger] b.variants@[i]).0 == a.variants@[i].0
        && fields_alike(a.variants@[i].1, b.variants@[i].1)
    &&& b.name == a.name
    &&& b.generics@.len() == 0 && a.generics@.len() == 0
    &&& b.is_instantiated == a.is_instantiated
    &&& b.pre_mangled_ty matches Some(g) && a.pre_mangled_ty matches Some(h) && generic_view(g) == generic_view(h)
    &&& b.declaration_span == a.declaration_span
    &&& b.vis == a.vis
    &&& b.name_span == a.name_span
    &&& b.docstring == a.docstring
}

pub open spec fn fields_alike(a: HirStructFieldSignature, b: HirStructFieldSignature) -> bool {
    &&& b.span == a.span
    &&& b.vis == a.vis
    &&& b.name == a.name
    &&& b.name_span == a.name_span
    &&& b.ty@ == a.ty@
    &&& b.ty_span == a.ty_span
    &&& b.docstring == a.docstring
}

fn copy_docstring(d: &Option<String>) -> (r: Option<String>)
    ensures
        r == *d,
{
    match d {
        Some(s) => Some(s.clone()),
        None => None,
    }
}

fn copy_field(f: &HirStructFieldSignature) -> (r: HirStructFieldSignature)
    ensures
        fields_alike(*f, r),
{
    HirStructFieldSignature {
        span: f.span,
        vis: f.vis,
        name: f.name.clone(),
        name_span: f.name_span,
        ty: f.ty.duplicate(),
        ty_span: f.ty_span,
        docstring: copy_docstring(&f.docstring),
    }
}

fn copy_generic(g: &HirGenericTy) -> (r: HirGenericTy)
    ensures
        generic_view(r) == generic_view(*g),
{
    HirGenericTy { name: g.name.clone(), inner: copy_tys(&g.inner), span: g.span }
}

/// A copy of an instantiated union signature.
fn copy_union_signature(s: &HirUnionSignature) -> (r: HirUnionSignature)
    requires
        s.generics@.len() == 0,
        s.pre_mangled_ty is Some,
    ensures
        union_signatures_alike(*s, r),
{
    let mut variants: Vec<(String, HirStructFieldSignature)> = Vec::new();
    let mut i: usize = 0;
    while i < s.variants.len()
        invariant
            i <= s.variants@.len(),
            variants@.len() == i,
            forall|k: int| 0 <= k < i ==> (#[trigger] variants@[k]).0 == s.variants@[k].0
                && fields_alike(s.variants@[k].1, variants@[k].1),
        decreases s.variants.len() - i,
    {
        variants.push((s.variants[i].0.clone(), copy_field(&s.variants[i].1)));
        i = i + 1;
    }
    let pre = match &s.pre_mangled_ty {
        Some(g) => Some(copy_generic(g)),
        None => None,
    };
    HirUnionSignature {
        declaration_span: s.declaration_span,
        vis: s.vis,
        name: s.name.clone(),
        name_span: s.name_span,
        variants,
        generics: Vec::new(),
        pre_mangled_ty: pre,
        docstring: copy_docstring(&s.docstring),
        is_instantiated: s.is_instantiated,
    }
}

proof fn lemma_each_type_events_push(m: HirModuleSignature, ts: Seq<TyV>, t: TyV, generics: Seq<HirGenericConstraint>,
    actual: Seq<TyV>)
    ensures
        each_type_events(m, ts.push(t), generics, actual) == each_type_events(m, ts, generics, actual)
            + subst_each_events(m, t, generics, actual, generics.len()),
{
    assert(ts.push(t).drop_last() =~= ts);
}

/// The pool keeps its well-formedness and its function and method instances.
pub open spec fn pool_step(before: HirGenericPool, after: HirGenericPool, m: HirModuleSignature,
    events: Seq<(bool, TyV)>) -> bool {
    &&& after.wf()
    &&& pool_maps(after) == apply_events(m, pool_maps(before), events)
    &&& after.functions@ == before.functions@
    &&& after.methods@ == before.methods@
}

proof fn lemma_pool_step_chain(a: HirGenericPool, b: HirGenericPool, c: HirGenericPool, m: HirModuleSignature,
    e1: Seq<(bool, TyV)>, e2: Seq<(bool, TyV)>)
    requires
        pool_step(a, b, m, e1),
        pool_step(b, c, m, e2),
    ensures
        pool_step(a, c, m, e1 + e2),
{
    crate::hir::monomorph::lemma_apply_events_append(m, pool_maps(a), e1, e2);
}

impl MonomorphizationPass {
    /// `t` with each generic parameter replaced by the type it is instantiated with,
    /// registering the instances met on the way.
    fn change_all_generics(&mut self, t: &HirTy, generics: &Vec<HirGenericConstraint>, actual: &Vec<HirTy>,
        module: &HirModuleSignature) -> (r: HirTy)
        requires
            old(self).generic_pool.wf(),
            generics@.len() <= actual@.len(),
        ensures
            r@ == subst_each(t@, generics@, tys_view(actual@), generics@.len()),
            pool_step(old(self).generic_pool, final(self).generic_pool, *module,
                subst_each_events(*module, t@, generics@, tys_view(actual@), generics@.len())),
    {
        proof {
            crate::hir::ty::lemma_tys_view_len(actual@);
        }
        let ghost p0 = self.generic_pool;
        let ghost av = tys_view(actual@);
        let mut cur = t.duplicate();
        let mut i: usize = 0;
        while i < generics.len()
            invariant
                i <= generics@.len() <= actual@.len(),
                av == tys_view(actual@),
                av.len() == actual@.len(),
                forall|q: int| 0 <= q < actual@.len() ==> #[trigger] av[q] == actual@[q]@,
                cur@ == subst_each(t@, generics@, av, i as nat),
                pool_step(p0, self.generic_pool, *module, subst_each_events(*module, t@, generics@, av, i as nat)),
            decreases generics.len() - i,
        {
            let ghost p1 = self.generic_pool;
            let next = self.change_inner_type(&cur, generics[i].generic_name.as_str(), &actual[i], module);
            proof {
                lemma_pool_step_chain(p0, p1, self.generic_pool, *module,
                    subst_each_events(*module, t@, generics@, av, i as nat),
                    change_events(*module, cur@, seq![(generics@[i as int].generic_name@, av[i as int])]));
            }
            cur = next;
            i = i + 1;
        }
        cur
    }

    /// Each field with its type substituted.
    fn substitute_fields(&mut self, fields: Vec<HirStructFieldSignature>, generics: &Vec<HirGenericConstraint>,
        actual: &Vec<HirTy>, module: &HirModuleSignature) -> (r: Vec<HirStructFieldSignature>)
        requires
            old(self).generic_pool.wf(),
            generics@.len() <= actual@.len(),
        ensures
            fields_substituted(fields@, r@, generics@, tys_view(actual@)),
            pool_step(old(self).generic_pool, final(self).generic_pool, *module,
                each_type_events(*module, field_tys(fields@), generics@, tys_view(actual@))),
    {
        let ghost all = fields@;
        let ghost p0 = self.generic_pool;
        let ghost av = tys_view(actual@);
        let mut back = reversed(fields);
        let mut out: Vec<HirStructFieldSignature> = Vec::new();
        proof {
            assert(field_tys(all.take(0)) =~= Seq::<TyV>::empty());
            assert(p0.functions@ == self.generic_pool.functions@);
        }
        while back.len() > 0
            invariant
                all.take(out@.len() as int) + back@.reverse() == all,
                out@.len() + back@.len() == all.len(),
                generics@.len() <= actual@.len(),
                av == tys_view(actual@),
                fields_substituted(all.take(out@.len() as int), out@, generics@, av),
                pool_step(p0, self.generic_pool, *module, each_type_events(*module, field_tys(all.take(out@.len() as int)),
                    generics@, av)),
            decreases back.len(),
        {
            let ghost prev = back@;
            let ghost k = out@.len() as int;
            let ghost p1 = self.generic_pool;
            let f = back.pop().unwrap();
            proof {
                assert(prev =~= back@.push(f));
                assert(back@.push(f).reverse() =~= seq![f] + back@.reverse());
                assert(all[k] == (all.take(k) + prev.reverse())[k]);
                assert(all[k] == f);
                assert(all.take(k + 1) =~= all.take(k).push(f));
                assert(all.take(k + 1) + back@.reverse() =~= all.take(k) + prev.reverse());
                assert(field_tys(all.take(k + 1)) =~= field_tys(all.take(k)).push(f.ty@));
                lemma_each_type_events_push(*module, field_tys(all.take(k)), f.ty@, generics@, av);
            }
            let ty = self.change_all_generics(&f.ty, generics, actual, module);
            proof {
                lemma_pool_step_chain(p0, p1, self.generic_pool, *module,
                    each_type_events(*module, field_tys(all.take(k)), generics@, av),
                    subst_each_events(*module, f.ty@, generics@, av, generics@.len()));
            }
            out.push(HirStructFieldSignature { ty, ..f });
        }
        proof {
            assert(all.take(out@.len() as int) =~= all);
        }
        out
    }

    /// Each named field with its type substituted.
    fn substitute_entries(&mut self, fields: Vec<(String, HirStructFieldSignature)>,
        generics: &Vec<HirGenericConstraint>, actual: &Vec<HirTy>, module: &HirModuleSignature)
        -> (r: Vec<(String, HirStructFieldSignature)>)
        requires
            old(self).generic_pool.wf(),
            generics@.len() <= actual@.len(),
        ensures
            entries_substituted(fields@, r@, generics@, tys_view(actual@)),
            pool_step(old(self).generic_pool, final(self).generic_pool, *module,
                each_type_events(*module, entry_field_tys(fields@), generics@, tys_view(actual@))),
    {
        let ghost all = fields@;
        let ghost p0 = self.generic_pool;
        let ghost av = tys_view(actual@);
        let mut back = reversed(fields);
        let mut out: Vec<(String, HirStructFieldSignature)> = Vec::new();
        proof {
            assert(entry_field_tys(all.take(0)) =~= Seq::<TyV>::empty());
        }
        while back.len() > 0
            invariant
                all.take(out@.len() as int) + back@.reverse() == all,
                out@.len() + back@.len() == all.len(),
                generics@.len() <= actual@.len(),
                av == tys_view(actual@),
                entries_substituted(all.take(out@.len() as int), out@, generics@, av),
                pool_step(p0, self.generic_pool, *module, each_type_events(*module, entry_field_tys(
                    all.take(out@.len() as int)), generics@, av)),
            decreases back.len(),
        {
            let ghost prev = back@;
            let ghost k = out@.len() as int;
            let ghost p1 = self.generic_pool;
            let (name, f) = back.pop().unwrap();
            proof {
                assert(prev =~= back@.push((name, f)));
                assert(back@.push((name, f)).reverse() =~= seq![(name, f)] + back@.reverse());
                assert(all[k] == (all.take(k) + prev.reverse())[k]);
                assert(all[k] == (name, f));
                assert(all.take(k + 1) =~= all.take(k).push((name, f)));
                assert(all.take(k + 1) + back@.reverse() =~= all.take(k) + prev.reverse());
                assert(entry_field_tys(all.take(k + 1)) =~= entry_field_tys(all.take(k)).push(f.ty@));
                lemma_each_type_events_push(*module, entry_field_tys(all.take(k)), f.ty@, generics@, av);
            }
            let ty = self.change_all_generics(&f.ty, generics, actual, module);
            proof {
                lemma_pool_step_chain(p0, p1, self.generic_pool, *module,
                    each_type_events(*module, entry_field_tys(all.take(k)), generics@, av),
                    subst_each_events(*module, f.ty@, generics@, av, generics@.len()));
            }
            out.push((name, HirStructFieldSignature { ty, ..f }));
        }
        proof {
            assert(all.take(out@.len() as int) =~= all);
        }
        out
    }

    /// Substitutes the generic parameters `generics` of a struct instance in the types of its
    /// fields, by the types `actual_type` is instantiated with, registering the instances met.
    pub fn monomorphize_fields(&mut self, signature: &mut HirStructSignature, generics: &Vec<HirGenericConstraint>,
        actual_type: &HirGenericTy, module: &HirModuleSignature)
        requires
            old(self).generic_pool.wf(),
            generics@.len() <= actual_type.inner@.len(),
        ensures
            entries_substituted(old(signature).fields@, final(signature).fields@, generics@, tys_view(actual_type.inner@)),
            *final(signature) == (HirStructSignature { fields: final(signature).fields, ..*old(signature) }),
            pool_step(old(self).generic_pool, final(self).generic_pool, *module,
                each_type_events(*module, entry_field_tys(old(signature).fields@), generics@, tys_view(actual_type.inner@))),
    {
        let mut fields: Vec<(String, HirStructFieldSignature)> = Vec::new();
        std::mem::swap(&mut fields, &mut signature.fields);
        signature.fields = self.substitute_entries(fields, generics, &actual_type.inner, module);
    }
}

/// Why an instance of a generic item is refused: it gives `found` type arguments where the
/// item, declared at `declaration_span`, takes `expected`.
#[derive(Debug)]
pub struct NotEnoughGenericsError {
    pub ty_name: String,
    pub found: usize,
    pub error_span: Span,
    pub expected: usize,
    pub declaration_span: Span,
}

/// `u` is the instance of the union `template` for `actual`, named `mangled`.
pub open spec fn union_instance(template: HirUnion, actual: HirGenericTy, mangled: Seq<char>, u: HirUnion) -> bool {
    &&& union_signature_instance(template.signature, actual, mangled, u.signature)
    &&& fields_substituted(template.variants@, u.variants@, template.signature.generics@, tys_view(actual.inner@))
    &&& u.name@ == mangled
    &&& u.pre_mangled_ty matches Some(g) && generic_view(g) == generic_view(actual)
    &&& u.span == template.span
    &&& u.name_span == template.name_span
    &&& u.vis == template.vis
}

impl MonomorphizationPass {
    /// Makes the instance of the generic union `template` for `actual_type`, named
    /// `mangled_name`: refused when the numbers of generic parameters and of type arguments
    /// differ; else the union's variants (in the signature, then in the body) get their
    /// types substituted, registering the instances met, and the instance is recorded in the
    /// module signature and among the module's unions, in place of any union of that name
    /// (in the signature, at its place in the order of names).
    /// Gives the instance's type, named, at `span`.
    pub fn monomorphize_union(
        &mut self,
        module: &mut HirModuleSignature,
        body_unions: &mut Vec<(String, HirUnion)>,
        template: HirUnion,
        actual_type: &HirGenericTy,
        mangled_name: &str,
        span: Span,
    ) -> (r: Result<HirTy, NotEnoughGenericsError>)
        requires
            old(self).generic_pool.wf(),
        ensures
            template.signature.generics@.len() != actual_type.inner@.len() ==> (r matches Err(e)
                && e.ty_name@ == actual_type.name@ && e.found == actual_type.inner@.len() && e.error_span == span
                && e.expected == template.signature.generics@.len() && e.declaration_span == template.name_span
                && *final(module) == *old(module) && final(body_unions)@ == old(body_unions)@
                && final(self).generic_pool == old(self).generic_pool),
            template.signature.generics@.len() == actual_type.inner@.len() ==> {
                &&& r matches Ok(t) && t@ == TyV::Named(mangled_name@, span)
                &&& lookup(final(body_unions)@, mangled_name@) matches Some(u) && (union_instance(template, *actual_type,
                    mangled_name@, u) && (lookup(final(module).unions@, mangled_name@) matches Some(s)
                    && union_signatures_alike(u.signature, s)))
                &&& forall|k: Seq<char>| k != mangled_name@ ==> #[trigger] lookup(final(module).unions@, k)
                    == lookup(old(module).unions@, k)
                &&& forall|k: Seq<char>| k != mangled_name@ ==> #[trigger] lookup(final(body_unions)@, k)
                    == lookup(old(body_unions)@, k)
                &&& *final(module) == (HirModuleSignature { unions: final(module).unions, ..*old(module) })
                &&& old(module).wf() ==> final(module).wf()
                &&& pool_step(old(self).generic_pool, final(self).generic_pool, *old(module),
                    each_type_events(*old(module), entry_field_tys(template.signature.variants@),
                        template.signature.generics@, tys_view(actual_type.inner@))
                    + each_type_events(*old(module), field_tys(template.variants@), template.signature.generics@,
                        tys_view(actual_type.inner@)))
            },
    {
        if template.signature.generics.len() != actual_type.inner.len() {
            return Err(NotEnoughGenericsError {
                ty_name: actual_type.name.clone(),
                found: actual_type.inner.len(),
                error_span: span,
                expected: template.signature.generics.len(),
                declaration_span: template.name_span,
            });
        }
        let ghost p0 = self.generic_pool;
        let ghost t0 = template;
        let mut new_union = template;
        let mut generics: Vec<HirGenericConstraint> = Vec::new();
        std::mem::swap(&mut generics, &mut new_union.signature.generics);
        let mut sig_variants: Vec<(String, HirStructFieldSignature)> = Vec::new();
        std::mem::swap(&mut sig_variants, &mut new_union.signature.variants);
        let sig_variants = self.substitute_entries(sig_variants, &generics, &actual_type.inner, module);
        let ghost p1 = self.generic_pool;
        let mut body_variants: Vec<HirStructFieldSignature> = Vec::new();
        std::mem::swap(&mut body_variants, &mut new_union.variants);
        let body_variants = self.substitute_fields(body_variants, &generics, &actual_type.inner, module);
        proof {
            lemma_pool_step_chain(p0, p1, self.generic_pool, *module,
                each_type_events(*module, entry_field_tys(t0.signature.variants@), t0.signature.generics@,
                    tys_view(actual_type.inner@)),
                each_type_events(*module, field_tys(t0.variants@), t0.signature.generics@, tys_view(actual_type.inner@)));
        }
        new_union.signature.variants = sig_variants;
        new_union.variants = body_variants;
        new_union.pre_mangled_ty = Some(copy_generic(actual_type));
        new_union.signature.pre_mangled_ty = Some(copy_generic(actual_type));
        new_union.signature.is_instantiated = true;
        new_union.name = String::from_str(mangled_name);
        new_union.signature.name = String::from_str(mangled_name);
        let sig_copy = copy_union_signature(&new_union.signature);
        set_entry_sorted(&mut module.unions, String::from_str(mangled_name), sig_copy);
        set_entry(body_unions, String::from_str(mangled_name), new_union);
        Ok(HirTy::Named(HirNamedTy { name: String::from_str(mangled_name), span }))
    }
}

} // verus!
