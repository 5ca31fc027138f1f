//! Parts of lowering the syntax tree to the HIR that work on lowered signatures: how the
//! constraints of a method's `where` clause are shared out.
use vstd::prelude::*;
use vstd::string::StringExecFns;
use crate::hir::keyed::{keep_flagged, reversed};
use crate::hir::signature::{HirGenericConstraint, HirGenericConstraintKind, HirStructMethodSignature};
use crate::hir::ty::HirTy;

verus! {

/// Some generic parameter of `gs` is called `name`.
pub open spec fn declares_generic(gs: Seq<HirGenericConstraint>, name: Seq<char>) -> bool {
    exists|i: int| 0 <= i < gs.len() && (#[trigger] gs[i]).generic_name@ == name
}

/// The constraints that the entries of `wc` called `name` list, in their order.
pub open spec fn where_constraints_for(wc: Seq<HirGenericConstraint>, name: Seq<char>) -> Seq<HirGenericConstraintKind>
    decreases wc.len(),
{
    if wc.len() == 0 {
        Seq::empty()
    } else {
        where_constraints_for(wc.drop_last(), name) + (if wc.last().generic_name@ == name {
            wc.last().kind@
        } else {
            Seq::empty()
        })
    }
}

/// `m` is the method generic `g` with the `where` constraints on its name added after its own.
pub open spec fn merged_generic(g: HirGenericConstraint, wc: Seq<HirGenericConstraint>, m: HirGenericConstraint) -> bool {
    &&& m.span == g.span
    &&& m.generic_name == g.generic_name
    &&& m.kind@ == g.kind@ + where_constraints_for(wc, g.generic_name@)
}

/// A `where` entry that stays in the `where` clause: it constrains no generic parameter of
/// the method (so one of the struct).
pub open spec fn constrains_struct_generic(method_generics: Seq<HirGenericConstraint>)
    -> spec_fn(HirGenericConstraint) -> bool {
    |w: HirGenericConstraint| !declares_generic(method_generics, w.generic_name@)
}

pub open spec fn generics_of(g: Option<Vec<HirGenericConstraint>>) -> Seq<HirGenericConstraint> {
    match g {
        Some(v) => v@,
        None => Seq::empty(),
    }
}

/// A copy of the constraint.
fn copy_kind(k: &HirGenericConstraintKind) -> (r: HirGenericConstraintKind)
    ensures
        r == *k,
{
    match k {
        HirGenericConstraintKind::Std { name, span } => HirGenericConstraintKind::Std { name: name.clone(), span: *span },
        HirGenericConstraintKind::Operator { op, span } => HirGenericConstraintKind::Operator { op: op.clone(), span: *span },
        HirGenericConstraintKind::Concept { name, span } => HirGenericConstraintKind::Concept {
            name: name.clone(),
            span: *span,
        },
    }
}

/// Copies of the constraints that the entries of `wc` called `name` list, in order.
fn where_constraints(wc: &Vec<HirGenericConstraint>, name: &String) -> (r: Vec<HirGenericConstraintKind>)
    ensures
        r@ == where_constraints_for(wc@, name@),
{
    let mut out: Vec<HirGenericConstraintKind> = Vec::new();
    let mut i: usize = 0;
    assert(wc@.take(0) =~= Seq::<HirGenericConstraint>::empty());
    while i < wc.len()
        invariant
            i <= wc@.len(),
            out@ == where_constraints_for(wc@.take(i as int), name@),
        decreases wc.len() - i,
    {
        assert(wc@.take(i + 1).drop_last() =~= wc@.take(i as int));
        if wc[i].generic_name == *name {
            let kinds = &wc[i].kind;
            let ghost base = out@;
            let mut j: usize = 0;
            while j < kinds.len()
                invariant
                    j <= kinds@.len(),
                    out@ == base + kinds@.take(j as int),
                decreases kinds.len() - j,
            {
                out.push(copy_kind(&kinds[j]));
                assert(kinds@.take(j + 1) =~= kinds@.take(j as int).push(kinds@[j as int]));
                j = j + 1;
            }
            assert(kinds@.take(j as int) =~= kinds@);
        } else {
            assert(out@ =~= out@ + Seq::<HirGenericConstraintKind>::empty());
        }
        i = i + 1;
    }
    assert(wc@.take(i as int) =~= wc@);
    out
}

/// Whether some generic parameter of `gs` is called `name`.
fn declares(gs: &Option<Vec<HirGenericConstraint>>, name: &String) -> (r: bool)
    ensures
        r == declares_generic(generics_of(*gs), name@),
{
    match gs {
        Some(v) => {
            let mut i: usize = 0;
            while i < v.len()
                invariant
                    i <= v@.len(),
                    generics_of(*gs) == v@,
                    forall|k: int| 0 <= k < i ==> (#[trigger] v@[k]).generic_name@ != name@,
                decreases v.len() - i,
            {
                if v[i].generic_name == *name {
                    assert((v@[i as int]).generic_name@ == name@);
                    assert(generics_of(*gs)[i as int] == v@[i as int]);
                    return true;
                }
                i = i + 1;
            }
            false
        },
        None => false,
    }
}

/// Each method generic of `gs`, in order, with the `where` constraints on its name added.
fn merge_each(gs: Vec<HirGenericConstraint>, wc: &Vec<HirGenericConstraint>) -> (r: Vec<HirGenericConstraint>)
    ensures
        r@.len() == gs@.len(),
        forall|i: int| 0 <= i < r@.len() ==> merged_generic(gs@[i], wc@, #[trigger] r@[i]),
{
    let ghost all = gs@;
    let mut back = reversed(gs);
    let mut out: Vec<HirGenericConstraint> = Vec::new();
    while back.len() > 0
        invariant
            all.take(out@.len() as int) + back@.reverse() == all,
            out@.len() + back@.len() == all.len(),
            forall|i: int| 0 <= i < out@.len() ==> merged_generic(all[i], wc@, #[trigger] out@[i]),
        decreases back.len(),
    {
        let ghost prev = back@;
        let ghost k = out@.len() as int;
        let g = back.pop().unwrap();
        proof {
            assert(prev =~= back@.push(g));
            assert(back@.push(g).reverse() =~= seq![g] + back@.reverse());
            assert(all[k] == (all.take(k) + prev.reverse())[k]);
            assert(all[k] == g);
            assert(all.take(k + 1) =~= all.take(k).push(g));
            assert(all.take(k + 1) + back@.reverse() =~= all.take(k) + prev.reverse());
        }
        let mut extra = where_constraints(wc, &g.generic_name);
        let mut kind = g.kind;
        kind.append(&mut extra);
        out.push(HirGenericConstraint { span: g.span, generic_name: g.generic_name, kind });
    }
    proof {
        assert(all.take(out@.len() as int) =~= all);
    }
    out
}

/// Shares out the constraints of a method's `where` clause: those on a generic parameter of
/// the method join that parameter's own constraints (after them, in `where` order); the
/// entries on other names (generic parameters of the struct) stay in the `where` clause.
/// Without a `where` clause the method generics are kept as they are; with one, an empty
/// list of either kind becomes `None`.
pub fn merge_generic_constraints(
    method_generics: Option<Vec<HirGenericConstraint>>,
    where_clause: Option<Vec<HirGenericConstraint>>,
) -> (r: (Option<Vec<HirGenericConstraint>>, Option<Vec<HirGenericConstraint>>))
    ensures
        match where_clause {
            None => r.0 == method_generics && r.1 is None,
            Some(wc) => {
                &&& match method_generics {
                    Some(gs) => if gs@.len() == 0 {
                        r.0 is None
                    } else {
                        r.0 matches Some(ms) && ms@.len() == gs@.len()
                            && forall|i: int| 0 <= i < ms@.len() ==> merged_generic(gs@[i], wc@, #[trigger] ms@[i])
                    },
                    None => r.0 is None,
                }
                &&& if wc@.filter(constrains_struct_generic(generics_of(method_generics))).len() == 0 {
                    r.1 is None
                } else {
                    r.1 matches Some(st) && st@ == wc@.filter(constrains_struct_generic(generics_of(method_generics)))
                }
            },
        },
{
    let wc = match where_clause {
        Some(wc) => wc,
        None => return (method_generics, None),
    };
    let ghost pred = constrains_struct_generic(generics_of(method_generics));
    let mut flags: Vec<bool> = Vec::new();
    let mut i: usize = 0;
    while i < wc.len()
        invariant
            i <= wc@.len(),
            flags@.len() == i,
            pred == constrains_struct_generic(generics_of(method_generics)),
            forall|k: int| 0 <= k < i ==> flags@[k] == pred(#[trigger] wc@[k]),
        decreases wc.len() - i,
    {
        flags.push(!declares(&method_generics, &wc[i].generic_name));
        i = i + 1;
    }
    let merged = match method_generics {
        Some(gs) => {
            let ms = merge_each(gs, &wc);
            if ms.len() == 0 {
                None
            } else {
                Some(ms)
            }
        },
        None => None,
    };
    let struct_level = keep_flagged(wc, &flags, Ghost(pred));
    if struct_level.len() == 0 {
        (merged, None)
    } else {
        (merged, Some(struct_level))
    }
}

/// Whether the method returns its own struct, written by name (generic or not).
pub fn method_returns_self(method: &HirStructMethodSignature, struct_name: &str) -> (b: bool)
    ensures
        b == match method.return_ty {
            HirTy::Named(n) => n.name@ == struct_name@,
            HirTy::Generic(g) => g.name@ == struct_name@,
            _ => false,
        },
{
    match &method.return_ty {
        HirTy::Named(n) => crate::text::str_eq(n.name.as_str(), struct_name),
        HirTy::Generic(g) => crate::text::str_eq(g.name.as_str(), struct_name),
        _ => false,
    }
}

} // verus!
