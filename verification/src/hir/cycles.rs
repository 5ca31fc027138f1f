//! Finding a struct that contains itself by value, through the fields of the structs of
//! its module.
use vstd::prelude::*;
use vstd::string::StringExecFns;
use crate::hir::keyed::{find_key, has_key, lookup};
use crate::hir::monomorph::{generate_mangled_name, mangled};
use crate::hir::signature::{HirModuleSignature, HirStructFieldSignature, HirStructSignature};
use crate::hir::ty::{HirTy, TyV};
use crate::hir::type_check::{get_type_display_name, type_display_name};
use crate::text::{str_eq, views};
use crate::utils::Span;

verus! {

/// One step of a reported cycle: a text and the field it is about.
#[derive(Debug)]
pub struct CycleLabel {
    pub label: String,
    pub span: Span,
}

pub open spec fn labels_view(ls: Seq<CycleLabel>) -> Seq<(Seq<char>, Span)> {
    ls.map_values(|l: CycleLabel| (l.label@, l.span))
}

/// ``→ field of type `<t>` ``
pub open spec fn step_label(t: Seq<char>) -> Seq<char> {
    "→ field of type `"@ + t + "`"@
}

/// ``field of type `<t>` completes the cycle back to `<target>` ``
pub open spec fn closing_label(t: Seq<char>, target: Seq<char>) -> Seq<char> {
    "field of type `"@ + t + "` completes the cycle back to `"@ + target + "`"@
}

/// How many of the entries' names are not in `visited`.
pub open spec fn unvisited_in<V>(entries: Seq<(String, V)>, visited: Seq<Seq<char>>) -> nat
    decreases entries.len(),
{
    if entries.len() == 0 {
        0
    } else {
        unvisited_in(entries.drop_last(), visited) + (if visited.contains(entries.last().0@) { 0nat } else { 1nat })
    }
}

/// How many struct and union names of the module are not in `visited`.
pub open spec fn unvisited(m: HirModuleSignature, visited: Seq<Seq<char>>) -> nat {
    unvisited_in(m.structs@, visited) + unvisited_in(m.unions@, visited)
}

/// Naming one more entry as visited leaves fewer (or as many) entries unvisited.
pub proof fn lemma_unvisited_push<V>(entries: Seq<(String, V)>, visited: Seq<Seq<char>>, name: Seq<char>)
    ensures
        unvisited_in(entries, visited.push(name)) <= unvisited_in(entries, visited),
        has_key(entries, name) && !visited.contains(name) ==> unvisited_in(entries, visited.push(name)) < unvisited_in(entries, visited),
    decreases entries.len(),
{
    if entries.len() > 0 {
        let d = entries.drop_last();
        lemma_unvisited_push(d, visited, name);
        assert forall|x: Seq<char>| visited.contains(x) implies #[trigger] visited.push(name).contains(x) by {
            let i = choose|i: int| 0 <= i < visited.len() && visited[i] == x;
            assert(visited.push(name)[i] == x);
        }
        assert(visited.push(name).contains(name)) by {
            assert(visited.push(name)[visited.len() as int] == name);
        }
        if has_key(entries, name) && !has_key(d, name) {
            let i = choose|i: int| 0 <= i < entries.len() && #[trigger] entries[i].0@ == name;
            if i < entries.len() - 1 {
                assert(d[i].0@ == name);
            }
        }
    }
}

/// The first cycle back to the struct called `target` that the type `t` of a field (at
/// `span`) closes, as the labelled steps from that field on; `visited` holds the
/// names already on the way. A struct of that name (or, for a generic instance, of its
/// mangled struct name) closes the cycle; other structs are looked through field by
/// field, in the order of their fields, unless already on the way. A union's variants are
/// looked through when it has only one (a union of one variant holds that variant's
/// value). `target_display` is how the target is named when a generic instance closes the
/// cycle.
pub open spec fn cycle_from(
    m: HirModuleSignature,
    t: TyV,
    target: Seq<char>,
    target_display: Seq<char>,
    visited: Seq<Seq<char>>,
    span: Span,
) -> Option<Seq<(Seq<char>, Span)>>
    decreases unvisited(m, visited), 0nat, 0nat,
{
    match t {
        TyV::Named(n, _) => if n == target {
            Some(seq![(closing_label(type_display_name(t), target), span)])
        } else if visited.contains(n) {
            None
        } else {
            let here = (step_label(type_display_name(t)), span);
            proof {
                lemma_unvisited_push(m.structs@, visited, n);
                lemma_unvisited_push(m.unions@, visited, n);
                crate::hir::keyed::lemma_lookup_has_key(m.structs@, n);
                crate::hir::keyed::lemma_lookup_has_key(m.unions@, n);
            }
            match lookup(m.structs@, n) {
                Some(s) => match cycle_in_fields(m, s.fields@, target, target_display, visited.push(n)) {
                    Some(p) => Some(seq![here] + p),
                    None => None,
                },
                None => match lookup(m.unions@, n) {
                    Some(u) => if u.variants@.len() <= 1 {
                        match cycle_in_fields(m, u.variants@, target, target_display, visited.push(n)) {
                            Some(p) => Some(seq![here] + p),
                            None => None,
                        }
                    } else {
                        None
                    },
                    None => None,
                },
            }
        },
        TyV::Generic(name, inner, _) => {
            let k = mangled(name, inner, "struct"@);
            if k == target {
                Some(seq![(closing_label(type_display_name(t), target_display), span)])
            } else if visited.contains(k) {
                None
            } else {
                let here = (step_label(type_display_name(t)), span);
                proof {
                    lemma_unvisited_push(m.structs@, visited, k);
                    lemma_unvisited_push(m.unions@, visited, k);
                    crate::hir::keyed::lemma_lookup_has_key(m.structs@, k);
                }
                match lookup(m.structs@, k) {
                    Some(s) => match cycle_in_fields(m, s.fields@, target, target_display, visited.push(k)) {
                        Some(p) => Some(seq![here] + p),
                        None => None,
                    },
                    None => None,
                }
            }
        },
        _ => None,
    }
}

/// The first cycle that one of the fields closes, in order.
pub open spec fn cycle_in_fields(
    m: HirModuleSignature,
    fields: Seq<(String, HirStructFieldSignature)>,
    target: Seq<char>,
    target_display: Seq<char>,
    visited: Seq<Seq<char>>,
) -> Option<Seq<(Seq<char>, Span)>>
    decreases unvisited(m, visited), 1nat, fields.len(),
{
    if fields.len() == 0 {
        None
    } else {
        match cycle_from(m, fields[0].1.ty@, target, target_display, visited, fields[0].1.span) {
            Some(p) => Some(p),
            None => cycle_in_fields(m, fields.drop_first(), target, target_display, visited),
        }
    }
}


fn in_visited(visited: &Vec<String>, name: &str) -> (b: bool)
    ensures
        b == views(visited@).contains(name@),
{
    let mut i: usize = 0;
    while i < visited.len()
        invariant
            i <= visited@.len(),
            forall|q: int| 0 <= q < i ==> visited@[q]@ != name@,
        decreases visited.len() - i,
    {
        if str_eq(visited[i].as_str(), name) {
            proof {
                assert(views(visited@)[i as int] == name@);
            }
            return true;
        }
        i = i + 1;
    }
    proof {
        if views(visited@).contains(name@) {
            let q = choose|q: int| 0 <= q < views(visited@).len() && views(visited@)[q] == name@;
            assert(visited@[q]@ == name@);
        }
    }
    false
}

fn step_label_of(ty: &HirTy) -> (r: String)
    ensures
        r@ == step_label(type_display_name(ty@)),
{
    let mut out = String::from_str("→ field of type `");
    out.append(get_type_display_name(ty).as_str());
    out.append("`");
    out
}

fn closing_label_of(ty: &HirTy, target: &str) -> (r: String)
    ensures
        r@ == closing_label(type_display_name(ty@), target@),
{
    let mut out = String::from_str("field of type `");
    out.append(get_type_display_name(ty).as_str());
    out.append("` completes the cycle back to `");
    out.append(target);
    out.append("`");
    out
}

/// Whether the type `ty` of a field (at `current_field_span`) closes a cycle back to
/// `target_struct` (see `cycle_from`). The steps of the cycle found are added to
/// `cycle_path`; when there is none, `visited` and `cycle_path` are left as they were.
pub fn has_cyclic_reference(
    signature: &HirModuleSignature,
    ty: &HirTy,
    target_struct: &HirStructSignature,
    target_display: &str,
    visited: &mut Vec<String>,
    cycle_path: &mut Vec<CycleLabel>,
    current_field_span: Span,
) -> (b: bool)
    ensures
        ({
            let res = cycle_from(*signature, ty@, target_struct.name@, target_display@, views(old(visited)@), current_field_span);
            &&& b == res is Some
            &&& res matches Some(p) ==> labels_view(final(cycle_path)@) == labels_view(old(cycle_path)@) + p
            &&& res is None ==> final(cycle_path)@ == old(cycle_path)@ && final(visited)@ == old(visited)@
        }),
    decreases unvisited(*signature, views(old(visited)@)), 0nat, 0nat,
{
    let ghost v0 = views(visited@);
    let ghost c0 = cycle_path@;
    let ghost tv = ty@;
    match ty {
        HirTy::Named(n) => {
            proof {
                assert(tv == TyV::Named(n.name@, n.span));
            }
            if str_eq(n.name.as_str(), target_struct.name.as_str()) {
                cycle_path.push(CycleLabel { label: closing_label_of(ty, target_struct.name.as_str()), span: current_field_span });
                proof {
                    assert(labels_view(cycle_path@) =~= labels_view(c0) + seq![(closing_label(type_display_name(tv), target_struct.name@), current_field_span)]);
                }
                return true;
            }
            if in_visited(visited, n.name.as_str()) {
                return false;
            }
            let name = n.name.as_str();
            let label = step_label_of(ty);
            let ghost here = (label@, current_field_span);
            proof {
                lemma_unvisited_push(signature.structs@, v0, name@);
                lemma_unvisited_push(signature.unions@, v0, name@);
                crate::hir::keyed::lemma_lookup_has_key(signature.structs@, name@);
                crate::hir::keyed::lemma_lookup_has_key(signature.unions@, name@);
            }
            let fields: &Vec<(String, HirStructFieldSignature)> = match find_key(&signature.structs, name) {
                Some(i) => &signature.structs[i].1.fields,
                None => match find_key(&signature.unions, name) {
                    Some(i) => {
                        let variants = &signature.unions[i].1.variants;
                        if variants.len() <= 1 {
                            variants
                        } else {
                            return false;
                        }
                    },
                    None => return false,
                },
            };
            let found = search_fields(signature, fields, target_struct, target_display, visited, cycle_path, name,
                CycleLabel { label, span: current_field_span });
            proof {
                if found {
                    assert(labels_view(cycle_path@) =~= labels_view(c0) + (seq![here]
                        + cycle_in_fields(*signature, fields@, target_struct.name@, target_display@, v0.push(name@))->Some_0));
                }
            }
            found
        },
        HirTy::Generic(g) => {
            let mangled_name = generate_mangled_name(g, "struct");
            proof {
                assert(tv == TyV::Generic(g.name@, crate::hir::ty::tys_view(g.inner@), g.span));
            }
            if str_eq(mangled_name.as_str(), target_struct.name.as_str()) {
                cycle_path.push(CycleLabel { label: closing_label_of(ty, target_display), span: current_field_span });
                proof {
                    assert(labels_view(cycle_path@) =~= labels_view(c0) + seq![(closing_label(type_display_name(tv), target_display@), current_field_span)]);
                }
                return true;
            }
            if in_visited(visited, mangled_name.as_str()) {
                return false;
            }
            let label = step_label_of(ty);
            let ghost here = (label@, current_field_span);
            proof {
                lemma_unvisited_push(signature.structs@, v0, mangled_name@);
                lemma_unvisited_push(signature.unions@, v0, mangled_name@);
                crate::hir::keyed::lemma_lookup_has_key(signature.structs@, mangled_name@);
            }
            match find_key(&signature.structs, mangled_name.as_str()) {
                Some(i) => {
                    let fields = &signature.structs[i].1.fields;
                    let found = search_fields(signature, fields, target_struct, target_display, visited, cycle_path,
                        mangled_name.as_str(), CycleLabel { label, span: current_field_span });
                    proof {
                        if found {
                            assert(labels_view(cycle_path@) =~= labels_view(c0) + (seq![here]
                                + cycle_in_fields(*signature, fields@, target_struct.name@, target_display@, v0.push(mangled_name@))->Some_0));
                        }
                    }
                    found
                },
                None => false,
            }
        },
        _ => false,
    }
}

/// Looks for a cycle through the fields, with `name` on the way and `step` added to the
/// path; both are taken off again when there is none.
fn search_fields(
    signature: &HirModuleSignature,
    fields: &Vec<(String, HirStructFieldSignature)>,
    target_struct: &HirStructSignature,
    target_display: &str,
    visited: &mut Vec<String>,
    cycle_path: &mut Vec<CycleLabel>,
    name: &str,
    step: CycleLabel,
) -> (b: bool)
    ensures
        ({
            let res = cycle_in_fields(*signature, fields@, target_struct.name@, target_display@, views(old(visited)@).push(name@));
            &&& b == res is Some
            &&& res matches Some(p) ==> labels_view(final(cycle_path)@) == labels_view(old(cycle_path)@).push((step.label@, step.span)) + p
            &&& res is None ==> final(cycle_path)@ == old(cycle_path)@ && final(visited)@ == old(visited)@
        }),
    decreases unvisited(*signature, views(old(visited)@).push(name@)), 1nat, 0nat,
{
    let ghost vis0 = visited@;
    let ghost c0 = cycle_path@;
    let ghost st = (step.label@, step.span);
    visited.push(String::from_str(name));
    cycle_path.push(step);
    let ghost vis1 = visited@;
    let ghost v1 = views(vis1);
    let ghost c1 = cycle_path@;
    proof {
        assert(v1 =~= views(vis0).push(name@));
        assert(vis1.drop_last() =~= vis0);
        assert(c1.drop_last() =~= c0);
        assert(labels_view(c1) =~= labels_view(c0).push(st));
        assert(fields@.skip(0) =~= fields@);
    }
    let mut i: usize = 0;
    while i < fields.len()
        invariant
            i <= fields@.len(),
            visited@ == vis1,
            v1 == views(vis1),
            v1 == views(vis0).push(name@),
            cycle_path@ == c1,
            labels_view(c1) == labels_view(c0).push(st),
            vis0 == old(visited)@,
            c0 == old(cycle_path)@,
            st == (step.label@, step.span),
            vis1.len() > 0,
            c1.len() > 0,
            vis1.drop_last() == vis0,
            c1.drop_last() == c0,
            cycle_in_fields(*signature, fields@, target_struct.name@, target_display@, v1)
                == cycle_in_fields(*signature, fields@.skip(i as int), target_struct.name@, target_display@, v1),
        decreases fields.len() - i,
    {
        let field = &fields[i].1;
        proof {
            assert(fields@.skip(i as int)[0] == fields@[i as int]);
            assert(fields@.skip(i as int).drop_first() =~= fields@.skip(i + 1));
        }
        if has_cyclic_reference(signature, &field.ty, target_struct, target_display, visited, cycle_path, field.span) {
            return true;
        }
        i = i + 1;
    }
    proof {
        assert(fields@.skip(i as int) =~= Seq::<(String, HirStructFieldSignature)>::empty());
    }
    cycle_path.pop();
    visited.pop();
    false
}


/// The cycle back to the struct that the first of its fields with one closes, each field
/// searched afresh (see `cycle_from`).
pub open spec fn first_field_cycle(
    m: HirModuleSignature,
    fields: Seq<HirStructFieldSignature>,
    target: Seq<char>,
    target_display: Seq<char>,
) -> Option<Seq<(Seq<char>, Span)>>
    decreases fields.len(),
{
    if fields.len() == 0 {
        None
    } else {
        match cycle_from(m, fields[0].ty@, target, target_display, Seq::empty(), fields[0].span) {
            Some(p) => Some(p),
            None => first_field_cycle(m, fields.drop_first(), target, target_display),
        }
    }
}

/// A struct may not hold itself by value: the steps of the first cycle that one of its
/// fields closes (see `first_field_cycle`), if any.
pub fn struct_field_cycle(
    signature: &HirModuleSignature,
    fields: &Vec<HirStructFieldSignature>,
    class_signature: &HirStructSignature,
    class_display: &str,
) -> (r: Option<Vec<CycleLabel>>)
    ensures
        match first_field_cycle(*signature, fields@, class_signature.name@, class_display@) {
            Some(p) => r matches Some(path) && labels_view(path@) == p,
            None => r is None,
        },
{
    let mut i: usize = 0;
    proof {
        assert(fields@.skip(0) =~= fields@);
    }
    while i < fields.len()
        invariant
            i <= fields@.len(),
            first_field_cycle(*signature, fields@, class_signature.name@, class_display@)
                == first_field_cycle(*signature, fields@.skip(i as int), class_signature.name@, class_display@),
        decreases fields.len() - i,
    {
        let field = &fields[i];
        proof {
            assert(fields@.skip(i as int)[0] == fields@[i as int]);
            assert(fields@.skip(i as int).drop_first() =~= fields@.skip(i + 1));
        }
        let mut visited: Vec<String> = Vec::new();
        let mut cycle_path: Vec<CycleLabel> = Vec::new();
        proof {
            assert(views(visited@) =~= Seq::<Seq<char>>::empty());
        }
        if has_cyclic_reference(signature, &field.ty, class_signature, class_display, &mut visited, &mut cycle_path, field.span) {
            proof {
                assert(labels_view(Seq::<CycleLabel>::empty()) =~= Seq::<(Seq<char>, Span)>::empty());
                let p = cycle_from(*signature, field.ty@, class_signature.name@, class_display@, Seq::empty(), field.span)->Some_0;
                assert(labels_view(cycle_path@) =~= p);
            }
            return Some(cycle_path);
        }
        i = i + 1;
    }
    proof {
        assert(fields@.skip(i as int) =~= Seq::<HirStructFieldSignature>::empty());
    }
    None
}

} // verus!
