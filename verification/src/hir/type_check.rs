//! Whether a value of one type may stand where another type is expected.
use vstd::prelude::*;
use crate::hir::keyed::{contains_key, has_key};
use crate::hir::monomorph::{generate_mangled_name, mangled};
use crate::hir::signature::{HirModuleSignature, HirStructFieldSignature};
use crate::hir::item::HirUnion;
use crate::hir::ty::{copyable, display, moveable, ty_id, tys_view, HirInlineArrayTy, HirPtrTy, HirSliceTy, HirTy, HirTyId, TyV};
use crate::text::{join, join_strings, nat_text, push_usize, views};
use vstd::string::StringExecFns;
use crate::text::str_eq;
use crate::utils::Span;

verus! {

/// Why a found type does not fit an expected one, with the types at the level where the
/// check failed.
pub enum RelationFailure {
    Mismatch(TyV, TyV),
    NotCopyable(TyV),
    NotMoveable(TyV),
}

/// The outcome of checking that a value of type `f` may stand where `e` is expected:
/// `None` when it may.
/// - A generic instance and a name fit when the name is the instance's mangled struct name.
/// - An enum name and an unsigned integer fit.
/// - Inline arrays fit when their sizes agree and their elements fit.
/// - Integers (signed, unsigned, floating) fit when the expected one is at least as wide.
/// - Pointers fit when their pointees fit, and a `*const` is not given for a `*`.
/// - A pointer given for a value fits when its pointee fits and the value is copyable.
/// - A value given for a pointer fits when it fits the pointee and, for a `*`, is moveable.
/// - Otherwise the types must have the same identity.
pub open spec fn relation_failure(m: HirModuleSignature, e: TyV, f: TyV) -> Option<RelationFailure>
    decreases e, f, 1nat,
{
    let mismatch = Some(RelationFailure::Mismatch(e, f));
    match e {
        TyV::Generic(name, inner, _) => match f {
            TyV::Named(n, _) => if mangled(name, inner, "struct"@) == n { None } else { mismatch },
            _ => found_side_failure(m, e, f),
        },
        TyV::Named(n, _) => match f {
            TyV::Generic(name, inner, _) => if mangled(name, inner, "struct"@) == n { None } else { mismatch },
            TyV::UnsignedInteger(_) => if has_key(m.enums@, n) { None } else { mismatch },
            _ => found_side_failure(m, e, f),
        },
        TyV::UnsignedInteger(a) => match f {
            TyV::Named(n, _) => if has_key(m.enums@, n) { None } else { mismatch },
            TyV::UnsignedInteger(b) => if a >= b { None } else { mismatch },
            _ => found_side_failure(m, e, f),
        },
        TyV::InlineArray(ei, es) => match f {
            TyV::InlineArray(fi, fs) => if es != fs { mismatch } else { relation_failure(m, *ei, *fi) },
            _ => found_side_failure(m, e, f),
        },
        TyV::Integer(a) => match f {
            TyV::Integer(b) => if a >= b { None } else { mismatch },
            _ => found_side_failure(m, e, f),
        },
        TyV::Float(a) => match f {
            TyV::Float(b) => if a >= b { None } else { mismatch },
            _ => found_side_failure(m, e, f),
        },
        TyV::PtrTy(ep, ec, _) => match f {
            TyV::PtrTy(fp, fc, _) => if !ec && fc { mismatch } else { relation_failure(m, *ep, *fp) },
            _ => match relation_failure(m, *ep, f) {
                Some(x) => Some(x),
                None => if !ec && !moveable(m, f) { Some(RelationFailure::NotMoveable(f)) } else { None },
            },
        },
        _ => found_side_failure(m, e, f),
    }
}

/// The cases that depend on the found type only: a pointer given for a value, or else
/// types of the same identity.
pub open spec fn found_side_failure(m: HirModuleSignature, e: TyV, f: TyV) -> Option<RelationFailure>
    decreases e, f, 0nat,
{
    match f {
        TyV::PtrTy(fp, _, _) => match relation_failure(m, e, *fp) {
            Some(x) => Some(x),
            None => if copyable(m, e) { None } else { Some(RelationFailure::NotCopyable(f)) },
        },
        _ => if ty_id(e) == ty_id(f) { None } else { Some(RelationFailure::Mismatch(e, f)) },
    }
}

/// A type error found while relating two types.
#[derive(Debug)]
pub enum TypeRelationError {
    TypeMismatch { expected_ty: String, expected_span: Span, found_ty: String, found_span: Span },
    TypeIsNotCopyable { ty_name: String, span: Span },
    TypeIsNotMoveable { ty_name: String, span: Span },
}

/// The error reports `x`, with the types written as in source and the spans of the check.
pub open spec fn reports(err: TypeRelationError, x: RelationFailure, es: Span, fs: Span) -> bool {
    match x {
        RelationFailure::Mismatch(e, f) => err matches TypeRelationError::TypeMismatch { expected_ty, expected_span, found_ty, found_span }
            && expected_ty@ == display(e) && expected_span == es && found_ty@ == display(f) && found_span == fs,
        RelationFailure::NotCopyable(f) => err matches TypeRelationError::TypeIsNotCopyable { ty_name, span }
            && ty_name@ == display(f) && span == fs,
        RelationFailure::NotMoveable(f) => err matches TypeRelationError::TypeIsNotMoveable { ty_name, span }
            && ty_name@ == display(f) && span == fs,
    }
}

/// The outcome of a check matches `relation_failure`.
pub open spec fn relation_result(
    m: HirModuleSignature,
    e: TyV,
    es: Span,
    f: TyV,
    fs: Span,
    r: Result<(), TypeRelationError>,
) -> bool {
    match r {
        Ok(_) => relation_failure(m, e, f) is None,
        Err(err) => relation_failure(m, e, f) matches Some(x) && reports(err, x, es, fs),
    }
}

fn type_mismatch_err(expected: &HirTy, expected_span: Span, found: &HirTy, found_span: Span) -> (err: TypeRelationError)
    ensures
        reports(err, RelationFailure::Mismatch(expected@, found@), expected_span, found_span),
{
    TypeRelationError::TypeMismatch {
        expected_ty: expected.to_string(),
        expected_span,
        found_ty: found.to_string(),
        found_span,
    }
}

/// Checks that a value of type `found_ty` may stand where `expected_ty` is expected (see
/// `relation_failure`).
pub fn is_equivalent_ty(
    signature: &HirModuleSignature,
    expected_ty: &HirTy,
    expected_span: Span,
    found_ty: &HirTy,
    found_span: Span,
) -> (r: Result<(), TypeRelationError>)
    ensures
        relation_result(*signature, expected_ty@, expected_span, found_ty@, found_span, r),
    decreases expected_ty, found_ty, 1nat,
{
    match expected_ty {
        HirTy::Generic(g) => match found_ty {
            HirTy::Named(n) => {
                let name = generate_mangled_name(g, "struct");
                if str_eq(name.as_str(), n.name.as_str()) {
                    Ok(())
                } else {
                    Err(type_mismatch_err(expected_ty, expected_span, found_ty, found_span))
                }
            },
            _ => found_side(signature, expected_ty, expected_span, found_ty, found_span),
        },
        HirTy::Named(n) => match found_ty {
            HirTy::Generic(g) => {
                let name = generate_mangled_name(g, "struct");
                if str_eq(name.as_str(), n.name.as_str()) {
                    Ok(())
                } else {
                    Err(type_mismatch_err(expected_ty, expected_span, found_ty, found_span))
                }
            },
            HirTy::UnsignedInteger(_) => {
                if contains_key(&signature.enums, n.name.as_str()) {
                    Ok(())
                } else {
                    Err(type_mismatch_err(expected_ty, expected_span, found_ty, found_span))
                }
            },
            _ => found_side(signature, expected_ty, expected_span, found_ty, found_span),
        },
        HirTy::UnsignedInteger(a) => match found_ty {
            HirTy::Named(n) => {
                if contains_key(&signature.enums, n.name.as_str()) {
                    Ok(())
                } else {
                    Err(type_mismatch_err(expected_ty, expected_span, found_ty, found_span))
                }
            },
            HirTy::UnsignedInteger(b) => {
                if a.size_in_bits >= b.size_in_bits {
                    Ok(())
                } else {
                    Err(type_mismatch_err(expected_ty, expected_span, found_ty, found_span))
                }
            },
            _ => found_side(signature, expected_ty, expected_span, found_ty, found_span),
        },
        HirTy::InlineArray(l1) => match found_ty {
            HirTy::InlineArray(l2) => {
                if l1.size != l2.size {
                    return Err(type_mismatch_err(expected_ty, expected_span, found_ty, found_span));
                }
                is_equivalent_ty(signature, &l1.inner, expected_span, &l2.inner, found_span)
            },
            _ => found_side(signature, expected_ty, expected_span, found_ty, found_span),
        },
        HirTy::Integer(a) => match found_ty {
            HirTy::Integer(b) => {
                if a.size_in_bits >= b.size_in_bits {
                    Ok(())
                } else {
                    Err(type_mismatch_err(expected_ty, expected_span, found_ty, found_span))
                }
            },
            _ => found_side(signature, expected_ty, expected_span, found_ty, found_span),
        },
        HirTy::Float(a) => match found_ty {
            HirTy::Float(b) => {
                if a.size_in_bits >= b.size_in_bits {
                    Ok(())
                } else {
                    Err(type_mismatch_err(expected_ty, expected_span, found_ty, found_span))
                }
            },
            _ => found_side(signature, expected_ty, expected_span, found_ty, found_span),
        },
        HirTy::PtrTy(p1) => match found_ty {
            HirTy::PtrTy(p2) => {
                if !p1.is_const && p2.is_const {
                    return Err(type_mismatch_err(expected_ty, expected_span, found_ty, found_span));
                }
                is_equivalent_ty(signature, &p1.inner, expected_span, &p2.inner, found_span)
            },
            _ => {
                match is_equivalent_ty(signature, &p1.inner, expected_span, found_ty, found_span) {
                    Err(e) => return Err(e),
                    Ok(()) => {},
                }
                if !p1.is_const {
                    if found_ty.is_moveable(signature) {
                        Ok(())
                    } else {
                        Err(TypeRelationError::TypeIsNotMoveable { ty_name: found_ty.to_string(), span: found_span })
                    }
                } else {
                    Ok(())
                }
            },
        },
        _ => found_side(signature, expected_ty, expected_span, found_ty, found_span),
    }
}

/// The cases of `found_side_failure`.
fn found_side(
    signature: &HirModuleSignature,
    expected_ty: &HirTy,
    expected_span: Span,
    found_ty: &HirTy,
    found_span: Span,
) -> (r: Result<(), TypeRelationError>)
    ensures
        match r {
            Ok(_) => found_side_failure(*signature, expected_ty@, found_ty@) is None,
            Err(err) => found_side_failure(*signature, expected_ty@, found_ty@) matches Some(x)
                && reports(err, x, expected_span, found_span),
        },
    decreases expected_ty, found_ty, 0nat,
{
    match found_ty {
        HirTy::PtrTy(p) => {
            match is_equivalent_ty(signature, expected_ty, expected_span, &p.inner, found_span) {
                Err(e) => return Err(e),
                Ok(()) => {},
            }
            if expected_ty.is_copyable(signature) {
                Ok(())
            } else {
                Err(TypeRelationError::TypeIsNotCopyable { ty_name: found_ty.to_string(), span: found_span })
            }
        },
        _ => {
            if HirTyId::from(expected_ty).same_as(&HirTyId::from(found_ty)) {
                Ok(())
            } else {
                Err(type_mismatch_err(expected_ty, expected_span, found_ty, found_span))
            }
        },
    }
}


/// Every type fits where that same type is expected.
pub proof fn lemma_relation_reflexive(m: HirModuleSignature, t: TyV)
    ensures
        relation_failure(m, t, t) is None,
    decreases t,
{
    match t {
        TyV::InlineArray(inner, _) => {
            lemma_relation_reflexive(m, *inner);
            assert(relation_failure(m, t, t) == relation_failure(m, *inner, *inner));
        },
        TyV::PtrTy(inner, _, _) => {
            lemma_relation_reflexive(m, *inner);
            assert(relation_failure(m, t, t) == relation_failure(m, *inner, *inner));
        },
        _ => {
            assert(found_side_failure(m, t, t) is None);
        },
    }
}


/// How a type is named in messages about fields: integers, floats and unsigned integers
/// by their 64-bit names, generic instances with their arguments between `<` and `>`,
/// and `<unknown>` for function and other types.
pub open spec fn type_display_name(t: TyV) -> Seq<char>
    decreases t, 1nat,
{
    match t {
        TyV::Named(n, _) => n,
        TyV::Generic(name, inner, _) => name + "<"@ + join(type_display_names(inner), ", "@) + ">"@,
        TyV::Boolean => "bool"@,
        TyV::Integer(_) => "int64"@,
        TyV::Float(_) => "float64"@,
        TyV::Char => "char"@,
        TyV::UnsignedInteger(_) => "uint64"@,
        TyV::String => "string"@,
        TyV::Unit => "unit"@,
        TyV::Slice(inner) => "["@ + type_display_name(*inner) + "]"@,
        TyV::PtrTy(inner, is_const, _) => if is_const {
            "*const "@ + type_display_name(*inner)
        } else {
            "*"@ + type_display_name(*inner)
        },
        TyV::InlineArray(inner, size) => "["@ + type_display_name(*inner) + "; "@ + nat_text(size as nat) + "]"@,
        _ => "<unknown>"@,
    }
}

pub open spec fn type_display_names(ts: Seq<TyV>) -> Seq<Seq<char>>
    decreases ts, 0nat,
{
    if ts.len() == 0 {
        Seq::empty()
    } else {
        type_display_names(ts.drop_last()).push(type_display_name(ts.last()))
    }
}

/// The name of a type for messages (see `type_display_name`).
pub fn get_type_display_name(ty: &HirTy) -> (r: String)
    ensures
        r@ == type_display_name(ty@),
    decreases ty, 1nat,
{
    match ty {
        HirTy::Named(n) => n.name.clone(),
        HirTy::Generic(g) => {
            let names = display_names_of(ty, &g.inner);
            let mut out = g.name.clone();
            out.append("<");
            out.append(join_strings(&names, ", ").as_str());
            out.append(">");
            out
        },
        HirTy::Boolean(_) => String::from_str("bool"),
        HirTy::Integer(_) => String::from_str("int64"),
        HirTy::Float(_) => String::from_str("float64"),
        HirTy::Char(_) => String::from_str("char"),
        HirTy::UnsignedInteger(_) => String::from_str("uint64"),
        HirTy::String(_) => String::from_str("string"),
        HirTy::Unit(_) => String::from_str("unit"),
        HirTy::Slice(l) => {
            let mut out = String::from_str("[");
            out.append(get_type_display_name(&l.inner).as_str());
            out.append("]");
            out
        },
        HirTy::PtrTy(p) => {
            let mut out = if p.is_const { String::from_str("*const ") } else { String::from_str("*") };
            out.append(get_type_display_name(&p.inner).as_str());
            out
        },
        HirTy::InlineArray(arr) => {
            let mut out = String::from_str("[");
            out.append(get_type_display_name(&arr.inner).as_str());
            out.append("; ");
            push_usize(&mut out, arr.size);
            out.append("]");
            out
        },
        _ => String::from_str("<unknown>"),
    }
}

fn display_names_of(owner: &HirTy, ts: &Vec<HirTy>) -> (r: Vec<String>)
    requires
        forall|i: int| 0 <= i < ts@.len() ==> decreases_to!(*owner => #[trigger] ts@[i]),
    ensures
        views(r@) == type_display_names(tys_view(ts@)),
    decreases owner, 0nat,
{
    let mut out: Vec<String> = Vec::new();
    let mut i: usize = 0;
    while i < ts.len()
        invariant
            i <= ts.len(),
            forall|j: int| 0 <= j < ts@.len() ==> decreases_to!(*owner => #[trigger] ts@[j]),
            views(out@) == type_display_names(tys_view(ts@.subrange(0, i as int))),
        decreases ts.len() - i,
    {
        let t = get_type_display_name(&ts[i]);
        proof {
            let pre = ts@.subrange(0, i + 1);
            assert(pre.drop_last() =~= ts@.subrange(0, i as int));
            let pv = tys_view(pre);
            assert(pv.drop_last() =~= tys_view(ts@.subrange(0, i as int)));
            assert(views(out@.push(t)) =~= views(out@).push(t@));
        }
        out.push(t);
        i = i + 1;
    }
    proof {
        assert(ts@.subrange(0, ts.len() as int) =~= ts@);
    }
    out
}

/// The name of the struct or union that a value of type `t` is an instance of, seen
/// through pointers: a generic instance is named by its mangled struct name when the
/// module has that struct, else by its mangled union name when it has that union.
pub open spec fn class_name_of(m: HirModuleSignature, t: TyV) -> Option<Seq<char>>
    decreases t,
{
    match t {
        TyV::Named(n, _) => Some(n),
        TyV::Generic(name, inner, _) => if has_key(m.structs@, mangled(name, inner, "struct"@)) {
            Some(mangled(name, inner, "struct"@))
        } else if has_key(m.unions@, mangled(name, inner, "union"@)) {
            Some(mangled(name, inner, "union"@))
        } else {
            None
        },
        TyV::PtrTy(inner, _, _) => class_name_of(m, *inner),
        _ => None,
    }
}

/// See `class_name_of`.
pub fn get_class_name_of_type(signature: &HirModuleSignature, ty: &HirTy) -> (r: Option<String>)
    ensures
        match class_name_of(*signature, ty@) {
            Some(n) => r matches Some(s) && s@ == n,
            None => r is None,
        },
    decreases ty,
{
    match ty {
        HirTy::Named(n) => Some(n.name.clone()),
        HirTy::Generic(g) => {
            let name = generate_mangled_name(g, "struct");
            if contains_key(&signature.structs, name.as_str()) {
                return Some(name);
            }
            let name = generate_mangled_name(g, "union");
            if contains_key(&signature.unions, name.as_str()) {
                return Some(name);
            }
            None
        },
        HirTy::PtrTy(p) => get_class_name_of_type(signature, &p.inner),
        _ => None,
    }
}

/// The name of the generic parameter a parameter type is written with, seen through
/// slices and pointers.
pub open spec fn generic_name_of(t: TyV) -> Option<Seq<char>>
    decreases t,
{
    match t {
        TyV::Slice(inner) => generic_name_of(*inner),
        TyV::Named(n, _) => Some(n),
        TyV::PtrTy(inner, _, _) => generic_name_of(*inner),
        _ => None,
    }
}

/// See `generic_name_of`.
pub fn get_generic_name(ty: &HirTy) -> (r: Option<&String>)
    ensures
        match generic_name_of(ty@) {
            Some(n) => r matches Some(s) && s@ == n,
            None => r is None,
        },
    decreases ty,
{
    match ty {
        HirTy::Slice(l) => get_generic_name(&l.inner),
        HirTy::Named(n) => Some(&n.name),
        HirTy::PtrTy(p) => get_generic_name(&p.inner),
        _ => None,
    }
}

/// The type that a generic return type `t` stands for once its parameter is
/// `actual`: slices, arrays and pointers are kept around it.
pub open spec fn generic_ret_ty(t: TyV, actual: TyV) -> TyV
    decreases t,
{
    match t {
        TyV::Slice(inner) => TyV::Slice(Box::new(generic_ret_ty(*inner, actual))),
        TyV::InlineArray(inner, size) => TyV::InlineArray(Box::new(generic_ret_ty(*inner, actual)), size),
        TyV::PtrTy(inner, c, span) => TyV::PtrTy(Box::new(generic_ret_ty(*inner, actual)), c, span),
        _ => actual,
    }
}

/// See `generic_ret_ty`.
pub fn get_generic_ret_ty(ty: &HirTy, actual_generic_ty: &HirTy) -> (r: HirTy)
    ensures
        r@ == generic_ret_ty(ty@, actual_generic_ty@),
    decreases ty,
{
    match ty {
        HirTy::Slice(l) => HirTy::Slice(HirSliceTy { inner: Box::new(get_generic_ret_ty(&l.inner, actual_generic_ty)) }),
        HirTy::InlineArray(arr) => HirTy::InlineArray(HirInlineArrayTy {
            inner: Box::new(get_generic_ret_ty(&arr.inner, actual_generic_ty)),
            size: arr.size,
        }),
        HirTy::PtrTy(p) => HirTy::PtrTy(HirPtrTy {
            inner: Box::new(get_generic_ret_ty(&p.inner, actual_generic_ty)),
            is_const: p.is_const,
            span: p.span,
        }),
        _ => actual_generic_ty.duplicate(),
    }
}

/// The type a generic parameter stands for, from a parameter type `t` written with it and
/// the type `given` of the argument: slices and pointers on both sides are matched, a
/// pointer on one side alone is looked through.
pub open spec fn generic_ty_of(t: TyV, given: TyV) -> Option<TyV>
    decreases t, given,
{
    match t {
        TyV::Slice(l1) => match given {
            TyV::Slice(l2) => generic_ty_of(*l1, *l2),
            TyV::PtrTy(p2, _, _) => generic_ty_of(t, *p2),
            _ => None,
        },
        TyV::PtrTy(p1, _, _) => match given {
            TyV::PtrTy(p2, _, _) => generic_ty_of(*p1, *p2),
            _ => generic_ty_of(*p1, given),
        },
        TyV::Named(..) => Some(given),
        _ => match given {
            TyV::PtrTy(p2, _, _) => generic_ty_of(t, *p2),
            _ => None,
        },
    }
}

/// See `generic_ty_of`.
pub fn get_generic_ty<'a>(ty: &HirTy, given_ty: &'a HirTy) -> (r: Option<&'a HirTy>)
    ensures
        match generic_ty_of(ty@, given_ty@) {
            Some(v) => r matches Some(x) && x@ == v,
            None => r is None,
        },
    decreases ty, given_ty,
{
    match ty {
        HirTy::Slice(l1) => match given_ty {
            HirTy::Slice(l2) => get_generic_ty(&l1.inner, &l2.inner),
            HirTy::PtrTy(p2) => get_generic_ty(ty, &p2.inner),
            _ => None,
        },
        HirTy::PtrTy(p1) => match given_ty {
            HirTy::PtrTy(p2) => get_generic_ty(&p1.inner, &p2.inner),
            _ => get_generic_ty(&p1.inner, given_ty),
        },
        HirTy::Named(_) => Some(given_ty),
        _ => match given_ty {
            HirTy::PtrTy(p2) => get_generic_ty(ty, &p2.inner),
            _ => None,
        },
    }
}

/// Types that `+ - * / %` apply to.
pub open spec fn arithmetic(t: TyV) -> bool {
    t is Integer || t is UnsignedInteger || t is Float || t is Char
}

pub fn is_arithmetic_type(ty: &HirTy) -> (b: bool)
    ensures
        b == arithmetic(ty@),
{
    match ty {
        HirTy::Integer(_) | HirTy::UnsignedInteger(_) | HirTy::Float(_) | HirTy::Char(_) => true,
        _ => false,
    }
}

/// Types that `< <= > >=` apply to: the arithmetic ones.
pub fn is_orderable_type(ty: &HirTy) -> (b: bool)
    ensures
        b == arithmetic(ty@),
{
    match ty {
        HirTy::Integer(_) | HirTy::UnsignedInteger(_) | HirTy::Float(_) | HirTy::Char(_) => true,
        _ => false,
    }
}

/// Types that `== !=` apply to: scalars, unit, and enums of the module.
pub open spec fn equality_comparable(m: HirModuleSignature, t: TyV) -> bool {
    match t {
        TyV::Integer(_) | TyV::UnsignedInteger(_) | TyV::Float(_) | TyV::Char | TyV::Boolean | TyV::Unit => true,
        TyV::Named(n, _) => has_key(m.enums@, n),
        _ => false,
    }
}

/// Whatever `+ - * / %` and `< <= > >=` apply to, `== !=` apply to as well; so do `bool`
/// and `unit`, in every module.
pub proof fn lemma_arithmetic_types_are_equality_comparable(m: HirModuleSignature, t: TyV)
    ensures
        arithmetic(t) ==> equality_comparable(m, t),
        (t is Integer || t is UnsignedInteger || t is Float || t is Char) ==> arithmetic(t),
        (t is Boolean || t is Unit) ==> equality_comparable(m, t),
        (t matches TyV::Named(n, _) && has_key(m.enums@, n)) ==> equality_comparable(m, t),
        (t is String || t is Slice || t is PtrTy || t is Generic || t is Function || t is InlineArray)
            ==> !equality_comparable(m, t),
{
}

pub fn is_equality_comparable(signature: &HirModuleSignature, ty: &HirTy) -> (b: bool)
    ensures
        b == equality_comparable(*signature, ty@),
{
    match ty {
        HirTy::Integer(_) | HirTy::UnsignedInteger(_) | HirTy::Float(_) | HirTy::Char(_) | HirTy::Boolean(_)
        | HirTy::Unit(_) => true,
        HirTy::Named(n) => contains_key(&signature.enums, n.name.as_str()),
        _ => false,
    }
}


/// Why a union declaration is refused.
#[derive(Debug)]
pub enum UnionCheckError {
    /// A union needs two variants or more.
    UnionMustHaveAtLeastTwoVariant { union_name: String, span: Span },
    /// Two variants have types written alike: the type, and the places of both.
    UnionVariantDefinedMultipleTimes { union_name: String, variant_ty: String, first_span: Span, second_span: Span },
}

/// The first of the first `k` variants whose type is written like `t`.
pub open spec fn first_alike(vs: Seq<HirStructFieldSignature>, t: TyV, k: int) -> Option<int>
    decreases k,
{
    if k <= 0 || k > vs.len() {
        None
    } else {
        match first_alike(vs, t, k - 1) {
            Some(i) => Some(i),
            None => if crate::hir::ownership::ty_same(vs[k - 1].ty@, t) { Some(k - 1) } else { None },
        }
    }
}

/// Among the first `n` variants, the first one whose type repeats an earlier variant's,
/// with that earlier variant: `(earlier, later)`.
pub open spec fn first_repeat(vs: Seq<HirStructFieldSignature>, n: int) -> Option<(int, int)>
    decreases n,
{
    if n <= 0 || n > vs.len() {
        None
    } else {
        match first_repeat(vs, n - 1) {
            Some(p) => Some(p),
            None => match first_alike(vs, vs[n - 1].ty@, n - 1) {
                Some(i) => Some((i, n - 1)),
                None => None,
            },
        }
    }
}

/// The first of the first `k` variants of `vs` whose type is written like `t`.
fn find_alike(vs: &Vec<HirStructFieldSignature>, t: &HirTy, k: usize) -> (r: Option<usize>)
    requires
        k <= vs@.len(),
    ensures
        match r {
            Some(i) => first_alike(vs@, t@, k as int) == Some(i as int) && i < k,
            None => first_alike(vs@, t@, k as int) is None,
        },
{
    let mut i: usize = 0;
    while i < k
        invariant
            i <= k <= vs@.len(),
            first_alike(vs@, t@, i as int) is None,
        decreases k - i,
    {
        if crate::hir::ownership::ty_eq(&vs[i].ty, t) {
            proof {
                assert(first_alike(vs@, t@, i + 1) == Some(i as int));
                lemma_first_alike_stays(vs@, t@, i + 1, k as int);
            }
            return Some(i);
        }
        i = i + 1;
    }
    None
}

/// Once a variant alike is found among the first `k`, looking further finds the same.
proof fn lemma_first_alike_stays(vs: Seq<HirStructFieldSignature>, t: TyV, k: int, m: int)
    requires
        0 < k <= m <= vs.len(),
        first_alike(vs, t, k) is Some,
    ensures
        first_alike(vs, t, m) == first_alike(vs, t, k),
    decreases m - k,
{
    if k < m {
        lemma_first_alike_stays(vs, t, k, m - 1);
    }
}

/// Once a repeat is found among the first `k` variants, looking further finds the same.
proof fn lemma_first_repeat_stays(vs: Seq<HirStructFieldSignature>, k: int, m: int)
    requires
        0 < k <= m <= vs.len(),
        first_repeat(vs, k) is Some,
    ensures
        first_repeat(vs, m) == first_repeat(vs, k),
    decreases m - k,
{
    if k < m {
        lemma_first_repeat_stays(vs, k, m - 1);
    }
}

/// Checks a union declaration: it needs two variants or more, and no two variants with
/// types written alike (the first such pair is reported: the earliest variant that repeats
/// a type, and the first variant with that type).
pub fn check_union(hir_union: &HirUnion) -> (r: Result<(), UnionCheckError>)
    ensures
        hir_union.variants@.len() <= 1 ==> (r matches Err(UnionCheckError::UnionMustHaveAtLeastTwoVariant { union_name, span })
            && union_name@ == hir_union.name@ && span == hir_union.name_span),
        hir_union.variants@.len() > 1 ==> match first_repeat(hir_union.variants@, hir_union.variants@.len() as int) {
            Some((i, j)) => r matches Err(UnionCheckError::UnionVariantDefinedMultipleTimes {
                union_name,
                variant_ty,
                first_span,
                second_span,
            }) && union_name@ == hir_union.name@ && variant_ty@ == display(hir_union.variants@[j].ty@)
                && first_span == hir_union.variants@[i].span && second_span == hir_union.variants@[j].span,
            None => r is Ok,
        },
{
    let vs = &hir_union.variants;
    if vs.len() <= 1 {
        return Err(UnionCheckError::UnionMustHaveAtLeastTwoVariant {
            union_name: hir_union.name.clone(),
            span: hir_union.name_span,
        });
    }
    let mut j: usize = 0;
    while j < vs.len()
        invariant
            j <= vs@.len(),
            vs@.len() > 1,
            vs@ == hir_union.variants@,
            first_repeat(vs@, j as int) is None,
        decreases vs.len() - j,
    {
        match find_alike(vs, &vs[j].ty, j) {
            Some(i) => {
                proof {
                    assert(first_repeat(vs@, j + 1) == Some((i as int, j as int)));
                    lemma_first_repeat_stays(vs@, j + 1, vs@.len() as int);
                }
                return Err(UnionCheckError::UnionVariantDefinedMultipleTimes {
                    union_name: hir_union.name.clone(),
                    variant_ty: vs[j].ty.to_string(),
                    first_span: vs[i].span,
                    second_span: vs[j].span,
                });
            },
            None => {},
        }
        j = j + 1;
    }
    Ok(())
}

} // verus!
