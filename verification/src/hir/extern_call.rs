//! Calls of external functions: the signature that a call instantiates, with the generic
//! parameters bound from the explicit type arguments or inferred from the argument types.
use vstd::prelude::*;
use vstd::string::StringExecFns;
use crate::hir::keyed::reversed;
use crate::hir::generic_pool::copy_tys;
use crate::hir::ownership::{tys_alike, tys_same};
use crate::hir::signature::{HirFunctionParameterSignature, HirFunctionSignature, HirGenericConstraint};
use crate::hir::ty::{display, tys_view, HirTy, TyV};
use crate::hir::type_check::{generic_name_of, generic_ret_ty, generic_ty_of, get_generic_name, get_generic_ret_ty,
    get_generic_ty};
use crate::utils::Span;

verus! {

/// A type mismatch as the type checker reports it: the type expected and where, and the
/// type found and where.
#[derive(Debug)]
pub struct TypeMismatchError {
    pub expected_ty: String,
    pub span: Span,
    pub actual_ty: String,
    pub actual_span: Span,
}

/// What a mismatch report says.
pub open spec fn mismatch_view(e: TypeMismatchError) -> (Seq<char>, Span, Seq<char>, Span) {
    (e.expected_ty@, e.span, e.actual_ty@, e.actual_span)
}

/// The concrete type of the first binding of the generic parameter `name`.
pub open spec fn binding_of(bs: Seq<(Seq<char>, TyV)>, name: Seq<char>) -> Option<TyV>
    decreases bs.len(),
{
    if bs.len() == 0 {
        None
    } else if bs[0].0 == name {
        Some(bs[0].1)
    } else {
        binding_of(bs.drop_first(), name)
    }
}

/// The type written `t` under the bindings: a type written with a bound generic parameter
/// gets its concrete type (slices, arrays and pointers kept around it); any other stays.
pub open spec fn bound_ty(bs: Seq<(Seq<char>, TyV)>, t: TyV) -> TyV {
    match generic_name_of(t) {
        Some(n) => match binding_of(bs, n) {
            Some(c) => generic_ret_ty(t, c),
            None => t,
        },
        None => t,
    }
}

pub open spec fn min_len(a: nat, b: nat) -> nat {
    if a < b { a } else { b }
}

/// Each declared generic parameter with the explicit type argument at its position.
pub open spec fn explicit_bindings(generics: Seq<HirGenericConstraint>, explicit: Seq<TyV>) -> Seq<(Seq<char>, TyV)> {
    Seq::new(min_len(generics.len(), explicit.len()), |i: int| (generics[i].generic_name@, explicit[i]))
}

pub open spec fn param_tys(ps: Seq<HirFunctionParameterSignature>) -> Seq<TyV> {
    ps.map_values(|p: HirFunctionParameterSignature| p.ty@)
}

/// The bindings inferred from the first `k` parameter types and the argument types, in
/// order, or the first position whose argument does not fit its parameter.
pub open spec fn inferred(params: Seq<TyV>, args: Seq<TyV>, k: nat) -> Result<Seq<(Seq<char>, TyV)>, nat>
    decreases k,
{
    if k == 0 {
        Ok(Seq::empty())
    } else {
        match inferred(params, args, (k - 1) as nat) {
            Err(i) => Err(i),
            Ok(bs) => match generic_name_of(params[k - 1]) {
                Some(n) => match generic_ty_of(params[k - 1], args[k - 1]) {
                    Some(t) => Ok(bs.push((n, t))),
                    None => Err((k - 1) as nat),
                },
                None => Ok(bs),
            },
        }
    }
}

/// How a call binds the generic parameters of `sig`: from the explicit type arguments
/// when there are any, else inferred from the arguments, parameter by parameter.
/// Once a position is refused, the inference over more parameters refuses it too.
proof fn lemma_inferred_refusal_stays(params: Seq<TyV>, args: Seq<TyV>, k: nat, j: nat)
    requires
        k <= j,
        inferred(params, args, k) is Err,
    ensures
        inferred(params, args, j) == inferred(params, args, k),
    decreases j - k,
{
    if k < j {
        lemma_inferred_refusal_stays(params, args, k, (j - 1) as nat);
    }
}

pub open spec fn extern_bindings(sig: HirFunctionSignature, explicit: Seq<TyV>, args: Seq<TyV>)
    -> Result<Seq<(Seq<char>, TyV)>, nat> {
    if explicit.len() > 0 {
        Ok(explicit_bindings(sig.generics@, explicit))
    } else {
        inferred(param_tys(sig.params@), args, min_len(sig.params@.len(), args.len()))
    }
}

/// The mismatch a call of `sig` is refused with, if any: an argument that does not fit
/// its generic parameter; a generic function without parameters called without type
/// arguments; a return type written with a generic parameter that nothing binds.
pub open spec fn extern_failure(sig: HirFunctionSignature, explicit: Seq<TyV>, args: Seq<TyV>,
    arg_spans: Seq<Span>, call_span: Span) -> Option<(Seq<char>, Span, Seq<char>, Span)> {
    match extern_bindings(sig, explicit, args) {
        Err(i) => Some((display(args[i as int]), arg_spans[i as int], display(sig.params@[i as int].ty@),
            sig.params@[i as int].span)),
        Ok(bs) => if explicit.len() == 0 && sig.params@.len() == 0 && sig.generics@.len() > 0 {
            Some(("parameterless generic function"@, call_span,
                "explicit type arguments (e.g., `function::<Int64>()`)"@, sig.span))
        } else {
            match generic_name_of(sig.return_ty@) {
                Some(n) => if binding_of(bs, n) is None {
                    Some(("generic parameter `"@ + n + "` should be inferred from function arguments"@, sig.span,
                        "inferred type for `"@ + n + "` from the return type `"@ + display(sig.return_ty@) + "`"@,
                        call_span))
                } else {
                    None
                },
                None => None,
            }
        },
    }
}

/// `m` is `sig` instantiated under the bindings: as many parameters as there are
/// arguments, each with its type bound; no generic parameter; the return type bound; the
/// rest as declared.
pub open spec fn is_extern_instance(sig: HirFunctionSignature, n_args: nat, bs: Seq<(Seq<char>, TyV)>,
    m: HirFunctionSignature) -> bool {
    let n = min_len(sig.params@.len(), n_args);
    &&& m == (HirFunctionSignature { params: m.params, generics: m.generics, return_ty: m.return_ty, ..sig })
    &&& m.generics@.len() == 0
    &&& m.params@.len() == n
    &&& forall|i: int| 0 <= i < n ==> (#[trigger] m.params@[i]) == (HirFunctionParameterSignature {
        ty: m.params@[i].ty,
        ..sig.params@[i]
    }) && m.params@[i].ty@ == bound_ty(bs, sig.params@[i].ty@)
    &&& m.return_ty@ == bound_ty(bs, sig.return_ty@)
}

pub open spec fn bindings_view(v: Seq<(String, HirTy)>) -> Seq<(Seq<char>, TyV)> {
    v.map_values(|e: (String, HirTy)| (e.0@, e.1@))
}

/// The concrete type of the first binding of `name`.
fn find_binding<'a>(bindings: &'a Vec<(String, HirTy)>, name: &String) -> (r: Option<&'a HirTy>)
    ensures
        match binding_of(bindings_view(bindings@), name@) {
            Some(t) => r matches Some(x) && x@ == t,
            None => r is None,
        },
{
    let ghost bs = bindings_view(bindings@);
    let mut i: usize = 0;
    proof {
        assert(bs.skip(0) =~= bs);
    }
    while i < bindings.len()
        invariant
            i <= bindings@.len(),
            bs == bindings_view(bindings@),
            binding_of(bs, name@) == binding_of(bs.skip(i as int), name@),
        decreases bindings.len() - i,
    {
        assert(bs.skip(i as int)[0] == bs[i as int]);
        if bindings[i].0 == *name {
            return Some(&bindings[i].1);
        }
        assert(bs.skip(i as int).drop_first() =~= bs.skip(i + 1));
        i = i + 1;
    }
    assert(bs.skip(i as int).len() == 0);
    None
}

/// The type written `t` under the bindings (see `bound_ty`).
fn bind_ty(bindings: &Vec<(String, HirTy)>, t: &HirTy) -> (r: HirTy)
    ensures
        r@ == bound_ty(bindings_view(bindings@), t@),
{
    match get_generic_name(t) {
        Some(n) => match find_binding(bindings, n) {
            Some(c) => get_generic_ret_ty(t, c),
            None => t.duplicate(),
        },
        None => t.duplicate(),
    }
}

/// The signature that a call of the external function `signature` instantiates, given the
/// explicit type arguments, the argument types and their places; or the mismatch that the
/// call is refused with.
pub fn monomorphize_extern_signature(
    signature: HirFunctionSignature,
    explicit_generics: &Vec<HirTy>,
    args_ty: &Vec<HirTy>,
    arg_spans: &Vec<Span>,
    call_span: Span,
) -> (r: Result<HirFunctionSignature, TypeMismatchError>)
    requires
        arg_spans@.len() == args_ty@.len(),
    ensures
        match extern_failure(signature, tys_view(explicit_generics@), tys_view(args_ty@), arg_spans@, call_span) {
            Some(f) => r matches Err(e) && mismatch_view(e) == f,
            None => r matches Ok(m) && extern_bindings(signature, tys_view(explicit_generics@), tys_view(args_ty@))
                matches Ok(bs) && is_extern_instance(signature, args_ty@.len(), bs, m),
        },
{
    let ghost sig = signature;
    let ghost ex = tys_view(explicit_generics@);
    let ghost av = tys_view(args_ty@);
    proof {
        crate::hir::ty::lemma_tys_view_len(explicit_generics@);
        crate::hir::ty::lemma_tys_view_len(args_ty@);
    }
    let n: usize = if signature.params.len() < args_ty.len() { signature.params.len() } else { args_ty.len() };
    let mut bindings: Vec<(String, HirTy)> = Vec::new();
    if explicit_generics.len() > 0 {
        let m: usize = if signature.generics.len() < explicit_generics.len() {
            signature.generics.len()
        } else {
            explicit_generics.len()
        };
        let mut i: usize = 0;
        while i < m
            invariant
                i <= m,
                m == min_len(sig.generics@.len(), ex.len()),
                signature == sig,
                ex == tys_view(explicit_generics@),
                ex.len() == explicit_generics@.len(),
                forall|q: int| 0 <= q < explicit_generics@.len() ==> #[trigger] ex[q] == explicit_generics@[q]@,
                bindings_view(bindings@) =~= explicit_bindings(sig.generics@, ex).take(i as int),
            decreases m - i,
        {
            let ghost before = bindings@;
            bindings.push((signature.generics[i].generic_name.clone(), explicit_generics[i].duplicate()));
            assert(bindings@ =~= before.push(bindings@.last()));
            assert(bindings_view(bindings@) =~= bindings_view(before).push((bindings@.last().0@, bindings@.last().1@)));
            assert(explicit_bindings(sig.generics@, ex).take(i + 1)
                =~= explicit_bindings(sig.generics@, ex).take(i as int).push(explicit_bindings(sig.generics@, ex)[i as int]));
            i = i + 1;
        }
        proof {
            assert(explicit_bindings(sig.generics@, ex).take(m as int) =~= explicit_bindings(sig.generics@, ex));
        }
    } else {
        let mut i: usize = 0;
        assert(bindings_view(bindings@) =~= Seq::<(Seq<char>, TyV)>::empty());
        while i < n
            invariant
                i <= n,
                n == min_len(sig.params@.len(), av.len()),
                signature == sig,
                av == tys_view(args_ty@),
                av.len() == args_ty@.len(),
                ex == tys_view(explicit_generics@),
                ex.len() == 0,
                arg_spans@.len() == args_ty@.len(),
                forall|q: int| 0 <= q < args_ty@.len() ==> #[trigger] av[q] == args_ty@[q]@,
                inferred(param_tys(sig.params@), av, i as nat) == Ok::<Seq<(Seq<char>, TyV)>, nat>(bindings_view(bindings@)),
            decreases n - i,
        {
            let ghost before = bindings@;
            let param = &signature.params[i];
            assert(param_tys(sig.params@)[i as int] == param.ty@);
            match get_generic_name(&param.ty) {
                Some(name) => match get_generic_ty(&param.ty, &args_ty[i]) {
                    Some(t) => {
                        bindings.push((name.clone(), t.duplicate()));
                        assert(bindings@ =~= before.push(bindings@.last()));
                        assert(bindings_view(bindings@) =~= bindings_view(before).push((name@, t@)));
                    },
                    None => {
                        proof {
                            assert(av[i as int] == args_ty@[i as int]@);
                            assert(inferred(param_tys(sig.params@), av, (i + 1) as nat)
                                == Err::<Seq<(Seq<char>, TyV)>, nat>(i as nat));
                            lemma_inferred_refusal_stays(param_tys(sig.params@), av, (i + 1) as nat, n as nat);
                        }
                        return Err(TypeMismatchError {
                            expected_ty: args_ty[i].to_string(),
                            span: arg_spans[i],
                            actual_ty: param.ty.to_string(),
                            actual_span: param.span,
                        });
                    },
                },
                None => {},
            }
            i = i + 1;
        }
    }
    let ghost bs = bindings_view(bindings@);
    assert(extern_bindings(sig, ex, av) == Ok::<Seq<(Seq<char>, TyV)>, nat>(bs));
    if explicit_generics.len() == 0 && signature.params.len() == 0 && signature.generics.len() > 0 {
        return Err(TypeMismatchError {
            expected_ty: String::from_str("parameterless generic function"),
            span: call_span,
            actual_ty: String::from_str("explicit type arguments (e.g., `function::<Int64>()`)"),
            actual_span: signature.span,
        });
    }
    match get_generic_name(&signature.return_ty) {
        Some(name) => {
            if find_binding(&bindings, name).is_none() {
                let mut expected = String::from_str("generic parameter `");
                expected.append(name.as_str());
                expected.append("` should be inferred from function arguments");
                let mut actual = String::from_str("inferred type for `");
                actual.append(name.as_str());
                actual.append("` from the return type `");
                actual.append(signature.return_ty.to_string().as_str());
                actual.append("`");
                return Err(TypeMismatchError {
                    expected_ty: expected,
                    span: signature.span,
                    actual_ty: actual,
                    actual_span: call_span,
                });
            }
        },
        None => {},
    }
    let mut signature = signature;
    let mut params: Vec<HirFunctionParameterSignature> = Vec::new();
    std::mem::swap(&mut params, &mut signature.params);
    let mut back = reversed(params);
    let mut out: Vec<HirFunctionParameterSignature> = Vec::new();
    while out.len() < n
        invariant
            n == min_len(sig.params@.len(), av.len()),
            sig.params@.take(out@.len() as int) + back@.reverse() == sig.params@,
            out@.len() <= n,
            bs == bindings_view(bindings@),
            forall|i: int| 0 <= i < out@.len() ==> (#[trigger] out@[i]) == (HirFunctionParameterSignature {
                ty: out@[i].ty,
                ..sig.params@[i]
            }) && out@[i].ty@ == bound_ty(bs, sig.params@[i].ty@),
        decreases n - out@.len(),
    {
        let ghost prev = back@;
        let ghost k = out@.len() as int;
        assert(back@.len() > 0);
        let p = back.pop().unwrap();
        proof {
            assert(prev =~= back@.push(p));
            assert(back@.push(p).reverse() =~= seq![p] + back@.reverse());
            assert(sig.params@[k] == (sig.params@.take(k) + prev.reverse())[k]);
            assert(sig.params@[k] == p);
            assert(sig.params@.take(k + 1) =~= sig.params@.take(k).push(p));
            assert(sig.params@.take(k + 1) + back@.reverse() =~= sig.params@.take(k) + prev.reverse());
        }
        let ty = bind_ty(&bindings, &p.ty);
        out.push(HirFunctionParameterSignature { ty, ..p });
    }
    let return_ty = bind_ty(&bindings, &signature.return_ty);
    signature.return_ty = return_ty;
    signature.generics = Vec::new();
    signature.params = out;
    Ok(signature)
}

/// An external function as instantiated at a call, recorded under the name called, the
/// argument types and the explicit type arguments.
#[derive(Debug)]
pub struct ExternInstance {
    pub name: String,
    pub args: Vec<HirTy>,
    pub explicit_generics: Vec<HirTy>,
    pub signature: HirFunctionSignature,
}

/// The record is kept under this name, these argument types and these type arguments.
pub open spec fn recorded_for(e: ExternInstance, name: Seq<char>, args: Seq<TyV>, explicit: Seq<TyV>) -> bool {
    e.name@ == name && tys_same(tys_view(e.args@), args) && tys_same(tys_view(e.explicit_generics@), explicit)
}

/// The first record for this call, if any.
pub open spec fn recorded(cache: Seq<ExternInstance>, name: Seq<char>, args: Seq<TyV>, explicit: Seq<TyV>)
    -> Option<ExternInstance>
    decreases cache.len(),
{
    if cache.len() == 0 {
        None
    } else if recorded_for(cache[0], name, args, explicit) {
        Some(cache[0])
    } else {
        recorded(cache.drop_first(), name, args, explicit)
    }
}

fn find_recorded<'a>(cache: &'a Vec<ExternInstance>, name: &str, args_ty: &Vec<HirTy>, explicit_generics: &Vec<HirTy>)
    -> (r: Option<&'a ExternInstance>)
    ensures
        match recorded(cache@, name@, tys_view(args_ty@), tys_view(explicit_generics@)) {
            Some(e) => r matches Some(x) && *x == e,
            None => r is None,
        },
{
    let ghost c = cache@;
    let ghost av = tys_view(args_ty@);
    let ghost ex = tys_view(explicit_generics@);
    let mut i: usize = 0;
    proof {
        assert(c.skip(0) =~= c);
    }
    while i < cache.len()
        invariant
            i <= c.len(),
            c == cache@,
            av == tys_view(args_ty@),
            ex == tys_view(explicit_generics@),
            recorded(c, name@, av, ex) == recorded(c.skip(i as int), name@, av, ex),
        decreases cache.len() - i,
    {
        assert(c.skip(i as int)[0] == c[i as int]);
        let e = &cache[i];
        if crate::text::str_eq(e.name.as_str(), name) && tys_alike(&e.args, args_ty)
            && tys_alike(&e.explicit_generics, explicit_generics) {
            return Some(e);
        }
        assert(c.skip(i as int).drop_first() =~= c.skip(i + 1));
        i = i + 1;
    }
    assert(c.skip(i as int).len() == 0);
    None
}

/// Type-checks a call of the external function `name` once its arguments are checked:
/// a call recorded before (same name, argument types and type arguments) gives the return
/// type recorded; otherwise the signature is instantiated for the call (see
/// `monomorphize_extern_signature`), recorded, and its return type given.
pub fn check_extern_fn(
    extern_monomorphized: &mut Vec<ExternInstance>,
    name: &str,
    call_expr_generics: &Vec<HirTy>,
    args_ty: Vec<HirTy>,
    arg_spans: &Vec<Span>,
    call_expr_span: Span,
    signature: HirFunctionSignature,
) -> (r: Result<HirTy, TypeMismatchError>)
    requires
        arg_spans@.len() == args_ty@.len(),
    ensures
        match recorded(old(extern_monomorphized)@, name@, tys_view(args_ty@), tys_view(call_expr_generics@)) {
            Some(e) => r matches Ok(t) && t@ == e.signature.return_ty@ && final(extern_monomorphized)@
                == old(extern_monomorphized)@,
            None => match extern_failure(signature, tys_view(call_expr_generics@), tys_view(args_ty@), arg_spans@,
                call_expr_span) {
                Some(f) => r matches Err(e) && mismatch_view(e) == f && final(extern_monomorphized)@
                    == old(extern_monomorphized)@,
                None => r matches Ok(t) && final(extern_monomorphized)@.len() == old(extern_monomorphized)@.len() + 1
                    && final(extern_monomorphized)@.drop_last() == old(extern_monomorphized)@
                    && ({
                        let e = final(extern_monomorphized)@.last();
                        &&& e.name@ == name@
                        &&& tys_view(e.args@) == tys_view(args_ty@)
                        &&& tys_view(e.explicit_generics@) == tys_view(call_expr_generics@)
                        &&& extern_bindings(signature, tys_view(call_expr_generics@), tys_view(args_ty@)) matches Ok(bs)
                        &&& is_extern_instance(signature, args_ty@.len(), bs, e.signature)
                        &&& t@ == e.signature.return_ty@
                    }),
            },
        },
{
    match find_recorded(extern_monomorphized, name, &args_ty, call_expr_generics) {
        Some(e) => return Ok(e.signature.return_ty.duplicate()),
        None => {},
    }
    let ghost sig = signature;
    match monomorphize_extern_signature(signature, call_expr_generics, &args_ty, arg_spans, call_expr_span) {
        Err(e) => Err(e),
        Ok(m) => {
            let ret = m.return_ty.duplicate();
            let explicit = copy_tys(call_expr_generics);
            extern_monomorphized.push(ExternInstance {
                name: String::from_str(name),
                args: args_ty,
                explicit_generics: explicit,
                signature: m,
            });
            Ok(ret)
        },
    }
}


/// Every type is written like itself.
proof fn lemma_ty_same_reflexive(t: TyV)
    ensures
        crate::hir::ownership::ty_same(t, t),
    decreases t, 1nat,
{
    match t {
        TyV::Slice(inner) => lemma_ty_same_reflexive(*inner),
        TyV::InlineArray(inner, _) => lemma_ty_same_reflexive(*inner),
        TyV::PtrTy(inner, _, _) => lemma_ty_same_reflexive(*inner),
        TyV::Generic(_, inner, _) => lemma_tys_same_reflexive(inner),
        TyV::Function(ret, params, _) => {
            lemma_ty_same_reflexive(*ret);
            lemma_tys_same_reflexive(params);
        },
        _ => {},
    }
}

/// Every list of types is written like itself.
proof fn lemma_tys_same_reflexive(ts: Seq<TyV>)
    ensures
        tys_same(ts, ts),
    decreases ts, 0nat,
{
    if ts.len() > 0 {
        lemma_tys_same_reflexive(ts.drop_last());
        lemma_ty_same_reflexive(ts.last());
    }
}

/// A call answered once is answered from its record afterwards: where no record was kept
/// for a call, the record that `check_extern_fn` adds for it is the one found for it next,
/// so the same call gives the same return type again.
pub proof fn lemma_recorded_call_is_found(cache: Seq<ExternInstance>, e: ExternInstance, name: Seq<char>,
    args: Seq<TyV>, explicit: Seq<TyV>)
    requires
        recorded(cache, name, args, explicit) is None,
        e.name@ == name,
        tys_view(e.args@) == args,
        tys_view(e.explicit_generics@) == explicit,
    ensures
        recorded(cache.push(e), name, args, explicit) == Some(e),
    decreases cache.len(),
{
    lemma_tys_same_reflexive(args);
    lemma_tys_same_reflexive(explicit);
    if cache.len() == 0 {
        assert(cache.push(e)[0] == e);
    } else {
        assert(cache.push(e).drop_first() =~= cache.drop_first().push(e));
        assert(cache.push(e)[0] == cache[0]);
        lemma_recorded_call_is_found(cache.drop_first(), e, name, args, explicit);
    }
}

} // verus!
