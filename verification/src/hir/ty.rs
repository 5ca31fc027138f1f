//! Types of the high-level representation, their identities and their names.
use std::hash::{DefaultHasher, Hash, Hasher};
use vstd::prelude::*;
use vstd::string::StringExecFns;
use crate::text::{join, join_strings, nat_text, push_u128, push_usize, views};
use crate::utils::Span;
use crate::hir::keyed::{find_key, lookup};
use crate::hir::signature::HirModuleSignature;

verus! {

/// Identity of a type: a hash of its structure.
#[derive(Debug, Clone, Copy, PartialEq, Eq, Hash)]
pub struct HirTyId(u64);

impl View for HirTyId {
    type V = u64;

    closed spec fn view(&self) -> u64 {
        self.0
    }
}

pub const INTEGER_TY_ID: u8 = 0x01;
pub const FLOAT_TY_ID: u8 = 0x02;
pub const UNSIGNED_INTEGER_TY_ID: u8 = 0x03;
pub const BOOLEAN_TY_ID: u8 = 0x04;
pub const UNIT_TY_ID: u8 = 0x05;
pub const CHAR_TY_ID: u8 = 0x06;
pub const STR_TY_ID: u8 = 0x10;
pub const FUNCTION_TY_ID: u8 = 0x28;
pub const SLICE_TY_ID: u8 = 0x35;
pub const INLINE_ARRAY_TY_ID: u8 = 0x36;
pub const NULLABLE_TY_ID: u8 = 0x40;
pub const UNINITIALIZED_TY_ID: u8 = 0x50;
pub const NAMED_TY_ID: u8 = 0x60;
pub const GENERIC_TY_ID: u8 = 0x70;
pub const POINTER_TY_ID: u8 = 0x90;

/// Hash (by `DefaultHasher::new()`) of a tag byte.
pub uninterp spec fn hash_of_tag(tag: u8) -> u64;

/// Hash of the pair `(tag, n)`.
pub uninterp spec fn hash_of_tag_u8(tag: u8, n: u8) -> u64;

/// Hash of the pair `(tag, id)`.
pub uninterp spec fn hash_of_tag_id(tag: u8, id: u64) -> u64;

/// Hash of the triple `(tag, id, size)`.
pub uninterp spec fn hash_of_tag_id_size(tag: u8, id: u64, size: usize) -> u64;

/// Hash of the pair `(tag, name)`.
pub uninterp spec fn hash_of_tag_name(tag: u8, name: Seq<char>) -> u64;

/// Hash of the triple `(tag, name, ids)`.
pub uninterp spec fn hash_of_tag_name_ids(tag: u8, name: Seq<char>, ids: Seq<u64>) -> u64;

/// Hash of the triple `(tag, is_const, id)`.
pub uninterp spec fn hash_of_tag_flag_id(tag: u8, is_const: bool, id: u64) -> u64;

/// Hash of the triple `(tag, id, ids)`.
pub uninterp spec fn hash_of_tag_id_ids(tag: u8, id: u64, ids: Seq<u64>) -> u64;

pub open spec fn id_values(ids: Seq<HirTyId>) -> Seq<u64> {
    ids.map_values(|i: HirTyId| i@)
}

/// `DefaultHasher::new()`, fed `tag`, then `finish`: the result is a function of the
/// hashed value alone (the hasher is not seeded per process).
#[verifier::external_body]
fn hash_tag(tag: u8) -> (h: u64)
    ensures
        h == hash_of_tag(tag),
{
    let mut hasher = DefaultHasher::new();
    tag.hash(&mut hasher);
    hasher.finish()
}

/// `DefaultHasher::new()`, fed `(tag, n)`, then `finish`.
#[verifier::external_body]
fn hash_tag_u8(tag: u8, n: u8) -> (h: u64)
    ensures
        h == hash_of_tag_u8(tag, n),
{
    let mut hasher = DefaultHasher::new();
    (tag, n).hash(&mut hasher);
    hasher.finish()
}

/// `DefaultHasher::new()`, fed `(tag, id)`, then `finish`.
#[verifier::external_body]
fn hash_tag_id(tag: u8, id: &HirTyId) -> (h: u64)
    ensures
        h == hash_of_tag_id(tag, id@),
{
    let mut hasher = DefaultHasher::new();
    (tag, id).hash(&mut hasher);
    hasher.finish()
}

/// `DefaultHasher::new()`, fed `(tag, id, size)`, then `finish`.
#[verifier::external_body]
fn hash_tag_id_size(tag: u8, id: &HirTyId, size: usize) -> (h: u64)
    ensures
        h == hash_of_tag_id_size(tag, id@, size),
{
    let mut hasher = DefaultHasher::new();
    (tag, id, size).hash(&mut hasher);
    hasher.finish()
}

/// `DefaultHasher::new()`, fed `(tag, name)`, then `finish`.
#[verifier::external_body]
fn hash_tag_name(tag: u8, name: &str) -> (h: u64)
    ensures
        h == hash_of_tag_name(tag, name@),
{
    let mut hasher = DefaultHasher::new();
    (tag, name).hash(&mut hasher);
    hasher.finish()
}

/// `DefaultHasher::new()`, fed `(tag, name, ids)`, then `finish`.
#[verifier::external_body]
fn hash_tag_name_ids(tag: u8, name: &str, ids: &[HirTyId]) -> (h: u64)
    ensures
        h == hash_of_tag_name_ids(tag, name@, id_values(ids@)),
{
    let mut hasher = DefaultHasher::new();
    (tag, name, ids).hash(&mut hasher);
    hasher.finish()
}

/// `DefaultHasher::new()`, fed `(tag, is_const, id)`, then `finish`.
#[verifier::external_body]
fn hash_tag_flag_id(tag: u8, is_const: bool, id: &HirTyId) -> (h: u64)
    ensures
        h == hash_of_tag_flag_id(tag, is_const, id@),
{
    let mut hasher = DefaultHasher::new();
    (tag, is_const, id).hash(&mut hasher);
    hasher.finish()
}

/// `DefaultHasher::new()`, fed `(tag, id, ids)`, then `finish`.
#[verifier::external_body]
fn hash_tag_id_ids(tag: u8, id: &HirTyId, ids: &[HirTyId]) -> (h: u64)
    ensures
        h == hash_of_tag_id_ids(tag, id@, id_values(ids@)),
{
    let mut hasher = DefaultHasher::new();
    (tag, id, ids).hash(&mut hasher);
    hasher.finish()
}

impl HirTyId {
    pub fn compute_int_ty_id(size_in_bits: u8) -> (r: Self)
        ensures
            r@ == hash_of_tag_u8(INTEGER_TY_ID, size_in_bits),
    {
        HirTyId(hash_tag_u8(INTEGER_TY_ID, size_in_bits))
    }

    pub fn compute_float_ty_id(size_in_bits: u8) -> (r: Self)
        ensures
            r@ == hash_of_tag_u8(FLOAT_TY_ID, size_in_bits),
    {
        HirTyId(hash_tag_u8(FLOAT_TY_ID, size_in_bits))
    }

    pub fn compute_uint_ty_id(size_in_bits: u8) -> (r: Self)
        ensures
            r@ == hash_of_tag_u8(UNSIGNED_INTEGER_TY_ID, size_in_bits),
    {
        HirTyId(hash_tag_u8(UNSIGNED_INTEGER_TY_ID, size_in_bits))
    }

    pub fn compute_boolean_ty_id() -> (r: Self)
        ensures
            r@ == hash_of_tag(BOOLEAN_TY_ID),
    {
        HirTyId(hash_tag(BOOLEAN_TY_ID))
    }

    pub fn compute_unit_ty_id() -> (r: Self)
        ensures
            r@ == hash_of_tag(UNIT_TY_ID),
    {
        HirTyId(hash_tag(UNIT_TY_ID))
    }

    pub fn compute_char_ty_id() -> (r: Self)
        ensures
            r@ == hash_of_tag(CHAR_TY_ID),
    {
        HirTyId(hash_tag(CHAR_TY_ID))
    }

    pub fn compute_str_ty_id() -> (r: Self)
        ensures
            r@ == hash_of_tag(STR_TY_ID),
    {
        HirTyId(hash_tag(STR_TY_ID))
    }

    pub fn compute_function_ty_id(ret_ty: &HirTyId, params: &[HirTyId]) -> (r: Self)
        ensures
            r@ == hash_of_tag_id_ids(FUNCTION_TY_ID, ret_ty@, id_values(params@)),
    {
        HirTyId(hash_tag_id_ids(FUNCTION_TY_ID, ret_ty, params))
    }

    pub fn compute_slice_ty_id(ty: &HirTyId) -> (r: Self)
        ensures
            r@ == hash_of_tag_id(SLICE_TY_ID, ty@),
    {
        HirTyId(hash_tag_id(SLICE_TY_ID, ty))
    }

    pub fn compute_inline_arr_ty_id(ty: &HirTyId, size: usize) -> (r: Self)
        ensures
            r@ == hash_of_tag_id_size(INLINE_ARRAY_TY_ID, ty@, size),
    {
        HirTyId(hash_tag_id_size(INLINE_ARRAY_TY_ID, ty, size))
    }

    pub fn compute_nullable_ty_id(inner: &HirTyId) -> (r: Self)
        ensures
            r@ == hash_of_tag_id(NULLABLE_TY_ID, inner@),
    {
        HirTyId(hash_tag_id(NULLABLE_TY_ID, inner))
    }

    pub fn compute_uninitialized_ty_id() -> (r: Self)
        ensures
            r@ == hash_of_tag(UNINITIALIZED_TY_ID),
    {
        HirTyId(hash_tag(UNINITIALIZED_TY_ID))
    }

    pub fn compute_name_ty_id(name: &str) -> (r: Self)
        ensures
            r@ == hash_of_tag_name(NAMED_TY_ID, name@),
    {
        HirTyId(hash_tag_name(NAMED_TY_ID, name))
    }

    pub fn compute_generic_ty_id(name: &str, params: &[HirTyId]) -> (r: Self)
        ensures
            r@ == hash_of_tag_name_ids(GENERIC_TY_ID, name@, id_values(params@)),
    {
        HirTyId(hash_tag_name_ids(GENERIC_TY_ID, name, params))
    }

    pub fn compute_pointer_ty_id(inner: &HirTyId, is_const: bool) -> (r: Self)
        ensures
            r@ == hash_of_tag_flag_id(POINTER_TY_ID, is_const, inner@),
    {
        HirTyId(hash_tag_flag_id(POINTER_TY_ID, is_const, inner))
    }
}


impl HirTyId {
    /// Whether two identities are the same.
    pub fn same_as(&self, other: &HirTyId) -> (b: bool)
        ensures
            b == (self@ == other@),
    {
        self.0 == other.0
    }
}

/// A type of the high-level representation.
#[derive(Debug)]
pub enum HirTy {
    Integer(HirIntegerTy),
    Float(HirFloatTy),
    UnsignedInteger(HirUnsignedIntTy),
    Char(HirCharTy),
    Unit(HirUnitTy),
    Boolean(HirBooleanTy),
    String(HirStringTy),
    Slice(HirSliceTy),
    InlineArray(HirInlineArrayTy),
    Named(HirNamedTy),
    Uninitialized(HirUninitializedTy),
    Generic(HirGenericTy),
    Function(HirFunctionTy),
    PtrTy(HirPtrTy),
}

/// A raw pointer type: `*T` (mutable) or `*const T`.
#[derive(Debug)]
pub struct HirPtrTy {
    pub inner: Box<HirTy>,
    pub is_const: bool,
    pub span: Span,
}

/// A nullable type `T?` (to be replaced by option types).
#[derive(Debug)]
pub struct HirNullableTy {
    pub inner: Box<HirTy>,
}

/// The 32-bit Unicode code point type.
#[derive(Debug)]
pub struct HirCharTy {}

#[derive(Debug)]
pub struct HirSliceTy {
    pub inner: Box<HirTy>,
}

#[derive(Debug)]
pub struct HirInlineArrayTy {
    pub inner: Box<HirTy>,
    pub size: usize,
}

#[derive(Debug)]
pub struct HirUninitializedTy {}

#[derive(Debug)]
pub struct HirIntegerTy {
    pub size_in_bits: u8,
}

#[derive(Debug)]
pub struct HirFloatTy {
    pub size_in_bits: u8,
}

#[derive(Debug)]
pub struct HirUnsignedIntTy {
    pub size_in_bits: u8,
}

#[derive(Debug)]
pub struct HirUnitTy {}

#[derive(Debug)]
pub struct HirBooleanTy {}

#[derive(Debug)]
pub struct HirStringTy {}

#[derive(Debug)]
pub struct HirFunctionTy {
    pub ret_ty: Box<HirTy>,
    pub params: Vec<HirTy>,
    pub span: Span,
}

#[derive(Debug)]
pub struct HirGenericTy {
    pub name: String,
    pub inner: Vec<HirTy>,
    pub span: Span,
}

#[derive(Debug)]
pub struct HirNamedTy {
    pub name: String,
    /// Span of the name declaration.
    pub span: Span,
}

/// Mathematical model of a type: names as character sequences, nested types as sequences.
pub enum TyV {
    Integer(u8),
    Float(u8),
    UnsignedInteger(u8),
    Char,
    Unit,
    Boolean,
    String,
    Slice(Box<TyV>),
    InlineArray(Box<TyV>, usize),
    Named(Seq<char>, Span),
    Uninitialized,
    Generic(Seq<char>, Seq<TyV>, Span),
    Function(Box<TyV>, Seq<TyV>, Span),
    PtrTy(Box<TyV>, bool, Span),
}

pub open spec fn ty_view(t: HirTy) -> TyV
    decreases t,
{
    match t {
        HirTy::Integer(i) => TyV::Integer(i.size_in_bits),
        HirTy::Float(f) => TyV::Float(f.size_in_bits),
        HirTy::UnsignedInteger(u) => TyV::UnsignedInteger(u.size_in_bits),
        HirTy::Char(_) => TyV::Char,
        HirTy::Unit(_) => TyV::Unit,
        HirTy::Boolean(_) => TyV::Boolean,
        HirTy::String(_) => TyV::String,
        HirTy::Slice(s) => TyV::Slice(Box::new(ty_view(*s.inner))),
        HirTy::InlineArray(a) => TyV::InlineArray(Box::new(ty_view(*a.inner)), a.size),
        HirTy::Named(n) => TyV::Named(n.name@, n.span),
        HirTy::Uninitialized(_) => TyV::Uninitialized,
        HirTy::Generic(g) => TyV::Generic(g.name@, tys_view(g.inner@), g.span),
        HirTy::Function(f) => TyV::Function(Box::new(ty_view(*f.ret_ty)), tys_view(f.params@), f.span),
        HirTy::PtrTy(p) => TyV::PtrTy(Box::new(ty_view(*p.inner)), p.is_const, p.span),
    }
}

pub open spec fn tys_view(ts: Seq<HirTy>) -> Seq<TyV>
    decreases ts,
{
    if ts.len() == 0 {
        seq![]
    } else {
        tys_view(ts.drop_last()).push(ty_view(ts.last()))
    }
}

impl View for HirTy {
    type V = TyV;

    open spec fn view(&self) -> TyV {
        ty_view(*self)
    }
}

pub proof fn lemma_tys_view_len(ts: Seq<HirTy>)
    ensures
        tys_view(ts).len() == ts.len(),
        forall|i: int| 0 <= i < ts.len() ==> #[trigger] tys_view(ts)[i] == ty_view(ts[i]),
    decreases ts.len(),
{
    if ts.len() > 0 {
        lemma_tys_view_len(ts.drop_last());
    }
}

/// Identity of a type, from the identities of its parts.
pub open spec fn ty_id(t: TyV) -> u64
    decreases t,
{
    match t {
        TyV::Integer(b) => hash_of_tag_u8(INTEGER_TY_ID, b),
        TyV::Float(b) => hash_of_tag_u8(FLOAT_TY_ID, b),
        TyV::UnsignedInteger(b) => hash_of_tag_u8(UNSIGNED_INTEGER_TY_ID, b),
        TyV::Char => hash_of_tag(CHAR_TY_ID),
        TyV::Boolean => hash_of_tag(BOOLEAN_TY_ID),
        TyV::Unit => hash_of_tag(UNIT_TY_ID),
        TyV::String => hash_of_tag(STR_TY_ID),
        TyV::Slice(inner) => hash_of_tag_id(SLICE_TY_ID, ty_id(*inner)),
        TyV::InlineArray(inner, size) => hash_of_tag_id_size(INLINE_ARRAY_TY_ID, ty_id(*inner), size),
        TyV::Named(name, _) => hash_of_tag_name(NAMED_TY_ID, name),
        TyV::Uninitialized => hash_of_tag(UNINITIALIZED_TY_ID),
        TyV::Generic(name, inner, _) => hash_of_tag_name_ids(GENERIC_TY_ID, name, ty_ids(inner)),
        TyV::PtrTy(inner, is_const, _) => hash_of_tag_flag_id(POINTER_TY_ID, is_const, ty_id(*inner)),
        TyV::Function(ret, params, _) => hash_of_tag_id_ids(FUNCTION_TY_ID, ty_id(*ret), ty_ids(params)),
    }
}

pub open spec fn ty_ids(ts: Seq<TyV>) -> Seq<u64>
    decreases ts,
{
    if ts.len() == 0 {
        seq![]
    } else {
        ty_ids(ts.drop_last()).push(ty_id(ts.last()))
    }
}

impl HirTyId {
    /// The identity of a type.
    pub fn from(value: &HirTy) -> (r: HirTyId)
        ensures
            r@ == ty_id(value@),
        decreases value,
    {
        match value {
            HirTy::Integer(i) => Self::compute_int_ty_id(i.size_in_bits),
            HirTy::Float(f) => Self::compute_float_ty_id(f.size_in_bits),
            HirTy::UnsignedInteger(u) => Self::compute_uint_ty_id(u.size_in_bits),
            HirTy::Char(_) => Self::compute_char_ty_id(),
            HirTy::Boolean(_) => Self::compute_boolean_ty_id(),
            HirTy::Unit(_) => Self::compute_unit_ty_id(),
            HirTy::String(_) => Self::compute_str_ty_id(),
            HirTy::Slice(ty) => HirTyId::compute_slice_ty_id(&HirTyId::from(&ty.inner)),
            HirTy::InlineArray(ty) => HirTyId::compute_inline_arr_ty_id(&HirTyId::from(&ty.inner), ty.size),
            HirTy::Named(ty) => HirTyId::compute_name_ty_id(ty.name.as_str()),
            HirTy::Uninitialized(_) => Self::compute_uninitialized_ty_id(),
            HirTy::Generic(g) => {
                let params = Self::ids_of(value, &g.inner);
                HirTyId::compute_generic_ty_id(g.name.as_str(), params.as_slice())
            },
            HirTy::PtrTy(ptr_ty) => HirTyId::compute_pointer_ty_id(&HirTyId::from(&ptr_ty.inner), ptr_ty.is_const),
            HirTy::Function(f) => {
                let parameters = Self::ids_of(value, &f.params);
                let ret_ty = HirTyId::from(&f.ret_ty);
                HirTyId::compute_function_ty_id(&ret_ty, parameters.as_slice())
            },
        }
    }

    /// Identities of the types `ts`, parts of `owner`.
    fn ids_of(owner: &HirTy, ts: &Vec<HirTy>) -> (r: Vec<HirTyId>)
        requires
            forall|i: int| 0 <= i < ts@.len() ==> decreases_to!(*owner => #[trigger] ts@[i]),
        ensures
            id_values(r@) == ty_ids(tys_view(ts@)),
        decreases owner, 0nat,
    {
        let mut out: Vec<HirTyId> = Vec::new();
        let mut i: usize = 0;
        while i < ts.len()
            invariant
                i <= ts.len(),
                forall|j: int| 0 <= j < ts@.len() ==> decreases_to!(*owner => #[trigger] ts@[j]),
                id_values(out@) == ty_ids(tys_view(ts@.subrange(0, i as int))),
            decreases ts.len() - i,
        {
            let id = HirTyId::from(&ts[i]);
            proof {
                let pre = ts@.subrange(0, i + 1);
                assert(pre.drop_last() =~= ts@.subrange(0, i as int));
                lemma_tys_view_len(pre);
                assert(tys_view(pre).drop_last() =~= tys_view(ts@.subrange(0, i as int)));
                assert(id_values(out@.push(id)) =~= id_values(out@).push(id@));
            }
            out.push(id);
            i = i + 1;
        }
        proof {
            assert(ts@.subrange(0, ts.len() as int) =~= ts@);
        }
        out
    }
}


/// The name of a type as a C identifier fragment, used in mangled names
/// (`Foo_T_ptr` where the displayed name would be `Foo<*T>`).
pub open spec fn c_name(t: TyV) -> Seq<char>
    decreases t,
{
    match t {
        TyV::Integer(_) => "int64"@,
        TyV::Float(_) => "float64"@,
        TyV::UnsignedInteger(_) => "uint64"@,
        TyV::Char => "char"@,
        TyV::Unit => "unit"@,
        TyV::Boolean => "bool"@,
        TyV::String => "string"@,
        TyV::Slice(inner) => "list_"@ + c_name(*inner),
        TyV::InlineArray(inner, size) => "inlinearr_"@ + c_name(*inner) + "_"@ + nat_text(size as nat),
        TyV::Named(name, _) => name,
        TyV::Uninitialized => "uninitialized"@,
        TyV::Generic(name, inner, _) => if inner.len() == 0 {
            name
        } else {
            name + "_"@ + join(c_names(inner), "_"@)
        },
        TyV::PtrTy(inner, is_const, _) => if is_const {
            c_name(*inner) + "_cstptr"@
        } else {
            c_name(*inner) + "_ptr"@
        },
        TyV::Function(ret, params, _) => "fn_"@ + join(c_names(params), "_"@) + "_ret_"@ + c_name(*ret),
    }
}

pub open spec fn c_names(ts: Seq<TyV>) -> Seq<Seq<char>>
    decreases ts,
{
    if ts.len() == 0 {
        seq![]
    } else {
        c_names(ts.drop_last()).push(c_name(ts.last()))
    }
}

/// A character of a C identifier: a letter, a digit or `_`.
pub open spec fn ident_char(c: char) -> bool {
    let v = c as int;
    (48 <= v <= 57) || (65 <= v <= 90) || (97 <= v <= 122) || v == 95
}

/// Every character is one of a C identifier.
pub open spec fn ident_chars(s: Seq<char>) -> bool {
    forall|i: int| 0 <= i < s.len() ==> ident_char(#[trigger] s[i])
}

/// A C identifier: not empty, made of letters, digits and `_`, not starting with a digit.
pub open spec fn is_c_identifier(s: Seq<char>) -> bool {
    &&& s.len() > 0
    &&& ident_chars(s)
    &&& !(48 <= (s[0] as int) <= 57)
}

/// Every name that the type is written with (of named types and generic instances) is a C
/// identifier.
pub open spec fn named_with_identifiers(t: TyV) -> bool
    decreases t,
{
    match t {
        TyV::Slice(inner) => named_with_identifiers(*inner),
        TyV::InlineArray(inner, _) => named_with_identifiers(*inner),
        TyV::Named(name, _) => is_c_identifier(name),
        TyV::Generic(name, inner, _) => is_c_identifier(name) && all_named_with_identifiers(inner),
        TyV::PtrTy(inner, _, _) => named_with_identifiers(*inner),
        TyV::Function(ret, params, _) => named_with_identifiers(*ret) && all_named_with_identifiers(params),
        _ => true,
    }
}

pub open spec fn all_named_with_identifiers(ts: Seq<TyV>) -> bool
    decreases ts,
{
    if ts.len() == 0 {
        true
    } else {
        all_named_with_identifiers(ts.drop_last()) && named_with_identifiers(ts.last())
    }
}

proof fn lemma_ident_chars_concat(a: Seq<char>, b: Seq<char>)
    requires
        ident_chars(a),
        ident_chars(b),
    ensures
        ident_chars(a + b),
{
    assert forall|i: int| 0 <= i < (a + b).len() implies ident_char(#[trigger] (a + b)[i]) by {
        if i < a.len() {
            assert((a + b)[i] == a[i]);
        } else {
            assert((a + b)[i] == b[i - a.len()]);
        }
    }
}

proof fn lemma_join_ident_chars(parts: Seq<Seq<char>>, sep: Seq<char>)
    requires
        forall|i: int| 0 <= i < parts.len() ==> ident_chars(#[trigger] parts[i]),
        ident_chars(sep),
    ensures
        ident_chars(join(parts, sep)),
    decreases parts.len(),
{
    if parts.len() == 0 {
        assert(join(parts, sep) =~= Seq::<char>::empty());
    } else if parts.len() > 1 {
        lemma_join_ident_chars(parts.drop_last(), sep);
        assert(ident_chars(parts.last()));
        lemma_ident_chars_concat(join(parts.drop_last(), sep), sep);
        lemma_ident_chars_concat(join(parts.drop_last(), sep) + sep, parts.last());
    } else {
        assert(ident_chars(parts[0]));
    }
}

proof fn lemma_nat_text_ident_chars(n: nat)
    ensures
        ident_chars(nat_text(n)),
    decreases n,
{
    if n < 10 {
        assert(nat_text(n) =~= seq![crate::text::digit_char(n)]);
        assert(ident_char(crate::text::digit_char(n)));
    } else {
        lemma_nat_text_ident_chars(n / 10);
        assert(ident_char(crate::text::digit_char(n % 10)));
        assert(nat_text(n) =~= nat_text(n / 10) + seq![crate::text::digit_char(n % 10)]);
        lemma_ident_chars_concat(nat_text(n / 10), seq![crate::text::digit_char(n % 10)]);
    }
}

/// The name that `get_valid_c_string` gives is a C identifier whenever the names the type
/// is written with are: the fragments it adds are made of letters, digits and `_`, and it
/// starts with a letter or with such a name.
pub proof fn lemma_c_name_is_identifier(t: TyV)
    requires
        named_with_identifiers(t),
    ensures
        is_c_identifier(c_name(t)),
    decreases t, 1nat,
{
    reveal_strlit("int64");
    reveal_strlit("float64");
    reveal_strlit("uint64");
    reveal_strlit("char");
    reveal_strlit("unit");
    reveal_strlit("bool");
    reveal_strlit("string");
    reveal_strlit("list_");
    reveal_strlit("inlinearr_");
    reveal_strlit("_");
    reveal_strlit("uninitialized");
    reveal_strlit("_cstptr");
    reveal_strlit("_ptr");
    reveal_strlit("fn_");
    reveal_strlit("_ret_");
    match t {
        TyV::Slice(inner) => {
            lemma_c_name_is_identifier(*inner);
            lemma_ident_chars_concat("list_"@, c_name(*inner));
        },
        TyV::InlineArray(inner, size) => {
            lemma_c_name_is_identifier(*inner);
            lemma_nat_text_ident_chars(size as nat);
            lemma_ident_chars_concat("inlinearr_"@, c_name(*inner));
            lemma_ident_chars_concat("inlinearr_"@ + c_name(*inner), "_"@);
            lemma_ident_chars_concat("inlinearr_"@ + c_name(*inner) + "_"@, nat_text(size as nat));
        },
        TyV::Generic(name, inner, _) => {
            if inner.len() > 0 {
                lemma_c_names_are_identifiers(inner);
                lemma_join_ident_chars(c_names(inner), "_"@);
                lemma_ident_chars_concat(name, "_"@);
                lemma_ident_chars_concat(name + "_"@, join(c_names(inner), "_"@));
                assert((name + "_"@ + join(c_names(inner), "_"@))[0] == name[0]);
            }
        },
        TyV::PtrTy(inner, is_const, _) => {
            lemma_c_name_is_identifier(*inner);
            if is_const {
                lemma_ident_chars_concat(c_name(*inner), "_cstptr"@);
                assert((c_name(*inner) + "_cstptr"@)[0] == c_name(*inner)[0]);
            } else {
                lemma_ident_chars_concat(c_name(*inner), "_ptr"@);
                assert((c_name(*inner) + "_ptr"@)[0] == c_name(*inner)[0]);
            }
        },
        TyV::Function(ret, params, _) => {
            lemma_c_name_is_identifier(*ret);
            lemma_c_names_are_identifiers(params);
            lemma_join_ident_chars(c_names(params), "_"@);
            lemma_ident_chars_concat("fn_"@, join(c_names(params), "_"@));
            lemma_ident_chars_concat("fn_"@ + join(c_names(params), "_"@), "_ret_"@);
            lemma_ident_chars_concat("fn_"@ + join(c_names(params), "_"@) + "_ret_"@, c_name(*ret));
        },
        _ => {},
    }
}

proof fn lemma_c_names_are_identifiers(ts: Seq<TyV>)
    requires
        all_named_with_identifiers(ts),
    ensures
        c_names(ts).len() == ts.len(),
        forall|i: int| 0 <= i < ts.len() ==> ident_chars(#[trigger] c_names(ts)[i]),
    decreases ts, 0nat,
{
    if ts.len() > 0 {
        lemma_c_names_are_identifiers(ts.drop_last());
        lemma_c_name_is_identifier(ts.last());
        assert forall|i: int| 0 <= i < ts.len() implies ident_chars(#[trigger] c_names(ts)[i]) by {
            if i < ts.len() - 1 {
                assert(c_names(ts)[i] == c_names(ts.drop_last())[i]);
            }
        }
    }
}

/// How a type is written in Atlas77 source (and in messages).
pub open spec fn display(t: TyV) -> Seq<char>
    decreases t,
{
    match t {
        TyV::Integer(b) => "int"@ + nat_text(b as nat),
        TyV::Float(b) => "float"@ + nat_text(b as nat),
        TyV::UnsignedInteger(b) => "uint"@ + nat_text(b as nat),
        TyV::Char => "char"@,
        TyV::Unit => "unit"@,
        TyV::Boolean => "bool"@,
        TyV::String => "string"@,
        TyV::Slice(inner) => "["@ + display(*inner) + "]"@,
        TyV::InlineArray(inner, size) => "["@ + display(*inner) + "; "@ + nat_text(size as nat) + "]"@,
        TyV::Named(name, _) => name,
        TyV::Uninitialized => "uninitialized"@,
        TyV::Generic(name, inner, _) => if inner.len() == 0 {
            name
        } else {
            name + "<"@ + join(displays(inner), ", "@) + ">"@
        },
        TyV::PtrTy(inner, is_const, _) => if is_const {
            "*const "@ + display(*inner)
        } else {
            "*"@ + display(*inner)
        },
        TyV::Function(ret, params, _) => "("@ + join(displays(params), ", "@) + ") -> "@ + display(*ret),
    }
}

pub open spec fn displays(ts: Seq<TyV>) -> Seq<Seq<char>>
    decreases ts,
{
    if ts.len() == 0 {
        seq![]
    } else {
        displays(ts.drop_last()).push(display(ts.last()))
    }
}

pub open spec fn is_primitive_v(t: TyV) -> bool {
    t is Integer || t is Float || t is UnsignedInteger || t is Boolean || t is Unit || t is Char || t is String
}

impl HirTy {
    /// Whether this is a const pointer type (`*const T`).
    pub fn is_const_ptr(&self) -> (b: bool)
        ensures
            b == (self@ matches TyV::PtrTy(_, c, _) && c),
    {
        match self {
            HirTy::PtrTy(p) => p.is_const,
            _ => false,
        }
    }

    /// Whether this is a mutable pointer type (`*T`).
    pub fn is_mutable_ptr(&self) -> (b: bool)
        ensures
            b == (self@ matches TyV::PtrTy(_, c, _) && !c),
    {
        match self {
            HirTy::PtrTy(p) => !p.is_const,
            _ => false,
        }
    }

    /// The pointee type, if this is a pointer type.
    pub fn get_inner_ptr_ty(&self) -> (r: Option<&HirTy>)
        ensures
            self@ matches TyV::PtrTy(inner, _, _) ==> r matches Some(t) && t@ == *inner,
            !(self@ is PtrTy) ==> r is None,
    {
        match self {
            HirTy::PtrTy(ptr_ty) => Some(&*ptr_ty.inner),
            _ => None,
        }
    }

    pub fn is_unit(&self) -> (b: bool)
        ensures
            b == (self@ is Unit),
    {
        match self {
            HirTy::Unit(_) => true,
            _ => false,
        }
    }

    /// Integers, floats, booleans, unit, characters and strings are primitive.
    pub fn is_primitive(&self) -> (b: bool)
        ensures
            b == is_primitive_v(self@),
    {
        match self {
            HirTy::Integer(_) | HirTy::Float(_) | HirTy::UnsignedInteger(_) | HirTy::Boolean(_)
            | HirTy::Unit(_) | HirTy::Char(_) | HirTy::String(_) => true,
            _ => false,
        }
    }

    pub fn is_raw_ptr(&self) -> (b: bool)
        ensures
            b == (self@ is PtrTy),
    {
        match self {
            HirTy::PtrTy(_) => true,
            _ => false,
        }
    }

    /// A copy of this type.
    pub fn duplicate(&self) -> (r: HirTy)
        ensures
            r@ == self@,
        decreases self,
    {
        match self {
            HirTy::Integer(i) => HirTy::Integer(HirIntegerTy { size_in_bits: i.size_in_bits }),
            HirTy::Float(f) => HirTy::Float(HirFloatTy { size_in_bits: f.size_in_bits }),
            HirTy::UnsignedInteger(u) => HirTy::UnsignedInteger(HirUnsignedIntTy { size_in_bits: u.size_in_bits }),
            HirTy::Char(_) => HirTy::Char(HirCharTy {}),
            HirTy::Unit(_) => HirTy::Unit(HirUnitTy {}),
            HirTy::Boolean(_) => HirTy::Boolean(HirBooleanTy {}),
            HirTy::String(_) => HirTy::String(HirStringTy {}),
            HirTy::Slice(s) => HirTy::Slice(HirSliceTy { inner: Box::new(s.inner.duplicate()) }),
            HirTy::InlineArray(a) => HirTy::InlineArray(HirInlineArrayTy { inner: Box::new(a.inner.duplicate()), size: a.size }),
            HirTy::Named(n) => HirTy::Named(HirNamedTy { name: n.name.clone(), span: n.span }),
            HirTy::Uninitialized(_) => HirTy::Uninitialized(HirUninitializedTy {}),
            HirTy::Generic(g) => HirTy::Generic(HirGenericTy { name: g.name.clone(), inner: Self::duplicate_all(self, &g.inner), span: g.span }),
            HirTy::Function(f) => HirTy::Function(HirFunctionTy {
                ret_ty: Box::new(f.ret_ty.duplicate()),
                params: Self::duplicate_all(self, &f.params),
                span: f.span,
            }),
            HirTy::PtrTy(p) => HirTy::PtrTy(HirPtrTy { inner: Box::new(p.inner.duplicate()), is_const: p.is_const, span: p.span }),
        }
    }

    /// Copies of the types `ts`, parts of `owner`.
    pub fn duplicate_all(owner: &HirTy, ts: &Vec<HirTy>) -> (r: Vec<HirTy>)
        requires
            forall|i: int| 0 <= i < ts@.len() ==> decreases_to!(*owner => #[trigger] ts@[i]),
        ensures
            tys_view(r@) == tys_view(ts@),
        decreases owner, 0nat,
    {
        let mut out: Vec<HirTy> = Vec::new();
        let mut i: usize = 0;
        while i < ts.len()
            invariant
                i <= ts.len(),
                forall|j: int| 0 <= j < ts@.len() ==> decreases_to!(*owner => #[trigger] ts@[j]),
                tys_view(out@) == tys_view(ts@.subrange(0, i as int)),
            decreases ts.len() - i,
        {
            let t = ts[i].duplicate();
            proof {
                let pre = ts@.subrange(0, i + 1);
                assert(pre.drop_last() =~= ts@.subrange(0, i as int));
                assert(out@.push(t).drop_last() =~= out@);
            }
            out.push(t);
            i = i + 1;
        }
        proof {
            assert(ts@.subrange(0, ts.len() as int) =~= ts@);
        }
        out
    }

    /// The type's name as a C identifier fragment; used to build mangled names.
    pub fn get_valid_c_string(&self) -> (r: String)
        ensures
            r@ == c_name(self@),
        decreases self,
    {
        match self {
            HirTy::Integer(_) => { let r = String::from_str("int64"); assert(r@ == c_name(self@)); r },
            HirTy::Float(_) => String::from_str("float64"),
            HirTy::UnsignedInteger(_) => String::from_str("uint64"),
            HirTy::Char(_) => String::from_str("char"),
            HirTy::Unit(_) => String::from_str("unit"),
            HirTy::Boolean(_) => String::from_str("bool"),
            HirTy::String(_) => String::from_str("string"),
            HirTy::Slice(ty) => {
                let mut out = String::from_str("list_");
                out.append(ty.inner.get_valid_c_string().as_str());
                assert(out@ == c_name(self@));
                out
            },
            HirTy::InlineArray(ty) => {
                let mut out = String::from_str("inlinearr_");
                out.append(ty.inner.get_valid_c_string().as_str());
                out.append("_");
                push_usize(&mut out, ty.size);
                assert(out@ == c_name(self@));
                out
            },
            HirTy::Named(ty) => { let r = ty.name.clone(); assert(r@ == c_name(self@)); r },
            HirTy::Uninitialized(_) => String::from_str("uninitialized"),
            HirTy::Generic(ty) => {
                if ty.inner.len() == 0 {
                    assert(tys_view(ty.inner@).len() == 0);
                    let r = ty.name.clone();
                    assert(r@ == c_name(self@));
                    r
                } else {
                    let params = Self::c_names_of(self, &ty.inner);
                    let mut out = ty.name.clone();
                    out.append("_");
                    out.append(join_strings(&params, "_").as_str());
                    assert(out@ == c_name(self@));
                    out
                }
            },
            HirTy::PtrTy(ptr_ty) => {
                let mut out = ptr_ty.inner.get_valid_c_string();
                if ptr_ty.is_const {
                    out.append("_cstptr");
                } else {
                    out.append("_ptr");
                }
                assert(out@ == c_name(self@));
                out
            },
            HirTy::Function(func) => {
                let params = Self::c_names_of(self, &func.params);
                let mut out = String::from_str("fn_");
                out.append(join_strings(&params, "_").as_str());
                out.append("_ret_");
                out.append(func.ret_ty.get_valid_c_string().as_str());
                assert(out@ == c_name(self@));
                out
            },
        }
    }

    /// C name fragments of the types `ts`, parts of `owner`.
    fn c_names_of(owner: &HirTy, ts: &Vec<HirTy>) -> (r: Vec<String>)
        requires
            forall|i: int| 0 <= i < ts@.len() ==> decreases_to!(*owner => #[trigger] ts@[i]),
        ensures
            views(r@) == c_names(tys_view(ts@)),
        decreases owner, 0nat,
    {
        let mut out: Vec<String> = Vec::new();
        let mut i: usize = 0;
        while i < ts.len()
            invariant
                i <= ts.len(),
                forall|j: int| 0 <= j < ts@.len() ==> decreases_to!(*owner => #[trigger] ts@[j]),
                views(out@) == c_names(tys_view(ts@.subrange(0, i as int))),
            decreases ts.len() - i,
        {
            let t = ts[i].get_valid_c_string();
            proof {
                let pre = ts@.subrange(0, i + 1);
                assert(pre.drop_last() =~= ts@.subrange(0, i as int));
                assert(views(out@.push(t)) =~= views(out@).push(t@));
                let pv = tys_view(pre);
                assert(pv == tys_view(ts@.subrange(0, i as int)).push(ty_view(ts@[i as int])));
                assert(pv.drop_last() =~= tys_view(ts@.subrange(0, i as int)));
            }
            out.push(t);
            i = i + 1;
        }
        proof {
            assert(ts@.subrange(0, ts.len() as int) =~= ts@);
        }
        out
    }

    /// How the type is written in Atlas77 source.
    pub fn to_string(&self) -> (r: String)
        ensures
            r@ == display(self@),
        decreases self,
    {
        match self {
            HirTy::Integer(i) => {
                let mut out = String::from_str("int");
                push_u128(&mut out, i.size_in_bits as u128);
                out
            },
            HirTy::Float(f) => {
                let mut out = String::from_str("float");
                push_u128(&mut out, f.size_in_bits as u128);
                out
            },
            HirTy::UnsignedInteger(u) => {
                let mut out = String::from_str("uint");
                push_u128(&mut out, u.size_in_bits as u128);
                out
            },
            HirTy::Char(_) => String::from_str("char"),
            HirTy::Unit(_) => String::from_str("unit"),
            HirTy::Boolean(_) => String::from_str("bool"),
            HirTy::String(_) => String::from_str("string"),
            HirTy::Slice(ty) => {
                let mut out = String::from_str("[");
                out.append(ty.inner.to_string().as_str());
                out.append("]");
                out
            },
            HirTy::InlineArray(ty) => {
                let mut out = String::from_str("[");
                out.append(ty.inner.to_string().as_str());
                out.append("; ");
                push_usize(&mut out, ty.size);
                out.append("]");
                out
            },
            HirTy::Named(ty) => ty.name.clone(),
            HirTy::Uninitialized(_) => String::from_str("uninitialized"),
            HirTy::Generic(ty) => {
                if ty.inner.len() == 0 {
                    assert(tys_view(ty.inner@).len() == 0);
                    ty.name.clone()
                } else {
                    let params = Self::displays_of(self, &ty.inner);
                    let mut out = ty.name.clone();
                    out.append("<");
                    out.append(join_strings(&params, ", ").as_str());
                    out.append(">");
                    out
                }
            },
            HirTy::PtrTy(ptr_ty) => {
                let mut out = if ptr_ty.is_const {
                    String::from_str("*const ")
                } else {
                    String::from_str("*")
                };
                out.append(ptr_ty.inner.to_string().as_str());
                out
            },
            HirTy::Function(func) => {
                let params = Self::displays_of(self, &func.params);
                let mut out = String::from_str("(");
                out.append(join_strings(&params, ", ").as_str());
                out.append(") -> ");
                out.append(func.ret_ty.to_string().as_str());
                out
            },
        }
    }

    /// Source texts of the types `ts`, parts of `owner`.
    fn displays_of(owner: &HirTy, ts: &Vec<HirTy>) -> (r: Vec<String>)
        requires
            forall|i: int| 0 <= i < ts@.len() ==> decreases_to!(*owner => #[trigger] ts@[i]),
        ensures
            views(r@) == displays(tys_view(ts@)),
        decreases owner, 0nat,
    {
        let mut out: Vec<String> = Vec::new();
        let mut i: usize = 0;
        while i < ts.len()
            invariant
                i <= ts.len(),
                forall|j: int| 0 <= j < ts@.len() ==> decreases_to!(*owner => #[trigger] ts@[j]),
                views(out@) == displays(tys_view(ts@.subrange(0, i as int))),
            decreases ts.len() - i,
        {
            let t = ts[i].to_string();
            proof {
                let pre = ts@.subrange(0, i + 1);
                assert(pre.drop_last() =~= ts@.subrange(0, i as int));
                assert(views(out@.push(t)) =~= views(out@).push(t@));
                let pv = tys_view(pre);
                assert(pv == tys_view(ts@.subrange(0, i as int)).push(ty_view(ts@[i as int])));
                assert(pv.drop_last() =~= tys_view(ts@.subrange(0, i as int)));
            }
            out.push(t);
            i = i + 1;
        }
        proof {
            assert(ts@.subrange(0, ts.len() as int) =~= ts@);
        }
        out
    }
}


/// Values of the type can be copied: primitives and pointers, and structs of the module
/// that have a copy constructor (a generic struct is looked up by its own name).
pub open spec fn copyable(m: HirModuleSignature, t: TyV) -> bool {
    is_primitive_v(t) || match t {
        TyV::Named(n, _) => lookup(m.structs@, n) matches Some(s) && s.copy_constructor is Some,
        TyV::Generic(n, _, _) => lookup(m.structs@, n) matches Some(s) && s.copy_constructor is Some,
        TyV::PtrTy(..) => true,
        _ => false,
    }
}

/// Values of the type can be moved: primitives and pointers, and structs of the module
/// that have a move constructor (a generic struct is looked up by its own name).
pub open spec fn moveable(m: HirModuleSignature, t: TyV) -> bool {
    is_primitive_v(t) || match t {
        TyV::Named(n, _) => lookup(m.structs@, n) matches Some(s) && s.move_constructor is Some,
        TyV::Generic(n, _, _) => lookup(m.structs@, n) matches Some(s) && s.move_constructor is Some,
        TyV::PtrTy(..) => true,
        _ => false,
    }
}

impl HirTy {
    /// Whether values of this type can be copied (see `copyable`).
    pub fn is_copyable(&self, signatures: &HirModuleSignature) -> (b: bool)
        ensures
            b == copyable(*signatures, self@),
    {
        if self.is_primitive() {
            return true;
        }
        let name = match self {
            HirTy::Named(n) => n.name.as_str(),
            HirTy::Generic(g) => g.name.as_str(),
            HirTy::PtrTy(_) => return true,
            _ => return false,
        };
        match find_key(&signatures.structs, name) {
            Some(i) => signatures.structs[i].1.copy_constructor.is_some(),
            None => false,
        }
    }

    /// Whether values of this type can be moved (see `moveable`).
    pub fn is_moveable(&self, signatures: &HirModuleSignature) -> (b: bool)
        ensures
            b == moveable(*signatures, self@),
    {
        if self.is_primitive() {
            return true;
        }
        let name = match self {
            HirTy::Named(n) => n.name.as_str(),
            HirTy::Generic(g) => g.name.as_str(),
            HirTy::PtrTy(_) => return true,
            _ => return false,
        };
        match find_key(&signatures.structs, name) {
            Some(i) => signatures.structs[i].1.move_constructor.is_some(),
            None => false,
        }
    }
}


/// The scalar types: integers, unsigned integers and floats of any width, `char`, `unit`,
/// `bool` and `string`.
pub open spec fn scalar_kind(t: TyV) -> bool {
    t is Integer || t is UnsignedInteger || t is Float || t is Char || t is Unit || t is Boolean || t is String
}

/// The C-name fragment of a scalar type is how Atlas writes the type, at 64 bits for the
/// numeric types (whatever their width): `int64`, `uint64`, `float64`, `char`, `unit`,
/// `bool`, `string`.
pub proof fn lemma_scalar_c_name_is_its_spelling(t: TyV)
    requires
        scalar_kind(t),
    ensures
        t is Integer ==> c_name(t) == display(TyV::Integer(64)),
        t is UnsignedInteger ==> c_name(t) == display(TyV::UnsignedInteger(64)),
        t is Float ==> c_name(t) == display(TyV::Float(64)),
        !(t is Integer || t is UnsignedInteger || t is Float) ==> c_name(t) == display(t),
{
    reveal_strlit("int64");
    reveal_strlit("float64");
    reveal_strlit("uint64");
    reveal_strlit("int");
    reveal_strlit("float");
    reveal_strlit("uint");
    reveal_with_fuel(nat_text, 3);
    assert(nat_text(64) =~= seq!['6', '4']);
    assert("int"@ + nat_text(64) =~= "int64"@);
    assert("uint"@ + nat_text(64) =~= "uint64"@);
    assert("float"@ + nat_text(64) =~= "float64"@);
}

/// Distinct kinds of scalar types get distinct C-name fragments, so instances of a generic
/// item at different scalar arguments never share a mangled name.
pub proof fn lemma_scalar_c_names_distinct(a: TyV, b: TyV)
    requires
        scalar_kind(a),
        scalar_kind(b),
        c_name(a) == c_name(b),
    ensures
        a is Integer <==> b is Integer,
        a is UnsignedInteger <==> b is UnsignedInteger,
        a is Float <==> b is Float,
        a is Char <==> b is Char,
        a is Unit <==> b is Unit,
        a is Boolean <==> b is Boolean,
        a is String <==> b is String,
{
    reveal_strlit("int64");
    reveal_strlit("float64");
    reveal_strlit("uint64");
    reveal_strlit("char");
    reveal_strlit("unit");
    reveal_strlit("bool");
    reveal_strlit("string");
    let (x, y) = (c_name(a), c_name(b));
    assert(x.len() == y.len() && forall|i: int| 0 <= i < x.len() ==> x[i] == y[i]);
    if x.len() > 0 {
        assert(x[0] == y[0]);
    }
    if x.len() > 1 {
        assert(x[1] == y[1]);
    }
    if x.len() > 5 {
        assert(x[5] == y[5]);
    }
}

} // verus!
