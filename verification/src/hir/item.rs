//! Items of a module that the passes carry: global constants, imports, unions, enums and
//! package declarations.
use vstd::prelude::*;
use crate::hir::signature::{HirStructFieldSignature, HirUnionSignature, HirVisibility};
use crate::hir::ty::HirGenericTy;
use crate::utils::Span;

verus! {

/// `const name: ty = value;` at module level; type and value kept as written.
#[derive(Debug)]
pub struct HirGlobalConst {
    pub span: Span,
    pub name: String,
    pub name_span: Span,
    pub ty: String,
    pub ty_span: Span,
    pub value: String,
    pub value_span: Span,
    pub vis: HirVisibility,
}

/// An import of another module's API; the alias is not supported yet.
#[derive(Debug)]
pub struct HirImport {
    pub span: Span,
    pub path: String,
    pub path_span: Span,
    pub alias: Option<String>,
    pub alias_span: Option<Span>,
}

#[derive(Debug)]
pub struct HirUnion {
    pub span: Span,
    pub name: String,
    pub name_span: Span,
    pub variants: Vec<HirStructFieldSignature>,
    pub signature: HirUnionSignature,
    pub vis: HirVisibility,
    /// The type before its name was mangled, for an instantiated generic union.
    pub pre_mangled_ty: Option<HirGenericTy>,
}

#[derive(Debug)]
pub struct HirEnum {
    pub span: Span,
    pub name: String,
    pub name_span: Span,
    pub variants: Vec<HirEnumVariant>,
    pub vis: HirVisibility,
    pub docstring: Option<String>,
}

/// A variant of an enum, with its discriminant value.
#[derive(Debug)]
pub struct HirEnumVariant {
    pub span: Span,
    pub name: String,
    pub name_span: Span,
    pub value: u64,
}

/// `package a::b::c;`: the path's segments in order.
#[derive(Debug)]
pub struct HirPackage {
    pub span: Span,
    pub path: Vec<String>,
}

} // verus!
