//! Signatures: what the rest of a program sees of its items.
use vstd::prelude::*;
use vstd::string::StringExecFns;
use crate::text::{escape_default, int_text, join, join_strings, nat_text, push_escaped, push_i64, push_u64, views};
use crate::utils::Span;
use crate::hir::ty::{HirGenericTy, HirTy};
use crate::hir::item::HirEnum;
use crate::hir::keyed::{find_key, lookup, sorted_keys};

verus! {

/// The value of a constant.
#[derive(Debug)]
pub enum ConstantValue {
    Int(i64),
    /// A floating-point value, held as its decimal text as Rust's `Display` for `f64`
    /// writes it.
    Float(String),
    UInt(u64),
    String(String),
    Bool(bool),
    Char(char),
    Unit,
    List(Vec<ConstantValue>),
}

impl Default for ConstantValue {
    fn default() -> (r: Self)
        ensures
            r is Unit,
    {
        ConstantValue::Unit
    }
}

/// How a constant is written: numbers in decimal, strings quoted and escaped by
/// `escape_default`, characters between single quotes, unit as `()`, lists as `[a, b]`.
pub open spec fn constant_text(c: ConstantValue) -> Seq<char>
    decreases c,
{
    match c {
        ConstantValue::Int(i) => int_text(i as int),
        ConstantValue::Float(t) => t@,
        ConstantValue::UInt(u) => nat_text(u as nat),
        ConstantValue::String(s) => seq!['"'] + escape_default(s@) + seq!['"'],
        ConstantValue::Bool(b) => if b { "true"@ } else { "false"@ },
        ConstantValue::Char(ch) => seq!['\'', ch, '\''],
        ConstantValue::Unit => "()"@,
        ConstantValue::List(l) => "["@ + join(constant_texts(l@), ", "@) + "]"@,
    }
}

pub open spec fn constant_texts(l: Seq<ConstantValue>) -> Seq<Seq<char>>
    decreases l,
{
    if l.len() == 0 {
        seq![]
    } else {
        constant_texts(l.drop_last()).push(constant_text(l.last()))
    }
}

impl ConstantValue {
    /// How the constant is written.
    pub fn to_string(&self) -> (r: String)
        ensures
            r@ == constant_text(*self),
        decreases self,
    {
        match self {
            ConstantValue::Int(i) => {
                let mut out = String::new();
                push_i64(&mut out, *i);
                out
            },
            ConstantValue::Float(t) => t.clone(),
            ConstantValue::UInt(u) => {
                let mut out = String::new();
                push_u64(&mut out, *u);
                out
            },
            ConstantValue::String(s) => {
                let mut out = String::new();
                out.push('"');
                push_escaped(&mut out, s.as_str());
                out.push('"');
                out
            },
            ConstantValue::Bool(b) => if *b {
                String::from_str("true")
            } else {
                String::from_str("false")
            },
            ConstantValue::Char(c) => {
                let mut out = String::new();
                out.push('\'');
                out.push(*c);
                out.push('\'');
                out
            },
            ConstantValue::Unit => String::from_str("()"),
            ConstantValue::List(l) => {
                let mut parts: Vec<String> = Vec::new();
                let mut i: usize = 0;
                while i < l.len()
                    invariant
                        *self == ConstantValue::List(*l),
                        i <= l.len(),
                        views(parts@) == constant_texts(l@.subrange(0, i as int)),
                    decreases l.len() - i,
                {
                    proof {
                        assert(decreases_to!(*self => (*self)->List_0));
                        assert(decreases_to!((*self)->List_0 => (*self)->List_0@));
                        assert(decreases_to!((*self)->List_0@ => l@[i as int]));
                    }
                    let t = l[i].to_string();
                    proof {
                        let pre = l@.subrange(0, i + 1);
                        assert(pre.drop_last() =~= l@.subrange(0, i as int));
                        assert(views(parts@.push(t)) =~= views(parts@).push(t@));
                    }
                    parts.push(t);
                    i = i + 1;
                }
                proof {
                    assert(l@.subrange(0, l.len() as int) =~= l@);
                }
                let mut out = String::from_str("[");
                out.append(join_strings(&parts, ", ").as_str());
                out.append("]");
                out
            },
        }
    }
}

/// Who may see an item.
#[derive(Debug, Clone, Copy, PartialEq, Eq, Structural)]
pub enum HirVisibility {
    Public,
    Private,
}

impl Default for HirVisibility {
    fn default() -> (r: Self)
        ensures
            r == HirVisibility::Public,
    {
        HirVisibility::Public
    }
}

/// A flag written on a struct: how its values may be copied or moved.
#[derive(Debug, Clone, Copy)]
pub enum HirFlag {
    Copyable(Span),
    TriviallyCopyable(Span),
    NonCopyable(Span),
    NonMoveable(Span),
    /// No flag written.
    NoFlag,
}

impl Default for HirFlag {
    fn default() -> (r: Self)
        ensures
            r is NoFlag,
    {
        HirFlag::NoFlag
    }
}

impl HirFlag {
    /// Where the flag was written; no flag has no span.
    pub fn span(&self) -> (r: Option<Span>)
        ensures
            r == (match *self {
                HirFlag::Copyable(s) | HirFlag::TriviallyCopyable(s) | HirFlag::NonCopyable(s)
                | HirFlag::NonMoveable(s) => Some(s),
                HirFlag::NoFlag => None::<Span>,
            }),
    {
        match self {
            HirFlag::Copyable(span) => Some(*span),
            HirFlag::NonCopyable(span) => Some(*span),
            HirFlag::NonMoveable(span) => Some(*span),
            HirFlag::TriviallyCopyable(span) => Some(*span),
            HirFlag::NoFlag => None,
        }
    }

    pub fn is_non_copyable(&self) -> (b: bool)
        ensures
            b == (*self is NonCopyable),
    {
        match self {
            HirFlag::NonCopyable(_) => true,
            _ => false,
        }
    }

    pub fn is_trivially_copyable(&self) -> (b: bool)
        ensures
            b == (*self is TriviallyCopyable),
    {
        match self {
            HirFlag::TriviallyCopyable(_) => true,
            _ => false,
        }
    }

    pub fn is_copyable(&self) -> (b: bool)
        ensures
            b == (*self is Copyable),
    {
        match self {
            HirFlag::Copyable(_) => true,
            _ => false,
        }
    }

    pub fn is_non_moveable(&self) -> (b: bool)
        ensures
            b == (*self is NonMoveable),
    {
        match self {
            HirFlag::NonMoveable(_) => true,
            _ => false,
        }
    }

    pub fn is_no_flag(&self) -> (b: bool)
        ensures
            b == (*self is NoFlag),
    {
        match self {
            HirFlag::NoFlag => true,
            _ => false,
        }
    }
}

/// What a generic parameter is required to satisfy.
#[derive(Debug)]
pub enum HirGenericConstraintKind {
    /// A constraint of the standard library, e.g. `std::copyable`.
    Std { name: String, span: Span },
    /// An operator the type must provide; `op` is the operator's name, e.g. `Add`.
    Operator { op: String, span: Span },
    /// A user-defined concept.
    Concept { name: String, span: Span },
}

/// How a constraint is written in messages.
pub open spec fn constraint_kind_text(k: HirGenericConstraintKind) -> Seq<char> {
    match k {
        HirGenericConstraintKind::Std { name, .. } => "std::"@ + name@,
        HirGenericConstraintKind::Operator { op, .. } => "operator "@ + op@,
        HirGenericConstraintKind::Concept { name, .. } => name@,
    }
}

impl HirGenericConstraintKind {
    /// `std::<name>`, `operator <op>`, or the concept's name.
    pub fn to_string(&self) -> (r: String)
        ensures
            r@ == constraint_kind_text(*self),
    {
        match self {
            HirGenericConstraintKind::Std { name, .. } => {
                let mut out = String::from_str("std::");
                out.append(name.as_str());
                out
            },
            HirGenericConstraintKind::Operator { op, .. } => {
                let mut out = String::from_str("operator ");
                out.append(op.as_str());
                out
            },
            HirGenericConstraintKind::Concept { name, .. } => name.clone(),
        }
    }
}

/// The constraints on one generic parameter.
#[derive(Debug)]
pub struct HirGenericConstraint {
    pub span: Span,
    pub generic_name: String,
    pub kind: Vec<HirGenericConstraintKind>,
}

/// A field of a struct or a variant of a union.
#[derive(Debug)]
pub struct HirStructFieldSignature {
    pub span: Span,
    pub vis: HirVisibility,
    pub name: String,
    pub name_span: Span,
    pub ty: HirTy,
    pub ty_span: Span,
    pub docstring: Option<String>,
}

/// What a union declares; variants are ordered by name.
#[derive(Debug)]
pub struct HirUnionSignature {
    pub declaration_span: Span,
    pub vis: HirVisibility,
    pub name: String,
    pub name_span: Span,
    pub variants: Vec<(String, HirStructFieldSignature)>,
    /// Generic type parameter names.
    pub generics: Vec<HirGenericConstraint>,
    /// The type before its name was mangled, for an instantiated generic union.
    pub pre_mangled_ty: Option<HirGenericTy>,
    pub docstring: Option<String>,
    pub is_instantiated: bool,
}

/// A destructor's signature.
#[derive(Debug)]
pub struct HirStructDestructorSignature {
    pub span: Span,
    pub vis: HirVisibility,
    pub where_clause: Option<Vec<HirGenericConstraint>>,
    pub docstring: Option<String>,
}

/// How a method receives `this`.
#[derive(Debug, Clone, Copy, PartialEq, Eq, Structural)]
pub enum HirStructMethodModifier {
    /// No `this` parameter.
    Static,
    /// `&const this`.
    Const,
    /// `&this`.
    Mutable,
    /// `this`, by value.
    Consuming,
}

impl Default for HirStructMethodModifier {
    fn default() -> (r: Self)
        ensures
            r == HirStructMethodModifier::Consuming,
    {
        HirStructMethodModifier::Consuming
    }
}

/// A type parameter of a function or method.
#[derive(Debug)]
pub struct HirTypeParameterItemSignature {
    pub span: Span,
    pub name: String,
    pub name_span: Span,
}

#[derive(Debug)]
pub struct HirFunctionParameterSignature {
    pub span: Span,
    pub name: String,
    pub name_span: Span,
    pub ty: HirTy,
    pub ty_span: Span,
}

#[derive(Debug)]
pub struct HirStructMethodSignature {
    pub span: Span,
    pub vis: HirVisibility,
    pub modifier: HirStructMethodModifier,
    pub params: Vec<HirFunctionParameterSignature>,
    pub generics: Option<Vec<HirGenericConstraint>>,
    pub type_params: Vec<HirTypeParameterItemSignature>,
    pub return_ty: HirTy,
    pub return_ty_span: Option<Span>,
    /// Constraints on the struct's generics that this method needs.
    pub where_clause: Option<Vec<HirGenericConstraint>>,
    /// Whether the concrete types satisfy `where_clause`.
    pub is_constraint_satisfied: bool,
    pub docstring: Option<String>,
}

#[derive(Debug)]
pub struct HirFunctionSignature {
    pub span: Span,
    pub vis: HirVisibility,
    pub params: Vec<HirFunctionParameterSignature>,
    pub generics: Vec<HirGenericConstraint>,
    pub type_params: Vec<HirTypeParameterItemSignature>,
    /// `()` when no return type is written.
    pub return_ty: HirTy,
    pub return_ty_span: Option<Span>,
    pub is_external: bool,
    pub is_intrinsic: bool,
    /// The type before its name was mangled, for an instantiated generic function.
    pub pre_mangled_ty: Option<HirGenericTy>,
    pub docstring: Option<String>,
    pub is_instantiated: bool,
}


/// A constant declared inside a struct.
#[derive(Debug)]
pub struct HirStructConstantSignature {
    pub span: Span,
    pub vis: HirVisibility,
    pub name: String,
    pub name_span: Span,
    pub ty: HirTy,
    pub ty_span: Span,
    pub value: ConstantValue,
    pub docstring: Option<String>,
}

/// What a struct declares; methods, fields and constants are keyed by name.
#[derive(Debug)]
pub struct HirStructSignature {
    pub declaration_span: Span,
    pub vis: HirVisibility,
    pub flag: HirFlag,
    pub name: String,
    /// The type before its name was mangled, for an instantiated generic struct.
    pub pre_mangled_ty: Option<HirGenericTy>,
    pub name_span: Span,
    pub methods: Vec<(String, HirStructMethodSignature)>,
    pub fields: Vec<(String, HirStructFieldSignature)>,
    /// Generic type parameters.
    pub generics: Vec<HirGenericConstraint>,
    pub constants: Vec<(String, HirStructConstantSignature)>,
    /// Always present once the syntax is lowered.
    pub destructor: Option<HirStructDestructorSignature>,
    pub had_user_defined_destructor: bool,
    /// The copy constructor, when the struct has one.
    pub copy_constructor: Option<HirStructMethodSignature>,
    /// The move constructor, when the struct has one.
    pub move_constructor: Option<HirStructMethodSignature>,
    /// The struct provides a `copy(*const this) -> Self` API.
    pub is_std_copyable: bool,
    /// The struct provides a static `default() -> Self`.
    pub is_std_default: bool,
    /// Marked as trivially copyable.
    pub is_trivially_copyable: bool,
    pub is_instantiated: bool,
    pub docstring: Option<String>,
    pub is_extern: bool,
}

/// The API of a module: its items keyed by name, and the modules it imports.
#[derive(Debug)]
pub struct HirModuleSignature {
    pub functions: Vec<(String, HirFunctionSignature)>,
    pub structs: Vec<(String, HirStructSignature)>,
    pub enums: Vec<(String, HirEnum)>,
    pub unions: Vec<(String, HirUnionSignature)>,
    pub docstring: Option<String>,
    /// Name of the module (`package name;`).
    pub module_name: String,
    pub imported_modules: Vec<(String, HirModuleSignature)>,
}

impl HirModuleSignature {
    /// The module's items and imported modules are each keyed by name in strictly
    /// increasing order, as ordered maps keep them (so no name is the key of two entries).
    pub open spec fn wf(&self) -> bool {
        &&& sorted_keys(self.functions@)
        &&& sorted_keys(self.structs@)
        &&& sorted_keys(self.enums@)
        &&& sorted_keys(self.unions@)
        &&& sorted_keys(self.imported_modules@)
    }
}


/// The signature of the function `name`: the module's own, else the first found in its
/// imported modules, in order, each searched the same way.
pub open spec fn function_in_module(m: HirModuleSignature, name: Seq<char>) -> Option<HirFunctionSignature>
    decreases m, 1nat,
{
    match lookup(m.functions@, name) {
        Some(s) => Some(s),
        None => function_in_modules(m.imported_modules@, name),
    }
}

pub open spec fn function_in_modules(mods: Seq<(String, HirModuleSignature)>, name: Seq<char>) -> Option<HirFunctionSignature>
    decreases mods, 0nat,
{
    if mods.len() == 0 {
        None
    } else {
        match function_in_module(mods[0].1, name) {
            Some(s) => Some(s),
            None => function_in_modules(mods.drop_first(), name),
        }
    }
}

/// See `function_in_module`.
pub fn find_function_signature_in_module<'a>(module_sig: &'a HirModuleSignature, name: &str) -> (r: Option<&'a HirFunctionSignature>)
    ensures
        match function_in_module(*module_sig, name@) {
            Some(s) => r matches Some(x) && *x == s,
            None => r is None,
        },
    decreases module_sig, 1nat,
{
    match find_key(&module_sig.functions, name) {
        Some(i) => return Some(&module_sig.functions[i].1),
        None => {},
    }
    find_in_imported(module_sig, &module_sig.imported_modules, name)
}

/// See `function_in_modules`; the modules are those imported by `owner`.
fn find_in_imported<'a>(owner: &'a HirModuleSignature, mods: &'a Vec<(String, HirModuleSignature)>, name: &str)
    -> (r: Option<&'a HirFunctionSignature>)
    requires
        forall|i: int| 0 <= i < mods@.len() ==> decreases_to!(*owner => #[trigger] mods@[i].1),
    ensures
        match function_in_modules(mods@, name@) {
            Some(s) => r matches Some(x) && *x == s,
            None => r is None,
        },
    decreases owner, 0nat,
{
    let mut i: usize = 0;
    proof {
        assert(mods@.skip(0) =~= mods@);
    }
    while i < mods.len()
        invariant
            i <= mods@.len(),
            forall|j: int| 0 <= j < mods@.len() ==> decreases_to!(*owner => #[trigger] mods@[j].1),
            function_in_modules(mods@, name@) == function_in_modules(mods@.skip(i as int), name@),
        decreases mods.len() - i,
    {
        proof {
            assert(mods@.skip(i as int)[0] == mods@[i as int]);
            assert(mods@.skip(i as int).drop_first() =~= mods@.skip(i + 1));
        }
        match find_function_signature_in_module(&mods[i].1, name) {
            Some(sig) => return Some(sig),
            None => {},
        }
        i = i + 1;
    }
    proof {
        assert(mods@.skip(i as int) =~= Seq::<(String, HirModuleSignature)>::empty());
    }
    None
}

} // verus!
