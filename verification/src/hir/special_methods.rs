//! Methods that the compiler treats specially (`copy`, `default`, `hash`), and the flags
//! that enable them.
use vstd::prelude::*;
use vstd::string::StringExecFns;
use crate::utils::Span;
use crate::hir::signature::{HirFlag, HirVisibility};
use crate::text::{replace_all, replaced, str_eq};

verus! {

/// A flag as written on a declaration in the source.
#[derive(Debug, Clone, Copy)]
pub enum AstFlag {
    TriviallyCopyable(Span),
    Copyable(Span),
    NonCopyable(Span),
    Intrinsic(Span),
    Default(Span),
    Hashable(Span),
    /// No flag written.
    NoFlag,
}

/// A visibility as written in the source.
#[derive(Debug, Clone, Copy, PartialEq, Eq, Structural)]
pub enum AstVisibility {
    Public,
    Private,
}

impl From<AstVisibility> for HirVisibility {
    fn from(ast_vis: AstVisibility) -> (r: Self) {
        match ast_vis {
            AstVisibility::Public => HirVisibility::Public,
            AstVisibility::Private => HirVisibility::Private,
        }
    }
}

impl vstd::std_specs::convert::FromSpecImpl<AstVisibility> for HirVisibility {
    open spec fn obeys_from_spec() -> bool {
        true
    }

    open spec fn from_spec(v: AstVisibility) -> HirVisibility {
        match v {
            AstVisibility::Public => HirVisibility::Public,
            AstVisibility::Private => HirVisibility::Private,
        }
    }
}

/// The flag a source flag becomes; flags that say nothing of copying or moving become
/// no flag.
pub open spec fn flag_of(f: AstFlag) -> HirFlag {
    match f {
        AstFlag::TriviallyCopyable(s) => HirFlag::TriviallyCopyable(s),
        AstFlag::Copyable(s) => HirFlag::Copyable(s),
        AstFlag::NonCopyable(s) => HirFlag::NonCopyable(s),
        _ => HirFlag::NoFlag,
    }
}

impl From<AstFlag> for HirFlag {
    fn from(ast_flag: AstFlag) -> (r: Self) {
        match ast_flag {
            AstFlag::TriviallyCopyable(span) => HirFlag::TriviallyCopyable(span),
            AstFlag::Copyable(span) => HirFlag::Copyable(span),
            AstFlag::NonCopyable(span) => HirFlag::NonCopyable(span),
            _ => HirFlag::NoFlag,
        }
    }
}

impl vstd::std_specs::convert::FromSpecImpl<AstFlag> for HirFlag {
    open spec fn obeys_from_spec() -> bool {
        true
    }

    open spec fn from_spec(v: AstFlag) -> HirFlag {
        flag_of(v)
    }
}

#[derive(Debug, Clone, Copy, PartialEq, Eq, Structural)]
pub enum SpecialMethodKind {
    Copy,
    Default,
    Hash,
}

#[derive(Debug, Clone, Copy, PartialEq, Eq, Structural)]
pub enum SpecialMethodReceiver {
    Instance,
    Static,
}

/// A special method: its name, the signature it must have (`{Self}` stands for the
/// struct's name) and whether it takes `this`.
#[derive(Debug, Clone, Copy)]
pub struct SpecialMethodDescriptor {
    pub kind: SpecialMethodKind,
    pub name: &'static str,
    pub expected_signature: &'static str,
    pub receiver: SpecialMethodReceiver,
}

/// The intrinsic that a special call on a primitive value becomes.
#[derive(Debug, Clone, Copy)]
pub struct PrimitiveSpecialCallDescriptor {
    pub kind: SpecialMethodKind,
    pub receiver: SpecialMethodReceiver,
    pub intrinsic_name: &'static str,
}

pub const INTRINSIC_PRIMITIVE_DEFAULT: &'static str = "__atlas_primitive_default";
pub const INTRINSIC_PRIMITIVE_COPY: &'static str = "__atlas_primitive_copy";
pub const INTRINSIC_PRIMITIVE_HASH: &'static str = "__atlas_primitive_hash";
pub const INTRINSIC_SIZEOF: &'static str = "size_of";
pub const INTRINSIC_ALIGNOF: &'static str = "align_of";
pub const INTRINSIC_TYPE_ID: &'static str = "type_id";
pub const INTRINSIC_TYPE_OF: &'static str = "type_of";

/// The method name of each kind.
pub open spec fn special_name(k: SpecialMethodKind) -> Seq<char> {
    match k {
        SpecialMethodKind::Copy => "copy"@,
        SpecialMethodKind::Default => "default"@,
        SpecialMethodKind::Hash => "hash"@,
    }
}

/// The signature each kind must have, `{Self}` standing for the struct's name.
pub open spec fn signature_template(k: SpecialMethodKind) -> Seq<char> {
    match k {
        SpecialMethodKind::Copy => "fun copy(*const this) -> {Self}"@,
        SpecialMethodKind::Default => "fun default() -> {Self}"@,
        SpecialMethodKind::Hash => "fun hash(*const this) -> uint64"@,
    }
}

/// `default` is called on the type; `copy` and `hash` on a value.
pub open spec fn special_receiver(k: SpecialMethodKind) -> SpecialMethodReceiver {
    match k {
        SpecialMethodKind::Default => SpecialMethodReceiver::Static,
        _ => SpecialMethodReceiver::Instance,
    }
}

/// The registry entry of a kind.
pub fn special_method_descriptor(kind: SpecialMethodKind) -> (d: SpecialMethodDescriptor)
    ensures
        d.kind == kind,
        d.name@ == special_name(kind),
        d.expected_signature@ == signature_template(kind),
        d.receiver == special_receiver(kind),
{
    match kind {
        SpecialMethodKind::Copy => SpecialMethodDescriptor {
            kind: SpecialMethodKind::Copy,
            name: "copy",
            expected_signature: "fun copy(*const this) -> {Self}",
            receiver: SpecialMethodReceiver::Instance,
        },
        SpecialMethodKind::Default => SpecialMethodDescriptor {
            kind: SpecialMethodKind::Default,
            name: "default",
            expected_signature: "fun default() -> {Self}",
            receiver: SpecialMethodReceiver::Static,
        },
        SpecialMethodKind::Hash => SpecialMethodDescriptor {
            kind: SpecialMethodKind::Hash,
            name: "hash",
            expected_signature: "fun hash(*const this) -> uint64",
            receiver: SpecialMethodReceiver::Instance,
        },
    }
}

/// The kind whose method is called `name`, if any.
pub open spec fn kind_named(name: Seq<char>) -> Option<SpecialMethodKind> {
    if name == "copy"@ {
        Some(SpecialMethodKind::Copy)
    } else if name == "default"@ {
        Some(SpecialMethodKind::Default)
    } else if name == "hash"@ {
        Some(SpecialMethodKind::Hash)
    } else {
        None
    }
}

/// The special method called `name`, if there is one.
pub fn special_method_by_name(name: &str) -> (r: Option<SpecialMethodDescriptor>)
    ensures
        match kind_named(name@) {
            Some(k) => r matches Some(d) && d.kind == k && d.name@ == special_name(k)
                && d.expected_signature@ == signature_template(k) && d.receiver == special_receiver(k),
            None => r is None,
        },
{
    if str_eq(name, "copy") {
        Some(special_method_descriptor(SpecialMethodKind::Copy))
    } else if str_eq(name, "default") {
        Some(special_method_descriptor(SpecialMethodKind::Default))
    } else if str_eq(name, "hash") {
        Some(special_method_descriptor(SpecialMethodKind::Hash))
    } else {
        None
    }
}

/// The intrinsic that implements a special call on primitive values.
pub open spec fn primitive_intrinsic(k: SpecialMethodKind) -> Seq<char> {
    match k {
        SpecialMethodKind::Default => INTRINSIC_PRIMITIVE_DEFAULT@,
        SpecialMethodKind::Copy => INTRINSIC_PRIMITIVE_COPY@,
        SpecialMethodKind::Hash => INTRINSIC_PRIMITIVE_HASH@,
    }
}

/// For a call of the special method `method_name` on a primitive type, the intrinsic to
/// call instead: there is one when the name is a special method's and the receiver is the
/// one that method takes.
pub fn primitive_special_call_descriptor(method_name: &str, receiver: SpecialMethodReceiver)
    -> (r: Option<PrimitiveSpecialCallDescriptor>)
    ensures
        match kind_named(method_name@) {
            Some(k) => if receiver == special_receiver(k) {
                r matches Some(d) && d.kind == k && d.receiver == receiver
                    && d.intrinsic_name@ == primitive_intrinsic(k)
            } else {
                r is None
            },
            None => r is None,
        },
{
    let kind = match special_method_by_name(method_name) {
        Some(d) => d.kind,
        None => return None,
    };
    match (kind, receiver) {
        (SpecialMethodKind::Default, SpecialMethodReceiver::Static) => Some(PrimitiveSpecialCallDescriptor {
            kind: SpecialMethodKind::Default,
            receiver: SpecialMethodReceiver::Static,
            intrinsic_name: INTRINSIC_PRIMITIVE_DEFAULT,
        }),
        (SpecialMethodKind::Copy, SpecialMethodReceiver::Instance) => Some(PrimitiveSpecialCallDescriptor {
            kind: SpecialMethodKind::Copy,
            receiver: SpecialMethodReceiver::Instance,
            intrinsic_name: INTRINSIC_PRIMITIVE_COPY,
        }),
        (SpecialMethodKind::Hash, SpecialMethodReceiver::Instance) => Some(PrimitiveSpecialCallDescriptor {
            kind: SpecialMethodKind::Hash,
            receiver: SpecialMethodReceiver::Instance,
            intrinsic_name: INTRINSIC_PRIMITIVE_HASH,
        }),
        _ => None,
    }
}

/// The signature a struct's special method must have, with the struct's name in place of
/// `{Self}`.
pub fn expected_signature_for_struct(kind: SpecialMethodKind, struct_name: &str) -> (r: String)
    ensures
        r@ == replaced(signature_template(kind), "{Self}"@, struct_name@),
{
    let template = special_method_descriptor(kind).expected_signature;
    proof {
        reveal_strlit("{Self}");
    }
    replace_all(template, "{Self}", struct_name)
}

/// Whether a flag turns a special method on: `copy` by a copyable or trivially copyable
/// flag, `default` by the default flag, `hash` by the hashable flag.
pub fn special_method_enabled_by_flag(kind: SpecialMethodKind, flag: AstFlag) -> (b: bool)
    ensures
        b == match kind {
            SpecialMethodKind::Copy => flag is Copyable || flag is TriviallyCopyable,
            SpecialMethodKind::Default => flag is Default,
            SpecialMethodKind::Hash => flag is Hashable,
        },
{
    match kind {
        SpecialMethodKind::Copy => match flag {
            AstFlag::Copyable(_) | AstFlag::TriviallyCopyable(_) => true,
            _ => false,
        },
        SpecialMethodKind::Default => match flag {
            AstFlag::Default(_) => true,
            _ => false,
        },
        SpecialMethodKind::Hash => match flag {
            AstFlag::Hashable(_) => true,
            _ => false,
        },
    }
}

} // verus!
