//! Packaging a C header for use from Atlas: a shim header and C file whose names are
//! prefixed by a namespace, and an Atlas module declaring the header's functions, structs,
//! unions and enums.
//!
//! The declarations of the header come in as plain values (`CDeclaration` and the types it
//! holds); everything computed from them is here.
pub mod cdecl;
pub mod composite;
pub mod atlas_module;
pub mod shim;
pub mod header;

use vstd::prelude::*;
use crate::package::cdecl::CDeclSpecifier;
use vstd::string::{StrSliceExecFns, StringExecFns};
use crate::text::{byte_slice, bytes_len, chars_of, count_char, count_char_in, has_prefix,
    is_char_boundary, join, join_strings, replace_all, replaced, slice_bytes, slice_from_byte, stars, starts_with,
    str_eq, trim, trim_str, views, within_bytes};
use self::cdecl::{declarator_identifier_node, ident_of, is_typedef_decl, is_typedef_specs, CDeclaration, CInitDeclarator,
    convs_view, declarator_depths_fit, declarator_fits, extract_function_decl, fun_decl_of};
use self::composite::{collect_composites_and_enums, composites_from_specs, composites_view,
    enums_from_specs, enums_view, fn_pointer_skips, skips_view, specifier_depths_fit, specs_fit, typedef_alias_name,
    CompositeDecl, CompositeKind, EnumDecl};

verus! {

/// A declaration skipped by the packaging, and why.
#[derive(Debug)]
pub struct SkipInfo {
    pub name: String,
    pub reason: String,
}

/// Where the packaging wrote its three files, and what it skipped.
#[derive(Debug)]
pub struct PackageResult {
    pub shim_header: String,
    pub shim_c: String,
    pub atlas_module: String,
    pub skipped: Vec<SkipInfo>,
}

/// How an argument is forwarded from the shim to the vendor function.
#[derive(Debug)]
pub struct ParamConversion {
    pub arg_name: String,
    /// The typedef name the parameter is declared with, if any.
    pub vendor_type: Option<String>,
    pub pointer_depth: usize,
}

/// How a vendor function's result is handed back by the shim.
#[derive(Debug)]
pub struct ReturnConversion {
    pub vendor_type: Option<String>,
    pub pointer_depth: usize,
}

/// `<namespace>_<name>`, unless `name` already starts with that prefix.
pub open spec fn namespaced_text(namespace: Seq<char>, name: Seq<char>) -> Seq<char> {
    let prefix = namespace.push('_');
    if has_prefix(name, prefix) {
        name
    } else {
        prefix + name
    }
}

/// Putting a name in a namespace twice is putting it there once.
pub proof fn lemma_namespaced_idempotent(namespace: Seq<char>, name: Seq<char>)
    ensures
        namespaced_text(namespace, namespaced_text(namespace, name)) == namespaced_text(namespace, name),
{
    let prefix = namespace.push('_');
    if !has_prefix(name, prefix) {
        assert((prefix + name).subrange(0, prefix.len() as int) =~= prefix);
    }
}

/// Wrapping in pointers twice adds up the depths.
pub proof fn lemma_pointer_wrap_adds(a: nat, b: nat, base: Seq<char>)
    ensures
        stars(a) + (stars(b) + base) == stars(a + b) + base,
{
    assert(stars(a) + stars(b) =~= stars(a + b));
    assert(stars(a) + (stars(b) + base) =~= (stars(a) + stars(b)) + base);
}

/// `name` in the namespace.
pub fn namespaced(namespace: &str, name: &str) -> (r: String)
    ensures
        r@ == namespaced_text(namespace@, name@),
{
    let mut prefix = String::from_str(namespace);
    prefix.push('_');
    if starts_with(name, prefix.as_str()) {
        String::from_str(name)
    } else {
        prefix.append(name);
        prefix
    }
}

/// `base` behind `pointer_depth` pointer markers: `**T`.
pub fn pointer_wrap(base: String, pointer_depth: usize) -> (r: String)
    ensures
        r@ == stars(pointer_depth as nat) + base@,
{
    let mut out = String::new();
    let mut k: usize = 0;
    while k < pointer_depth
        invariant
            k <= pointer_depth,
            out@ == stars(k as nat),
        decreases pointer_depth - k,
    {
        out.push('*');
        proof {
            assert(out@ =~= stars((k + 1) as nat));
        }
        k = k + 1;
    }
    out.append(base.as_str());
    out
}

/// The Atlas spelling of a C base type (no pointer markers), for the built-in ones.
pub open spec fn primitive_atlas(base: Seq<char>) -> Option<Seq<char>> {
    if base == "void"@ {
        Some("unit"@)
    } else if base == "char"@ || base == "unsigned char"@ {
        Some("uint8"@)
    } else if base == "signed char"@ {
        Some("int8"@)
    } else if base == "short"@ || base == "short int"@ || base == "signed short"@ || base == "signed short int"@ {
        Some("int16"@)
    } else if base == "unsigned short"@ || base == "unsigned short int"@ {
        Some("uint16"@)
    } else if base == "int"@ || base == "signed"@ || base == "signed int"@ {
        Some("int32"@)
    } else if base == "unsigned"@ || base == "unsigned int"@ {
        Some("uint32"@)
    } else if base == "long"@ || base == "long int"@ || base == "signed long"@ || base == "signed long int"@ {
        Some("int64"@)
    } else if base == "unsigned long"@ || base == "unsigned long int"@ {
        Some("uint64"@)
    } else if base == "long long"@ || base == "long long int"@ || base == "signed long long"@ || base == "signed long long int"@ {
        Some("int64"@)
    } else if base == "unsigned long long"@ || base == "unsigned long long int"@ {
        Some("uint64"@)
    } else if base == "float"@ {
        Some("float32"@)
    } else if base == "double"@ {
        Some("float64"@)
    } else if base == "_Bool"@ || base == "bool"@ {
        Some("bool"@)
    } else {
        None
    }
}

/// The type text without qualifiers and surrounding blanks.
pub open spec fn unqualified(c_type: Seq<char>) -> Seq<char> {
    trim(replaced(replaced(replaced(trim(c_type), "const "@, Seq::empty()), "volatile "@, Seq::empty()),
        "restrict "@, Seq::empty()))
}

/// The base type's text: no pointer markers, double blanks made single once, trimmed.
pub open spec fn base_of(ty: Seq<char>) -> Seq<char> {
    trim(replaced(replaced(ty, "*"@, Seq::empty()), "  "@, " "@))
}

/// The Atlas spelling of a C type written as text: qualifiers dropped, each `*` a pointer
/// marker in front, built-in types renamed, other names put in the namespace
/// (`<namespace>::<name>`); the empty type is `unit`.
pub open spec fn atlas_type_text(c_type: Seq<char>, namespace: Seq<char>) -> Seq<char> {
    if trim(c_type).len() == 0 {
        "unit"@
    } else {
        let ty = unqualified(c_type);
        let base = base_of(ty);
        let mapped = match primitive_atlas(base) {
            Some(m) => m,
            None => namespace + "::"@ + base,
        };
        stars(count_char(ty, '*')) + mapped
    }
}

/// Replacing a pattern that does not occur changes nothing.
proof fn lemma_replaced_absent(s: Seq<char>, p: Seq<char>, r: Seq<char>)
    requires
        !crate::text::has_infix(s, p),
    ensures
        replaced(s, p, r) == s,
    decreases s.len(),
{
    if p.len() > 0 && s.len() >= p.len() {
        assert(s.subrange(0, s.len() as int) =~= s);
        if s.subrange(0, p.len() as int) == p {
            assert(has_prefix(s.subrange(0, s.len() as int), p));
            assert(false);
        }
        let t = s.subrange(1, s.len() as int);
        assert forall|i: int| 0 <= i <= t.len() implies !#[trigger] has_prefix(t.subrange(i, t.len() as int), p) by {
            assert(t.subrange(i, t.len() as int) =~= s.subrange(i + 1, s.len() as int));
            if has_prefix(t.subrange(i, t.len() as int), p) {
                assert(has_prefix(s.subrange(i + 1, s.len() as int), p));
            }
        }
        lemma_replaced_absent(t, p, r);
        assert(seq![s[0]] + t =~= s);
    }
}

/// A one-character pattern is replaced in each part of a concatenation separately.
proof fn lemma_replaced_one_char_concat(x: Seq<char>, y: Seq<char>, p: Seq<char>, r: Seq<char>)
    requires
        p.len() == 1,
    ensures
        replaced(x + y, p, r) == replaced(x, p, r) + replaced(y, p, r),
    decreases x.len(),
{
    if x.len() == 0 {
        assert(x + y =~= y);
        assert(replaced(x, p, r) =~= Seq::<char>::empty());
    } else {
        let s = x + y;
        let xs = x.subrange(1, x.len() as int);
        assert(s.subrange(0, 1) =~= x.subrange(0, 1));
        assert(s.subrange(1, s.len() as int) =~= xs + y);
        lemma_replaced_one_char_concat(xs, y, p, r);
        if x.subrange(0, 1) == p {
            assert(replaced(s, p, r) == r + replaced(xs + y, p, r));
            assert(replaced(x, p, r) == r + replaced(xs, p, r));
        } else {
            assert(replaced(s, p, r) == seq![s[0]] + replaced(xs + y, p, r));
            assert(replaced(x, p, r) == seq![x[0]] + replaced(xs, p, r));
        }
    }
}

/// Removing the pointer markers from markers only leaves nothing.
proof fn lemma_replaced_stars(k: nat)
    ensures
        replaced(stars(k), "*"@, Seq::empty()) == Seq::<char>::empty(),
    decreases k,
{
    reveal_strlit("*");
    if k > 0 {
        let s = stars(k);
        assert(s.subrange(0, 1) =~= "*"@);
        assert(s.subrange(1, s.len() as int) =~= stars((k - 1) as nat));
        lemma_replaced_stars((k - 1) as nat);
    }
}

proof fn lemma_count_char_concat(x: Seq<char>, y: Seq<char>, c: char)
    ensures
        count_char(x + y, c) == count_char(x, c) + count_char(y, c),
    decreases y.len(),
{
    if y.len() == 0 {
        assert(x + y =~= x);
    } else {
        assert((x + y).drop_last() =~= x + y.drop_last());
        lemma_count_char_concat(x, y.drop_last(), c);
    }
}

proof fn lemma_count_stars(k: nat)
    ensures
        count_char(stars(k), '*') == k,
    decreases k,
{
    if k > 0 {
        assert(stars(k).drop_last() =~= stars((k - 1) as nat));
        lemma_count_stars((k - 1) as nat);
    }
}

proof fn lemma_count_absent(s: Seq<char>, c: char)
    requires
        forall|i: int| 0 <= i < s.len() ==> s[i] != c,
    ensures
        count_char(s, c) == 0,
    decreases s.len(),
{
    if s.len() > 0 {
        lemma_count_absent(s.drop_last(), c);
    }
}

/// A pattern without `*` that occurs in `x` followed by markers occurs in `x`.
proof fn lemma_infix_before_stars(x: Seq<char>, k: nat, p: Seq<char>)
    requires
        p.len() > 0,
        forall|i: int| 0 <= i < p.len() ==> p[i] != '*',
        crate::text::has_infix(x + stars(k), p),
    ensures
        crate::text::has_infix(x, p),
{
    let s = x + stars(k);
    let i = choose|i: int| 0 <= i <= s.len() && #[trigger] has_prefix(s.subrange(i, s.len() as int), p);
    assert(s.subrange(i, s.len() as int).subrange(0, p.len() as int) == p);
    if i + p.len() <= x.len() {
        assert(x.subrange(i, x.len() as int).subrange(0, p.len() as int) =~= p);
        assert(has_prefix(x.subrange(i, x.len() as int), p));
    } else {
        let j = if i >= x.len() { 0 } else { x.len() - i };
        assert(p[j] == s[i + j]);
        assert(s[i + j] == '*');
    }
}

/// An occurrence in `x` is an occurrence in `x` followed by more.
proof fn lemma_infix_extends(x: Seq<char>, y: Seq<char>, p: Seq<char>)
    requires
        crate::text::has_infix(x, p),
    ensures
        crate::text::has_infix(x + y, p),
{
    let i = choose|i: int| 0 <= i <= x.len() && #[trigger] has_prefix(x.subrange(i, x.len() as int), p);
    let s = x + y;
    assert(s.subrange(i, s.len() as int).subrange(0, p.len() as int) =~= x.subrange(i, x.len() as int).subrange(0,
        p.len() as int));
    assert(has_prefix(s.subrange(i, s.len() as int), p));
}

/// `s` has no blank at either end, so trimming keeps it.
proof fn lemma_trim_keeps(s: Seq<char>)
    requires
        s.len() > 0,
        !crate::text::is_ws(s[0]),
        !crate::text::is_ws(s.last()),
    ensures
        trim(s) == s,
{
}

/// A C type with `k` pointer markers after its base type is written in Atlas as `k`
/// markers in front of the Atlas spelling of the base type. The base type `b` is not empty,
/// has no blank at either end and no `*`, and, followed by a blank, holds no double blank
/// and none of `const `, `volatile `, `restrict ` (which the conversion drops).
pub proof fn lemma_pointer_markers_move_in_front(b: Seq<char>, k: nat, namespace: Seq<char>)
    requires
        b.len() > 0,
        k >= 1,
        !crate::text::is_ws(b[0]),
        !crate::text::is_ws(b.last()),
        forall|i: int| 0 <= i < b.len() ==> b[i] != '*',
        !crate::text::has_infix(b + " "@, "  "@),
        !crate::text::has_infix(b + " "@, "const "@),
        !crate::text::has_infix(b + " "@, "volatile "@),
        !crate::text::has_infix(b + " "@, "restrict "@),
    ensures
        atlas_type_text(b + " "@ + stars(k), namespace) == stars(k) + atlas_type_text(b, namespace),
{
    reveal_strlit(" ");
    reveal_strlit("*");
    reveal_strlit("  ");
    reveal_strlit("const ");
    reveal_strlit("volatile ");
    reveal_strlit("restrict ");
    let bs = b + " "@;
    let c = bs + stars(k);
    let empty = Seq::<char>::empty();
    assert(c[0] == b[0]);
    assert(c.last() == '*');
    lemma_trim_keeps(c);
    lemma_trim_keeps(b);
    assert(!crate::text::is_ws('*'));
    assert(trim(c).len() > 0);
    // The qualifiers occur nowhere.
    if crate::text::has_infix(c, "const "@) {
        lemma_infix_before_stars(bs, k, "const "@);
    }
    if crate::text::has_infix(c, "volatile "@) {
        lemma_infix_before_stars(bs, k, "volatile "@);
    }
    if crate::text::has_infix(c, "restrict "@) {
        lemma_infix_before_stars(bs, k, "restrict "@);
    }
    lemma_replaced_absent(c, "const "@, empty);
    lemma_replaced_absent(c, "volatile "@, empty);
    lemma_replaced_absent(c, "restrict "@, empty);
    assert(unqualified(c) == c);
    if crate::text::has_infix(b, "const "@) {
        lemma_infix_extends(b, " "@, "const "@);
    }
    if crate::text::has_infix(b, "volatile "@) {
        lemma_infix_extends(b, " "@, "volatile "@);
    }
    if crate::text::has_infix(b, "restrict "@) {
        lemma_infix_extends(b, " "@, "restrict "@);
    }
    lemma_replaced_absent(b, "const "@, empty);
    lemma_replaced_absent(b, "volatile "@, empty);
    lemma_replaced_absent(b, "restrict "@, empty);
    assert(unqualified(b) == b);
    // The pointer markers.
    lemma_count_char_concat(bs, stars(k), '*');
    lemma_count_absent(bs, '*');
    lemma_count_stars(k);
    assert(count_char(c, '*') == k);
    lemma_count_absent(b, '*');
    assert(count_char(b, '*') == 0);
    assert(stars(0) =~= empty);
    // The base type.
    if crate::text::has_infix(bs, "*"@) {
        let i = choose|i: int| 0 <= i <= bs.len() && #[trigger] has_prefix(bs.subrange(i, bs.len() as int), "*"@);
        assert(bs.subrange(i, bs.len() as int).subrange(0, 1)[0] == '*');
        assert(bs[i] == '*');
    }
    lemma_replaced_one_char_concat(bs, stars(k), "*"@, empty);
    lemma_replaced_stars(k);
    lemma_replaced_absent(bs, "*"@, empty);
    assert(replaced(c, "*"@, empty) =~= bs);
    lemma_replaced_absent(bs, "  "@, " "@);
    assert(trim(bs) == b) by {
        assert(bs.drop_last() =~= b);
        assert(crate::text::is_ws(bs.last()));
        assert(crate::text::trim_start(bs) == bs);
    }
    assert(base_of(c) == b);
    if crate::text::has_infix(b, "*"@) {
        lemma_infix_extends(b, " "@, "*"@);
    }
    if crate::text::has_infix(b, "  "@) {
        lemma_infix_extends(b, " "@, "  "@);
    }
    lemma_replaced_absent(b, "*"@, empty);
    lemma_replaced_absent(b, "  "@, " "@);
    assert(base_of(b) == b);
}

fn primitive_atlas_of(base: &str) -> (r: Option<&'static str>)
    ensures
        match primitive_atlas(base@) {
            Some(m) => r matches Some(t) && t@ == m,
            None => r is None,
        },
{
    if str_eq(base, "void") {
        Some("unit")
    } else if str_eq(base, "char") || str_eq(base, "unsigned char") {
        Some("uint8")
    } else if str_eq(base, "signed char") {
        Some("int8")
    } else if str_eq(base, "short") || str_eq(base, "short int") || str_eq(base, "signed short") || str_eq(base, "signed short int") {
        Some("int16")
    } else if str_eq(base, "unsigned short") || str_eq(base, "unsigned short int") {
        Some("uint16")
    } else if str_eq(base, "int") || str_eq(base, "signed") || str_eq(base, "signed int") {
        Some("int32")
    } else if str_eq(base, "unsigned") || str_eq(base, "unsigned int") {
        Some("uint32")
    } else if str_eq(base, "long") || str_eq(base, "long int") || str_eq(base, "signed long") || str_eq(base, "signed long int") {
        Some("int64")
    } else if str_eq(base, "unsigned long") || str_eq(base, "unsigned long int") {
        Some("uint64")
    } else if str_eq(base, "long long") || str_eq(base, "long long int") || str_eq(base, "signed long long") || str_eq(base, "signed long long int") {
        Some("int64")
    } else if str_eq(base, "unsigned long long") || str_eq(base, "unsigned long long int") {
        Some("uint64")
    } else if str_eq(base, "float") {
        Some("float32")
    } else if str_eq(base, "double") {
        Some("float64")
    } else if str_eq(base, "_Bool") || str_eq(base, "bool") {
        Some("bool")
    } else {
        None
    }
}

/// The Atlas spelling of a C type written as text.
pub fn c_type_string_to_atlas(c_type: &str, namespace: &str) -> (r: String)
    ensures
        r@ == atlas_type_text(c_type@, namespace@),
{
    let raw = trim_str(c_type);
    if raw.as_str().unicode_len() == 0 {
        return String::from_str("unit");
    }
    proof {
        reveal_strlit("const ");
        reveal_strlit("volatile ");
        reveal_strlit("restrict ");
        reveal_strlit("*");
        reveal_strlit("  ");
        reveal_strlit("");
        assert(""@ =~= Seq::<char>::empty());
    }
    let ty1 = replace_all(raw.as_str(), "const ", "");
    let ty2 = replace_all(ty1.as_str(), "volatile ", "");
    let ty3 = replace_all(ty2.as_str(), "restrict ", "");
    let ty = trim_str(ty3.as_str());
    let pointer_depth = count_char_in(ty.as_str(), '*');
    let b1 = replace_all(ty.as_str(), "*", "");
    let b2 = replace_all(b1.as_str(), "  ", " ");
    let base = trim_str(b2.as_str());
    let mapped = match primitive_atlas_of(base.as_str()) {
        Some(m) => String::from_str(m),
        None => {
            let mut m = String::from_str(namespace);
            m.append("::");
            m.append(base.as_str());
            m
        },
    };
    pointer_wrap(mapped, pointer_depth)
}

/// The entry for `name` in a name map (the last one, as a map built by inserting the
/// entries in order keeps it).
pub open spec fn map_get(m: Seq<(Seq<char>, Seq<char>)>, name: Seq<char>) -> Option<Seq<char>>
    decreases m.len(),
{
    if m.len() == 0 {
        None
    } else if m.last().0 == name {
        Some(m.last().1)
    } else {
        map_get(m.drop_last(), name)
    }
}

pub open spec fn pairs_view(m: Seq<(String, String)>) -> Seq<(Seq<char>, Seq<char>)> {
    m.map_values(|p: (String, String)| (p.0@, p.1@))
}

/// Whether `name` is among `names`.
pub open spec fn name_in(names: Seq<Seq<char>>, name: Seq<char>) -> bool {
    exists|k: int| 0 <= k < names.len() && #[trigger] names[k] == name
}

fn contains_name(names: &Vec<String>, name: &str) -> (b: bool)
    ensures
        b == name_in(views(names@), name@),
{
    let mut k: usize = 0;
    while k < names.len()
        invariant
            k <= names.len(),
            forall|q: int| 0 <= q < k ==> names@[q]@ != name@,
        decreases names.len() - k,
    {
        if str_eq(names[k].as_str(), name) {
            proof {
                assert(views(names@)[k as int] == names@[k as int]@);
            }
            return true;
        }
        k = k + 1;
    }
    proof {
        assert forall|q: int| 0 <= q < views(names@).len() implies #[trigger] views(names@)[q] != name@ by {
            assert(views(names@)[q] == names@[q]@);
        }
    }
    false
}

fn map_lookup(m: &Vec<(String, String)>, name: &str) -> (r: Option<String>)
    ensures
        match map_get(pairs_view(m@), name@) {
            Some(v) => r matches Some(s) && s@ == v,
            None => r is None,
        },
{
    let mut k: usize = m.len();
    proof {
        assert(pairs_view(m@).subrange(0, m.len() as int) =~= pairs_view(m@));
    }
    while k > 0
        invariant
            k <= m.len(),
            map_get(pairs_view(m@), name@) == map_get(pairs_view(m@).subrange(0, k as int), name@),
        decreases k,
    {
        proof {
            assert(pairs_view(m@).subrange(0, k as int).drop_last() =~= pairs_view(m@).subrange(0, k - 1));
            assert(pairs_view(m@).subrange(0, k as int).last() == (m@[k - 1].0@, m@[k - 1].1@));
        }
        if str_eq(m[k - 1].0.as_str(), name) {
            return Some(m[k - 1].1.clone());
        }
        k = k - 1;
    }
    None
}

/// The argument expression the shim passes on: a typedef'd value is reinterpreted from
/// the namespaced type through a union, a typedef'd pointer is cast; other arguments are
/// passed as they are.
pub open spec fn forward_arg_text(p: (Seq<char>, Option<Seq<char>>, nat), known: Seq<Seq<char>>, namespace: Seq<char>) -> Seq<char> {
    match p.1 {
        Some(vt) => if !name_in(known, vt) {
            p.0
        } else if p.2 > 0 {
            replaced(seq!['('] + vt + stars(p.2) + " )"@ + p.0, "  "@, " "@)
        } else {
            "((union { "@ + namespaced_text(namespace, vt) + " ns; "@ + vt + " vd; }){ .ns = "@ + p.0
                + " }).vd"@
        },
        None => p.0,
    }
}

/// A conversion as plain values: argument name, vendor typedef name, pointer depth.
pub open spec fn param_view(c: ParamConversion) -> (Seq<char>, Option<Seq<char>>, nat) {
    (c.arg_name@, match c.vendor_type {
        Some(v) => Some(v@),
        None => None,
    }, c.pointer_depth as nat)
}

/// The argument expression the shim passes to the vendor function.
pub fn build_forward_arg_expr(param: &ParamConversion, known_type_names: &Vec<String>, namespace: &str) -> (r: String)
    ensures
        r@ == forward_arg_text(param_view(*param), views(known_type_names@), namespace@),
{
    let vendor_type = match &param.vendor_type {
        Some(v) => v,
        None => return param.arg_name.clone(),
    };
    if !contains_name(known_type_names, vendor_type.as_str()) {
        return param.arg_name.clone();
    }
    if param.pointer_depth > 0 {
        let mut s = String::new();
        s.push('(');
        s.append(vendor_type.as_str());
        let st = pointer_wrap(String::new(), param.pointer_depth);
        s.append(st.as_str());
        s.append(" )");
        s.append(param.arg_name.as_str());
        proof {
            reveal_strlit("  ");
            assert(st@ =~= stars(param.pointer_depth as nat));
            assert(s@ =~= seq!['('] + vendor_type@ + stars(param.pointer_depth as nat) + " )"@ + param.arg_name@);
        }
        return replace_all(s.as_str(), "  ", " ");
    }
    let ns_type = namespaced(namespace, vendor_type.as_str());
    let mut out = String::from_str("((union { ");
    out.append(ns_type.as_str());
    out.append(" ns; ");
    out.append(vendor_type.as_str());
    out.append(" vd; }){ .ns = ");
    out.append(param.arg_name.as_str());
    out.append(" }).vd");
    out
}

/// The expression the shim returns: a typedef'd result is reinterpreted into the
/// namespaced type through a union, a typedef'd pointer is cast; other results are
/// returned as they are.
pub open spec fn return_expr_text(call: Seq<char>, ret: (Option<Seq<char>>, nat), known: Seq<Seq<char>>, namespace: Seq<char>) -> Seq<char> {
    match ret.0 {
        Some(vt) => if !name_in(known, vt) {
            call
        } else if ret.1 > 0 {
            ((seq!['('] + namespaced_text(namespace, vt) + stars(ret.1)).push(')').push('(') + call).push(')')
        } else {
            "((union { "@ + namespaced_text(namespace, vt) + " ns; "@ + vt + " vd; }){ .vd = "@ + call + " }).ns"@
        },
        None => call,
    }
}

/// A result conversion as plain values: vendor typedef name, pointer depth.
pub open spec fn ret_view(r: ReturnConversion) -> (Option<Seq<char>>, nat) {
    (match r.vendor_type {
        Some(v) => Some(v@),
        None => None,
    }, r.pointer_depth as nat)
}

/// The expression the shim returns.
pub fn build_return_expr(call_expr: &str, ret: &ReturnConversion, known_type_names: &Vec<String>, namespace: &str) -> (r: String)
    ensures
        r@ == return_expr_text(call_expr@, ret_view(*ret), views(known_type_names@), namespace@),
{
    let vendor_type = match &ret.vendor_type {
        Some(v) => v,
        None => return String::from_str(call_expr),
    };
    if !contains_name(known_type_names, vendor_type.as_str()) {
        return String::from_str(call_expr);
    }
    let ns_type = namespaced(namespace, vendor_type.as_str());
    if ret.pointer_depth > 0 {
        let mut out = String::new();
        out.push('(');
        out.append(ns_type.as_str());
        let st = pointer_wrap(String::new(), ret.pointer_depth);
        out.append(st.as_str());
        out.push(')');
        out.push('(');
        out.append(call_expr);
        out.push(')');
        proof {
            assert(st@ =~= stars(ret.pointer_depth as nat));
            assert(out@ =~= ((seq!['('] + ns_type@ + stars(ret.pointer_depth as nat)).push(')').push('(') + call_expr@).push(')'));
        }
        return out;
    }
    let mut out = String::from_str("((union { ");
    out.append(ns_type.as_str());
    out.append(" ns; ");
    out.append(vendor_type.as_str());
    out.append(" vd; }){ .vd = ");
    out.append(call_expr);
    out.append(" }).ns");
    out
}


/// The text between byte offsets `start` and `end` of `source`, or the empty text when
/// they are not character boundaries in order (`str::get`).
pub fn slice_source(source: &str, start: usize, end: usize) -> (r: String)
    ensures
        r@ == byte_slice(source@, start as int, end as int),
{
    let cs = chars_of(source);
    match slice_bytes(&cs, start, end) {
        Some(t) => t,
        None => String::new(),
    }
}

/// A replacement of the bytes `[start, end)` by a text.
pub type RepV = (usize, usize, Seq<char>);

pub open spec fn reps_view(v: Seq<(usize, usize, String)>) -> Seq<RepV> {
    v.map_values(|r: (usize, usize, String)| (r.0, r.1, r.2@))
}

/// `x` put after the last replacement that starts no later than it.
pub open spec fn insert_by_start(sorted: Seq<RepV>, x: RepV) -> Seq<RepV>
    decreases sorted.len(),
{
    if sorted.len() == 0 {
        seq![x]
    } else if sorted.last().0 <= x.0 {
        sorted.push(x)
    } else {
        insert_by_start(sorted.drop_last(), x).push(sorted.last())
    }
}

/// The replacements ordered by start offset, those with equal starts keeping their order
/// (a stable sort).
pub open spec fn sort_by_start(s: Seq<RepV>) -> Seq<RepV>
    decreases s.len(),
{
    if s.len() == 0 {
        s
    } else {
        insert_by_start(sort_by_start(s.drop_last()), s.last())
    }
}

proof fn lemma_insert_by_start(sorted: Seq<RepV>, x: RepV, j: int)
    requires
        0 <= j <= sorted.len(),
        j == 0 || sorted[j - 1].0 <= x.0,
        forall|q: int| j <= q < sorted.len() ==> sorted[q].0 > x.0,
    ensures
        insert_by_start(sorted, x) == sorted.insert(j, x),
    decreases sorted.len(),
{
    if sorted.len() == 0 {
        assert(sorted.insert(j, x) =~= seq![x]);
    } else if j == sorted.len() {
        assert(sorted.insert(j, x) =~= sorted.push(x));
    } else {
        lemma_insert_by_start(sorted.drop_last(), x, j);
        assert(sorted.insert(j, x) =~= sorted.drop_last().insert(j, x).push(sorted.last()));
    }
}

/// A replacement that starts before the text written so far, reaches past the end, or
/// ends before it starts is left out.
pub open spec fn skips(cs: Seq<char>, r: RepV, cursor: int) -> bool {
    r.0 < cursor || r.0 > bytes_len(cs) || r.1 > bytes_len(cs) || r.0 > r.1
}

/// The text from byte `cursor` on, with the replacements (in order) applied.
pub open spec fn splice(cs: Seq<char>, reps: Seq<RepV>, cursor: int) -> Seq<char>
    decreases reps.len(),
{
    if reps.len() == 0 {
        byte_slice(cs, cursor, bytes_len(cs) as int)
    } else if skips(cs, reps[0], cursor) {
        splice(cs, reps.drop_first(), cursor)
    } else {
        byte_slice(cs, cursor, reps[0].0 as int) + reps[0].2 + splice(cs, reps.drop_first(), reps[0].1 as int)
    }
}

/// Every offset the splice cuts the text at is a character boundary.
pub open spec fn splice_ok(cs: Seq<char>, reps: Seq<RepV>, cursor: int) -> bool
    decreases reps.len(),
{
    if reps.len() == 0 {
        is_char_boundary(cs, cursor)
    } else if skips(cs, reps[0], cursor) {
        splice_ok(cs, reps.drop_first(), cursor)
    } else {
        is_char_boundary(cs, cursor) && is_char_boundary(cs, reps[0].0 as int)
            && splice_ok(cs, reps.drop_first(), reps[0].1 as int)
    }
}

/// `source` with the replacements applied in order of their start offsets; one that
/// overlaps the previous one, or reaches outside the text, is left out.
pub open spec fn apply_text(source: Seq<char>, reps: Seq<RepV>) -> Seq<char> {
    if reps.len() == 0 {
        source
    } else {
        splice(source, sort_by_start(reps), 0)
    }
}

/// The cuts `apply_text` makes fall on character boundaries.
pub open spec fn apply_ok(source: Seq<char>, reps: Seq<RepV>) -> bool {
    reps.len() == 0 || splice_ok(source, sort_by_start(reps), 0)
}

/// `source` with the replacements applied, or `None` when a cut would fall inside a
/// character (see `apply_ok`).
pub fn try_apply_replacements(source: &str, replacements: &Vec<(usize, usize, String)>) -> (r: Option<String>)
    ensures
        r is Some <==> apply_ok(source@, reps_view(replacements@)),
        r matches Some(t) ==> t@ == apply_text(source@, reps_view(replacements@)),
{
    if replacements.len() == 0 {
        return Some(String::from_str(source));
    }
    let ghost rv = reps_view(replacements@);
    let mut sorted: Vec<(usize, usize, String)> = Vec::new();
    let mut i: usize = 0;
    while i < replacements.len()
        invariant
            i <= replacements.len(),
            rv == reps_view(replacements@),
            reps_view(sorted@) == sort_by_start(rv.subrange(0, i as int)),
        decreases replacements.len() - i,
    {
        let x = (replacements[i].0, replacements[i].1, replacements[i].2.clone());
        let mut j: usize = sorted.len();
        while j > 0 && sorted[j - 1].0 > x.0
            invariant
                j <= sorted.len(),
                forall|q: int| j <= q < sorted.len() ==> sorted@[q].0 > x.0,
            decreases j,
        {
            j = j - 1;
        }
        proof {
            let sv = reps_view(sorted@);
            lemma_insert_by_start(sv, (x.0, x.1, x.2@), j as int);
            assert(rv.subrange(0, i + 1).drop_last() =~= rv.subrange(0, i as int));
            assert(reps_view(sorted@.insert(j as int, x)) =~= sv.insert(j as int, (x.0, x.1, x.2@)));
        }
        sorted.insert(j, x);
        i = i + 1;
    }
    proof {
        assert(rv.subrange(0, replacements.len() as int) =~= rv);
    }
    let cs = chars_of(source);
    let mut output = String::new();
    let mut cursor: usize = 0;
    let mut k: usize = 0;
    let ghost sv = reps_view(sorted@);
    proof {
        assert(sv.subrange(0, sv.len() as int) =~= sv);
        assert(output@ + splice(cs@, sv, 0) =~= splice(cs@, sv, 0));
    }
    while k < sorted.len()
        invariant
            k <= sorted.len(),
            cs@ == source@,
            sv == reps_view(sorted@),
            sv == sort_by_start(rv),
            rv == reps_view(replacements@),
            rv.len() > 0,
            splice_ok(cs@, sv, 0) == splice_ok(cs@, sv.subrange(k as int, sv.len() as int), cursor as int),
            output@ + splice(cs@, sv.subrange(k as int, sv.len() as int), cursor as int)
                == splice(cs@, sv, 0),
        decreases sorted.len() - k,
    {
        let start = sorted[k].0;
        let end = sorted[k].1;
        let ghost rest = sv.subrange(k as int, sv.len() as int);
        proof {
            assert(rest.drop_first() =~= sv.subrange(k + 1, sv.len() as int));
            assert(rest[0] == sv[k as int]);
        }
        if start < cursor || !within_bytes(&cs, start) || !within_bytes(&cs, end) || start > end {
            k = k + 1;
            continue;
        }
        match slice_bytes(&cs, cursor, start) {
            Some(piece) => {
                output.append(piece.as_str());
            },
            None => {
                proof {
                    assert(rest[0].0 == start && rest[0].1 == end);
                    assert(!skips(cs@, rest[0], cursor as int));
                    assert(!splice_ok(cs@, rest, cursor as int));
                }
                return None;
            },
        }
        output.append(sorted[k].2.as_str());
        proof {
            assert(output@ + splice(cs@, sv.subrange(k + 1, sv.len() as int), end as int) =~= splice(cs@, sv, 0));
        }
        cursor = end;
        k = k + 1;
    }
    proof {
        assert(sv.subrange(sorted.len() as int, sv.len() as int) =~= Seq::<RepV>::empty());
    }
    match slice_from_byte(&cs, cursor) {
        Some(piece) => {
            output.append(piece.as_str());
        },
        None => {
            return None;
        },
    }
    proof {
        assert(output@ =~= splice(cs@, sv, 0));
    }
    Some(output)
}

/// `source` with the replacements applied.
pub fn apply_replacements(source: &str, replacements: Vec<(usize, usize, String)>) -> (r: String)
    requires
        apply_ok(source@, reps_view(replacements@)),
    ensures
        r@ == apply_text(source@, reps_view(replacements@)),
{
    match try_apply_replacements(source, &replacements) {
        Some(t) => t,
        None => {
            proof {
                assert(false);
            }
            String::new()
        },
    }
}


/// A typedef of the header, with the spans (relative to its declaration) of the names to
/// put in the namespace.
#[derive(Debug)]
pub struct TypeAlias {
    pub name: String,
    pub source_decl: String,
    pub alias_name_span_rel: (usize, usize),
    pub typedef_ref_spans_rel: Vec<(usize, usize, String)>,
    pub tag_name_spans_rel: Vec<(usize, usize, String)>,
    pub enum_constant_spans_rel: Vec<(usize, usize, String)>,
}

/// A function of the header that gets a shim.
#[derive(Debug)]
pub struct FunctionDecl {
    pub name: String,
    pub namespaced_name: String,
    pub atlas_signature: String,
    pub source_decl: String,
    pub function_name_span_rel: (usize, usize),
    pub is_void_return: bool,
    pub typedef_ref_spans_rel: Vec<(usize, usize, String)>,
    pub param_conversions: Vec<ParamConversion>,
    pub return_conversion: ReturnConversion,
}

/// Every alias maps to itself: the shim refers to the namespaced alias as it is.
pub fn resolve_alias_chains(type_aliases: &Vec<TypeAlias>) -> (r: Vec<(String, String)>)
    ensures
        r@.len() == type_aliases@.len(),
        forall|k: int| 0 <= k < r@.len() ==> (#[trigger] r@[k]).0@ == type_aliases@[k].name@ && r@[k].1@ == type_aliases@[k].name@,
{
    let mut out: Vec<(String, String)> = Vec::new();
    let mut k: usize = 0;
    while k < type_aliases.len()
        invariant
            k <= type_aliases.len(),
            out@.len() == k,
            forall|q: int| 0 <= q < k ==> (#[trigger] out@[q]).0@ == type_aliases@[q].name@ && out@[q].1@ == type_aliases@[q].name@,
        decreases type_aliases.len() - k,
    {
        let ghost prev = out@;
        out.push((type_aliases[k].name.clone(), type_aliases[k].name.clone()));
        proof {
            assert(forall|q: int| 0 <= q < k ==> out@[q] == prev[q]);
        }
        k = k + 1;
    }
    out
}

/// A function to shim, as plain values.
pub struct FunctionV {
    pub name: Seq<char>,
    pub namespaced_name: Seq<char>,
    pub atlas_signature: Seq<char>,
    pub source_decl: Seq<char>,
    pub span: (usize, usize),
    pub is_void_return: bool,
    pub typedef_refs: Seq<RepV>,
    pub convs: Seq<(Seq<char>, Option<Seq<char>>, nat)>,
    pub ret: (Option<Seq<char>>, nat),
}

pub open spec fn function_view(f: FunctionDecl) -> FunctionV {
    FunctionV {
        name: f.name@,
        namespaced_name: f.namespaced_name@,
        atlas_signature: f.atlas_signature@,
        source_decl: f.source_decl@,
        span: f.function_name_span_rel,
        is_void_return: f.is_void_return,
        typedef_refs: reps_view(f.typedef_ref_spans_rel@),
        convs: convs_view(f.param_conversions@),
        ret: ret_view(f.return_conversion),
    }
}

/// The typedef references to rename: those to known aliases, each renamed to its
/// resolved alias in the namespace.
pub open spec fn typedef_reps(refs: Seq<RepV>, known: Seq<Seq<char>>, alias_map: Seq<(Seq<char>, Seq<char>)>,
    namespace: Seq<char>) -> Seq<RepV>
    decreases refs.len(),
{
    if refs.len() == 0 {
        Seq::empty()
    } else {
        let r = refs.last();
        let rest = typedef_reps(refs.drop_last(), known, alias_map, namespace);
        if name_in(known, r.2) {
            let resolved = match map_get(alias_map, r.2) {
                Some(v) => v,
                None => r.2,
            };
            rest.push((r.0, r.1, namespaced_text(namespace, resolved)))
        } else {
            rest
        }
    }
}

/// The replacements that rewrite a function declaration.
pub open spec fn function_reps(f: FunctionV, known: Seq<Seq<char>>, alias_map: Seq<(Seq<char>, Seq<char>)>,
    namespace: Seq<char>) -> Seq<RepV>
{
    seq![(f.span.0, f.span.1, f.namespaced_name)] + typedef_reps(f.typedef_refs, known, alias_map, namespace)
}

/// The replacements that put a function's name, and the known typedef names its
/// declaration uses, in the namespace (see `function_reps`).
pub fn function_replacements(func: &FunctionDecl, known_type_names: &Vec<String>,
    alias_chain_map: &Vec<(String, String)>, namespace: &str) -> (r: Vec<(usize, usize, String)>)
    ensures
        reps_view(r@) == function_reps(function_view(*func), views(known_type_names@), pairs_view(alias_chain_map@), namespace@),
{
    let ghost known = views(known_type_names@);
    let ghost amap = pairs_view(alias_chain_map@);
    let ghost refs = reps_view(func.typedef_ref_spans_rel@);
    let mut replacements: Vec<(usize, usize, String)> = Vec::new();
    replacements.push((func.function_name_span_rel.0, func.function_name_span_rel.1, func.namespaced_name.clone()));
    let ghost head = reps_view(replacements@);
    let mut k: usize = 0;
    while k < func.typedef_ref_spans_rel.len()
        invariant
            k <= func.typedef_ref_spans_rel.len(),
            known == views(known_type_names@),
            amap == pairs_view(alias_chain_map@),
            refs == reps_view(func.typedef_ref_spans_rel@),
            head == seq![(func.function_name_span_rel.0, func.function_name_span_rel.1, func.namespaced_name@)],
            reps_view(replacements@) == head + typedef_reps(refs.subrange(0, k as int), known, amap, namespace@),
        decreases func.typedef_ref_spans_rel.len() - k,
    {
        let ghost prev = replacements@;
        let entry = &func.typedef_ref_spans_rel[k];
        proof {
            assert(refs.subrange(0, k + 1).drop_last() =~= refs.subrange(0, k as int));
            assert(refs.subrange(0, k + 1).last() == (entry.0, entry.1, entry.2@));
        }
        if contains_name(known_type_names, entry.2.as_str()) {
            let resolved_name = match map_lookup(alias_chain_map, entry.2.as_str()) {
                Some(v) => v,
                None => entry.2.clone(),
            };
            let ns = namespaced(namespace, resolved_name.as_str());
            replacements.push((entry.0, entry.1, ns));
            proof {
                assert(reps_view(replacements@) =~= reps_view(prev).push((entry.0, entry.1, ns@)));
            }
        }
        k = k + 1;
    }
    proof {
        assert(refs.subrange(0, refs.len() as int) =~= refs);
        assert(function_view(*func).typedef_refs == refs);
    }
    replacements
}

/// The function's declaration with its name and the known typedef names it uses put in the
/// namespace.
pub fn rewrite_function_decl(func: &FunctionDecl, known_type_names: &Vec<String>,
    alias_chain_map: &Vec<(String, String)>, namespace: &str) -> (r: String)
    requires
        apply_ok(func.source_decl@, function_reps(function_view(*func), views(known_type_names@), pairs_view(alias_chain_map@), namespace@)),
    ensures
        r@ == apply_text(func.source_decl@, function_reps(function_view(*func), views(known_type_names@), pairs_view(alias_chain_map@), namespace@)),
{
    apply_replacements(func.source_decl.as_str(), function_replacements(func, known_type_names, alias_chain_map, namespace))
}


/// `a - b`, or zero when `b` is larger.
pub open spec fn sat_sub(a: usize, b: usize) -> usize {
    if a >= b { (a - b) as usize } else { 0 }
}

fn saturating_minus(a: usize, b: usize) -> (r: usize)
    ensures
        r == sat_sub(a, b),
{
    if a >= b { a - b } else { 0 }
}

/// Spans made relative to a declaration starting at byte `start`.
pub open spec fn rel_spans(spans: Seq<(usize, usize, String)>, start: usize) -> Seq<RepV> {
    spans.map_values(|r: (usize, usize, String)| (sat_sub(r.0, start), sat_sub(r.1, start), r.2@))
}

fn relative_spans(spans: &Vec<(usize, usize, String)>, start: usize) -> (r: Vec<(usize, usize, String)>)
    ensures
        reps_view(r@) == rel_spans(spans@, start),
{
    let mut out: Vec<(usize, usize, String)> = Vec::new();
    let mut k: usize = 0;
    while k < spans.len()
        invariant
            k <= spans.len(),
            reps_view(out@) =~= rel_spans(spans@.subrange(0, k as int), start),
        decreases spans.len() - k,
    {
        let ghost prev = out@;
        out.push((saturating_minus(spans[k].0, start), saturating_minus(spans[k].1, start), spans[k].2.clone()));
        proof {
            assert(reps_view(out@) =~= reps_view(prev).push(reps_view(out@).last()));
            assert(rel_spans(spans@.subrange(0, k + 1), start) =~= rel_spans(spans@.subrange(0, k as int), start).push(reps_view(out@).last()));
        }
        k = k + 1;
    }
    proof {
        assert(spans@.subrange(0, spans@.len() as int) =~= spans@);
    }
    out
}

fn clone_spans(spans: &Vec<(usize, usize, String)>) -> (r: Vec<(usize, usize, String)>)
    ensures
        reps_view(r@) == reps_view(spans@),
{
    let mut out: Vec<(usize, usize, String)> = Vec::new();
    let mut k: usize = 0;
    while k < spans.len()
        invariant
            k <= spans.len(),
            reps_view(out@) =~= reps_view(spans@.subrange(0, k as int)),
        decreases spans.len() - k,
    {
        let ghost prev = out@;
        out.push((spans[k].0, spans[k].1, spans[k].2.clone()));
        proof {
            assert(reps_view(out@) =~= reps_view(prev).push(reps_view(out@).last()));
            assert(reps_view(spans@.subrange(0, k + 1)) =~= reps_view(spans@.subrange(0, k as int)).push(reps_view(out@).last()));
        }
        k = k + 1;
    }
    proof {
        assert(spans@.subrange(0, spans@.len() as int) =~= spans@);
    }
    out
}

/// The spans other than `span`.
pub open spec fn drop_span(refs: Seq<RepV>, span: (usize, usize)) -> Seq<RepV>
    decreases refs.len(),
{
    if refs.len() == 0 {
        Seq::empty()
    } else {
        let rest = drop_span(refs.drop_last(), span);
        if refs.last().0 == span.0 && refs.last().1 == span.1 {
            rest
        } else {
            rest.push(refs.last())
        }
    }
}

/// A typedef, as plain values.
pub struct AliasV {
    pub name: Seq<char>,
    pub source_decl: Seq<char>,
    pub span: (usize, usize),
    pub typedef_refs: Seq<RepV>,
    pub tags: Seq<RepV>,
    pub enum_consts: Seq<RepV>,
}

pub open spec fn alias_view(a: TypeAlias) -> AliasV {
    AliasV {
        name: a.name@,
        source_decl: a.source_decl@,
        span: a.alias_name_span_rel,
        typedef_refs: reps_view(a.typedef_ref_spans_rel@),
        tags: reps_view(a.tag_name_spans_rel@),
        enum_consts: reps_view(a.enum_constant_spans_rel@),
    }
}

/// The typedefs a declaration declares (one per named declarator).
pub open spec fn aliases_of_decl(ds: Seq<CInitDeclarator>, decl: CDeclaration, source: Seq<char>) -> Seq<AliasV>
    decreases ds.len(),
{
    if ds.len() == 0 {
        Seq::empty()
    } else {
        let rest = aliases_of_decl(ds.drop_last(), decl, source);
        match ident_of(ds.last().declarator) {
            Some(i) => {
                let span = (sat_sub(i.start, decl.start), sat_sub(i.end, decl.start));
                rest.push(AliasV {
                    name: i.name@,
                    source_decl: byte_slice(source, decl.start as int, decl.end as int),
                    span: span,
                    typedef_refs: drop_span(rel_spans(decl.typedef_refs@, decl.start), span),
                    tags: rel_spans(decl.tag_names@, decl.start),
                    enum_consts: rel_spans(decl.enum_constants@, decl.start),
                })
            },
            None => rest,
        }
    }
}

pub open spec fn variadic_reason() -> Seq<char> {
    "variadic function (unsafe forwarding)"@
}

pub open spec fn unnamed_reason() -> Seq<char> {
    "unnamed function parameter not supported for wrapper generation"@
}

/// The functions a non-typedef declaration declares that get a shim, and the ones skipped
/// (variadic, or with an unnamed parameter).
pub open spec fn functions_of_decl(ds: Seq<CInitDeclarator>, decl: CDeclaration, source: Seq<char>, namespace: Seq<char>)
    -> (Seq<FunctionV>, Seq<(Seq<char>, Seq<char>)>)
    decreases ds.len(),
{
    if ds.len() == 0 {
        (Seq::empty(), Seq::empty())
    } else {
        let rest = functions_of_decl(ds.drop_last(), decl, source, namespace);
        match fun_decl_of(decl.specifiers@, ds.last(), namespace) {
            None => rest,
            Some(v) => if v.2 {
                (rest.0, rest.1.push((v.0, variadic_reason())))
            } else if exists|k: int| 0 <= k < v.3.len() && #[trigger] v.3[k].len() == 0 {
                (rest.0, rest.1.push((v.0, unnamed_reason())))
            } else {
                (rest.0.push(FunctionV {
                    name: v.0,
                    namespaced_name: namespaced_text(namespace, v.0),
                    atlas_signature: v.4,
                    source_decl: byte_slice(source, decl.start as int, decl.end as int),
                    span: (sat_sub(v.1.0, decl.start), sat_sub(v.1.1, decl.start)),
                    is_void_return: v.5,
                    typedef_refs: rel_spans(decl.typedef_refs@, decl.start),
                    convs: v.6,
                    ret: v.7,
                }), rest.1)
            },
        }
    }
}

/// Everything collected from the header's declarations.
pub struct CollectV {
    pub aliases: Seq<AliasV>,
    pub functions: Seq<FunctionV>,
    pub composites: Seq<(CompositeKind, Seq<char>, Seq<(Seq<char>, Seq<char>)>)>,
    pub enums: Seq<(Seq<char>, Seq<(Seq<char>, Option<Seq<char>>)>)>,
    pub skipped: Seq<(Seq<char>, Seq<char>)>,
}

/// What one declaration adds to what was collected before it.
pub open spec fn collect_step(acc: CollectV, decl: CDeclaration, source: Seq<char>, namespace: Seq<char>) -> CollectV {
    let typedef = is_typedef_specs(decl.specifiers@);
    let fs = if typedef {
        (Seq::<FunctionV>::empty(), Seq::<(Seq<char>, Seq<char>)>::empty())
    } else {
        functions_of_decl(decl.declarators@, decl, source, namespace)
    };
    CollectV {
        aliases: acc.aliases + (if typedef { aliases_of_decl(decl.declarators@, decl, source) } else { Seq::empty() }),
        functions: acc.functions + fs.0,
        composites: acc.composites + composites_from_specs(decl.specifiers@, typedef_alias_name(decl), namespace),
        enums: acc.enums + enums_from_specs(decl.specifiers@, typedef_alias_name(decl), source),
        skipped: acc.skipped + fn_pointer_skips(decl.declarators@) + fs.1,
    }
}

pub open spec fn collected(decls: Seq<CDeclaration>, source: Seq<char>, namespace: Seq<char>) -> CollectV
    decreases decls.len(),
{
    if decls.len() == 0 {
        CollectV { aliases: Seq::empty(), functions: Seq::empty(), composites: Seq::empty(), enums: Seq::empty(), skipped: Seq::empty() }
    } else {
        collect_step(collected(decls.drop_last(), source, namespace), decls.last(), source, namespace)
    }
}

/// The declarator is that of a variadic function.
pub open spec fn variadic_declarator(specs: Seq<CDeclSpecifier>, d: CInitDeclarator, namespace: Seq<char>) -> bool {
    match fun_decl_of(specs, d, namespace) {
        Some(v) => v.2,
        None => false,
    }
}

/// The declarator is that of a function that is not variadic and is called `name`.
pub open spec fn plain_function_named(specs: Seq<CDeclSpecifier>, d: CInitDeclarator, namespace: Seq<char>,
    name: Seq<char>) -> bool {
    match fun_decl_of(specs, d, namespace) {
        Some(v) => !v.2 && v.0 == name,
        None => false,
    }
}

/// The name of a function declarator.
pub open spec fn declared_name(specs: Seq<CDeclSpecifier>, d: CInitDeclarator, namespace: Seq<char>) -> Seq<char> {
    match fun_decl_of(specs, d, namespace) {
        Some(v) => v.0,
        None => Seq::empty(),
    }
}

proof fn lemma_functions_of_decl_variadic(ds: Seq<CInitDeclarator>, decl: CDeclaration, source: Seq<char>,
    namespace: Seq<char>)
    ensures
        forall|k: int| 0 <= k < ds.len() && variadic_declarator(decl.specifiers@, #[trigger] ds[k], namespace)
            ==> functions_of_decl(ds, decl, source, namespace).1.contains(
            (declared_name(decl.specifiers@, ds[k], namespace), variadic_reason())),
        forall|j: int| 0 <= j < functions_of_decl(ds, decl, source, namespace).0.len() ==> exists|k: int|
            0 <= k < ds.len() && plain_function_named(decl.specifiers@, #[trigger] ds[k], namespace,
                (#[trigger] functions_of_decl(ds, decl, source, namespace).0[j]).name),
    decreases ds.len(),
{
    if ds.len() > 0 {
        let rest = functions_of_decl(ds.drop_last(), decl, source, namespace);
        let all = functions_of_decl(ds, decl, source, namespace);
        lemma_functions_of_decl_variadic(ds.drop_last(), decl, source, namespace);
        assert forall|k: int| 0 <= k < ds.len() && variadic_declarator(decl.specifiers@, #[trigger] ds[k], namespace)
            implies all.1.contains((declared_name(decl.specifiers@, ds[k], namespace), variadic_reason())) by {
            if k < ds.len() - 1 {
                assert(ds.drop_last()[k] == ds[k]);
                let w = choose|q: int| 0 <= q < rest.1.len()
                    && rest.1[q] == (declared_name(decl.specifiers@, ds[k], namespace), variadic_reason());
                assert(all.1[w] == rest.1[w]);
            } else {
                assert(ds[k] == ds.last());
                assert(all.1.last() == (declared_name(decl.specifiers@, ds[k], namespace), variadic_reason()));
                assert(all.1[all.1.len() - 1] == all.1.last());
            }
        }
        assert forall|j: int| 0 <= j < all.0.len() implies exists|k: int| 0 <= k < ds.len()
            && plain_function_named(decl.specifiers@, #[trigger] ds[k], namespace, (#[trigger] all.0[j]).name) by {
            if j < rest.0.len() {
                assert(all.0[j] == rest.0[j]);
                let k = choose|k: int| 0 <= k < ds.drop_last().len()
                    && plain_function_named(decl.specifiers@, #[trigger] ds.drop_last()[k], namespace, rest.0[j].name);
                assert(ds.drop_last()[k] == ds[k]);
            } else {
                assert(plain_function_named(decl.specifiers@, ds[ds.len() - 1], namespace, all.0[j].name));
            }
        }
    }
}

/// Variadic functions are not forwarded: each variadic function that a declaration (not a
/// `typedef`) declares is listed among the skipped declarations with the reason
/// "variadic function (unsafe forwarding)", and every function that gets a wrapper and an
/// `extern` line comes from a declarator of a function that is not variadic.
pub proof fn lemma_variadic_functions_skipped(decls: Seq<CDeclaration>, source: Seq<char>, namespace: Seq<char>)
    ensures
        forall|i: int, k: int| 0 <= i < decls.len() && !is_typedef_specs(decls[i].specifiers@)
            && 0 <= k < decls[i].declarators@.len()
            && variadic_declarator(decls[i].specifiers@, #[trigger] decls[i].declarators@[k], namespace)
            ==> collected(decls, source, namespace).skipped.contains(
            (declared_name(decls[i].specifiers@, decls[i].declarators@[k], namespace), variadic_reason())),
        forall|j: int| 0 <= j < collected(decls, source, namespace).functions.len() ==> exists|i: int, k: int|
            0 <= i < decls.len() && 0 <= k < decls[i].declarators@.len() && plain_function_named(decls[i].specifiers@,
                #[trigger] decls[i].declarators@[k], namespace,
                (#[trigger] collected(decls, source, namespace).functions[j]).name),
    decreases decls.len(),
{
    if decls.len() > 0 {
        let prev = collected(decls.drop_last(), source, namespace);
        let all = collected(decls, source, namespace);
        let d = decls.last();
        lemma_variadic_functions_skipped(decls.drop_last(), source, namespace);
        lemma_functions_of_decl_variadic(d.declarators@, d, source, namespace);
        let typedef = is_typedef_specs(d.specifiers@);
        let fs = if typedef {
            (Seq::<FunctionV>::empty(), Seq::<(Seq<char>, Seq<char>)>::empty())
        } else {
            functions_of_decl(d.declarators@, d, source, namespace)
        };
        let mid = prev.skipped + fn_pointer_skips(d.declarators@);
        assert(all.skipped == mid + fs.1);
        assert(all.functions == prev.functions + fs.0);
        assert forall|i: int, k: int| 0 <= i < decls.len() && !is_typedef_specs(decls[i].specifiers@)
            && 0 <= k < decls[i].declarators@.len()
            && variadic_declarator(decls[i].specifiers@, #[trigger] decls[i].declarators@[k], namespace)
            implies all.skipped.contains(
            (declared_name(decls[i].specifiers@, decls[i].declarators@[k], namespace), variadic_reason())) by {
            let e = (declared_name(decls[i].specifiers@, decls[i].declarators@[k], namespace), variadic_reason());
            if i < decls.len() - 1 {
                assert(decls.drop_last()[i] == decls[i]);
                let w = choose|q: int| 0 <= q < prev.skipped.len() && prev.skipped[q] == e;
                assert(all.skipped[w] == prev.skipped[w]);
            } else {
                assert(decls[i] == d);
                let w = choose|q: int| 0 <= q < fs.1.len() && fs.1[q] == e;
                assert(all.skipped[mid.len() + w] == fs.1[w]);
            }
        }
        assert forall|j: int| 0 <= j < all.functions.len() implies exists|i: int, k: int|
            0 <= i < decls.len() && 0 <= k < decls[i].declarators@.len() && plain_function_named(decls[i].specifiers@,
                #[trigger] decls[i].declarators@[k], namespace, (#[trigger] all.functions[j]).name) by {
            if j < prev.functions.len() {
                assert(all.functions[j] == prev.functions[j]);
                let (i, k) = choose|i: int, k: int| 0 <= i < decls.drop_last().len()
                    && 0 <= k < decls.drop_last()[i].declarators@.len() && plain_function_named(
                    decls.drop_last()[i].specifiers@, #[trigger] decls.drop_last()[i].declarators@[k], namespace,
                    prev.functions[j].name);
                assert(decls.drop_last()[i] == decls[i]);
            } else {
                let jj = j - prev.functions.len();
                assert(all.functions[j] == fs.0[jj]);
                let k = choose|k: int| 0 <= k < d.declarators@.len()
                    && plain_function_named(d.specifiers@, #[trigger] d.declarators@[k], namespace, fs.0[jj].name);
                assert(decls[decls.len() - 1] == d);
            }
        }
    }
}

/// The declaration's pointer depths fit in a `usize`.
pub open spec fn decl_fits(decl: CDeclaration) -> bool {
    &&& specs_fit(decl.specifiers@)
    &&& forall|k: int| 0 <= k < decl.declarators@.len() ==> declarator_fits(#[trigger] decl.declarators@[k].declarator)
}

/// What the packaging collects from the header's declarations.
pub struct Collected {
    pub type_aliases: Vec<TypeAlias>,
    pub functions: Vec<FunctionDecl>,
    pub composites: Vec<CompositeDecl>,
    pub enums: Vec<EnumDecl>,
    pub skipped: Vec<SkipInfo>,
}

pub open spec fn collected_view(c: Collected) -> CollectV {
    CollectV {
        aliases: c.type_aliases@.map_values(|a: TypeAlias| alias_view(a)),
        functions: c.functions@.map_values(|f: FunctionDecl| function_view(f)),
        composites: composites_view(c.composites@),
        enums: enums_view(c.enums@),
        skipped: skips_view(c.skipped@),
    }
}


/// The spans other than `span`.
fn spans_without(refs: &Vec<(usize, usize, String)>, span: (usize, usize)) -> (r: Vec<(usize, usize, String)>)
    ensures
        reps_view(r@) == drop_span(reps_view(refs@), span),
{
    let mut out: Vec<(usize, usize, String)> = Vec::new();
    let mut k: usize = 0;
    while k < refs.len()
        invariant
            k <= refs.len(),
            reps_view(out@) == drop_span(reps_view(refs@.subrange(0, k as int)), span),
        decreases refs.len() - k,
    {
        let ghost prev = out@;
        proof {
            assert(reps_view(refs@.subrange(0, k + 1)).drop_last() =~= reps_view(refs@.subrange(0, k as int)));
            assert(reps_view(refs@.subrange(0, k + 1)).last() == (refs@[k as int].0, refs@[k as int].1, refs@[k as int].2@));
        }
        if !(refs[k].0 == span.0 && refs[k].1 == span.1) {
            out.push((refs[k].0, refs[k].1, refs[k].2.clone()));
            proof {
                assert(reps_view(out@) =~= reps_view(prev).push(reps_view(out@).last()));
            }
        }
        k = k + 1;
    }
    proof {
        assert(refs@.subrange(0, refs@.len() as int) =~= refs@);
    }
    out
}

fn has_empty_name(names: &Vec<String>) -> (b: bool)
    ensures
        b == exists|k: int| 0 <= k < names@.len() && #[trigger] names@[k]@.len() == 0,
{
    let mut k: usize = 0;
    while k < names.len()
        invariant
            k <= names.len(),
            forall|q: int| 0 <= q < k ==> #[trigger] names@[q]@.len() != 0,
        decreases names.len() - k,
    {
        if names[k].as_str().unicode_len() == 0 {
            return true;
        }
        k = k + 1;
    }
    false
}

/// Adds what one declaration contributes: its structs, unions and enums, its function
/// pointers as skipped, and then either its typedefs or its functions (shimmed or skipped).
pub fn collect_declaration(decl: &CDeclaration, source: &str, namespace: &str, acc: &mut Collected)
    requires
        decl_fits(*decl),
    ensures
        collected_view(*final(acc)) == collect_step(collected_view(*old(acc)), *decl, source@, namespace@),
{
    let ghost a0 = collected_view(*acc);
    let source_decl = slice_source(source, decl.start, decl.end);
    collect_composites_and_enums(decl, source, namespace, &mut acc.composites, &mut acc.enums, &mut acc.skipped);
    let typedef_rel = relative_spans(&decl.typedef_refs, decl.start);
    let tag_rel = relative_spans(&decl.tag_names, decl.start);
    let enum_rel = relative_spans(&decl.enum_constants, decl.start);
    let ghost sk1 = skips_view(acc.skipped@);
    let ghost fixed_a = acc.type_aliases@;
    let ghost fixed_f = acc.functions@;
    let ghost fixed_c = acc.composites@;
    let ghost fixed_e = acc.enums@;
    let ghost fixed_s = acc.skipped@;
    if is_typedef_decl(decl) {
        let ghost al0 = acc.type_aliases@.map_values(|a: TypeAlias| alias_view(a));
        let mut k: usize = 0;
        while k < decl.declarators.len()
            invariant
                k <= decl.declarators.len(),
                acc.functions@ == fixed_f,
                acc.composites@ == fixed_c,
                acc.enums@ == fixed_e,
                acc.skipped@ == fixed_s,
                source_decl@ == byte_slice(source@, decl.start as int, decl.end as int),
                reps_view(typedef_rel@) == rel_spans(decl.typedef_refs@, decl.start),
                reps_view(tag_rel@) == rel_spans(decl.tag_names@, decl.start),
                reps_view(enum_rel@) == rel_spans(decl.enum_constants@, decl.start),
                acc.type_aliases@.map_values(|a: TypeAlias| alias_view(a))
                    == al0 + aliases_of_decl(decl.declarators@.subrange(0, k as int), *decl, source@),
            decreases decl.declarators.len() - k,
        {
            let ghost prev = acc.type_aliases@;
            proof {
                let sub = decl.declarators@.subrange(0, k + 1);
                assert(sub.drop_last() =~= decl.declarators@.subrange(0, k as int));
                assert(sub.last() == decl.declarators@[k as int]);
            }
            match declarator_identifier_node(&decl.declarators[k].declarator) {
                Some((name, abs_span)) => {
                    let span = (saturating_minus(abs_span.0, decl.start), saturating_minus(abs_span.1, decl.start));
                    let alias = TypeAlias {
                        name,
                        source_decl: source_decl.clone(),
                        alias_name_span_rel: span,
                        typedef_ref_spans_rel: spans_without(&typedef_rel, span),
                        tag_name_spans_rel: clone_spans(&tag_rel),
                        enum_constant_spans_rel: clone_spans(&enum_rel),
                    };
                    acc.type_aliases.push(alias);
                    proof {
                        assert(acc.type_aliases@.map_values(|a: TypeAlias| alias_view(a))
                            =~= prev.map_values(|a: TypeAlias| alias_view(a)).push(alias_view(acc.type_aliases@.last())));
                    }
                },
                None => {},
            }
            k = k + 1;
        }
        proof {
            assert(decl.declarators@.subrange(0, decl.declarators@.len() as int) =~= decl.declarators@);
            assert(collected_view(*acc) =~= collect_step(a0, *decl, source@, namespace@));
        }
        return;
    }
    let ghost f0 = acc.functions@.map_values(|f: FunctionDecl| function_view(f));
    let mut k: usize = 0;
    while k < decl.declarators.len()
        invariant
            k <= decl.declarators.len(),
            decl_fits(*decl),
            acc.type_aliases@ == fixed_a,
            acc.composites@ == fixed_c,
            acc.enums@ == fixed_e,
            source_decl@ == byte_slice(source@, decl.start as int, decl.end as int),
            reps_view(typedef_rel@) == rel_spans(decl.typedef_refs@, decl.start),
            acc.functions@.map_values(|f: FunctionDecl| function_view(f))
                == f0 + functions_of_decl(decl.declarators@.subrange(0, k as int), *decl, source@, namespace@).0,
            skips_view(acc.skipped@)
                == sk1 + functions_of_decl(decl.declarators@.subrange(0, k as int), *decl, source@, namespace@).1,
        decreases decl.declarators.len() - k,
    {
        let ghost prev_f = acc.functions@;
        let ghost prev_s = acc.skipped@;
        proof {
            let sub = decl.declarators@.subrange(0, k + 1);
            assert(sub.drop_last() =~= decl.declarators@.subrange(0, k as int));
            assert(sub.last() == decl.declarators@[k as int]);
        }
        let ghost sub1 = decl.declarators@.subrange(0, k + 1);
        let ghost sub0 = decl.declarators@.subrange(0, k as int);
        let ghost before = functions_of_decl(sub0, *decl, source@, namespace@);
        let ghost after = functions_of_decl(sub1, *decl, source@, namespace@);
        proof {
            assert(sub1.drop_last() =~= sub0);
            assert(sub1.last() == decl.declarators@[k as int]);
            assert(after == match fun_decl_of(decl.specifiers@, decl.declarators@[k as int], namespace@) {
                None => before,
                Some(v) => if v.2 {
                    (before.0, before.1.push((v.0, variadic_reason())))
                } else if exists|q: int| 0 <= q < v.3.len() && #[trigger] v.3[q].len() == 0 {
                    (before.0, before.1.push((v.0, unnamed_reason())))
                } else {
                    (before.0.push(FunctionV {
                        name: v.0,
                        namespaced_name: namespaced_text(namespace@, v.0),
                        atlas_signature: v.4,
                        source_decl: byte_slice(source@, decl.start as int, decl.end as int),
                        span: (sat_sub(v.1.0, decl.start), sat_sub(v.1.1, decl.start)),
                        is_void_return: v.5,
                        typedef_refs: rel_spans(decl.typedef_refs@, decl.start),
                        convs: v.6,
                        ret: v.7,
                    }), before.1)
                },
            });
        }
        match extract_function_decl(&decl.specifiers, &decl.declarators[k], namespace) {
            None => {
                proof {
                    assert(acc.functions@.map_values(|f: FunctionDecl| function_view(f)) =~= f0 + after.0);
                    assert(skips_view(acc.skipped@) =~= sk1 + after.1);
                }
            },
            Some(fd) => {
                if fd.has_varargs {
                    acc.skipped.push(SkipInfo { name: fd.name, reason: String::from_str("variadic function (unsafe forwarding)") });
                    proof {
                        assert(skips_view(acc.skipped@) =~= skips_view(prev_s).push(skips_view(acc.skipped@).last()));
                        assert(skips_view(acc.skipped@) =~= sk1 + after.1);
                        assert(acc.functions@.map_values(|f: FunctionDecl| function_view(f)) =~= f0 + after.0);
                    }
                } else if has_empty_name(&fd.arg_names) {
                    proof {
                        let w = choose|q: int| 0 <= q < fd.arg_names@.len() && #[trigger] fd.arg_names@[q]@.len() == 0;
                        assert(views(fd.arg_names@)[w] == fd.arg_names@[w]@);
                        assert(views(fd.arg_names@)[w].len() == 0);
                    }
                    acc.skipped.push(SkipInfo {
                        name: fd.name,
                        reason: String::from_str("unnamed function parameter not supported for wrapper generation"),
                    });
                    proof {
                        assert(skips_view(acc.skipped@) =~= skips_view(prev_s).push(skips_view(acc.skipped@).last()));
                        assert(skips_view(acc.skipped@) =~= sk1 + after.1);
                        assert(acc.functions@.map_values(|f: FunctionDecl| function_view(f)) =~= f0 + after.0);
                    }
                } else {
                    proof {
                        let v = views(fd.arg_names@);
                        assert forall|q: int| 0 <= q < v.len() implies #[trigger] v[q].len() != 0 by {
                            assert(v[q] == fd.arg_names@[q]@);
                        }
                    }
                    let func = FunctionDecl {
                        namespaced_name: namespaced(namespace, fd.name.as_str()),
                        name: fd.name,
                        atlas_signature: fd.atlas_signature,
                        source_decl: source_decl.clone(),
                        function_name_span_rel: (saturating_minus(fd.span.0, decl.start), saturating_minus(fd.span.1, decl.start)),
                        is_void_return: fd.is_void_return,
                        typedef_ref_spans_rel: clone_spans(&typedef_rel),
                        param_conversions: fd.param_conversions,
                        return_conversion: fd.return_conversion,
                    };
                    acc.functions.push(func);
                    proof {
                        assert(acc.functions@.map_values(|f: FunctionDecl| function_view(f))
                            =~= prev_f.map_values(|f: FunctionDecl| function_view(f)).push(function_view(acc.functions@.last())));
                        assert(acc.functions@.map_values(|f: FunctionDecl| function_view(f)) =~= f0 + after.0);
                        assert(skips_view(acc.skipped@) =~= sk1 + after.1);
                    }
                }
            },
        }
        k = k + 1;
    }
    proof {
        assert(decl.declarators@.subrange(0, decl.declarators@.len() as int) =~= decl.declarators@);
        assert(collected_view(*acc) =~= collect_step(a0, *decl, source@, namespace@));
    }
}


/// Whether the declarations' pointer depths fit in a `usize` (see `decl_fits`).
pub fn declarations_fit(decls: &Vec<CDeclaration>) -> (b: bool)
    ensures
        b == forall|k: int| 0 <= k < decls@.len() ==> decl_fits(#[trigger] decls@[k]),
{
    let mut k: usize = 0;
    while k < decls.len()
        invariant
            k <= decls@.len(),
            forall|q: int| 0 <= q < k ==> decl_fits(#[trigger] decls@[q]),
        decreases decls.len() - k,
    {
        let decl = &decls[k];
        if !specifier_depths_fit(&decl.specifiers) {
            return false;
        }
        let mut j: usize = 0;
        while j < decl.declarators.len()
            invariant
                j <= decl.declarators@.len(),
                k < decls@.len(),
                *decl == decls@[k as int],
                forall|q: int| 0 <= q < j ==> declarator_fits(#[trigger] decl.declarators@[q].declarator),
            decreases decl.declarators.len() - j,
        {
            if !declarator_depths_fit(&decl.declarators[j].declarator) {
                proof {
                    assert(!decl_fits(decls@[k as int]));
                }
                return false;
            }
            j = j + 1;
        }
        k = k + 1;
    }
    true
}


/// The Atlas type of a C integer type keeps its signedness and its width: writing
/// `unsigned` before a signed C integer type (`short`, `int`, `long`, `long long`, with or
/// without `int`, or `signed` alone) gives the unsigned Atlas type of the same width, `u`
/// followed by the signed one (`unsigned short` is `uint16` where `short` is `int16`);
/// writing `signed` before it changes nothing. `unsigned char` is the unsigned type of the
/// width of `signed char`.
pub proof fn lemma_c_integer_signedness_kept(s: Seq<char>)
    requires
        s == "short"@ || s == "short int"@ || s == "int"@ || s == "long"@ || s == "long int"@
            || s == "long long"@ || s == "long long int"@,
    ensures
        primitive_atlas(s) matches Some(t) && has_prefix(t, "int"@)
            && primitive_atlas("unsigned "@ + s) == Some("u"@ + t)
            && primitive_atlas("signed "@ + s) == Some(t),
        primitive_atlas("unsigned"@) matches Some(u) && primitive_atlas("signed"@) matches Some(i) && u == "u"@ + i,
        primitive_atlas("unsigned char"@) matches Some(u) && primitive_atlas("signed char"@) matches Some(i)
            && u == "u"@ + i,
{
    reveal_strlit("void");
    reveal_strlit("char");
    reveal_strlit("unsigned char");
    reveal_strlit("signed char");
    reveal_strlit("short");
    reveal_strlit("short int");
    reveal_strlit("signed short");
    reveal_strlit("signed short int");
    reveal_strlit("unsigned short");
    reveal_strlit("unsigned short int");
    reveal_strlit("int");
    reveal_strlit("signed");
    reveal_strlit("signed int");
    reveal_strlit("unsigned");
    reveal_strlit("unsigned int");
    reveal_strlit("long");
    reveal_strlit("long int");
    reveal_strlit("signed long");
    reveal_strlit("signed long int");
    reveal_strlit("unsigned long");
    reveal_strlit("unsigned long int");
    reveal_strlit("long long");
    reveal_strlit("long long int");
    reveal_strlit("signed long long");
    reveal_strlit("signed long long int");
    reveal_strlit("unsigned long long");
    reveal_strlit("unsigned long long int");
    reveal_strlit("float");
    reveal_strlit("double");
    reveal_strlit("_Bool");
    reveal_strlit("bool");
    reveal_strlit("unit");
    reveal_strlit("uint8");
    reveal_strlit("int8");
    reveal_strlit("int16");
    reveal_strlit("uint16");
    reveal_strlit("int32");
    reveal_strlit("uint32");
    reveal_strlit("int64");
    reveal_strlit("uint64");
    reveal_strlit("float32");
    reveal_strlit("float64");
    reveal_strlit("u");
    reveal_strlit("unsigned ");
    reveal_strlit("signed ");
    assert("void"@.len() == 4);
    assert("char"@.len() == 4);
    assert("unsigned char"@.len() == 13);
    assert("signed char"@.len() == 11);
    assert("short"@.len() == 5);
    assert("short int"@.len() == 9);
    assert("signed short"@.len() == 12);
    assert("signed short int"@.len() == 16);
    assert("unsigned short"@.len() == 14);
    assert("unsigned short int"@.len() == 18);
    assert("int"@.len() == 3);
    assert("signed"@.len() == 6);
    assert("signed int"@.len() == 10);
    assert("unsigned"@.len() == 8);
    assert("unsigned int"@.len() == 12);
    assert("long"@.len() == 4);
    assert("long int"@.len() == 8);
    assert("signed long"@.len() == 11);
    assert("signed long int"@.len() == 15);
    assert("unsigned long"@.len() == 13);
    assert("unsigned long int"@.len() == 17);
    assert("long long"@.len() == 9);
    assert("long long int"@.len() == 13);
    assert("signed long long"@.len() == 16);
    assert("signed long long int"@.len() == 20);
    assert("unsigned long long"@.len() == 18);
    assert("unsigned long long int"@.len() == 22);
    assert("float"@.len() == 5);
    assert("double"@.len() == 6);
    assert("_Bool"@.len() == 5);
    assert("bool"@.len() == 4);
    assert("unit"@.len() == 4);
    assert("uint8"@.len() == 5);
    assert("int8"@.len() == 4);
    assert("int16"@.len() == 5);
    assert("uint16"@.len() == 6);
    assert("int32"@.len() == 5);
    assert("uint32"@.len() == 6);
    assert("int64"@.len() == 5);
    assert("uint64"@.len() == 6);
    assert("float32"@.len() == 7);
    assert("float64"@.len() == 7);
    assert("u"@.len() == 1);
    assert("unsigned "@.len() == 9);
    assert("signed "@.len() == 7);
    assert("u"@ + "int8"@ =~= "uint8"@);
    assert("u"@ + "int16"@ =~= "uint16"@);
    assert("u"@ + "int32"@ =~= "uint32"@);
    assert("u"@ + "int64"@ =~= "uint64"@);
    assert("unsigned "@ + "short"@ =~= "unsigned short"@);
    assert("unsigned "@ + "short int"@ =~= "unsigned short int"@);
    assert("unsigned "@ + "int"@ =~= "unsigned int"@);
    assert("unsigned "@ + "long"@ =~= "unsigned long"@);
    assert("unsigned "@ + "long int"@ =~= "unsigned long int"@);
    assert("unsigned "@ + "long long"@ =~= "unsigned long long"@);
    assert("unsigned "@ + "long long int"@ =~= "unsigned long long int"@);
    assert("signed "@ + "short"@ =~= "signed short"@);
    assert("signed "@ + "short int"@ =~= "signed short int"@);
    assert("signed "@ + "int"@ =~= "signed int"@);
    assert("signed "@ + "long"@ =~= "signed long"@);
    assert("signed "@ + "long int"@ =~= "signed long int"@);
    assert("signed "@ + "long long"@ =~= "signed long long"@);
    assert("signed "@ + "long long int"@ =~= "signed long long int"@);
    assert("unsigned int"@[0] != "signed short"@[0]);
    assert("long"@[0] != "void"@[0]);
    assert("long"@[0] != "char"@[0]);
    assert("unsigned long"@[9] != "unsigned char"@[9]);
    assert("signed long"@[7] != "signed char"@[7]);
    assert("long int"@[0] != "unsigned"@[0]);
    assert("long long"@[0] != "short int"@[0]);
    assert("unsigned long long"@[9] != "unsigned short int"@[9]);
    assert("signed long long"@[7] != "signed short int"@[7]);
    assert("long long int"@[0] != "unsigned char"@[0]);
    assert("long long int"@[0] != "unsigned long"@[0]);
    assert(primitive_atlas("short"@) == Some("int16"@));
    assert(primitive_atlas("unsigned short"@) == Some("uint16"@));
    assert(primitive_atlas("signed short"@) == Some("int16"@));
    assert(primitive_atlas("short int"@) == Some("int16"@));
    assert(primitive_atlas("unsigned short int"@) == Some("uint16"@));
    assert(primitive_atlas("signed short int"@) == Some("int16"@));
    assert(primitive_atlas("int"@) == Some("int32"@));
    assert(primitive_atlas("unsigned int"@) == Some("uint32"@));
    assert(primitive_atlas("signed int"@) == Some("int32"@));
    assert(primitive_atlas("long"@) == Some("int64"@));
    assert(primitive_atlas("unsigned long"@) == Some("uint64"@));
    assert(primitive_atlas("signed long"@) == Some("int64"@));
    assert(primitive_atlas("long int"@) == Some("int64"@));
    assert(primitive_atlas("unsigned long int"@) == Some("uint64"@));
    assert(primitive_atlas("signed long int"@) == Some("int64"@));
    assert(primitive_atlas("long long"@) == Some("int64"@));
    assert(primitive_atlas("unsigned long long"@) == Some("uint64"@));
    assert(primitive_atlas("signed long long"@) == Some("int64"@));
    assert(primitive_atlas("long long int"@) == Some("int64"@));
    assert(primitive_atlas("unsigned long long int"@) == Some("uint64"@));
    assert(primitive_atlas("signed long long int"@) == Some("int64"@));
    assert(primitive_atlas("unsigned"@) == Some("uint32"@));
    assert(primitive_atlas("signed"@) == Some("int32"@));
    assert(primitive_atlas("unsigned char"@) == Some("uint8"@));
    assert(primitive_atlas("signed char"@) == Some("int8"@));
    assert("int16"@.subrange(0, 3) =~= "int"@);
    assert("int32"@.subrange(0, 3) =~= "int"@);
    assert("int64"@.subrange(0, 3) =~= "int"@);
}


/// The Atlas type of a C integer type has the type's width in bits on the supported
/// targets (`signed char` 8, `short` 16, `int` 32, `long` and `long long` 64), and `float`
/// and `double` are the 32- and 64-bit floats.
pub proof fn lemma_c_numeric_widths()
    ensures
        primitive_atlas("signed char"@) == Some("int"@ + crate::text::nat_text(8)),
        primitive_atlas("short"@) == Some("int"@ + crate::text::nat_text(16)),
        primitive_atlas("short int"@) == Some("int"@ + crate::text::nat_text(16)),
        primitive_atlas("int"@) == Some("int"@ + crate::text::nat_text(32)),
        primitive_atlas("long"@) == Some("int"@ + crate::text::nat_text(64)),
        primitive_atlas("long int"@) == Some("int"@ + crate::text::nat_text(64)),
        primitive_atlas("long long"@) == Some("int"@ + crate::text::nat_text(64)),
        primitive_atlas("long long int"@) == Some("int"@ + crate::text::nat_text(64)),
        primitive_atlas("float"@) == Some("float"@ + crate::text::nat_text(32)),
        primitive_atlas("double"@) == Some("float"@ + crate::text::nat_text(64)),
{
    reveal_strlit("void");
    reveal_strlit("char");
    reveal_strlit("unsigned char");
    reveal_strlit("signed char");
    reveal_strlit("short");
    reveal_strlit("short int");
    reveal_strlit("signed short");
    reveal_strlit("signed short int");
    reveal_strlit("unsigned short");
    reveal_strlit("unsigned short int");
    reveal_strlit("int");
    reveal_strlit("signed");
    reveal_strlit("signed int");
    reveal_strlit("unsigned");
    reveal_strlit("unsigned int");
    reveal_strlit("long");
    reveal_strlit("long int");
    reveal_strlit("signed long");
    reveal_strlit("signed long int");
    reveal_strlit("unsigned long");
    reveal_strlit("unsigned long int");
    reveal_strlit("long long");
    reveal_strlit("long long int");
    reveal_strlit("signed long long");
    reveal_strlit("signed long long int");
    reveal_strlit("unsigned long long");
    reveal_strlit("unsigned long long int");
    reveal_strlit("float");
    reveal_strlit("double");
    reveal_strlit("_Bool");
    reveal_strlit("bool");
    reveal_strlit("unit");
    reveal_strlit("uint8");
    reveal_strlit("int8");
    reveal_strlit("int16");
    reveal_strlit("uint16");
    reveal_strlit("int32");
    reveal_strlit("uint32");
    reveal_strlit("int64");
    reveal_strlit("uint64");
    reveal_strlit("float32");
    reveal_strlit("float64");
    reveal_strlit("u");
    reveal_strlit("unsigned ");
    reveal_strlit("signed ");
    assert("void"@.len() == 4);
    assert("char"@.len() == 4);
    assert("unsigned char"@.len() == 13);
    assert("signed char"@.len() == 11);
    assert("short"@.len() == 5);
    assert("short int"@.len() == 9);
    assert("signed short"@.len() == 12);
    assert("signed short int"@.len() == 16);
    assert("unsigned short"@.len() == 14);
    assert("unsigned short int"@.len() == 18);
    assert("int"@.len() == 3);
    assert("signed"@.len() == 6);
    assert("signed int"@.len() == 10);
    assert("unsigned"@.len() == 8);
    assert("unsigned int"@.len() == 12);
    assert("long"@.len() == 4);
    assert("long int"@.len() == 8);
    assert("signed long"@.len() == 11);
    assert("signed long int"@.len() == 15);
    assert("unsigned long"@.len() == 13);
    assert("unsigned long int"@.len() == 17);
    assert("long long"@.len() == 9);
    assert("long long int"@.len() == 13);
    assert("signed long long"@.len() == 16);
    assert("signed long long int"@.len() == 20);
    assert("unsigned long long"@.len() == 18);
    assert("unsigned long long int"@.len() == 22);
    assert("float"@.len() == 5);
    assert("double"@.len() == 6);
    assert("_Bool"@.len() == 5);
    assert("bool"@.len() == 4);
    assert("unit"@.len() == 4);
    assert("uint8"@.len() == 5);
    assert("int8"@.len() == 4);
    assert("int16"@.len() == 5);
    assert("uint16"@.len() == 6);
    assert("int32"@.len() == 5);
    assert("uint32"@.len() == 6);
    assert("int64"@.len() == 5);
    assert("uint64"@.len() == 6);
    assert("float32"@.len() == 7);
    assert("float64"@.len() == 7);
    reveal_strlit("int");
    reveal_strlit("float");
    reveal_with_fuel(crate::text::nat_text, 3);
    assert(crate::text::nat_text(8) =~= seq!['8']);
    assert(crate::text::nat_text(16) =~= seq!['1', '6']);
    assert(crate::text::nat_text(32) =~= seq!['3', '2']);
    assert(crate::text::nat_text(64) =~= seq!['6', '4']);
    assert("int"@ + crate::text::nat_text(8) =~= "int8"@);
    assert("int"@ + crate::text::nat_text(16) =~= "int16"@);
    assert("int"@ + crate::text::nat_text(32) =~= "int32"@);
    assert("int"@ + crate::text::nat_text(64) =~= "int64"@);
    assert("float"@ + crate::text::nat_text(32) =~= "float32"@);
    assert("float"@ + crate::text::nat_text(64) =~= "float64"@);
    assert("long"@[0] != "void"@[0]);
    assert("long"@[0] != "char"@[0]);
    assert("long int"@[0] != "unsigned"@[0]);
    assert("long long"@[0] != "short int"@[0]);
    assert("long long int"@[0] != "unsigned char"@[0]);
    assert("long long int"@[0] != "unsigned long"@[0]);
    assert("float"@[0] != "short"@[0]);
    assert("double"@[0] != "signed"@[0]);
    assert(primitive_atlas("signed char"@) == Some("int8"@));
    assert(primitive_atlas("short"@) == Some("int16"@));
    assert(primitive_atlas("short int"@) == Some("int16"@));
    assert(primitive_atlas("int"@) == Some("int32"@));
    assert(primitive_atlas("long"@) == Some("int64"@));
    assert(primitive_atlas("long int"@) == Some("int64"@));
    assert(primitive_atlas("long long"@) == Some("int64"@));
    assert(primitive_atlas("long long int"@) == Some("int64"@));
    assert(primitive_atlas("float"@) == Some("float32"@));
    assert(primitive_atlas("double"@) == Some("float64"@));
}

} // verus!
