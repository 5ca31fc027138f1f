//! The structs, unions and enums a header defines, as the Atlas module declares them.
use vstd::prelude::*;
use vstd::string::StringExecFns;
use crate::text::{byte_slice, stars};
use super::cdecl::{checked_pointer_depth, declarator_identifier_node, declarator_pointer_depth, ident_of, is_typedef_decl,
    is_typedef_specs, pointer_depth, sq_atlas_type, atlas_type_from_specifier_qualifiers,
    contains_function_pointer, has_function_pointer, CDeclSpecifier, CDeclaration, CDeclarator, CEnumType,
    CEnumerator, CIdent, CInitDeclarator, CStructDeclaration, CStructField, CStructType, CTypeSpecifier};
use super::{pointer_wrap, slice_source, SkipInfo};

verus! {

#[derive(Debug, Clone, Copy, PartialEq, Eq, Structural)]
pub enum CompositeKind {
    Struct,
    Union,
}

/// A member of a struct or union, with its Atlas type.
#[derive(Debug)]
pub struct CompositeField {
    pub name: String,
    pub ty: String,
}

/// A struct or union of the header.
#[derive(Debug)]
pub struct CompositeDecl {
    pub kind: CompositeKind,
    pub name: String,
    pub fields: Vec<CompositeField>,
}

/// An enumerator, with the source text of its value when it has one.
#[derive(Debug)]
pub struct EnumVariant {
    pub name: String,
    pub value: Option<String>,
}

/// An enum of the header.
#[derive(Debug)]
pub struct EnumDecl {
    pub name: String,
    pub variants: Vec<EnumVariant>,
}

pub open spec fn field_view(f: CompositeField) -> (Seq<char>, Seq<char>) {
    (f.name@, f.ty@)
}

pub open spec fn fields_view(fs: Seq<CompositeField>) -> Seq<(Seq<char>, Seq<char>)> {
    fs.map_values(|f: CompositeField| field_view(f))
}

pub open spec fn composite_view(c: CompositeDecl) -> (CompositeKind, Seq<char>, Seq<(Seq<char>, Seq<char>)>) {
    (c.kind, c.name@, fields_view(c.fields@))
}

pub open spec fn composites_view(cs: Seq<CompositeDecl>) -> Seq<(CompositeKind, Seq<char>, Seq<(Seq<char>, Seq<char>)>)> {
    cs.map_values(|c: CompositeDecl| composite_view(c))
}

pub open spec fn opt_view(o: Option<String>) -> Option<Seq<char>> {
    match o {
        Some(s) => Some(s@),
        None => None,
    }
}

pub open spec fn variant_view(v: EnumVariant) -> (Seq<char>, Option<Seq<char>>) {
    (v.name@, opt_view(v.value))
}

pub open spec fn enum_view(e: EnumDecl) -> (Seq<char>, Seq<(Seq<char>, Option<Seq<char>>)>) {
    (e.name@, e.variants@.map_values(|v: EnumVariant| variant_view(v)))
}

pub open spec fn enums_view(es: Seq<EnumDecl>) -> Seq<(Seq<char>, Seq<(Seq<char>, Option<Seq<char>>)>)> {
    es.map_values(|e: EnumDecl| enum_view(e))
}

pub open spec fn skip_view(s: SkipInfo) -> (Seq<char>, Seq<char>) {
    (s.name@, s.reason@)
}

pub open spec fn skips_view(ss: Seq<SkipInfo>) -> Seq<(Seq<char>, Seq<char>)> {
    ss.map_values(|s: SkipInfo| skip_view(s))
}

/// The pointer depths of a member declaration's declarators fit in a `usize`.
pub open spec fn field_fits(f: CStructField) -> bool {
    forall|k: int| 0 <= k < f.declarators@.len() ==> (#[trigger] f.declarators@[k] matches Some(d) ==> pointer_depth(d) <= usize::MAX)
}

/// The pointer depths of a struct body's declarators fit in a `usize`.
pub open spec fn struct_fits(st: CStructType) -> bool {
    st.declarations matches Some(ds) ==> forall|k: int| 0 <= k < ds@.len() ==> (#[trigger] ds@[k] matches CStructDeclaration::Field(f) ==> field_fits(f))
}

/// The members that a member declaration declares: each named declarator, with the
/// specifiers' Atlas type behind its pointer markers.
pub open spec fn members_of_field(ds: Seq<Option<CDeclarator>>, base: Seq<char>) -> Seq<(Seq<char>, Seq<char>)>
    decreases ds.len(),
{
    if ds.len() == 0 {
        Seq::empty()
    } else {
        let rest = members_of_field(ds.drop_last(), base);
        match ds.last() {
            Some(d) => match ident_of(d) {
                Some(i) => rest.push((i.name@, stars(pointer_depth(d)) + base)),
                None => rest,
            },
            None => rest,
        }
    }
}

/// Appends the members that a member declaration declares.
pub fn collect_fields_from_struct_field(field: &CStructField, namespace: &str, out: &mut Vec<CompositeField>)
    requires
        field_fits(*field),
    ensures
        fields_view(final(out)@) == fields_view(old(out)@) + members_of_field(field.declarators@,
            sq_atlas_type(field.specifiers@, namespace@)),
{
    let base = atlas_type_from_specifier_qualifiers(&field.specifiers, namespace);
    let ghost start = fields_view(out@);
    let mut k: usize = 0;
    while k < field.declarators.len()
        invariant
            k <= field.declarators.len(),
            field_fits(*field),
            fields_view(out@) == start + members_of_field(field.declarators@.subrange(0, k as int), base@),
        decreases field.declarators.len() - k,
    {
        let ghost prev = out@;
        proof {
            let sub = field.declarators@.subrange(0, k + 1);
            assert(sub.drop_last() =~= field.declarators@.subrange(0, k as int));
            assert(sub.last() == field.declarators@[k as int]);
        }
        match &field.declarators[k] {
            Some(named_decl) => match declarator_identifier_node(named_decl) {
                Some((name, _)) => {
                    let depth = declarator_pointer_depth(named_decl);
                    let ty = pointer_wrap(base.clone(), depth);
                    out.push(CompositeField { name, ty });
                    proof {
                        assert(fields_view(out@) =~= fields_view(prev).push(field_view(out@.last())));
                    }
                },
                None => {},
            },
            None => {},
        }
        k = k + 1;
    }
    proof {
        assert(field.declarators@.subrange(0, field.declarators@.len() as int) =~= field.declarators@);
    }
}

/// The members of a struct body.
pub open spec fn members_of_body(ds: Seq<CStructDeclaration>, namespace: Seq<char>) -> Seq<(Seq<char>, Seq<char>)>
    decreases ds.len(),
{
    if ds.len() == 0 {
        Seq::empty()
    } else {
        members_of_body(ds.drop_last(), namespace) + match ds.last() {
            CStructDeclaration::Field(f) => members_of_field(f.declarators@, sq_atlas_type(f.specifiers@, namespace)),
            CStructDeclaration::StaticAssert => Seq::empty(),
        }
    }
}

/// Appends the members of a member declaration (static assertions declare none).
pub fn collect_fields_from_struct_decl(field_decl: &CStructDeclaration, namespace: &str, out: &mut Vec<CompositeField>)
    requires
        *field_decl matches CStructDeclaration::Field(f) ==> field_fits(f),
    ensures
        fields_view(final(out)@) == fields_view(old(out)@) + match *field_decl {
            CStructDeclaration::Field(f) => members_of_field(f.declarators@, sq_atlas_type(f.specifiers@, namespace@)),
            CStructDeclaration::StaticAssert => Seq::empty(),
        },
{
    match field_decl {
        CStructDeclaration::Field(field_node) => collect_fields_from_struct_field(field_node, namespace, out),
        CStructDeclaration::StaticAssert => {
            proof {
                assert(fields_view(out@) =~= fields_view(out@) + Seq::<(Seq<char>, Seq<char>)>::empty());
            }
        },
    }
}

/// The name a struct, union or enum goes by: its tag, else the typedef name it is
/// declared under.
pub open spec fn tag_or(identifier: Option<CIdent>, fallback: Option<Seq<char>>) -> Option<Seq<char>> {
    match identifier {
        Some(i) => Some(i.name@),
        None => fallback,
    }
}

/// The composite a struct or union specifier defines, when it has a name.
pub open spec fn composite_of(st: CStructType, fallback: Option<Seq<char>>, namespace: Seq<char>)
    -> Option<(CompositeKind, Seq<char>, Seq<(Seq<char>, Seq<char>)>)>
{
    match tag_or(st.identifier, fallback) {
        Some(name) => Some((if st.is_union { CompositeKind::Union } else { CompositeKind::Struct }, name,
            match st.declarations {
                Some(ds) => members_of_body(ds@, namespace),
                None => Seq::empty(),
            })),
        None => None,
    }
}

pub open spec fn str_opt(o: Option<&str>) -> Option<Seq<char>> {
    match o {
        Some(f) => Some(f@),
        None => None,
    }
}

/// The composite a struct or union specifier defines, when it has a name.
pub fn build_composite_from_struct(st: &CStructType, fallback_name: Option<&str>, namespace: &str) -> (r: Option<CompositeDecl>)
    requires
        struct_fits(*st),
    ensures
        match composite_of(*st, str_opt(fallback_name), namespace@) {
            Some(v) => r matches Some(c) && composite_view(c) == v,
            None => r is None,
        },
{
    let kind = if st.is_union { CompositeKind::Union } else { CompositeKind::Struct };
    let name = match &st.identifier {
        Some(v) => v.name.clone(),
        None => match fallback_name {
            Some(f) => String::from_str(f),
            None => return None,
        },
    };
    let mut fields: Vec<CompositeField> = Vec::new();
    match &st.declarations {
        Some(decls) => {
            let mut k: usize = 0;
            while k < decls.len()
                invariant
                    k <= decls.len(),
                    st.declarations == Some(*decls),
                    struct_fits(*st),
                    fields_view(fields@) == members_of_body(decls@.subrange(0, k as int), namespace@),
                decreases decls.len() - k,
            {
                proof {
                    let sub = decls@.subrange(0, k + 1);
                    assert(sub.drop_last() =~= decls@.subrange(0, k as int));
                    assert(sub.last() == decls@[k as int]);
                }
                collect_fields_from_struct_decl(&decls[k], namespace, &mut fields);
                k = k + 1;
            }
            proof {
                assert(decls@.subrange(0, decls@.len() as int) =~= decls@);
            }
        },
        None => {},
    }
    proof {
        assert(fields_view(fields@) =~= match st.declarations {
            Some(ds) => members_of_body(ds@, namespace@),
            None => Seq::empty(),
        });
    }
    Some(CompositeDecl { kind, name, fields })
}

/// An enumerator as plain values: its name, and the source text of its value.
pub open spec fn enumerator_view(e: CEnumerator, source: Seq<char>) -> (Seq<char>, Option<Seq<char>>) {
    (e.identifier.name@, match e.expression {
        Some(sp) => Some(byte_slice(source, sp.0 as int, sp.1 as int)),
        None => None,
    })
}

/// The enum an enum specifier defines, when it has a name.
pub open spec fn enum_of(en: CEnumType, fallback: Option<Seq<char>>, source: Seq<char>)
    -> Option<(Seq<char>, Seq<(Seq<char>, Option<Seq<char>>)>)>
{
    match tag_or(en.identifier, fallback) {
        Some(name) => Some((name, en.enumerators@.map_values(|e: CEnumerator| enumerator_view(e, source)))),
        None => None,
    }
}

/// The enum an enum specifier defines, when it has a name.
pub fn build_enum_from_enum_type(en: &CEnumType, fallback_name: Option<&str>, source: &str) -> (r: Option<EnumDecl>)
    ensures
        match enum_of(*en, str_opt(fallback_name), source@) {
            Some(v) => r matches Some(e) && enum_view(e) == v,
            None => r is None,
        },
{
    let name = match &en.identifier {
        Some(v) => v.name.clone(),
        None => match fallback_name {
            Some(f) => String::from_str(f),
            None => return None,
        },
    };
    let mut variants: Vec<EnumVariant> = Vec::new();
    let mut k: usize = 0;
    while k < en.enumerators.len()
        invariant
            k <= en.enumerators.len(),
            variants@.len() == k,
            forall|q: int| 0 <= q < k ==> #[trigger] variant_view(variants@[q]) == enumerator_view(en.enumerators@[q], source@),
        decreases en.enumerators.len() - k,
    {
        let entry = &en.enumerators[k];
        let value = match entry.expression {
            Some((s, e)) => Some(slice_source(source, s, e)),
            None => None,
        };
        let ghost prev = variants@;
        variants.push(EnumVariant { name: entry.identifier.name.clone(), value });
        proof {
            assert(forall|q: int| 0 <= q < k ==> variants@[q] == prev[q]);
        }
        k = k + 1;
    }
    let r = EnumDecl { name, variants };
    proof {
        assert(enum_view(r).1 =~= en.enumerators@.map_values(|e: CEnumerator| enumerator_view(e, source@)));
    }
    Some(r)
}

/// The name of the first declarator that declares one.
pub open spec fn first_declared_name(ds: Seq<CInitDeclarator>) -> Option<Seq<char>>
    decreases ds.len(),
{
    if ds.len() == 0 {
        None
    } else {
        match ident_of(ds[0].declarator) {
            Some(i) => Some(i.name@),
            None => first_declared_name(ds.drop_first()),
        }
    }
}

/// For a typedef, the name it declares (the first one).
pub open spec fn typedef_alias_name(decl: CDeclaration) -> Option<Seq<char>> {
    if is_typedef_specs(decl.specifiers@) {
        first_declared_name(decl.declarators@)
    } else {
        None
    }
}

/// The struct specifiers of a declaration have member depths that fit in a `usize`.
pub open spec fn specs_fit(specs: Seq<CDeclSpecifier>) -> bool {
    forall|k: int| 0 <= k < specs.len() ==> (#[trigger] specs[k] matches CDeclSpecifier::TypeSpecifier(CTypeSpecifier::Struct(st)) ==> struct_fits(st))
}

/// The named structs and unions that the specifiers define, in order.
pub open spec fn composites_from_specs(specs: Seq<CDeclSpecifier>, alias: Option<Seq<char>>, namespace: Seq<char>)
    -> Seq<(CompositeKind, Seq<char>, Seq<(Seq<char>, Seq<char>)>)>
    decreases specs.len(),
{
    if specs.len() == 0 {
        Seq::empty()
    } else {
        let rest = composites_from_specs(specs.drop_last(), alias, namespace);
        match specs.last() {
            CDeclSpecifier::TypeSpecifier(CTypeSpecifier::Struct(st)) => match composite_of(st, alias, namespace) {
                Some(c) => rest.push(c),
                None => rest,
            },
            _ => rest,
        }
    }
}

/// The named enums that the specifiers define, in order.
pub open spec fn enums_from_specs(specs: Seq<CDeclSpecifier>, alias: Option<Seq<char>>, source: Seq<char>)
    -> Seq<(Seq<char>, Seq<(Seq<char>, Option<Seq<char>>)>)>
    decreases specs.len(),
{
    if specs.len() == 0 {
        Seq::empty()
    } else {
        let rest = enums_from_specs(specs.drop_last(), alias, source);
        match specs.last() {
            CDeclSpecifier::TypeSpecifier(CTypeSpecifier::Enum(en)) => match enum_of(en, alias, source) {
                Some(e) => rest.push(e),
                None => rest,
            },
            _ => rest,
        }
    }
}

pub open spec fn fn_pointer_reason() -> Seq<char> {
    "function-pointer declaration emits as *uint8 in .atlas"@
}

/// The declared function pointers, which the Atlas module cannot express.
pub open spec fn fn_pointer_skips(ds: Seq<CInitDeclarator>) -> Seq<(Seq<char>, Seq<char>)>
    decreases ds.len(),
{
    if ds.len() == 0 {
        Seq::empty()
    } else {
        let rest = fn_pointer_skips(ds.drop_last());
        let d = ds.last().declarator;
        if has_function_pointer(d) {
            match ident_of(d) {
                Some(i) => rest.push((i.name@, fn_pointer_reason())),
                None => rest,
            }
        } else {
            rest
        }
    }
}

fn alias_name_of(decl: &CDeclaration) -> (r: Option<String>)
    ensures
        match typedef_alias_name(*decl) {
            Some(n) => r matches Some(s) && s@ == n,
            None => r is None,
        },
{
    if !is_typedef_decl(decl) {
        return None;
    }
    let mut k: usize = 0;
    proof {
        assert(decl.declarators@.subrange(0, decl.declarators@.len() as int) =~= decl.declarators@);
    }
    while k < decl.declarators.len()
        invariant
            k <= decl.declarators.len(),
            is_typedef_specs(decl.specifiers@),
            first_declared_name(decl.declarators@)
                == first_declared_name(decl.declarators@.subrange(k as int, decl.declarators@.len() as int)),
        decreases decl.declarators.len() - k,
    {
        proof {
            let rest = decl.declarators@.subrange(k as int, decl.declarators@.len() as int);
            assert(rest.drop_first() =~= decl.declarators@.subrange(k + 1, decl.declarators@.len() as int));
            assert(rest[0] == decl.declarators@[k as int]);
        }
        match declarator_identifier_node(&decl.declarators[k].declarator) {
            Some((n, _)) => {
                return Some(n);
            },
            None => {},
        }
        k = k + 1;
    }
    None
}

/// Appends the structs, unions and enums a declaration defines, and the function pointers
/// it declares as skipped.
pub fn collect_composites_and_enums(decl: &CDeclaration, source: &str, namespace: &str,
    composites: &mut Vec<CompositeDecl>, enums: &mut Vec<EnumDecl>, skipped: &mut Vec<SkipInfo>)
    requires
        specs_fit(decl.specifiers@),
    ensures
        composites_view(final(composites)@) == composites_view(old(composites)@)
            + composites_from_specs(decl.specifiers@, typedef_alias_name(*decl), namespace@),
        enums_view(final(enums)@) == enums_view(old(enums)@)
            + enums_from_specs(decl.specifiers@, typedef_alias_name(*decl), source@),
        skips_view(final(skipped)@) == skips_view(old(skipped)@) + fn_pointer_skips(decl.declarators@),
{
    let alias = alias_name_of(decl);
    let fallback: Option<&str> = match &alias {
        Some(a) => Some(a.as_str()),
        None => None,
    };
    let ghost alias_v = typedef_alias_name(*decl);
    let ghost c0 = composites_view(composites@);
    let ghost e0 = enums_view(enums@);
    let mut k: usize = 0;
    while k < decl.specifiers.len()
        invariant
            k <= decl.specifiers.len(),
            specs_fit(decl.specifiers@),
            str_opt(fallback) == alias_v,
            composites_view(composites@) == c0 + composites_from_specs(decl.specifiers@.subrange(0, k as int), alias_v, namespace@),
            enums_view(enums@) == e0 + enums_from_specs(decl.specifiers@.subrange(0, k as int), alias_v, source@),
        decreases decl.specifiers.len() - k,
    {
        let ghost pc = composites@;
        let ghost pe = enums@;
        proof {
            let sub = decl.specifiers@.subrange(0, k + 1);
            assert(sub.drop_last() =~= decl.specifiers@.subrange(0, k as int));
            assert(sub.last() == decl.specifiers@[k as int]);
        }
        match &decl.specifiers[k] {
            CDeclSpecifier::TypeSpecifier(CTypeSpecifier::Struct(st)) => {
                match build_composite_from_struct(st, fallback, namespace) {
                    Some(comp) => {
                        composites.push(comp);
                        proof {
                            assert(composites_view(composites@) =~= composites_view(pc).push(composite_view(composites@.last())));
                        }
                    },
                    None => {},
                }
            },
            CDeclSpecifier::TypeSpecifier(CTypeSpecifier::Enum(en)) => {
                match build_enum_from_enum_type(en, fallback, source) {
                    Some(e) => {
                        enums.push(e);
                        proof {
                            assert(enums_view(enums@) =~= enums_view(pe).push(enum_view(enums@.last())));
                        }
                    },
                    None => {},
                }
            },
            _ => {},
        }
        k = k + 1;
    }
    proof {
        assert(decl.specifiers@.subrange(0, decl.specifiers@.len() as int) =~= decl.specifiers@);
    }
    let ghost s0 = skips_view(skipped@);
    let mut k: usize = 0;
    while k < decl.declarators.len()
        invariant
            k <= decl.declarators.len(),
            skips_view(skipped@) == s0 + fn_pointer_skips(decl.declarators@.subrange(0, k as int)),
        decreases decl.declarators.len() - k,
    {
        let ghost ps = skipped@;
        proof {
            let sub = decl.declarators@.subrange(0, k + 1);
            assert(sub.drop_last() =~= decl.declarators@.subrange(0, k as int));
            assert(sub.last() == decl.declarators@[k as int]);
        }
        let decl_node = &decl.declarators[k].declarator;
        if contains_function_pointer(decl_node) {
            match declarator_identifier_node(decl_node) {
                Some((name, _)) => {
                    skipped.push(SkipInfo {
                        name,
                        reason: String::from_str("function-pointer declaration emits as *uint8 in .atlas"),
                    });
                    proof {
                        assert(skips_view(skipped@) =~= skips_view(ps).push(skip_view(skipped@.last())));
                    }
                },
                None => {},
            }
        }
        k = k + 1;
    }
    proof {
        assert(decl.declarators@.subrange(0, decl.declarators@.len() as int) =~= decl.declarators@);
    }
}


/// Whether a member declaration's pointer depths fit in a `usize` (see `field_fits`).
pub fn field_depths_fit(f: &CStructField) -> (b: bool)
    ensures
        b == field_fits(*f),
{
    let mut k: usize = 0;
    while k < f.declarators.len()
        invariant
            k <= f.declarators@.len(),
            forall|q: int| 0 <= q < k ==> (#[trigger] f.declarators@[q] matches Some(d) ==> pointer_depth(d) <= usize::MAX),
        decreases f.declarators.len() - k,
    {
        match &f.declarators[k] {
            Some(d) => {
                if checked_pointer_depth(d).is_none() {
                    return false;
                }
            },
            None => {},
        }
        k = k + 1;
    }
    true
}

/// Whether a struct body's pointer depths fit in a `usize` (see `struct_fits`).
pub fn struct_depths_fit(st: &CStructType) -> (b: bool)
    ensures
        b == struct_fits(*st),
{
    match &st.declarations {
        Some(ds) => {
            let mut k: usize = 0;
            while k < ds.len()
                invariant
                    k <= ds@.len(),
                    st.declarations == Some(*ds),
                    forall|q: int| 0 <= q < k ==> (#[trigger] ds@[q] matches CStructDeclaration::Field(f) ==> field_fits(f)),
                decreases ds.len() - k,
            {
                match &ds[k] {
                    CStructDeclaration::Field(f) => {
                        if !field_depths_fit(f) {
                            return false;
                        }
                    },
                    _ => {},
                }
                k = k + 1;
            }
            true
        },
        None => true,
    }
}

/// Whether the struct specifiers' pointer depths fit in a `usize` (see `specs_fit`).
pub fn specifier_depths_fit(specs: &Vec<CDeclSpecifier>) -> (b: bool)
    ensures
        b == specs_fit(specs@),
{
    let mut k: usize = 0;
    while k < specs.len()
        invariant
            k <= specs@.len(),
            forall|q: int| 0 <= q < k ==> (#[trigger] specs@[q] matches CDeclSpecifier::TypeSpecifier(CTypeSpecifier::Struct(st)) ==> struct_fits(st)),
        decreases specs.len() - k,
    {
        match &specs[k] {
            CDeclSpecifier::TypeSpecifier(CTypeSpecifier::Struct(st)) => {
                if !struct_depths_fit(st) {
                    return false;
                }
            },
            _ => {},
        }
        k = k + 1;
    }
    true
}

} // verus!
