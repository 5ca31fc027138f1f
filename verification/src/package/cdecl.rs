//! The parts of a parsed C declaration that the packaging reads, as plain values, and what
//! it computes from them: declared names, pointer depths, Atlas types and signatures.
use vstd::prelude::*;
use vstd::string::StringExecFns;
use crate::text::{join, join_strings, nat_text, push_usize, stars, views};
use super::{atlas_type_text, c_type_string_to_atlas, param_view, pointer_wrap, ParamConversion, ReturnConversion};

verus! {

/// An identifier and its byte span in the preprocessed source.
#[derive(Debug)]
pub struct CIdent {
    pub name: String,
    pub start: usize,
    pub end: usize,
}

#[derive(Debug)]
pub enum CTypeSpecifier {
    Void,
    Char,
    Short,
    Int,
    Long,
    Float,
    Double,
    Signed,
    Unsigned,
    Bool,
    TypedefName(CIdent),
    Struct(CStructType),
    Enum(CEnumType),
    /// Any other specifier (complex numbers, `typeof`, ...), which names no type word.
    Other,
}

/// A `struct` or `union` specifier, with its member declarations when it has a body.
#[derive(Debug)]
pub struct CStructType {
    pub is_union: bool,
    pub identifier: Option<CIdent>,
    pub declarations: Option<Vec<CStructDeclaration>>,
}

#[derive(Debug)]
pub enum CStructDeclaration {
    Field(CStructField),
    StaticAssert,
}

/// Member declarations sharing specifiers; a declarator may be missing (bit-field padding).
#[derive(Debug)]
pub struct CStructField {
    pub specifiers: Vec<CSpecifierQualifier>,
    pub declarators: Vec<Option<CDeclarator>>,
}

#[derive(Debug)]
pub enum CSpecifierQualifier {
    TypeSpecifier(CTypeSpecifier),
    /// A qualifier or extension.
    Other,
}

#[derive(Debug)]
pub struct CEnumType {
    pub identifier: Option<CIdent>,
    pub enumerators: Vec<CEnumerator>,
}

/// An enumerator, with the byte span of its value expression when it has one.
#[derive(Debug)]
pub struct CEnumerator {
    pub identifier: CIdent,
    pub expression: Option<(usize, usize)>,
}

#[derive(Debug)]
pub enum CDeclSpecifier {
    /// The `typedef` storage class.
    Typedef,
    /// Another storage class.
    OtherStorageClass,
    TypeSpecifier(CTypeSpecifier),
    /// A qualifier, function specifier, alignment or extension.
    Other,
}

#[derive(Debug)]
pub enum CDeclaratorKind {
    Abstract,
    Identifier(CIdent),
    Declarator(Box<CDeclarator>),
}

/// What a declarator adds to the type, in the order written.
#[derive(Debug)]
pub enum CDerived {
    Pointer,
    Array,
    Function(CFunctionDeclarator),
    KRFunction,
    Block,
}

#[derive(Debug)]
pub struct CDeclarator {
    pub kind: CDeclaratorKind,
    pub derived: Vec<CDerived>,
}

#[derive(Debug)]
pub struct CFunctionDeclarator {
    pub parameters: Vec<CParameter>,
    /// Whether the parameter list ends in `...`.
    pub ellipsis: bool,
}

#[derive(Debug)]
pub struct CParameter {
    pub specifiers: Vec<CDeclSpecifier>,
    pub declarator: Option<CDeclarator>,
}

#[derive(Debug)]
pub struct CInitDeclarator {
    pub declarator: CDeclarator,
    pub has_initializer: bool,
}

/// A top-level declaration with its byte span, and the spans (absolute) of the names in
/// it: typedef names used, struct/union/enum tags, and enumerators.
#[derive(Debug)]
pub struct CDeclaration {
    pub specifiers: Vec<CDeclSpecifier>,
    pub declarators: Vec<CInitDeclarator>,
    pub start: usize,
    pub end: usize,
    pub typedef_refs: Vec<(usize, usize, String)>,
    pub tag_names: Vec<(usize, usize, String)>,
    pub enum_constants: Vec<(usize, usize, String)>,
}

/// The identifier a declarator declares, looking through nested declarators.
pub open spec fn ident_of(d: CDeclarator) -> Option<CIdent>
    decreases d,
{
    match d.kind {
        CDeclaratorKind::Identifier(i) => Some(i),
        CDeclaratorKind::Declarator(inner) => ident_of(*inner),
        CDeclaratorKind::Abstract => None,
    }
}

/// The declared name and its span.
pub fn declarator_identifier_node(declarator: &CDeclarator) -> (r: Option<(String, (usize, usize))>)
    ensures
        match ident_of(*declarator) {
            Some(i) => r matches Some(x) && x.0@ == i.name@ && x.1 == (i.start, i.end),
            None => r is None,
        },
    decreases declarator,
{
    match &declarator.kind {
        CDeclaratorKind::Identifier(ident) => Some((ident.name.clone(), (ident.start, ident.end))),
        CDeclaratorKind::Declarator(inner) => declarator_identifier_node(inner),
        CDeclaratorKind::Abstract => None,
    }
}

pub open spec fn count_pointers(s: Seq<CDerived>) -> nat
    decreases s.len(),
{
    if s.len() == 0 {
        0
    } else {
        count_pointers(s.drop_last()) + (if s.last() is Pointer { 1nat } else { 0nat })
    }
}

/// Pointer markers of a declarator and of those nested in it.
pub open spec fn pointer_depth(d: CDeclarator) -> nat
    decreases d,
{
    count_pointers(d.derived@) + match d.kind {
        CDeclaratorKind::Declarator(inner) => pointer_depth(*inner),
        _ => 0,
    }
}

/// Pointer markers before the first function part of the derived list.
pub open spec fn pointers_before_function(s: Seq<CDerived>) -> nat
    decreases s.len(),
{
    if s.len() == 0 {
        0
    } else if s[0] is Function {
        0
    } else {
        (if s[0] is Pointer { 1nat } else { 0nat }) + pointers_before_function(s.drop_first())
    }
}

/// Pointer markers on a function's return type.
pub open spec fn return_pointer_depth(d: CDeclarator) -> nat
    decreases d,
{
    pointers_before_function(d.derived@) + match d.kind {
        CDeclaratorKind::Declarator(inner) => return_pointer_depth(*inner),
        _ => 0,
    }
}

proof fn lemma_count_pointers_bound(s: Seq<CDerived>)
    ensures
        pointers_before_function(s) <= count_pointers(s),
    decreases s.len(),
{
    if s.len() > 0 {
        lemma_count_pointers_bound(s.drop_first());
        lemma_count_pointers_split(s);
    }
}

proof fn lemma_count_pointers_split(s: Seq<CDerived>)
    requires
        s.len() > 0,
    ensures
        count_pointers(s) == (if s[0] is Pointer { 1nat } else { 0nat }) + count_pointers(s.drop_first()),
    decreases s.len(),
{
    if s.len() > 1 {
        let dl = s.drop_last();
        let df = s.drop_first();
        lemma_count_pointers_split(dl);
        assert(dl.drop_first() =~= df.drop_last());
        assert(df.last() == s.last());
        assert(dl[0] == s[0]);
        assert(count_pointers(df) == count_pointers(df.drop_last()) + (if df.last() is Pointer { 1nat } else { 0nat }));
        assert(count_pointers(s) == count_pointers(dl) + (if s.last() is Pointer { 1nat } else { 0nat }));
    } else {
        assert(s.drop_first().len() == 0);
        assert(s.drop_last().len() == 0);
        assert(count_pointers(s.drop_first()) == 0);
        assert(count_pointers(s.drop_last()) == 0);
        assert(s.last() == s[0]);
    }
}

/// The return depth never exceeds the whole depth.
pub proof fn lemma_return_depth_bound(d: CDeclarator)
    ensures
        return_pointer_depth(d) <= pointer_depth(d),
    decreases d,
{
    lemma_count_pointers_bound(d.derived@);
    match d.kind {
        CDeclaratorKind::Declarator(inner) => lemma_return_depth_bound(*inner),
        _ => {},
    }
}

fn count_pointers_in(s: &Vec<CDerived>) -> (n: usize)
    ensures
        n == count_pointers(s@),
{
    let mut k: usize = 0;
    let mut n: usize = 0;
    while k < s.len()
        invariant
            k <= s.len(),
            n == count_pointers(s@.subrange(0, k as int)),
            n <= k,
        decreases s.len() - k,
    {
        proof {
            assert(s@.subrange(0, k + 1).drop_last() =~= s@.subrange(0, k as int));
        }
        match &s[k] {
            CDerived::Pointer => {
                n = n + 1;
            },
            _ => {},
        }
        k = k + 1;
    }
    proof {
        assert(s@.subrange(0, s.len() as int) =~= s@);
    }
    n
}

/// Pointer markers of a declarator and of those nested in it.
pub fn declarator_pointer_depth(declarator: &CDeclarator) -> (n: usize)
    requires
        pointer_depth(*declarator) <= usize::MAX,
    ensures
        n == pointer_depth(*declarator),
    decreases declarator,
{
    let depth = count_pointers_in(&declarator.derived);
    match &declarator.kind {
        CDeclaratorKind::Declarator(inner) => depth + declarator_pointer_depth(inner),
        _ => depth,
    }
}

/// Pointer markers on a function's return type.
pub fn function_return_pointer_depth(declarator: &CDeclarator) -> (n: usize)
    requires
        pointer_depth(*declarator) <= usize::MAX,
    ensures
        n == return_pointer_depth(*declarator),
    decreases declarator,
{
    proof {
        lemma_return_depth_bound(*declarator);
    }
    let ghost all = declarator.derived@;
    let mut depth: usize = 0;
    let mut k: usize = 0;
    let mut done = false;
    proof {
        assert(all.subrange(0, all.len() as int) =~= all);
        lemma_count_pointers_bound(all);
    }
    while k < declarator.derived.len() && !done
        invariant
            all == declarator.derived@,
            k <= all.len(),
            pointers_before_function(all) <= usize::MAX,
            done ==> depth == pointers_before_function(all),
            !done ==> depth + pointers_before_function(all.subrange(k as int, all.len() as int))
                == pointers_before_function(all),
        decreases all.len() - k,
    {
        let ghost rest = all.subrange(k as int, all.len() as int);
        proof {
            assert(rest.drop_first() =~= all.subrange(k + 1, all.len() as int));
            assert(rest[0] == all[k as int]);
        }
        match &declarator.derived[k] {
            CDerived::Pointer => {
                depth = depth + 1;
            },
            CDerived::Function(_) => {
                done = true;
            },
            _ => {},
        }
        k = k + 1;
    }
    proof {
        if !done {
            assert(all.subrange(k as int, all.len() as int).len() == 0);
        }
    }
    match &declarator.kind {
        CDeclaratorKind::Declarator(inner) => {
            proof {
                lemma_return_depth_bound(**inner);
            }
            depth + function_return_pointer_depth(inner)
        },
        _ => depth,
    }
}


/// A declarator declares a function pointer: its derived list (or a nested one) holds
/// both a function part and a pointer.
pub open spec fn has_function_pointer(d: CDeclarator) -> bool
    decreases d,
{
    ||| ((exists|k: int| 0 <= k < d.derived@.len() && #[trigger] d.derived@[k] is Function)
        && (exists|k: int| 0 <= k < d.derived@.len() && #[trigger] d.derived@[k] is Pointer))
    ||| match d.kind {
        CDeclaratorKind::Declarator(inner) => has_function_pointer(*inner),
        _ => false,
    }
}

/// Whether the declarator declares a function pointer.
pub fn contains_function_pointer(declarator: &CDeclarator) -> (b: bool)
    ensures
        b == has_function_pointer(*declarator),
    decreases declarator,
{
    let mut has_fn = false;
    let mut has_ptr = false;
    let mut k: usize = 0;
    while k < declarator.derived.len()
        invariant
            k <= declarator.derived.len(),
            has_fn == (exists|q: int| 0 <= q < k && #[trigger] declarator.derived@[q] is Function),
            has_ptr == (exists|q: int| 0 <= q < k && #[trigger] declarator.derived@[q] is Pointer),
        decreases declarator.derived.len() - k,
    {
        match &declarator.derived[k] {
            CDerived::Function(_) => {
                has_fn = true;
            },
            CDerived::Pointer => {
                has_ptr = true;
            },
            _ => {},
        }
        k = k + 1;
    }
    if has_fn && has_ptr {
        return true;
    }
    match &declarator.kind {
        CDeclaratorKind::Declarator(inner) => contains_function_pointer(inner),
        _ => false,
    }
}

/// The specifiers hold the `typedef` storage class.
pub open spec fn is_typedef_specs(specs: Seq<CDeclSpecifier>) -> bool {
    exists|k: int| 0 <= k < specs.len() && #[trigger] specs[k] is Typedef
}

/// Whether the declaration is a typedef.
pub fn is_typedef_decl(decl: &CDeclaration) -> (b: bool)
    ensures
        b == is_typedef_specs(decl.specifiers@),
{
    let mut k: usize = 0;
    while k < decl.specifiers.len()
        invariant
            k <= decl.specifiers.len(),
            forall|q: int| 0 <= q < k ==> !(#[trigger] decl.specifiers@[q] is Typedef),
        decreases decl.specifiers.len() - k,
    {
        match &decl.specifiers[k] {
            CDeclSpecifier::Typedef => {
                return true;
            },
            _ => {},
        }
        k = k + 1;
    }
    false
}

/// The specifiers name `void`.
pub open spec fn has_void(specs: Seq<CDeclSpecifier>) -> bool {
    exists|k: int| 0 <= k < specs.len() && #[trigger] specs[k] matches CDeclSpecifier::TypeSpecifier(CTypeSpecifier::Void)
}

fn specs_have_void(specs: &Vec<CDeclSpecifier>) -> (b: bool)
    ensures
        b == has_void(specs@),
{
    let mut k: usize = 0;
    while k < specs.len()
        invariant
            k <= specs.len(),
            forall|q: int| 0 <= q < k ==> !(#[trigger] specs@[q] matches CDeclSpecifier::TypeSpecifier(CTypeSpecifier::Void)),
        decreases specs.len() - k,
    {
        match &specs[k] {
            CDeclSpecifier::TypeSpecifier(CTypeSpecifier::Void) => {
                return true;
            },
            _ => {},
        }
        k = k + 1;
    }
    false
}

/// Whether a parameter is declared `void`.
pub fn is_void_parameter(param: &CParameter) -> (b: bool)
    ensures
        b == has_void(param.specifiers@),
{
    specs_have_void(&param.specifiers)
}

/// The first typedef name among the specifiers.
pub open spec fn first_typedef_name(specs: Seq<CDeclSpecifier>) -> Option<Seq<char>>
    decreases specs.len(),
{
    if specs.len() == 0 {
        None
    } else {
        match specs[0] {
            CDeclSpecifier::TypeSpecifier(CTypeSpecifier::TypedefName(id)) => Some(id.name@),
            _ => first_typedef_name(specs.drop_first()),
        }
    }
}

/// The first typedef name among the specifiers.
pub fn first_typedef_name_in_specifiers(specifiers: &Vec<CDeclSpecifier>) -> (r: Option<String>)
    ensures
        match first_typedef_name(specifiers@) {
            Some(n) => r matches Some(s) && s@ == n,
            None => r is None,
        },
{
    let mut k: usize = 0;
    proof {
        assert(specifiers@.subrange(0, specifiers@.len() as int) =~= specifiers@);
    }
    while k < specifiers.len()
        invariant
            k <= specifiers.len(),
            first_typedef_name(specifiers@) == first_typedef_name(specifiers@.subrange(k as int, specifiers@.len() as int)),
        decreases specifiers.len() - k,
    {
        proof {
            let rest = specifiers@.subrange(k as int, specifiers@.len() as int);
            assert(rest.drop_first() =~= specifiers@.subrange(k + 1, specifiers@.len() as int));
            assert(rest[0] == specifiers@[k as int]);
        }
        match &specifiers[k] {
            CDeclSpecifier::TypeSpecifier(CTypeSpecifier::TypedefName(id)) => {
                return Some(id.name.clone());
            },
            _ => {},
        }
        k = k + 1;
    }
    None
}

/// The word a type specifier contributes to a C type's text, if any.
pub open spec fn type_word(t: CTypeSpecifier) -> Option<Seq<char>> {
    match t {
        CTypeSpecifier::Void => Some("void"@),
        CTypeSpecifier::Char => Some("char"@),
        CTypeSpecifier::Short => Some("short"@),
        CTypeSpecifier::Int => Some("int"@),
        CTypeSpecifier::Long => Some("long"@),
        CTypeSpecifier::Float => Some("float"@),
        CTypeSpecifier::Double => Some("double"@),
        CTypeSpecifier::Signed => Some("signed"@),
        CTypeSpecifier::Unsigned => Some("unsigned"@),
        CTypeSpecifier::Bool => Some("bool"@),
        CTypeSpecifier::TypedefName(id) => Some(id.name@),
        CTypeSpecifier::Struct(st) => match st.identifier {
            Some(id) => Some(id.name@),
            None => None,
        },
        CTypeSpecifier::Enum(en) => match en.identifier {
            Some(id) => Some(id.name@),
            None => None,
        },
        CTypeSpecifier::Other => None,
    }
}

fn type_word_of(t: &CTypeSpecifier) -> (r: Option<String>)
    ensures
        match type_word(*t) {
            Some(w) => r matches Some(s) && s@ == w,
            None => r is None,
        },
{
    match t {
        CTypeSpecifier::Void => Some(String::from_str("void")),
        CTypeSpecifier::Char => Some(String::from_str("char")),
        CTypeSpecifier::Short => Some(String::from_str("short")),
        CTypeSpecifier::Int => Some(String::from_str("int")),
        CTypeSpecifier::Long => Some(String::from_str("long")),
        CTypeSpecifier::Float => Some(String::from_str("float")),
        CTypeSpecifier::Double => Some(String::from_str("double")),
        CTypeSpecifier::Signed => Some(String::from_str("signed")),
        CTypeSpecifier::Unsigned => Some(String::from_str("unsigned")),
        CTypeSpecifier::Bool => Some(String::from_str("bool")),
        CTypeSpecifier::TypedefName(id) => Some(id.name.clone()),
        CTypeSpecifier::Struct(st) => match &st.identifier {
            Some(id) => Some(id.name.clone()),
            None => None,
        },
        CTypeSpecifier::Enum(en) => match &en.identifier {
            Some(id) => Some(id.name.clone()),
            None => None,
        },
        CTypeSpecifier::Other => None,
    }
}

/// The type words of declaration specifiers, in order.
pub open spec fn spec_words(specs: Seq<CDeclSpecifier>) -> Seq<Seq<char>>
    decreases specs.len(),
{
    if specs.len() == 0 {
        Seq::empty()
    } else {
        let rest = spec_words(specs.drop_last());
        match specs.last() {
            CDeclSpecifier::TypeSpecifier(t) => match type_word(t) {
                Some(w) => rest.push(w),
                None => rest,
            },
            _ => rest,
        }
    }
}

/// The type words of specifier-qualifiers, in order.
pub open spec fn sq_words(specs: Seq<CSpecifierQualifier>) -> Seq<Seq<char>>
    decreases specs.len(),
{
    if specs.len() == 0 {
        Seq::empty()
    } else {
        let rest = sq_words(specs.drop_last());
        match specs.last() {
            CSpecifierQualifier::TypeSpecifier(t) => match type_word(t) {
                Some(w) => rest.push(w),
                None => rest,
            },
            _ => rest,
        }
    }
}

/// The Atlas type that declaration specifiers name.
pub open spec fn specs_atlas_type(specs: Seq<CDeclSpecifier>, namespace: Seq<char>) -> Seq<char> {
    atlas_type_text(join(spec_words(specs), " "@), namespace)
}

/// The Atlas type that specifier-qualifiers name.
pub open spec fn sq_atlas_type(specs: Seq<CSpecifierQualifier>, namespace: Seq<char>) -> Seq<char> {
    atlas_type_text(join(sq_words(specs), " "@), namespace)
}

/// The Atlas type that declaration specifiers name.
pub fn atlas_type_from_specifiers(specifiers: &Vec<CDeclSpecifier>, namespace: &str) -> (r: String)
    ensures
        r@ == specs_atlas_type(specifiers@, namespace@),
{
    let mut words: Vec<String> = Vec::new();
    let mut k: usize = 0;
    while k < specifiers.len()
        invariant
            k <= specifiers.len(),
            views(words@) == spec_words(specifiers@.subrange(0, k as int)),
        decreases specifiers.len() - k,
    {
        let ghost prev = words@;
        proof {
            assert(specifiers@.subrange(0, k + 1).drop_last() =~= specifiers@.subrange(0, k as int));
        }
        match &specifiers[k] {
            CDeclSpecifier::TypeSpecifier(t) => match type_word_of(t) {
                Some(w) => {
                    words.push(w);
                    proof {
                        assert(views(words@) =~= views(prev).push(words@.last()@));
                    }
                },
                None => {},
            },
            _ => {},
        }
        k = k + 1;
    }
    proof {
        assert(specifiers@.subrange(0, specifiers@.len() as int) =~= specifiers@);
    }
    let joined = join_strings(&words, " ");
    c_type_string_to_atlas(joined.as_str(), namespace)
}

/// The Atlas type that specifier-qualifiers name.
pub fn atlas_type_from_specifier_qualifiers(specifiers: &Vec<CSpecifierQualifier>, namespace: &str) -> (r: String)
    ensures
        r@ == sq_atlas_type(specifiers@, namespace@),
{
    let mut words: Vec<String> = Vec::new();
    let mut k: usize = 0;
    while k < specifiers.len()
        invariant
            k <= specifiers.len(),
            views(words@) == sq_words(specifiers@.subrange(0, k as int)),
        decreases specifiers.len() - k,
    {
        let ghost prev = words@;
        proof {
            assert(specifiers@.subrange(0, k + 1).drop_last() =~= specifiers@.subrange(0, k as int));
        }
        match &specifiers[k] {
            CSpecifierQualifier::TypeSpecifier(t) => match type_word_of(t) {
                Some(w) => {
                    words.push(w);
                    proof {
                        assert(views(words@) =~= views(prev).push(words@.last()@));
                    }
                },
                None => {},
            },
            _ => {},
        }
        k = k + 1;
    }
    proof {
        assert(specifiers@.subrange(0, specifiers@.len() as int) =~= specifiers@);
    }
    let joined = join_strings(&words, " ");
    c_type_string_to_atlas(joined.as_str(), namespace)
}


/// Index of the first function part of a derived list.
pub open spec fn first_function(s: Seq<CDerived>) -> Option<int>
    decreases s.len(),
{
    if s.len() == 0 {
        None
    } else if s[0] is Function {
        Some(0)
    } else {
        match first_function(s.drop_first()) {
            Some(k) => Some(k + 1),
            None => None,
        }
    }
}

proof fn lemma_first_function(s: Seq<CDerived>, k: int)
    requires
        0 <= k <= s.len(),
        forall|q: int| 0 <= q < k ==> !(#[trigger] s[q] is Function),
    ensures
        k < s.len() && s[k] is Function ==> first_function(s) == Some(k),
        k == s.len() ==> first_function(s) is None,
    decreases k,
{
    if k > 0 {
        lemma_first_function(s.drop_first(), k - 1);
        assert forall|q: int| 0 <= q < k - 1 implies !(#[trigger] s.drop_first()[q] is Function) by {
            assert(s.drop_first()[q] == s[q + 1]);
        }
    }
}

/// A declarator that declares a function: the index of its function part, its name, the
/// name's span, and whether a pointer comes before the function part.
pub open spec fn function_info(d: CDeclarator) -> Option<(int, Seq<char>, (usize, usize), bool)> {
    match (ident_of(d), first_function(d.derived@)) {
        (Some(i), Some(f)) => Some((f, i.name@, (i.start, i.end),
            exists|k: int| 0 <= k < f && #[trigger] d.derived@[k] is Pointer)),
        _ => None,
    }
}

/// For a function declarator: the index of the function part, the name, its span, and
/// whether a pointer marker comes before the function part.
pub fn function_declarator_info(declarator: &CDeclarator) -> (r: Option<(usize, String, (usize, usize), bool)>)
    ensures
        match function_info(*declarator) {
            Some(i) => r matches Some(x) && x.0 == i.0 && x.1@ == i.1 && x.2 == i.2 && x.3 == i.3
                && x.0 < declarator.derived@.len() && declarator.derived@[i.0] is Function,
            None => r is None,
        },
{
    let (identifier, ident_span) = match declarator_identifier_node(declarator) {
        Some(x) => x,
        None => return None,
    };
    let mut has_pointer = false;
    let mut k: usize = 0;
    while k < declarator.derived.len()
        invariant
            k <= declarator.derived.len(),
            ident_of(*declarator) matches Some(i) && identifier@ == i.name@ && ident_span == (i.start, i.end),
            forall|q: int| 0 <= q < k ==> !(#[trigger] declarator.derived@[q] is Function),
            has_pointer == (exists|q: int| 0 <= q < k && #[trigger] declarator.derived@[q] is Pointer),
        decreases declarator.derived.len() - k,
    {
        match &declarator.derived[k] {
            CDerived::Pointer => {
                has_pointer = true;
            },
            CDerived::Function(_) => {
                proof {
                    lemma_first_function(declarator.derived@, k as int);
                }
                return Some((k, identifier, ident_span, has_pointer));
            },
            _ => {},
        }
        k = k + 1;
    }
    proof {
        lemma_first_function(declarator.derived@, k as int);
    }
    None
}

/// The pointer depths of the parameters' declarators fit in a `usize`.
pub open spec fn params_fit(ps: Seq<CParameter>) -> bool {
    forall|k: int| 0 <= k < ps.len() ==> (#[trigger] ps[k].declarator matches Some(d) ==> pointer_depth(d) <= usize::MAX)
}

/// `arg_<idx>`, the name given to an unnamed parameter.
pub open spec fn generated_arg(idx: nat) -> Seq<char> {
    "arg_"@ + nat_text(idx)
}

/// The Atlas text of a parameter (`name: type`); a lone `void` parameter has none.
pub open spec fn param_atlas(idx: nat, p: CParameter, namespace: Seq<char>) -> Option<Seq<char>> {
    if p.declarator is None && has_void(p.specifiers@) {
        None
    } else {
        let base = specs_atlas_type(p.specifiers@, namespace);
        let depth = match p.declarator {
            Some(d) => pointer_depth(d),
            None => 0,
        };
        let name = match p.declarator {
            Some(d) => match ident_of(d) {
                Some(i) => i.name@,
                None => generated_arg(idx),
            },
            None => generated_arg(idx),
        };
        Some(name + ": "@ + stars(depth) + base)
    }
}

pub open spec fn params_atlas(ps: Seq<CParameter>, namespace: Seq<char>) -> Seq<Seq<char>>
    decreases ps.len(),
{
    if ps.len() == 0 {
        Seq::empty()
    } else {
        let rest = params_atlas(ps.drop_last(), namespace);
        match param_atlas((ps.len() - 1) as nat, ps.last(), namespace) {
            Some(t) => rest.push(t),
            None => rest,
        }
    }
}

fn generated_arg_name(idx: usize) -> (r: String)
    ensures
        r@ == generated_arg(idx as nat),
{
    let mut out = String::from_str("arg_");
    push_usize(&mut out, idx);
    out
}

/// The Atlas parameter texts of a function's parameters.
pub fn atlas_params(params: &Vec<CParameter>, namespace: &str) -> (r: Vec<String>)
    requires
        params_fit(params@),
    ensures
        views(r@) == params_atlas(params@, namespace@),
{
    let mut out: Vec<String> = Vec::new();
    let mut idx: usize = 0;
    while idx < params.len()
        invariant
            idx <= params.len(),
            params_fit(params@),
            views(out@) == params_atlas(params@.subrange(0, idx as int), namespace@),
        decreases params.len() - idx,
    {
        let parameter = &params[idx];
        let ghost prev = out@;
        proof {
            let sub = params@.subrange(0, idx + 1);
            assert(sub.drop_last() =~= params@.subrange(0, idx as int));
            assert(sub.last() == params@[idx as int]);
        }
        let skip = match &parameter.declarator {
            None => is_void_parameter(parameter),
            Some(_) => false,
        };
        if !skip {
            let base = atlas_type_from_specifiers(&parameter.specifiers, namespace);
            let pointer_depth = match &parameter.declarator {
                Some(d) => declarator_pointer_depth(d),
                None => 0,
            };
            let ty = pointer_wrap(base, pointer_depth);
            let name = match &parameter.declarator {
                Some(d) => match declarator_identifier_node(d) {
                    Some((n, _)) => n,
                    None => generated_arg_name(idx),
                },
                None => generated_arg_name(idx),
            };
            let mut entry = name;
            entry.append(": ");
            entry.append(ty.as_str());
            proof {
                assert(param_atlas(idx as nat, params@[idx as int], namespace@) == Some(entry@)) by {
                    assert(entry@ =~= name@ + ": "@ + ty@);
                }
            }
            out.push(entry);
            proof {
                assert(views(out@) =~= views(prev).push(out@.last()@));
            }
        }
        idx = idx + 1;
    }
    proof {
        assert(params@.subrange(0, params@.len() as int) =~= params@);
    }
    out
}

/// The Atlas type of a function's result.
pub fn atlas_return_type(return_specifiers: &Vec<CDeclSpecifier>, pointer_depth: usize, namespace: &str) -> (r: String)
    ensures
        r@ == stars(pointer_depth as nat) + specs_atlas_type(return_specifiers@, namespace@),
{
    let base = atlas_type_from_specifiers(return_specifiers, namespace);
    pointer_wrap(base, pointer_depth)
}

/// `fun name(p: T, ...) -> R;`, the arrow and result left out for `unit`.
pub open spec fn signature_atlas(name: Seq<char>, ps: Seq<CParameter>, ret_specs: Seq<CDeclSpecifier>, ret_depth: nat,
    namespace: Seq<char>) -> Seq<char>
{
    let ret = stars(ret_depth) + specs_atlas_type(ret_specs, namespace);
    ("fun "@ + name).push('(') + join(params_atlas(ps, namespace), ", "@) + seq![')']
        + (if ret != "unit"@ { " -> "@ + ret } else { Seq::<char>::empty() }) + seq![';']
}

/// The Atlas declaration of a function.
pub fn atlas_function_signature(name: &str, params: &Vec<CParameter>, return_specifiers: &Vec<CDeclSpecifier>,
    return_pointer_depth: usize, namespace: &str) -> (r: String)
    requires
        params_fit(params@),
    ensures
        r@ == signature_atlas(name@, params@, return_specifiers@, return_pointer_depth as nat, namespace@),
{
    let mut sig = String::from_str("fun ");
    sig.append(name);
    sig.push('(');
    let ps = atlas_params(params, namespace);
    let joined = join_strings(&ps, ", ");
    sig.append(joined.as_str());
    sig.push(')');
    let ret = atlas_return_type(return_specifiers, return_pointer_depth, namespace);
    proof {
        reveal_strlit("unit");
    }
    if !crate::text::str_eq(ret.as_str(), "unit") {
        sig.append(" -> ");
        sig.append(ret.as_str());
    }
    sig.push(';');
    proof {
        assert(sig@ =~= signature_atlas(name@, params@, return_specifiers@, return_pointer_depth as nat, namespace@));
    }
    sig
}


/// What `extract_function_decl` finds in a function declarator: the name and its span,
/// whether it is variadic, the parameter names (empty for a declarator without a name),
/// the Atlas declaration, whether it returns `void`, and how arguments and result are
/// converted.
#[derive(Debug)]
pub struct FunDecl {
    pub name: String,
    pub span: (usize, usize),
    pub has_varargs: bool,
    pub arg_names: Vec<String>,
    pub atlas_signature: String,
    pub is_void_return: bool,
    pub param_conversions: Vec<ParamConversion>,
    pub return_conversion: ReturnConversion,
}

pub open spec fn convs_view(cs: Seq<ParamConversion>) -> Seq<(Seq<char>, Option<Seq<char>>, nat)> {
    cs.map_values(|c: ParamConversion| param_view(c))
}

/// The name a parameter contributes to the argument names: its own, a generated one when
/// it has no declarator, the empty name when its declarator names nothing; a lone `void`
/// contributes none.
pub open spec fn param_arg_name(idx: nat, p: CParameter) -> Option<Seq<char>> {
    match p.declarator {
        None => if has_void(p.specifiers@) { None } else { Some(generated_arg(idx)) },
        Some(d) => match ident_of(d) {
            Some(i) => Some(i.name@),
            None => Some(Seq::empty()),
        },
    }
}

/// The conversion a parameter gets, if any.
pub open spec fn param_conv(idx: nat, p: CParameter) -> Option<(Seq<char>, Option<Seq<char>>, nat)> {
    match p.declarator {
        None => if has_void(p.specifiers@) {
            None
        } else {
            Some((generated_arg(idx), first_typedef_name(p.specifiers@), 0nat))
        },
        Some(d) => match ident_of(d) {
            Some(i) => Some((i.name@, first_typedef_name(p.specifiers@), pointer_depth(d))),
            None => None,
        },
    }
}

pub open spec fn arg_names_of(ps: Seq<CParameter>) -> Seq<Seq<char>>
    decreases ps.len(),
{
    if ps.len() == 0 {
        Seq::empty()
    } else {
        let rest = arg_names_of(ps.drop_last());
        match param_arg_name((ps.len() - 1) as nat, ps.last()) {
            Some(n) => rest.push(n),
            None => rest,
        }
    }
}

pub open spec fn convs_of(ps: Seq<CParameter>) -> Seq<(Seq<char>, Option<Seq<char>>, nat)>
    decreases ps.len(),
{
    if ps.len() == 0 {
        Seq::empty()
    } else {
        let rest = convs_of(ps.drop_last());
        match param_conv((ps.len() - 1) as nat, ps.last()) {
            Some(c) => rest.push(c),
            None => rest,
        }
    }
}

/// The function part of a derived list at index `f`.
pub open spec fn function_part(d: CDeclarator, f: int) -> CFunctionDeclarator {
    d.derived@[f]->Function_0
}

/// The pointer depths in a declarator and in its function parameters fit in a `usize`.
pub open spec fn declarator_fits(d: CDeclarator) -> bool {
    &&& pointer_depth(d) <= usize::MAX
    &&& forall|k: int| 0 <= k < d.derived@.len() ==> (#[trigger] d.derived@[k] matches CDerived::Function(f) ==> params_fit(f.parameters@))
}

/// What `extract_function_decl` finds, when the declarator declares a function without an
/// initializer: (name, span, variadic, argument names, Atlas declaration, returns void,
/// conversions, (result typedef name, result pointer depth)).
pub open spec fn fun_decl_of(specs: Seq<CDeclSpecifier>, init: CInitDeclarator, namespace: Seq<char>)
    -> Option<(Seq<char>, (usize, usize), bool, Seq<Seq<char>>, Seq<char>, bool, Seq<(Seq<char>, Option<Seq<char>>, nat)>, (Option<Seq<char>>, nat))>
{
    if init.has_initializer {
        None
    } else {
        match function_info(init.declarator) {
            None => None,
            Some(info) => {
                let f = function_part(init.declarator, info.0);
                let ret_depth = return_pointer_depth(init.declarator);
                Some((info.1, info.2, f.ellipsis, arg_names_of(f.parameters@),
                    signature_atlas(info.1, f.parameters@, specs, ret_depth, namespace),
                    has_void(specs) && !info.3 && ret_depth == 0,
                    convs_of(f.parameters@),
                    (first_typedef_name(specs), ret_depth)))
            },
        }
    }
}

/// The function a declarator declares, if it declares one without an initializer.
pub fn extract_function_decl(specifiers: &Vec<CDeclSpecifier>, init_decl: &CInitDeclarator, namespace: &str) -> (r: Option<FunDecl>)
    requires
        declarator_fits(init_decl.declarator),
    ensures
        match fun_decl_of(specifiers@, *init_decl, namespace@) {
            Some(v) => r matches Some(fd) && fd.name@ == v.0 && fd.span == v.1 && fd.has_varargs == v.2
                && views(fd.arg_names@) == v.3 && fd.atlas_signature@ == v.4 && fd.is_void_return == v.5
                && convs_view(fd.param_conversions@) == v.6
                && (match fd.return_conversion.vendor_type { Some(t) => Some(t@), None => None }) == v.7.0
                && fd.return_conversion.pointer_depth == v.7.1,
            None => r is None,
        },
{
    if init_decl.has_initializer {
        return None;
    }
    let declarator = &init_decl.declarator;
    let (fidx, func_name, func_span, has_ptr_in_signature) = match function_declarator_info(declarator) {
        Some(x) => x,
        None => return None,
    };
    let func_decl = match &declarator.derived[fidx] {
        CDerived::Function(f) => f,
        _ => {
            proof {
                assert(false);
            }
            return None;
        },
    };
    proof {
        assert(declarator.derived@[fidx as int] matches CDerived::Function(f) ==> params_fit(f.parameters@));
    }
    let has_varargs = func_decl.ellipsis;
    let mut arg_names: Vec<String> = Vec::new();
    let mut param_conversions: Vec<ParamConversion> = Vec::new();
    let mut idx: usize = 0;
    while idx < func_decl.parameters.len()
        invariant
            idx <= func_decl.parameters.len(),
            params_fit(func_decl.parameters@),
            views(arg_names@) == arg_names_of(func_decl.parameters@.subrange(0, idx as int)),
            convs_view(param_conversions@) == convs_of(func_decl.parameters@.subrange(0, idx as int)),
        decreases func_decl.parameters.len() - idx,
    {
        let parameter = &func_decl.parameters[idx];
        let ghost prev_names = arg_names@;
        let ghost prev_convs = param_conversions@;
        proof {
            let sub = func_decl.parameters@.subrange(0, idx + 1);
            assert(sub.drop_last() =~= func_decl.parameters@.subrange(0, idx as int));
            assert(sub.last() == func_decl.parameters@[idx as int]);
        }
        let vendor_type = first_typedef_name_in_specifiers(&parameter.specifiers);
        match &parameter.declarator {
            None => {
                if !is_void_parameter(parameter) {
                    let generated = generated_arg_name(idx);
                    arg_names.push(generated.clone());
                    param_conversions.push(ParamConversion { arg_name: generated, vendor_type, pointer_depth: 0 });
                    proof {
                        assert(views(arg_names@) =~= views(prev_names).push(generated@));
                        assert(convs_view(param_conversions@) =~= convs_view(prev_convs).push(param_view(param_conversions@.last())));
                    }
                }
            },
            Some(param_decl) => {
                match declarator_identifier_node(param_decl) {
                    None => {
                        arg_names.push(String::new());
                        proof {
                            assert(views(arg_names@) =~= views(prev_names).push(Seq::<char>::empty()));
                        }
                    },
                    Some((name, _)) => {
                        arg_names.push(name.clone());
                        let depth = declarator_pointer_depth(param_decl);
                        param_conversions.push(ParamConversion { arg_name: name, vendor_type, pointer_depth: depth });
                        proof {
                            assert(views(arg_names@) =~= views(prev_names).push(name@));
                            assert(convs_view(param_conversions@) =~= convs_view(prev_convs).push(param_view(param_conversions@.last())));
                        }
                    },
                }
            },
        }
        idx = idx + 1;
    }
    proof {
        assert(func_decl.parameters@.subrange(0, func_decl.parameters@.len() as int) =~= func_decl.parameters@);
    }
    let return_pointer_depth = function_return_pointer_depth(declarator);
    let is_void_return = specs_have_void(specifiers) && !has_ptr_in_signature && return_pointer_depth == 0;
    let return_conversion = ReturnConversion {
        vendor_type: first_typedef_name_in_specifiers(specifiers),
        pointer_depth: return_pointer_depth,
    };
    let atlas_signature = atlas_function_signature(func_name.as_str(), &func_decl.parameters, specifiers,
        return_pointer_depth, namespace);
    Some(FunDecl {
        name: func_name,
        span: func_span,
        has_varargs,
        arg_names,
        atlas_signature,
        is_void_return,
        param_conversions,
        return_conversion,
    })
}


/// The pointer depth of a declarator (see `pointer_depth`), when it fits in a `usize`.
pub fn checked_pointer_depth(declarator: &CDeclarator) -> (r: Option<usize>)
    ensures
        match r {
            Some(n) => n == pointer_depth(*declarator),
            None => pointer_depth(*declarator) > usize::MAX,
        },
    decreases declarator,
{
    let depth = count_pointers_in(&declarator.derived);
    match &declarator.kind {
        CDeclaratorKind::Declarator(inner) => match checked_pointer_depth(inner) {
            Some(m) => depth.checked_add(m),
            None => None,
        },
        _ => Some(depth),
    }
}

/// Whether the parameters' pointer depths fit in a `usize` (see `params_fit`).
pub fn parameters_fit(ps: &Vec<CParameter>) -> (b: bool)
    ensures
        b == params_fit(ps@),
{
    let mut k: usize = 0;
    while k < ps.len()
        invariant
            k <= ps@.len(),
            forall|q: int| 0 <= q < k ==> (#[trigger] ps@[q].declarator matches Some(d) ==> pointer_depth(d) <= usize::MAX),
        decreases ps.len() - k,
    {
        match &ps[k].declarator {
            Some(d) => {
                if checked_pointer_depth(d).is_none() {
                    return false;
                }
            },
            None => {},
        }
        k = k + 1;
    }
    true
}

/// Whether a declarator's pointer depths, and those of its function parameters, fit in a
/// `usize` (see `declarator_fits`).
pub fn declarator_depths_fit(d: &CDeclarator) -> (b: bool)
    ensures
        b == declarator_fits(*d),
{
    if checked_pointer_depth(d).is_none() {
        return false;
    }
    let mut k: usize = 0;
    while k < d.derived.len()
        invariant
            k <= d.derived@.len(),
            forall|q: int| 0 <= q < k ==> (#[trigger] d.derived@[q] matches CDerived::Function(f) ==> params_fit(f.parameters@)),
        decreases d.derived.len() - k,
    {
        match &d.derived[k] {
            CDerived::Function(f) => {
                if !parameters_fit(&f.parameters) {
                    return false;
                }
            },
            _ => {},
        }
        k = k + 1;
    }
    true
}

} // verus!
