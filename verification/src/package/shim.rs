//! The shim header and C file of a packaged header, and the whole packaging of its
//! declarations.
use vstd::prelude::*;
use vstd::string::{StrSliceExecFns, StringExecFns};
use crate::text::{chars_of, is_ws, join, join_strings, trim_end, views};
use super::atlas_module::{atlas_module_text, concat, generate_atlas_module, signatures};
use super::cdecl::CDeclaration;
use super::composite::{composites_view, enums_view, skips_view};
use super::{alias_view, apply_ok, apply_replacements, function_replacements, try_apply_replacements, apply_text, build_forward_arg_expr, build_return_expr,
    collect_declaration, collect_step, collected, collected_view, decl_fits, forward_arg_text, function_reps,
    function_view, namespaced, namespaced_text, pairs_view, param_view, reps_view, resolve_alias_chains,
    return_expr_text, ret_view, rewrite_function_decl, AliasV, CollectV, Collected, FunctionDecl, FunctionV,
    RepV, SkipInfo, TypeAlias, name_in, contains_name};

verus! {

/// The names of the typedefs, which the shim puts in the namespace.
pub open spec fn known_names(aliases: Seq<AliasV>) -> Seq<Seq<char>> {
    aliases.map_values(|a: AliasV| a.name)
}

/// Each typedef name resolved to itself.
pub open spec fn alias_pairs(aliases: Seq<AliasV>) -> Seq<(Seq<char>, Seq<char>)> {
    aliases.map_values(|a: AliasV| (a.name, a.name))
}

/// The known typedef references, renamed into the namespace.
pub open spec fn known_reps(refs: Seq<RepV>, known: Seq<Seq<char>>, namespace: Seq<char>) -> Seq<RepV>
    decreases refs.len(),
{
    if refs.len() == 0 {
        Seq::empty()
    } else {
        let rest = known_reps(refs.drop_last(), known, namespace);
        if name_in(known, refs.last().2) {
            rest.push((refs.last().0, refs.last().1, namespaced_text(namespace, refs.last().2)))
        } else {
            rest
        }
    }
}

/// All the references, renamed into the namespace.
pub open spec fn ns_reps(refs: Seq<RepV>, namespace: Seq<char>) -> Seq<RepV> {
    refs.map_values(|r: RepV| (r.0, r.1, namespaced_text(namespace, r.2)))
}

/// The replacements that rewrite a typedef: its name, the known typedef names it uses,
/// its tags and its enumerators, all put in the namespace.
pub open spec fn alias_reps(a: AliasV, known: Seq<Seq<char>>, namespace: Seq<char>) -> Seq<RepV> {
    seq![(a.span.0, a.span.1, namespaced_text(namespace, a.name))] + known_reps(a.typedef_refs, known, namespace)
        + ns_reps(a.tags, namespace) + ns_reps(a.enum_consts, namespace)
}

/// The text ending in a newline.
pub open spec fn with_newline(t: Seq<char>) -> Seq<char> {
    if t.len() > 0 && t.last() == '\n' { t } else { t.push('\n') }
}

pub open spec fn alias_line(a: AliasV, known: Seq<Seq<char>>, namespace: Seq<char>) -> Seq<char> {
    with_newline(apply_text(a.source_decl, alias_reps(a, known, namespace)))
}

pub open spec fn function_line(f: FunctionV, known: Seq<Seq<char>>, amap: Seq<(Seq<char>, Seq<char>)>, namespace: Seq<char>) -> Seq<char> {
    with_newline(apply_text(f.source_decl, function_reps(f, known, amap, namespace)))
}

/// The shim header: the rewritten typedefs, then the rewritten function prototypes, inside
/// a C++ guard.
pub open spec fn header_text(c: CollectV, namespace: Seq<char>) -> Seq<char> {
    let known = known_names(c.aliases);
    let amap = alias_pairs(c.aliases);
    "#pragma once\n\n"@ + "#ifdef __cplusplus\nextern \"C\" {\n#endif\n\n"@
        + concat(c.aliases.map_values(|a: AliasV| alias_line(a, known, namespace)))
        + (if c.aliases.len() > 0 { seq!['\n'] } else { Seq::empty() })
        + concat(c.functions.map_values(|f: FunctionV| function_line(f, known, amap, namespace)))
        + "\n#ifdef __cplusplus\n}\n#endif\n"@
}

/// `s` without its trailing `c` characters.
pub open spec fn trim_end_char(s: Seq<char>, c: char) -> Seq<char>
    decreases s.len(),
{
    if s.len() > 0 && s.last() == c { trim_end_char(s.drop_last(), c) } else { s }
}

/// A shim function: the rewritten prototype (without its `;`) and a body that forwards
/// the converted arguments to the vendor function and returns the converted result.
pub open spec fn shim_fn_text(f: FunctionV, known: Seq<Seq<char>>, amap: Seq<(Seq<char>, Seq<char>)>, namespace: Seq<char>) -> Seq<char> {
    let rewritten = apply_text(f.source_decl, function_reps(f, known, amap, namespace));
    let signature = trim_end(trim_end_char(trim_end(rewritten), ';'));
    let args = join(f.convs.map_values(|c: (Seq<char>, Option<Seq<char>>, nat)| forward_arg_text(c, known, namespace)), ", "@);
    let call = (f.name.push('(') + args).push(')');
    signature + " {\n"@ + (if f.is_void_return {
        "    "@ + call + ";\n"@
    } else {
        "    return "@ + return_expr_text(call, f.ret, known, namespace) + ";\n"@
    }) + "}\n\n"@
}

/// The shim C file: the vendor header and the shim header included, then one shim
/// function per function.
pub open spec fn c_text(c: CollectV, namespace: Seq<char>, vendor_header: Seq<char>, shim_header: Seq<char>) -> Seq<char> {
    let known = known_names(c.aliases);
    let amap = alias_pairs(c.aliases);
    "#include \""@ + vendor_header + "\"\n"@ + "#include \""@ + shim_header + "\"\n\n"@
        + concat(c.functions.map_values(|f: FunctionV| shim_fn_text(f, known, amap, namespace)))
}

/// Every rewrite cuts its declaration's text at character boundaries.
pub open spec fn rewrites_ok(c: CollectV, namespace: Seq<char>) -> bool {
    let known = known_names(c.aliases);
    let amap = alias_pairs(c.aliases);
    &&& forall|k: int| 0 <= k < c.aliases.len() ==> apply_ok((#[trigger] c.aliases[k]).source_decl, alias_reps(c.aliases[k], known, namespace))
    &&& forall|k: int| 0 <= k < c.functions.len() ==> apply_ok((#[trigger] c.functions[k]).source_decl, function_reps(c.functions[k], known, amap, namespace))
}

/// `atlas77-<stem>.h`
pub open spec fn shim_header_name(stem: Seq<char>) -> Seq<char> {
    "atlas77-"@ + stem + ".h"@
}

/// `atlas77-<stem>.c`
pub open spec fn shim_c_name(stem: Seq<char>) -> Seq<char> {
    "atlas77-"@ + stem + ".c"@
}

/// `<stem>.atlas`
pub open spec fn atlas_module_name(stem: Seq<char>) -> Seq<char> {
    stem + ".atlas"@
}

/// The three files of a packaged header (names and contents), and what was skipped.
#[derive(Debug)]
pub struct PackageOutput {
    pub shim_header_name: String,
    pub shim_c_name: String,
    pub atlas_module_name: String,
    pub header: String,
    pub c_source: String,
    pub atlas_module: String,
    pub skipped: Vec<SkipInfo>,
}

/// Collects what every declaration contributes, in order.
pub fn collect_declarations(decls: &Vec<CDeclaration>, source: &str, namespace: &str) -> (r: Collected)
    requires
        forall|k: int| 0 <= k < decls@.len() ==> decl_fits(#[trigger] decls@[k]),
    ensures
        collected_view(r) == collected(decls@, source@, namespace@),
{
    let mut acc = Collected {
        type_aliases: Vec::new(),
        functions: Vec::new(),
        composites: Vec::new(),
        enums: Vec::new(),
        skipped: Vec::new(),
    };
    proof {
        let e = collected(decls@.subrange(0, 0), source@, namespace@);
        let v = collected_view(acc);
        assert(v.aliases =~= e.aliases);
        assert(v.functions =~= e.functions);
        assert(v.composites =~= e.composites);
        assert(v.enums =~= e.enums);
        assert(v.skipped =~= e.skipped);
    }
    let mut k: usize = 0;
    while k < decls.len()
        invariant
            k <= decls.len(),
            forall|q: int| 0 <= q < decls@.len() ==> decl_fits(#[trigger] decls@[q]),
            collected_view(acc) == collected(decls@.subrange(0, k as int), source@, namespace@),
        decreases decls.len() - k,
    {
        proof {
            let sub = decls@.subrange(0, k + 1);
            assert(sub.drop_last() =~= decls@.subrange(0, k as int));
            assert(sub.last() == decls@[k as int]);
        }
        collect_declaration(&decls[k], source, namespace, &mut acc);
        k = k + 1;
    }
    proof {
        assert(decls@.subrange(0, decls@.len() as int) =~= decls@);
    }
    acc
}

fn known_type_names_of(aliases: &Vec<TypeAlias>) -> (r: Vec<String>)
    ensures
        views(r@) == known_names(aliases@.map_values(|a: TypeAlias| alias_view(a))),
{
    let mut out: Vec<String> = Vec::new();
    let mut k: usize = 0;
    while k < aliases.len()
        invariant
            k <= aliases.len(),
            views(out@) =~= known_names(aliases@.subrange(0, k as int).map_values(|a: TypeAlias| alias_view(a))),
        decreases aliases.len() - k,
    {
        let ghost prev = out@;
        out.push(aliases[k].name.clone());
        proof {
            assert(views(out@) =~= views(prev).push(aliases@[k as int].name@));
            assert(aliases@.subrange(0, k + 1).map_values(|a: TypeAlias| alias_view(a))
                =~= aliases@.subrange(0, k as int).map_values(|a: TypeAlias| alias_view(a)).push(alias_view(aliases@[k as int])));
        }
        k = k + 1;
    }
    proof {
        assert(aliases@.subrange(0, aliases@.len() as int) =~= aliases@);
    }
    out
}

fn ends_with_newline(s: &String) -> (b: bool)
    ensures
        b == (s@.len() > 0 && s@.last() == '\n'),
{
    let n = s.as_str().unicode_len();
    n > 0 && s.as_str().get_char(n - 1) == '\n'
}

/// The replacements that put a typedef's names into the namespace (see `alias_reps`).
fn alias_replacements(alias: &TypeAlias, known: &Vec<String>, namespace: &str) -> (r: Vec<(usize, usize, String)>)
    ensures
        reps_view(r@) == alias_reps(alias_view(*alias), views(known@), namespace@),
{
    let ghost av = alias_view(*alias);
    let mut reps: Vec<(usize, usize, String)> = Vec::new();
    reps.push((alias.alias_name_span_rel.0, alias.alias_name_span_rel.1, namespaced(namespace, alias.name.as_str())));
    let ghost head = reps_view(reps@);
    let mut k: usize = 0;
    while k < alias.typedef_ref_spans_rel.len()
        invariant
            k <= alias.typedef_ref_spans_rel.len(),
            av == alias_view(*alias),
            reps_view(reps@) == head + known_reps(av.typedef_refs.subrange(0, k as int), views(known@), namespace@),
        decreases alias.typedef_ref_spans_rel.len() - k,
    {
        let ghost prev = reps@;
        let e = &alias.typedef_ref_spans_rel[k];
        proof {
            assert(av.typedef_refs.subrange(0, k + 1).drop_last() =~= av.typedef_refs.subrange(0, k as int));
            assert(av.typedef_refs.subrange(0, k + 1).last() == (e.0, e.1, e.2@));
        }
        if contains_name(known, e.2.as_str()) {
            reps.push((e.0, e.1, namespaced(namespace, e.2.as_str())));
            proof {
                assert(reps_view(reps@) =~= reps_view(prev).push(reps_view(reps@).last()));
            }
        }
        k = k + 1;
    }
    proof {
        assert(av.typedef_refs.subrange(0, av.typedef_refs.len() as int) =~= av.typedef_refs);
    }
    let ghost head2 = reps_view(reps@);
    let mut k: usize = 0;
    while k < alias.tag_name_spans_rel.len()
        invariant
            k <= alias.tag_name_spans_rel.len(),
            av == alias_view(*alias),
            reps_view(reps@) == head2 + ns_reps(av.tags.subrange(0, k as int), namespace@),
        decreases alias.tag_name_spans_rel.len() - k,
    {
        let ghost prev = reps@;
        let e = &alias.tag_name_spans_rel[k];
        reps.push((e.0, e.1, namespaced(namespace, e.2.as_str())));
        proof {
            assert(reps_view(reps@) =~= reps_view(prev).push(reps_view(reps@).last()));
            assert(ns_reps(av.tags.subrange(0, k + 1), namespace@) =~= ns_reps(av.tags.subrange(0, k as int), namespace@).push(reps_view(reps@).last()));
        }
        k = k + 1;
    }
    proof {
        assert(av.tags.subrange(0, av.tags.len() as int) =~= av.tags);
    }
    let ghost head3 = reps_view(reps@);
    let mut k: usize = 0;
    while k < alias.enum_constant_spans_rel.len()
        invariant
            k <= alias.enum_constant_spans_rel.len(),
            av == alias_view(*alias),
            reps_view(reps@) == head3 + ns_reps(av.enum_consts.subrange(0, k as int), namespace@),
        decreases alias.enum_constant_spans_rel.len() - k,
    {
        let ghost prev = reps@;
        let e = &alias.enum_constant_spans_rel[k];
        reps.push((e.0, e.1, namespaced(namespace, e.2.as_str())));
        proof {
            assert(reps_view(reps@) =~= reps_view(prev).push(reps_view(reps@).last()));
            assert(ns_reps(av.enum_consts.subrange(0, k + 1), namespace@) =~= ns_reps(av.enum_consts.subrange(0, k as int), namespace@).push(reps_view(reps@).last()));
        }
        k = k + 1;
    }
    proof {
        assert(av.enum_consts.subrange(0, av.enum_consts.len() as int) =~= av.enum_consts);
        assert(reps_view(reps@) =~= alias_reps(av, views(known@), namespace@));
    }
    reps
}

/// The typedef's declaration rewritten into the namespace.
fn rewrite_alias(alias: &TypeAlias, known: &Vec<String>, namespace: &str) -> (r: String)
    requires
        apply_ok(alias.source_decl@, alias_reps(alias_view(*alias), views(known@), namespace@)),
    ensures
        r@ == apply_text(alias.source_decl@, alias_reps(alias_view(*alias), views(known@), namespace@)),
{
    apply_replacements(alias.source_decl.as_str(), alias_replacements(alias, known, namespace))
}


proof fn lemma_known_views(aliases: Seq<TypeAlias>, known: Seq<String>, amap: Seq<(String, String)>)
    requires
        views(known) == known_names(aliases.map_values(|a: TypeAlias| alias_view(a))),
        amap.len() == aliases.len(),
        forall|k: int| 0 <= k < amap.len() ==> (#[trigger] amap[k]).0@ == aliases[k].name@ && amap[k].1@ == aliases[k].name@,
    ensures
        pairs_view(amap) == alias_pairs(aliases.map_values(|a: TypeAlias| alias_view(a))),
{
    assert(pairs_view(amap) =~= alias_pairs(aliases.map_values(|a: TypeAlias| alias_view(a))));
}

/// The text without trailing whitespace, then without trailing `;`, then without trailing
/// whitespace again.
fn prototype_of(rewritten: &String) -> (r: String)
    ensures
        r@ == trim_end(trim_end_char(trim_end(rewritten@), ';')),
{
    let cs = chars_of(rewritten.as_str());
    let mut end: usize = cs.len();
    proof {
        assert(cs@.subrange(0, end as int) =~= cs@);
    }
    while end > 0 && crate::text::char_is_ws(cs[end - 1])
        invariant
            end <= cs.len(),
            trim_end(cs@.subrange(0, end as int)) == trim_end(rewritten@),
        decreases end,
    {
        proof {
            assert(cs@.subrange(0, end - 1) =~= cs@.subrange(0, end as int).drop_last());
        }
        end = end - 1;
    }
    proof {
        assert(trim_end(cs@.subrange(0, end as int)) == cs@.subrange(0, end as int));
    }
    let ghost t1 = cs@.subrange(0, end as int);
    while end > 0 && cs[end - 1] == ';'
        invariant
            end <= cs.len(),
            trim_end_char(cs@.subrange(0, end as int), ';') == trim_end_char(t1, ';'),
        decreases end,
    {
        proof {
            assert(cs@.subrange(0, end - 1) =~= cs@.subrange(0, end as int).drop_last());
        }
        end = end - 1;
    }
    proof {
        assert(trim_end_char(cs@.subrange(0, end as int), ';') == cs@.subrange(0, end as int));
    }
    let ghost t2 = cs@.subrange(0, end as int);
    while end > 0 && crate::text::char_is_ws(cs[end - 1])
        invariant
            end <= cs.len(),
            trim_end(cs@.subrange(0, end as int)) == trim_end(t2),
        decreases end,
    {
        proof {
            assert(cs@.subrange(0, end - 1) =~= cs@.subrange(0, end as int).drop_last());
        }
        end = end - 1;
    }
    proof {
        assert(trim_end(cs@.subrange(0, end as int)) == cs@.subrange(0, end as int));
    }
    let mut out = String::new();
    let mut k: usize = 0;
    while k < end
        invariant
            k <= end <= cs.len(),
            out@ == cs@.subrange(0, k as int),
        decreases end - k,
    {
        out.push(cs[k]);
        proof {
            assert(cs@.subrange(0, k + 1) =~= cs@.subrange(0, k as int).push(cs@[k as int]));
        }
        k = k + 1;
    }
    out
}

/// The shim header for the collected declarations.
pub fn shim_header_text(aliases: &Vec<TypeAlias>, functions: &Vec<FunctionDecl>, known: &Vec<String>,
    amap: &Vec<(String, String)>, namespace: &str) -> (r: String)
    requires
        forall|k: int| 0 <= k < aliases@.len() ==> apply_ok((#[trigger] aliases@[k]).source_decl@,
            alias_reps(alias_view(aliases@[k]), views(known@), namespace@)),
        forall|k: int| 0 <= k < functions@.len() ==> apply_ok((#[trigger] functions@[k]).source_decl@,
            function_reps(function_view(functions@[k]), views(known@), pairs_view(amap@), namespace@)),
    ensures
        r@ == "#pragma once\n\n"@ + "#ifdef __cplusplus\nextern \"C\" {\n#endif\n\n"@
            + concat(aliases@.map_values(|a: TypeAlias| alias_line(alias_view(a), views(known@), namespace@)))
            + (if aliases@.len() > 0 { seq!['\n'] } else { Seq::empty() })
            + concat(functions@.map_values(|f: FunctionDecl| function_line(function_view(f), views(known@), pairs_view(amap@), namespace@)))
            + "\n#ifdef __cplusplus\n}\n#endif\n"@,
{
    let mut header_out = String::new();
    header_out.append("#pragma once\n\n");
    header_out.append("#ifdef __cplusplus\nextern \"C\" {\n#endif\n\n");
    let ghost head = header_out@;
    let mut k: usize = 0;
    while k < aliases.len()
        invariant
            k <= aliases.len(),
            forall|q: int| 0 <= q < aliases@.len() ==> apply_ok((#[trigger] aliases@[q]).source_decl@,
                alias_reps(alias_view(aliases@[q]), views(known@), namespace@)),
            header_out@ == head + concat(aliases@.subrange(0, k as int).map_values(|a: TypeAlias| alias_line(alias_view(a), views(known@), namespace@))),
        decreases aliases.len() - k,
    {
        proof {
            let sub = aliases@.subrange(0, k + 1).map_values(|a: TypeAlias| alias_line(alias_view(a), views(known@), namespace@));
            assert(sub.drop_last() =~= aliases@.subrange(0, k as int).map_values(|a: TypeAlias| alias_line(alias_view(a), views(known@), namespace@)));
        }
        let rewritten = rewrite_alias(&aliases[k], known, namespace);
        header_out.append(rewritten.as_str());
        if !ends_with_newline(&rewritten) {
            header_out.push('\n');
        }
        k = k + 1;
    }
    proof {
        assert(aliases@.subrange(0, aliases@.len() as int) =~= aliases@);
    }
    if aliases.len() > 0 {
        header_out.push('\n');
    }
    let ghost head2 = header_out@;
    let mut k: usize = 0;
    while k < functions.len()
        invariant
            k <= functions.len(),
            forall|q: int| 0 <= q < functions@.len() ==> apply_ok((#[trigger] functions@[q]).source_decl@,
                function_reps(function_view(functions@[q]), views(known@), pairs_view(amap@), namespace@)),
            header_out@ == head2 + concat(functions@.subrange(0, k as int).map_values(|f: FunctionDecl| function_line(function_view(f), views(known@), pairs_view(amap@), namespace@))),
        decreases functions.len() - k,
    {
        proof {
            let sub = functions@.subrange(0, k + 1).map_values(|f: FunctionDecl| function_line(function_view(f), views(known@), pairs_view(amap@), namespace@));
            assert(sub.drop_last() =~= functions@.subrange(0, k as int).map_values(|f: FunctionDecl| function_line(function_view(f), views(known@), pairs_view(amap@), namespace@)));
        }
        let rewritten = rewrite_function_decl(&functions[k], known, amap, namespace);
        header_out.append(rewritten.as_str());
        if !ends_with_newline(&rewritten) {
            header_out.push('\n');
        }
        k = k + 1;
    }
    proof {
        assert(functions@.subrange(0, functions@.len() as int) =~= functions@);
    }
    header_out.append("\n#ifdef __cplusplus\n}\n#endif\n");
    header_out
}

/// One shim function.
fn shim_function(func: &FunctionDecl, known: &Vec<String>, amap: &Vec<(String, String)>, namespace: &str) -> (r: String)
    requires
        apply_ok(func.source_decl@, function_reps(function_view(*func), views(known@), pairs_view(amap@), namespace@)),
    ensures
        r@ == shim_fn_text(function_view(*func), views(known@), pairs_view(amap@), namespace@),
{
    let ghost fv = function_view(*func);
    let rewritten = rewrite_function_decl(func, known, amap, namespace);
    let signature = prototype_of(&rewritten);
    let mut forwarded: Vec<String> = Vec::new();
    let mut k: usize = 0;
    while k < func.param_conversions.len()
        invariant
            k <= func.param_conversions.len(),
            fv == function_view(*func),
            views(forwarded@) =~= fv.convs.subrange(0, k as int).map_values(|c: (Seq<char>, Option<Seq<char>>, nat)| forward_arg_text(c, views(known@), namespace@)),
        decreases func.param_conversions.len() - k,
    {
        let ghost prev = forwarded@;
        let a = build_forward_arg_expr(&func.param_conversions[k], known, namespace);
        forwarded.push(a);
        proof {
            assert(fv.convs[k as int] == param_view(func.param_conversions@[k as int]));
            assert(views(forwarded@) =~= views(prev).push(a@));
            assert(fv.convs.subrange(0, k + 1).map_values(|c: (Seq<char>, Option<Seq<char>>, nat)| forward_arg_text(c, views(known@), namespace@))
                =~= fv.convs.subrange(0, k as int).map_values(|c: (Seq<char>, Option<Seq<char>>, nat)| forward_arg_text(c, views(known@), namespace@)).push(a@));
        }
        k = k + 1;
    }
    proof {
        assert(fv.convs.subrange(0, fv.convs.len() as int) =~= fv.convs);
    }
    let args = join_strings(&forwarded, ", ");
    let mut call_expr = func.name.clone();
    call_expr.push('(');
    call_expr.append(args.as_str());
    call_expr.push(')');
    let mut out = signature;
    out.append(" {\n");
    if func.is_void_return {
        out.append("    ");
        out.append(call_expr.as_str());
        out.append(";\n");
    } else {
        let return_expr = build_return_expr(call_expr.as_str(), &func.return_conversion, known, namespace);
        out.append("    return ");
        out.append(return_expr.as_str());
        out.append(";\n");
    }
    out.append("}\n\n");
    proof {
        assert(out@ =~= shim_fn_text(fv, views(known@), pairs_view(amap@), namespace@));
    }
    out
}

/// The shim C file for the collected functions.
pub fn shim_c_text(functions: &Vec<FunctionDecl>, known: &Vec<String>, amap: &Vec<(String, String)>, namespace: &str,
    vendor_header_name: &str, shim_header: &str) -> (r: String)
    requires
        forall|k: int| 0 <= k < functions@.len() ==> apply_ok((#[trigger] functions@[k]).source_decl@,
            function_reps(function_view(functions@[k]), views(known@), pairs_view(amap@), namespace@)),
    ensures
        r@ == "#include \""@ + vendor_header_name@ + "\"\n"@ + "#include \""@ + shim_header@ + "\"\n\n"@
            + concat(functions@.map_values(|f: FunctionDecl| shim_fn_text(function_view(f), views(known@), pairs_view(amap@), namespace@))),
{
    let mut c_out = String::from_str("#include \"");
    c_out.append(vendor_header_name);
    c_out.append("\"\n");
    c_out.append("#include \"");
    c_out.append(shim_header);
    c_out.append("\"\n\n");
    let ghost head = c_out@;
    let mut k: usize = 0;
    while k < functions.len()
        invariant
            k <= functions.len(),
            forall|q: int| 0 <= q < functions@.len() ==> apply_ok((#[trigger] functions@[q]).source_decl@,
                function_reps(function_view(functions@[q]), views(known@), pairs_view(amap@), namespace@)),
            c_out@ == head + concat(functions@.subrange(0, k as int).map_values(|f: FunctionDecl| shim_fn_text(function_view(f), views(known@), pairs_view(amap@), namespace@))),
        decreases functions.len() - k,
    {
        proof {
            let sub = functions@.subrange(0, k + 1).map_values(|f: FunctionDecl| shim_fn_text(function_view(f), views(known@), pairs_view(amap@), namespace@));
            assert(sub.drop_last() =~= functions@.subrange(0, k as int).map_values(|f: FunctionDecl| shim_fn_text(function_view(f), views(known@), pairs_view(amap@), namespace@)));
        }
        let text = shim_function(&functions[k], known, amap, namespace);
        c_out.append(text.as_str());
        k = k + 1;
    }
    proof {
        assert(functions@.subrange(0, functions@.len() as int) =~= functions@);
    }
    c_out
}


/// Packages the declarations of a header: the shim header `atlas77-<stem>.h`, the shim C
/// file `atlas77-<stem>.c` (which includes `vendor_header_name`), the Atlas module
/// `<stem>.atlas`, and the list of what was skipped.
pub fn package_declarations(decls: &Vec<CDeclaration>, source: &str, namespace: &str, stem: &str,
    vendor_header_name: &str) -> (r: PackageOutput)
    requires
        forall|k: int| 0 <= k < decls@.len() ==> decl_fits(#[trigger] decls@[k]),
        rewrites_ok(collected(decls@, source@, namespace@), namespace@),
    ensures
        r.shim_header_name@ == shim_header_name(stem@),
        r.shim_c_name@ == shim_c_name(stem@),
        r.atlas_module_name@ == atlas_module_name(stem@),
        r.header@ == header_text(collected(decls@, source@, namespace@), namespace@),
        r.c_source@ == c_text(collected(decls@, source@, namespace@), namespace@, vendor_header_name@, shim_header_name(stem@)),
        r.atlas_module@ == atlas_module_text(namespace@,
            collected(decls@, source@, namespace@).functions.map_values(|f: FunctionV| f.atlas_signature),
            collected(decls@, source@, namespace@).composites, collected(decls@, source@, namespace@).enums,
            collected(decls@, source@, namespace@).skipped),
        skips_view(r.skipped@) == collected(decls@, source@, namespace@).skipped,
{
    let acc = collect_declarations(decls, source, namespace);
    let ghost c = collected(decls@, source@, namespace@);
    let known = known_type_names_of(&acc.type_aliases);
    let amap = resolve_alias_chains(&acc.type_aliases);
    proof {
        lemma_known_views(acc.type_aliases@, known@, amap@);
        assert(c.aliases == acc.type_aliases@.map_values(|a: TypeAlias| alias_view(a)));
        assert(c.functions == acc.functions@.map_values(|f: FunctionDecl| function_view(f)));
        assert forall|k: int| 0 <= k < acc.type_aliases@.len() implies apply_ok((#[trigger] acc.type_aliases@[k]).source_decl@,
            alias_reps(alias_view(acc.type_aliases@[k]), views(known@), namespace@)) by {
            assert(c.aliases[k] == alias_view(acc.type_aliases@[k]));
        }
        assert forall|k: int| 0 <= k < acc.functions@.len() implies apply_ok((#[trigger] acc.functions@[k]).source_decl@,
            function_reps(function_view(acc.functions@[k]), views(known@), pairs_view(amap@), namespace@)) by {
            assert(c.functions[k] == function_view(acc.functions@[k]));
        }
    }
    let mut shim_header = String::from_str("atlas77-");
    shim_header.append(stem);
    shim_header.append(".h");
    let mut shim_c = String::from_str("atlas77-");
    shim_c.append(stem);
    shim_c.append(".c");
    let mut module_name = String::from_str(stem);
    module_name.append(".atlas");
    let header = shim_header_text(&acc.type_aliases, &acc.functions, &known, &amap, namespace);
    let c_source = shim_c_text(&acc.functions, &known, &amap, namespace, vendor_header_name, shim_header.as_str());
    let atlas_module = generate_atlas_module(namespace, &acc.functions, &acc.composites, &acc.enums, &acc.skipped);
    proof {
        let known_v = known_names(c.aliases);
        let amap_v = alias_pairs(c.aliases);
        assert(c.aliases.map_values(|a: AliasV| alias_line(a, known_v, namespace@))
            =~= acc.type_aliases@.map_values(|a: TypeAlias| alias_line(alias_view(a), views(known@), namespace@)));
        assert(c.functions.map_values(|f: FunctionV| function_line(f, known_v, amap_v, namespace@))
            =~= acc.functions@.map_values(|f: FunctionDecl| function_line(function_view(f), views(known@), pairs_view(amap@), namespace@)));
        assert(c.functions.map_values(|f: FunctionV| shim_fn_text(f, known_v, amap_v, namespace@))
            =~= acc.functions@.map_values(|f: FunctionDecl| shim_fn_text(function_view(f), views(known@), pairs_view(amap@), namespace@)));
        assert(c.functions.map_values(|f: FunctionV| f.atlas_signature) =~= signatures(acc.functions@));
    }
    PackageOutput {
        shim_header_name: shim_header,
        shim_c_name: shim_c,
        atlas_module_name: module_name,
        header,
        c_source,
        atlas_module,
        skipped: acc.skipped,
    }
}


/// Whether every rewrite that packaging the declarations makes cuts their text at
/// character boundaries (see `rewrites_ok`).
pub fn rewrites_apply(decls: &Vec<CDeclaration>, source: &str, namespace: &str) -> (b: bool)
    requires
        forall|k: int| 0 <= k < decls@.len() ==> decl_fits(#[trigger] decls@[k]),
    ensures
        b == rewrites_ok(collected(decls@, source@, namespace@), namespace@),
{
    let acc = collect_declarations(decls, source, namespace);
    let ghost c = collected(decls@, source@, namespace@);
    let known = known_type_names_of(&acc.type_aliases);
    let amap = resolve_alias_chains(&acc.type_aliases);
    proof {
        lemma_known_views(acc.type_aliases@, known@, amap@);
        assert(c.aliases == acc.type_aliases@.map_values(|a: TypeAlias| alias_view(a)));
        assert(c.functions == acc.functions@.map_values(|f: FunctionDecl| function_view(f)));
    }
    let ghost kn = known_names(c.aliases);
    let ghost am = alias_pairs(c.aliases);
    let mut k: usize = 0;
    while k < acc.type_aliases.len()
        invariant
            k <= acc.type_aliases@.len(),
            c == collected(decls@, source@, namespace@),
            c.aliases == acc.type_aliases@.map_values(|a: TypeAlias| alias_view(a)),
            views(known@) == kn,
            kn == known_names(c.aliases),
            forall|q: int| 0 <= q < k ==> apply_ok((#[trigger] c.aliases[q]).source_decl, alias_reps(c.aliases[q], kn, namespace@)),
        decreases acc.type_aliases.len() - k,
    {
        let reps = alias_replacements(&acc.type_aliases[k], &known, namespace);
        proof {
            assert(c.aliases[k as int] == alias_view(acc.type_aliases@[k as int]));
        }
        if try_apply_replacements(acc.type_aliases[k].source_decl.as_str(), &reps).is_none() {
            return false;
        }
        k = k + 1;
    }
    let mut k: usize = 0;
    while k < acc.functions.len()
        invariant
            k <= acc.functions@.len(),
            c == collected(decls@, source@, namespace@),
            c.aliases == acc.type_aliases@.map_values(|a: TypeAlias| alias_view(a)),
            c.functions == acc.functions@.map_values(|f: FunctionDecl| function_view(f)),
            views(known@) == kn,
            pairs_view(amap@) == am,
            kn == known_names(c.aliases),
            am == alias_pairs(c.aliases),
            forall|q: int| 0 <= q < c.aliases.len() ==> apply_ok((#[trigger] c.aliases[q]).source_decl, alias_reps(c.aliases[q], kn, namespace@)),
            forall|q: int| 0 <= q < k ==> apply_ok((#[trigger] c.functions[q]).source_decl, function_reps(c.functions[q], kn, am, namespace@)),
        decreases acc.functions.len() - k,
    {
        let reps = function_replacements(&acc.functions[k], &known, &amap, namespace);
        proof {
            assert(c.functions[k as int] == function_view(acc.functions@[k as int]));
        }
        if try_apply_replacements(acc.functions[k].source_decl.as_str(), &reps).is_none() {
            return false;
        }
        k = k + 1;
    }
    true
}

} // verus!
