//! The Atlas module that declares what a packaged header provides.
use vstd::prelude::*;
use vstd::string::StringExecFns;
use crate::text::{str_eq, trim, trim_str};
use super::composite::{composite_view, composites_view, enums_view, skips_view, CompositeDecl, CompositeKind, EnumDecl};
use super::{FunctionDecl, SkipInfo};

verus! {

pub open spec fn concat(parts: Seq<Seq<char>>) -> Seq<char>
    decreases parts.len(),
{
    if parts.len() == 0 {
        Seq::empty()
    } else {
        concat(parts.drop_last()) + parts.last()
    }
}

pub open spec fn kind_name(k: CompositeKind) -> Seq<char> {
    match k {
        CompositeKind::Struct => "struct"@,
        CompositeKind::Union => "union"@,
    }
}

/// `        name: type;`
pub open spec fn member_text(f: (Seq<char>, Seq<char>)) -> Seq<char> {
    "        "@ + f.0 + ": "@ + f.1 + ";\n"@
}

/// An extern struct or union declaration with its public members.
pub open spec fn composite_text(c: (CompositeKind, Seq<char>, Seq<(Seq<char>, Seq<char>)>)) -> Seq<char> {
    "    public extern "@ + kind_name(c.0) + seq![' '] + c.1 + "\n"@ + "    {\n"@ + "    public:\n"@
        + concat(c.2.map_values(|f: (Seq<char>, Seq<char>)| member_text(f))) + "    }\n\n"@
}

/// No earlier composite has the same name and kind.
pub open spec fn first_composite(cs: Seq<(CompositeKind, Seq<char>, Seq<(Seq<char>, Seq<char>)>)>, k: int) -> bool {
    forall|j: int| 0 <= j < k ==> !(#[trigger] cs[j].1 == cs[k].1 && cs[j].0 == cs[k].0)
}

/// Each composite declared once, at its first occurrence.
pub open spec fn composites_text(cs: Seq<(CompositeKind, Seq<char>, Seq<(Seq<char>, Seq<char>)>)>, n: int) -> Seq<char>
    decreases n,
{
    if n <= 0 {
        Seq::empty()
    } else {
        composites_text(cs, n - 1) + if first_composite(cs, n - 1) { composite_text(cs[n - 1]) } else { Seq::empty() }
    }
}

/// `        name = value;` (the value trimmed) or `        name;`
pub open spec fn variant_text(v: (Seq<char>, Option<Seq<char>>)) -> Seq<char> {
    match v.1 {
        Some(val) => "        "@ + v.0 + " = "@ + trim(val) + ";\n"@,
        None => "        "@ + v.0 + ";\n"@,
    }
}

pub open spec fn enum_text(e: (Seq<char>, Seq<(Seq<char>, Option<Seq<char>>)>)) -> Seq<char> {
    "    public enum "@ + e.0 + " {\n"@ + concat(e.1.map_values(|v: (Seq<char>, Option<Seq<char>>)| variant_text(v)))
        + "    }\n\n"@
}

/// No earlier enum has the same name.
pub open spec fn first_enum(es: Seq<(Seq<char>, Seq<(Seq<char>, Option<Seq<char>>)>)>, k: int) -> bool {
    forall|j: int| 0 <= j < k ==> #[trigger] es[j].0 != es[k].0
}

pub open spec fn enums_text(es: Seq<(Seq<char>, Seq<(Seq<char>, Option<Seq<char>>)>)>, n: int) -> Seq<char>
    decreases n,
{
    if n <= 0 {
        Seq::empty()
    } else {
        enums_text(es, n - 1) + if first_enum(es, n - 1) { enum_text(es[n - 1]) } else { Seq::empty() }
    }
}

/// `    public extern <signature>` for each function.
pub open spec fn externs_text(sigs: Seq<Seq<char>>) -> Seq<char> {
    concat(sigs.map_values(|s: Seq<char>| "    public extern "@ + s.push('\n')))
}

/// A comment listing the skipped declarations, when there are any.
pub open spec fn skipped_text(ss: Seq<(Seq<char>, Seq<char>)>) -> Seq<char> {
    if ss.len() == 0 {
        Seq::empty()
    } else {
        "\n    // Skipped by package command:\n"@
            + concat(ss.map_values(|s: (Seq<char>, Seq<char>)| "    // - "@ + s.0 + ": "@ + s.1 + "\n"@))
    }
}

/// The Atlas module: the namespace holding the structs and unions (each name once), the
/// enums (each name once), the functions, and a note of what was skipped.
pub open spec fn atlas_module_text(namespace: Seq<char>, sigs: Seq<Seq<char>>,
    cs: Seq<(CompositeKind, Seq<char>, Seq<(Seq<char>, Seq<char>)>)>,
    es: Seq<(Seq<char>, Seq<(Seq<char>, Option<Seq<char>>)>)>, ss: Seq<(Seq<char>, Seq<char>)>) -> Seq<char>
{
    "namespace "@ + namespace + " {\n"@ + composites_text(cs, cs.len() as int) + enums_text(es, es.len() as int)
        + externs_text(sigs) + skipped_text(ss) + "}\n"@
}

pub open spec fn signatures(fs: Seq<FunctionDecl>) -> Seq<Seq<char>> {
    fs.map_values(|f: FunctionDecl| f.atlas_signature@)
}

/// Concatenating two lists of texts is concatenating each.
proof fn lemma_concat_append(a: Seq<Seq<char>>, b: Seq<Seq<char>>)
    ensures
        concat(a + b) == concat(a) + concat(b),
    decreases b.len(),
{
    if b.len() == 0 {
        assert(a + b =~= a);
        assert(concat(a) + concat(b) =~= concat(a));
    } else {
        lemma_concat_append(a, b.drop_last());
        assert((a + b).drop_last() =~= a + b.drop_last());
        assert(concat(a) + concat(b) =~= concat(a) + concat(b.drop_last()) + b.last());
    }
}

/// Part `i` of a concatenation stands right after the parts before it.
proof fn lemma_concat_part(parts: Seq<Seq<char>>, i: int)
    requires
        0 <= i < parts.len(),
    ensures
        concat(parts.take(i)).len() + parts[i].len() <= concat(parts).len(),
        concat(parts).subrange(concat(parts.take(i)).len() as int, (concat(parts.take(i)).len() + parts[i].len()) as int)
            == parts[i],
{
    let before = concat(parts.take(i));
    assert(parts.take(i + 1).drop_last() =~= parts.take(i));
    assert(concat(parts.take(i + 1)) == before + parts[i]);
    assert(parts =~= parts.take(i + 1) + parts.skip(i + 1));
    lemma_concat_append(parts.take(i + 1), parts.skip(i + 1));
    assert(concat(parts) == before + parts[i] + concat(parts.skip(i + 1)));
    assert(concat(parts).subrange(before.len() as int, (before.len() + parts[i].len()) as int) =~= parts[i]);
}

/// The line declaring one function.
pub open spec fn extern_line(sig: Seq<char>) -> Seq<char> {
    "    public extern "@ + sig.push('\n')
}

/// The line noting one skipped declaration.
pub open spec fn skip_line(s: (Seq<char>, Seq<char>)) -> Seq<char> {
    "    // - "@ + s.0 + ": "@ + s.1 + "\n"@
}

/// The module text opens the namespace and closes it with `}`; in between stand the
/// structs, unions and enums, then one `public extern` line per function, in the order of
/// the functions, then the note of what was skipped.
pub proof fn lemma_atlas_module_layout(namespace: Seq<char>, sigs: Seq<Seq<char>>,
    cs: Seq<(CompositeKind, Seq<char>, Seq<(Seq<char>, Seq<char>)>)>,
    es: Seq<(Seq<char>, Seq<(Seq<char>, Option<Seq<char>>)>)>, ss: Seq<(Seq<char>, Seq<char>)>)
    ensures
        ({
            let t = atlas_module_text(namespace, sigs, cs, es, ss);
            let head = "namespace "@ + namespace + " {\n"@;
            let decls = composites_text(cs, cs.len() as int) + enums_text(es, es.len() as int);
            let start = (head.len() + decls.len()) as int;
            &&& t.subrange(0, head.len() as int) == head
            &&& t.subrange(t.len() - 2, t.len() as int) == "}\n"@
            &&& t.subrange(head.len() as int, start as int) == decls
            &&& forall|i: int| 0 <= i < sigs.len() ==> t.subrange(start + externs_text(sigs.take(i)).len(),
                start + externs_text(sigs.take(i)).len() + extern_line(sigs[i]).len() as int) == extern_line(#[trigger] sigs[i])
            &&& t.subrange(start + externs_text(sigs).len(), t.len() - 2) == skipped_text(ss)
        }),
{
    reveal_strlit("}\n");
    let t = atlas_module_text(namespace, sigs, cs, es, ss);
    let head = "namespace "@ + namespace + " {\n"@;
    let decls = composites_text(cs, cs.len() as int) + enums_text(es, es.len() as int);
    let start = (head.len() + decls.len()) as int;
    let ext = externs_text(sigs);
    let lines = sigs.map_values(|s: Seq<char>| "    public extern "@ + s.push('\n'));
    assert(t =~= head + decls + ext + skipped_text(ss) + "}\n"@);
    assert(t.subrange(0, head.len() as int) =~= head);
    assert(t.subrange(t.len() - 2, t.len() as int) =~= "}\n"@);
    assert(t.subrange(head.len() as int, start as int) =~= decls);
    assert(t.subrange(start + ext.len(), t.len() - 2) =~= skipped_text(ss));
    assert forall|i: int| 0 <= i < sigs.len() implies t.subrange(start + externs_text(sigs.take(i)).len(),
        start + externs_text(sigs.take(i)).len() + extern_line(sigs[i]).len() as int) == extern_line(#[trigger] sigs[i]) by {
        assert(sigs.take(i).map_values(|s: Seq<char>| "    public extern "@ + s.push('\n')) =~= lines.take(i));
        assert(lines[i] == extern_line(sigs[i]));
        lemma_concat_part(lines, i);
        let o = externs_text(sigs.take(i)).len() as int;
        assert(ext == concat(lines));
        assert(t.subrange(start + o, start + o + extern_line(sigs[i]).len())
            =~= ext.subrange(o, o + extern_line(sigs[i]).len()));
    }
}

/// The note of skipped declarations is there exactly when something was skipped; it opens
/// with its heading and then lists each skipped declaration, in order, with its reason.
pub proof fn lemma_skipped_note(ss: Seq<(Seq<char>, Seq<char>)>)
    ensures
        (skipped_text(ss).len() == 0) == (ss.len() == 0),
        ss.len() > 0 ==> ({
            let heading = "\n    // Skipped by package command:\n"@;
            let body = concat(ss.map_values(|s: (Seq<char>, Seq<char>)| "    // - "@ + s.0 + ": "@ + s.1 + "\n"@));
            &&& skipped_text(ss).subrange(0, heading.len() as int) == heading
            &&& forall|i: int| 0 <= i < ss.len() ==> skipped_text(ss).subrange(
                (heading.len() + concat(ss.take(i).map_values(|s: (Seq<char>, Seq<char>)| "    // - "@ + s.0 + ": "@ + s.1 + "\n"@)).len()) as int,
                (heading.len() + concat(ss.take(i).map_values(|s: (Seq<char>, Seq<char>)| "    // - "@ + s.0 + ": "@ + s.1 + "\n"@)).len()
                    + skip_line(ss[i]).len()) as int) == skip_line(#[trigger] ss[i])
        }),
{
    reveal_strlit("\n    // Skipped by package command:\n");
    if ss.len() > 0 {
        let heading = "\n    // Skipped by package command:\n"@;
        let lines = ss.map_values(|s: (Seq<char>, Seq<char>)| "    // - "@ + s.0 + ": "@ + s.1 + "\n"@);
        let body = concat(lines);
        assert(skipped_text(ss) == heading + body);
        assert(skipped_text(ss).subrange(0, heading.len() as int) =~= heading);
        assert forall|i: int| 0 <= i < ss.len() implies skipped_text(ss).subrange(
            (heading.len() + concat(ss.take(i).map_values(|s: (Seq<char>, Seq<char>)| "    // - "@ + s.0 + ": "@ + s.1 + "\n"@)).len()) as int,
            (heading.len() + concat(ss.take(i).map_values(|s: (Seq<char>, Seq<char>)| "    // - "@ + s.0 + ": "@ + s.1 + "\n"@)).len()
                + skip_line(ss[i]).len()) as int) == skip_line(#[trigger] ss[i]) by {
            assert(ss.take(i).map_values(|s: (Seq<char>, Seq<char>)| "    // - "@ + s.0 + ": "@ + s.1 + "\n"@) =~= lines.take(i));
            assert(lines[i] == skip_line(ss[i]));
            lemma_concat_part(lines, i);
            let o = concat(lines.take(i)).len() as int;
            assert(body == concat(lines));
            assert(skipped_text(ss).subrange(heading.len() + o, heading.len() + o + skip_line(ss[i]).len())
                =~= body.subrange(o, o + skip_line(ss[i]).len()));
        }
    }
}

/// The Atlas module for the packaged header.
pub fn generate_atlas_module(namespace: &str, functions: &Vec<FunctionDecl>, composites: &Vec<CompositeDecl>,
    enums: &Vec<EnumDecl>, skipped: &Vec<SkipInfo>) -> (r: String)
    ensures
        r@ == atlas_module_text(namespace@, signatures(functions@), composites_view(composites@), enums_view(enums@),
            skips_view(skipped@)),
{
    let mut out = String::from_str("namespace ");
    out.append(namespace);
    out.append(" {\n");
    let ghost head = out@;
    let ghost cs = composites_view(composites@);
    let mut i: usize = 0;
    while i < composites.len()
        invariant
            i <= composites.len(),
            cs == composites_view(composites@),
            out@ == head + composites_text(cs, i as int),
        decreases composites.len() - i,
    {
        let comp = &composites[i];
        let mut seen = false;
        let mut j: usize = 0;
        while j < i
            invariant
                j <= i < composites.len(),
                cs == composites_view(composites@),
                comp == composites@[i as int],
                seen == exists|q: int| 0 <= q < j && #[trigger] cs[q].1 == cs[i as int].1 && cs[q].0 == cs[i as int].0,
            decreases i - j,
        {
            proof {
                assert(cs[j as int] == composite_view(composites@[j as int]));
                assert(cs[i as int] == composite_view(composites@[i as int]));
            }
            let same = composites[j].kind == comp.kind && str_eq(composites[j].name.as_str(), comp.name.as_str());
            proof {
                assert(same == (cs[j as int].1 == cs[i as int].1 && cs[j as int].0 == cs[i as int].0));
            }
            if same {
                seen = true;
            }
            j = j + 1;
        }
        let ghost before = out@;
        if !seen {
            out.append("    public extern ");
            match comp.kind {
                CompositeKind::Struct => out.append("struct"),
                CompositeKind::Union => out.append("union"),
            }
            out.push(' ');
            out.append(comp.name.as_str());
            out.append("\n");
            out.append("    {\n");
            out.append("    public:\n");
            let ghost mid = out@;
            let ghost members = cs[i as int].2;
            let mut k: usize = 0;
            while k < comp.fields.len()
                invariant
                    k <= comp.fields.len(),
                    cs == composites_view(composites@),
                    comp == composites@[i as int],
                    i < composites.len(),
                    members == cs[i as int].2,
                    out@ == mid + concat(members.subrange(0, k as int).map_values(|f: (Seq<char>, Seq<char>)| member_text(f))),
                decreases comp.fields.len() - k,
            {
                proof {
                    let sub = members.subrange(0, k + 1).map_values(|f: (Seq<char>, Seq<char>)| member_text(f));
                    assert(sub.drop_last() =~= members.subrange(0, k as int).map_values(|f: (Seq<char>, Seq<char>)| member_text(f)));
                    assert(members[k as int] == (comp.fields@[k as int].name@, comp.fields@[k as int].ty@));
                }
                out.append("        ");
                out.append(comp.fields[k].name.as_str());
                out.append(": ");
                out.append(comp.fields[k].ty.as_str());
                out.append(";\n");
                k = k + 1;
            }
            proof {
                assert(members.subrange(0, members.len() as int) =~= members);
            }
            out.append("    }\n\n");
            proof {
                assert(out@ =~= before + composite_text(cs[i as int]));
            }
        }
        proof {
            assert(out@ =~= head + composites_text(cs, i + 1));
        }
        i = i + 1;
    }
    let ghost head2 = out@;
    let ghost es = enums_view(enums@);
    let mut i: usize = 0;
    while i < enums.len()
        invariant
            i <= enums.len(),
            es == enums_view(enums@),
            out@ == head2 + enums_text(es, i as int),
        decreases enums.len() - i,
    {
        let en = &enums[i];
        let mut seen = false;
        let mut j: usize = 0;
        while j < i
            invariant
                j <= i < enums.len(),
                es == enums_view(enums@),
                en == enums@[i as int],
                seen == exists|q: int| 0 <= q < j && #[trigger] es[q].0 == es[i as int].0,
            decreases i - j,
        {
            proof {
                assert(es[j as int] == super::composite::enum_view(enums@[j as int]));
                assert(es[i as int] == super::composite::enum_view(enums@[i as int]));
            }
            let same = str_eq(enums[j].name.as_str(), en.name.as_str());
            proof {
                assert(same == (es[j as int].0 == es[i as int].0));
            }
            if same {
                seen = true;
            }
            j = j + 1;
        }
        let ghost before = out@;
        if !seen {
            out.append("    public enum ");
            out.append(en.name.as_str());
            out.append(" {\n");
            let ghost mid = out@;
            let ghost vs = es[i as int].1;
            let mut k: usize = 0;
            while k < en.variants.len()
                invariant
                    k <= en.variants.len(),
                    es == enums_view(enums@),
                    en == enums@[i as int],
                    i < enums.len(),
                    vs == es[i as int].1,
                    out@ == mid + concat(vs.subrange(0, k as int).map_values(|v: (Seq<char>, Option<Seq<char>>)| variant_text(v))),
                decreases en.variants.len() - k,
            {
                proof {
                    let sub = vs.subrange(0, k + 1).map_values(|v: (Seq<char>, Option<Seq<char>>)| variant_text(v));
                    assert(sub.drop_last() =~= vs.subrange(0, k as int).map_values(|v: (Seq<char>, Option<Seq<char>>)| variant_text(v)));
                }
                let variant = &en.variants[k];
                match &variant.value {
                    Some(v) => {
                        out.append("        ");
                        out.append(variant.name.as_str());
                        out.append(" = ");
                        let t = trim_str(v.as_str());
                        out.append(t.as_str());
                        out.append(";\n");
                    },
                    None => {
                        out.append("        ");
                        out.append(variant.name.as_str());
                        out.append(";\n");
                    },
                }
                k = k + 1;
            }
            proof {
                assert(vs.subrange(0, vs.len() as int) =~= vs);
            }
            out.append("    }\n\n");
            proof {
                assert(out@ =~= before + enum_text(es[i as int]));
            }
        }
        proof {
            assert(out@ =~= head2 + enums_text(es, i + 1));
        }
        i = i + 1;
    }
    let ghost head3 = out@;
    let ghost sigs = signatures(functions@);
    let mut i: usize = 0;
    while i < functions.len()
        invariant
            i <= functions.len(),
            sigs == signatures(functions@),
            out@ == head3 + concat(sigs.subrange(0, i as int).map_values(|s: Seq<char>| "    public extern "@ + s.push('\n'))),
        decreases functions.len() - i,
    {
        proof {
            let sub = sigs.subrange(0, i + 1).map_values(|s: Seq<char>| "    public extern "@ + s.push('\n'));
            assert(sub.drop_last() =~= sigs.subrange(0, i as int).map_values(|s: Seq<char>| "    public extern "@ + s.push('\n')));
        }
        out.append("    public extern ");
        out.append(functions[i].atlas_signature.as_str());
        out.push('\n');
        i = i + 1;
    }
    proof {
        assert(sigs.subrange(0, sigs.len() as int) =~= sigs);
    }
    let ghost head4 = out@;
    let ghost sv = skips_view(skipped@);
    if skipped.len() > 0 {
        out.append("\n    // Skipped by package command:\n");
        let ghost mid = out@;
        let mut i: usize = 0;
        while i < skipped.len()
            invariant
                i <= skipped.len(),
                sv == skips_view(skipped@),
                out@ == mid + concat(sv.subrange(0, i as int).map_values(|s: (Seq<char>, Seq<char>)| "    // - "@ + s.0 + ": "@ + s.1 + "\n"@)),
            decreases skipped.len() - i,
        {
            proof {
                let sub = sv.subrange(0, i + 1).map_values(|s: (Seq<char>, Seq<char>)| "    // - "@ + s.0 + ": "@ + s.1 + "\n"@);
                assert(sub.drop_last() =~= sv.subrange(0, i as int).map_values(|s: (Seq<char>, Seq<char>)| "    // - "@ + s.0 + ": "@ + s.1 + "\n"@));
            }
            out.append("    // - ");
            out.append(skipped[i].name.as_str());
            out.append(": ");
            out.append(skipped[i].reason.as_str());
            out.append("\n");
            i = i + 1;
        }
        proof {
            assert(sv.subrange(0, sv.len() as int) =~= sv);
        }
    }
    out.append("}\n");
    proof {
        assert(out@ =~= atlas_module_text(namespace@, sigs, cs, es, sv));
    }
    out
}

} // verus!
