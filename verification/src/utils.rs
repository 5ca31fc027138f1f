//! Source locations.
use vstd::prelude::*;
use vstd::string::StringExecFns;
use crate::text::{ends_with, has_prefix, has_suffix, starts_with, strip_all_prefixes, trim_start_matches};

verus! {

/// A byte range `[start, end)` in the source file at `path`.
#[derive(Debug, Clone, Copy)]
pub struct Span {
    pub start: usize,
    pub end: usize,
    pub path: &'static str,
}

impl Default for Span {
    fn default() -> (s: Self)
        ensures
            s.start == 0,
            s.end == 0,
            s.path@ == "<stdin>"@,
    {
        Span { start: 0, end: 0, path: "<stdin>" }
    }
}

/// Things that cover a range of source text.
pub trait Spanned: Sized {
    /// A value covering both `self` and `other`.
    fn union_span(&self, other: &Self) -> Self;
}

/// The smallest span covering `a` and `b`, in the file of `a`.
pub open spec fn covering(a: Span, b: Span) -> Span {
    Span {
        start: if a.start <= b.start { a.start } else { b.start },
        end: if a.end >= b.end { a.end } else { b.end },
        path: a.path,
    }
}

/// The union covers both spans, and joining spans does not depend on how they are grouped.
pub proof fn lemma_covering_laws(a: Span, b: Span, c: Span)
    ensures
        covering(a, b).start <= a.start && covering(a, b).start <= b.start,
        covering(a, b).end >= a.end && covering(a, b).end >= b.end,
        covering(covering(a, b), c) == covering(a, covering(b, c)),
        covering(a, a) == a,
{
}

impl Spanned for Span {
    /// The smallest span covering both spans; the path is the one of `self`.
    fn union_span(&self, other: &Span) -> (r: Span)
        ensures
            r == covering(*self, *other),
    {
        Span {
            start: if self.start <= other.start { self.start } else { other.start },
            end: if self.end >= other.end { self.end } else { other.end },
            path: self.path,
        }
    }
}

/// `String::leak`: the text stays allocated for the rest of the program and a
/// reference to it is handed back; the text is unchanged.
#[verifier::external_body]
pub fn string_to_static_str(s: String) -> (r: &'static str)
    ensures
        r@ == s@,
{
    s.leak()
}


/// Where the text of a source file is read from.
#[derive(Debug)]
pub enum SourceLocation {
    /// A file of the embedded standard library, by its name there.
    Std(String),
    /// A file of the embedded core library, by its name there.
    Core(String),
    /// A file on disk; when it cannot be read, `fallback` (the path under `src/`) is tried.
    Disk { path: String, fallback: String },
}

/// The path with the `.atlas` extension added when it does not end with it.
pub open spec fn with_atlas_extension(path: Seq<char>) -> Seq<char> {
    if has_suffix(path, ".atlas"@) { path } else { path + ".atlas"@ }
}

/// Where a source path is read from: paths under `std/` and `core/` name files of the
/// embedded libraries (with every leading `std/` or `core/` removed), other paths are
/// files on disk, with a fallback under `src/`.
pub open spec fn locates(path: Seq<char>, loc: SourceLocation) -> bool {
    let p = with_atlas_extension(path);
    if has_prefix(p, "std/"@) {
        loc matches SourceLocation::Std(f) && f@ == strip_all_prefixes(p, "std/"@)
    } else if has_prefix(p, "core/"@) {
        loc matches SourceLocation::Core(f) && f@ == strip_all_prefixes(p, "core/"@)
    } else {
        loc matches SourceLocation::Disk { path, fallback } && path@ == p && fallback@ == "src/"@ + p
    }
}

/// See `locates`.
pub fn source_location(path: &str) -> (r: SourceLocation)
    ensures
        locates(path@, r),
{
    let p = if ends_with(path, ".atlas") {
        String::from_str(path)
    } else {
        let mut p = String::from_str(path);
        p.append(".atlas");
        p
    };
    proof {
        reveal_strlit("std/");
        reveal_strlit("core/");
    }
    if starts_with(p.as_str(), "std/") {
        return SourceLocation::Std(trim_start_matches(p.as_str(), "std/"));
    }
    if starts_with(p.as_str(), "core/") {
        return SourceLocation::Core(trim_start_matches(p.as_str(), "core/"));
    }
    let mut fallback = String::from_str("src/");
    fallback.append(p.as_str());
    SourceLocation::Disk { path: p, fallback }
}

} // verus!
