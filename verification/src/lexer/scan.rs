//! The token grammar: where each token of the language ends, read on the characters of
//! the source. Every class of token is matched as far as it goes (longest match); where
//! a keyword and an identifier match the same text, the keyword wins.
use vstd::prelude::*;

verus! {

/// Classes of characters that tokens are made of.
#[derive(Clone, Copy, PartialEq, Eq)]
pub enum CharClass {
    /// `[a-zA-Z0-9_]`
    IdentChar,
    /// `[0-9]`
    Digit,
    /// `[ \t\n\f\r]`
    Blank,
    /// anything but `\n`
    NotNewline,
}

pub open spec fn is_ident_start(c: char) -> bool {
    ('a' <= c && c <= 'z') || ('A' <= c && c <= 'Z') || c == '_'
}

pub open spec fn is_digit(c: char) -> bool {
    '0' <= c && c <= '9'
}

pub open spec fn is_blank(c: char) -> bool {
    c == ' ' || c == '\t' || c == '\n' || c == '\x0c' || c == '\r'
}

pub open spec fn in_class(c: char, k: CharClass) -> bool {
    match k {
        CharClass::IdentChar => is_ident_start(c) || is_digit(c),
        CharClass::Digit => is_digit(c),
        CharClass::Blank => is_blank(c),
        CharClass::NotNewline => c != '\n',
    }
}

/// Number of consecutive characters of class `k` from index `i` on.
pub open spec fn run(cs: Seq<char>, i: int, k: CharClass) -> nat
    decreases cs.len() - i,
{
    if 0 <= i < cs.len() && in_class(cs[i], k) {
        1 + run(cs, i + 1, k)
    } else {
        0
    }
}

/// The character at `k`, or `'\0'` past either end.
pub open spec fn at(cs: Seq<char>, k: int) -> char {
    if 0 <= k < cs.len() {
        cs[k]
    } else {
        '\0'
    }
}

/// First index at or after `i` that holds `c`.
pub open spec fn find_char(cs: Seq<char>, i: int, c: char) -> Option<int>
    decreases cs.len() - i,
{
    if i < 0 || i >= cs.len() {
        None
    } else if cs[i] == c {
        Some(i)
    } else {
        find_char(cs, i + 1, c)
    }
}

/// Last index `k` with `lo <= k < hi` where `*/` starts.
pub open spec fn last_close(cs: Seq<char>, lo: int, hi: int) -> Option<int>
    decreases hi - lo,
{
    if hi <= lo {
        None
    } else if 0 <= hi - 1 && hi < cs.len() && cs[hi - 1] == '*' && cs[hi] == '/' {
        Some(hi - 1)
    } else {
        last_close(cs, lo, hi - 1)
    }
}

/// Operators and punctuation.
#[derive(Clone, Copy, Debug, PartialEq, Eq)]
pub enum Punct {
    LParen,
    RParen,
    LBrace,
    RBrace,
    LBracket,
    RBracket,
    Comma,
    Plus,
    OpAssignAdd,
    Minus,
    OpAssignSub,
    Slash,
    OpAssignDiv,
    Star,
    OpAssignMul,
    Percent,
    OpAssignMod,
    OpAssign,
    BackSlash,
    Semicolon,
    Quote,
    Interrogation,
    EqEq,
    NEq,
    Bang,
    DoubleDot,
    Dot,
    Hash,
    DoubleColon,
    Colon,
    RArrow,
    LArrow,
    LFatArrow,
    LAngle,
    OpGreaterThanEq,
    RAngle,
    OpAnd,
    Ampersand,
    OpOr,
    Pipe,
    RFatArrow,
    Tilde,
}

/// What a scan found at a position.
#[derive(Clone, Copy, Debug, PartialEq, Eq)]
pub enum Scanned {
    Blank,
    Word,
    Int,
    UInt,
    Float,
    Str,
    Chr,
    LineComment,
    DocComment,
    BlockComment,
    Punct(Punct),
    /// A `"` with no closing `"`: an error that reaches the end of the input.
    Unterminated,
    /// A character that starts no token.
    Unknown,
}

/// Operator or punctuation starting with `c`, followed by `n`, longest first.
pub open spec fn punct_at(c: char, n: char) -> Option<(Punct, nat)> {
    if c == '(' { Some((Punct::LParen, 1)) }
    else if c == ')' { Some((Punct::RParen, 1)) }
    else if c == '{' { Some((Punct::LBrace, 1)) }
    else if c == '}' { Some((Punct::RBrace, 1)) }
    else if c == '[' { Some((Punct::LBracket, 1)) }
    else if c == ']' { Some((Punct::RBracket, 1)) }
    else if c == ',' { Some((Punct::Comma, 1)) }
    else if c == '+' { if n == '=' { Some((Punct::OpAssignAdd, 2)) } else { Some((Punct::Plus, 1)) } }
    else if c == '-' {
        if n == '=' { Some((Punct::OpAssignSub, 2)) }
        else if n == '>' { Some((Punct::RArrow, 2)) }
        else { Some((Punct::Minus, 1)) }
    }
    else if c == '*' { if n == '=' { Some((Punct::OpAssignMul, 2)) } else { Some((Punct::Star, 1)) } }
    else if c == '%' { if n == '=' { Some((Punct::OpAssignMod, 2)) } else { Some((Punct::Percent, 1)) } }
    else if c == '=' {
        if n == '=' { Some((Punct::EqEq, 2)) }
        else if n == '>' { Some((Punct::RFatArrow, 2)) }
        else { Some((Punct::OpAssign, 1)) }
    }
    else if c == '\\' { Some((Punct::BackSlash, 1)) }
    else if c == ';' { Some((Punct::Semicolon, 1)) }
    else if c == '?' { Some((Punct::Interrogation, 1)) }
    else if c == '!' { if n == '=' { Some((Punct::NEq, 2)) } else { Some((Punct::Bang, 1)) } }
    else if c == '.' { if n == '.' { Some((Punct::DoubleDot, 2)) } else { Some((Punct::Dot, 1)) } }
    else if c == '#' { Some((Punct::Hash, 1)) }
    else if c == ':' { if n == ':' { Some((Punct::DoubleColon, 2)) } else { Some((Punct::Colon, 1)) } }
    else if c == '<' {
        if n == '-' { Some((Punct::LArrow, 2)) }
        else if n == '=' { Some((Punct::LFatArrow, 2)) }
        else { Some((Punct::LAngle, 1)) }
    }
    else if c == '>' { if n == '=' { Some((Punct::OpGreaterThanEq, 2)) } else { Some((Punct::RAngle, 1)) } }
    else if c == '&' { if n == '&' { Some((Punct::OpAnd, 2)) } else { Some((Punct::Ampersand, 1)) } }
    else if c == '|' { if n == '|' { Some((Punct::OpOr, 2)) } else { Some((Punct::Pipe, 1)) } }
    else if c == '~' { Some((Punct::Tilde, 1)) }
    else { None }
}

/// The longest token (or blank run) that starts at index `i`, with its length in characters.
pub open spec fn scan_at(cs: Seq<char>, i: int) -> (Scanned, nat) {
    let c = at(cs, i);
    let n = at(cs, i + 1);
    if is_blank(c) {
        (Scanned::Blank, run(cs, i, CharClass::Blank))
    } else if is_ident_start(c) {
        (Scanned::Word, run(cs, i, CharClass::IdentChar))
    } else if is_digit(c) {
        let d = run(cs, i, CharClass::Digit);
        let after = at(cs, i + d);
        if after == 'u' {
            (Scanned::UInt, d + 1)
        } else if after == 'f' {
            (Scanned::Float, d + 1)
        } else if after == '.' && run(cs, i + d + 1, CharClass::Digit) > 0 {
            (Scanned::Float, d + 1 + run(cs, i + d + 1, CharClass::Digit))
        } else {
            (Scanned::Int, d)
        }
    } else if c == '"' {
        match find_char(cs, i + 1, '"') {
            Some(k) => (Scanned::Str, (k - i + 1) as nat),
            None => (Scanned::Unterminated, (cs.len() - i) as nat),
        }
    } else if c == '\'' {
        match find_char(cs, i + 1, '\'') {
            Some(k) => (Scanned::Chr, (k - i + 1) as nat),
            None => (Scanned::Punct(Punct::Quote), 1),
        }
    } else if c == '/' {
        if n == '/' {
            if at(cs, i + 2) == '!' {
                (Scanned::DocComment, run(cs, i, CharClass::NotNewline))
            } else {
                (Scanned::LineComment, run(cs, i, CharClass::NotNewline))
            }
        } else if n == '*' {
            match last_close(cs, i + 2, cs.len() as int) {
                Some(k) => (Scanned::BlockComment, (k + 2 - i) as nat),
                None => (Scanned::Punct(Punct::Slash), 1),
            }
        } else if n == '=' {
            (Scanned::Punct(Punct::OpAssignDiv), 2)
        } else {
            (Scanned::Punct(Punct::Slash), 1)
        }
    } else {
        match punct_at(c, n) {
            Some((p, l)) => (Scanned::Punct(p), l),
            None => (Scanned::Unknown, 1),
        }
    }
}

pub fn char_in_class(c: char, k: CharClass) -> (b: bool)
    ensures
        b == in_class(c, k),
{
    match k {
        CharClass::IdentChar => ('a' <= c && c <= 'z') || ('A' <= c && c <= 'Z') || c == '_' || ('0' <= c && c <= '9'),
        CharClass::Digit => '0' <= c && c <= '9',
        CharClass::Blank => c == ' ' || c == '\t' || c == '\n' || c == '\x0c' || c == '\r',
        CharClass::NotNewline => c != '\n',
    }
}

pub fn run_len(cs: &Vec<char>, i: usize, k: CharClass) -> (n: usize)
    requires
        i <= cs.len(),
    ensures
        n == run(cs@, i as int, k),
        i + n <= cs.len(),
{
    let mut j = i;
    while j < cs.len() && char_in_class(cs[j], k)
        invariant
            i <= j <= cs.len(),
            run(cs@, i as int, k) == (j - i) + run(cs@, j as int, k),
        decreases cs.len() - j,
    {
        j = j + 1;
    }
    j - i
}

pub fn char_at(cs: &Vec<char>, k: usize) -> (c: char)
    ensures
        c == at(cs@, k as int),
{
    if k < cs.len() {
        cs[k]
    } else {
        '\0'
    }
}

pub fn find_char_from(cs: &Vec<char>, i: usize, c: char) -> (r: Option<usize>)
    ensures
        r matches Some(k) ==> find_char(cs@, i as int, c) == Some(k as int) && k < cs.len(),
        r is None ==> find_char(cs@, i as int, c) is None,
{
    let mut j = i;
    while j < cs.len()
        invariant
            i <= j,
            find_char(cs@, i as int, c) == find_char(cs@, j as int, c),
        decreases cs.len() - j,
    {
        if cs[j] == c {
            return Some(j);
        }
        j = j + 1;
    }
    None
}

pub fn last_close_in(cs: &Vec<char>, lo: usize) -> (r: Option<usize>)
    ensures
        r matches Some(k) ==> last_close(cs@, lo as int, cs.len() as int) == Some(k as int) && k + 1 < cs.len(),
        r is None ==> last_close(cs@, lo as int, cs.len() as int) is None,
{
    let mut hi = cs.len();
    while hi > lo
        invariant
            hi <= cs.len(),
            last_close(cs@, lo as int, cs.len() as int) == last_close(cs@, lo as int, hi as int),
        decreases hi,
    {
        if hi < cs.len() && cs[hi - 1] == '*' && cs[hi] == '/' {
            return Some(hi - 1);
        }
        hi = hi - 1;
    }
    None
}

pub fn punct_of(c: char, n: char) -> (r: Option<(Punct, usize)>)
    ensures
        r matches Some((p, l)) ==> punct_at(c, n) == Some((p, l as nat)),
        r is None ==> punct_at(c, n) is None,
{
    if c == '(' { Some((Punct::LParen, 1)) }
    else if c == ')' { Some((Punct::RParen, 1)) }
    else if c == '{' { Some((Punct::LBrace, 1)) }
    else if c == '}' { Some((Punct::RBrace, 1)) }
    else if c == '[' { Some((Punct::LBracket, 1)) }
    else if c == ']' { Some((Punct::RBracket, 1)) }
    else if c == ',' { Some((Punct::Comma, 1)) }
    else if c == '+' { if n == '=' { Some((Punct::OpAssignAdd, 2)) } else { Some((Punct::Plus, 1)) } }
    else if c == '-' {
        if n == '=' { Some((Punct::OpAssignSub, 2)) }
        else if n == '>' { Some((Punct::RArrow, 2)) }
        else { Some((Punct::Minus, 1)) }
    }
    else if c == '*' { if n == '=' { Some((Punct::OpAssignMul, 2)) } else { Some((Punct::Star, 1)) } }
    else if c == '%' { if n == '=' { Some((Punct::OpAssignMod, 2)) } else { Some((Punct::Percent, 1)) } }
    else if c == '=' {
        if n == '=' { Some((Punct::EqEq, 2)) }
        else if n == '>' { Some((Punct::RFatArrow, 2)) }
        else { Some((Punct::OpAssign, 1)) }
    }
    else if c == '\\' { Some((Punct::BackSlash, 1)) }
    else if c == ';' { Some((Punct::Semicolon, 1)) }
    else if c == '?' { Some((Punct::Interrogation, 1)) }
    else if c == '!' { if n == '=' { Some((Punct::NEq, 2)) } else { Some((Punct::Bang, 1)) } }
    else if c == '.' { if n == '.' { Some((Punct::DoubleDot, 2)) } else { Some((Punct::Dot, 1)) } }
    else if c == '#' { Some((Punct::Hash, 1)) }
    else if c == ':' { if n == ':' { Some((Punct::DoubleColon, 2)) } else { Some((Punct::Colon, 1)) } }
    else if c == '<' {
        if n == '-' { Some((Punct::LArrow, 2)) }
        else if n == '=' { Some((Punct::LFatArrow, 2)) }
        else { Some((Punct::LAngle, 1)) }
    }
    else if c == '>' { if n == '=' { Some((Punct::OpGreaterThanEq, 2)) } else { Some((Punct::RAngle, 1)) } }
    else if c == '&' { if n == '&' { Some((Punct::OpAnd, 2)) } else { Some((Punct::Ampersand, 1)) } }
    else if c == '|' { if n == '|' { Some((Punct::OpOr, 2)) } else { Some((Punct::Pipe, 1)) } }
    else if c == '~' { Some((Punct::Tilde, 1)) }
    else { None }
}

pub proof fn lemma_run_bound(cs: Seq<char>, i: int, k: CharClass)
    requires
        0 <= i <= cs.len(),
    ensures
        i + run(cs, i, k) <= cs.len(),
    decreases cs.len() - i,
{
    if i < cs.len() && in_class(cs[i], k) {
        lemma_run_bound(cs, i + 1, k);
    }
}

/// Every character of a run is of the run's class.
pub proof fn lemma_run_all(cs: Seq<char>, i: int, k: CharClass)
    requires
        0 <= i,
    ensures
        forall|q: int| i <= q < i + run(cs, i, k) ==> in_class(#[trigger] cs[q], k),
    decreases cs.len() - i,
{
    if 0 <= i < cs.len() && in_class(cs[i], k) {
        lemma_run_all(cs, i + 1, k);
    }
}

pub proof fn lemma_find_char_bound(cs: Seq<char>, i: int, c: char)
    ensures
        find_char(cs, i, c) matches Some(k) ==> i <= k < cs.len() && cs[k] == c,
    decreases cs.len() - i,
{
    if 0 <= i < cs.len() && cs[i] != c {
        lemma_find_char_bound(cs, i + 1, c);
    }
}

proof fn lemma_last_close_bound(cs: Seq<char>, lo: int, hi: int)
    ensures
        last_close(cs, lo, hi) matches Some(k) ==> lo <= k && k + 1 < cs.len() && k < hi && cs[k] == '*' && cs[k + 1] == '/',
    decreases hi - lo,
{
    if hi > lo && !(0 <= hi - 1 && hi < cs.len() && cs[hi - 1] == '*' && cs[hi] == '/') {
        lemma_last_close_bound(cs, lo, hi - 1);
    }
}

/// Every scan consumes at least one character and stays inside the input.
pub proof fn lemma_scan_bounds(cs: Seq<char>, i: int)
    requires
        0 <= i < cs.len(),
    ensures
        1 <= scan_at(cs, i).1,
        i + scan_at(cs, i).1 <= cs.len(),
{
    let c = cs[i];
    lemma_run_bound(cs, i, CharClass::Blank);
    lemma_run_bound(cs, i, CharClass::IdentChar);
    lemma_run_bound(cs, i, CharClass::Digit);
    lemma_run_bound(cs, i, CharClass::NotNewline);
    lemma_find_char_bound(cs, i + 1, '"');
    lemma_find_char_bound(cs, i + 1, '\'');
    lemma_last_close_bound(cs, i + 2, cs.len() as int);
    if is_digit(c) {
        let d = run(cs, i, CharClass::Digit);
        if i + d + 1 <= cs.len() {
            lemma_run_bound(cs, i + d + 1, CharClass::Digit);
        } else {
            assert(run(cs, i + d + 1, CharClass::Digit) == 0);
        }
    }
}

/// Executable counterpart of [`scan_at`].
pub fn scan(cs: &Vec<char>, i: usize) -> (r: (Scanned, usize))
    requires
        i < cs.len(),
    ensures
        r.0 == scan_at(cs@, i as int).0,
        r.1 == scan_at(cs@, i as int).1,
        1 <= r.1,
        i + r.1 <= cs.len(),
{
    proof {
        lemma_scan_bounds(cs@, i as int);
        lemma_find_char_bound(cs@, i + 1, '"');
        lemma_find_char_bound(cs@, i + 1, '\'');
        lemma_last_close_bound(cs@, i + 2, cs.len() as int);
    }
    let c = cs[i];
    let n = char_at(cs, i + 1);
    if char_in_class(c, CharClass::Blank) {
        (Scanned::Blank, run_len(cs, i, CharClass::Blank))
    } else if ('a' <= c && c <= 'z') || ('A' <= c && c <= 'Z') || c == '_' {
        (Scanned::Word, run_len(cs, i, CharClass::IdentChar))
    } else if '0' <= c && c <= '9' {
        let d = run_len(cs, i, CharClass::Digit);
        let after = char_at(cs, i + d);
        if after == 'u' {
            (Scanned::UInt, d + 1)
        } else if after == 'f' {
            (Scanned::Float, d + 1)
        } else if after == '.' && i + d + 1 <= cs.len() && run_len(cs, i + d + 1, CharClass::Digit) > 0 {
            let e = run_len(cs, i + d + 1, CharClass::Digit);
            (Scanned::Float, d + 1 + e)
        } else {
            proof {
                if after == '.' && i + d + 1 > cs.len() {
                    assert(false);
                }
            }
            (Scanned::Int, d)
        }
    } else if c == '"' {
        match find_char_from(cs, i + 1, '"') {
            Some(k) => (Scanned::Str, k - i + 1),
            None => (Scanned::Unterminated, cs.len() - i),
        }
    } else if c == '\'' {
        match find_char_from(cs, i + 1, '\'') {
            Some(k) => (Scanned::Chr, k - i + 1),
            None => (Scanned::Punct(Punct::Quote), 1),
        }
    } else if c == '/' {
        if n == '/' {
            if char_at(cs, i + 2) == '!' {
                (Scanned::DocComment, run_len(cs, i, CharClass::NotNewline))
            } else {
                (Scanned::LineComment, run_len(cs, i, CharClass::NotNewline))
            }
        } else if n == '*' {
            match last_close_in(cs, i + 2) {
                Some(k) => (Scanned::BlockComment, k + 2 - i),
                None => (Scanned::Punct(Punct::Slash), 1),
            }
        } else if n == '=' {
            (Scanned::Punct(Punct::OpAssignDiv), 2)
        } else {
            (Scanned::Punct(Punct::Slash), 1)
        }
    } else {
        match punct_of(c, n) {
            Some((p, l)) => (Scanned::Punct(p), l),
            None => (Scanned::Unknown, 1),
        }
    }
}

} // verus!
