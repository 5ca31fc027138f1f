//! The lexer: turns source text into tokens.
pub mod scan;
pub mod token;

use vstd::prelude::*;
use vstd::string::StrSliceExecFns;
use crate::utils::Span;
use self::scan::{at, char_at, find_char, in_class, lemma_find_char_bound, lemma_run_all, lemma_scan_bounds, run, scan, scan_at, CharClass, Punct, Scanned};
use self::token::{LexingError, Token, TokenKind};
use crate::text::{byte_pos, chars_of, lemma_byte_pos_mono, utf8_len, utf8_len_of};

verus! {

/// One token read from the source: its class and the character range `[start, end)`.
pub struct Lexeme {
    pub class: Scanned,
    pub start: int,
    pub end: int,
}

/// The non-blank tokens of `cs` from index `i` on, each read as far as it goes.
pub open spec fn lexemes_from(cs: Seq<char>, i: int) -> Seq<Lexeme>
    decreases cs.len() - i,
{
    if i < 0 || i >= cs.len() {
        seq![]
    } else {
        let (k, l) = scan_at(cs, i);
        proof {
            lemma_scan_bounds(cs, i);
        }
        if k == Scanned::Blank {
            lexemes_from(cs, i + l)
        } else {
            seq![Lexeme { class: k, start: i, end: i + l }] + lexemes_from(cs, i + l)
        }
    }
}

/// The tokens of a whole source text.
pub open spec fn lexemes(cs: Seq<char>) -> Seq<Lexeme> {
    lexemes_from(cs, 0)
}

/// Value of a run of decimal digits.
pub open spec fn digits_value(ds: Seq<char>) -> nat
    decreases ds.len(),
{
    if ds.len() == 0 {
        0
    } else {
        digits_value(ds.drop_last()) * 10 + ((ds.last() as u32) - 48) as nat
    }
}

/// A string literal's body with its escapes resolved: `\n \t \r \\ \' \" \0` stand for
/// the character they name; a backslash before any other character is kept with it, and
/// a trailing backslash is kept.
pub open spec fn unescape(raw: Seq<char>) -> Seq<char>
    decreases raw.len(),
{
    if raw.len() == 0 {
        seq![]
    } else if raw[0] == '\\' {
        if raw.len() == 1 {
            seq!['\\']
        } else {
            escape_value(raw[1]) + unescape(raw.subrange(2, raw.len() as int))
        }
    } else {
        seq![raw[0]] + unescape(raw.drop_first())
    }
}

/// What a backslash followed by `c` stands for in a string literal.
pub open spec fn escape_value(c: char) -> Seq<char> {
    if c == 'n' {
        seq!['\n']
    } else if c == 't' {
        seq!['\t']
    } else if c == 'r' {
        seq!['\r']
    } else if c == '\\' {
        seq!['\\']
    } else if c == '\'' {
        seq!['\'']
    } else if c == '"' {
        seq!['"']
    } else if c == '0' {
        seq!['\0']
    } else {
        seq!['\\', c]
    }
}

/// The character a character literal `'...'` stands for: its first character, or, when
/// that is a backslash, the character the escape names (the escaped character itself when
/// it names none).
pub open spec fn char_literal_value(lit: Seq<char>) -> char {
    let c = lit[1];
    if c == '\\' {
        let n = lit[2];
        if n == 'n' {
            '\n'
        } else if n == 't' {
            '\t'
        } else if n == 'r' {
            '\r'
        } else if n == '0' {
            '\0'
        } else {
            n
        }
    } else {
        c
    }
}

pub open spec fn keyword_kind(w: Seq<char>) -> Option<TokenKind> {
    if w == "this"@ { Some(TokenKind::KwThis) }
    else if w == "operator"@ { Some(TokenKind::KwOperator) }
    else if w == "class"@ { Some(TokenKind::KwClass) }
    else if w == "delete"@ { Some(TokenKind::KwDelete) }
    else if w == "fun"@ { Some(TokenKind::KwFunc) }
    else if w == "where"@ { Some(TokenKind::KwWhere) }
    else if w == "null"@ { Some(TokenKind::KwNull) }
    else if w == "extern"@ { Some(TokenKind::KwExtern) }
    else if w == "struct"@ { Some(TokenKind::KwStruct) }
    else if w == "concept"@ { Some(TokenKind::KwConcept) }
    else if w == "enum"@ { Some(TokenKind::KwEnum) }
    else if w == "union"@ { Some(TokenKind::KwUnion) }
    else if w == "import"@ { Some(TokenKind::KwImport) }
    else if w == "public"@ { Some(TokenKind::KwPublic) }
    else if w == "private"@ { Some(TokenKind::KwPrivate) }
    else if w == "if"@ { Some(TokenKind::KwIf) }
    else if w == "else"@ { Some(TokenKind::KwElse) }
    else if w == "match"@ { Some(TokenKind::KwMatch) }
    else if w == "while"@ { Some(TokenKind::KwWhile) }
    else if w == "break"@ { Some(TokenKind::KwBreak) }
    else if w == "continue"@ { Some(TokenKind::KwContinue) }
    else if w == "return"@ { Some(TokenKind::KwReturn) }
    else if w == "let"@ { Some(TokenKind::KwLet) }
    else if w == "const"@ { Some(TokenKind::KwConst) }
    else if w == "as"@ { Some(TokenKind::KwAs) }
    else if w == "int64"@ { Some(TokenKind::Int64Ty) }
    else if w == "int32"@ { Some(TokenKind::Int32Ty) }
    else if w == "int16"@ { Some(TokenKind::Int16Ty) }
    else if w == "int8"@ { Some(TokenKind::Int8Ty) }
    else if w == "float64"@ { Some(TokenKind::Float64Ty) }
    else if w == "float32"@ { Some(TokenKind::Float32Ty) }
    else if w == "uint64"@ { Some(TokenKind::UInt64Ty) }
    else if w == "uint32"@ { Some(TokenKind::UInt32Ty) }
    else if w == "uint16"@ { Some(TokenKind::UInt16Ty) }
    else if w == "uint8"@ { Some(TokenKind::UInt8Ty) }
    else if w == "unit"@ { Some(TokenKind::UnitTy) }
    else if w == "char"@ { Some(TokenKind::CharTy) }
    else if w == "bool"@ { Some(TokenKind::BoolTy) }
    else if w == "This"@ { Some(TokenKind::ThisTy) }
    else if w == "string"@ { Some(TokenKind::StrTy) }
    else if w == "comptime"@ { Some(TokenKind::KwComptime) }
    else if w == "then"@ { Some(TokenKind::KwThen) }
    else if w == "true"@ { Some(TokenKind::Bool(true)) }
    else if w == "false"@ { Some(TokenKind::Bool(false)) }
    else { None }
}

/// The keyword (or boolean literal) spelled by `cs[s..e]`, if any.
pub fn keyword_of(cs: &Vec<char>, s: usize, e: usize) -> (r: Option<TokenKind>)
    requires
        s <= e <= cs.len(),
    ensures
        r == keyword_kind(cs@.subrange(s as int, e as int)),
{
    if chars_eq_lit(cs, s, e, "this") {
        Some(TokenKind::KwThis)
    } else if chars_eq_lit(cs, s, e, "operator") {
        Some(TokenKind::KwOperator)
    } else if chars_eq_lit(cs, s, e, "class") {
        Some(TokenKind::KwClass)
    } else if chars_eq_lit(cs, s, e, "delete") {
        Some(TokenKind::KwDelete)
    } else if chars_eq_lit(cs, s, e, "fun") {
        Some(TokenKind::KwFunc)
    } else if chars_eq_lit(cs, s, e, "where") {
        Some(TokenKind::KwWhere)
    } else if chars_eq_lit(cs, s, e, "null") {
        Some(TokenKind::KwNull)
    } else if chars_eq_lit(cs, s, e, "extern") {
        Some(TokenKind::KwExtern)
    } else if chars_eq_lit(cs, s, e, "struct") {
        Some(TokenKind::KwStruct)
    } else if chars_eq_lit(cs, s, e, "concept") {
        Some(TokenKind::KwConcept)
    } else if chars_eq_lit(cs, s, e, "enum") {
        Some(TokenKind::KwEnum)
    } else if chars_eq_lit(cs, s, e, "union") {
        Some(TokenKind::KwUnion)
    } else if chars_eq_lit(cs, s, e, "import") {
        Some(TokenKind::KwImport)
    } else if chars_eq_lit(cs, s, e, "public") {
        Some(TokenKind::KwPublic)
    } else if chars_eq_lit(cs, s, e, "private") {
        Some(TokenKind::KwPrivate)
    } else if chars_eq_lit(cs, s, e, "if") {
        Some(TokenKind::KwIf)
    } else if chars_eq_lit(cs, s, e, "else") {
        Some(TokenKind::KwElse)
    } else if chars_eq_lit(cs, s, e, "match") {
        Some(TokenKind::KwMatch)
    } else if chars_eq_lit(cs, s, e, "while") {
        Some(TokenKind::KwWhile)
    } else if chars_eq_lit(cs, s, e, "break") {
        Some(TokenKind::KwBreak)
    } else if chars_eq_lit(cs, s, e, "continue") {
        Some(TokenKind::KwContinue)
    } else if chars_eq_lit(cs, s, e, "return") {
        Some(TokenKind::KwReturn)
    } else if chars_eq_lit(cs, s, e, "let") {
        Some(TokenKind::KwLet)
    } else if chars_eq_lit(cs, s, e, "const") {
        Some(TokenKind::KwConst)
    } else if chars_eq_lit(cs, s, e, "as") {
        Some(TokenKind::KwAs)
    } else if chars_eq_lit(cs, s, e, "int64") {
        Some(TokenKind::Int64Ty)
    } else if chars_eq_lit(cs, s, e, "int32") {
        Some(TokenKind::Int32Ty)
    } else if chars_eq_lit(cs, s, e, "int16") {
        Some(TokenKind::Int16Ty)
    } else if chars_eq_lit(cs, s, e, "int8") {
        Some(TokenKind::Int8Ty)
    } else if chars_eq_lit(cs, s, e, "float64") {
        Some(TokenKind::Float64Ty)
    } else if chars_eq_lit(cs, s, e, "float32") {
        Some(TokenKind::Float32Ty)
    } else if chars_eq_lit(cs, s, e, "uint64") {
        Some(TokenKind::UInt64Ty)
    } else if chars_eq_lit(cs, s, e, "uint32") {
        Some(TokenKind::UInt32Ty)
    } else if chars_eq_lit(cs, s, e, "uint16") {
        Some(TokenKind::UInt16Ty)
    } else if chars_eq_lit(cs, s, e, "uint8") {
        Some(TokenKind::UInt8Ty)
    } else if chars_eq_lit(cs, s, e, "unit") {
        Some(TokenKind::UnitTy)
    } else if chars_eq_lit(cs, s, e, "char") {
        Some(TokenKind::CharTy)
    } else if chars_eq_lit(cs, s, e, "bool") {
        Some(TokenKind::BoolTy)
    } else if chars_eq_lit(cs, s, e, "This") {
        Some(TokenKind::ThisTy)
    } else if chars_eq_lit(cs, s, e, "string") {
        Some(TokenKind::StrTy)
    } else if chars_eq_lit(cs, s, e, "comptime") {
        Some(TokenKind::KwComptime)
    } else if chars_eq_lit(cs, s, e, "then") {
        Some(TokenKind::KwThen)
    } else if chars_eq_lit(cs, s, e, "true") {
        Some(TokenKind::Bool(true))
    } else if chars_eq_lit(cs, s, e, "false") {
        Some(TokenKind::Bool(false))
    } else {
        None
    }
}

pub open spec fn punct_kind(p: Punct) -> TokenKind {
    match p {
        Punct::LParen => TokenKind::LParen,
        Punct::RParen => TokenKind::RParen,
        Punct::LBrace => TokenKind::LBrace,
        Punct::RBrace => TokenKind::RBrace,
        Punct::LBracket => TokenKind::LBracket,
        Punct::RBracket => TokenKind::RBracket,
        Punct::Comma => TokenKind::Comma,
        Punct::Plus => TokenKind::Plus,
        Punct::OpAssignAdd => TokenKind::OpAssignAdd,
        Punct::Minus => TokenKind::Minus,
        Punct::OpAssignSub => TokenKind::OpAssignSub,
        Punct::Slash => TokenKind::Slash,
        Punct::OpAssignDiv => TokenKind::OpAssignDiv,
        Punct::Star => TokenKind::Star,
        Punct::OpAssignMul => TokenKind::OpAssignMul,
        Punct::Percent => TokenKind::Percent,
        Punct::OpAssignMod => TokenKind::OpAssignMod,
        Punct::OpAssign => TokenKind::OpAssign,
        Punct::BackSlash => TokenKind::BackSlash,
        Punct::Semicolon => TokenKind::Semicolon,
        Punct::Quote => TokenKind::Quote,
        Punct::Interrogation => TokenKind::Interrogation,
        Punct::EqEq => TokenKind::EqEq,
        Punct::NEq => TokenKind::NEq,
        Punct::Bang => TokenKind::Bang,
        Punct::DoubleDot => TokenKind::DoubleDot,
        Punct::Dot => TokenKind::Dot,
        Punct::Hash => TokenKind::Hash,
        Punct::DoubleColon => TokenKind::DoubleColon,
        Punct::Colon => TokenKind::Colon,
        Punct::RArrow => TokenKind::RArrow,
        Punct::LArrow => TokenKind::LArrow,
        Punct::LFatArrow => TokenKind::LFatArrow,
        Punct::LAngle => TokenKind::LAngle,
        Punct::OpGreaterThanEq => TokenKind::OpGreaterThanEq,
        Punct::RAngle => TokenKind::RAngle,
        Punct::OpAnd => TokenKind::OpAnd,
        Punct::Ampersand => TokenKind::Ampersand,
        Punct::OpOr => TokenKind::OpOr,
        Punct::Pipe => TokenKind::Pipe,
        Punct::RFatArrow => TokenKind::RFatArrow,
        Punct::Tilde => TokenKind::Tilde,
    }
}

pub fn punct_token(p: Punct) -> (k: TokenKind)
    ensures
        k == punct_kind(p),
{
    match p {
        Punct::LParen => TokenKind::LParen,
        Punct::RParen => TokenKind::RParen,
        Punct::LBrace => TokenKind::LBrace,
        Punct::RBrace => TokenKind::RBrace,
        Punct::LBracket => TokenKind::LBracket,
        Punct::RBracket => TokenKind::RBracket,
        Punct::Comma => TokenKind::Comma,
        Punct::Plus => TokenKind::Plus,
        Punct::OpAssignAdd => TokenKind::OpAssignAdd,
        Punct::Minus => TokenKind::Minus,
        Punct::OpAssignSub => TokenKind::OpAssignSub,
        Punct::Slash => TokenKind::Slash,
        Punct::OpAssignDiv => TokenKind::OpAssignDiv,
        Punct::Star => TokenKind::Star,
        Punct::OpAssignMul => TokenKind::OpAssignMul,
        Punct::Percent => TokenKind::Percent,
        Punct::OpAssignMod => TokenKind::OpAssignMod,
        Punct::OpAssign => TokenKind::OpAssign,
        Punct::BackSlash => TokenKind::BackSlash,
        Punct::Semicolon => TokenKind::Semicolon,
        Punct::Quote => TokenKind::Quote,
        Punct::Interrogation => TokenKind::Interrogation,
        Punct::EqEq => TokenKind::EqEq,
        Punct::NEq => TokenKind::NEq,
        Punct::Bang => TokenKind::Bang,
        Punct::DoubleDot => TokenKind::DoubleDot,
        Punct::Dot => TokenKind::Dot,
        Punct::Hash => TokenKind::Hash,
        Punct::DoubleColon => TokenKind::DoubleColon,
        Punct::Colon => TokenKind::Colon,
        Punct::RArrow => TokenKind::RArrow,
        Punct::LArrow => TokenKind::LArrow,
        Punct::LFatArrow => TokenKind::LFatArrow,
        Punct::LAngle => TokenKind::LAngle,
        Punct::OpGreaterThanEq => TokenKind::OpGreaterThanEq,
        Punct::RAngle => TokenKind::RAngle,
        Punct::OpAnd => TokenKind::OpAnd,
        Punct::Ampersand => TokenKind::Ampersand,
        Punct::OpOr => TokenKind::OpOr,
        Punct::Pipe => TokenKind::Pipe,
        Punct::RFatArrow => TokenKind::RFatArrow,
        Punct::Tilde => TokenKind::Tilde,
    }
}

/// Whether `cs[s..e]` spells `lit`.
pub fn chars_eq_lit(cs: &Vec<char>, s: usize, e: usize, lit: &str) -> (b: bool)
    requires
        s <= e <= cs.len(),
    ensures
        b == (cs@.subrange(s as int, e as int) == lit@),
{
    let n = lit.unicode_len();
    if n != e - s {
        return false;
    }
    let mut j: usize = 0;
    while j < n
        invariant
            n == lit@.len(),
            n == e - s,
            s <= e <= cs.len(),
            j <= n,
            forall|q: int| 0 <= q < j ==> cs@[s + q] == lit@[q],
        decreases n - j,
    {
        if cs[s + j] != lit.get_char(j) {
            assert(cs@.subrange(s as int, e as int)[j as int] != lit@[j as int]);
            return false;
        }
        j = j + 1;
    }
    assert(cs@.subrange(s as int, e as int) =~= lit@);
    true
}

/// What a token turns into.
pub enum Outcome {
    Kind(TokenKind),
    Identifier(Seq<char>),
    StringLiteral(Seq<char>),
    Float(Seq<char>),
    Comment(Seq<char>),
    Doc(Seq<char>),
    /// Input that starts no token.
    Unrecognized,
    /// An integer literal whose value does not fit its type.
    TooLarge,
    /// A doc comment whose first character after `//!` is not ASCII: its text is cut
    /// at the fourth byte, inside that character, which cannot be done.
    Unsliceable,
}

pub open spec fn outcome(cs: Seq<char>, t: Lexeme) -> Outcome {
    let text = cs.subrange(t.start, t.end);
    match t.class {
        Scanned::Word => match keyword_kind(text) {
            Some(k) => Outcome::Kind(k),
            None => Outcome::Identifier(text),
        },
        Scanned::Int => {
            let v = digits_value(text);
            if v <= i64::MAX {
                Outcome::Kind(TokenKind::Integer(v as i64))
            } else {
                Outcome::TooLarge
            }
        },
        Scanned::UInt => {
            let v = digits_value(text.drop_last());
            if v <= u64::MAX {
                Outcome::Kind(TokenKind::UnsignedInteger(v as u64))
            } else {
                Outcome::TooLarge
            }
        },
        Scanned::Float => {
            if text.last() == 'f' {
                Outcome::Float(text.drop_last())
            } else {
                Outcome::Float(text)
            }
        },
        Scanned::Str => Outcome::StringLiteral(unescape(text.subrange(1, text.len() - 1))),
        Scanned::Chr => Outcome::Kind(TokenKind::Char(char_literal_value(text))),
        Scanned::LineComment => Outcome::Comment(text),
        Scanned::BlockComment => Outcome::Comment(text),
        Scanned::DocComment => {
            let rest = text.subrange(3, text.len() as int);
            if rest.len() >= 1 && (rest[0] as u32) >= 0x80 {
                Outcome::Unsliceable
            } else if rest.len() >= 2 && rest[0] == ' ' {
                Outcome::Doc(rest.drop_first())
            } else {
                Outcome::Doc(rest)
            }
        },
        Scanned::Punct(p) => Outcome::Kind(punct_kind(p)),
        _ => Outcome::Unrecognized,
    }
}

pub open spec fn is_error(o: Outcome) -> bool {
    o is Unrecognized || o is TooLarge
}

/// The span of a token in the byte offsets of the source.
pub open spec fn span_of(cs: Seq<char>, path: &'static str, t: Lexeme) -> Span {
    Span { start: byte_pos(cs, t.start) as usize, end: byte_pos(cs, t.end) as usize, path }
}

/// The message of a parse error for an integer too large for its type.
pub open spec fn too_large_message() -> Seq<char> {
    "number too large to fit in target type"@
}

/// `k` is the token kind of outcome `o`.
pub open spec fn kind_fits(k: TokenKind, o: Outcome) -> bool {
    match o {
        Outcome::Kind(x) => k == x,
        Outcome::Identifier(w) => k matches TokenKind::Identifier(s) && s@ == w,
        Outcome::StringLiteral(w) => k matches TokenKind::StringLiteral(s) && s@ == w,
        Outcome::Float(w) => k matches TokenKind::Float(s) && s@ == w,
        Outcome::Comment(w) => k matches TokenKind::Comments(s) && s@ == w,
        Outcome::Doc(w) => k matches TokenKind::Docs(s) && s@ == w,
        _ => false,
    }
}

/// `r` is what the lexer makes of token `t`: a token of the right kind and span, or the
/// error that `t` is, at its span.
pub open spec fn result_fits(
    cs: Seq<char>,
    path: &'static str,
    t: Lexeme,
    r: Result<Token, (LexingError, Span)>,
) -> bool {
    let o = outcome(cs, t);
    match r {
        Ok(tok) => !is_error(o) && tok.span == span_of(cs, path, t) && kind_fits(tok.kind, o),
        Err((e, sp)) => sp == span_of(cs, path, t) && match o {
            Outcome::Unrecognized => e == LexingError::NonAsciiChar,
            Outcome::TooLarge => e matches LexingError::InvalidInteger(m) && m@ == too_large_message(),
            _ => false,
        },
    }
}

/// Index of the first token of `ts` that is an error.
pub open spec fn first_error(cs: Seq<char>, ts: Seq<Lexeme>) -> Option<int>
    decreases ts.len(),
{
    if ts.len() == 0 {
        None
    } else {
        match first_error(cs, ts.drop_last()) {
            Some(j) => Some(j),
            None => if is_error(outcome(cs, ts.last())) {
                Some(ts.len() - 1)
            } else {
                None
            },
        }
    }
}

/// Index of the last token of `ts` that is not an error.
pub open spec fn last_good(cs: Seq<char>, ts: Seq<Lexeme>) -> Option<int>
    decreases ts.len(),
{
    if ts.len() == 0 {
        None
    } else if !is_error(outcome(cs, ts.last())) {
        Some(ts.len() - 1)
    } else {
        last_good(cs, ts.drop_last())
    }
}

pub proof fn lemma_first_error_range(cs: Seq<char>, d: Seq<Lexeme>)
    ensures
        first_error(cs, d) matches Some(j) ==> 0 <= j < d.len() && is_error(outcome(cs, d[j])),
    decreases d.len(),
{
    if d.len() > 0 {
        lemma_first_error_range(cs, d.drop_last());
    }
}

pub proof fn lemma_last_good_range(cs: Seq<char>, d: Seq<Lexeme>)
    ensures
        last_good(cs, d) matches Some(j) ==> 0 <= j < d.len() && !is_error(outcome(cs, d[j])),
    decreases d.len(),
{
    if d.len() > 0 {
        lemma_last_good_range(cs, d.drop_last());
    }
}

/// Reading `cs` does not run into a doc comment whose text cannot be cut (see
/// `Outcome::Unsliceable`), and its length in bytes fits in a `usize`.
pub open spec fn lexable(cs: Seq<char>) -> bool {
    &&& forall|j: int| 0 <= j < lexemes(cs).len() ==> !(outcome(cs, #[trigger] lexemes(cs)[j]) is Unsliceable)
    &&& byte_pos(cs, cs.len() as int) <= usize::MAX
}


/// The characters `cs[s..e]` as a string.
pub fn string_of(cs: &Vec<char>, s: usize, e: usize) -> (r: String)
    requires
        s <= e <= cs.len(),
    ensures
        r@ == cs@.subrange(s as int, e as int),
{
    let mut out = String::new();
    let mut j = s;
    while j < e
        invariant
            s <= j <= e <= cs.len(),
            out@ == cs@.subrange(s as int, j as int),
        decreases e - j,
    {
        out.push(cs[j]);
        assert(cs@.subrange(s as int, j + 1) =~= cs@.subrange(s as int, j as int).push(cs@[j as int]));
        j = j + 1;
    }
    out
}

/// The string literal body `cs[s..e]` with its escapes resolved.
pub fn unescape_range(cs: &Vec<char>, s: usize, e: usize) -> (r: String)
    requires
        s <= e <= cs.len(),
    ensures
        r@ == unescape(cs@.subrange(s as int, e as int)),
{
    let mut out = String::new();
    let mut j = s;
    while j < e
        invariant
            s <= j <= e <= cs.len(),
            out@ + unescape(cs@.subrange(j as int, e as int)) == unescape(cs@.subrange(s as int, e as int)),
        decreases e - j,
    {
        let ghost r = cs@.subrange(j as int, e as int);
        let c = cs[j];
        if c == '\\' {
            if j + 1 == e {
                out.push('\\');
                proof {
                    assert(cs@.subrange(e as int, e as int) =~= Seq::<char>::empty());
                    assert(out@ + unescape(cs@.subrange(e as int, e as int)) =~= out@);
                }
                j = e;
            } else {
                let n = cs[j + 1];
                if n == 'n' {
                    out.push('\n');
                } else if n == 't' {
                    out.push('\t');
                } else if n == 'r' {
                    out.push('\r');
                } else if n == '\\' {
                    out.push('\\');
                } else if n == '\'' {
                    out.push('\'');
                } else if n == '"' {
                    out.push('"');
                } else if n == '0' {
                    out.push('\0');
                } else {
                    out.push('\\');
                    out.push(n);
                }
                proof {
                    assert(r.subrange(2, r.len() as int) =~= cs@.subrange(j + 2, e as int));
                }
                j = j + 2;
            }
        } else {
            out.push(c);
            proof {
                assert(r.drop_first() =~= cs@.subrange(j + 1, e as int));
            }
            j = j + 1;
        }
    }
    proof {
        assert(cs@.subrange(e as int, e as int) =~= Seq::<char>::empty());
        assert(out@ + unescape(cs@.subrange(e as int, e as int)) =~= out@);
    }
    out
}

/// The value of the digits `cs[s..e]` when it is at most `limit`.
pub fn parse_digits(cs: &Vec<char>, s: usize, e: usize, limit: u64) -> (r: Option<u64>)
    requires
        s <= e <= cs.len(),
        forall|q: int| s <= q < e ==> '0' <= #[trigger] cs@[q] <= '9',
    ensures
        r matches Some(v) ==> v == digits_value(cs@.subrange(s as int, e as int)) && v <= limit,
        r is None ==> digits_value(cs@.subrange(s as int, e as int)) > limit,
{
    let mut acc: u128 = 0;
    let mut j = s;
    while j < e
        invariant
            s <= j <= e <= cs.len(),
            forall|q: int| s <= q < e ==> '0' <= #[trigger] cs@[q] <= '9',
            acc == digits_value(cs@.subrange(s as int, j as int)),
            acc <= limit,
        decreases e - j,
    {
        let d = (cs[j] as u32 - 48) as u128;
        proof {
            assert(cs@.subrange(s as int, j + 1).drop_last() =~= cs@.subrange(s as int, j as int));
        }
        let next = acc * 10 + d;
        if next > limit as u128 {
            proof {
                lemma_digits_grow(cs@, s as int, j + 1, e as int);
            }
            return None;
        }
        acc = next;
        j = j + 1;
    }
    Some(acc as u64)
}

proof fn lemma_digits_grow(cs: Seq<char>, s: int, j: int, e: int)
    requires
        0 <= s <= j <= e <= cs.len(),
        forall|q: int| s <= q < e ==> '0' <= #[trigger] cs[q] <= '9',
    ensures
        digits_value(cs.subrange(s, j)) <= digits_value(cs.subrange(s, e)),
    decreases e - j,
{
    if j < e {
        lemma_digits_grow(cs, s, j + 1, e);
        assert(cs.subrange(s, j + 1).drop_last() =~= cs.subrange(s, j));
        let a = digits_value(cs.subrange(s, j));
        assert(a <= a * 10 + ((cs[j] as u32) - 48) as nat) by (nonlinear_arith);
    }
}

/// Byte offset of index `e`, counted on from the byte offset `b` of index `i`.
pub fn advance_bytes(cs: &Vec<char>, i: usize, e: usize, b: usize) -> (r: usize)
    requires
        i <= e <= cs.len(),
        b == byte_pos(cs@, i as int),
        byte_pos(cs@, cs.len() as int) <= usize::MAX,
    ensures
        r == byte_pos(cs@, e as int),
{
    let mut j = i;
    let mut bb = b;
    while j < e
        invariant
            i <= j <= e <= cs.len(),
            bb == byte_pos(cs@, j as int),
            byte_pos(cs@, cs.len() as int) <= usize::MAX,
        decreases e - j,
    {
        proof {
            lemma_byte_pos_mono(cs@, j + 1, cs.len() as int);
        }
        bb = bb + utf8_len_of(cs[j]);
        j = j + 1;
    }
    bb
}


/// The token (or error) that the lexeme of class `k` at `cs[s..e]` stands for;
/// `bs` and `be` are the byte offsets of `s` and `e`.
pub fn make_token(
    cs: &Vec<char>,
    path: &'static str,
    k: Scanned,
    s: usize,
    e: usize,
    bs: usize,
    be: usize,
) -> (r: Result<Token, (LexingError, Span)>)
    requires
        s < e <= cs.len(),
        scan_at(cs@, s as int) == (k, (e - s) as nat),
        k != Scanned::Blank,
        e <= cs.len(),
        bs == byte_pos(cs@, s as int),
        be == byte_pos(cs@, e as int),
        !(outcome(cs@, Lexeme { class: k, start: s as int, end: e as int }) is Unsliceable),
    ensures
        result_fits(cs@, path, Lexeme { class: k, start: s as int, end: e as int }, r),
{
    let ghost lx = Lexeme { class: k, start: s as int, end: e as int };
    let ghost text = cs@.subrange(s as int, e as int);
    let span = Span { start: bs, end: be, path };
    proof {
        lemma_scan_bounds(cs@, s as int);
        lemma_run_all(cs@, s as int, CharClass::Digit);
        lemma_run_all(cs@, s as int, CharClass::NotNewline);
        lemma_find_char_bound(cs@, s + 1, '\'');
        lemma_find_char_bound(cs@, s + 1, '"');
    }
    match k {
        Scanned::Word => {
            match keyword_of(cs, s, e) {
                Some(kind) => Ok(Token::new(span, kind)),
                None => Ok(Token::new(span, TokenKind::Identifier(string_of(cs, s, e)))),
            }
        },
        Scanned::Int => {
            match parse_digits(cs, s, e, 9223372036854775807u64) {
                Some(v) => Ok(Token::new(span, TokenKind::Integer(v as i64))),
                None => Err((LexingError::InvalidInteger(String::from_str("number too large to fit in target type")), span)),
            }
        },
        Scanned::UInt => {
            proof {
                assert(text.drop_last() =~= cs@.subrange(s as int, e - 1));
            }
            match parse_digits(cs, s, e - 1, 18446744073709551615u64) {
                Some(v) => Ok(Token::new(span, TokenKind::UnsignedInteger(v))),
                None => Err((LexingError::InvalidInteger(String::from_str("number too large to fit in target type")), span)),
            }
        },
        Scanned::Float => {
            if cs[e - 1] == 'f' {
                proof {
                    assert(text.drop_last() =~= cs@.subrange(s as int, e - 1));
                }
                Ok(Token::new(span, TokenKind::Float(string_of(cs, s, e - 1))))
            } else {
                Ok(Token::new(span, TokenKind::Float(string_of(cs, s, e))))
            }
        },
        Scanned::Str => {
            proof {
                assert(text.subrange(1, text.len() - 1) =~= cs@.subrange(s + 1, e - 1));
            }
            Ok(Token::new(span, TokenKind::StringLiteral(unescape_range(cs, s + 1, e - 1))))
        },
        Scanned::Chr => {
            let c = cs[s + 1];
            let v = if c == '\\' {
                let n = cs[s + 2];
                if n == 'n' {
                    '\n'
                } else if n == 't' {
                    '\t'
                } else if n == 'r' {
                    '\r'
                } else if n == '0' {
                    '\0'
                } else {
                    n
                }
            } else {
                c
            };
            Ok(Token::new(span, TokenKind::Char(v)))
        },
        Scanned::LineComment => Ok(Token::new(span, TokenKind::Comments(string_of(cs, s, e)))),
        Scanned::BlockComment => Ok(Token::new(span, TokenKind::Comments(string_of(cs, s, e)))),
        Scanned::DocComment => {
            proof {
                assert(at(cs@, s + 2) == '!');
                assert(run(cs@, s + 2, CharClass::NotNewline) >= 1);
                assert(run(cs@, s + 1, CharClass::NotNewline) >= 2);
                assert(run(cs@, s as int, CharClass::NotNewline) >= 3);
                assert(text.subrange(3, text.len() as int) =~= cs@.subrange(s + 3, e as int));
            }
            if e - (s + 3) >= 2 && cs[s + 3] == ' ' {
                proof {
                    assert(cs@.subrange(s + 3, e as int).drop_first() =~= cs@.subrange(s + 4, e as int));
                }
                Ok(Token::new(span, TokenKind::Docs(string_of(cs, s + 4, e))))
            } else {
                Ok(Token::new(span, TokenKind::Docs(string_of(cs, s + 3, e))))
            }
        },
        Scanned::Punct(p) => Ok(Token::new(span, punct_token(p))),
        _ => Err((LexingError::NonAsciiChar, span)),
    }
}


/// Reads the tokens of one source file.
#[derive(Debug)]
pub struct AtlasLexer {
    /// The path of the file being read.
    pub path: &'static str,
    pub source: String,
    /// Span of the last token read, repeated by the end-of-input token.
    pub last_pos_start: usize,
    pub last_pos_end: usize,
}

/// Whether `tokenize` can read `source`: no doc comment whose text starts with a character
/// outside ASCII, and a byte length that fits in a `usize`.
pub fn can_tokenize(source: &str) -> (b: bool)
    ensures
        b == lexable(source@),
{
    let cs = chars_of(source);
    let mut acc: usize = 0;
    let mut k: usize = 0;
    while k < cs.len()
        invariant
            k <= cs.len(),
            cs@ == source@,
            acc == byte_pos(cs@, k as int),
        decreases cs.len() - k,
    {
        let w = utf8_len_of(cs[k]);
        if w > usize::MAX - acc {
            proof {
                assert(byte_pos(cs@, k + 1) == byte_pos(cs@, k as int) + utf8_len(cs@[k as int]));
                lemma_byte_pos_mono(cs@, k + 1, cs.len() as int);
                assert(byte_pos(cs@, cs.len() as int) > usize::MAX);
                assert(!lexable(cs@));
            }
            return false;
        }
        acc = acc + w;
        k = k + 1;
    }
    let ghost all = lexemes(cs@);
    let ghost mut done: Seq<Lexeme> = seq![];
    let mut i: usize = 0;
    while i < cs.len()
        invariant
            cs@ == source@,
            all == lexemes(cs@),
            i <= cs.len(),
            done + lexemes_from(cs@, i as int) == all,
            forall|j: int| 0 <= j < done.len() ==> !(outcome(cs@, #[trigger] done[j]) is Unsliceable),
        decreases cs.len() - i,
    {
        let (kind, l) = scan(&cs, i);
        let e = i + l;
        let is_blank = match kind {
            Scanned::Blank => true,
            _ => false,
        };
        if !is_blank {
            let ghost lx = Lexeme { class: kind, start: i as int, end: e as int };
            proof {
                assert(lexemes_from(cs@, i as int) == seq![lx] + lexemes_from(cs@, e as int));
            }
            let is_doc = match kind {
                Scanned::DocComment => true,
                _ => false,
            };
            if is_doc && i + 3 < e && (cs[i + 3] as u32) >= 0x80 {
                proof {
                    let text = cs@.subrange(i as int, e as int);
                    assert(text.subrange(3, text.len() as int)[0] == cs@[i + 3]);
                    assert(outcome(cs@, lx) is Unsliceable);
                    assert(all[done.len() as int] == lx) by {
                        assert((done + lexemes_from(cs@, i as int))[done.len() as int] == lx);
                    }
                }
                return false;
            }
            proof {
                let text = cs@.subrange(i as int, e as int);
                if is_doc {
                    let rest = text.subrange(3, text.len() as int);
                    assert(i + 3 <= e) by {
                        assert(at(cs@, i as int) == '/' && at(cs@, i + 1) == '/' && at(cs@, i + 2) == '!');
                        assert(run(cs@, i + 3, CharClass::NotNewline) >= 0);
                        assert(run(cs@, i + 2, CharClass::NotNewline) >= 1);
                        assert(run(cs@, i + 1, CharClass::NotNewline) >= 2);
                        assert(run(cs@, i as int, CharClass::NotNewline) >= 3);
                    }
                    if i + 3 < e {
                        assert(rest[0] == cs@[i + 3]);
                        assert(!((rest[0] as u32) >= 0x80));
                    } else {
                        assert(rest.len() == 0);
                    }
                } else {
                    assert(!(kind is DocComment));
                }
                assert(!(outcome(cs@, lx) is Unsliceable));
                let nd = done.push(lx);
                assert(nd + lexemes_from(cs@, e as int) =~= done + lexemes_from(cs@, i as int));
                done = nd;
            }
        } else {
            proof {
                assert(lexemes_from(cs@, i as int) == lexemes_from(cs@, e as int));
            }
        }
        i = e;
    }
    proof {
        assert(done =~= all);
    }
    true
}

/// The tokens read from index `i` on lie within `[i, len)`, each non-empty, in order and
/// without overlap.
proof fn lemma_lexemes_from_ordered(cs: Seq<char>, i: int)
    requires
        0 <= i <= cs.len(),
    ensures
        forall|j: int| 0 <= j < lexemes_from(cs, i).len() ==>
            i <= (#[trigger] lexemes_from(cs, i)[j]).start < lexemes_from(cs, i)[j].end <= cs.len(),
        forall|j: int, k: int| 0 <= j < k < lexemes_from(cs, i).len() ==>
            (#[trigger] lexemes_from(cs, i)[j]).end <= (#[trigger] lexemes_from(cs, i)[k]).start,
    decreases cs.len() - i,
{
    if i < cs.len() {
        lemma_scan_bounds(cs, i);
        let (k, l) = scan_at(cs, i);
        lemma_lexemes_from_ordered(cs, i + l);
        let rest = lexemes_from(cs, i + l);
        if k != Scanned::Blank {
            let lx = Lexeme { class: k, start: i, end: i + l };
            let all = lexemes_from(cs, i);
            assert(all == seq![lx] + rest);
            assert forall|j: int| 0 <= j < all.len() implies i <= (#[trigger] all[j]).start < all[j].end <= cs.len() by {
                if j > 0 {
                    assert(all[j] == rest[j - 1]);
                }
            }
            assert forall|j: int, m: int| 0 <= j < m < all.len() implies (#[trigger] all[j]).end <= (#[trigger] all[m]).start by {
                assert(all[m] == rest[m - 1]);
                if j > 0 {
                    assert(all[j] == rest[j - 1]);
                }
            }
        }
    }
}

/// Tokens come in source order: each lies inside the source, is not empty, and ends no
/// later than the next one starts.
pub proof fn lemma_tokens_in_order(cs: Seq<char>)
    ensures
        forall|j: int| 0 <= j < lexemes(cs).len() ==>
            0 <= (#[trigger] lexemes(cs)[j]).start < lexemes(cs)[j].end <= cs.len(),
        forall|j: int, k: int| 0 <= j < k < lexemes(cs).len() ==>
            (#[trigger] lexemes(cs)[j]).end <= (#[trigger] lexemes(cs)[k]).start,
{
    lemma_lexemes_from_ordered(cs, 0);
}

/// A word read as an identifier is never a keyword (nor `true` or `false`).
pub proof fn lemma_identifiers_are_not_keywords(cs: Seq<char>, t: Lexeme)
    ensures
        outcome(cs, t) matches Outcome::Identifier(w) ==> keyword_kind(w) is None,
{
}

impl AtlasLexer {
    pub fn new(path: &'static str, source: String) -> (l: Self)
        ensures
            l.path == path,
            l.source == source,
            l.last_pos_start == 0,
            l.last_pos_end == 0,
    {
        AtlasLexer { path, source, last_pos_start: 0, last_pos_end: 0 }
    }

    /// Reads all tokens of the source, followed by an end-of-input token that repeats the
    /// span of the last token read (or the span already recorded when there is none).
    /// Input that starts no token, and integer literals too large for their type, are
    /// errors; the first one in the source is returned.
    pub fn tokenize(&mut self) -> (r: Result<Vec<Token>, (LexingError, Span)>)
        requires
            lexable(old(self).source@),
        ensures
            final(self).source == old(self).source,
            final(self).path == old(self).path,
            ({
                let cs = old(self).source@;
                let ls = lexemes(cs);
                let path = old(self).path;
                &&& match last_good(cs, ls) {
                    Some(j) => final(self).last_pos_start == span_of(cs, path, ls[j]).start
                        && final(self).last_pos_end == span_of(cs, path, ls[j]).end,
                    None => final(self).last_pos_start == old(self).last_pos_start
                        && final(self).last_pos_end == old(self).last_pos_end,
                }
                &&& match r {
                    Err((e, sp)) => first_error(cs, ls) matches Some(j)
                        && result_fits(cs, path, ls[j], Err((e, sp))),
                    Ok(toks) => first_error(cs, ls) is None
                        && toks.len() == ls.len() + 1
                        && (forall|j: int| 0 <= j < ls.len() ==> result_fits(cs, path, ls[j], Ok(#[trigger] toks@[j])))
                        && toks@.last().kind == TokenKind::EoI
                        && toks@.last().span == (Span { start: final(self).last_pos_start, end: final(self).last_pos_end, path }),
                }
            }),
    {
        let cs = chars_of(self.source.as_str());
        let path = self.path;
        let ghost all = lexemes(cs@);
        let mut toks: Vec<Token> = Vec::new();
        let mut first_err: Option<(LexingError, Span)> = None;
        let ghost mut done: Seq<Lexeme> = seq![];
        let mut i: usize = 0;
        let mut b: usize = 0;
        while i < cs.len()
            invariant
                cs@ == old(self).source@,
                self.source == old(self).source,
                self.path == old(self).path,
                path == self.path,
                all == lexemes(cs@),
                lexable(cs@),
                i <= cs.len(),
                b == byte_pos(cs@, i as int),
                done + lexemes_from(cs@, i as int) == all,
                match last_good(cs@, done) {
                    Some(j) => self.last_pos_start == span_of(cs@, path, done[j]).start
                        && self.last_pos_end == span_of(cs@, path, done[j]).end,
                    None => self.last_pos_start == old(self).last_pos_start
                        && self.last_pos_end == old(self).last_pos_end,
                },
                match first_err {
                    Some((e, sp)) => first_error(cs@, done) matches Some(j)
                        && result_fits(cs@, path, done[j], Err((e, sp))),
                    None => first_error(cs@, done) is None
                        && toks.len() == done.len()
                        && forall|j: int| 0 <= j < done.len() ==> result_fits(cs@, path, done[j], Ok(#[trigger] toks@[j])),
                },
            decreases cs.len() - i,
        {
            let (k, l) = scan(&cs, i);
            let e = i + l;
            proof {
                lemma_byte_pos_mono(cs@, e as int, cs.len() as int);
            }
            let be = advance_bytes(&cs, i, e, b);
            let is_blank = match k {
                Scanned::Blank => true,
                _ => false,
            };
            if !is_blank {
                let ghost lx = Lexeme { class: k, start: i as int, end: e as int };
                proof {
                    assert(lexemes_from(cs@, i as int) == seq![lx] + lexemes_from(cs@, e as int));
                    assert(all[done.len() as int] == lx) by {
                        assert((done + lexemes_from(cs@, i as int))[done.len() as int] == lx);
                    }
                    assert(!(outcome(cs@, all[done.len() as int]) is Unsliceable));
                }
                let r = make_token(&cs, path, k, i, e, b, be);
                proof {
                    let nd = done.push(lx);
                    assert(nd.drop_last() =~= done);
                    lemma_first_error_range(cs@, done);
                    lemma_last_good_range(cs@, done);
                    assert(forall|j: int| 0 <= j < done.len() ==> nd[j] == done[j]);
                    assert(nd + lexemes_from(cs@, e as int) =~= done + lexemes_from(cs@, i as int));
                }
                match r {
                    Ok(tok) => {
                        self.last_pos_start = tok.span.start;
                        self.last_pos_end = tok.span.end;
                        if first_err.is_none() {
                            toks.push(tok);
                        }
                    },
                    Err(err) => {
                        if first_err.is_none() {
                            first_err = Some(err);
                        }
                    },
                }
                proof {
                    done = done.push(lx);
                }
            } else {
                proof {
                    assert(lexemes_from(cs@, i as int) == lexemes_from(cs@, e as int));
                }
            }
            i = e;
            b = be;
        }
        proof {
            assert(done =~= all);
        }
        let eoi = Token::new(Span { start: self.last_pos_start, end: self.last_pos_end, path }, TokenKind::EoI);
        match first_err {
            Some(err) => Err(err),
            None => {
                toks.push(eoi);
                Ok(toks)
            },
        }
    }
}

} // verus!
