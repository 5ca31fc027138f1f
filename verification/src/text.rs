//! Character-level text building used by every string-producing part of the compiler.
use vstd::prelude::*;
use vstd::string::{StrSliceExecFns, StringExecFns};

verus! {

/// `String::push` appends one character.
pub assume_specification[ std::string::String::push ](string: &mut std::string::String, ch: char)
    ensures
        final(string)@ == old(string)@.push(ch),
;

/// The decimal digit character for a value below ten.
pub open spec fn digit_char(d: nat) -> char {
    ((d % 10) + 48) as char
}

/// Decimal text of a natural number, most significant digit first, without leading zeros
/// (zero is written as a single `0`).
pub open spec fn nat_text(n: nat) -> Seq<char>
    decreases n,
{
    if n < 10 {
        seq![digit_char(n)]
    } else {
        nat_text(n / 10).push(digit_char(n % 10))
    }
}

/// Decimal text of an integer, with a leading `-` when it is negative.
pub open spec fn int_text(i: int) -> Seq<char> {
    if i < 0 {
        seq!['-'] + nat_text((-i) as nat)
    } else {
        nat_text(i as nat)
    }
}

/// Appends the decimal text of `n` to `out`.
pub fn push_u128(out: &mut String, n: u128)
    ensures
        final(out)@ == old(out)@ + nat_text(n as nat),
    decreases n,
{
    if n < 10 {
        out.push(((n as u8) + 48) as char);
    } else {
        push_u128(out, n / 10);
        out.push((((n % 10) as u8) + 48) as char);
        proof {
            assert(old(out)@ + nat_text(n as nat) =~= old(out)@ + nat_text((n / 10) as nat) + seq![digit_char((n % 10) as nat)]);
        }
    }
}

/// Appends the decimal text of an unsigned 64-bit value.
pub fn push_u64(out: &mut String, n: u64)
    ensures
        final(out)@ == old(out)@ + nat_text(n as nat),
{
    push_u128(out, n as u128);
}

/// Appends the decimal text of a `usize`.
pub fn push_usize(out: &mut String, n: usize)
    ensures
        final(out)@ == old(out)@ + nat_text(n as nat),
{
    push_u128(out, n as u128);
}

/// Appends the decimal text of a signed 64-bit value.
pub fn push_i64(out: &mut String, i: i64)
    ensures
        final(out)@ == old(out)@ + int_text(i as int),
{
    if i < 0 {
        out.push('-');
        let m: i128 = -(i as i128);
        push_u128(out, m as u128);
        proof {
            assert(old(out)@ + int_text(i as int) =~= old(out)@.push('-') + nat_text((-i) as nat));
        }
    } else {
        push_u128(out, i as u128);
    }
}

/// The parts joined, with `sep` between consecutive parts.
pub open spec fn join(parts: Seq<Seq<char>>, sep: Seq<char>) -> Seq<char>
    decreases parts.len(),
{
    if parts.len() == 0 {
        seq![]
    } else if parts.len() == 1 {
        parts[0]
    } else {
        join(parts.drop_last(), sep) + sep + parts.last()
    }
}

/// The texts of the strings.
pub open spec fn views(v: Seq<String>) -> Seq<Seq<char>> {
    v.map_values(|s: String| s@)
}

/// Joins the strings with `sep` between consecutive ones.
pub fn join_strings(parts: &Vec<String>, sep: &str) -> (r: String)
    ensures
        r@ == join(views(parts@), sep@),
{
    let mut out = String::new();
    let mut i: usize = 0;
    while i < parts.len()
        invariant
            i <= parts.len(),
            out@ == join(views(parts@.subrange(0, i as int)), sep@),
        decreases parts.len() - i,
    {
        proof {
            let a = views(parts@.subrange(0, i + 1));
            assert(a.drop_last() =~= views(parts@.subrange(0, i as int)));
            assert(a.last() == parts@[i as int]@);
        }
        if i > 0 {
            out.append(sep);
        } else {
            proof {
                assert(views(parts@.subrange(0, 0)) =~= Seq::<Seq<char>>::empty());
            }
        }
        out.append(parts[i].as_str());
        i = i + 1;
    }
    proof {
        assert(parts@.subrange(0, parts.len() as int) =~= parts@);
    }
    out
}


/// Lowercase hexadecimal text of a natural number, without leading zeros.
pub open spec fn hex_text(n: nat) -> Seq<char>
    decreases n,
{
    if n < 16 {
        seq![hex_digit(n)]
    } else {
        hex_text(n / 16).push(hex_digit(n % 16))
    }
}

pub open spec fn hex_digit(d: nat) -> char {
    if d < 10 {
        ((d + 48) as u32) as char
    } else {
        ((d - 10 + 97) as u32) as char
    }
}

/// How `char::escape_default` writes one character: `\t \r \n`, a backslash before
/// `\`, `'` and `"`, printable ASCII as itself, anything else as `\u{hex}`.
pub open spec fn escape_char(c: char) -> Seq<char> {
    if c == '\t' {
        seq!['\\', 't']
    } else if c == '\r' {
        seq!['\\', 'r']
    } else if c == '\n' {
        seq!['\\', 'n']
    } else if c == '\\' || c == '\'' || c == '"' {
        seq!['\\', c]
    } else if 0x20 <= (c as u32) <= 0x7e {
        seq![c]
    } else {
        seq!['\\', 'u', '{'] + hex_text(c as u32 as nat) + seq!['}']
    }
}

/// `str::escape_default`: every character escaped by [`escape_char`].
pub open spec fn escape_default(s: Seq<char>) -> Seq<char>
    decreases s.len(),
{
    if s.len() == 0 {
        seq![]
    } else {
        escape_default(s.drop_last()) + escape_char(s.last())
    }
}

/// Appends the lowercase hexadecimal text of `n`.
pub fn push_hex(out: &mut String, n: u32)
    ensures
        final(out)@ == old(out)@ + hex_text(n as nat),
    decreases n,
{
    if n < 16 {
        let d = n as u8;
        if d < 10 {
            out.push((d + 48) as char);
        } else {
            out.push((d - 10 + 97) as char);
        }
    } else {
        push_hex(out, n / 16);
        let d = (n % 16) as u8;
        if d < 10 {
            out.push((d + 48) as char);
        } else {
            out.push((d - 10 + 97) as char);
        }
        proof {
            assert(old(out)@ + hex_text(n as nat) =~= old(out)@ + hex_text((n / 16) as nat) + seq![hex_digit((n % 16) as nat)]);
        }
    }
}

/// Appends `escape_char(c)`.
pub fn push_escaped_char(out: &mut String, c: char)
    ensures
        final(out)@ == old(out)@ + escape_char(c),
{
    if c == '\t' {
        out.push('\\');
        out.push('t');
    } else if c == '\r' {
        out.push('\\');
        out.push('r');
    } else if c == '\n' {
        out.push('\\');
        out.push('n');
    } else if c == '\\' || c == '\'' || c == '"' {
        out.push('\\');
        out.push(c);
    } else if 0x20 <= (c as u32) && (c as u32) <= 0x7e {
        out.push(c);
    } else {
        out.push('\\');
        out.push('u');
        out.push('{');
        push_hex(out, c as u32);
        out.push('}');
        proof {
            assert(old(out)@ + escape_char(c) =~= old(out)@ + seq!['\\', 'u', '{'] + hex_text(c as u32 as nat) + seq!['}']);
        }
    }
}

/// Appends the text of `s` escaped by `str::escape_default`.
pub fn push_escaped(out: &mut String, s: &str)
    ensures
        final(out)@ == old(out)@ + escape_default(s@),
{
    let n = s.unicode_len();
    let mut j: usize = 0;
    let ghost start = out@;
    while j < n
        invariant
            n == s@.len(),
            j <= n,
            out@ == start + escape_default(s@.subrange(0, j as int)),
        decreases n - j,
    {
        let c = s.get_char(j);
        push_escaped_char(out, c);
        proof {
            assert(s@.subrange(0, j + 1).drop_last() =~= s@.subrange(0, j as int));
        }
        j = j + 1;
    }
    proof {
        assert(s@.subrange(0, n as int) =~= s@);
    }
}

/// The characters of `s`.
pub fn chars_of(s: &str) -> (cs: Vec<char>)
    ensures
        cs@ == s@,
{
    let n = s.unicode_len();
    let mut cs: Vec<char> = Vec::new();
    let mut j: usize = 0;
    while j < n
        invariant
            n == s@.len(),
            j <= n,
            cs@ == s@.subrange(0, j as int),
        decreases n - j,
    {
        cs.push(s.get_char(j));
        assert(s@.subrange(0, j + 1) =~= s@.subrange(0, j as int).push(s@[j as int]));
        j = j + 1;
    }
    assert(s@.subrange(0, n as int) =~= s@);
    cs
}


/// Whether the two texts are equal.
pub fn str_eq(a: &str, b: &str) -> (r: bool)
    ensures
        r == (a@ == b@),
{
    let n = a.unicode_len();
    if n != b.unicode_len() {
        return false;
    }
    let mut j: usize = 0;
    while j < n
        invariant
            n == a@.len(),
            n == b@.len(),
            j <= n,
            forall|q: int| 0 <= q < j ==> a@[q] == b@[q],
        decreases n - j,
    {
        if a.get_char(j) != b.get_char(j) {
            return false;
        }
        j = j + 1;
    }
    assert(a@ =~= b@);
    true
}

/// `p` is a prefix of `s`.
pub open spec fn has_prefix(s: Seq<char>, p: Seq<char>) -> bool {
    p.len() <= s.len() && s.subrange(0, p.len() as int) == p
}

/// Whether `s` begins with `p`.
pub fn starts_with(s: &str, p: &str) -> (r: bool)
    ensures
        r == has_prefix(s@, p@),
{
    let n = s.unicode_len();
    let m = p.unicode_len();
    if m > n {
        return false;
    }
    let mut j: usize = 0;
    while j < m
        invariant
            n == s@.len(),
            m == p@.len(),
            m <= n,
            j <= m,
            forall|q: int| 0 <= q < j ==> s@[q] == p@[q],
        decreases m - j,
    {
        if s.get_char(j) != p.get_char(j) {
            assert(s@.subrange(0, m as int)[j as int] != p@[j as int]);
            return false;
        }
        j = j + 1;
    }
    assert(s@.subrange(0, m as int) =~= p@);
    true
}

/// `s` with every occurrence of the non-empty `p` replaced by `r`, occurrences found from
/// the left and not overlapping.
pub open spec fn replaced(s: Seq<char>, p: Seq<char>, r: Seq<char>) -> Seq<char>
    decreases s.len(),
{
    if p.len() == 0 || s.len() < p.len() {
        s
    } else if s.subrange(0, p.len() as int) == p {
        r + replaced(s.subrange(p.len() as int, s.len() as int), p, r)
    } else {
        seq![s[0]] + replaced(s.subrange(1, s.len() as int), p, r)
    }
}

/// Whether `cs[i..]` begins with `p`.
fn matches_at(cs: &Vec<char>, i: usize, p: &Vec<char>) -> (b: bool)
    requires
        i <= cs.len(),
    ensures
        b == has_prefix(cs@.subrange(i as int, cs.len() as int), p@),
{
    let m = p.len();
    if m > cs.len() - i {
        return false;
    }
    let mut j: usize = 0;
    while j < m
        invariant
            i + m <= cs.len(),
            m == p.len(),
            j <= m,
            forall|q: int| 0 <= q < j ==> cs@[i + q] == p@[q],
        decreases m - j,
    {
        if cs[i + j] != p[j] {
            assert(cs@.subrange(i as int, cs.len() as int).subrange(0, m as int)[j as int] != p@[j as int]);
            return false;
        }
        j = j + 1;
    }
    assert(cs@.subrange(i as int, cs.len() as int).subrange(0, m as int) =~= p@);
    true
}

/// `s` with every occurrence of `pat` replaced by `rep`, as `str::replace` does.
pub fn replace_all(s: &str, pat: &str, rep: &str) -> (r: String)
    requires
        pat@.len() > 0,
    ensures
        r@ == replaced(s@, pat@, rep@),
{
    let cs = chars_of(s);
    let ps = chars_of(pat);
    let n = cs.len();
    let m = ps.len();
    let mut out = String::new();
    let mut i: usize = 0;
    proof {
        assert(s@.subrange(0, n as int) =~= s@);
        assert(out@ + replaced(s@, pat@, rep@) =~= replaced(s@, pat@, rep@));
    }
    while i < n
        invariant
            cs@ == s@,
            ps@ == pat@,
            n == cs.len(),
            m == ps.len(),
            m > 0,
            i <= n,
            out@ + replaced(s@.subrange(i as int, n as int), pat@, rep@) == replaced(s@, pat@, rep@),
        decreases n - i,
    {
        let rest = Ghost(s@.subrange(i as int, n as int));
        if matches_at(&cs, i, &ps) {
            proof {
                assert(rest@.subrange(m as int, rest@.len() as int) =~= s@.subrange(i + m, n as int));
                assert(out@ + rep@ + replaced(s@.subrange(i + m, n as int), pat@, rep@)
                    =~= out@ + replaced(rest@, pat@, rep@));
            }
            out.append(rep);
            i = i + m;
        } else {
            proof {
                if rest@.len() >= m {
                    assert(rest@.subrange(1, rest@.len() as int) =~= s@.subrange(i + 1, n as int));
                    assert(out@.push(cs@[i as int]) + replaced(s@.subrange(i + 1, n as int), pat@, rep@)
                        =~= out@ + replaced(rest@, pat@, rep@));
                } else {
                    assert(replaced(rest@, pat@, rep@) == rest@);
                    assert(replaced(s@.subrange(i + 1, n as int), pat@, rep@) == s@.subrange(i + 1, n as int));
                    assert(out@.push(cs@[i as int]) + s@.subrange(i + 1, n as int) =~= out@ + rest@);
                }
            }
            out.push(cs[i]);
            i = i + 1;
        }
    }
    proof {
        assert(s@.subrange(n as int, n as int) =~= Seq::<char>::empty());
        assert(out@ + Seq::<char>::empty() =~= out@);
    }
    out
}

/// Number of bytes of the UTF-8 encoding of `c`.
pub open spec fn utf8_len(c: char) -> nat {
    if (c as u32) < 0x80 {
        1
    } else if (c as u32) < 0x800 {
        2
    } else if (c as u32) < 0x10000 {
        3
    } else {
        4
    }
}

/// Byte offset, in the UTF-8 encoding of `cs`, of the character at index `i`.
pub open spec fn byte_pos(cs: Seq<char>, i: int) -> nat
    decreases i,
{
    if i <= 0 || cs.len() == 0 {
        0
    } else if i > cs.len() {
        byte_pos(cs, cs.len() as int)
    } else {
        byte_pos(cs, i - 1) + utf8_len(cs[i - 1])
    }
}

pub proof fn lemma_byte_pos_mono(cs: Seq<char>, i: int, j: int)
    requires
        0 <= i <= j <= cs.len(),
    ensures
        byte_pos(cs, i) <= byte_pos(cs, j),
    decreases j - i,
{
    if i < j {
        lemma_byte_pos_mono(cs, i, j - 1);
    }
}

/// Number of bytes of the UTF-8 encoding of `c`.
pub fn utf8_len_of(c: char) -> (n: usize)
    ensures
        n == utf8_len(c),
{
    let v = c as u32;
    if v < 0x80 {
        1
    } else if v < 0x800 {
        2
    } else if v < 0x10000 {
        3
    } else {
        4
    }
}


/// Characters with the Unicode `White_Space` property, which `char::is_whitespace`
/// recognises.
pub open spec fn is_ws(c: char) -> bool {
    let v = c as u32;
    ||| 0x09 <= v <= 0x0D
    ||| v == 0x20
    ||| v == 0x85
    ||| v == 0xA0
    ||| v == 0x1680
    ||| 0x2000 <= v <= 0x200A
    ||| v == 0x2028
    ||| v == 0x2029
    ||| v == 0x202F
    ||| v == 0x205F
    ||| v == 0x3000
}

pub fn char_is_ws(c: char) -> (b: bool)
    ensures
        b == is_ws(c),
{
    let v = c as u32;
    (0x09 <= v && v <= 0x0D) || v == 0x20 || v == 0x85 || v == 0xA0 || v == 0x1680
        || (0x2000 <= v && v <= 0x200A) || v == 0x2028 || v == 0x2029 || v == 0x202F
        || v == 0x205F || v == 0x3000
}

/// `s` without its leading whitespace.
pub open spec fn trim_start(s: Seq<char>) -> Seq<char>
    decreases s.len(),
{
    if s.len() > 0 && is_ws(s[0]) {
        trim_start(s.subrange(1, s.len() as int))
    } else {
        s
    }
}

/// `s` without its trailing whitespace.
pub open spec fn trim_end(s: Seq<char>) -> Seq<char>
    decreases s.len(),
{
    if s.len() > 0 && is_ws(s.last()) {
        trim_end(s.drop_last())
    } else {
        s
    }
}

/// `s` without leading and trailing whitespace, as `str::trim` gives it.
pub open spec fn trim(s: Seq<char>) -> Seq<char> {
    trim_end(trim_start(s))
}

/// `str::trim`.
pub fn trim_str(s: &str) -> (r: String)
    ensures
        r@ == trim(s@),
{
    let n = s.unicode_len();
    let mut a: usize = 0;
    proof {
        assert(s@.subrange(0, n as int) =~= s@);
    }
    while a < n && char_is_ws(s.get_char(a))
        invariant
            n == s@.len(),
            a <= n,
            trim_start(s@.subrange(a as int, n as int)) == trim_start(s@),
        decreases n - a,
    {
        proof {
            let t = s@.subrange(a as int, n as int);
            assert(t.subrange(1, t.len() as int) =~= s@.subrange(a + 1, n as int));
        }
        a = a + 1;
    }
    proof {
        let t = s@.subrange(a as int, n as int);
        assert(trim_start(t) == t);
    }
    let mut b: usize = n;
    proof {
        assert(s@.subrange(a as int, n as int) =~= s@.subrange(a as int, b as int));
    }
    while b > a && char_is_ws(s.get_char(b - 1))
        invariant
            n == s@.len(),
            a <= b <= n,
            trim_end(s@.subrange(a as int, b as int)) == trim(s@),
        decreases b,
    {
        proof {
            assert(s@.subrange(a as int, b - 1) =~= s@.subrange(a as int, b as int).drop_last());
        }
        b = b - 1;
    }
    String::from_str(s.substring_char(a, b))
}

/// Number of occurrences of `c` in `s`.
pub open spec fn count_char(s: Seq<char>, c: char) -> nat
    decreases s.len(),
{
    if s.len() == 0 {
        0
    } else {
        count_char(s.drop_last(), c) + (if s.last() == c { 1nat } else { 0nat })
    }
}

pub fn count_char_in(s: &str, c: char) -> (r: usize)
    ensures
        r == count_char(s@, c),
{
    let n = s.unicode_len();
    let mut k: usize = 0;
    let mut count: usize = 0;
    while k < n
        invariant
            n == s@.len(),
            k <= n,
            count == count_char(s@.subrange(0, k as int), c),
            count <= k,
        decreases n - k,
    {
        proof {
            assert(s@.subrange(0, k + 1).drop_last() =~= s@.subrange(0, k as int));
        }
        if s.get_char(k) == c {
            count = count + 1;
        }
        k = k + 1;
    }
    proof {
        assert(s@.subrange(0, n as int) =~= s@);
    }
    count
}

/// `n` copies of `*`.
pub open spec fn stars(n: nat) -> Seq<char> {
    Seq::new(n, |i: int| '*')
}

/// The byte offset `b` falls between two characters of `cs` (or at an end).
pub open spec fn is_char_boundary(cs: Seq<char>, b: int) -> bool {
    exists|k: int| 0 <= k <= cs.len() && byte_pos(cs, k) == b
}

/// The character index at byte offset `b`, on a boundary.
pub open spec fn char_index(cs: Seq<char>, b: int) -> int {
    choose|k: int| 0 <= k <= cs.len() && byte_pos(cs, k) == b
}

/// Byte offsets grow strictly with the character index.
pub proof fn lemma_byte_pos_strict(cs: Seq<char>, i: int, j: int)
    requires
        0 <= i < j <= cs.len(),
    ensures
        byte_pos(cs, i) < byte_pos(cs, j),
    decreases j - i,
{
    if i < j - 1 {
        lemma_byte_pos_strict(cs, i, j - 1);
    }
}

/// On a boundary, `char_index` is the one index at that offset.
pub proof fn lemma_char_index(cs: Seq<char>, b: int, k: int)
    requires
        0 <= k <= cs.len(),
        byte_pos(cs, k) == b,
    ensures
        char_index(cs, b) == k,
{
    let c = char_index(cs, b);
    if c < k {
        lemma_byte_pos_strict(cs, c, k);
    } else if k < c {
        lemma_byte_pos_strict(cs, k, c);
    }
}

/// The character index at byte offset `b`, or `None` when `b` is not a boundary.
pub fn char_index_at_byte(cs: &Vec<char>, b: usize) -> (r: Option<usize>)
    ensures
        match r {
            Some(k) => k <= cs.len() && byte_pos(cs@, k as int) == b,
            None => !is_char_boundary(cs@, b as int),
        },
{
    let mut k: usize = 0;
    let mut acc: usize = 0;
    while k < cs.len() && acc < b
        invariant
            k <= cs.len(),
            acc == byte_pos(cs@, k as int),
            acc <= b || k == 0,
        decreases cs.len() - k,
    {
        let w = utf8_len_of(cs[k]);
        if w > b - acc {
            proof {
                assert(forall|q: int| 0 <= q <= cs.len() && byte_pos(cs@, q) == b ==> false) by {
                    assert forall|q: int| 0 <= q <= cs.len() && byte_pos(cs@, q) == b implies false by {
                        if q <= k {
                            if q < k {
                                lemma_byte_pos_strict(cs@, q, k as int);
                            }
                        } else {
                            lemma_byte_pos_mono(cs@, k + 1, q);
                        }
                    }
                }
            }
            return None;
        }
        acc = acc + w;
        k = k + 1;
    }
    if acc == b {
        Some(k)
    } else {
        proof {
            assert forall|q: int| 0 <= q <= cs.len() && byte_pos(cs@, q) == b implies false by {
                if q < k {
                    lemma_byte_pos_strict(cs@, q, k as int);
                } else if q > k {
                    lemma_byte_pos_mono(cs@, k as int, q);
                }
            }
        }
        None
    }
}


/// Length of the UTF-8 encoding of `cs`, in bytes.
pub open spec fn bytes_len(cs: Seq<char>) -> nat {
    byte_pos(cs, cs.len() as int)
}

/// The characters between byte offsets `start` and `end`, as `str::get(start..end)` gives
/// them, or nothing when that range does not fall on character boundaries in order.
pub open spec fn byte_slice(cs: Seq<char>, start: int, end: int) -> Seq<char> {
    if is_char_boundary(cs, start) && is_char_boundary(cs, end) && start <= end {
        cs.subrange(char_index(cs, start), char_index(cs, end))
    } else {
        Seq::empty()
    }
}

/// Whether `b` is at most the byte length of `cs`.
pub fn within_bytes(cs: &Vec<char>, b: usize) -> (r: bool)
    ensures
        r == (b <= bytes_len(cs@)),
{
    let mut k: usize = 0;
    let mut acc: usize = 0;
    while acc < b
        invariant
            k <= cs.len(),
            acc == byte_pos(cs@, k as int),
            acc <= b,
        decreases cs.len() - k,
    {
        if k == cs.len() {
            return false;
        }
        let w = utf8_len_of(cs[k]);
        if w >= b - acc {
            proof {
                lemma_byte_pos_mono(cs@, k + 1, cs.len() as int);
            }
            return true;
        }
        acc = acc + w;
        k = k + 1;
    }
    proof {
        lemma_byte_pos_mono(cs@, k as int, cs.len() as int);
    }
    true
}

/// The text between byte offsets `start` and `end` of `cs`, when they are character
/// boundaries in order.
pub fn slice_bytes(cs: &Vec<char>, start: usize, end: usize) -> (r: Option<String>)
    ensures
        match r {
            Some(t) => is_char_boundary(cs@, start as int) && is_char_boundary(cs@, end as int) && start <= end
                && t@ == byte_slice(cs@, start as int, end as int),
            None => !(is_char_boundary(cs@, start as int) && is_char_boundary(cs@, end as int) && start <= end),
        },
{
    let ks = char_index_at_byte(cs, start);
    let ke = char_index_at_byte(cs, end);
    match (ks, ke) {
        (Some(a), Some(b)) => {
            proof {
                lemma_char_index(cs@, start as int, a as int);
                lemma_char_index(cs@, end as int, b as int);
                if a > b {
                    lemma_byte_pos_strict(cs@, b as int, a as int);
                }
                if a < b {
                    lemma_byte_pos_strict(cs@, a as int, b as int);
                }
            }
            if start <= end {
                let mut out = String::new();
                let mut k: usize = a;
                while k < b
                    invariant
                        a <= k <= b <= cs.len(),
                        out@ == cs@.subrange(a as int, k as int),
                    decreases b - k,
                {
                    out.push(cs[k]);
                    proof {
                        assert(cs@.subrange(a as int, k + 1) =~= cs@.subrange(a as int, k as int).push(cs@[k as int]));
                    }
                    k = k + 1;
                }
                Some(out)
            } else {
                None
            }
        },
        _ => None,
    }
}


/// The text from byte offset `start` to the end of `cs`, when `start` is a character
/// boundary.
pub fn slice_from_byte(cs: &Vec<char>, start: usize) -> (r: Option<String>)
    ensures
        match r {
            Some(t) => is_char_boundary(cs@, start as int) && t@ == byte_slice(cs@, start as int, bytes_len(cs@) as int),
            None => !is_char_boundary(cs@, start as int),
        },
{
    match char_index_at_byte(cs, start) {
        Some(a) => {
            proof {
                lemma_char_index(cs@, start as int, a as int);
                lemma_char_index(cs@, bytes_len(cs@) as int, cs@.len() as int);
                lemma_byte_pos_mono(cs@, a as int, cs@.len() as int);
            }
            let mut out = String::new();
            let mut k: usize = a;
            while k < cs.len()
                invariant
                    a <= k <= cs.len(),
                    out@ == cs@.subrange(a as int, k as int),
                decreases cs.len() - k,
            {
                out.push(cs[k]);
                proof {
                    assert(cs@.subrange(a as int, k + 1) =~= cs@.subrange(a as int, k as int).push(cs@[k as int]));
                }
                k = k + 1;
            }
            Some(out)
        },
        None => None,
    }
}


/// `a` comes strictly before `b` in the order of their characters' code points (the order
/// of their UTF-8 bytes).
pub open spec fn seq_lt(a: Seq<char>, b: Seq<char>) -> bool
    decreases a.len(),
{
    if b.len() == 0 {
        false
    } else if a.len() == 0 {
        true
    } else if a[0] != b[0] {
        (a[0] as int) < (b[0] as int)
    } else {
        seq_lt(a.drop_first(), b.drop_first())
    }
}

/// `seq_lt` is a strict total order.
pub proof fn lemma_seq_lt_order(a: Seq<char>, b: Seq<char>, c: Seq<char>)
    ensures
        !seq_lt(a, a),
        seq_lt(a, b) ==> !seq_lt(b, a),
        a != b ==> seq_lt(a, b) || seq_lt(b, a),
        seq_lt(a, b) && seq_lt(b, c) ==> seq_lt(a, c),
    decreases a.len(),
{
    if a.len() > 0 {
        if b.len() > 0 && c.len() > 0 {
            lemma_seq_lt_order(a.drop_first(), b.drop_first(), c.drop_first());
        } else if b.len() > 0 {
            lemma_seq_lt_order(a.drop_first(), b.drop_first(), b.drop_first());
        } else {
            lemma_seq_lt_order(a.drop_first(), a.drop_first(), a.drop_first());
        }
        if b.len() > 0 && a[0] == b[0] && a.drop_first() == b.drop_first() {
            assert forall|i: int| 0 <= i < a.len() implies a[i] == b[i] by {
                if i > 0 {
                    assert(a[i] == a.drop_first()[i - 1]);
                    assert(b[i] == b.drop_first()[i - 1]);
                }
            }
            assert(a =~= b);
        }
    } else if b.len() == 0 {
        assert(a =~= b);
    }
}

/// Whether `a` comes strictly before `b` (see `seq_lt`).
pub fn str_lt(a: &str, b: &str) -> (r: bool)
    ensures
        r == seq_lt(a@, b@),
{
    let na = a.unicode_len();
    let nb = b.unicode_len();
    let mut j: usize = 0;
    proof {
        assert(a@.skip(0) =~= a@);
        assert(b@.skip(0) =~= b@);
    }
    while j < na && j < nb
        invariant
            na == a@.len(),
            nb == b@.len(),
            j <= na,
            j <= nb,
            seq_lt(a@, b@) == seq_lt(a@.skip(j as int), b@.skip(j as int)),
        decreases na - j,
    {
        let x = a.get_char(j);
        let y = b.get_char(j);
        proof {
            assert(a@.skip(j as int)[0] == x);
            assert(b@.skip(j as int)[0] == y);
        }
        if x != y {
            return (x as u32) < (y as u32);
        }
        proof {
            assert(a@.skip(j as int).drop_first() =~= a@.skip(j + 1));
            assert(b@.skip(j as int).drop_first() =~= b@.skip(j + 1));
        }
        j = j + 1;
    }
    j < nb
}


/// Each character takes at least one byte.
pub proof fn lemma_byte_pos_at_least(cs: Seq<char>, i: int)
    requires
        0 <= i <= cs.len(),
    ensures
        byte_pos(cs, i) >= i,
    decreases i,
{
    if i > 0 {
        lemma_byte_pos_at_least(cs, i - 1);
    }
}

/// Whether the UTF-8 encoding of `s` is one byte long.
pub fn byte_len_is_one(s: &str) -> (b: bool)
    ensures
        b == (bytes_len(s@) == 1),
{
    let n = s.unicode_len();
    proof {
        lemma_byte_pos_at_least(s@, n as int);
    }
    if n != 1 {
        return false;
    }
    proof {
        assert(byte_pos(s@, 0) == 0);
    }
    utf8_len_of(s.get_char(0)) == 1
}


/// `p` occurs in `s`.
pub open spec fn has_infix(s: Seq<char>, p: Seq<char>) -> bool {
    exists|i: int| 0 <= i <= s.len() && #[trigger] has_prefix(s.subrange(i, s.len() as int), p)
}

/// Whether `p` occurs in `s`, as `str::contains` tells.
pub fn str_contains(s: &str, p: &str) -> (r: bool)
    ensures
        r == has_infix(s@, p@),
{
    let cs = chars_of(s);
    let ps = chars_of(p);
    let mut i: usize = 0;
    loop
        invariant
            cs@ == s@,
            ps@ == p@,
            i <= cs.len(),
            forall|q: int| 0 <= q < i ==> !#[trigger] has_prefix(s@.subrange(q, s@.len() as int), p@),
        decreases cs.len() - i,
    {
        if matches_at(&cs, i, &ps) {
            return true;
        }
        if i == cs.len() {
            return false;
        }
        i = i + 1;
    }
}


/// `p` ends `s`.
pub open spec fn has_suffix(s: Seq<char>, p: Seq<char>) -> bool {
    p.len() <= s.len() && s.subrange(s.len() - p.len(), s.len() as int) == p
}

/// Whether `s` ends with `p`.
pub fn ends_with(s: &str, p: &str) -> (r: bool)
    ensures
        r == has_suffix(s@, p@),
{
    let n = s.unicode_len();
    let m = p.unicode_len();
    if m > n {
        return false;
    }
    let mut j: usize = 0;
    while j < m
        invariant
            n == s@.len(),
            m == p@.len(),
            m <= n,
            j <= m,
            forall|q: int| 0 <= q < j ==> s@[n - m + q] == p@[q],
        decreases m - j,
    {
        if s.get_char(n - m + j) != p.get_char(j) {
            assert(s@.subrange(n - m, n as int)[j as int] != p@[j as int]);
            return false;
        }
        j = j + 1;
    }
    assert(s@.subrange(n - m, n as int) =~= p@);
    true
}

/// `s` without the copies of the non-empty `p` that begin it, as
/// `str::trim_start_matches` leaves it.
pub open spec fn strip_all_prefixes(s: Seq<char>, p: Seq<char>) -> Seq<char>
    decreases s.len(),
{
    if p.len() > 0 && has_prefix(s, p) {
        strip_all_prefixes(s.subrange(p.len() as int, s.len() as int), p)
    } else {
        s
    }
}

/// See `strip_all_prefixes`.
pub fn trim_start_matches(s: &str, p: &str) -> (r: String)
    requires
        p@.len() > 0,
    ensures
        r@ == strip_all_prefixes(s@, p@),
{
    let cs = chars_of(s);
    let ps = chars_of(p);
    let mut i: usize = 0;
    proof {
        assert(s@.subrange(0, s@.len() as int) =~= s@);
    }
    while matches_at(&cs, i, &ps)
        invariant
            cs@ == s@,
            ps@ == p@,
            ps@.len() > 0,
            i <= cs@.len(),
            strip_all_prefixes(s@, p@) == strip_all_prefixes(s@.subrange(i as int, s@.len() as int), p@),
        decreases cs@.len() - i,
    {
        proof {
            let rest = s@.subrange(i as int, s@.len() as int);
            assert(rest.subrange(p@.len() as int, rest.len() as int) =~= s@.subrange(i + p@.len(), s@.len() as int));
        }
        i = i + ps.len();
    }
    let mut out = String::new();
    let mut j: usize = i;
    proof {
        assert(out@ =~= s@.subrange(i as int, i as int));
    }
    while j < cs.len()
        invariant
            cs@ == s@,
            i <= j <= cs@.len(),
            out@ == s@.subrange(i as int, j as int),
        decreases cs@.len() - j,
    {
        out.push(cs[j]);
        proof {
            assert(out@ =~= s@.subrange(i as int, j + 1));
        }
        j = j + 1;
    }
    out
}

} // verus!
