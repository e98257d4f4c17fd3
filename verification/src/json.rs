//! The JSON side of the wire protocol, written directly on characters: a
//! renderer for the response object `{"query":...,"data":...}` and a parser
//! for the write-request object `{"value":...,"ttl":...}`. The exact text
//! produced, and the exact set of texts accepted, are stated by spec
//! functions; the executable code is verified against them.

use vstd::prelude::*;

verus! {

/// The lowercase hexadecimal digit for `n < 16`.
pub open spec fn hex_digit(n: u32) -> char {
    if n < 10 {
        ((n + 48) as u8) as char
    } else {
        ((n + 87) as u8) as char
    }
}

/// How one character appears inside a rendered JSON string: quote and
/// backslash are escaped, the common control characters take their short
/// escapes, the remaining control characters the `\u00XX` form, and every
/// other character stands as itself.
pub open spec fn escape_char(c: char) -> Seq<char> {
    if c == '"' {
        seq!['\\', '"']
    } else if c == '\\' {
        seq!['\\', '\\']
    } else if c == '\u{8}' {
        seq!['\\', 'b']
    } else if c == '\u{c}' {
        seq!['\\', 'f']
    } else if c == '\n' {
        seq!['\\', 'n']
    } else if c == '\r' {
        seq!['\\', 'r']
    } else if c == '\t' {
        seq!['\\', 't']
    } else if (c as u32) < 32 {
        seq!['\\', 'u', '0', '0', hex_digit((c as u32) / 16), hex_digit((c as u32) % 16)]
    } else {
        seq![c]
    }
}

/// A string's characters, each escaped as it appears inside a rendered
/// JSON string.
pub open spec fn escape_string(s: Seq<char>) -> Seq<char>
    decreases s.len(),
{
    if s.len() == 0 {
        Seq::empty()
    } else {
        escape_string(s.drop_last()) + escape_char(s.last())
    }
}

/// A rendered JSON string: the escaped characters between double quotes.
pub open spec fn json_string(s: Seq<char>) -> Seq<char> {
    seq!['"'] + escape_string(s) + seq!['"']
}

/// The rendered response object: the key under `"query"` and the value —
/// or `null` — under `"data"`.
pub open spec fn json_response(query: Seq<char>, data: Option<Seq<char>>) -> Seq<char> {
    seq!['{', '"', 'q', 'u', 'e', 'r', 'y', '"', ':'] + json_string(query) + seq![
        ',',
        '"',
        'd',
        'a',
        't',
        'a',
        '"',
        ':',
    ] + (match data {
        Some(v) => json_string(v),
        None => seq!['n', 'u', 'l', 'l'],
    }) + seq!['}']
}

/// Relies on `String`'s `FromIterator<char>` implementation: collecting
/// characters yields the string of exactly those characters in order.
#[verifier::external_body]
fn string_from_chars(v: Vec<char>) -> (r: String)
    ensures
        r@ == v@,
{
    v.into_iter().collect()
}

fn push_hex_digit(out: &mut Vec<char>, n: u32)
    requires
        n < 16,
    ensures
        final(out)@ == old(out)@.push(hex_digit(n)),
{
    if n < 10 {
        out.push(((n as u8) + 48) as char);
    } else {
        out.push(((n as u8) + 87) as char);
    }
}

fn push_escaped_char(out: &mut Vec<char>, c: char)
    ensures
        final(out)@ == old(out)@ + escape_char(c),
{
    if c == '"' {
        out.push('\\');
        out.push('"');
    } else if c == '\\' {
        out.push('\\');
        out.push('\\');
    } else if c == '\u{8}' {
        out.push('\\');
        out.push('b');
    } else if c == '\u{c}' {
        out.push('\\');
        out.push('f');
    } else if c == '\n' {
        out.push('\\');
        out.push('n');
    } else if c == '\r' {
        out.push('\\');
        out.push('r');
    } else if c == '\t' {
        out.push('\\');
        out.push('t');
    } else {
        let n = c as u32;
        if n < 32 {
            out.push('\\');
            out.push('u');
            out.push('0');
            out.push('0');
            push_hex_digit(out, n / 16);
            push_hex_digit(out, n % 16);
        } else {
            out.push(c);
        }
    }
    proof {
        assert(out@ =~= old(out)@ + escape_char(c));
    }
}

fn push_escaped(out: &mut Vec<char>, s: &str)
    ensures
        final(out)@ == old(out)@ + escape_string(s@),
{
    let n = s.unicode_len();
    proof {
        assert(out@ =~= old(out)@ + escape_string(s@.take(0)));
    }
    let mut i: usize = 0;
    while i < n
        invariant
            n == s@.len(),
            i <= n,
            out@ == old(out)@ + escape_string(s@.take(i as int)),
        decreases n - i,
    {
        let c = s.get_char(i);
        push_escaped_char(out, c);
        proof {
            assert(s@.take(i + 1 as int).drop_last() =~= s@.take(i as int));
            assert(s@.take(i + 1 as int).last() == c);
            assert(out@ =~= old(out)@ + escape_string(s@.take(i + 1 as int)));
        }
        i += 1;
    }
    proof {
        assert(s@.take(n as int) =~= s@);
    }
}

fn push_json_string(out: &mut Vec<char>, s: &str)
    ensures
        final(out)@ == old(out)@ + json_string(s@),
{
    out.push('"');
    push_escaped(out, s);
    out.push('"');
    proof {
        assert(out@ =~= old(out)@ + json_string(s@));
    }
}

/// Renders the response object for `query` and `data` exactly as
/// `json_response` states it.
pub fn render_response(query: &str, data: &Option<String>) -> (r: String)
    ensures
        r@ == json_response(query@, data.deep_view()),
{
    let mut out: Vec<char> = Vec::new();
    out.push('{');
    out.push('"');
    out.push('q');
    out.push('u');
    out.push('e');
    out.push('r');
    out.push('y');
    out.push('"');
    out.push(':');
    push_json_string(&mut out, query);
    out.push(',');
    out.push('"');
    out.push('d');
    out.push('a');
    out.push('t');
    out.push('a');
    out.push('"');
    out.push(':');
    match data {
        Some(v) => push_json_string(&mut out, v.as_str()),
        None => {
            out.push('n');
            out.push('u');
            out.push('l');
            out.push('l');
        },
    }
    out.push('}');
    proof {
        assert(out@ =~= json_response(query@, data.deep_view()));
    }
    string_from_chars(out)
}

/// A JSON whitespace character.
pub open spec fn is_ws(c: char) -> bool {
    c == ' ' || c == '\t' || c == '\n' || c == '\r'
}

/// The first position at or after `i` that does not hold whitespace.
pub open spec fn skip_ws(s: Seq<char>, i: int) -> int
    decreases s.len() - i,
{
    if 0 <= i < s.len() && is_ws(s[i]) {
        skip_ws(s, i + 1)
    } else {
        i
    }
}

/// The value of a hexadecimal digit character, in either case.
pub open spec fn hex_val(c: char) -> Option<int> {
    if 48 <= c as u32 && c as u32 <= 57 {
        Some(c as u32 - 48)
    } else if 97 <= c as u32 && c as u32 <= 102 {
        Some(c as u32 - 87)
    } else if 65 <= c as u32 && c as u32 <= 70 {
        Some(c as u32 - 55)
    } else {
        None
    }
}

/// The value of the four hexadecimal digits at `i`.
pub open spec fn hex4_at(s: Seq<char>, i: int) -> Option<int> {
    if 0 <= i && i + 4 <= s.len() && hex_val(s[i]) is Some && hex_val(s[i + 1]) is Some && hex_val(
        s[i + 2],
    ) is Some && hex_val(s[i + 3]) is Some {
        Some(
            hex_val(s[i]).unwrap() * 4096 + hex_val(s[i + 1]).unwrap() * 256 + hex_val(
                s[i + 2],
            ).unwrap() * 16 + hex_val(s[i + 3]).unwrap(),
        )
    } else {
        None
    }
}

/// The character a short escape stands for.
pub open spec fn simple_unescape(c: char) -> Option<char> {
    if c == '"' {
        Some('"')
    } else if c == '\\' {
        Some('\\')
    } else if c == '/' {
        Some('/')
    } else if c == 'b' {
        Some('\u{8}')
    } else if c == 'f' {
        Some('\u{c}')
    } else if c == 'n' {
        Some('\n')
    } else if c == 'r' {
        Some('\r')
    } else if c == 't' {
        Some('\t')
    } else {
        None
    }
}

/// The character with scalar value `n`.
pub open spec fn code_char(n: int) -> char {
    (n as u32) as char
}

/// `c` put before the characters of a partial parse.
pub open spec fn prepend(c: char, rest: Option<(Seq<char>, int)>) -> Option<(Seq<char>, int)> {
    match rest {
        Some(p) => Some((seq![c] + p.0, p.1)),
        None => None,
    }
}

/// Parses the inside of a JSON string from `i` up to and including the
/// closing quote; yields the decoded characters and the position after
/// that quote. Accepted are the short escapes, `\uXXXX` — a surrogate only
/// as a full pair — and every unescaped character above the control range.
pub open spec fn parse_string_body(s: Seq<char>, i: int) -> Option<(Seq<char>, int)>
    decreases s.len() - i,
{
    if !(0 <= i < s.len()) {
        None
    } else if s[i] == '"' {
        Some((Seq::empty(), i + 1))
    } else if s[i] == '\\' {
        if i + 1 < s.len() {
            if simple_unescape(s[i + 1]) is Some {
                prepend(simple_unescape(s[i + 1]).unwrap(), parse_string_body(s, i + 2))
            } else if s[i + 1] == 'u' {
                if hex4_at(s, i + 2) is Some {
                    let n: int = hex4_at(s, i + 2).unwrap();
                    if n < 0xD800 || n > 0xDFFF {
                        prepend(code_char(n), parse_string_body(s, i + 6))
                    } else if n <= 0xDBFF && i + 8 <= s.len() && s[i + 6] == '\\' && s[i + 7] == 'u'
                        && hex4_at(s, i + 8) is Some && 0xDC00 <= hex4_at(s, i + 8).unwrap()
                        && hex4_at(s, i + 8).unwrap() <= 0xDFFF {
                        prepend(
                            code_char(
                                0x10000 + (n - 0xD800) * 0x400 + (hex4_at(s, i + 8).unwrap()
                                    - 0xDC00),
                            ),
                            parse_string_body(s, i + 12),
                        )
                    } else {
                        None
                    }
                } else {
                    None
                }
            } else {
                None
            }
        } else {
            None
        }
    } else if (s[i] as u32) < 32 {
        None
    } else {
        prepend(s[i], parse_string_body(s, i + 1))
    }
}

/// Parses a JSON string standing at `i`, opening quote included.
pub open spec fn parse_jstring(s: Seq<char>, i: int) -> Option<(Seq<char>, int)> {
    if 0 <= i < s.len() && s[i] == '"' {
        parse_string_body(s, i + 1)
    } else {
        None
    }
}

/// A decimal digit character.
pub open spec fn is_digit(c: char) -> bool {
    48 <= c as u32 && c as u32 <= 57
}

/// The first position at or after `i` that does not hold a decimal digit.
pub open spec fn digits_end(s: Seq<char>, i: int) -> int
    decreases s.len() - i,
{
    if 0 <= i < s.len() && is_digit(s[i]) {
        digits_end(s, i + 1)
    } else {
        i
    }
}

/// The number that the digits in `[i, j)` denote.
pub open spec fn digits_val(s: Seq<char>, i: int, j: int) -> int
    decreases j - i,
{
    if i < j {
        digits_val(s, i, j - 1) * 10 + (s[j - 1] as u32 - 48)
    } else {
        0
    }
}

/// Parses an unsigned JSON integer at `i`: at least one digit, no
/// superfluous leading zero, and a value that fits in a `u64`.
pub open spec fn parse_number(s: Seq<char>, i: int) -> Option<(u64, int)> {
    let j: int = digits_end(s, i);
    if j == i {
        None
    } else if s[i] == '0' && j > i + 1 {
        None
    } else if digits_val(s, i, j) > u64::MAX {
        None
    } else {
        Some((digits_val(s, i, j) as u64, j))
    }
}

/// Relies on `char::from_u32`: yields the character with scalar value `n`
/// exactly when `n` is a Unicode scalar value, that is, not a surrogate
/// and at most 0x10FFFF.
#[verifier::external_body]
fn char_from_u32(n: u32) -> (r: Option<char>)
    ensures
        r is Some <==> (n < 0xD800 || (0xE000 <= n && n <= 0x10FFFF)),
        r matches Some(c) ==> c as u32 == n,
{
    char::from_u32(n)
}

fn is_ws_char(c: char) -> (r: bool)
    ensures
        r == is_ws(c),
{
    c == ' ' || c == '\t' || c == '\n' || c == '\r'
}

fn ws_from(s: &str, i: usize) -> (r: usize)
    requires
        i <= s@.len(),
    ensures
        r as int == skip_ws(s@, i as int),
        i <= r <= s@.len(),
{
    let n = s.unicode_len();
    let mut j = i;
    while j < n && is_ws_char(s.get_char(j))
        invariant
            i <= j <= n,
            n == s@.len(),
            skip_ws(s@, i as int) == skip_ws(s@, j as int),
        decreases n - j,
    {
        j += 1;
    }
    j
}

fn hex_val_exec(c: char) -> (r: Option<u32>)
    ensures
        r is Some <==> hex_val(c) is Some,
        r matches Some(v) ==> hex_val(c) == Some(v as int) && v < 16,
{
    let n = c as u32;
    if 48 <= n && n <= 57 {
        Some(n - 48)
    } else if 97 <= n && n <= 102 {
        Some(n - 87)
    } else if 65 <= n && n <= 70 {
        Some(n - 55)
    } else {
        None
    }
}

fn hex4_exec(s: &str, i: usize) -> (r: Option<u32>)
    requires
        i <= s@.len(),
    ensures
        r is Some <==> hex4_at(s@, i as int) is Some,
        r matches Some(v) ==> hex4_at(s@, i as int) == Some(v as int) && v < 0x10000,
{
    let n = s.unicode_len();
    if n - i < 4 {
        return None;
    }
    let h0 = hex_val_exec(s.get_char(i));
    let h1 = hex_val_exec(s.get_char(i + 1));
    let h2 = hex_val_exec(s.get_char(i + 2));
    let h3 = hex_val_exec(s.get_char(i + 3));
    match (h0, h1, h2, h3) {
        (Some(a), Some(b), Some(c2), Some(d)) => Some(a * 4096 + b * 256 + c2 * 16 + d),
        _ => None,
    }
}

fn simple_unescape_exec(c: char) -> (r: Option<char>)
    ensures
        r == simple_unescape(c),
{
    if c == '"' {
        Some('"')
    } else if c == '\\' {
        Some('\\')
    } else if c == '/' {
        Some('/')
    } else if c == 'b' {
        Some('\u{8}')
    } else if c == 'f' {
        Some('\u{c}')
    } else if c == 'n' {
        Some('\n')
    } else if c == 'r' {
        Some('\r')
    } else if c == 't' {
        Some('\t')
    } else {
        None
    }
}

fn parse_string_body_exec(s: &str, i: usize) -> (r: Option<(Vec<char>, usize)>)
    requires
        i <= s@.len(),
    ensures
        r is Some <==> parse_string_body(s@, i as int) is Some,
        r matches Some(p) ==> parse_string_body(s@, i as int) == Some((p.0@, p.1 as int)) && p.1
            <= s@.len(),
    decreases s@.len() - i,
{
    let n = s.unicode_len();
    if i >= n {
        return None;
    }
    let c = s.get_char(i);
    if c == '"' {
        let v: Vec<char> = Vec::new();
        proof {
            assert(v@ =~= Seq::<char>::empty());
        }
        return Some((v, i + 1));
    }
    if c == '\\' {
        if i + 1 >= n {
            return None;
        }
        let e = s.get_char(i + 1);
        if let Some(u) = simple_unescape_exec(e) {
            match parse_string_body_exec(s, i + 2) {
                Some((t, j)) => {
                    let mut t = t;
                    let ghost t0 = t@;
                    t.insert(0, u);
                    proof {
                        assert(t@ =~= seq![u] + t0);
                    }
                    return Some((t, j));
                },
                None => {
                    return None;
                },
            }
        }
        if e == 'u' {
            match hex4_exec(s, i + 2) {
                Some(nv) => {
                    if nv < 0xD800 || nv > 0xDFFF {
                        match char_from_u32(nv) {
                            Some(u) => {
                                proof {
                                    vstd::utf8::char_u32_cast(u, nv);
                                }
                                match parse_string_body_exec(s, i + 6) {
                                    Some((t, j)) => {
                                        let mut t = t;
                                        let ghost t0 = t@;
                                        t.insert(0, u);
                                        proof {
                                            assert(t@ =~= seq![u] + t0);
                                        }
                                        Some((t, j))
                                    },
                                    None => None,
                                }
                            },
                            None => {
                                proof {
                                    assert(false);
                                }
                                None
                            },
                        }
                    } else if nv <= 0xDBFF && n - (i + 6) >= 2 {
                        let c6 = s.get_char(i + 6);
                        let c7 = s.get_char(i + 7);
                        if c6 == '\\' && c7 == 'u' {
                            match hex4_exec(s, i + 8) {
                                Some(n2) => {
                                    if 0xDC00 <= n2 && n2 <= 0xDFFF {
                                        let code = 0x10000 + (nv - 0xD800) * 0x400 + (n2 - 0xDC00);
                                        match char_from_u32(code) {
                                            Some(u) => {
                                                proof {
                                                    vstd::utf8::char_u32_cast(u, code);
                                                }
                                                match parse_string_body_exec(s, i + 12) {
                                                    Some((t, j)) => {
                                                        let mut t = t;
                                                        let ghost t0 = t@;
                                                        t.insert(0, u);
                                                        proof {
                                                            assert(t@ =~= seq![u] + t0);
                                                        }
                                                        Some((t, j))
                                                    },
                                                    None => None,
                                                }
                                            },
                                            None => {
                                                proof {
                                                    assert(false);
                                                }
                                                None
                                            },
                                        }
                                    } else {
                                        None
                                    }
                                },
                                None => None,
                            }
                        } else {
                            None
                        }
                    } else {
                        None
                    }
                },
                None => None,
            }
        } else {
            None
        }
    } else {
        let nv = c as u32;
        if nv < 32 {
            return None;
        }
        match parse_string_body_exec(s, i + 1) {
            Some((t, j)) => {
                let mut t = t;
                let ghost t0 = t@;
                t.insert(0, c);
                proof {
                    assert(t@ =~= seq![c] + t0);
                }
                Some((t, j))
            },
            None => None,
        }
    }
}

proof fn lemma_digits_val_nonneg(s: Seq<char>, i: int, j: int)
    requires
        forall|l: int| i <= l < j ==> is_digit(s[l]),
    ensures
        digits_val(s, i, j) >= 0,
    decreases j - i,
{
    if i < j {
        lemma_digits_val_nonneg(s, i, j - 1);
    }
}

proof fn lemma_digits_val_mono(s: Seq<char>, i: int, l: int, j: int)
    requires
        i <= l <= j,
        forall|m: int| i <= m < j ==> is_digit(s[m]),
    ensures
        digits_val(s, i, j) >= digits_val(s, i, l),
    decreases j - l,
{
    if l < j {
        lemma_digits_val_mono(s, i, l, j - 1);
        lemma_digits_val_nonneg(s, i, j - 1);
    }
}

fn is_digit_char(c: char) -> (r: bool)
    ensures
        r == is_digit(c),
{
    let n = c as u32;
    48 <= n && n <= 57
}

fn digits_end_exec(s: &str, i: usize) -> (r: usize)
    requires
        i <= s@.len(),
    ensures
        r as int == digits_end(s@, i as int),
        i <= r <= s@.len(),
        forall|l: int| i <= l < r ==> is_digit(s@[l]),
{
    let n = s.unicode_len();
    let mut j = i;
    while j < n && is_digit_char(s.get_char(j))
        invariant
            i <= j <= n,
            n == s@.len(),
            digits_end(s@, i as int) == digits_end(s@, j as int),
            forall|l: int| i <= l < j ==> is_digit(s@[l]),
        decreases n - j,
    {
        j += 1;
    }
    j
}

fn parse_number_exec(s: &str, i: usize) -> (r: Option<(u64, usize)>)
    requires
        i <= s@.len(),
    ensures
        r is Some <==> parse_number(s@, i as int) is Some,
        r matches Some(p) ==> parse_number(s@, i as int) == Some((p.0, p.1 as int)) && p.1
            <= s@.len(),
{
    let j = digits_end_exec(s, i);
    if j == i {
        return None;
    }
    if s.get_char(i) == '0' && j > i + 1 {
        return None;
    }
    let mut acc: u64 = 0;
    let mut l = i;
    while l < j
        invariant
            i <= l <= j <= s@.len(),
            j as int == digits_end(s@, i as int),
            forall|m: int| i <= m < j ==> is_digit(s@[m]),
            acc as int == digits_val(s@, i as int, l as int),
        decreases j - l,
    {
        let d = (s.get_char(l) as u32 - 48) as u64;
        let threshold = (u64::MAX - d) / 10;
        if acc > threshold {
            proof {
                vstd::arithmetic::div_mod::lemma_fundamental_div_mod(
                    (u64::MAX - d) as int,
                    10,
                );
                assert(acc * 10 >= (threshold + 1) * 10);
                assert(digits_val(s@, i as int, l + 1 as int) > u64::MAX);
                lemma_digits_val_mono(s@, i as int, l + 1 as int, j as int);
            }
            return None;
        }
        proof {
            vstd::arithmetic::div_mod::lemma_fundamental_div_mod((u64::MAX - d) as int, 10);
            assert(acc * 10 <= threshold * 10);
            assert(acc * 10 + d <= u64::MAX);
        }
        acc = acc * 10 + d;
        l += 1;
    }
    Some((acc, j))
}

fn parse_jstring_exec(s: &str, i: usize) -> (r: Option<(Vec<char>, usize)>)
    requires
        i <= s@.len(),
    ensures
        r is Some <==> parse_jstring(s@, i as int) is Some,
        r matches Some(p) ==> parse_jstring(s@, i as int) == Some((p.0@, p.1 as int)) && p.1
            <= s@.len(),
{
    let n = s.unicode_len();
    if i < n && s.get_char(i) == '"' {
        parse_string_body_exec(s, i + 1)
    } else {
        None
    }
}

/// The member name `"value"`.
pub open spec fn value_key() -> Seq<char> {
    seq!['v', 'a', 'l', 'u', 'e']
}

/// The member name `"ttl"`.
pub open spec fn ttl_key() -> Seq<char> {
    seq!['t', 't', 'l']
}

/// The position after `<ws> : <ws>` standing at `i`, if a colon does.
pub open spec fn expect_colon(s: Seq<char>, i: int) -> Option<int> {
    let j: int = skip_ws(s, i);
    if 0 <= j < s.len() && s[j] == ':' {
        Some(skip_ws(s, j + 1))
    } else {
        None
    }
}

/// The position after `<ws> , <ws>` standing at `i`, if a comma does.
pub open spec fn expect_comma(s: Seq<char>, i: int) -> Option<int> {
    let j: int = skip_ws(s, i);
    if 0 <= j < s.len() && s[j] == ',' {
        Some(skip_ws(s, j + 1))
    } else {
        None
    }
}

/// Whether only `<ws> } <ws>` stands between `i` and the end.
pub open spec fn at_object_end(s: Seq<char>, i: int) -> bool {
    let j: int = skip_ws(s, i);
    0 <= j < s.len() && s[j] == '}' && skip_ws(s, j + 1) == s.len()
}

/// What a write-request body must hold: one object with exactly the
/// members `"value"` (a JSON string) and `"ttl"` (an unsigned integer that
/// fits in a `u64`), in either order, and nothing else. Yields the decoded
/// value and the time-to-live in seconds.
pub open spec fn parse_set_request_spec(s: Seq<char>) -> Option<(Seq<char>, u64)> {
    let i0: int = skip_ws(s, 0);
    if 0 <= i0 < s.len() && s[i0] == '{' {
        let i1: int = skip_ws(s, i0 + 1);
        match parse_jstring(s, i1) {
            Some(name) => match expect_colon(s, name.1) {
                Some(j1) => if name.0 == value_key() {
                    match parse_jstring(s, j1) {
                        Some(v) => match expect_comma(s, v.1) {
                            Some(j3) => match parse_jstring(s, j3) {
                                Some(name2) => if name2.0 == ttl_key() {
                                    match expect_colon(s, name2.1) {
                                        Some(j5) => match parse_number(s, j5) {
                                            Some(t) => if at_object_end(s, t.1) {
                                                Some((v.0, t.0))
                                            } else {
                                                None
                                            },
                                            None => None,
                                        },
                                        None => None,
                                    }
                                } else {
                                    None
                                },
                                None => None,
                            },
                            None => None,
                        },
                        None => None,
                    }
                } else if name.0 == ttl_key() {
                    match parse_number(s, j1) {
                        Some(t) => match expect_comma(s, t.1) {
                            Some(j3) => match parse_jstring(s, j3) {
                                Some(name2) => if name2.0 == value_key() {
                                    match expect_colon(s, name2.1) {
                                        Some(j5) => match parse_jstring(s, j5) {
                                            Some(v) => if at_object_end(s, v.1) {
                                                Some((v.0, t.0))
                                            } else {
                                                None
                                            },
                                            None => None,
                                        },
                                        None => None,
                                    }
                                } else {
                                    None
                                },
                                None => None,
                            },
                            None => None,
                        },
                        None => None,
                    }
                } else {
                    None
                },
                None => None,
            },
            None => None,
        }
    } else {
        None
    }
}

fn expect_colon_exec(s: &str, i: usize) -> (r: Option<usize>)
    requires
        i <= s@.len(),
    ensures
        r is Some <==> expect_colon(s@, i as int) is Some,
        r matches Some(j) ==> expect_colon(s@, i as int) == Some(j as int) && j <= s@.len(),
{
    let n = s.unicode_len();
    let j = ws_from(s, i);
    if j < n && s.get_char(j) == ':' {
        Some(ws_from(s, j + 1))
    } else {
        None
    }
}

fn expect_comma_exec(s: &str, i: usize) -> (r: Option<usize>)
    requires
        i <= s@.len(),
    ensures
        r is Some <==> expect_comma(s@, i as int) is Some,
        r matches Some(j) ==> expect_comma(s@, i as int) == Some(j as int) && j <= s@.len(),
{
    let n = s.unicode_len();
    let j = ws_from(s, i);
    if j < n && s.get_char(j) == ',' {
        Some(ws_from(s, j + 1))
    } else {
        None
    }
}

fn at_object_end_exec(s: &str, i: usize) -> (r: bool)
    requires
        i <= s@.len(),
    ensures
        r == at_object_end(s@, i as int),
{
    let n = s.unicode_len();
    let j = ws_from(s, i);
    if j < n && s.get_char(j) == '}' {
        ws_from(s, j + 1) == n
    } else {
        false
    }
}

fn is_value_key(v: &Vec<char>) -> (r: bool)
    ensures
        r == (v@ == value_key()),
{
    if v.len() == 5 {
        let r = v[0] == 'v' && v[1] == 'a' && v[2] == 'l' && v[3] == 'u' && v[4] == 'e';
        proof {
            if r {
                assert(v@ =~= value_key());
            }
        }
        r
    } else {
        false
    }
}

fn is_ttl_key(v: &Vec<char>) -> (r: bool)
    ensures
        r == (v@ == ttl_key()),
{
    if v.len() == 3 {
        let r = v[0] == 't' && v[1] == 't' && v[2] == 'l';
        proof {
            if r {
                assert(v@ =~= ttl_key());
            }
        }
        r
    } else {
        false
    }
}

/// Parses a write-request body. Returns the value to store and the
/// time-to-live in seconds exactly when the body holds what
/// `parse_set_request_spec` describes, and nothing otherwise.
pub fn parse_set_request(s: &str) -> (r: Option<(String, u64)>)
    ensures
        r is Some <==> parse_set_request_spec(s@) is Some,
        r matches Some(p) ==> parse_set_request_spec(s@) == Some((p.0@, p.1)),
{
    let n = s.unicode_len();
    let i0 = ws_from(s, 0);
    if !(i0 < n && s.get_char(i0) == '{') {
        return None;
    }
    let i1 = ws_from(s, i0 + 1);
    let name = match parse_jstring_exec(s, i1) {
        Some(p) => p,
        None => {
            return None;
        },
    };
    let j1 = match expect_colon_exec(s, name.1) {
        Some(j) => j,
        None => {
            return None;
        },
    };
    if is_value_key(&name.0) {
        let v = match parse_jstring_exec(s, j1) {
            Some(p) => p,
            None => {
                return None;
            },
        };
        let j3 = match expect_comma_exec(s, v.1) {
            Some(j) => j,
            None => {
                return None;
            },
        };
        let name2 = match parse_jstring_exec(s, j3) {
            Some(p) => p,
            None => {
                return None;
            },
        };
        if !is_ttl_key(&name2.0) {
            return None;
        }
        let j5 = match expect_colon_exec(s, name2.1) {
            Some(j) => j,
            None => {
                return None;
            },
        };
        let t = match parse_number_exec(s, j5) {
            Some(p) => p,
            None => {
                return None;
            },
        };
        if !at_object_end_exec(s, t.1) {
            return None;
        }
        Some((string_from_chars(v.0), t.0))
    } else if is_ttl_key(&name.0) {
        let t = match parse_number_exec(s, j1) {
            Some(p) => p,
            None => {
                return None;
            },
        };
        let j3 = match expect_comma_exec(s, t.1) {
            Some(j) => j,
            None => {
                return None;
            },
        };
        let name2 = match parse_jstring_exec(s, j3) {
            Some(p) => p,
            None => {
                return None;
            },
        };
        if !is_value_key(&name2.0) {
            return None;
        }
        let j5 = match expect_colon_exec(s, name2.1) {
            Some(j) => j,
            None => {
                return None;
            },
        };
        let v = match parse_jstring_exec(s, j5) {
            Some(p) => p,
            None => {
                return None;
            },
        };
        if !at_object_end_exec(s, v.1) {
            return None;
        }
        Some((string_from_chars(v.0), t.0))
    } else {
        None
    }
}

} // verus!
