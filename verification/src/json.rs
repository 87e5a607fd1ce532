//! A small JSON reader and writer, sufficient for the database config
//! document: object syntax with string keys, booleans, `null`, strings
//! with the common escapes, and a lenient skipper for values under
//! unknown keys.

use vstd::prelude::*;

verus! {

/// The characters of a string, in order.
pub fn chars_of(s: &str) -> (r: Vec<char>)
    ensures
        r@ == s@,
{
    let n = s.unicode_len();
    let mut out: Vec<char> = Vec::new();
    let mut i: usize = 0;
    proof {
        assert(out@ =~= s@.subrange(0, 0));
    }
    while i < n
        invariant
            n == s@.len(),
            i <= n,
            out@ == s@.subrange(0, i as int),
        decreases n - i,
    {
        out.push(s.get_char(i));
        i += 1;
        proof {
            assert(out@ =~= s@.subrange(0, i as int));
        }
    }
    proof {
        assert(s@.subrange(0, n as int) =~= s@);
    }
    out
}

/// Relies on String's FromIterator: collecting characters builds the
/// string of exactly those characters, in order.
#[verifier::external_body]
pub fn string_from(chars: &Vec<char>) -> (r: String)
    ensures
        r@ == chars@,
{
    chars.iter().collect()
}

/// The characters of `prefix` start `s`.
pub open spec fn has_prefix(s: Seq<char>, prefix: Seq<char>) -> bool {
    s.len() >= prefix.len() && s.subrange(0, prefix.len() as int) == prefix
}

/// `str::strip_prefix` by characters: the rest of `s` after `prefix`, or
/// nothing when `s` does not start with it.
pub fn strip_text_prefix(s: &str, prefix: &str) -> (r: Option<String>)
    ensures
        match r {
            Some(rest) => has_prefix(s@, prefix@) && rest@ == s@.subrange(
                prefix@.len() as int,
                s@.len() as int,
            ),
            None => !has_prefix(s@, prefix@),
        },
{
    let n = s.unicode_len();
    let plen = prefix.unicode_len();
    if n < plen {
        return None;
    }
    let mut i: usize = 0;
    while i < plen
        invariant
            n == s@.len(),
            plen == prefix@.len(),
            plen <= n,
            i <= plen,
            forall|j: int| 0 <= j < i ==> s@[j] == prefix@[j],
        decreases plen - i,
    {
        if s.get_char(i) != prefix.get_char(i) {
            proof {
                assert(s@.subrange(0, prefix@.len() as int)[i as int] != prefix@[i as int]);
            }
            return None;
        }
        i += 1;
    }
    proof {
        assert(s@.subrange(0, prefix@.len() as int) =~= prefix@);
    }
    Some(s.substring_char(plen, n).to_owned())
}

/// JSON-relevant whitespace.
pub open spec fn char_is_ws(c: char) -> bool {
    c == ' ' || c == '\t' || c == '\n' || c == '\r'
}

/// The first index at or after `i` that is not whitespace, or the end.
pub open spec fn spec_ws_end(s: Seq<char>, i: int) -> int
    decreases s.len() - i,
{
    if i < 0 || i >= s.len() {
        s.len() as int
    } else if char_is_ws(s[i]) {
        spec_ws_end(s, i + 1)
    } else {
        i
    }
}

/// Advance past whitespace.
pub fn skip_ws(s: &Vec<char>, i: usize) -> (r: usize)
    requires
        i <= s@.len(),
    ensures
        r == spec_ws_end(s@, i as int),
        i <= r <= s@.len(),
        forall|j: int| i <= j < r ==> char_is_ws(#[trigger] s@[j]),
        r < s@.len() ==> !char_is_ws(s@[r as int]),
    decreases s@.len() - i,
{
    if i < s.len() {
        let c = s[i];
        if c == ' ' || c == '\t' || c == '\n' || c == '\r' {
            return skip_ws(s, i + 1);
        }
    }
    i
}

/// The characters of `s` starting at `pos` are exactly `lit`.
pub open spec fn lit_at(s: Seq<char>, pos: int, lit: Seq<char>) -> bool {
    &&& 0 <= pos
    &&& pos + lit.len() <= s.len()
    &&& s.subrange(pos, pos + lit.len()) == lit
}

/// Match a fixed literal at `pos`; on success the position after it.
pub fn expect_lit(s: &Vec<char>, pos: usize, lit: &str) -> (r: Option<usize>)
    requires
        pos <= s@.len(),
    ensures
        match r {
            Some(p) => lit_at(s@, pos as int, lit@) && p == pos + lit@.len(),
            None => !lit_at(s@, pos as int, lit@),
        },
{
    let n = lit.unicode_len();
    let total = s.len();
    if n > total - pos {
        proof {
            assert(!lit_at(s@, pos as int, lit@));
        }
        return None;
    }
    let mut j: usize = 0;
    while j < n
        invariant
            total == s@.len(),
            pos + n <= total,
            n == lit@.len(),
            j <= n,
            forall|k: int| 0 <= k < j ==> s@[pos + k] == lit@[k],
        decreases n - j,
    {
        if s[pos + j] != lit.get_char(j) {
            proof {
                assert(s@.subrange(pos as int, pos + lit@.len())[j as int] != lit@[j as int]);
            }
            return None;
        }
        j += 1;
    }
    proof {
        assert(s@.subrange(pos as int, pos + lit@.len()) =~= lit@);
    }
    Some(pos + n)
}

/// The hex digit (lower case) for a value below 16.
pub open spec fn spec_hex_digit(n: int) -> char {
    if n == 0 {
        '0'
    } else if n == 1 {
        '1'
    } else if n == 2 {
        '2'
    } else if n == 3 {
        '3'
    } else if n == 4 {
        '4'
    } else if n == 5 {
        '5'
    } else if n == 6 {
        '6'
    } else if n == 7 {
        '7'
    } else if n == 8 {
        '8'
    } else if n == 9 {
        '9'
    } else if n == 10 {
        'a'
    } else if n == 11 {
        'b'
    } else if n == 12 {
        'c'
    } else if n == 13 {
        'd'
    } else if n == 14 {
        'e'
    } else {
        'f'
    }
}

/// The value of a hex digit, or -1.
pub open spec fn spec_hex_val(c: char) -> int {
    if c == '0' {
        0
    } else if c == '1' {
        1
    } else if c == '2' {
        2
    } else if c == '3' {
        3
    } else if c == '4' {
        4
    } else if c == '5' {
        5
    } else if c == '6' {
        6
    } else if c == '7' {
        7
    } else if c == '8' {
        8
    } else if c == '9' {
        9
    } else if c == 'a' || c == 'A' {
        10
    } else if c == 'b' || c == 'B' {
        11
    } else if c == 'c' || c == 'C' {
        12
    } else if c == 'd' || c == 'D' {
        13
    } else if c == 'e' || c == 'E' {
        14
    } else if c == 'f' || c == 'F' {
        15
    } else {
        -1
    }
}

/// What a short escape decodes to.
pub open spec fn spec_escape_short(e: char) -> Option<char> {
    if e == '"' {
        Some('"')
    } else if e == '\\' {
        Some('\\')
    } else if e == '/' {
        Some('/')
    } else if e == 'n' {
        Some('\n')
    } else if e == 't' {
        Some('\t')
    } else if e == 'r' {
        Some('\r')
    } else if e == 'b' {
        Some('\u{8}')
    } else if e == 'f' {
        Some('\u{c}')
    } else {
        None
    }
}

/// How the writer escapes one character: quote and backslash get a short
/// escape, control characters a `\u00XX` escape, everything else is
/// written as itself.
pub open spec fn spec_escape_char(c: char) -> Seq<char> {
    if c == '"' {
        seq!['\\', '"']
    } else if c == '\\' {
        seq!['\\', '\\']
    } else if (c as u32) < 0x20 {
        seq!['\\', 'u', '0', '0', spec_hex_digit((c as u32) as int / 16), spec_hex_digit(
            (c as u32) as int % 16,
        )]
    } else {
        seq![c]
    }
}

/// The writer's escaping of a whole string.
pub open spec fn spec_escape_string(t: Seq<char>) -> Seq<char>
    decreases t.len(),
{
    if t.len() == 0 {
        Seq::empty()
    } else {
        spec_escape_char(t[0]) + spec_escape_string(t.drop_first())
    }
}

/// Escaping distributes over concatenation.
pub proof fn lemma_escape_concat(a: Seq<char>, b: Seq<char>)
    ensures
        spec_escape_string(a + b) == spec_escape_string(a) + spec_escape_string(b),
    decreases a.len(),
{
    if a.len() == 0 {
        assert(a + b =~= b);
        assert(spec_escape_string(a) + spec_escape_string(b) =~= spec_escape_string(b));
    } else {
        assert((a + b).drop_first() =~= a.drop_first() + b);
        lemma_escape_concat(a.drop_first(), b);
        assert(spec_escape_string(a + b) =~= spec_escape_string(a) + spec_escape_string(b));
    }
}

/// A string without quotes, backslashes or control characters is written
/// as itself.
pub proof fn lemma_escape_plain(t: Seq<char>)
    requires
        forall|j: int| 0 <= j < t.len() ==> #[trigger] t[j] != '"' && t[j] != '\\' && (t[j] as u32)
            >= 0x20,
    ensures
        spec_escape_string(t) == t,
    decreases t.len(),
{
    if t.len() == 0 {
        assert(spec_escape_string(t) =~= t);
    } else {
        assert(forall|j: int|
            0 <= j < t.drop_first().len() ==> #[trigger] t.drop_first()[j] == t[j + 1]);
        lemma_escape_plain(t.drop_first());
        assert(spec_escape_char(t[0]) == seq![t[0]]);
        assert(spec_escape_string(t) =~= t);
    }
}

/// A literal match of a concatenation splits into matches of its parts.
pub proof fn lemma_lit_at_split(s: Seq<char>, pos: int, a: Seq<char>, b: Seq<char>)
    requires
        lit_at(s, pos, a + b),
    ensures
        lit_at(s, pos, a),
        lit_at(s, pos + a.len(), b),
{
    assert(s.subrange(pos, pos + a.len()) =~= a) by {
        assert forall|j: int| 0 <= j < a.len() implies s.subrange(pos, pos + a.len())[j] == a[j] by {
            assert(s.subrange(pos, pos + (a + b).len() as int)[j] == (a + b)[j]);
        }
    }
    assert(s.subrange(pos + a.len(), pos + a.len() + b.len()) =~= b) by {
        assert forall|j: int|
            0 <= j < b.len() implies s.subrange(pos + a.len(), pos + a.len() + b.len())[j]
            == b[j] by {
            assert(s.subrange(pos, pos + (a + b).len() as int)[a.len() + j] == (a + b)[a.len()
                + j]);
        }
    }
}

/// How one character of the writer's output begins, by the kind of the
/// character.
pub proof fn lemma_escape_char_shape(c: char)
    ensures
        spec_escape_char(c).len() >= 1,
        spec_escape_char(c)[0] != '"',
        (c == '"' || c == '\\' || (c as u32) < 0x20) ==> spec_escape_char(c)[0] == '\\',
        !(c == '"' || c == '\\' || (c as u32) < 0x20) ==> spec_escape_char(c) == seq![c],
{
}

/// Unfolding an encoded string match by its first character.
pub proof fn lemma_encodes_unfold(s: Seq<char>, i: int, t: Seq<char>)
    requires
        str_encodes_at(s, i, t),
        t.len() > 0,
    ensures
        lit_at(s, i, spec_escape_char(t[0])),
        str_encodes_at(s, i + spec_escape_char(t[0]).len(), t.drop_first()),
        spec_escape_string(t).len() == spec_escape_char(t[0]).len() + spec_escape_string(
            t.drop_first(),
        ).len(),
{
    assert(spec_escape_string(t) + seq!['"'] =~= spec_escape_char(t[0]) + (spec_escape_string(
        t.drop_first(),
    ) + seq!['"']));
    lemma_lit_at_split(
        s,
        i,
        spec_escape_char(t[0]),
        spec_escape_string(t.drop_first()) + seq!['"'],
    );
}

/// The characters of `s` starting at `pos` are exactly the writer's
/// escaping of `t` followed by the closing quote.
pub open spec fn str_encodes_at(s: Seq<char>, pos: int, t: Seq<char>) -> bool {
    lit_at(s, pos, spec_escape_string(t) + seq!['"'])
}

/// Decode a JSON string body (the part after the opening quote) up to its
/// closing quote. Accepts the short escapes and `\u00XX` for values up to
/// 0x7f; rejects raw control characters, lone backslashes and other
/// `\u` forms. Whatever the writer produced decodes back to the original
/// string, which is what the second ensures clause states.
#[verifier::rlimit(100)]
pub fn parse_str_body(s: &Vec<char>, i: usize) -> (r: Option<(Vec<char>, usize)>)
    requires
        i <= s@.len(),
    ensures
        (r matches Some(p) ==> i < p.1 <= s@.len()),
        forall|t: Seq<char>|
            str_encodes_at(s@, i as int, t) ==> (r matches Some(p) && p.0@ == t && p.1 == i
                + spec_escape_string(t).len() + 1),
    decreases s@.len() - i,
{
    if i >= s.len() {
        proof {
            assert forall|t: Seq<char>| !str_encodes_at(s@, i as int, t) by {
                if str_encodes_at(s@, i as int, t) {
                    assert((spec_escape_string(t) + seq!['"']).len() >= 1);
                }
            }
        }
        return None;
    }
    let c = s[i];
    proof {
        assert forall|t: Seq<char>| str_encodes_at(s@, i as int, t) && t.len() > 0 implies {
            &&& lit_at(s@, i as int, spec_escape_char(t[0]))
            &&& s@[i as int] == spec_escape_char(t[0])[0]
            &&& spec_escape_char(t[0])[0] != '"'
            &&& str_encodes_at(s@, i + spec_escape_char(t[0]).len(), t.drop_first())
            &&& spec_escape_string(t).len() == spec_escape_char(t[0]).len() + spec_escape_string(
                t.drop_first(),
            ).len()
        } by {
            lemma_encodes_unfold(s@, i as int, t);
            lemma_escape_char_shape(t[0]);
        }
        assert forall|t: Seq<char>| str_encodes_at(s@, i as int, t) && t.len() == 0 implies s@[i as int]
            == '"' by {
            assert(spec_escape_string(t) =~= Seq::<char>::empty());
            assert(spec_escape_string(t) + seq!['"'] =~= seq!['"']);
            assert(s@.subrange(i as int, i + 1) == seq!['"']);
            assert(s@[i as int] == s@.subrange(i as int, i + 1)[0]);
        }
    }
    if c == '"' {
        let out: Vec<char> = Vec::new();
        proof {
            assert forall|t: Seq<char>| str_encodes_at(s@, i as int, t) implies t.len() == 0 by {
                lemma_escape_char_shape(t[0]);
            }
            assert forall|t: Seq<char>| str_encodes_at(s@, i as int, t) implies out@ == t && i + 1 == i
                + spec_escape_string(t).len() + 1 by {
                assert(out@ =~= t);
            }
        }
        return Some((out, i + 1));
    }
    if c == '\\' {
        proof {
            // under any encoding, the escaped character class is pinned down
            assert forall|t: Seq<char>| str_encodes_at(s@, i as int, t) implies t.len() > 0 && (t[0]
                == '"' || t[0] == '\\' || (t[0] as u32) < 0x20) by {
                lemma_escape_char_shape(t[0]);
            }
        }
        if i + 1 >= s.len() {
            proof {
                assert forall|t: Seq<char>| !str_encodes_at(s@, i as int, t) by {
                    if str_encodes_at(s@, i as int, t) {
                        lemma_encodes_unfold(s@, i as int, t);
                        lemma_escape_char_shape(t[0]);
                        assert(spec_escape_char(t[0]).len() >= 2);
                    }
                }
            }
            return None;
        }
        let e = s[i + 1];
        if e == 'u' {
            proof {
                assert forall|t: Seq<char>| str_encodes_at(s@, i as int, t) implies (t[0] as u32)
                    < 0x20 && s@[i + 2] == '0' && s@[i + 3] == '0' && i + 6 <= s@.len() && spec_hex_val(
                    s@[i + 4],
                ) == (t[0] as u32) / 16 && spec_hex_val(s@[i + 5]) == (t[0] as u32) % 16
                    && str_encodes_at(s@, i + 6, t.drop_first()) by {
                    lemma_encodes_unfold(s@, i as int, t);
                    lemma_escape_char_shape(t[0]);
                    if t[0] == '"' || t[0] == '\\' {
                        assert(s@[i + 1] != 'u');
                    }
                }
            }
            if s.len() - i >= 6 && s[i + 2] == '0' && s[i + 3] == '0' {
                let hi = hex_val(s[i + 4]);
                let lo = hex_val(s[i + 5]);
                if hi >= 0 && lo >= 0 && hi * 16 + lo < 0x80 {
                    let decoded = ((hi * 16 + lo) as u8) as char;
                    match parse_str_body(s, i + 6) {
                        Some((rest, j)) => {
                            let mut out = rest;
                            out.insert(0, decoded);
                            proof {
                                assert forall|t: Seq<char>|
                                    str_encodes_at(s@, i as int, t) implies out@ == t && j == i
                                    + spec_escape_string(t).len() + 1 by {
                                    lemma_encodes_unfold(s@, i as int, t);
                                    vstd::arithmetic::div_mod::lemma_fundamental_div_mod(
                                        (t[0] as u32) as int,
                                        16,
                                    );
                                    assert(hi * 16 + lo == (t[0] as u32) as int);
                                    assert(0 <= hi * 16 + lo < 0x80);
                                    assert(((hi * 16 + lo) as u8) as int == (t[0] as u32) as int);
                                    vstd::utf8::char_u32_cast(t[0], t[0] as u32);
                                    assert(decoded == (t[0] as u32) as char);
                                    assert(decoded == t[0]);
                                    assert(out@ =~= t);
                                }
                            }
                            return Some((out, j));
                        },
                        None => {
                            proof {
                                assert forall|t: Seq<char>| !str_encodes_at(s@, i as int, t) by {
                                    if str_encodes_at(s@, i as int, t) {
                                        lemma_encodes_unfold(s@, i as int, t);
                                    }
                                }
                            }
                            return None;
                        },
                    }
                } else {
                    proof {
                        assert forall|t: Seq<char>| !str_encodes_at(s@, i as int, t) by {
                            if str_encodes_at(s@, i as int, t) {
                                vstd::arithmetic::div_mod::lemma_fundamental_div_mod(
                                    (t[0] as u32) as int,
                                    16,
                                );
                            }
                        }
                    }
                    return None;
                }
            } else {
                proof {
                    assert forall|t: Seq<char>| !str_encodes_at(s@, i as int, t) by {}
                }
                return None;
            }
        }
        let decoded = if e == '"' {
            '"'
        } else if e == '\\' {
            '\\'
        } else if e == '/' {
            '/'
        } else if e == 'n' {
            '\n'
        } else if e == 't' {
            '\t'
        } else if e == 'r' {
            '\r'
        } else if e == 'b' {
            '\u{8}'
        } else if e == 'f' {
            '\u{c}'
        } else {
            proof {
                assert forall|t: Seq<char>| !str_encodes_at(s@, i as int, t) by {
                    if str_encodes_at(s@, i as int, t) {
                        lemma_encodes_unfold(s@, i as int, t);
                        lemma_escape_char_shape(t[0]);
                    }
                }
            }
            return None;
        };
        proof {
            assert forall|t: Seq<char>| str_encodes_at(s@, i as int, t) implies (t[0] == '"' || t[0]
                == '\\') && decoded == t[0] && str_encodes_at(s@, i + 2, t.drop_first()) by {
                lemma_encodes_unfold(s@, i as int, t);
                lemma_escape_char_shape(t[0]);
                if (t[0] as u32) < 0x20 {
                    assert(s@[i + 1] == 'u');
                    assert(false);
                }
            }
        }
        match parse_str_body(s, i + 2) {
            Some((rest, j)) => {
                let mut out = rest;
                out.insert(0, decoded);
                proof {
                    assert forall|t: Seq<char>| str_encodes_at(s@, i as int, t) implies out@ == t && j
                        == i + spec_escape_string(t).len() + 1 by {
                        lemma_encodes_unfold(s@, i as int, t);
                        assert(out@ =~= t);
                    }
                }
                return Some((out, j));
            },
            None => {
                proof {
                    assert forall|t: Seq<char>| !str_encodes_at(s@, i as int, t) by {}
                }
                return None;
            },
        }
    }
    if (c as u32) < 0x20 {
        proof {
            assert forall|t: Seq<char>| !str_encodes_at(s@, i as int, t) by {
                if str_encodes_at(s@, i as int, t) {
                    lemma_escape_char_shape(t[0]);
                }
            }
        }
        return None;
    }
    proof {
        assert forall|t: Seq<char>| str_encodes_at(s@, i as int, t) implies t.len() > 0 && t[0] == c
            && str_encodes_at(s@, i + 1, t.drop_first()) by {
            lemma_encodes_unfold(s@, i as int, t);
            lemma_escape_char_shape(t[0]);
        }
    }
    match parse_str_body(s, i + 1) {
        Some((rest, j)) => {
            let mut out = rest;
            out.insert(0, c);
            proof {
                assert forall|t: Seq<char>| str_encodes_at(s@, i as int, t) implies out@ == t && j == i
                    + spec_escape_string(t).len() + 1 by {
                    lemma_encodes_unfold(s@, i as int, t);
                    assert(out@ =~= t);
                }
            }
            Some((out, j))
        },
        None => {
            proof {
                assert forall|t: Seq<char>| !str_encodes_at(s@, i as int, t) by {}
            }
            None
        },
    }
}

/// Whether a character ends a bare token (a number or literal).
fn is_delim(c: char) -> (r: bool)
    ensures
        r == (c == ',' || c == '}' || c == ']' || c == ':' || char_is_ws(c)),
{
    c == ',' || c == '}' || c == ']' || c == ':' || c == ' ' || c == '\t' || c == '\n' || c == '\r'
}

/// The end of a bare token starting at `i`.
fn skip_token(s: &Vec<char>, i: usize) -> (r: usize)
    requires
        i <= s@.len(),
    ensures
        i <= r <= s@.len(),
    decreases s@.len() - i,
{
    if i < s.len() {
        if !is_delim(s[i]) {
            return skip_token(s, i + 1);
        }
    }
    i
}

/// Scan to the end of a bracketed composite, tracking nesting depth and
/// strings but not bracket kinds; `i` is just past the opening bracket.
fn scan_composite(s: &Vec<char>, i: usize, depth: usize) -> (r: Option<usize>)
    requires
        i <= s@.len(),
        depth >= 1,
    ensures
        r matches Some(j) ==> i < j <= s@.len(),
    decreases s@.len() - i,
{
    if i >= s.len() {
        return None;
    }
    let c = s[i];
    if c == '"' {
        match parse_str_body(s, i + 1) {
            Some((_content, j)) => scan_composite(s, j, depth),
            None => None,
        }
    } else if c == '{' || c == '[' {
        if depth == usize::MAX {
            None
        } else {
            scan_composite(s, i + 1, depth + 1)
        }
    } else if c == '}' || c == ']' {
        if depth == 1 {
            Some(i + 1)
        } else {
            scan_composite(s, i + 1, depth - 1)
        }
    } else {
        scan_composite(s, i + 1, depth)
    }
}

/// Skip one JSON value leniently: a string, a bracketed composite or a
/// bare token. Used for the values of unknown keys, which the reader
/// accepts and ignores. On a string value in the writer's escaping, the
/// skip ends exactly at its closing quote.
pub fn skip_value(s: &Vec<char>, i: usize) -> (r: Option<usize>)
    requires
        i <= s@.len(),
    ensures
        r matches Some(j) ==> i < j <= s@.len(),
        forall|t: Seq<char>|
            (i < s@.len() && s@[i as int] == '"' && #[trigger] str_encodes_at(s@, i + 1, t)) ==> (r
                matches Some(j) && j == i + 1 + spec_escape_string(t).len() + 1),
{
    if i >= s.len() {
        return None;
    }
    let c = s[i];
    if c == '"' {
        match parse_str_body(s, i + 1) {
            Some((_content, j)) => Some(j),
            None => None,
        }
    } else if c == '{' || c == '[' {
        scan_composite(s, i + 1, 1)
    } else if is_delim(c) {
        None
    } else {
        Some(skip_token(s, i + 1))
    }
}

/// The lower-case hex digit for a value below 16.
pub fn hex_digit(n: u8) -> (r: char)
    requires
        n < 16,
    ensures
        r == spec_hex_digit(n as int),
{
    if n == 0 {
        '0'
    } else if n == 1 {
        '1'
    } else if n == 2 {
        '2'
    } else if n == 3 {
        '3'
    } else if n == 4 {
        '4'
    } else if n == 5 {
        '5'
    } else if n == 6 {
        '6'
    } else if n == 7 {
        '7'
    } else if n == 8 {
        '8'
    } else if n == 9 {
        '9'
    } else if n == 10 {
        'a'
    } else if n == 11 {
        'b'
    } else if n == 12 {
        'c'
    } else if n == 13 {
        'd'
    } else if n == 14 {
        'e'
    } else {
        'f'
    }
}

/// Append the characters of a literal to the output.
pub fn push_chars(out: &mut Vec<char>, lit: &str)
    ensures
        final(out)@ == old(out)@ + lit@,
{
    let ghost orig = out@;
    let n = lit.unicode_len();
    let mut j: usize = 0;
    proof {
        assert(orig + lit@.subrange(0, 0) =~= orig);
    }
    while j < n
        invariant
            orig == old(out)@,
            n == lit@.len(),
            j <= n,
            out@ == orig + lit@.subrange(0, j as int),
        decreases n - j,
    {
        out.push(lit.get_char(j));
        j += 1;
        proof {
            assert(out@ =~= orig + lit@.subrange(0, j as int));
        }
    }
    proof {
        assert(lit@.subrange(0, n as int) =~= lit@);
    }
}

/// Append the writer's escaping of a string to the output.
pub fn escape_into(out: &mut Vec<char>, t: &str)
    ensures
        final(out)@ == old(out)@ + spec_escape_string(t@),
{
    let ghost orig = out@;
    let n = t.unicode_len();
    let mut j: usize = 0;
    proof {
        assert(orig + spec_escape_string(t@.subrange(0, 0)) =~= orig);
    }
    while j < n
        invariant
            orig == old(out)@,
            n == t@.len(),
            j <= n,
            out@ == orig + spec_escape_string(t@.subrange(0, j as int)),
        decreases n - j,
    {
        let c = t.get_char(j);
        if c == '"' {
            out.push('\\');
            out.push('"');
        } else if c == '\\' {
            out.push('\\');
            out.push('\\');
        } else if (c as u32) < 0x20 {
            out.push('\\');
            out.push('u');
            out.push('0');
            out.push('0');
            let v = c as u32;
            out.push(hex_digit((v / 16) as u8));
            out.push(hex_digit((v % 16) as u8));
        } else {
            out.push(c);
        }
        j += 1;
        proof {
            assert(t@.subrange(0, j as int) =~= t@.subrange(0, j - 1) + seq![t@[j - 1]]);
            lemma_escape_concat(t@.subrange(0, j - 1), seq![t@[j - 1]]);
            assert(seq![t@[j - 1]].drop_first() =~= Seq::<char>::empty());
            assert(spec_escape_string(Seq::<char>::empty()) =~= Seq::<char>::empty());
            assert(spec_escape_string(seq![t@[j - 1]]) =~= spec_escape_char(t@[j - 1]));
            assert(out@ =~= orig + spec_escape_string(t@.subrange(0, j as int)));
        }
    }
    proof {
        assert(t@.subrange(0, n as int) =~= t@);
    }
}

/// The value of a hex digit character, or -1.
pub fn hex_val(c: char) -> (r: i32)
    ensures
        r == spec_hex_val(c),
{
    if c == '0' {
        0
    } else if c == '1' {
        1
    } else if c == '2' {
        2
    } else if c == '3' {
        3
    } else if c == '4' {
        4
    } else if c == '5' {
        5
    } else if c == '6' {
        6
    } else if c == '7' {
        7
    } else if c == '8' {
        8
    } else if c == '9' {
        9
    } else if c == 'a' || c == 'A' {
        10
    } else if c == 'b' || c == 'B' {
        11
    } else if c == 'c' || c == 'C' {
        12
    } else if c == 'd' || c == 'D' {
        13
    } else if c == 'e' || c == 'E' {
        14
    } else if c == 'f' || c == 'F' {
        15
    } else {
        -1
    }
}

} // verus!
