//! The JSON shapes this application reads and writes: the configuration
//! file, the history file, and the corrector's reply object.
//!
//! The writer produces one canonical layout; the reader accepts that
//! layout back, and a reader that fails hands the caller the default
//! value, as loading has always done. The round-trip laws at the bottom
//! state that reading back what was written yields the original value,
//! for every value. Strings are escaped with the two-character JSON
//! escapes (`\"`, `\\`, `\n`, `\t`, `\r`, `\b`, `\f`); other characters
//! are written as themselves.

use vstd::prelude::*;

verus! {

/// The escape code for a character that needs one, if it does.
pub open spec fn escape_code(c: char) -> Option<char> {
    if c == '"' {
        Some('"')
    } else if c == '\\' {
        Some('\\')
    } else if c == '\n' {
        Some('n')
    } else if c == '\t' {
        Some('t')
    } else if c == '\r' {
        Some('r')
    } else if c == '\u{8}' {
        Some('b')
    } else if c == '\u{c}' {
        Some('f')
    } else {
        None
    }
}

/// The character an escape code stands for, if it is one we accept.
pub open spec fn unescape_code(e: char) -> Option<char> {
    if e == '"' {
        Some('"')
    } else if e == '\\' {
        Some('\\')
    } else if e == 'n' {
        Some('\n')
    } else if e == 't' {
        Some('\t')
    } else if e == 'r' {
        Some('\r')
    } else if e == 'b' {
        Some('\u{8}')
    } else if e == 'f' {
        Some('\u{c}')
    } else if e == '/' {
        Some('/')
    } else {
        None
    }
}

/// A hexadecimal digit, either case.
pub open spec fn is_hex_digit_char(c: char) -> bool {
    (48 <= c as u32 <= 57) || (97 <= c as u32 <= 102) || (65 <= c as u32 <= 70)
}

/// The value of a hexadecimal digit.
pub open spec fn hex_val(c: char) -> int {
    if 48 <= c as u32 <= 57 {
        c as u32 - 48
    } else if 97 <= c as u32 <= 102 {
        c as u32 - 87
    } else {
        c as u32 - 55
    }
}

/// The lower-case digit for a value below sixteen.
pub open spec fn hex_digit_char(d: int) -> char
    recommends
        0 <= d < 16,
{
    if d < 10 {
        digit_char(d)
    } else if d == 10 {
        'a'
    } else if d == 11 {
        'b'
    } else if d == 12 {
        'c'
    } else if d == 13 {
        'd'
    } else if d == 14 {
        'e'
    } else {
        'f'
    }
}

/// One character, escaped for a JSON string: the named escapes where one
/// exists, `\u00XX` for the other control characters, the character
/// itself otherwise.
pub open spec fn escape1(c: char) -> Seq<char> {
    match escape_code(c) {
        Some(e) => seq!['\\', e],
        None => if (c as u32) < 0x20 {
            seq![
                '\\',
                'u',
                '0',
                '0',
                hex_digit_char((c as u32 / 16) as int),
                hex_digit_char((c as u32 % 16) as int),
            ]
        } else {
            seq![c]
        },
    }
}

/// A whole string's characters, escaped for a JSON string body.
pub open spec fn escape(s: Seq<char>) -> Seq<char>
    decreases s.len(),
{
    if s.len() == 0 {
        Seq::empty()
    } else {
        escape1(s[0]) + escape(s.drop_first())
    }
}

/// A string as JSON writes it: quoted and escaped.
pub open spec fn quoted(s: Seq<char>) -> Seq<char> {
    seq!['"'] + escape(s) + seq!['"']
}

proof fn lemma_escape_snoc(s: Seq<char>, c: char)
    ensures
        escape(s.push(c)) == escape(s) + escape1(c),
    decreases s.len(),
{
    if s.len() == 0 {
        assert(s.push(c)[0] == c);
        assert(s.push(c).drop_first() =~= Seq::<char>::empty());
        assert(escape(s.push(c).drop_first()) =~= Seq::<char>::empty());
        assert(escape(s.push(c)) =~= escape1(c));
        assert(escape(s) + escape1(c) =~= escape1(c));
    } else {
        assert(s.push(c)[0] == s[0]);
        assert(s.push(c).drop_first() =~= s.drop_first().push(c));
        lemma_escape_snoc(s.drop_first(), c);
        assert(escape(s.push(c)) =~= escape(s) + escape1(c));
    }
}

/// The scalar value four hexadecimal digits denote.
pub open spec fn hex4_val(c: Seq<char>, i: int) -> int
    recommends
        0 <= i,
        i + 4 <= c.len(),
{
    hex_val(c[i]) * 4096 + hex_val(c[i + 1]) * 256 + hex_val(c[i + 2]) * 16 + hex_val(c[i + 3])
}

/// Are the four characters from `i` hexadecimal digits?
pub open spec fn hex4_ok(c: Seq<char>, i: int) -> bool
    recommends
        0 <= i,
        i + 4 <= c.len(),
{
    is_hex_digit_char(c[i]) && is_hex_digit_char(c[i + 1]) && is_hex_digit_char(c[i + 2])
        && is_hex_digit_char(c[i + 3])
}

/// Reading a JSON string body: everything up to the closing quote,
/// escapes decoded (the named ones, and `\uXXXX` for any Unicode scalar
/// value); what follows the closing quote is handed back.
pub open spec fn take_string_body(c: Seq<char>) -> Option<(Seq<char>, Seq<char>)>
    decreases c.len(),
{
    if c.len() == 0 {
        None
    } else if c[0] == '"' {
        Some((Seq::empty(), c.skip(1)))
    } else if c[0] == '\\' {
        if c.len() < 2 {
            None
        } else if c[1] == 'u' {
            if c.len() < 6 || !hex4_ok(c, 2) || !vstd::utf8::is_scalar(hex4_val(c, 2) as u32) {
                None
            } else {
                match take_string_body(c.skip(6)) {
                    None => None,
                    Some((s, rest)) => Some((seq![(hex4_val(c, 2) as u32) as char] + s, rest)),
                }
            }
        } else {
            match unescape_code(c[1]) {
                None => None,
                Some(ch) => match take_string_body(c.skip(2)) {
                    None => None,
                    Some((s, rest)) => Some((seq![ch] + s, rest)),
                },
            }
        }
    } else {
        match take_string_body(c.skip(1)) {
            None => None,
            Some((s, rest)) => Some((seq![c[0]] + s, rest)),
        }
    }
}

proof fn lemma_unescape_escape(c: char)
    requires
        escape_code(c) is Some,
    ensures
        unescape_code(escape_code(c)->0) == Some(c),
        escape_code(c)->0 != 'u',
{
}

proof fn lemma_hex_digit_char_val(d: int)
    requires
        0 <= d < 16,
    ensures
        is_hex_digit_char(hex_digit_char(d)),
        hex_val(hex_digit_char(d)) == d,
{
    if d < 10 {
        lemma_digit_char_val(d);
    } else {
        assert('a' as u32 == 97);
        assert('b' as u32 == 98);
        assert('c' as u32 == 99);
        assert('d' as u32 == 100);
        assert('e' as u32 == 101);
        assert('f' as u32 == 102);
    }
}

/// Reading back an escaped string body finds exactly the original string
/// and stops at its closing quote.
proof fn lemma_take_escaped(s: Seq<char>, rest: Seq<char>)
    ensures
        take_string_body(escape(s) + seq!['"'] + rest) == Some((s, rest)),
    decreases s.len(),
{
    let c = escape(s) + seq!['"'] + rest;
    if s.len() == 0 {
        assert(c =~= seq!['"'] + rest);
        assert(c[0] == '"');
        assert(c.skip(1) =~= rest);
    } else {
        let tail = s.drop_first();
        lemma_take_escaped(tail, rest);
        let ct = escape(tail) + seq!['"'] + rest;
        match escape_code(s[0]) {
            Some(e) => {
                assert(escape1(s[0]) =~= seq!['\\', e]);
                assert(escape(s) =~= seq!['\\', e] + escape(tail));
                assert(c[0] == '\\');
                assert(c[1] == e);
                assert(c.len() >= 2);
                lemma_unescape_escape(s[0]);
                assert(c.skip(2) =~= ct);
                assert(seq![s[0]] + tail =~= s);
            },
            None => {
                let u = s[0] as u32;
                if u < 0x20 {
                    let h1 = hex_digit_char((u / 16) as int);
                    let h0 = hex_digit_char((u % 16) as int);
                    assert(escape1(s[0]) =~= seq!['\\', 'u', '0', '0', h1, h0]);
                    assert(escape(s) =~= seq!['\\', 'u', '0', '0', h1, h0] + escape(tail));
                    assert(c[0] == '\\');
                    assert(c[1] == 'u');
                    assert(c.len() >= 6);
                    assert(c[2] == '0' && c[3] == '0' && c[4] == h1 && c[5] == h0);
                    assert('0' as u32 == 48);
                    assert(is_hex_digit_char('0') && hex_val('0') == 0);
                    lemma_hex_digit_char_val((u / 16) as int);
                    lemma_hex_digit_char_val((u % 16) as int);
                    assert(hex4_ok(c, 2));
                    vstd::arithmetic::div_mod::lemma_fundamental_div_mod(u as int, 16);
                    assert(hex4_val(c, 2) == u);
                    assert(vstd::utf8::is_scalar(u));
                    vstd::utf8::char_u32_cast(s[0], u);
                    assert((hex4_val(c, 2) as u32) as char == s[0]);
                    assert(c.skip(6) =~= ct);
                    assert(seq![s[0]] + tail =~= s);
                } else {
                    assert(escape1(s[0]) =~= seq![s[0]]);
                    assert(escape(s) =~= seq![s[0]] + escape(tail));
                    assert(c[0] == s[0]);
                    assert(c[0] != '"' && c[0] != '\\');
                    assert(c.skip(1) =~= ct);
                    assert(seq![s[0]] + tail =~= s);
                }
            },
        }
    }
}

/// Whatever a string-body read leaves behind is a suffix of the input.
proof fn lemma_take_string_body_suffix(c: Seq<char>)
    requires
        take_string_body(c) is Some,
    ensures
        exists|k: int|
            0 <= k <= c.len() && (take_string_body(c)->0).1 =~= #[trigger] c.skip(k),
    decreases c.len(),
{
    if c[0] == '"' {
        assert((take_string_body(c)->0).1 =~= c.skip(1));
    } else if c[0] == '\\' && c[1] == 'u' {
        lemma_take_string_body_suffix(c.skip(6));
        let k0 = choose|k: int|
            0 <= k <= c.skip(6).len() && (take_string_body(c.skip(6))->0).1 =~= #[trigger] c.skip(
                6,
            ).skip(k);
        assert(c.skip(6).skip(k0) =~= c.skip(6 + k0));
        assert((take_string_body(c)->0).1 =~= c.skip(6 + k0));
    } else if c[0] == '\\' {
        lemma_take_string_body_suffix(c.skip(2));
        let k0 = choose|k: int|
            0 <= k <= c.skip(2).len() && (take_string_body(c.skip(2))->0).1 =~= #[trigger] c.skip(
                2,
            ).skip(k);
        assert(c.skip(2).skip(k0) =~= c.skip(2 + k0));
        assert((take_string_body(c)->0).1 =~= c.skip(2 + k0));
    } else {
        lemma_take_string_body_suffix(c.skip(1));
        let k0 = choose|k: int|
            0 <= k <= c.skip(1).len() && (take_string_body(c.skip(1))->0).1 =~= #[trigger] c.skip(
                1,
            ).skip(k);
        assert(c.skip(1).skip(k0) =~= c.skip(1 + k0));
        assert((take_string_body(c)->0).1 =~= c.skip(1 + k0));
    }
}

/// The lower-case digit character for a value below sixteen.
fn hex_digit_char_exec(d: u32) -> (r: char)
    requires
        d < 16,
    ensures
        r == hex_digit_char(d as int),
{
    match d {
        0 => '0',
        1 => '1',
        2 => '2',
        3 => '3',
        4 => '4',
        5 => '5',
        6 => '6',
        7 => '7',
        8 => '8',
        9 => '9',
        10 => 'a',
        11 => 'b',
        12 => 'c',
        13 => 'd',
        14 => 'e',
        _ => 'f',
    }
}

/// The value of a hexadecimal digit, if the character is one.
fn hex_val_exec(c: char) -> (r: Option<u32>)
    ensures
        r matches Some(d) ==> is_hex_digit_char(c) && d == hex_val(c),
        r is None ==> !is_hex_digit_char(c),
{
    let u = c as u32;
    if 48 <= u && u <= 57 {
        Some(u - 48)
    } else if 97 <= u && u <= 102 {
        Some(u - 87)
    } else if 65 <= u && u <= 70 {
        Some(u - 55)
    } else {
        None
    }
}

/// Relies on `char::from_u32`: the character with this scalar value when
/// the value is one, nothing when it is a surrogate or beyond the
/// character range.
#[verifier::external_body]
fn char_from_code(u: u32) -> (r: Option<char>)
    ensures
        r matches Some(c) ==> vstd::utf8::is_scalar(u) && c as u32 == u,
        r is None ==> !vstd::utf8::is_scalar(u),
{
    char::from_u32(u)
}

/// Append one character, escaped, to the output.
fn escape1_into(out: &mut Vec<char>, c: char)
    ensures
        final(out)@ == old(out)@ + escape1(c),
{
    let u = c as u32;
    if c == '"' {
        out.push('\\');
        out.push('"');
    } else if c == '\\' {
        out.push('\\');
        out.push('\\');
    } else if c == '\n' {
        out.push('\\');
        out.push('n');
    } else if c == '\t' {
        out.push('\\');
        out.push('t');
    } else if c == '\r' {
        out.push('\\');
        out.push('r');
    } else if u == 0x8 {
        out.push('\\');
        out.push('b');
    } else if u == 0xc {
        out.push('\\');
        out.push('f');
    } else if u < 0x20 {
        out.push('\\');
        out.push('u');
        out.push('0');
        out.push('0');
        out.push(hex_digit_char_exec(u / 16));
        out.push(hex_digit_char_exec(u % 16));
    } else {
        out.push(c);
    }
    proof {
        assert(final(out)@ =~= old(out)@ + escape1(c));
    }
}

/// Append a whole string, quoted and escaped, to the output.
pub fn quoted_into(out: &mut Vec<char>, s: &str)
    ensures
        final(out)@ == old(out)@ + quoted(s@),
{
    out.push('"');
    let n = s.unicode_len();
    let mut i: usize = 0;
    while i < n
        invariant
            i <= n,
            n == s@.len(),
            out@ == old(out)@ + seq!['"'] + escape(s@.take(i as int)),
        decreases n - i,
    {
        proof {
            assert(s@.take(i + 1) =~= s@.take(i as int).push(s@[i as int]));
            lemma_escape_snoc(s@.take(i as int), s@[i as int]);
        }
        escape1_into(out, s.get_char(i));
        proof {
            assert(out@ =~= old(out)@ + seq!['"'] + escape(s@.take(i + 1)));
        }
        i = i + 1;
    }
    out.push('"');
    proof {
        assert(s@.take(n as int) =~= s@);
        assert(final(out)@ =~= old(out)@ + quoted(s@));
    }
}

/// Executable form of [`unescape_code`].
fn unescape_code_exec(e: char) -> (r: Option<char>)
    ensures
        r == unescape_code(e),
{
    if e == '"' {
        Some('"')
    } else if e == '\\' {
        Some('\\')
    } else if e == 'n' {
        Some('\n')
    } else if e == 't' {
        Some('\t')
    } else if e == 'r' {
        Some('\r')
    } else if e == 'b' {
        Some('\u{8}')
    } else if e == 'f' {
        Some('\u{c}')
    } else if e == '/' {
        Some('/')
    } else {
        None
    }
}

/// Read a JSON string body starting at `i` (just past the opening
/// quote): the decoded characters and the position just past the closing
/// quote.
pub fn parse_string_body(v: &Vec<char>, i: usize) -> (r: Option<(Vec<char>, usize)>)
    requires
        i <= v@.len(),
    ensures
        match take_string_body(v@.skip(i as int)) {
            None => r is None,
            Some((s, rest)) => {
                &&& (r matches Some((sv, j)) && sv@ == s && i <= j <= v@.len() && v@.skip(j as int)
                    == rest)
            },
        },
    decreases v@.len() - i,
{
    let n = v.len();
    if i >= n {
        return None;
    }
    let c = v[i];
    if c == '"' {
        proof {
            assert(v@.skip(i as int).skip(1) =~= v@.skip(i + 1));
        }
        return Some((Vec::new(), i + 1));
    }
    if c == '\\' {
        if i + 1 >= n {
            return None;
        }
        proof {
            assert(v@.skip(i as int)[1] == v@[i + 1]);
        }
        if v[i + 1] == 'u' {
            let ghost cs = v@.skip(i as int);
            if n - i < 6 {
                return None;
            }
            proof {
                assert(cs[2] == v@[i + 2] && cs[3] == v@[i + 3] && cs[4] == v@[i + 4] && cs[5]
                    == v@[i + 5]);
            }
            let d3 = match hex_val_exec(v[i + 2]) {
                Some(d) => d,
                None => {
                    return None;
                },
            };
            let d2 = match hex_val_exec(v[i + 3]) {
                Some(d) => d,
                None => {
                    return None;
                },
            };
            let d1 = match hex_val_exec(v[i + 4]) {
                Some(d) => d,
                None => {
                    return None;
                },
            };
            let d0 = match hex_val_exec(v[i + 5]) {
                Some(d) => d,
                None => {
                    return None;
                },
            };
            let code: u32 = d3 * 4096 + d2 * 256 + d1 * 16 + d0;
            proof {
                assert(hex4_ok(cs, 2));
                assert(code == hex4_val(cs, 2));
            }
            let ch = match char_from_code(code) {
                Some(ch) => ch,
                None => {
                    return None;
                },
            };
            proof {
                vstd::utf8::char_u32_cast(ch, code);
                assert(ch == (hex4_val(cs, 2) as u32) as char);
                assert(cs.skip(6) =~= v@.skip(i + 6));
            }
            match parse_string_body(v, i + 6) {
                None => None,
                Some((mut sv, j)) => {
                    sv.insert(0, ch);
                    proof {
                        let tk = take_string_body(v@.skip(i + 6))->0;
                        assert(sv@ =~= seq![ch] + tk.0);
                    }
                    Some((sv, j))
                },
            }
        } else {
            let code = unescape_code_exec(v[i + 1]);
            proof {
                assert(v@.skip(i as int).skip(2) =~= v@.skip(i + 2));
            }
            match code {
                None => None,
                Some(ch) => {
                    match parse_string_body(v, i + 2) {
                        None => None,
                        Some((mut sv, j)) => {
                            sv.insert(0, ch);
                            proof {
                                let tk = take_string_body(v@.skip(i + 2))->0;
                                assert(sv@ =~= seq![ch] + tk.0);
                            }
                            Some((sv, j))
                        },
                    }
                },
            }
        }
    } else {
        proof {
            assert(v@.skip(i as int).skip(1) =~= v@.skip(i + 1));
        }
        match parse_string_body(v, i + 1) {
            None => None,
            Some((mut sv, j)) => {
                sv.insert(0, c);
                proof {
                    let tk = take_string_body(v@.skip(i + 1))->0;
                    assert(sv@ =~= seq![c] + tk.0);
                }
                Some((sv, j))
            },
        }
    }
}

/// Is `p` a prefix of `c`?
pub open spec fn prefix_of(p: Seq<char>, c: Seq<char>) -> bool {
    c.len() >= p.len() && c.take(p.len() as int) == p
}

/// Reading a fixed fragment: what follows it, when it is there.
pub open spec fn take_lit(l: Seq<char>, c: Seq<char>) -> Option<Seq<char>> {
    if prefix_of(l, c) {
        Some(c.skip(l.len() as int))
    } else {
        None
    }
}

proof fn lemma_take_lit(l: Seq<char>, rest: Seq<char>)
    ensures
        take_lit(l, l + rest) == Some(rest),
{
    assert((l + rest).take(l.len() as int) =~= l);
    assert((l + rest).skip(l.len() as int) =~= rest);
}

/// Match a fixed fragment at `i`: the position just past it, when the
/// input carries it there.
pub fn expect_lit(v: &Vec<char>, i: usize, lit: &str) -> (r: Option<usize>)
    requires
        i <= v@.len(),
    ensures
        match take_lit(lit@, v@.skip(i as int)) {
            None => r is None,
            Some(rest) => {
                &&& (r matches Some(j) && j == i + lit@.len() && j <= v@.len() && v@.skip(j as int)
                    == rest)
            },
        },
{
    let n = v.len();
    let m = lit.unicode_len();
    if n - i < m {
        return None;
    }
    let mut k: usize = 0;
    while k < m
        invariant
            k <= m,
            i + m <= n,
            n == v@.len(),
            m == lit@.len(),
            forall|t: int| 0 <= t < k ==> v@[i + t] == lit@[t],
        decreases m - k,
    {
        if v[i + k] != lit.get_char(k) {
            proof {
                let c = v@.skip(i as int);
                assert(c.take(m as int)[k as int] == v@[i + k]);
                assert(c.take(m as int) != lit@);
            }
            return None;
        }
        k = k + 1;
    }
    proof {
        let c = v@.skip(i as int);
        assert(c.take(m as int) =~= lit@);
        assert(c.skip(m as int) =~= v@.skip(i + m));
    }
    Some(i + m)
}

/// A boolean as JSON writes it.
pub open spec fn bool_rep(b: bool) -> Seq<char> {
    if b {
        "true"@
    } else {
        "false"@
    }
}

/// Reading a boolean.
pub open spec fn take_bool(c: Seq<char>) -> Option<(bool, Seq<char>)> {
    if prefix_of("true"@, c) {
        Some((true, c.skip("true"@.len() as int)))
    } else if prefix_of("false"@, c) {
        Some((false, c.skip("false"@.len() as int)))
    } else {
        None
    }
}

proof fn lemma_take_bool(b: bool, rest: Seq<char>)
    ensures
        take_bool(bool_rep(b) + rest) == Some((b, rest)),
{
    reveal_strlit("true");
    reveal_strlit("false");
    if b {
        lemma_take_lit("true"@, rest);
        assert(prefix_of("true"@, "true"@ + rest));
    } else {
        let c = "false"@ + rest;
        assert(c[0] == 'f');
        if prefix_of("true"@, c) {
            assert(c.take("true"@.len() as int)[0] == 't');
            assert(false);
        }
        lemma_take_lit("false"@, rest);
    }
}

/// Read a boolean at `i`.
pub fn parse_bool(v: &Vec<char>, i: usize) -> (r: Option<(bool, usize)>)
    requires
        i <= v@.len(),
    ensures
        match take_bool(v@.skip(i as int)) {
            None => r is None,
            Some((b, rest)) => {
                &&& (r matches Some((bv, j)) && bv == b && i <= j <= v@.len() && v@.skip(j as int)
                    == rest)
            },
        },
{
    match expect_lit(v, i, "true") {
        Some(j) => Some((true, j)),
        None => match expect_lit(v, i, "false") {
            Some(j) => Some((false, j)),
            None => None,
        },
    }
}

/// A model-version label as JSON writes it.
pub open spec fn version_rep(m: crate::storage::ModelVersion) -> Seq<char> {
    match m {
        crate::storage::ModelVersion::Quantized => "\"quantized\""@,
        crate::storage::ModelVersion::Unquantized => "\"unquantized\""@,
    }
}

/// Reading a model-version label.
pub open spec fn take_version(c: Seq<char>) -> Option<(crate::storage::ModelVersion, Seq<char>)> {
    if prefix_of("\"quantized\""@, c) {
        Some((crate::storage::ModelVersion::Quantized, c.skip("\"quantized\""@.len() as int)))
    } else if prefix_of("\"unquantized\""@, c) {
        Some((crate::storage::ModelVersion::Unquantized, c.skip("\"unquantized\""@.len() as int)))
    } else {
        None
    }
}

proof fn lemma_take_version(m: crate::storage::ModelVersion, rest: Seq<char>)
    ensures
        take_version(version_rep(m) + rest) == Some((m, rest)),
{
    reveal_strlit("\"quantized\"");
    reveal_strlit("\"unquantized\"");
    match m {
        crate::storage::ModelVersion::Quantized => {
            lemma_take_lit("\"quantized\""@, rest);
            assert(prefix_of("\"quantized\""@, "\"quantized\""@ + rest));
        },
        crate::storage::ModelVersion::Unquantized => {
            let c = "\"unquantized\""@ + rest;
            assert(c[1] == 'u');
            if prefix_of("\"quantized\""@, c) {
                assert(c.take("\"quantized\""@.len() as int)[1] == 'q');
                assert(false);
            }
            lemma_take_lit("\"unquantized\""@, rest);
        },
    }
}

/// Read a model-version label at `i`.
pub fn parse_version(v: &Vec<char>, i: usize) -> (r: Option<(crate::storage::ModelVersion, usize)>)
    requires
        i <= v@.len(),
    ensures
        match take_version(v@.skip(i as int)) {
            None => r is None,
            Some((m, rest)) => {
                &&& (r matches Some((mv, j)) && mv == m && i <= j <= v@.len() && v@.skip(j as int)
                    == rest)
            },
        },
{
    match expect_lit(v, i, "\"quantized\"") {
        Some(j) => Some((crate::storage::ModelVersion::Quantized, j)),
        None => match expect_lit(v, i, "\"unquantized\"") {
            Some(j) => Some((crate::storage::ModelVersion::Unquantized, j)),
            None => None,
        },
    }
}

/// A decimal digit.
pub open spec fn is_digit_char(c: char) -> bool {
    48 <= c as u32 <= 57
}

/// The digit character for a value below ten.
pub open spec fn digit_char(d: int) -> char
    recommends
        0 <= d < 10,
{
    if d == 0 {
        '0'
    } else if d == 1 {
        '1'
    } else if d == 2 {
        '2'
    } else if d == 3 {
        '3'
    } else if d == 4 {
        '4'
    } else if d == 5 {
        '5'
    } else if d == 6 {
        '6'
    } else if d == 7 {
        '7'
    } else if d == 8 {
        '8'
    } else {
        '9'
    }
}

/// The value of a digit character.
pub open spec fn digit_val(c: char) -> int {
    c as u32 - 48
}

/// A number as JSON writes it: its decimal digits.
pub open spec fn dec_rep(n: nat) -> Seq<char>
    decreases n,
{
    if n < 10 {
        seq![digit_char(n as int)]
    } else {
        dec_rep(n / 10) + seq![digit_char((n % 10) as int)]
    }
}

/// Split the longest run of leading digits from the rest.
pub open spec fn take_digits(c: Seq<char>) -> (Seq<char>, Seq<char>)
    decreases c.len(),
{
    if c.len() > 0 && is_digit_char(c[0]) {
        let (d, r) = take_digits(c.skip(1));
        (seq![c[0]] + d, r)
    } else {
        (Seq::empty(), c)
    }
}

/// The number a digit run denotes.
pub open spec fn digits_val(d: Seq<char>) -> int
    decreases d.len(),
{
    if d.len() == 0 {
        0
    } else {
        digits_val(d.drop_last()) * 10 + digit_val(d.last())
    }
}

proof fn lemma_digit_char_val(d: int)
    requires
        0 <= d < 10,
    ensures
        is_digit_char(digit_char(d)),
        digit_val(digit_char(d)) == d,
{
    assert('0' as u32 == 48);
    assert('1' as u32 == 49);
    assert('2' as u32 == 50);
    assert('3' as u32 == 51);
    assert('4' as u32 == 52);
    assert('5' as u32 == 53);
    assert('6' as u32 == 54);
    assert('7' as u32 == 55);
    assert('8' as u32 == 56);
    assert('9' as u32 == 57);
}

proof fn lemma_digits_val_nonneg(d: Seq<char>)
    requires
        forall|k: int| 0 <= k < d.len() ==> is_digit_char(#[trigger] d[k]),
    ensures
        digits_val(d) >= 0,
    decreases d.len(),
{
    if d.len() > 0 {
        lemma_digits_val_nonneg(d.drop_last());
    }
}

proof fn lemma_dec_rep_digits(n: nat)
    ensures
        dec_rep(n).len() >= 1,
        forall|k: int| 0 <= k < dec_rep(n).len() ==> is_digit_char(#[trigger] dec_rep(n)[k]),
    decreases n,
{
    if n >= 10 {
        lemma_dec_rep_digits(n / 10);
    }
}

proof fn lemma_digits_val_dec_rep(n: nat)
    ensures
        digits_val(dec_rep(n)) == n,
    decreases n,
{
    if n < 10 {
        let d = dec_rep(n);
        lemma_digit_char_val(n as int);
        assert(d.drop_last() =~= Seq::<char>::empty());
        assert(digits_val(d.drop_last()) == 0);
    } else {
        lemma_digits_val_dec_rep(n / 10);
        lemma_digit_char_val((n % 10) as int);
        let d = dec_rep(n);
        assert(d.drop_last() =~= dec_rep(n / 10));
        assert(d.last() == digit_char((n % 10) as int));
        assert(n == (n / 10) * 10 + n % 10) by (nonlinear_arith);
    }
}

proof fn lemma_take_digits_concat(d: Seq<char>, rest: Seq<char>)
    requires
        forall|k: int| 0 <= k < d.len() ==> is_digit_char(#[trigger] d[k]),
        rest.len() == 0 || !is_digit_char(rest[0]),
    ensures
        take_digits(d + rest) == (d, rest),
    decreases d.len(),
{
    let c = d + rest;
    if d.len() == 0 {
        assert(c =~= rest);
        if c.len() > 0 && is_digit_char(c[0]) {
            assert(false);
        }
        assert(take_digits(c).0 =~= d);
    } else {
        assert(c[0] == d[0]);
        assert(c.skip(1) =~= d.drop_first() + rest);
        lemma_take_digits_concat(d.drop_first(), rest);
        assert(seq![d[0]] + d.drop_first() =~= d);
        assert(take_digits(c).0 =~= d);
    }
}

/// The structure of a digit split: the digits are a verbatim prefix, the
/// rest is the matching suffix, and the split stops at the first
/// non-digit.
proof fn lemma_take_digits_structure(c: Seq<char>)
    ensures
        take_digits(c).0.len() <= c.len(),
        forall|k: int|
            0 <= k < take_digits(c).0.len() ==> #[trigger] take_digits(c).0[k] == c[k]
                && is_digit_char(c[k]),
        take_digits(c).1 =~= c.skip(take_digits(c).0.len() as int),
        take_digits(c).0.len() < c.len() ==> !is_digit_char(c[take_digits(c).0.len() as int]),
    decreases c.len(),
{
    if c.len() > 0 && is_digit_char(c[0]) {
        lemma_take_digits_structure(c.skip(1));
        let d0 = take_digits(c.skip(1)).0;
        assert(forall|k: int|
            0 <= k < d0.len() ==> #[trigger] d0[k] == c.skip(1)[k] && is_digit_char(c.skip(1)[k]));
        assert(c.skip(1).skip(d0.len() as int) =~= c.skip(1 + d0.len() as int));
        assert(forall|k: int|
            1 <= k < take_digits(c).0.len() ==> #[trigger] take_digits(c).0[k] == d0[k - 1]);
    }
}

proof fn lemma_digits_val_prefix_le(d: Seq<char>, m: int)
    requires
        forall|k: int| 0 <= k < d.len() ==> is_digit_char(#[trigger] d[k]),
        0 <= m <= d.len(),
    ensures
        digits_val(d.take(m)) <= digits_val(d),
    decreases d.len() - m,
{
    if m < d.len() {
        lemma_digits_val_prefix_le(d, m + 1);
        assert(d.take(m + 1).drop_last() =~= d.take(m));
        assert(d.take(m + 1).last() == d[m]);
        lemma_digits_val_nonneg(d.take(m));
        assert(digits_val(d.take(m)) <= digits_val(d.take(m)) * 10 + digit_val(d[m]))
            by (nonlinear_arith)
            requires
                digits_val(d.take(m)) >= 0,
                digit_val(d[m]) >= 0,
        ;
    } else {
        assert(d.take(m) =~= d);
    }
}

/// Read an unsigned decimal number at `i`: its value and the position
/// just past its digits; nothing when no digit is there or the value
/// does not fit the type.
pub fn parse_u64(v: &Vec<char>, i: usize) -> (r: Option<(u64, usize)>)
    requires
        i <= v@.len(),
    ensures
        ({
            let (d, rest) = take_digits(v@.skip(i as int));
            if d.len() == 0 {
                r is None
            } else if digits_val(d) <= u64::MAX {
                r matches Some((x, j)) && x == digits_val(d) && i <= j <= v@.len() && v@.skip(
                    j as int,
                ) == rest && j == i + d.len()
            } else {
                r is None
            }
        }),
{
    let ghost c = v@.skip(i as int);
    let ghost d = take_digits(c).0;
    proof {
        lemma_take_digits_structure(c);
        lemma_digits_val_nonneg(d);
    }
    let n = v.len();
    let mut k: usize = 0;
    let mut acc: u64 = 0;
    let mut any = false;
    while i + k < n
        invariant_except_break
            i + k <= n,
            n == v@.len(),
            c == v@.skip(i as int),
            d == take_digits(c).0,
            d.len() <= c.len(),
            forall|t: int| 0 <= t < d.len() ==> #[trigger] d[t] == c[t] && is_digit_char(c[t]),
            d.len() < c.len() ==> !is_digit_char(c[d.len() as int]),
            k <= d.len(),
            any == (k > 0),
            acc as int == digits_val(d.take(k as int)),
        ensures
            k == d.len(),
            any == (k > 0),
            acc as int == digits_val(d.take(k as int)),
            i + k <= n,
            n == v@.len(),
        decreases n - i - k,
    {
        let u = v[i + k] as u32;
        if !(48 <= u && u <= 57) {
            proof {
                assert(c[k as int] == v@[i + k]);
                if k < d.len() {
                    assert(d[k as int] == c[k as int] && is_digit_char(c[k as int]));
                    assert(false);
                }
            }
            break;
        }
        let dv = (v[i + k] as u32 - 48) as u64;
        proof {
            assert(c[k as int] == v@[i + k]);
            assert(is_digit_char(c[k as int]));
            if k >= d.len() {
                assert(d.len() < c.len());
                assert(false);
            }
            assert(d.take(k + 1).drop_last() =~= d.take(k as int));
            assert(d.take(k + 1).last() == d[k as int]);
        }
        if acc > (u64::MAX - dv) / 10 {
            proof {
                assert(acc as int * 10 + dv > u64::MAX) by (nonlinear_arith)
                    requires
                        acc as int > (u64::MAX - dv) / 10,
                        0 <= dv <= 9,
                        acc >= 0,
                ;
                lemma_digits_val_prefix_le(d, k + 1);
            }
            return None;
        }
        proof {
            assert(acc as int * 10 + dv <= u64::MAX) by (nonlinear_arith)
                requires
                    acc as int <= (u64::MAX - dv) / 10,
                    0 <= dv <= 9,
                    acc >= 0,
            ;
        }
        acc = acc * 10 + dv;
        k = k + 1;
        any = true;
    }
    proof {
        if k < d.len() {
            assert(is_digit_char(c[k as int]));
            assert(v@[i + k] == c[k as int]);
            assert(false);
        }
        assert(k == d.len());
        assert(d.take(k as int) =~= d);
    }
    if !any {
        return None;
    }
    proof {
        assert(v@.skip((i + k) as int) =~= c.skip(k as int));
    }
    Some((acc, i + k))
}

/// Reading a quoted string: the opening quote, then the body.
pub open spec fn take_quoted(c: Seq<char>) -> Option<(Seq<char>, Seq<char>)> {
    if c.len() >= 1 && c[0] == '"' {
        take_string_body(c.skip(1))
    } else {
        None
    }
}

proof fn lemma_take_quoted(s: Seq<char>, rest: Seq<char>)
    ensures
        take_quoted(quoted(s) + rest) == Some((s, rest)),
{
    let c = quoted(s) + rest;
    assert(c[0] == '"');
    assert(c.skip(1) =~= escape(s) + seq!['"'] + rest);
    lemma_take_escaped(s, rest);
}

/// Read a quoted string at `i`.
pub fn parse_quoted(v: &Vec<char>, i: usize) -> (r: Option<(Vec<char>, usize)>)
    requires
        i <= v@.len(),
    ensures
        match take_quoted(v@.skip(i as int)) {
            None => r is None,
            Some((s, rest)) => {
                &&& (r matches Some((sv, j)) && sv@ == s && i <= j <= v@.len() && v@.skip(j as int)
                    == rest)
            },
        },
{
    let n = v.len();
    if i < n && v[i] == '"' {
        proof {
            assert(v@.skip(i as int).skip(1) =~= v@.skip(i + 1));
        }
        parse_string_body(v, i + 1)
    } else {
        None
    }
}

/// A fixed fragment followed by a boolean.
pub open spec fn take_lit_bool(l: Seq<char>, c: Seq<char>) -> Option<(bool, Seq<char>)> {
    match take_lit(l, c) {
        None => None,
        Some(r) => take_bool(r),
    }
}

proof fn lemma_take_lit_bool(l: Seq<char>, b: bool, rest: Seq<char>)
    ensures
        take_lit_bool(l, l + (bool_rep(b) + rest)) == Some((b, rest)),
{
    lemma_take_lit(l, bool_rep(b) + rest);
    lemma_take_bool(b, rest);
}

/// A fixed fragment followed by a quoted string.
pub open spec fn take_lit_quoted(l: Seq<char>, c: Seq<char>) -> Option<(Seq<char>, Seq<char>)> {
    match take_lit(l, c) {
        None => None,
        Some(r) => take_quoted(r),
    }
}

proof fn lemma_take_lit_quoted(l: Seq<char>, s: Seq<char>, rest: Seq<char>)
    ensures
        take_lit_quoted(l, l + (quoted(s) + rest)) == Some((s, rest)),
{
    lemma_take_lit(l, quoted(s) + rest);
    lemma_take_quoted(s, rest);
}

/// A fixed fragment followed by a model-version label.
pub open spec fn take_lit_version(l: Seq<char>, c: Seq<char>) -> Option<
    (crate::storage::ModelVersion, Seq<char>),
> {
    match take_lit(l, c) {
        None => None,
        Some(r) => take_version(r),
    }
}

proof fn lemma_take_lit_version(l: Seq<char>, m: crate::storage::ModelVersion, rest: Seq<char>)
    ensures
        take_lit_version(l, l + (version_rep(m) + rest)) == Some((m, rest)),
{
    lemma_take_lit(l, version_rep(m) + rest);
    lemma_take_version(m, rest);
}

/// Read a fragment and a boolean at `i`.
pub fn parse_lit_bool(v: &Vec<char>, i: usize, lit: &str) -> (r: Option<(bool, usize)>)
    requires
        i <= v@.len(),
    ensures
        match take_lit_bool(lit@, v@.skip(i as int)) {
            None => r is None,
            Some((b, rest)) => {
                &&& (r matches Some((bv, j)) && bv == b && i <= j <= v@.len() && v@.skip(j as int)
                    == rest)
            },
        },
{
    match expect_lit(v, i, lit) {
        None => None,
        Some(j) => parse_bool(v, j),
    }
}

/// Read a fragment and a quoted string at `i`.
pub fn parse_lit_quoted(v: &Vec<char>, i: usize, lit: &str) -> (r: Option<(Vec<char>, usize)>)
    requires
        i <= v@.len(),
    ensures
        match take_lit_quoted(lit@, v@.skip(i as int)) {
            None => r is None,
            Some((s, rest)) => {
                &&& (r matches Some((sv, j)) && sv@ == s && i <= j <= v@.len() && v@.skip(j as int)
                    == rest)
            },
        },
{
    match expect_lit(v, i, lit) {
        None => None,
        Some(j) => parse_quoted(v, j),
    }
}

/// Read a fragment and a model-version label at `i`.
pub fn parse_lit_version(v: &Vec<char>, i: usize, lit: &str) -> (r: Option<
    (crate::storage::ModelVersion, usize),
>)
    requires
        i <= v@.len(),
    ensures
        match take_lit_version(lit@, v@.skip(i as int)) {
            None => r is None,
            Some((m, rest)) => {
                &&& (r matches Some((mv, j)) && mv == m && i <= j <= v@.len() && v@.skip(j as int)
                    == rest)
            },
        },
{
    match expect_lit(v, i, lit) {
        None => None,
        Some(j) => parse_version(v, j),
    }
}

/// Append a boolean to the output.
pub fn bool_into(out: &mut Vec<char>, b: bool)
    ensures
        final(out)@ == old(out)@ + bool_rep(b),
{
    if b {
        crate::text::push_str_chars(out, "true");
    } else {
        crate::text::push_str_chars(out, "false");
    }
}

/// Append a model-version label to the output.
pub fn version_into(out: &mut Vec<char>, m: &crate::storage::ModelVersion)
    ensures
        final(out)@ == old(out)@ + version_rep(*m),
{
    match m {
        crate::storage::ModelVersion::Quantized => {
            crate::text::push_str_chars(out, "\"quantized\"");
        },
        crate::storage::ModelVersion::Unquantized => {
            crate::text::push_str_chars(out, "\"unquantized\"");
        },
    }
}

/// Append a number's decimal digits to the output.
pub fn dec_into(out: &mut Vec<char>, n: u64)
    ensures
        final(out)@ == old(out)@ + dec_rep(n as nat),
    decreases n,
{
    if n < 10 {
        let c: char = match n {
            0 => '0',
            1 => '1',
            2 => '2',
            3 => '3',
            4 => '4',
            5 => '5',
            6 => '6',
            7 => '7',
            8 => '8',
            _ => '9',
        };
        out.push(c);
        proof {
            assert(final(out)@ =~= old(out)@ + dec_rep(n as nat));
        }
    } else {
        dec_into(out, n / 10);
        let rem = n % 10;
        let c: char = match rem {
            0 => '0',
            1 => '1',
            2 => '2',
            3 => '3',
            4 => '4',
            5 => '5',
            6 => '6',
            7 => '7',
            8 => '8',
            _ => '9',
        };
        out.push(c);
        proof {
            assert(final(out)@ =~= old(out)@ + dec_rep(n as nat));
        }
    }
}

/// The proxy section of the configuration file.
pub open spec fn config_json_proxy(c: crate::storage::AppConfig) -> Seq<char> {
    ",\n  \"proxy\": {\n    \"enabled\": "@ + (bool_rep(c.proxy.enabled) + (",\n    \"url\": "@ + (
    quoted(c.proxy.url@) + "\n  }"@)))
}

/// The correction section of the configuration file.
pub open spec fn config_json_llm(c: crate::storage::AppConfig) -> Seq<char> {
    ",\n  \"llm_config\": {\n    \"enabled\": "@ + (bool_rep(c.llm_config.enabled) + (
    ",\n    \"base_url\": "@ + (quoted(c.llm_config.base_url@) + (",\n    \"api_key\": "@ + (quoted(
        c.llm_config.api_key@,
    ) + (",\n    \"model\": "@ + (quoted(c.llm_config.model@) + (",\n    \"custom_prompt\": "@ + (
    quoted(c.llm_config.custom_prompt@) + "\n  }"@)))))))))
}

/// The suffix of the configuration file from the language field on.
pub open spec fn config_json_fields(c: crate::storage::AppConfig) -> Seq<char> {
    ",\n  \"language\": "@ + (quoted(c.language@) + (",\n  \"model_dir\": "@ + (quoted(
        c.model_dir@,
    ) + (",\n  \"model_version\": "@ + (version_rep(c.model_version) + (",\n  \"input_device\": "@
        + (quoted(c.input_device@) + (config_json_llm(c) + (config_json_proxy(c) + "\n}"@)))))))))
}

/// The configuration file, in the one layout this application writes.
pub open spec fn config_json(c: crate::storage::AppConfig) -> Seq<char> {
    "{\n  \"trigger_mouse\": "@ + (bool_rep(c.trigger_mouse) + (",\n  \"trigger_hold\": "@ + (
    bool_rep(c.trigger_hold) + (",\n  \"trigger_toggle\": "@ + (bool_rep(c.trigger_toggle)
        + config_json_fields(c))))))
}

/// A configuration, by the contents of its fields: what the codec
/// preserves.
#[verifier::ext_equal]
pub ghost struct ConfigModel {
    pub trigger_mouse: bool,
    pub trigger_hold: bool,
    pub trigger_toggle: bool,
    pub language: Seq<char>,
    pub model_dir: Seq<char>,
    pub model_version: crate::storage::ModelVersion,
    pub input_device: Seq<char>,
    pub llm_enabled: bool,
    pub base_url: Seq<char>,
    pub api_key: Seq<char>,
    pub llm_model: Seq<char>,
    pub custom_prompt: Seq<char>,
    pub proxy_enabled: bool,
    pub proxy_url: Seq<char>,
}

/// The contents of a configuration's fields.
pub open spec fn cfg_model(c: crate::storage::AppConfig) -> ConfigModel {
    ConfigModel {
        trigger_mouse: c.trigger_mouse,
        trigger_hold: c.trigger_hold,
        trigger_toggle: c.trigger_toggle,
        language: c.language@,
        model_dir: c.model_dir@,
        model_version: c.model_version,
        input_device: c.input_device@,
        llm_enabled: c.llm_config.enabled,
        base_url: c.llm_config.base_url@,
        api_key: c.llm_config.api_key@,
        llm_model: c.llm_config.model@,
        custom_prompt: c.llm_config.custom_prompt@,
        proxy_enabled: c.proxy.enabled,
        proxy_url: c.proxy.url@,
    }
}

/// Reading the correction section: its five fields when the section is
/// there — a broken section fails the whole read — and the out-of-the-box
/// values when it is absent, as loading has always defaulted them.
pub open spec fn take_llm(c: Seq<char>) -> Option<
    ((bool, Seq<char>, Seq<char>, Seq<char>, Seq<char>), Seq<char>),
> {
    match take_lit_bool(",\n  \"llm_config\": {\n    \"enabled\": "@, c) {
        None => Some(((false, "https://api.openai.com/v1"@, ""@, "gpt-4o-mini"@, ""@), c)),
        Some((le, c1)) => match take_lit_quoted(",\n    \"base_url\": "@, c1) {
            None => None,
            Some((burl, c2)) => match take_lit_quoted(",\n    \"api_key\": "@, c2) {
                None => None,
                Some((akey, c3)) => match take_lit_quoted(",\n    \"model\": "@, c3) {
                    None => None,
                    Some((lmodel, c4)) => match take_lit_quoted(",\n    \"custom_prompt\": "@, c4) {
                        None => None,
                        Some((cprompt, c5)) => match take_lit("\n  }"@, c5) {
                            None => None,
                            Some(c6) => Some(((le, burl, akey, lmodel, cprompt), c6)),
                        },
                    },
                },
            },
        },
    }
}

/// Reading the proxy section: its two fields when the section is there,
/// the out-of-the-box values when it is absent.
pub open spec fn take_proxy(c: Seq<char>) -> Option<((bool, Seq<char>), Seq<char>)> {
    match take_lit_bool(",\n  \"proxy\": {\n    \"enabled\": "@, c) {
        None => Some(((false, ""@), c)),
        Some((pe, c1)) => match take_lit_quoted(",\n    \"url\": "@, c1) {
            None => None,
            Some((purl, c2)) => match take_lit("\n  }"@, c2) {
                None => None,
                Some(c3) => Some(((pe, purl), c3)),
            },
        },
    }
}

/// Reading a configuration file: the fields in the written order, where
/// the model version, the input device, the correction section and the
/// proxy section may be absent and then keep their out-of-the-box values.
pub open spec fn take_config(c0: Seq<char>) -> Option<(ConfigModel, Seq<char>)> {
    match take_lit_bool("{\n  \"trigger_mouse\": "@, c0) {
        None => None,
        Some((tm, c1)) => match take_lit_bool(",\n  \"trigger_hold\": "@, c1) {
            None => None,
            Some((th, c2)) => match take_lit_bool(",\n  \"trigger_toggle\": "@, c2) {
                None => None,
                Some((tt, c3)) => match take_lit_quoted(",\n  \"language\": "@, c3) {
                    None => None,
                    Some((lang, c4)) => match take_lit_quoted(",\n  \"model_dir\": "@, c4) {
                        None => None,
                        Some((mdir, c5)) => {
                            let (mv, c6) = match take_lit_version(
                                ",\n  \"model_version\": "@,
                                c5,
                            ) {
                                Some(x) => x,
                                None => (crate::storage::ModelVersion::Quantized, c5),
                            };
                            let (idev, c7) = match take_lit_quoted(
                                ",\n  \"input_device\": "@,
                                c6,
                            ) {
                                Some(x) => x,
                                None => (""@, c6),
                            };
                            match take_llm(c7) {
                                None => None,
                                Some(((le, burl, akey, lmodel, cprompt), c12)) => match take_proxy(
                                    c12,
                                ) {
                                    None => None,
                                    Some(((pe, purl), c13)) => match take_lit("\n}"@, c13) {
                                        None => None,
                                        Some(c14) => Some(
                                            (
                                                ConfigModel {
                                                    trigger_mouse: tm,
                                                    trigger_hold: th,
                                                    trigger_toggle: tt,
                                                    language: lang,
                                                    model_dir: mdir,
                                                    model_version: mv,
                                                    input_device: idev,
                                                    llm_enabled: le,
                                                    base_url: burl,
                                                    api_key: akey,
                                                    llm_model: lmodel,
                                                    custom_prompt: cprompt,
                                                    proxy_enabled: pe,
                                                    proxy_url: purl,
                                                },
                                                c14,
                                            ),
                                        ),
                                    },
                                },
                            }
                        },
                    },
                },
            },
        },
    }
}

/// Append the proxy section of the configuration file.
fn config_proxy_into(out: &mut Vec<char>, c: &crate::storage::AppConfig)
    ensures
        final(out)@ == old(out)@ + config_json_proxy(*c),
{
    crate::text::push_str_chars(out, ",\n  \"proxy\": {\n    \"enabled\": ");
    bool_into(out, c.proxy.enabled);
    crate::text::push_str_chars(out, ",\n    \"url\": ");
    quoted_into(out, c.proxy.url.as_str());
    crate::text::push_str_chars(out, "\n  }");
    proof {
        assert(final(out)@ =~= old(out)@ + config_json_proxy(*c));
    }
}

/// Append the correction section of the configuration file.
fn config_llm_into(out: &mut Vec<char>, c: &crate::storage::AppConfig)
    ensures
        final(out)@ == old(out)@ + config_json_llm(*c),
{
    crate::text::push_str_chars(out, ",\n  \"llm_config\": {\n    \"enabled\": ");
    bool_into(out, c.llm_config.enabled);
    crate::text::push_str_chars(out, ",\n    \"base_url\": ");
    quoted_into(out, c.llm_config.base_url.as_str());
    crate::text::push_str_chars(out, ",\n    \"api_key\": ");
    quoted_into(out, c.llm_config.api_key.as_str());
    crate::text::push_str_chars(out, ",\n    \"model\": ");
    quoted_into(out, c.llm_config.model.as_str());
    crate::text::push_str_chars(out, ",\n    \"custom_prompt\": ");
    quoted_into(out, c.llm_config.custom_prompt.as_str());
    crate::text::push_str_chars(out, "\n  }");
    proof {
        assert(final(out)@ =~= old(out)@ + config_json_llm(*c));
    }
}

/// Append the value fields of the configuration file.
#[verifier::rlimit(50)]
fn config_fields_into(out: &mut Vec<char>, c: &crate::storage::AppConfig)
    ensures
        final(out)@ == old(out)@ + config_json_fields(*c),
{
    crate::text::push_str_chars(out, ",\n  \"language\": ");
    quoted_into(out, c.language.as_str());
    crate::text::push_str_chars(out, ",\n  \"model_dir\": ");
    quoted_into(out, c.model_dir.as_str());
    crate::text::push_str_chars(out, ",\n  \"model_version\": ");
    version_into(out, &c.model_version);
    crate::text::push_str_chars(out, ",\n  \"input_device\": ");
    quoted_into(out, c.input_device.as_str());
    config_llm_into(out, c);
    config_proxy_into(out, c);
    crate::text::push_str_chars(out, "\n}");
    proof {
        assert(final(out)@ =~= old(out)@ + config_json_fields(*c));
    }
}

/// Write a configuration as its JSON text.
#[verifier::rlimit(50)]
pub fn config_to_json(c: &crate::storage::AppConfig) -> (r: String)
    ensures
        r@ == config_json(*c),
{
    let mut out: Vec<char> = Vec::new();
    crate::text::push_str_chars(&mut out, "{\n  \"trigger_mouse\": ");
    bool_into(&mut out, c.trigger_mouse);
    crate::text::push_str_chars(&mut out, ",\n  \"trigger_hold\": ");
    bool_into(&mut out, c.trigger_hold);
    crate::text::push_str_chars(&mut out, ",\n  \"trigger_toggle\": ");
    bool_into(&mut out, c.trigger_toggle);
    config_fields_into(&mut out, c);
    proof {
        assert(out@ =~= config_json(*c));
    }
    crate::text::string_from_chars(&out)
}

/// Read the correction section at `i`, or hand back its out-of-the-box
/// values when no such section starts there.
fn parse_llm_block(v: &Vec<char>, i: usize) -> (r: Option<(crate::storage::LlmConfig, usize)>)
    requires
        i <= v@.len(),
    ensures
        match take_llm(v@.skip(i as int)) {
            None => r is None,
            Some((m, rest)) => {
                &&& (r matches Some((cfg, j)) && cfg.enabled == m.0 && cfg.base_url@ == m.1
                    && cfg.api_key@ == m.2 && cfg.model@ == m.3 && cfg.custom_prompt@ == m.4 && i
                    <= j <= v@.len() && v@.skip(j as int) == rest)
            },
        },
{
    let (le, i1) = match parse_lit_bool(v, i, ",\n  \"llm_config\": {\n    \"enabled\": ") {
        Some(x) => x,
        None => {
            return Some((crate::storage::LlmConfig::default(), i));
        },
    };
    let (burl, i2) = match parse_lit_quoted(v, i1, ",\n    \"base_url\": ") {
        Some(x) => x,
        None => {
            return None;
        },
    };
    let (akey, i3) = match parse_lit_quoted(v, i2, ",\n    \"api_key\": ") {
        Some(x) => x,
        None => {
            return None;
        },
    };
    let (lmodel, i4) = match parse_lit_quoted(v, i3, ",\n    \"model\": ") {
        Some(x) => x,
        None => {
            return None;
        },
    };
    let (cprompt, i5) = match parse_lit_quoted(v, i4, ",\n    \"custom_prompt\": ") {
        Some(x) => x,
        None => {
            return None;
        },
    };
    let i6 = match expect_lit(v, i5, "\n  }") {
        Some(x) => x,
        None => {
            return None;
        },
    };
    Some(
        (
            crate::storage::LlmConfig {
                enabled: le,
                base_url: crate::text::string_from_chars(&burl),
                api_key: crate::text::string_from_chars(&akey),
                model: crate::text::string_from_chars(&lmodel),
                custom_prompt: crate::text::string_from_chars(&cprompt),
            },
            i6,
        ),
    )
}

/// Read the proxy section at `i`, or hand back its out-of-the-box values
/// when no such section starts there.
fn parse_proxy_block(v: &Vec<char>, i: usize) -> (r: Option<(crate::storage::ProxyConfig, usize)>)
    requires
        i <= v@.len(),
    ensures
        match take_proxy(v@.skip(i as int)) {
            None => r is None,
            Some((m, rest)) => {
                &&& (r matches Some((cfg, j)) && cfg.enabled == m.0 && cfg.url@ == m.1 && i <= j
                    <= v@.len() && v@.skip(j as int) == rest)
            },
        },
{
    let (pe, i1) = match parse_lit_bool(v, i, ",\n  \"proxy\": {\n    \"enabled\": ") {
        Some(x) => x,
        None => {
            return Some((crate::storage::ProxyConfig::default(), i));
        },
    };
    let (purl, i2) = match parse_lit_quoted(v, i1, ",\n    \"url\": ") {
        Some(x) => x,
        None => {
            return None;
        },
    };
    let i3 = match expect_lit(v, i2, "\n  }") {
        Some(x) => x,
        None => {
            return None;
        },
    };
    Some(
        (
            crate::storage::ProxyConfig {
                enabled: pe,
                url: crate::text::string_from_chars(&purl),
            },
            i3,
        ),
    )
}

/// Read a configuration back from its JSON text. Anything the reader
/// does not accept in full yields the default configuration, as loading
/// has always done.
pub fn config_from_json(s: &str) -> (r: crate::storage::AppConfig)
    ensures
        ({
            match take_config(s@) {
                Some((m, rest)) => if rest.len() == 0 {
                    cfg_model(r) == m
                } else {
                    crate::storage::is_default_config(r)
                },
                None => crate::storage::is_default_config(r),
            }
        }),
{
    let v = crate::text::chars_of(s);
    proof {
        assert(v@.skip(0) =~= s@);
    }
    let r0 = parse_lit_bool(&v, 0, "{\n  \"trigger_mouse\": ");
    let (tm, i1) = match r0 {
        Some(x) => x,
        None => {
            return crate::storage::AppConfig::default();
        },
    };
    let r1 = parse_lit_bool(&v, i1, ",\n  \"trigger_hold\": ");
    let (th, i2) = match r1 {
        Some(x) => x,
        None => {
            return crate::storage::AppConfig::default();
        },
    };
    let r2 = parse_lit_bool(&v, i2, ",\n  \"trigger_toggle\": ");
    let (tt, i3) = match r2 {
        Some(x) => x,
        None => {
            return crate::storage::AppConfig::default();
        },
    };
    let r3 = parse_lit_quoted(&v, i3, ",\n  \"language\": ");
    let (lang, i4) = match r3 {
        Some(x) => x,
        None => {
            return crate::storage::AppConfig::default();
        },
    };
    let r4 = parse_lit_quoted(&v, i4, ",\n  \"model_dir\": ");
    let (mdir, i5) = match r4 {
        Some(x) => x,
        None => {
            return crate::storage::AppConfig::default();
        },
    };
    let (mv, i6) = match parse_lit_version(&v, i5, ",\n  \"model_version\": ") {
        Some(x) => x,
        None => (crate::storage::ModelVersion::Quantized, i5),
    };
    let (idev, i7) = match parse_lit_quoted(&v, i6, ",\n  \"input_device\": ") {
        Some((sv, j)) => (crate::text::string_from_chars(&sv), j),
        None => (String::from_str(""), i6),
    };
    let (llm, i12) = match parse_llm_block(&v, i7) {
        Some(x) => x,
        None => {
            return crate::storage::AppConfig::default();
        },
    };
    let (proxy, i13) = match parse_proxy_block(&v, i12) {
        Some(x) => x,
        None => {
            return crate::storage::AppConfig::default();
        },
    };
    let i14 = match expect_lit(&v, i13, "\n}") {
        Some(x) => x,
        None => {
            return crate::storage::AppConfig::default();
        },
    };
    if i14 != v.len() {
        return crate::storage::AppConfig::default();
    }
    let cfg = crate::storage::AppConfig {
        trigger_mouse: tm,
        trigger_hold: th,
        trigger_toggle: tt,
        language: crate::text::string_from_chars(&lang),
        model_dir: crate::text::string_from_chars(&mdir),
        model_version: mv,
        input_device: idev,
        llm_config: llm,
        proxy,
    };
    proof {
        assert(v@.skip(i14 as int).len() == 0);
        assert(cfg_model(cfg) =~~= (take_config(s@)->0).0);
    }
    cfg
}

proof fn lemma_take_llm_json(c: crate::storage::AppConfig, rest: Seq<char>)
    ensures
        take_llm(config_json_llm(c) + rest) == Some(
            (
                (
                    c.llm_config.enabled,
                    c.llm_config.base_url@,
                    c.llm_config.api_key@,
                    c.llm_config.model@,
                    c.llm_config.custom_prompt@,
                ),
                rest,
            ),
        ),
{
    let t4 = "\n  }"@ + rest;
    let t3 = ",\n    \"custom_prompt\": "@ + (quoted(c.llm_config.custom_prompt@) + t4);
    let t2 = ",\n    \"model\": "@ + (quoted(c.llm_config.model@) + t3);
    let t1 = ",\n    \"api_key\": "@ + (quoted(c.llm_config.api_key@) + t2);
    let t0 = ",\n    \"base_url\": "@ + (quoted(c.llm_config.base_url@) + t1);
    assert(config_json_llm(c) + rest =~= ",\n  \"llm_config\": {\n    \"enabled\": "@ + (bool_rep(
        c.llm_config.enabled,
    ) + t0));
    lemma_take_lit_bool(",\n  \"llm_config\": {\n    \"enabled\": "@, c.llm_config.enabled, t0);
    lemma_take_lit_quoted(",\n    \"base_url\": "@, c.llm_config.base_url@, t1);
    lemma_take_lit_quoted(",\n    \"api_key\": "@, c.llm_config.api_key@, t2);
    lemma_take_lit_quoted(",\n    \"model\": "@, c.llm_config.model@, t3);
    lemma_take_lit_quoted(",\n    \"custom_prompt\": "@, c.llm_config.custom_prompt@, t4);
    lemma_take_lit("\n  }"@, rest);
}

proof fn lemma_take_proxy_json(c: crate::storage::AppConfig, rest: Seq<char>)
    ensures
        take_proxy(config_json_proxy(c) + rest) == Some(((c.proxy.enabled, c.proxy.url@), rest)),
{
    let t1 = "\n  }"@ + rest;
    let t0 = ",\n    \"url\": "@ + (quoted(c.proxy.url@) + t1);
    assert(config_json_proxy(c) + rest =~= ",\n  \"proxy\": {\n    \"enabled\": "@ + (bool_rep(
        c.proxy.enabled,
    ) + t0));
    lemma_take_lit_bool(",\n  \"proxy\": {\n    \"enabled\": "@, c.proxy.enabled, t0);
    lemma_take_lit_quoted(",\n    \"url\": "@, c.proxy.url@, t1);
    lemma_take_lit("\n  }"@, rest);
}

/// Writing a configuration and reading it back yields the original
/// configuration — every recognized option, every field content — with
/// nothing left over.
#[verifier::rlimit(100)]
pub proof fn lemma_config_round_trip(c: crate::storage::AppConfig)
    ensures
        take_config(config_json(c)) == Some((cfg_model(c), Seq::<char>::empty())),
{
    let e = Seq::<char>::empty();
    let s8 = "\n}"@;
    let s7 = config_json_proxy(c) + s8;
    let s6 = config_json_llm(c) + s7;
    let s5 = ",\n  \"input_device\": "@ + (quoted(c.input_device@) + s6);
    let s4 = ",\n  \"model_version\": "@ + (version_rep(c.model_version) + s5);
    let s3 = ",\n  \"model_dir\": "@ + (quoted(c.model_dir@) + s4);
    let s2 = ",\n  \"language\": "@ + (quoted(c.language@) + s3);
    let s1 = ",\n  \"trigger_toggle\": "@ + (bool_rep(c.trigger_toggle) + s2);
    let s0 = ",\n  \"trigger_hold\": "@ + (bool_rep(c.trigger_hold) + s1);
    assert(config_json_fields(c) =~= ",\n  \"language\": "@ + (quoted(c.language@) + s3));
    lemma_take_lit_bool("{\n  \"trigger_mouse\": "@, c.trigger_mouse, s0);
    lemma_take_lit_bool(",\n  \"trigger_hold\": "@, c.trigger_hold, s1);
    lemma_take_lit_bool(",\n  \"trigger_toggle\": "@, c.trigger_toggle, s2);
    lemma_take_lit_quoted(",\n  \"language\": "@, c.language@, s3);
    lemma_take_lit_quoted(",\n  \"model_dir\": "@, c.model_dir@, s4);
    lemma_take_lit_version(",\n  \"model_version\": "@, c.model_version, s5);
    lemma_take_lit_quoted(",\n  \"input_device\": "@, c.input_device@, s6);
    lemma_take_llm_json(c, s7);
    lemma_take_proxy_json(c, s8);
    lemma_take_lit("\n}"@, e);
    assert(s8 =~= "\n}"@ + e);
    assert(take_config(config_json(c)) matches Some((m, rest)) && m =~~= cfg_model(c) && rest =~= e);
}

/// Drop leading whitespace.
pub open spec fn skip_ws(c: Seq<char>) -> Seq<char>
    decreases c.len(),
{
    if c.len() > 0 && crate::text::is_space(c[0]) {
        skip_ws(c.skip(1))
    } else {
        c
    }
}

proof fn lemma_skip_ws_suffix(c: Seq<char>)
    ensures
        exists|k: int| 0 <= k <= c.len() && skip_ws(c) =~= #[trigger] c.skip(k),
    decreases c.len(),
{
    if c.len() > 0 && crate::text::is_space(c[0]) {
        lemma_skip_ws_suffix(c.skip(1));
        let k0 = choose|k: int|
            0 <= k <= c.skip(1).len() && skip_ws(c.skip(1)) =~= #[trigger] c.skip(1).skip(k);
        assert(c.skip(1).skip(k0) =~= c.skip(1 + k0));
        assert(skip_ws(c) =~= c.skip(1 + k0));
    } else {
        assert(skip_ws(c) =~= c.skip(0));
    }
}

/// Skip whitespace at `i`.
pub fn skip_ws_at(v: &Vec<char>, i: usize) -> (j: usize)
    requires
        i <= v@.len(),
    ensures
        i <= j <= v@.len(),
        v@.skip(j as int) == skip_ws(v@.skip(i as int)),
{
    let n = v.len();
    let mut j = i;
    while j < n && crate::text::char_is_space(v[j])
        invariant
            i <= j <= n,
            n == v@.len(),
            skip_ws(v@.skip(i as int)) == skip_ws(v@.skip(j as int)),
        decreases n - j,
    {
        proof {
            assert(v@.skip(j as int).skip(1) =~= v@.skip(j + 1));
        }
        j = j + 1;
    }
    j
}

/// Reading the corrector's reply object: `{ "corrected": "<text>" }`,
/// with whitespace allowed between the tokens.
pub open spec fn take_corrected(c: Seq<char>) -> Option<(Seq<char>, Seq<char>)> {
    match take_lit("{"@, c) {
        None => None,
        Some(c1) => match take_lit("\"corrected\""@, skip_ws(c1)) {
            None => None,
            Some(c2) => match take_lit(":"@, skip_ws(c2)) {
                None => None,
                Some(c3) => match take_quoted(skip_ws(c3)) {
                    None => None,
                    Some((s, c4)) => match take_lit("}"@, skip_ws(c4)) {
                        None => None,
                        Some(c5) => Some((s, c5)),
                    },
                },
            },
        },
    }
}

/// Read the corrector's reply object: the corrected text, when the whole
/// input is exactly one such object.
pub fn parse_corrected(text: &str) -> (r: Option<String>)
    ensures
        ({
            match take_corrected(text@) {
                Some((s, rest)) => if rest.len() == 0 {
                    r matches Some(t) && t@ == s
                } else {
                    r is None
                },
                None => r is None,
            }
        }),
{
    let v = crate::text::chars_of(text);
    proof {
        assert(v@.skip(0) =~= text@);
    }
    let i1 = match expect_lit(&v, 0, "{") {
        Some(j) => j,
        None => {
            return None;
        },
    };
    let i2 = skip_ws_at(&v, i1);
    let i3 = match expect_lit(&v, i2, "\"corrected\"") {
        Some(j) => j,
        None => {
            return None;
        },
    };
    let i4 = skip_ws_at(&v, i3);
    let i5 = match expect_lit(&v, i4, ":") {
        Some(j) => j,
        None => {
            return None;
        },
    };
    let i6 = skip_ws_at(&v, i5);
    let (s, i7) = match parse_quoted(&v, i6) {
        Some(x) => x,
        None => {
            return None;
        },
    };
    let i8 = skip_ws_at(&v, i7);
    let i9 = match expect_lit(&v, i8, "}") {
        Some(j) => j,
        None => {
            return None;
        },
    };
    if i9 != v.len() {
        return None;
    }
    Some(crate::text::string_from_chars(&s))
}

/// When a whole text is exactly one reply object, it starts with the
/// opening brace and ends with the closing one.
pub proof fn lemma_corrected_shape(t: Seq<char>)
    requires
        take_corrected(t) is Some,
        (take_corrected(t)->0).1.len() == 0,
    ensures
        t.len() >= 2,
        t[0] == '{',
        t[t.len() - 1] == '}',
{
    reveal_strlit("{");
    reveal_strlit("\"corrected\"");
    reveal_strlit(":");
    reveal_strlit("}");
    let c1 = (take_lit("{"@, t))->0;
    assert(t.take("{"@.len() as int) == "{"@);
    assert("{"@.len() == 1);
    assert(t.take(1)[0] == t[0]);
    assert(t.take(1)[0] == "{"@[0]);
    assert(t[0] == '{');
    assert(c1 =~= t.skip(1));
    let w1 = skip_ws(c1);
    lemma_skip_ws_suffix(c1);
    let c2 = (take_lit("\"corrected\""@, w1))->0;
    let w2 = skip_ws(c2);
    lemma_skip_ws_suffix(c2);
    let c3 = (take_lit(":"@, w2))->0;
    let w3 = skip_ws(c3);
    lemma_skip_ws_suffix(c3);
    let c4 = (take_quoted(w3)->0).1;
    lemma_take_string_body_suffix(w3.skip(1));
    let w4 = skip_ws(c4);
    lemma_skip_ws_suffix(c4);
    let c5 = (take_lit("}"@, w4))->0;
    assert(w4.take("}"@.len() as int) == "}"@);
    assert("}"@.len() == 1);
    assert(w4.take(1)[0] == w4[0]);
    assert(w4.take(1)[0] == "}"@[0]);
    assert(w4[0] == '}');
    assert(c5 =~= w4.skip(1));
    assert(c5.len() == 0);
    assert(w4.len() == 1);
    // Each stage's remainder is a suffix of the whole text, so the
    // closing brace sits at the final position.
    let k1 = choose|k: int| 0 <= k <= c1.len() && w1 =~= #[trigger] c1.skip(k);
    assert(w1 =~= t.skip(1 + k1));
    let a2 = 1 + k1 + "\"corrected\""@.len();
    assert(c2 =~= t.skip(a2));
    let k2 = choose|k: int| 0 <= k <= c2.len() && w2 =~= #[trigger] c2.skip(k);
    assert(w2 =~= t.skip(a2 + k2));
    let a3 = a2 + k2 + 1;
    assert(c3 =~= t.skip(a3));
    let k3 = choose|k: int| 0 <= k <= c3.len() && w3 =~= #[trigger] c3.skip(k);
    assert(w3 =~= t.skip(a3 + k3));
    assert(w3.skip(1) =~= t.skip(a3 + k3 + 1));
    let kq = choose|k: int|
        0 <= k <= w3.skip(1).len() && (take_string_body(w3.skip(1))->0).1 =~= #[trigger] w3.skip(
            1,
        ).skip(k);
    assert(w3.skip(1).skip(kq) =~= t.skip(a3 + k3 + 1 + kq));
    assert(c4 =~= t.skip(a3 + k3 + 1 + kq));
    let k4 = choose|k: int| 0 <= k <= c4.len() && w4 =~= #[trigger] c4.skip(k);
    assert(w4 =~= t.skip(a3 + k3 + 1 + kq + k4));
    let p = a3 + k3 + 1 + kq + k4;
    assert(w4.len() == t.len() - p);
    assert(p == t.len() - 1);
    assert(t[t.len() - 1] == w4[0]);
}

/// A history record, by the contents of its fields: what the codec
/// preserves.
#[verifier::ext_equal]
pub ghost struct HistModel {
    pub id: Seq<char>,
    pub timestamp: Seq<char>,
    pub text: Seq<char>,
    pub duration_ms: u64,
}

/// The contents of a history record's fields.
pub open spec fn hist_model(it: crate::storage::HistoryItem) -> HistModel {
    HistModel {
        id: it.id@,
        timestamp: it.timestamp@,
        text: it.text@,
        duration_ms: it.duration_ms,
    }
}

/// The contents of a whole history, newest first.
pub open spec fn hist_models(items: Seq<crate::storage::HistoryItem>) -> Seq<HistModel> {
    items.map_values(|it: crate::storage::HistoryItem| hist_model(it))
}

/// One history record as the history file writes it.
pub open spec fn item_json(m: HistModel) -> Seq<char> {
    "{\n    \"id\": "@ + (quoted(m.id) + (",\n    \"timestamp\": "@ + (quoted(m.timestamp) + (
    ",\n    \"text\": "@ + (quoted(m.text) + (",\n    \"duration_ms\": "@ + (dec_rep(
        m.duration_ms as nat,
    ) + "\n  }"@)))))))
}

/// The records of a non-empty history, comma-separated, with the closing
/// bracket.
pub open spec fn items_json(items: Seq<crate::storage::HistoryItem>) -> Seq<char>
    decreases items.len(),
{
    if items.len() <= 1 {
        item_json(hist_model(items[0])) + "\n]"@
    } else {
        item_json(hist_model(items[0])) + (",\n  "@ + items_json(items.drop_first()))
    }
}

/// The history file: an array of records, newest first.
pub open spec fn history_json(items: Seq<crate::storage::HistoryItem>) -> Seq<char> {
    if items.len() == 0 {
        "[]"@
    } else {
        "[\n  "@ + items_json(items)
    }
}

/// Reading an unsigned number.
pub open spec fn take_u64(c: Seq<char>) -> Option<(u64, Seq<char>)> {
    let (d, r) = take_digits(c);
    if d.len() >= 1 && digits_val(d) <= u64::MAX {
        Some((digits_val(d) as u64, r))
    } else {
        None
    }
}

proof fn lemma_take_u64_rep(n: u64, rest: Seq<char>)
    requires
        rest.len() == 0 || !is_digit_char(rest[0]),
    ensures
        take_u64(dec_rep(n as nat) + rest) == Some((n, rest)),
{
    lemma_dec_rep_digits(n as nat);
    lemma_take_digits_concat(dec_rep(n as nat), rest);
    lemma_digits_val_dec_rep(n as nat);
}

/// Reading one history record.
pub open spec fn take_item(c: Seq<char>) -> Option<(HistModel, Seq<char>)> {
    match take_lit_quoted("{\n    \"id\": "@, c) {
        None => None,
        Some((id, c1)) => match take_lit_quoted(",\n    \"timestamp\": "@, c1) {
            None => None,
            Some((ts, c2)) => match take_lit_quoted(",\n    \"text\": "@, c2) {
                None => None,
                Some((tx, c3)) => match take_lit(",\n    \"duration_ms\": "@, c3) {
                    None => None,
                    Some(c4) => match take_u64(c4) {
                        None => None,
                        Some((d, c5)) => match take_lit("\n  }"@, c5) {
                            None => None,
                            Some(c6) => Some(
                                (HistModel { id, timestamp: ts, text: tx, duration_ms: d }, c6),
                            ),
                        },
                    },
                },
            },
        },
    }
}

/// Reading the records of a non-empty history, up to and including the
/// closing bracket.
pub open spec fn take_items(c: Seq<char>) -> Option<(Seq<HistModel>, Seq<char>)>
    decreases c.len(),
{
    match take_item(c) {
        None => None,
        Some((m, r1)) => match take_lit("\n]"@, r1) {
            Some(r2) => Some((seq![m], r2)),
            None => match take_lit(",\n  "@, r1) {
                None => None,
                Some(r2) => if r2.len() < c.len() {
                    match take_items(r2) {
                        None => None,
                        Some((ms, r3)) => Some((seq![m] + ms, r3)),
                    }
                } else {
                    None
                },
            },
        },
    }
}

/// Reading a whole history file.
pub open spec fn take_history(c: Seq<char>) -> Option<(Seq<HistModel>, Seq<char>)> {
    match take_lit("[]"@, c) {
        Some(r) => Some((Seq::empty(), r)),
        None => match take_lit("[\n  "@, c) {
            None => None,
            Some(r) => take_items(r),
        },
    }
}

proof fn lemma_take_item_json(m: HistModel, rest: Seq<char>)
    ensures
        take_item(item_json(m) + rest) == Some((m, rest)),
{
    reveal_strlit("\n  }");
    let s4 = "\n  }"@ + rest;
    let s3 = ",\n    \"duration_ms\": "@ + (dec_rep(m.duration_ms as nat) + s4);
    let s2 = ",\n    \"text\": "@ + (quoted(m.text) + s3);
    let s1 = ",\n    \"timestamp\": "@ + (quoted(m.timestamp) + s2);
    assert(item_json(m) + rest =~= "{\n    \"id\": "@ + (quoted(m.id) + s1));
    lemma_take_lit_quoted("{\n    \"id\": "@, m.id, s1);
    lemma_take_lit_quoted(",\n    \"timestamp\": "@, m.timestamp, s2);
    lemma_take_lit_quoted(",\n    \"text\": "@, m.text, s3);
    lemma_take_lit(",\n    \"duration_ms\": "@, dec_rep(m.duration_ms as nat) + s4);
    assert(s4[0] == '\n');
    assert(!is_digit_char(s4[0]));
    lemma_take_u64_rep(m.duration_ms, s4);
    lemma_take_lit("\n  }"@, rest);
}

proof fn lemma_take_items_json(items: Seq<crate::storage::HistoryItem>)
    requires
        items.len() >= 1,
    ensures
        take_items(items_json(items)) == Some((hist_models(items), Seq::<char>::empty())),
    decreases items.len(),
{
    reveal_strlit("\n]");
    reveal_strlit(",\n  ");
    let m0 = hist_model(items[0]);
    if items.len() == 1 {
        lemma_take_item_json(m0, "\n]"@);
        lemma_take_lit("\n]"@, Seq::<char>::empty());
        assert("\n]"@ =~= "\n]"@ + Seq::<char>::empty());
        assert(hist_models(items) =~= seq![m0]);
    } else {
        let tail = items.drop_first();
        let r1 = ",\n  "@ + items_json(tail);
        lemma_take_item_json(m0, r1);
        assert(take_item(items_json(items)) == Some((m0, r1)));
        if prefix_of("\n]"@, r1) {
            assert(r1.take(2)[0] == r1[0]);
            assert(r1[0] == ',');
            assert("\n]"@[0] == '\n');
            assert(false);
        }
        lemma_take_lit(",\n  "@, items_json(tail));
        lemma_take_items_json(tail);
        assert(items_json(tail).len() < items_json(items).len()) by {
            assert(items_json(items).len() == item_json(m0).len() + 4 + items_json(tail).len());
        }
        assert(hist_models(items) =~= seq![m0] + hist_models(tail));
    }
}

/// Writing a history and reading it back yields the original records —
/// every field content, in order — with nothing left over.
pub proof fn lemma_history_round_trip(items: Seq<crate::storage::HistoryItem>)
    ensures
        take_history(history_json(items)) == Some((hist_models(items), Seq::<char>::empty())),
{
    reveal_strlit("[]");
    reveal_strlit("[\n  ");
    if items.len() == 0 {
        lemma_take_lit("[]"@, Seq::<char>::empty());
        assert("[]"@ =~= "[]"@ + Seq::<char>::empty());
        assert(hist_models(items) =~= Seq::<HistModel>::empty());
    } else {
        let c = "[\n  "@ + items_json(items);
        if prefix_of("[]"@, c) {
            assert(c.take(2)[1] == c[1]);
            assert(c[1] == '\n');
            assert("[]"@[1] == ']');
            assert(false);
        }
        lemma_take_lit("[\n  "@, items_json(items));
        lemma_take_items_json(items);
    }
}

/// Append one history record to the output.
fn item_into(out: &mut Vec<char>, it: &crate::storage::HistoryItem)
    ensures
        final(out)@ == old(out)@ + item_json(hist_model(*it)),
{
    crate::text::push_str_chars(out, "{\n    \"id\": ");
    quoted_into(out, it.id.as_str());
    crate::text::push_str_chars(out, ",\n    \"timestamp\": ");
    quoted_into(out, it.timestamp.as_str());
    crate::text::push_str_chars(out, ",\n    \"text\": ");
    quoted_into(out, it.text.as_str());
    crate::text::push_str_chars(out, ",\n    \"duration_ms\": ");
    dec_into(out, it.duration_ms);
    crate::text::push_str_chars(out, "\n  }");
    proof {
        assert(final(out)@ =~= old(out)@ + item_json(hist_model(*it)));
    }
}

/// Append the records of a non-empty history from `idx` on.
fn items_into(out: &mut Vec<char>, items: &Vec<crate::storage::HistoryItem>, idx: usize)
    requires
        idx < items@.len(),
    ensures
        final(out)@ == old(out)@ + items_json(items@.skip(idx as int)),
    decreases items@.len() - idx,
{
    let n = items.len();
    item_into(out, &items[idx]);
    if idx + 1 == n {
        crate::text::push_str_chars(out, "\n]");
        proof {
            assert(items@.skip(idx as int)[0] == items@[idx as int]);
            assert(final(out)@ =~= old(out)@ + items_json(items@.skip(idx as int)));
        }
    } else {
        crate::text::push_str_chars(out, ",\n  ");
        items_into(out, items, idx + 1);
        proof {
            assert(items@.skip(idx as int)[0] == items@[idx as int]);
            assert(items@.skip(idx as int).drop_first() =~= items@.skip(idx + 1));
            assert(final(out)@ =~= old(out)@ + items_json(items@.skip(idx as int)));
        }
    }
}

/// Write a history as its JSON text, newest first.
pub fn history_to_json(items: &Vec<crate::storage::HistoryItem>) -> (r: String)
    ensures
        r@ == history_json(items@),
{
    if items.len() == 0 {
        let mut out: Vec<char> = Vec::new();
        crate::text::push_str_chars(&mut out, "[]");
        proof {
            assert(out@ =~= history_json(items@));
        }
        crate::text::string_from_chars(&out)
    } else {
        let mut out: Vec<char> = Vec::new();
        crate::text::push_str_chars(&mut out, "[\n  ");
        items_into(&mut out, items, 0);
        proof {
            assert(items@.skip(0) =~= items@);
            assert(out@ =~= history_json(items@));
        }
        crate::text::string_from_chars(&out)
    }
}

/// Read one history record at `i`.
fn parse_item(v: &Vec<char>, i: usize) -> (r: Option<(crate::storage::HistoryItem, usize)>)
    requires
        i <= v@.len(),
    ensures
        match take_item(v@.skip(i as int)) {
            None => r is None,
            Some((m, rest)) => {
                &&& (r matches Some((it, j)) && hist_model(it) == m && i <= j <= v@.len()
                    && v@.skip(j as int) == rest)
            },
        },
{
    let (id, i1) = match parse_lit_quoted(v, i, "{\n    \"id\": ") {
        Some(x) => x,
        None => {
            return None;
        },
    };
    let (ts, i2) = match parse_lit_quoted(v, i1, ",\n    \"timestamp\": ") {
        Some(x) => x,
        None => {
            return None;
        },
    };
    let (tx, i3) = match parse_lit_quoted(v, i2, ",\n    \"text\": ") {
        Some(x) => x,
        None => {
            return None;
        },
    };
    let i4 = match expect_lit(v, i3, ",\n    \"duration_ms\": ") {
        Some(x) => x,
        None => {
            return None;
        },
    };
    let (d, i5) = match parse_u64(v, i4) {
        Some(x) => x,
        None => {
            return None;
        },
    };
    let i6 = match expect_lit(v, i5, "\n  }") {
        Some(x) => x,
        None => {
            return None;
        },
    };
    let it = crate::storage::HistoryItem {
        id: crate::text::string_from_chars(&id),
        timestamp: crate::text::string_from_chars(&ts),
        text: crate::text::string_from_chars(&tx),
        duration_ms: d,
    };
    proof {
        assert(hist_model(it) =~~= (take_item(v@.skip(i as int))->0).0);
    }
    Some((it, i6))
}

/// Read the records of a non-empty history at `i`, closing bracket
/// included.
fn parse_items(v: &Vec<char>, i: usize) -> (r: Option<(Vec<crate::storage::HistoryItem>, usize)>)
    requires
        i <= v@.len(),
    ensures
        match take_items(v@.skip(i as int)) {
            None => r is None,
            Some((ms, rest)) => {
                &&& (r matches Some((its, j)) && hist_models(its@) == ms && i <= j <= v@.len()
                    && v@.skip(j as int) == rest)
            },
        },
    decreases v@.len() - i,
{
    let (it, j1) = match parse_item(v, i) {
        Some(x) => x,
        None => {
            return None;
        },
    };
    match expect_lit(v, j1, "\n]") {
        Some(j2) => {
            let mut its: Vec<crate::storage::HistoryItem> = Vec::new();
            its.push(it);
            proof {
                assert(hist_models(its@) =~= seq![hist_model(it)]);
            }
            Some((its, j2))
        },
        None => {
            let j2 = match expect_lit(v, j1, ",\n  ") {
                Some(x) => x,
                None => {
                    return None;
                },
            };
            proof {
                reveal_strlit(",\n  ");
                assert(v@.skip(j2 as int).len() < v@.skip(i as int).len());
            }
            match parse_items(v, j2) {
                Some((mut its, j3)) => {
                    its.insert(0, it);
                    proof {
                        assert(hist_models(its@) =~= seq![hist_model(it)] + hist_models(
                            its@.drop_first(),
                        ));
                    }
                    Some((its, j3))
                },
                None => None,
            }
        },
    }
}

/// Read a whole history back from its JSON text. Anything the reader
/// does not accept in full yields the empty history, as loading has
/// always done.
pub fn history_from_json(s: &str) -> (r: Vec<crate::storage::HistoryItem>)
    ensures
        ({
            match take_history(s@) {
                Some((ms, rest)) => if rest.len() == 0 {
                    hist_models(r@) == ms
                } else {
                    r@.len() == 0
                },
                None => r@.len() == 0,
            }
        }),
{
    let v = crate::text::chars_of(s);
    proof {
        assert(v@.skip(0) =~= s@);
    }
    match expect_lit(&v, 0, "[]") {
        Some(j) => {
            if j == v.len() {
                let its: Vec<crate::storage::HistoryItem> = Vec::new();
                proof {
                    assert(hist_models(its@) =~= Seq::<HistModel>::empty());
                }
                its
            } else {
                Vec::new()
            }
        },
        None => {
            let j = match expect_lit(&v, 0, "[\n  ") {
                Some(x) => x,
                None => {
                    return Vec::new();
                },
            };
            match parse_items(&v, j) {
                Some((its, j3)) => {
                    if j3 == v.len() {
                        its
                    } else {
                        Vec::new()
                    }
                },
                None => Vec::new(),
            }
        },
    }
}

} // verus!
