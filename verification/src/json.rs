//! The wire codec: framing and checking of the JSON bodies that travel
//! between the client and the chat service.
//!
//! The grammar covered is the one the wire shapes use: flat objects whose
//! values are strings or integers, and arrays of such objects. Strings use
//! the escapes `\" \\ \/ \n \r \t \b \f`; the encoder emits the first five
//! and leaves every other character as it stands.

use vstd::prelude::*;
use crate::parse::skip_leading_ws;
use crate::text::is_ws_char;

verus! {

/// A field value of a flat JSON object. The wire shapes only read strings
/// and integers; booleans, nulls and nested objects or arrays are consumed
/// and kept as an unread compound so that unknown fields never spoil a
/// body.
pub enum JsonValue {
    Str(String),
    Int(i64),
    Bool(bool),
    Null,
    Compound,
}

/// The mathematical content of a [`JsonValue`].
pub enum JsonValView {
    Str(Seq<char>),
    Int(int),
    Bool(bool),
    Null,
    Compound,
}

impl View for JsonValue {
    type V = JsonValView;

    open spec fn view(&self) -> JsonValView {
        match self {
            JsonValue::Str(s) => JsonValView::Str(s@),
            JsonValue::Int(i) => JsonValView::Int(*i as int),
            JsonValue::Bool(b) => JsonValView::Bool(*b),
            JsonValue::Null => JsonValView::Null,
            JsonValue::Compound => JsonValView::Compound,
        }
    }
}

// ---------------------------------------------------------------------------
// Encoding
// ---------------------------------------------------------------------------

/// How one character is written inside a JSON string literal.
pub open spec fn esc_char(c: char) -> Seq<char> {
    if c == '"' {
        seq!['\\', '"']
    } else if c == '\\' {
        seq!['\\', '\\']
    } else if c == '\n' {
        seq!['\\', 'n']
    } else if c == '\r' {
        seq!['\\', 'r']
    } else if c == '\t' {
        seq!['\\', 't']
    } else {
        seq![c]
    }
}

/// The body of a JSON string literal: every character escaped as needed.
pub open spec fn escape(s: Seq<char>) -> Seq<char>
    decreases s.len(),
{
    if s.len() == 0 {
        Seq::<char>::empty()
    } else {
        esc_char(s[0]) + escape(s.drop_first())
    }
}

/// A whole JSON string literal, quotes included.
pub open spec fn quoted(s: Seq<char>) -> Seq<char> {
    seq!['"'] + escape(s) + seq!['"']
}

/// Escaping distributes over appending one character at the end.
pub proof fn lemma_escape_snoc(s: Seq<char>, c: char)
    ensures
        escape(s.push(c)) == escape(s) + esc_char(c),
    decreases s.len(),
{
    if s.len() == 0 {
        let p = s.push(c);
        assert(p[0] == c);
        assert(p.drop_first() =~= Seq::<char>::empty());
        assert(escape(p.drop_first()) =~= Seq::<char>::empty());
        assert(escape(p) =~= esc_char(c) + escape(p.drop_first()));
        assert(escape(p) =~= esc_char(c));
        assert(escape(s) =~= Seq::<char>::empty());
        assert(escape(s) + esc_char(c) =~= esc_char(c));
    } else {
        assert(s.push(c).drop_first() =~= s.drop_first().push(c));
        lemma_escape_snoc(s.drop_first(), c);
        assert(escape(s.push(c)) =~= escape(s) + esc_char(c));
    }
}

/// Appends the escaped form of one character to a character vector.
fn push_escaped(out: &mut Vec<char>, c: char)
    ensures
        final(out)@ == old(out)@ + esc_char(c),
{
    if c == '"' {
        out.push('\\');
        out.push('"');
    } else if c == '\\' {
        out.push('\\');
        out.push('\\');
    } else if c == '\n' {
        out.push('\\');
        out.push('n');
    } else if c == '\r' {
        out.push('\\');
        out.push('r');
    } else if c == '\t' {
        out.push('\\');
        out.push('t');
    } else {
        out.push(c);
    }
    proof {
        assert(out@ =~= old(out)@ + esc_char(c));
    }
}

/// Appends a whole JSON string literal for `s` to a character vector.
fn push_quoted(out: &mut Vec<char>, s: &Vec<char>)
    ensures
        final(out)@ == old(out)@ + quoted(s@),
{
    out.push('"');
    let ghost mark = out@;
    let mut i: usize = 0;
    while i < s.len()
        invariant
            i <= s@.len(),
            out@ == mark + escape(s@.subrange(0, i as int)),
        decreases s@.len() - i,
    {
        proof {
            lemma_escape_snoc(s@.subrange(0, i as int), s@[i as int]);
            assert(s@.subrange(0, i as int).push(s@[i as int]) =~= s@.subrange(0, i + 1));
        }
        push_escaped(out, s[i]);
        i = i + 1;
    }
    proof {
        assert(s@.subrange(0, s@.len() as int) =~= s@);
    }
    out.push('"');
    proof {
        assert(out@ =~= old(out)@ + quoted(s@));
    }
}

// ---------------------------------------------------------------------------
// Parsing: string literals
// ---------------------------------------------------------------------------

/// The character an escape letter stands for, if it is a recognized escape.
pub open spec fn unesc_char(c: char) -> Option<char> {
    if c == '"' {
        Option::Some('"')
    } else if c == '\\' {
        Option::Some('\\')
    } else if c == '/' {
        Option::Some('/')
    } else if c == 'n' {
        Option::Some('\n')
    } else if c == 'r' {
        Option::Some('\r')
    } else if c == 't' {
        Option::Some('\t')
    } else if c == 'b' {
        Option::Some('\u{0008}')
    } else if c == 'f' {
        Option::Some('\u{000C}')
    } else {
        Option::None
    }
}

/// Whether a character is a hexadecimal digit.
pub open spec fn is_hex_digit(c: char) -> bool {
    ||| 48 <= c as u32 <= 57
    ||| 97 <= c as u32 <= 102
    ||| 65 <= c as u32 <= 70
}

/// The numeric value of a hexadecimal digit.
pub open spec fn hex_val(c: char) -> int {
    if 48 <= c as u32 <= 57 {
        c as u32 - 48
    } else if 97 <= c as u32 <= 102 {
        c as u32 - 87
    } else {
        c as u32 - 55
    }
}

/// The code point four hexadecimal digits name.
pub open spec fn spec_hex4(a: char, b: char, c: char, d: char) -> int {
    hex_val(a) * 4096 + hex_val(b) * 256 + hex_val(c) * 16 + hex_val(d)
}

/// Parses the body of a string literal, the opening quote already consumed:
/// yields the decoded content and what follows the closing quote. A `\u`
/// escape carries four hexadecimal digits and must name a Unicode scalar;
/// a surrogate half is refused.
pub open spec fn spec_parse_string_body(s: Seq<char>) -> Option<(Seq<char>, Seq<char>)>
    decreases s.len(),
{
    if s.len() == 0 {
        Option::None
    } else if s[0] == '"' {
        Option::Some((Seq::<char>::empty(), s.drop_first()))
    } else if s[0] == '\\' {
        if s.len() < 2 {
            Option::None
        } else if s[1] == 'u' {
            if s.len() < 6 {
                Option::None
            } else if is_hex_digit(s[2]) && is_hex_digit(s[3]) && is_hex_digit(s[4])
                && is_hex_digit(s[5]) {
                let u = spec_hex4(s[2], s[3], s[4], s[5]);
                if vstd::utf8::is_scalar(u as u32) {
                    match spec_parse_string_body(s.skip(6)) {
                        Option::Some(p) => Option::Some((seq![(u as u32) as char] + p.0, p.1)),
                        Option::None => Option::None,
                    }
                } else {
                    Option::None
                }
            } else {
                Option::None
            }
        } else {
            match unesc_char(s[1]) {
                Option::Some(c) => match spec_parse_string_body(s.skip(2)) {
                    Option::Some(p) => Option::Some((seq![c] + p.0, p.1)),
                    Option::None => Option::None,
                },
                Option::None => Option::None,
            }
        }
    } else {
        match spec_parse_string_body(s.drop_first()) {
            Option::Some(p) => Option::Some((seq![s[0]] + p.0, p.1)),
            Option::None => Option::None,
        }
    }
}

/// Parses a whole string literal, opening quote included.
pub open spec fn spec_parse_string(s: Seq<char>) -> Option<(Seq<char>, Seq<char>)> {
    if s.len() > 0 && s[0] == '"' {
        spec_parse_string_body(s.drop_first())
    } else {
        Option::None
    }
}

/// What a string literal parse leaves behind is strictly shorter than what
/// it was given.
pub proof fn lemma_parse_string_body_shrinks(s: Seq<char>)
    ensures
        spec_parse_string_body(s) matches Option::Some(p) ==> p.1.len() < s.len(),
    decreases s.len(),
{
    if s.len() == 0 {
    } else if s[0] == '"' {
    } else if s[0] == '\\' {
        if s.len() >= 6 && s[1] == 'u' {
            lemma_parse_string_body_shrinks(s.skip(6));
        }
        if s.len() >= 2 && s[1] != 'u' {
            lemma_parse_string_body_shrinks(s.skip(2));
        }
    } else {
        lemma_parse_string_body_shrinks(s.drop_first());
    }
}

/// Executable test for [`is_hex_digit`].
fn is_hex(c: char) -> (r: bool)
    ensures
        r == is_hex_digit(c),
{
    let u = c as u32;
    (48 <= u && u <= 57) || (97 <= u && u <= 102) || (65 <= u && u <= 70)
}

/// Executable twin of [`hex_val`].
fn hex_value(c: char) -> (r: u32)
    requires
        is_hex_digit(c),
    ensures
        r as int == hex_val(c),
        r <= 15,
{
    let u = c as u32;
    if 48 <= u && u <= 57 {
        u - 48
    } else if 97 <= u && u <= 102 {
        u - 87
    } else {
        u - 55
    }
}

/// Executable twin of [`unesc_char`].
fn unescape_char(c: char) -> (r: Option<char>)
    ensures
        r == unesc_char(c),
{
    if c == '"' {
        Option::Some('"')
    } else if c == '\\' {
        Option::Some('\\')
    } else if c == '/' {
        Option::Some('/')
    } else if c == 'n' {
        Option::Some('\n')
    } else if c == 'r' {
        Option::Some('\r')
    } else if c == 't' {
        Option::Some('\t')
    } else if c == 'b' {
        Option::Some('\u{0008}')
    } else if c == 'f' {
        Option::Some('\u{000C}')
    } else {
        Option::None
    }
}

/// Parses a string literal body beginning at position `i` of `v`, as
/// [`spec_parse_string_body`] states on the remaining characters.
fn parse_string_body_at(v: &Vec<char>, i: usize) -> (r: Option<(Vec<char>, usize)>)
    requires
        i <= v@.len(),
    ensures
        match r {
            Option::Some(p) => {
                &&& spec_parse_string_body(v@.skip(i as int)) matches Option::Some(q) && q.0
                    == p.0@ && q.1 == v@.skip(p.1 as int)
                &&& i < p.1 <= v@.len()
            },
            Option::None => spec_parse_string_body(v@.skip(i as int)) is None,
        },
    decreases v@.len() - i,
{
    let ghost s = v@.skip(i as int);
    if i == v.len() {
        return Option::None;
    }
    let c0 = v[i];
    proof {
        assert(s[0] == c0);
    }
    if c0 == '"' {
        proof {
            assert(s.drop_first() =~= v@.skip(i + 1));
        }
        Option::Some((Vec::new(), i + 1))
    } else if c0 == '\\' {
        if i + 1 == v.len() {
            proof {
                assert(s.len() < 2);
            }
            return Option::None;
        }
        proof {
            assert(s.len() >= 2);
            assert(s[1] == v@[i + 1]);
        }
        if v[i + 1] == 'u' {
            if v.len() - i < 6 {
                proof {
                    assert(s.len() < 6);
                }
                return Option::None;
            }
            proof {
                assert(s.len() >= 6);
                assert(s[2] == v@[i + 2]);
                assert(s[3] == v@[i + 3]);
                assert(s[4] == v@[i + 4]);
                assert(s[5] == v@[i + 5]);
            }
            if !(is_hex(v[i + 2]) && is_hex(v[i + 3]) && is_hex(v[i + 4]) && is_hex(v[i + 5])) {
                return Option::None;
            }
            let u: u32 = hex_value(v[i + 2]) * 4096 + hex_value(v[i + 3]) * 256 + hex_value(
                v[i + 4],
            ) * 16 + hex_value(v[i + 5]);
            proof {
                assert(u as int == spec_hex4(s[2], s[3], s[4], s[5]));
                assert(u <= 0xFFFF);
            }
            if 0xD800 <= u && u <= 0xDFFF {
                proof {
                    assert(!vstd::utf8::is_scalar(u));
                }
                return Option::None;
            }
            proof {
                assert(vstd::utf8::is_scalar(u));
            }
            let c = match char::from_u32(u) {
                Option::Some(c) => c,
                Option::None => {
                    proof {
                        assert(false);
                    }
                    return Option::None;
                },
            };
            proof {
                vstd::utf8::char_u32_cast(c, u);
                assert(s.skip(6) =~= v@.skip(i + 6));
            }
            match parse_string_body_at(v, i + 6) {
                Option::None => Option::None,
                Option::Some((mut content, j)) => {
                    content.insert(0, c);
                    proof {
                        assert(content@ =~= seq![c] + content@.drop_first());
                    }
                    Option::Some((content, j))
                },
            }
        } else {
            proof {
                assert(s.skip(2) =~= v@.skip(i + 2));
            }
            match unescape_char(v[i + 1]) {
                Option::None => Option::None,
                Option::Some(c) => match parse_string_body_at(v, i + 2) {
                    Option::None => Option::None,
                    Option::Some((mut content, j)) => {
                        content.insert(0, c);
                        proof {
                            assert(content@ =~= seq![c] + content@.drop_first());
                        }
                        Option::Some((content, j))
                    },
                },
            }
        }
    } else {
        proof {
            assert(s.drop_first() =~= v@.skip(i + 1));
        }
        match parse_string_body_at(v, i + 1) {
            Option::None => Option::None,
            Option::Some((mut content, j)) => {
                content.insert(0, c0);
                proof {
                    assert(content@ =~= seq![c0] + content@.drop_first());
                }
                Option::Some((content, j))
            },
        }
    }
}

/// Parses a whole string literal beginning at position `i` of `v`, as
/// [`spec_parse_string`] states on the remaining characters.
fn parse_string_at(v: &Vec<char>, i: usize) -> (r: Option<(Vec<char>, usize)>)
    requires
        i <= v@.len(),
    ensures
        match r {
            Option::Some(p) => {
                &&& spec_parse_string(v@.skip(i as int)) matches Option::Some(q) && q.0 == p.0@
                    && q.1 == v@.skip(p.1 as int)
                &&& i < p.1 <= v@.len()
            },
            Option::None => spec_parse_string(v@.skip(i as int)) is None,
        },
    decreases v@.len() - i,
{
    let ghost s = v@.skip(i as int);
    if i == v.len() {
        return Option::None;
    }
    proof {
        assert(s[0] == v@[i as int]);
    }
    if v[i] != '"' {
        return Option::None;
    }
    proof {
        assert(s.drop_first() =~= v@.skip(i + 1));
    }
    parse_string_body_at(v, i + 1)
}

// ---------------------------------------------------------------------------
// Round trip for string literals
// ---------------------------------------------------------------------------

/// Parsing a string literal body that the encoder wrote gives back exactly
/// the text that was encoded, and leaves exactly what followed the literal.
pub proof fn lemma_escape_parse(s: Seq<char>, rest: Seq<char>)
    ensures
        spec_parse_string_body(escape(s) + seq!['"'] + rest) == Option::Some::<(Seq<char>, Seq<char>)>(
            (s, rest),
        ),
    decreases s.len(),
{
    if s.len() == 0 {
        let w = escape(s) + seq!['"'] + rest;
        assert(w =~= seq!['"'] + rest);
        assert(w[0] == '"');
        assert(w.drop_first() =~= rest);
    } else {
        let c = s[0];
        let tail = s.drop_first();
        lemma_escape_parse(tail, rest);
        let w = escape(s) + seq!['"'] + rest;
        let w2 = escape(tail) + seq!['"'] + rest;
        assert(escape(s) == esc_char(c) + escape(tail));
        if c == '"' || c == '\\' || c == '\n' || c == '\r' || c == '\t' {
            let l: char = if c == '"' {
                '"'
            } else if c == '\\' {
                '\\'
            } else if c == '\n' {
                'n'
            } else if c == '\r' {
                'r'
            } else {
                't'
            };
            assert(esc_char(c) =~= seq!['\\', l]);
            assert(w =~= seq!['\\', l] + w2);
            assert(w[0] == '\\');
            assert(w[1] == l);
            assert(unesc_char(l) == Option::Some(c));
            assert(w.skip(2) =~= w2);
            assert(seq![c] + tail =~= s);
        } else {
            assert(esc_char(c) =~= seq![c]);
            assert(w =~= seq![c] + w2);
            assert(w[0] == c);
            assert(w.drop_first() =~= w2);
            assert(seq![c] + tail =~= s);
        }
    }
}

/// Parsing a whole quoted literal that the encoder wrote gives back the
/// encoded text and what followed it.
pub proof fn lemma_quoted_parse(s: Seq<char>, rest: Seq<char>)
    ensures
        spec_parse_string(quoted(s) + rest) == Option::Some::<(Seq<char>, Seq<char>)>((s, rest)),
{
    let w = quoted(s) + rest;
    assert(w[0] == '"');
    assert(w.len() > 0);
    lemma_escape_parse(s, rest);
    assert(w.drop_first() =~= escape(s) + seq!['"'] + rest);
}

// ---------------------------------------------------------------------------
// Parsing: integers
// ---------------------------------------------------------------------------

/// Whether a character is a decimal digit.
pub open spec fn is_digit(c: char) -> bool {
    48 <= c as u32 <= 57
}

/// The numeric value of a decimal digit.
pub open spec fn digit_val(c: char) -> int {
    c as u32 - 48
}

/// The length of the leading run of decimal digits.
pub open spec fn digits_end(s: Seq<char>) -> int
    decreases s.len(),
{
    if s.len() == 0 {
        0
    } else if !is_digit(s[0]) {
        0
    } else {
        1 + digits_end(s.drop_first())
    }
}

/// The value of an all-digit character sequence, most significant first.
pub open spec fn digits_val(s: Seq<char>) -> int
    decreases s.len(),
{
    if s.len() == 0 {
        0
    } else {
        digits_val(s.drop_last()) * 10 + digit_val(s[s.len() - 1])
    }
}

/// Powers of ten.
pub open spec fn pow10(n: nat) -> int
    decreases n,
{
    if n == 0 {
        1
    } else {
        10 * pow10((n - 1) as nat)
    }
}

/// An all-digit sequence of length `n` has a value below the `n`-th power
/// of ten.
pub proof fn lemma_digits_val_bound(s: Seq<char>)
    requires
        forall|j: int| 0 <= j < s.len() ==> is_digit(s[j]),
    ensures
        0 <= digits_val(s) < pow10(s.len()),
    decreases s.len(),
{
    if s.len() > 0 {
        lemma_digits_val_bound(s.drop_last());
    }
}

/// `digits_end` is the unique boundary of the leading digit run.
pub proof fn lemma_digits_end_unique(s: Seq<char>, i: int)
    requires
        0 <= i <= s.len(),
        forall|j: int| 0 <= j < i ==> is_digit(s[j]),
        i < s.len() ==> !is_digit(s[i]),
    ensures
        digits_end(s) == i,
    decreases s.len(),
{
    if s.len() == 0 {
    } else if !is_digit(s[0]) {
        assert(i == 0);
    } else {
        assert(i >= 1);
        lemma_digits_end_unique(s.drop_first(), i - 1);
    }
}

/// The bound a digit run's length must stay under so that its value fits
/// the wire integer type.
pub open spec fn max_digits() -> int {
    18
}

/// Parses an optionally signed decimal integer: the leading digit run must
/// exist and must be short enough to fit the wire integer type.
pub open spec fn spec_parse_int(s: Seq<char>) -> Option<(int, Seq<char>)> {
    let neg = s.len() > 0 && s[0] == '-';
    let t = if neg {
        s.drop_first()
    } else {
        s
    };
    let k = digits_end(t);
    if k == 0 || k > max_digits() {
        Option::None
    } else {
        let m = digits_val(t.subrange(0, k));
        Option::Some((
            if neg {
                -m
            } else {
                m
            },
            t.skip(k),
        ))
    }
}

/// Splitting off the last digit splits the value.
pub proof fn lemma_digits_val_snoc(s: Seq<char>, c: char)
    ensures
        digits_val(s.push(c)) == digits_val(s) * 10 + digit_val(c),
{
    let p = s.push(c);
    assert(p.drop_last() =~= s);
    assert(p[p.len() - 1] == c);
}

/// Parses an optionally signed decimal integer at position `i`, as
/// [`spec_parse_int`] states on the remaining characters.
fn parse_int_at(v: &Vec<char>, i: usize) -> (r: Option<(i64, usize)>)
    requires
        i <= v@.len(),
    ensures
        match r {
            Option::Some(p) => {
                &&& spec_parse_int(v@.skip(i as int)) matches Option::Some(q) && q.0 == p.0 as int
                    && q.1 == v@.skip(p.1 as int)
                &&& i < p.1 <= v@.len()
            },
            Option::None => spec_parse_int(v@.skip(i as int)) is None,
        },
{
    let ghost s = v@.skip(i as int);
    let neg = i < v.len() && v[i] == '-';
    let start: usize = if neg {
        i + 1
    } else {
        i
    };
    let ghost t = v@.skip(start as int);
    proof {
        if neg {
            assert(s[0] == '-');
            assert(s.drop_first() =~= t);
        } else {
            if s.len() > 0 {
                assert(s[0] == v@[i as int]);
            }
        }
    }
    let mut j: usize = start;
    while j < v.len() && 48 <= v[j] as u32 && v[j] as u32 <= 57
        invariant
            start <= j <= v@.len(),
            forall|m: int| start <= m < j ==> is_digit(v@[m]),
        decreases v@.len() - j,
    {
        j = j + 1;
    }
    proof {
        assert(forall|m: int| 0 <= m < j - start ==> is_digit(t[m]));
        lemma_digits_end_unique(t, j - start);
    }
    let k = j - start;
    if k == 0 || k > 18 {
        return Option::None;
    }
    let ghost run = t.subrange(0, k as int);
    let mut acc: i64 = 0;
    let mut m: usize = start;
    while m < j
        invariant
            start <= m <= j <= v@.len(),
            j - start <= 18,
            run == t.subrange(0, (j - start) as int),
            t =~= v@.skip(start as int),
            forall|x: int| start <= x < j ==> is_digit(v@[x]),
            acc as int == digits_val(t.subrange(0, (m - start) as int)),
            0 <= acc,
            (acc as int) < pow10((m - start) as nat),
        decreases j - m,
    {
        let d = (v[m] as u32 - 48) as i64;
        proof {
            let pre = t.subrange(0, (m - start) as int);
            lemma_digits_val_snoc(pre, t[(m - start) as int]);
            assert(pre.push(t[(m - start) as int]) =~= t.subrange(0, (m - start) + 1));
            lemma_digits_val_bound(t.subrange(0, (m - start) + 1));
            assert(pow10((m + 1 - start) as nat) <= pow10(18)) by {
                lemma_pow10_mono((m + 1 - start) as nat, 18);
            }
            assert(pow10(18) == 1000000000000000000) by {
                reveal_with_fuel(pow10, 19);
            }
        }
        acc = acc * 10 + d;
        m = m + 1;
    }
    proof {
        assert(t.subrange(0, (j - start) as int) =~= run);
        assert(t.skip(k as int) =~= v@.skip(j as int));
    }
    if neg {
        Option::Some((-acc, j))
    } else {
        Option::Some((acc, j))
    }
}

/// Powers of ten grow with the exponent.
pub proof fn lemma_pow10_mono(a: nat, b: nat)
    requires
        a <= b,
    ensures
        pow10(a) <= pow10(b),
        pow10(a) >= 1,
    decreases b,
{
    if a < b {
        lemma_pow10_mono(a, (b - 1) as nat);
    } else if b > 0 {
        lemma_pow10_mono((a - 1) as nat, (b - 1) as nat);
    }
}

// ---------------------------------------------------------------------------
// Parsing: values, fields, objects
// ---------------------------------------------------------------------------

/// A named field of a flat JSON object.
pub struct JsonField {
    pub key: String,
    pub value: JsonValue,
}

/// The mathematical content of a [`JsonField`].
pub struct JsonFieldView {
    pub key: Seq<char>,
    pub value: JsonValView,
}

impl View for JsonField {
    type V = JsonFieldView;

    open spec fn view(&self) -> JsonFieldView {
        JsonFieldView { key: self.key@, value: self.value@ }
    }
}

/// The views of a sequence of fields.
pub open spec fn fields_view(v: Seq<JsonField>) -> Seq<JsonFieldView> {
    v.map_values(|f: JsonField| f@)
}

/// Parses one field value: a string or an integer is kept, and a boolean,
/// a null or a whole nested object or array is consumed into an unread
/// compound. The fuel bounds the work; any fuel of at least twice the
/// input length plus two gives the same answer.
pub open spec fn spec_parse_any(s: Seq<char>, fuel: nat) -> Option<(JsonValView, Seq<char>)>
    decreases fuel,
{
    if fuel == 0 {
        Option::None
    } else if s.len() == 0 {
        Option::None
    } else if s[0] == '"' {
        match spec_parse_string(s) {
            Option::Some(p) => Option::Some((JsonValView::Str(p.0), p.1)),
            Option::None => Option::None,
        }
    } else if s[0] == '{' {
        let u = s.drop_first();
        let w = skip_leading_ws(u);
        if w.len() > 0 && w[0] == '}' {
            Option::Some((JsonValView::Compound, w.drop_first()))
        } else {
            match spec_parse_fields(u, (fuel - 1) as nat) {
                Option::Some(p) => Option::Some((JsonValView::Compound, p.1)),
                Option::None => Option::None,
            }
        }
    } else if s[0] == '[' {
        let u = s.drop_first();
        let w = skip_leading_ws(u);
        if w.len() > 0 && w[0] == ']' {
            Option::Some((JsonValView::Compound, w.drop_first()))
        } else {
            match spec_parse_elements(u, (fuel - 1) as nat) {
                Option::Some(rest) => Option::Some((JsonValView::Compound, rest)),
                Option::None => Option::None,
            }
        }
    } else if s[0] == 't' {
        if s.len() >= 4 && s[1] == 'r' && s[2] == 'u' && s[3] == 'e' {
            Option::Some((JsonValView::Bool(true), s.skip(4)))
        } else {
            Option::None
        }
    } else if s[0] == 'f' {
        if s.len() >= 5 && s[1] == 'a' && s[2] == 'l' && s[3] == 's' && s[4] == 'e' {
            Option::Some((JsonValView::Bool(false), s.skip(5)))
        } else {
            Option::None
        }
    } else if s[0] == 'n' {
        if s.len() >= 4 && s[1] == 'u' && s[2] == 'l' && s[3] == 'l' {
            Option::Some((JsonValView::Null, s.skip(4)))
        } else {
            Option::None
        }
    } else {
        match spec_parse_int(s) {
            Option::Some(p) => Option::Some((JsonValView::Int(p.0), p.1)),
            Option::None => Option::None,
        }
    }
}

/// Parses the elements of a non-empty array after its `[`, up to and
/// including the closing `]`, yielding what follows. The fuel bounds the
/// work; any fuel of at least twice the input length plus three gives the
/// same answer.
pub open spec fn spec_parse_elements(s: Seq<char>, fuel: nat) -> Option<Seq<char>>
    decreases fuel,
{
    if fuel == 0 {
        Option::None
    } else {
        match spec_parse_any(skip_leading_ws(s), (fuel - 1) as nat) {
            Option::None => Option::None,
            Option::Some(p) => {
                let r2 = skip_leading_ws(p.1);
                if r2.len() == 0 {
                    Option::None
                } else if r2[0] == ']' {
                    Option::Some(r2.drop_first())
                } else if r2[0] == ',' {
                    spec_parse_elements(r2.drop_first(), (fuel - 1) as nat)
                } else {
                    Option::None
                }
            },
        }
    }
}

/// What a whole string literal parse leaves behind is at least two
/// characters shorter than its input.
pub proof fn lemma_parse_string_shrinks(s: Seq<char>)
    ensures
        spec_parse_string(s) matches Option::Some(p) ==> p.1.len() + 2 <= s.len(),
{
    if s.len() > 0 && s[0] == '"' {
        lemma_parse_string_body_shrinks(s.drop_first());
    }
}

/// The leading digit run lies inside the input.
pub proof fn lemma_digits_end_bounds(s: Seq<char>)
    ensures
        0 <= digits_end(s) <= s.len(),
    decreases s.len(),
{
    if s.len() > 0 && is_digit(s[0]) {
        lemma_digits_end_bounds(s.drop_first());
    }
}

/// What a value parse leaves behind is strictly shorter than its input.
pub proof fn lemma_parse_any_shrinks(s: Seq<char>, fuel: nat)
    ensures
        spec_parse_any(s, fuel) matches Option::Some(p) ==> p.1.len() < s.len(),
    decreases fuel,
{
    if fuel > 0 && s.len() > 0 {
        lemma_parse_string_shrinks(s);
        if s[0] == '{' || s[0] == '[' {
            let u = s.drop_first();
            crate::parse::lemma_skip_ws_le(u);
            lemma_parse_fields_shrinks(u, (fuel - 1) as nat);
            lemma_parse_elements_shrinks(u, (fuel - 1) as nat);
        }
        if s[0] == '-' {
            lemma_digits_end_bounds(s.drop_first());
        }
        lemma_digits_end_bounds(s);
    }
}

/// What an element list parse leaves behind is strictly shorter than its
/// input.
pub proof fn lemma_parse_elements_shrinks(s: Seq<char>, fuel: nat)
    ensures
        spec_parse_elements(s, fuel) matches Option::Some(rest) ==> rest.len() < s.len(),
    decreases fuel,
{
    if fuel > 0 {
        let t = skip_leading_ws(s);
        crate::parse::lemma_skip_ws_le(s);
        lemma_parse_any_shrinks(t, (fuel - 1) as nat);
        match spec_parse_any(t, (fuel - 1) as nat) {
            Option::None => {},
            Option::Some(p) => {
                let r2 = skip_leading_ws(p.1);
                crate::parse::lemma_skip_ws_le(p.1);
                if r2.len() > 0 && r2[0] == ',' {
                    lemma_parse_elements_shrinks(r2.drop_first(), (fuel - 1) as nat);
                }
            },
        }
    }
}

/// Whatever fuel a successful field parse got, it leaves a strictly
/// shorter remainder.
pub proof fn lemma_parse_fields_shrinks(s: Seq<char>, fuel: nat)
    ensures
        spec_parse_fields(s, fuel) matches Option::Some(p) ==> p.1.len() < s.len(),
    decreases fuel,
{
    if fuel > 0 {
        let t = skip_leading_ws(s);
        crate::parse::lemma_skip_ws_le(s);
        lemma_parse_string_shrinks(t);
        match spec_parse_string(t) {
            Option::None => {},
            Option::Some(kp) => {
                let r1 = kp.1;
                let r2 = skip_leading_ws(r1);
                crate::parse::lemma_skip_ws_le(r1);
                if r2.len() > 0 && r2[0] == ':' {
                    let vin = skip_leading_ws(r2.drop_first());
                    crate::parse::lemma_skip_ws_le(r2.drop_first());
                    lemma_parse_any_shrinks(vin, (fuel - 1) as nat);
                    match spec_parse_any(vin, (fuel - 1) as nat) {
                        Option::None => {},
                        Option::Some(vp) => {
                            let r4 = skip_leading_ws(vp.1);
                            crate::parse::lemma_skip_ws_le(vp.1);
                            if r4.len() > 0 && r4[0] == ',' {
                                lemma_parse_fields_shrinks(r4.drop_first(), (fuel - 1) as nat);
                            }
                        },
                    }
                }
            },
        }
    }
}

/// Parses the fields of an object after its `{`, up to and including the
/// closing `}`: a non-empty comma-separated list of `key: value` pairs.
/// The fuel bounds the work; any fuel of at least twice the input length
/// plus two gives the same answer.
pub open spec fn spec_parse_fields(s: Seq<char>, fuel: nat) -> Option<
    (Seq<JsonFieldView>, Seq<char>),
>
    decreases fuel,
{
    if fuel == 0 {
        Option::None
    } else {
        let t = skip_leading_ws(s);
        match spec_parse_string(t) {
            Option::None => Option::None,
            Option::Some((key, r1)) => {
                let r2 = skip_leading_ws(r1);
                if r2.len() == 0 || r2[0] != ':' {
                    Option::None
                } else {
                    match spec_parse_any(skip_leading_ws(r2.drop_first()), (fuel - 1) as nat) {
                        Option::None => Option::None,
                        Option::Some((value, r3)) => {
                            let r4 = skip_leading_ws(r3);
                            if r4.len() == 0 {
                                Option::None
                            } else if r4[0] == '}' {
                                Option::Some(
                                    (seq![JsonFieldView { key, value }], r4.drop_first()),
                                )
                            } else if r4[0] == ',' {
                                match spec_parse_fields(r4.drop_first(), (fuel - 1) as nat) {
                                    Option::None => Option::None,
                                    Option::Some((fs, rest)) => Option::Some(
                                        (seq![JsonFieldView { key, value }] + fs, rest),
                                    ),
                                }
                            } else {
                                Option::None
                            }
                        },
                    }
                }
            },
        }
    }
}

/// Parses a flat object, braces included: the empty object or a list of
/// fields.
pub open spec fn spec_parse_object(s: Seq<char>) -> Option<(Seq<JsonFieldView>, Seq<char>)> {
    let t = skip_leading_ws(s);
    if t.len() > 0 && t[0] == '{' {
        let u = t.drop_first();
        let w = skip_leading_ws(u);
        if w.len() > 0 && w[0] == '}' {
            Option::Some((Seq::<JsonFieldView>::empty(), w.drop_first()))
        } else {
            spec_parse_fields(u, (2 * u.len() + 2) as nat)
        }
    } else {
        Option::None
    }
}

/// Any fuel of at least twice the input length plus two gives the value
/// parser the same answer.
pub proof fn lemma_any_fuel_stable(s: Seq<char>, f1: nat, f2: nat)
    requires
        f1 >= 2 * s.len() + 2,
        f2 >= 2 * s.len() + 2,
    ensures
        spec_parse_any(s, f1) == spec_parse_any(s, f2),
    decreases s.len(), 0int,
{
    if s.len() > 0 {
        if s[0] == '{' {
            let u = s.drop_first();
            let w = skip_leading_ws(u);
            crate::parse::lemma_skip_ws_le(u);
            if !(w.len() > 0 && w[0] == '}') {
                lemma_fields_fuel_stable(u, (f1 - 1) as nat, (f2 - 1) as nat);
            }
        }
        if s[0] == '[' {
            let u = s.drop_first();
            let w = skip_leading_ws(u);
            crate::parse::lemma_skip_ws_le(u);
            if !(w.len() > 0 && w[0] == ']') {
                lemma_elements_fuel_stable(u, (f1 - 1) as nat, (f2 - 1) as nat);
            }
        }
    }
}

/// Any fuel of at least twice the input length plus three gives the array
/// element parser the same answer.
pub proof fn lemma_elements_fuel_stable(s: Seq<char>, f1: nat, f2: nat)
    requires
        f1 >= 2 * s.len() + 3,
        f2 >= 2 * s.len() + 3,
    ensures
        spec_parse_elements(s, f1) == spec_parse_elements(s, f2),
    decreases s.len(), 1int,
{
    let t = skip_leading_ws(s);
    crate::parse::lemma_skip_ws_le(s);
    lemma_any_fuel_stable(t, (f1 - 1) as nat, (f2 - 1) as nat);
    lemma_parse_any_shrinks(t, (f1 - 1) as nat);
    match spec_parse_any(t, (f1 - 1) as nat) {
        Option::None => {},
        Option::Some(p) => {
            let r2 = skip_leading_ws(p.1);
            crate::parse::lemma_skip_ws_le(p.1);
            if r2.len() > 0 && r2[0] == ',' {
                let s2 = r2.drop_first();
                assert(s2.len() < s.len());
                lemma_elements_fuel_stable(s2, (f1 - 1) as nat, (f2 - 1) as nat);
            }
        },
    }
}

/// Any fuel of at least twice the input length plus two gives the field
/// parser the same answer.
pub proof fn lemma_fields_fuel_stable(s: Seq<char>, f1: nat, f2: nat)
    requires
        f1 >= 2 * s.len() + 2,
        f2 >= 2 * s.len() + 2,
    ensures
        spec_parse_fields(s, f1) == spec_parse_fields(s, f2),
    decreases s.len(), 0int,
{
    let t = skip_leading_ws(s);
    crate::parse::lemma_skip_ws_le(s);
    lemma_parse_string_shrinks(t);
    match spec_parse_string(t) {
        Option::None => {},
        Option::Some(kp) => {
            let r1 = kp.1;
            let r2 = skip_leading_ws(r1);
            crate::parse::lemma_skip_ws_le(r1);
            if r2.len() > 0 && r2[0] == ':' {
                let vin = skip_leading_ws(r2.drop_first());
                crate::parse::lemma_skip_ws_le(r2.drop_first());
                lemma_any_fuel_stable(vin, (f1 - 1) as nat, (f2 - 1) as nat);
                lemma_parse_any_shrinks(vin, (f1 - 1) as nat);
                match spec_parse_any(vin, (f1 - 1) as nat) {
                    Option::None => {},
                    Option::Some(vp) => {
                        let r3 = vp.1;
                        let r4 = skip_leading_ws(r3);
                        crate::parse::lemma_skip_ws_le(r3);
                        if r4.len() > 0 && r4[0] == ',' {
                            let s2 = r4.drop_first();
                            assert(s2.len() < s.len());
                            lemma_fields_fuel_stable(s2, (f1 - 1) as nat, (f2 - 1) as nat);
                        }
                    },
                }
            }
        },
    }
}

/// Skips whitespace from position `i`, landing on the first position whose
/// character is not whitespace.
fn skip_ws_at(v: &Vec<char>, i: usize) -> (r: usize)
    requires
        i <= v@.len(),
    ensures
        i <= r <= v@.len(),
        skip_leading_ws(v@.skip(i as int)) == v@.skip(r as int),
        r < v@.len() ==> !is_ws_char(v@[r as int]),
{
    let mut j: usize = i;
    while j < v.len() && crate::text::is_ws(v[j])
        invariant
            i <= j <= v@.len(),
            forall|m: int| i <= m < j ==> is_ws_char(v@[m]),
        decreases v@.len() - j,
    {
        j = j + 1;
    }
    proof {
        crate::parse::lemma_skip_ws_unique(v@.skip(i as int), j - i);
        assert(v@.skip(i as int).skip(j - i) =~= v@.skip(j as int));
    }
    j
}

/// Parses one field value at position `i`, as [`spec_parse_any`] states
/// on the remaining characters.
fn parse_value_at(v: &Vec<char>, i: usize) -> (r: Option<(JsonValue, usize)>)
    requires
        i <= v@.len(),
    ensures
        match r {
            Option::Some(p) => {
                &&& spec_parse_any(v@.skip(i as int), (2 * (v@.len() - i) + 2) as nat)
                    matches Option::Some(q) && q.0 == p.0@ && q.1 == v@.skip(p.1 as int)
                &&& i < p.1 <= v@.len()
            },
            Option::None => spec_parse_any(v@.skip(i as int), (2 * (v@.len() - i) + 2) as nat)
                is None,
        },
    decreases v@.len() - i, 0int,
{
    let ghost s = v@.skip(i as int);
    let ghost fuel = (2 * (v@.len() - i) + 2) as nat;
    if i == v.len() {
        return Option::None;
    }
    proof {
        assert(s[0] == v@[i as int]);
    }
    let c0 = v[i];
    if c0 == '"' {
        match parse_string_at(v, i) {
            Option::None => Option::None,
            Option::Some((content, j)) => Option::Some(
                (JsonValue::Str(crate::text::string_of(&content)), j),
            ),
        }
    } else if c0 == '{' {
        proof {
            assert(s.drop_first() =~= v@.skip(i + 1));
        }
        let j1 = skip_ws_at(v, i + 1);
        if j1 < v.len() && v[j1] == '}' {
            proof {
                let w = skip_leading_ws(v@.skip(i + 1));
                assert(w[0] == v@[j1 as int]);
                assert(w.drop_first() =~= v@.skip(j1 + 1));
            }
            return Option::Some((JsonValue::Compound, j1 + 1));
        }
        proof {
            let w = skip_leading_ws(v@.skip(i + 1));
            if j1 < v@.len() {
                assert(w[0] == v@[j1 as int]);
            }
            lemma_fields_fuel_stable(
                v@.skip(i + 1),
                (2 * (v@.len() - (i + 1)) + 2) as nat,
                (fuel - 1) as nat,
            );
        }
        match parse_fields_at(v, i + 1) {
            Option::None => Option::None,
            Option::Some((_fields, j)) => Option::Some((JsonValue::Compound, j)),
        }
    } else if c0 == '[' {
        proof {
            assert(s.drop_first() =~= v@.skip(i + 1));
        }
        let j1 = skip_ws_at(v, i + 1);
        if j1 < v.len() && v[j1] == ']' {
            proof {
                let w = skip_leading_ws(v@.skip(i + 1));
                assert(w[0] == v@[j1 as int]);
                assert(w.drop_first() =~= v@.skip(j1 + 1));
            }
            return Option::Some((JsonValue::Compound, j1 + 1));
        }
        proof {
            let w = skip_leading_ws(v@.skip(i + 1));
            if j1 < v@.len() {
                assert(w[0] == v@[j1 as int]);
            }
            assert((fuel - 1) as nat == (2 * (v@.len() - (i + 1)) + 3) as nat);
        }
        match parse_elements_at(v, i + 1) {
            Option::None => Option::None,
            Option::Some(j) => Option::Some((JsonValue::Compound, j)),
        }
    } else if c0 == 't' {
        proof {
            if v@.len() - i >= 4 {
                assert(s[1] == v@[i + 1]);
                assert(s[2] == v@[i + 2]);
                assert(s[3] == v@[i + 3]);
                assert(s.skip(4) =~= v@.skip(i + 4));
            }
        }
        if v.len() - i >= 4 && v[i + 1] == 'r' && v[i + 2] == 'u' && v[i + 3] == 'e' {
            Option::Some((JsonValue::Bool(true), i + 4))
        } else {
            Option::None
        }
    } else if c0 == 'f' {
        proof {
            if v@.len() - i >= 5 {
                assert(s[1] == v@[i + 1]);
                assert(s[2] == v@[i + 2]);
                assert(s[3] == v@[i + 3]);
                assert(s[4] == v@[i + 4]);
                assert(s.skip(5) =~= v@.skip(i + 5));
            }
        }
        if v.len() - i >= 5 && v[i + 1] == 'a' && v[i + 2] == 'l' && v[i + 3] == 's' && v[i + 4]
            == 'e' {
            Option::Some((JsonValue::Bool(false), i + 5))
        } else {
            Option::None
        }
    } else if c0 == 'n' {
        proof {
            if v@.len() - i >= 4 {
                assert(s[1] == v@[i + 1]);
                assert(s[2] == v@[i + 2]);
                assert(s[3] == v@[i + 3]);
                assert(s.skip(4) =~= v@.skip(i + 4));
            }
        }
        if v.len() - i >= 4 && v[i + 1] == 'u' && v[i + 2] == 'l' && v[i + 3] == 'l' {
            Option::Some((JsonValue::Null, i + 4))
        } else {
            Option::None
        }
    } else {
        match parse_int_at(v, i) {
            Option::None => Option::None,
            Option::Some((n, j)) => Option::Some((JsonValue::Int(n), j)),
        }
    }
}

/// Parses the elements of a non-empty array at position `i`, the opening
/// bracket already consumed, as [`spec_parse_elements`] states on the
/// remaining characters at its canonical fuel.
fn parse_elements_at(v: &Vec<char>, i: usize) -> (r: Option<usize>)
    requires
        i <= v@.len(),
    ensures
        match r {
            Option::Some(j) => {
                &&& spec_parse_elements(v@.skip(i as int), (2 * (v@.len() - i) + 3) as nat)
                    == Option::Some(v@.skip(j as int))
                &&& i < j <= v@.len()
            },
            Option::None => spec_parse_elements(v@.skip(i as int), (2 * (v@.len() - i) + 3) as nat)
                is None,
        },
    decreases v@.len() - i, 1int,
{
    let ghost s = v@.skip(i as int);
    let ghost fuel = (2 * (v@.len() - i) + 3) as nat;
    let j0 = skip_ws_at(v, i);
    proof {
        lemma_any_fuel_stable(
            v@.skip(j0 as int),
            (2 * (v@.len() - j0) + 2) as nat,
            (fuel - 1) as nat,
        );
    }
    match parse_value_at(v, j0) {
        Option::None => Option::None,
        Option::Some((_value, j1)) => {
            let j2 = skip_ws_at(v, j1);
            if j2 == v.len() {
                return Option::None;
            }
            proof {
                let r2 = skip_leading_ws(v@.skip(j1 as int));
                assert(r2[0] == v@[j2 as int]);
                assert(r2.drop_first() =~= v@.skip(j2 + 1));
            }
            let c = v[j2];
            if c == ']' {
                Option::Some(j2 + 1)
            } else if c == ',' {
                proof {
                    lemma_elements_fuel_stable(
                        v@.skip(j2 + 1),
                        (2 * (v@.len() - (j2 + 1)) + 3) as nat,
                        (fuel - 1) as nat,
                    );
                }
                parse_elements_at(v, j2 + 1)
            } else {
                Option::None
            }
        },
    }
}

/// Parses the fields of an object at position `i`, the opening brace
/// already consumed, as [`spec_parse_fields`] states on the remaining
/// characters at its canonical fuel.
fn parse_fields_at(v: &Vec<char>, i: usize) -> (r: Option<(Vec<JsonField>, usize)>)
    requires
        i <= v@.len(),
    ensures
        match r {
            Option::Some(p) => {
                &&& spec_parse_fields(v@.skip(i as int), (2 * (v@.len() - i) + 2) as nat)
                    matches Option::Some(q) && q.0 == fields_view(p.0@) && q.1 == v@.skip(
                    p.1 as int,
                )
                &&& i < p.1 <= v@.len()
            },
            Option::None => spec_parse_fields(v@.skip(i as int), (2 * (v@.len() - i) + 2) as nat)
                is None,
        },
    decreases v@.len() - i, 0int,
{
    let ghost s = v@.skip(i as int);
    let ghost fuel = (2 * (v@.len() - i) + 2) as nat;
    let j0 = skip_ws_at(v, i);
    match parse_string_at(v, j0) {
        Option::None => Option::None,
        Option::Some((key, j1)) => {
            let j2 = skip_ws_at(v, j1);
            if j2 == v.len() || v[j2] != ':' {
                proof {
                    let r2 = skip_leading_ws(v@.skip(j1 as int));
                    if j2 < v@.len() {
                        assert(r2[0] == v@[j2 as int]);
                    }
                }
                return Option::None;
            }
            proof {
                assert(v@.skip(j2 as int).drop_first() =~= v@.skip(j2 + 1));
            }
            let j3 = skip_ws_at(v, j2 + 1);
            proof {
                lemma_any_fuel_stable(
                    v@.skip(j3 as int),
                    (2 * (v@.len() - j3) + 2) as nat,
                    (fuel - 1) as nat,
                );
            }
            match parse_value_at(v, j3) {
                Option::None => Option::None,
                Option::Some((value, j4)) => {
                    let j5 = skip_ws_at(v, j4);
                    if j5 == v.len() {
                        return Option::None;
                    }
                    proof {
                        let r4 = skip_leading_ws(v@.skip(j4 as int));
                        assert(r4[0] == v@[j5 as int]);
                        assert(r4.drop_first() =~= v@.skip(j5 + 1));
                    }
                    let c = v[j5];
                    if c == '}' {
                        let mut fs: Vec<JsonField> = Vec::new();
                        fs.push(JsonField { key: crate::text::string_of(&key), value });
                        proof {
                            assert(fields_view(fs@) =~= seq![fs@[0]@]);
                        }
                        Option::Some((fs, j5 + 1))
                    } else if c == ',' {
                        match parse_fields_at(v, j5 + 1) {
                            Option::None => {
                                proof {
                                    lemma_fields_fuel_stable(
                                        v@.skip(j5 + 1),
                                        (2 * (v@.len() - (j5 + 1)) + 2) as nat,
                                        (fuel - 1) as nat,
                                    );
                                }
                                Option::None
                            },
                            Option::Some((mut fs, j6)) => {
                                let field = JsonField { key: crate::text::string_of(&key), value };
                                fs.insert(0, field);
                                proof {
                                    lemma_fields_fuel_stable(
                                        v@.skip(j5 + 1),
                                        (2 * (v@.len() - (j5 + 1)) + 2) as nat,
                                        (fuel - 1) as nat,
                                    );
                                    assert(fs@.drop_first() =~= fs@.skip(1));
                                    assert(fields_view(fs@) =~= seq![fs@[0]@] + fields_view(
                                        fs@.drop_first(),
                                    ));
                                }
                                Option::Some((fs, j6))
                            },
                        }
                    } else {
                        Option::None
                    }
                },
            }
        },
    }
}

/// Parses a flat object at position `i`, as [`spec_parse_object`] states on
/// the remaining characters.
fn parse_object_at(v: &Vec<char>, i: usize) -> (r: Option<(Vec<JsonField>, usize)>)
    requires
        i <= v@.len(),
    ensures
        match r {
            Option::Some(p) => {
                &&& spec_parse_object(v@.skip(i as int)) matches Option::Some(q) && q.0
                    == fields_view(p.0@) && q.1 == v@.skip(p.1 as int)
                &&& i < p.1 <= v@.len()
            },
            Option::None => spec_parse_object(v@.skip(i as int)) is None,
        },
{
    let ghost s = v@.skip(i as int);
    let j0 = skip_ws_at(v, i);
    if j0 == v.len() || v[j0] != '{' {
        proof {
            let t = skip_leading_ws(s);
            if j0 < v@.len() {
                assert(t[0] == v@[j0 as int]);
            }
        }
        return Option::None;
    }
    proof {
        let t = skip_leading_ws(s);
        assert(t[0] == v@[j0 as int]);
        assert(t.drop_first() =~= v@.skip(j0 + 1));
    }
    let j1 = skip_ws_at(v, j0 + 1);
    if j1 < v.len() && v[j1] == '}' {
        proof {
            let w = skip_leading_ws(v@.skip(j0 + 1));
            assert(w[0] == v@[j1 as int]);
            assert(w.drop_first() =~= v@.skip(j1 + 1));
            assert(fields_view(Seq::<JsonField>::empty()) =~= Seq::<JsonFieldView>::empty());
        }
        return Option::Some((Vec::new(), j1 + 1));
    }
    proof {
        let w = skip_leading_ws(v@.skip(j0 + 1));
        if j1 < v@.len() {
            assert(w[0] == v@[j1 as int]);
        }
    }
    parse_fields_at(v, j0 + 1)
}

// ---------------------------------------------------------------------------
// Field lookup
// ---------------------------------------------------------------------------

/// The first field named `key`, if it holds a string.
pub open spec fn lookup_str(fields: Seq<JsonFieldView>, key: Seq<char>) -> Option<Seq<char>>
    decreases fields.len(),
{
    if fields.len() == 0 {
        Option::None
    } else if fields[0].key == key {
        match fields[0].value {
            JsonValView::Str(s) => Option::Some(s),
            _ => Option::None,
        }
    } else {
        lookup_str(fields.drop_first(), key)
    }
}

/// The first field named `key`, if it holds an integer.
pub open spec fn lookup_int(fields: Seq<JsonFieldView>, key: Seq<char>) -> Option<int>
    decreases fields.len(),
{
    if fields.len() == 0 {
        Option::None
    } else if fields[0].key == key {
        match fields[0].value {
            JsonValView::Int(n) => Option::Some(n),
            _ => Option::None,
        }
    } else {
        lookup_int(fields.drop_first(), key)
    }
}

/// Looks up the first field named `key` holding a string, as
/// [`lookup_str`] states.
fn lookup_str_field(fields: &Vec<JsonField>, key: &str) -> (r: Option<String>)
    ensures
        match r {
            Option::Some(s) => lookup_str(fields_view(fields@), key@) == Option::Some(s@),
            Option::None => lookup_str(fields_view(fields@), key@) is None,
        },
{
    let ghost all = fields_view(fields@);
    proof {
        assert(all.skip(0) =~= all);
    }
    let mut i: usize = 0;
    while i < fields.len()
        invariant
            i <= fields@.len(),
            all == fields_view(fields@),
            lookup_str(all.skip(i as int), key@) == lookup_str(all, key@),
        decreases fields@.len() - i,
    {
        proof {
            assert(all.skip(i as int)[0] == fields@[i as int]@);
            assert(all.skip(i as int).drop_first() =~= all.skip(i + 1));
        }
        if crate::text::string_eq_str(&fields[i].key, key) {
            match &fields[i].value {
                JsonValue::Str(s) => {
                    return Option::Some(s.clone());
                },
                _ => {
                    return Option::None;
                },
            }
        }
        i = i + 1;
    }
    proof {
        assert(all.skip(i as int) =~= Seq::<JsonFieldView>::empty());
    }
    Option::None
}

/// Looks up the first field named `key` holding an integer, as
/// [`lookup_int`] states.
fn lookup_int_field(fields: &Vec<JsonField>, key: &str) -> (r: Option<i64>)
    ensures
        match r {
            Option::Some(n) => lookup_int(fields_view(fields@), key@) == Option::Some(n as int),
            Option::None => lookup_int(fields_view(fields@), key@) is None,
        },
{
    let ghost all = fields_view(fields@);
    proof {
        assert(all.skip(0) =~= all);
    }
    let mut i: usize = 0;
    while i < fields.len()
        invariant
            i <= fields@.len(),
            all == fields_view(fields@),
            lookup_int(all.skip(i as int), key@) == lookup_int(all, key@),
        decreases fields@.len() - i,
    {
        proof {
            assert(all.skip(i as int)[0] == fields@[i as int]@);
            assert(all.skip(i as int).drop_first() =~= all.skip(i + 1));
        }
        if crate::text::string_eq_str(&fields[i].key, key) {
            match &fields[i].value {
                JsonValue::Int(n) => {
                    return Option::Some(*n);
                },
                _ => {
                    return Option::None;
                },
            }
        }
        i = i + 1;
    }
    proof {
        assert(all.skip(i as int) =~= Seq::<JsonFieldView>::empty());
    }
    Option::None
}

// ---------------------------------------------------------------------------
// The wire shapes
// ---------------------------------------------------------------------------

/// The canonical wire form of a command: the object
/// `{"name":…,"content":…,"plugin":…,"clientId":…}` with every value a
/// string literal.
pub open spec fn spec_message_json(m: crate::types::MessageView) -> Seq<char> {
    seq!['{'] + quoted("name"@) + seq![':'] + quoted(m.name) + seq![','] + quoted("content"@)
        + seq![':'] + quoted(m.content) + seq![','] + quoted("plugin"@) + seq![':'] + quoted(
        m.plugin,
    ) + seq![','] + quoted("clientId"@) + seq![':'] + quoted(m.client_id) + seq!['}']
}

/// Encodes a command for the wire, exactly as [`spec_message_json`] states.
pub fn encode_message(m: &crate::types::Message) -> (r: String)
    ensures
        r@ == spec_message_json(m@),
{
    let mut out: Vec<char> = Vec::new();
    out.push('{');
    push_quoted(&mut out, &crate::text::chars_of("name"));
    out.push(':');
    push_quoted(&mut out, &crate::text::chars_of(m.name.as_str()));
    out.push(',');
    push_quoted(&mut out, &crate::text::chars_of("content"));
    out.push(':');
    push_quoted(&mut out, &crate::text::chars_of(m.content.as_str()));
    out.push(',');
    push_quoted(&mut out, &crate::text::chars_of("plugin"));
    out.push(':');
    push_quoted(&mut out, &crate::text::chars_of(m.plugin.as_str()));
    out.push(',');
    push_quoted(&mut out, &crate::text::chars_of("clientId"));
    out.push(':');
    push_quoted(&mut out, &crate::text::chars_of(m.client_id.as_str()));
    out.push('}');
    proof {
        assert(out@ =~= spec_message_json(m@));
    }
    crate::text::string_of(&out)
}

/// Parses one whole JSON text as a flat object with nothing but whitespace
/// after it.
pub open spec fn spec_parse_document(s: Seq<char>) -> Option<Seq<JsonFieldView>> {
    match spec_parse_object(s) {
        Option::None => Option::None,
        Option::Some(p) => {
            if skip_leading_ws(p.1).len() == 0 {
                Option::Some(p.0)
            } else {
                Option::None
            }
        },
    }
}

/// What parsing a command from the wire yields: the four string fields,
/// whatever order they stand in.
pub open spec fn spec_parse_message(s: Seq<char>) -> Option<crate::types::MessageView> {
    match spec_parse_document(s) {
        Option::None => Option::None,
        Option::Some(fields) => {
            match lookup_str(fields, "name"@) {
                Option::None => Option::None,
                Option::Some(name) => match lookup_str(fields, "content"@) {
                    Option::None => Option::None,
                    Option::Some(content) => match lookup_str(fields, "plugin"@) {
                        Option::None => Option::None,
                        Option::Some(plugin) => match lookup_str(fields, "clientId"@) {
                            Option::None => Option::None,
                            Option::Some(client_id) => Option::Some(
                                crate::types::MessageView { name, content, plugin, client_id },
                            ),
                        },
                    },
                },
            }
        },
    }
}

/// What parsing a response from the wire yields: the object
/// `{clientId, name, content, errorString}`, whatever order its fields
/// stand in.
pub open spec fn spec_parse_response(s: Seq<char>) -> Option<crate::types::ResponseView> {
    match spec_parse_document(s) {
        Option::None => Option::None,
        Option::Some(fields) => {
            match lookup_str(fields, "clientId"@) {
                Option::None => Option::None,
                Option::Some(client_id) => match lookup_str(fields, "name"@) {
                    Option::None => Option::None,
                    Option::Some(rsp_name) => match lookup_str(fields, "content"@) {
                        Option::None => Option::None,
                        Option::Some(content) => match lookup_str(fields, "errorString"@) {
                            Option::None => Option::None,
                            Option::Some(err) => Option::Some(
                                crate::types::ResponseView { client_id, rsp_name, content, err },
                            ),
                        },
                    },
                },
            }
        },
    }
}

/// What parsing a group from the wire yields: the object
/// `{groupId, name, size}` with a size that fits the group type.
pub open spec fn spec_parse_group(s: Seq<char>) -> Option<crate::types::JsonGroupView> {
    match spec_parse_document(s) {
        Option::None => Option::None,
        Option::Some(fields) => {
            match lookup_str(fields, "groupId"@) {
                Option::None => Option::None,
                Option::Some(group_id) => match lookup_str(fields, "name"@) {
                    Option::None => Option::None,
                    Option::Some(name) => match lookup_int(fields, "size"@) {
                        Option::None => Option::None,
                        Option::Some(size) => {
                            if i32::MIN <= size <= i32::MAX {
                                Option::Some(
                                    crate::types::JsonGroupView { group_id, name, size },
                                )
                            } else {
                                Option::None
                            }
                        },
                    },
                },
            }
        },
    }
}

/// Parses one whole JSON text into its fields, as [`spec_parse_document`]
/// states.
fn parse_document(s: &str) -> (r: Option<Vec<JsonField>>)
    ensures
        match r {
            Option::Some(fields) => spec_parse_document(s@) == Option::Some(
                fields_view(fields@),
            ),
            Option::None => spec_parse_document(s@) is None,
        },
{
    let v = crate::text::chars_of(s);
    proof {
        assert(v@.skip(0) =~= v@);
    }
    match parse_object_at(&v, 0) {
        Option::None => Option::None,
        Option::Some((fields, j)) => {
            let j2 = skip_ws_at(&v, j);
            if j2 == v.len() {
                Option::Some(fields)
            } else {
                Option::None
            }
        },
    }
}

/// Parses a command from the wire, as [`spec_parse_message`] states.
pub fn parse_message(s: &str) -> (r: Option<crate::types::Message>)
    ensures
        match r {
            Option::Some(m) => spec_parse_message(s@) == Option::Some(m@),
            Option::None => spec_parse_message(s@) is None,
        },
{
    let fields = match parse_document(s) {
        Option::None => {
            return Option::None;
        },
        Option::Some(fields) => fields,
    };
    let name = match lookup_str_field(&fields, "name") {
        Option::None => {
            return Option::None;
        },
        Option::Some(x) => x,
    };
    let content = match lookup_str_field(&fields, "content") {
        Option::None => {
            return Option::None;
        },
        Option::Some(x) => x,
    };
    let plugin = match lookup_str_field(&fields, "plugin") {
        Option::None => {
            return Option::None;
        },
        Option::Some(x) => x,
    };
    let client_id = match lookup_str_field(&fields, "clientId") {
        Option::None => {
            return Option::None;
        },
        Option::Some(x) => x,
    };
    Option::Some(crate::types::Message { name, content, plugin, client_id })
}

/// Parses a response from the wire, as [`spec_parse_response`] states.
pub fn parse_response(s: &str) -> (r: Option<crate::types::Response>)
    ensures
        match r {
            Option::Some(rsp) => spec_parse_response(s@) == Option::Some(rsp@),
            Option::None => spec_parse_response(s@) is None,
        },
{
    let fields = match parse_document(s) {
        Option::None => {
            return Option::None;
        },
        Option::Some(fields) => fields,
    };
    let client_id = match lookup_str_field(&fields, "clientId") {
        Option::None => {
            return Option::None;
        },
        Option::Some(x) => x,
    };
    let rsp_name = match lookup_str_field(&fields, "name") {
        Option::None => {
            return Option::None;
        },
        Option::Some(x) => x,
    };
    let content = match lookup_str_field(&fields, "content") {
        Option::None => {
            return Option::None;
        },
        Option::Some(x) => x,
    };
    let err = match lookup_str_field(&fields, "errorString") {
        Option::None => {
            return Option::None;
        },
        Option::Some(x) => x,
    };
    Option::Some(crate::types::Response { client_id, rsp_name, content, err })
}

/// Parses a group from the wire, as [`spec_parse_group`] states.
pub fn parse_group(s: &str) -> (r: Option<crate::types::JsonGroup>)
    ensures
        match r {
            Option::Some(g) => spec_parse_group(s@) == Option::Some(g@),
            Option::None => spec_parse_group(s@) is None,
        },
{
    let fields = match parse_document(s) {
        Option::None => {
            return Option::None;
        },
        Option::Some(fields) => fields,
    };
    let group_id = match lookup_str_field(&fields, "groupId") {
        Option::None => {
            return Option::None;
        },
        Option::Some(x) => x,
    };
    let name = match lookup_str_field(&fields, "name") {
        Option::None => {
            return Option::None;
        },
        Option::Some(x) => x,
    };
    let size = match lookup_int_field(&fields, "size") {
        Option::None => {
            return Option::None;
        },
        Option::Some(n) => n,
    };
    if size < i32::MIN as i64 || size > i32::MAX as i64 {
        return Option::None;
    }
    Option::Some(crate::types::JsonGroup { group_id, name, size: size as i32 })
}

// ---------------------------------------------------------------------------
// Arrays of objects: the user list
// ---------------------------------------------------------------------------

/// A successful object parse leaves a strictly shorter remainder.
pub proof fn lemma_parse_object_shrinks(s: Seq<char>)
    ensures
        spec_parse_object(s) matches Option::Some(p) ==> p.1.len() < s.len(),
{
    let t = skip_leading_ws(s);
    crate::parse::lemma_skip_ws_le(s);
    if t.len() > 0 && t[0] == '{' {
        let u = t.drop_first();
        crate::parse::lemma_skip_ws_le(u);
        lemma_parse_fields_shrinks(u, (2 * u.len() + 2) as nat);
    }
}

/// Parses the elements of an object array after its `[`, up to and
/// including the closing `]`: a non-empty comma-separated list of flat
/// objects. The fuel bounds the number of elements; any fuel beyond the
/// input length gives the same answer.
pub open spec fn spec_parse_objects(s: Seq<char>, fuel: nat) -> Option<
    (Seq<Seq<JsonFieldView>>, Seq<char>),
>
    decreases fuel,
{
    if fuel == 0 {
        Option::None
    } else {
        match spec_parse_object(s) {
            Option::None => Option::None,
            Option::Some((fields, r1)) => {
                let r2 = skip_leading_ws(r1);
                if r2.len() == 0 {
                    Option::None
                } else if r2[0] == ']' {
                    Option::Some((seq![fields], r2.drop_first()))
                } else if r2[0] == ',' {
                    match spec_parse_objects(r2.drop_first(), (fuel - 1) as nat) {
                        Option::None => Option::None,
                        Option::Some((rest, r3)) => Option::Some((seq![fields] + rest, r3)),
                    }
                } else {
                    Option::None
                }
            },
        }
    }
}

/// Any fuel beyond the input length gives the array parser the same
/// answer.
pub proof fn lemma_objects_fuel_stable(s: Seq<char>, f1: nat, f2: nat)
    requires
        f1 >= s.len() + 1,
        f2 >= s.len() + 1,
    ensures
        spec_parse_objects(s, f1) == spec_parse_objects(s, f2),
    decreases s.len(),
{
    lemma_parse_object_shrinks(s);
    match spec_parse_object(s) {
        Option::None => {},
        Option::Some(p) => {
            let r2 = skip_leading_ws(p.1);
            crate::parse::lemma_skip_ws_le(p.1);
            if r2.len() > 0 && r2[0] == ',' {
                let s2 = r2.drop_first();
                assert(s2.len() < s.len());
                lemma_objects_fuel_stable(s2, (f1 - 1) as nat, (f2 - 1) as nat);
            }
        },
    }
}

/// Parses a whole array of flat objects, brackets included.
pub open spec fn spec_parse_array(s: Seq<char>) -> Option<(Seq<Seq<JsonFieldView>>, Seq<char>)> {
    let t = skip_leading_ws(s);
    if t.len() > 0 && t[0] == '[' {
        let u = t.drop_first();
        let w = skip_leading_ws(u);
        if w.len() > 0 && w[0] == ']' {
            Option::Some((Seq::<Seq<JsonFieldView>>::empty(), w.drop_first()))
        } else {
            spec_parse_objects(u, (u.len() + 1) as nat)
        }
    } else {
        Option::None
    }
}

/// Parses the elements of an object array at position `i`, the opening
/// bracket already consumed, as [`spec_parse_objects`] states at its
/// canonical fuel.
fn parse_objects_at(v: &Vec<char>, i: usize) -> (r: Option<(Vec<Vec<JsonField>>, usize)>)
    requires
        i <= v@.len(),
    ensures
        match r {
            Option::Some(p) => {
                &&& spec_parse_objects(v@.skip(i as int), (v@.len() - i + 1) as nat)
                    matches Option::Some(q) && q.0 == p.0@.map_values(
                    |fs: Vec<JsonField>| fields_view(fs@),
                ) && q.1 == v@.skip(p.1 as int)
                &&& i < p.1 <= v@.len()
            },
            Option::None => spec_parse_objects(v@.skip(i as int), (v@.len() - i + 1) as nat)
                is None,
        },
    decreases v@.len() - i,
{
    let ghost fuel = (v@.len() - i + 1) as nat;
    match parse_object_at(v, i) {
        Option::None => Option::None,
        Option::Some((fields, j1)) => {
            let j2 = skip_ws_at(v, j1);
            if j2 == v.len() {
                return Option::None;
            }
            proof {
                let r2 = skip_leading_ws(v@.skip(j1 as int));
                assert(r2[0] == v@[j2 as int]);
                assert(r2.drop_first() =~= v@.skip(j2 + 1));
            }
            let c = v[j2];
            if c == ']' {
                let mut out: Vec<Vec<JsonField>> = Vec::new();
                out.push(fields);
                proof {
                    assert(out@.map_values(|fs: Vec<JsonField>| fields_view(fs@)) =~= seq![
                        fields_view(out@[0]@),
                    ]);
                }
                Option::Some((out, j2 + 1))
            } else if c == ',' {
                match parse_objects_at(v, j2 + 1) {
                    Option::None => {
                        proof {
                            lemma_objects_fuel_stable(
                                v@.skip(j2 + 1),
                                (v@.len() - (j2 + 1) + 1) as nat,
                                (fuel - 1) as nat,
                            );
                        }
                        Option::None
                    },
                    Option::Some((mut rest, j3)) => {
                        rest.insert(0, fields);
                        proof {
                            lemma_objects_fuel_stable(
                                v@.skip(j2 + 1),
                                (v@.len() - (j2 + 1) + 1) as nat,
                                (fuel - 1) as nat,
                            );
                            let mv = rest@.map_values(|fs: Vec<JsonField>| fields_view(fs@));
                            assert(rest@.drop_first() =~= rest@.skip(1));
                            assert(mv =~= seq![fields_view(rest@[0]@)] + rest@.drop_first().map_values(
                                |fs: Vec<JsonField>| fields_view(fs@),
                            ));
                        }
                        Option::Some((rest, j3))
                    },
                }
            } else {
                Option::None
            }
        },
    }
}

/// The client row a flat object stands for, under the wire field names.
pub open spec fn spec_client_of_fields(fields: Seq<JsonFieldView>) -> Option<
    crate::types::JsonClientView,
> {
    match lookup_str(fields, "name"@) {
        Option::None => Option::None,
        Option::Some(name) => match lookup_str(fields, "callState"@) {
            Option::None => Option::None,
            Option::Some(call_state) => match lookup_str(fields, "clientId"@) {
                Option::None => Option::None,
                Option::Some(client_id) => match lookup_str(fields, "groupName"@) {
                    Option::None => Option::None,
                    Option::Some(group_name) => match lookup_str(fields, "groupId"@) {
                        Option::None => Option::None,
                        Option::Some(group_id) => Option::Some(
                            crate::types::JsonClientView {
                                name,
                                call_state,
                                client_id,
                                group_name,
                                group_id,
                            },
                        ),
                    },
                },
            },
        },
    }
}

/// The client rows a parsed array stands for; one malformed row spoils the
/// list.
pub open spec fn spec_clients_of(objs: Seq<Seq<JsonFieldView>>) -> Option<
    Seq<crate::types::JsonClientView>,
>
    decreases objs.len(),
{
    if objs.len() == 0 {
        Option::Some(Seq::<crate::types::JsonClientView>::empty())
    } else {
        match spec_client_of_fields(objs[0]) {
            Option::None => Option::None,
            Option::Some(c) => match spec_clients_of(objs.drop_first()) {
                Option::None => Option::None,
                Option::Some(rest) => Option::Some(seq![c] + rest),
            },
        }
    }
}

/// What parsing a user list from the wire yields: an array of client rows
/// with nothing but whitespace after it.
pub open spec fn spec_parse_clients(s: Seq<char>) -> Option<Seq<crate::types::JsonClientView>> {
    match spec_parse_array(s) {
        Option::None => Option::None,
        Option::Some(p) => {
            if skip_leading_ws(p.1).len() == 0 {
                spec_clients_of(p.0)
            } else {
                Option::None
            }
        },
    }
}

/// Reads one client row out of a parsed object, as
/// [`spec_client_of_fields`] states.
fn client_of_fields(fields: &Vec<JsonField>) -> (r: Option<crate::types::JsonClient>)
    ensures
        match r {
            Option::Some(c) => spec_client_of_fields(fields_view(fields@)) == Option::Some(c@),
            Option::None => spec_client_of_fields(fields_view(fields@)) is None,
        },
{
    let name = match lookup_str_field(fields, "name") {
        Option::None => {
            return Option::None;
        },
        Option::Some(x) => x,
    };
    let call_state = match lookup_str_field(fields, "callState") {
        Option::None => {
            return Option::None;
        },
        Option::Some(x) => x,
    };
    let client_id = match lookup_str_field(fields, "clientId") {
        Option::None => {
            return Option::None;
        },
        Option::Some(x) => x,
    };
    let group_name = match lookup_str_field(fields, "groupName") {
        Option::None => {
            return Option::None;
        },
        Option::Some(x) => x,
    };
    let group_id = match lookup_str_field(fields, "groupId") {
        Option::None => {
            return Option::None;
        },
        Option::Some(x) => x,
    };
    Option::Some(crate::types::JsonClient { name, call_state, client_id, group_name, group_id })
}

/// Parses a user list from the wire, as [`spec_parse_clients`] states.
pub fn parse_clients(s: &str) -> (r: Option<Vec<crate::types::JsonClient>>)
    ensures
        match r {
            Option::Some(cs) => spec_parse_clients(s@) == Option::Some(
                cs@.map_values(|c: crate::types::JsonClient| c@),
            ),
            Option::None => spec_parse_clients(s@) is None,
        },
{
    let v = crate::text::chars_of(s);
    proof {
        assert(v@.skip(0) =~= v@);
    }
    let j0 = skip_ws_at(&v, 0);
    if j0 == v.len() || v[j0] != '[' {
        proof {
            let t = skip_leading_ws(v@);
            if j0 < v@.len() {
                assert(t[0] == v@[j0 as int]);
            }
        }
        return Option::None;
    }
    proof {
        let t = skip_leading_ws(v@);
        assert(t[0] == v@[j0 as int]);
        assert(t.drop_first() =~= v@.skip(j0 + 1));
    }
    let j1 = skip_ws_at(&v, j0 + 1);
    let (objs, end): (Vec<Vec<JsonField>>, usize) = if j1 < v.len() && v[j1] == ']' {
        let empty_objs: Vec<Vec<JsonField>> = Vec::new();
        proof {
            let w = skip_leading_ws(v@.skip(j0 + 1));
            assert(w[0] == v@[j1 as int]);
            assert(w.drop_first() =~= v@.skip(j1 + 1));
            assert(empty_objs@.map_values(|fs: Vec<JsonField>| fields_view(fs@)) =~= Seq::<
                Seq<JsonFieldView>,
            >::empty());
        }
        (empty_objs, j1 + 1)
    } else {
        proof {
            let w = skip_leading_ws(v@.skip(j0 + 1));
            if j1 < v@.len() {
                assert(w[0] == v@[j1 as int]);
            }
        }
        match parse_objects_at(&v, j0 + 1) {
            Option::None => {
                return Option::None;
            },
            Option::Some(p) => p,
        }
    };
    let j2 = skip_ws_at(&v, end);
    if j2 != v.len() {
        proof {
            let rest = skip_leading_ws(v@.skip(end as int));
            assert(rest.len() == v@.len() - j2);
        }
        return Option::None;
    }
    let ghost objviews = objs@.map_values(|fs: Vec<JsonField>| fields_view(fs@));
    proof {
        assert(v@.skip(v@.len() as int) =~= Seq::<char>::empty());
        assert(spec_parse_clients(s@) == spec_clients_of(objviews));
    }
    let mut out: Vec<crate::types::JsonClient> = Vec::new();
    let mut i: usize = 0;
    proof {
        assert(objviews.skip(0) =~= objviews);
        assert(out@.map_values(|c: crate::types::JsonClient| c@) =~= Seq::<
            crate::types::JsonClientView,
        >::empty());
        lemma_clients_of_len(objviews);
        match spec_clients_of(objviews) {
            Option::Some(all) => {
                assert(all.subrange(0, 0) =~= Seq::<crate::types::JsonClientView>::empty());
            },
            Option::None => {},
        }
    }
    while i < objs.len()
        invariant
            i <= objs@.len(),
            objviews == objs@.map_values(|fs: Vec<JsonField>| fields_view(fs@)),
            spec_parse_clients(s@) == spec_clients_of(objviews),
            forall|j: int| 0 <= j < i ==> spec_client_of_fields(#[trigger] objviews[j]) is Some,
            spec_clients_of(objviews) matches Option::Some(all) ==> {
                &&& all.len() == objviews.len()
                &&& out@.map_values(|c: crate::types::JsonClient| c@) == all.subrange(0, i as int)
                &&& spec_clients_of(objviews.skip(i as int)) == Option::Some(
                    all.skip(i as int),
                )
            },
        decreases objs@.len() - i,
    {
        proof {
            assert(objviews.skip(i as int)[0] == objviews[i as int]);
            assert(objviews.skip(i as int).drop_first() =~= objviews.skip(i + 1));
        }
        match client_of_fields(&objs[i]) {
            Option::None => {
                proof {
                    assert(objviews[i as int] == fields_view(objs@[i as int]@));
                    lemma_clients_of_spoiled(objviews, i as int);
                }
                return Option::None;
            },
            Option::Some(c) => {
                out.push(c);
                proof {
                    match spec_clients_of(objviews) {
                        Option::Some(all) => {
                            assert(all.skip(i as int)[0] == c@);
                            assert(all.skip(i as int).drop_first() =~= all.skip(i + 1));
                            assert(out@.map_values(|x: crate::types::JsonClient| x@)
                                =~= all.subrange(0, i + 1));
                        },
                        Option::None => {},
                    }
                }
            },
        }
        i = i + 1;
    }
    proof {
        lemma_clients_of_total(objviews);
        match spec_clients_of(objviews) {
            Option::Some(all) => {
                assert(out@.map_values(|c: crate::types::JsonClient| c@) =~= all);
            },
            Option::None => {},
        }
    }
    Option::Some(out)
}

/// A parsed list has one row per object.
proof fn lemma_clients_of_len(objs: Seq<Seq<JsonFieldView>>)
    ensures
        spec_clients_of(objs) matches Option::Some(r) ==> r.len() == objs.len(),
    decreases objs.len(),
{
    if objs.len() > 0 {
        lemma_clients_of_len(objs.drop_first());
    }
}

/// A list whose every row is well formed parses as a whole.
proof fn lemma_clients_of_total(objs: Seq<Seq<JsonFieldView>>)
    requires
        forall|j: int| 0 <= j < objs.len() ==> spec_client_of_fields(#[trigger] objs[j]) is Some,
    ensures
        spec_clients_of(objs) is Some,
    decreases objs.len(),
{
    if objs.len() > 0 {
        assert(forall|j: int|
            0 <= j < objs.drop_first().len() ==> #[trigger] objs.drop_first()[j] == objs[j + 1]);
        lemma_clients_of_total(objs.drop_first());
    }
}

/// One malformed row spoils the whole list.
proof fn lemma_clients_of_spoiled(objs: Seq<Seq<JsonFieldView>>, j: int)
    requires
        0 <= j < objs.len(),
        spec_client_of_fields(objs[j]) is None,
    ensures
        spec_clients_of(objs) is None,
    decreases objs.len(),
{
    if objs.len() > 0 {
        if j == 0 {
        } else {
            assert(objs.drop_first()[j - 1] == objs[j]);
            lemma_clients_of_spoiled(objs.drop_first(), j - 1);
        }
    }
}

// ---------------------------------------------------------------------------
// Round trip for whole commands
// ---------------------------------------------------------------------------

/// Skipping whitespace does nothing when there is none to skip.
pub proof fn lemma_skip_ws_id(s: Seq<char>)
    requires
        s.len() == 0 || !is_ws_char(s[0]),
    ensures
        skip_leading_ws(s) == s,
{
}

/// Looking a key up walks past a field with another name.
proof fn lemma_lookup_str_miss(f: JsonFieldView, fs: Seq<JsonFieldView>, key: Seq<char>)
    requires
        f.key != key,
    ensures
        lookup_str(seq![f] + fs, key) == lookup_str(fs, key),
{
    assert((seq![f] + fs)[0] == f);
    assert((seq![f] + fs).drop_first() =~= fs);
}

/// Looking a key up finds the first field bearing it.
proof fn lemma_lookup_str_hit(f: JsonFieldView, fs: Seq<JsonFieldView>, key: Seq<char>)
    requires
        f.key == key,
    ensures
        lookup_str(seq![f] + fs, key) == match f.value {
            JsonValView::Str(s) => Option::Some(s),
            _ => Option::<Seq<char>>::None,
        },
{
    assert((seq![f] + fs)[0] == f);
}

/// Parsing the last field of a canonically encoded object consumes the
/// field and the closing brace.
proof fn lemma_parse_last_field(key: Seq<char>, val: Seq<char>, after: Seq<char>, fuel: nat)
    requires
        fuel >= 2,
    ensures
        spec_parse_fields(quoted(key) + seq![':'] + quoted(val) + seq!['}'] + after, fuel)
            == Option::Some(
            (seq![JsonFieldView { key, value: JsonValView::Str(val) }], after),
        ),
{
    let s = quoted(key) + seq![':'] + quoted(val) + seq!['}'] + after;
    assert(s[0] == '"');
    lemma_skip_ws_id(s);
    let rest1 = seq![':'] + quoted(val) + seq!['}'] + after;
    assert(s =~= quoted(key) + rest1);
    lemma_quoted_parse(key, rest1);
    assert(rest1[0] == ':');
    lemma_skip_ws_id(rest1);
    let vin = quoted(val) + seq!['}'] + after;
    assert(rest1.drop_first() =~= vin);
    assert(vin[0] == '"');
    lemma_skip_ws_id(vin);
    let rest2 = seq!['}'] + after;
    assert(vin =~= quoted(val) + rest2);
    lemma_quoted_parse(val, rest2);
    assert(spec_parse_any(vin, (fuel - 1) as nat) == Option::Some((
        JsonValView::Str(val),
        rest2,
    )));
    assert(rest2[0] == '}');
    lemma_skip_ws_id(rest2);
    assert(rest2.drop_first() =~= after);
}

/// Parsing one inner field of a canonically encoded object consumes the
/// field and its trailing comma, and prepends it to the later fields.
proof fn lemma_parse_field_step(
    key: Seq<char>,
    val: Seq<char>,
    s2: Seq<char>,
    fs: Seq<JsonFieldView>,
    rest: Seq<char>,
    fuel: nat,
)
    requires
        spec_parse_fields(s2, (2 * s2.len() + 2) as nat) == Option::Some((fs, rest)),
        fuel >= 2 * s2.len() + 3,
    ensures
        spec_parse_fields(quoted(key) + seq![':'] + quoted(val) + seq![','] + s2, fuel)
            == Option::Some(
            (seq![JsonFieldView { key, value: JsonValView::Str(val) }] + fs, rest),
        ),
{
    let s = quoted(key) + seq![':'] + quoted(val) + seq![','] + s2;
    assert(s[0] == '"');
    lemma_skip_ws_id(s);
    let rest1 = seq![':'] + quoted(val) + seq![','] + s2;
    assert(s =~= quoted(key) + rest1);
    lemma_quoted_parse(key, rest1);
    assert(rest1[0] == ':');
    lemma_skip_ws_id(rest1);
    let vin = quoted(val) + seq![','] + s2;
    assert(rest1.drop_first() =~= vin);
    assert(vin[0] == '"');
    lemma_skip_ws_id(vin);
    let rest2 = seq![','] + s2;
    assert(vin =~= quoted(val) + rest2);
    lemma_quoted_parse(val, rest2);
    assert(spec_parse_any(vin, (fuel - 1) as nat) == Option::Some((
        JsonValView::Str(val),
        rest2,
    )));
    assert(rest2[0] == ',');
    lemma_skip_ws_id(rest2);
    assert(rest2.drop_first() =~= s2);
    lemma_fields_fuel_stable(s2, (2 * s2.len() + 2) as nat, (fuel - 1) as nat);
}

/// Re-serializing a command and parsing it back yields identical fields.
pub proof fn lemma_message_json_round_trip(m: crate::types::MessageView)
    ensures
        spec_parse_message(spec_message_json(m)) == Option::Some(m),
{
    let w = spec_message_json(m);
    let f1 = JsonFieldView { key: "name"@, value: JsonValView::Str(m.name) };
    let f2 = JsonFieldView { key: "content"@, value: JsonValView::Str(m.content) };
    let f3 = JsonFieldView { key: "plugin"@, value: JsonValView::Str(m.plugin) };
    let f4 = JsonFieldView { key: "clientId"@, value: JsonValView::Str(m.client_id) };
    let s4 = quoted("clientId"@) + seq![':'] + quoted(m.client_id) + seq!['}']
        + Seq::<char>::empty();
    let s3 = quoted("plugin"@) + seq![':'] + quoted(m.plugin) + seq![','] + s4;
    let s2 = quoted("content"@) + seq![':'] + quoted(m.content) + seq![','] + s3;
    let s1 = quoted("name"@) + seq![':'] + quoted(m.name) + seq![','] + s2;
    lemma_parse_last_field(
        "clientId"@,
        m.client_id,
        Seq::<char>::empty(),
        (2 * s4.len() + 2) as nat,
    );
    lemma_parse_field_step(
        "plugin"@,
        m.plugin,
        s4,
        seq![f4],
        Seq::<char>::empty(),
        (2 * s3.len() + 2) as nat,
    );
    lemma_parse_field_step(
        "content"@,
        m.content,
        s3,
        seq![f3] + seq![f4],
        Seq::<char>::empty(),
        (2 * s2.len() + 2) as nat,
    );
    lemma_parse_field_step(
        "name"@,
        m.name,
        s2,
        seq![f2] + (seq![f3] + seq![f4]),
        Seq::<char>::empty(),
        (2 * s1.len() + 2) as nat,
    );
    assert(w[0] == '{');
    lemma_skip_ws_id(w);
    assert(w.drop_first() =~= s1);
    assert(s1[0] == '"');
    lemma_skip_ws_id(s1);
    let fields = seq![f1] + (seq![f2] + (seq![f3] + seq![f4]));
    assert(spec_parse_object(w) == Option::Some((fields, Seq::<char>::empty())));
    lemma_skip_ws_id(Seq::<char>::empty());
    assert(spec_parse_document(w) == Option::Some(fields));
    reveal_strlit("name");
    reveal_strlit("content");
    reveal_strlit("plugin");
    reveal_strlit("clientId");
    assert("name"@.len() == 4 && "content"@.len() == 7 && "plugin"@.len() == 6 && "clientId"@.len()
        == 8);
    let r2 = seq![f2] + (seq![f3] + seq![f4]);
    let r3 = seq![f3] + seq![f4];
    let r4 = seq![f4];
    lemma_lookup_str_hit(f1, r2, "name"@);
    lemma_lookup_str_miss(f1, r2, "content"@);
    lemma_lookup_str_hit(f2, r3, "content"@);
    lemma_lookup_str_miss(f1, r2, "plugin"@);
    lemma_lookup_str_miss(f2, r3, "plugin"@);
    lemma_lookup_str_hit(f3, r4, "plugin"@);
    lemma_lookup_str_miss(f1, r2, "clientId"@);
    lemma_lookup_str_miss(f2, r3, "clientId"@);
    lemma_lookup_str_miss(f3, r4, "clientId"@);
    assert(r4 =~= seq![f4] + Seq::<JsonFieldView>::empty());
    lemma_lookup_str_hit(f4, Seq::<JsonFieldView>::empty(), "clientId"@);
    assert(lookup_str(fields, "name"@) == Option::Some(m.name));
    assert(lookup_str(fields, "content"@) == Option::Some(m.content));
    assert(lookup_str(fields, "plugin"@) == Option::Some(m.plugin));
    assert(lookup_str(fields, "clientId"@) == Option::Some(m.client_id));
}

} // verus!
