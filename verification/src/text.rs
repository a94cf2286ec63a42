//! Character-level helpers shared by the parser and the JSON codec.
//!
//! All reasoning about text in this crate happens over `Seq<char>` views;
//! these functions move between `&str` / `String` and `Vec<char>` and compare
//! strings, each with an exact contract.

use vstd::prelude::*;

verus! {

/// Relies on `alloc::string::String::push`: appends exactly the given
/// character to the end of the string.
pub assume_specification[ String::push ](s: &mut String, c: char)
    ensures
        final(s)@ == old(s)@.push(c),
;

/// Relies on `char::from_u32`: yields the character with the given code
/// point exactly when the value is a Unicode scalar, and nothing otherwise.
pub assume_specification[ char::from_u32 ](u: u32) -> (r: Option<char>)
    ensures
        r is Some <==> vstd::utf8::is_scalar(u),
        r matches Option::Some(c) ==> c as u32 == u,
;

/// The whitespace characters recognized when splitting a command keyword
/// from the rest of an input line.
pub open spec fn is_ws_char(c: char) -> bool {
    c == ' ' || c == '\t' || c == '\n' || c == '\r'
}

/// Executable test for [`is_ws_char`].
pub fn is_ws(c: char) -> (r: bool)
    ensures
        r == is_ws_char(c),
{
    c == ' ' || c == '\t' || c == '\n' || c == '\r'
}

/// Collects the characters of a string slice into a vector.
pub fn chars_of(s: &str) -> (r: Vec<char>)
    ensures
        r@ == s@,
{
    let n = s.unicode_len();
    let mut r: Vec<char> = Vec::new();
    let mut i: usize = 0;
    while i < n
        invariant
            n == s@.len(),
            i <= n,
            r@ == s@.subrange(0, i as int),
        decreases n - i,
    {
        r.push(s.get_char(i));
        i = i + 1;
        proof {
            assert(r@ =~= s@.subrange(0, i as int));
        }
    }
    proof {
        assert(r@ =~= s@);
    }
    r
}

/// Builds an owned string out of a sequence of characters.
pub fn string_of(v: &Vec<char>) -> (r: String)
    ensures
        r@ == v@,
{
    let mut r = String::new();
    let mut i: usize = 0;
    while i < v.len()
        invariant
            i <= v@.len(),
            r@ == v@.subrange(0, i as int),
        decreases v@.len() - i,
    {
        r.push(v[i]);
        i = i + 1;
        proof {
            assert(r@ =~= v@.subrange(0, i as int));
        }
    }
    proof {
        assert(r@ =~= v@);
    }
    r
}

/// Character-wise equality of two string slices.
pub fn str_eq(a: &str, b: &str) -> (r: bool)
    ensures
        r == (a@ == b@),
{
    let na = a.unicode_len();
    let nb = b.unicode_len();
    if na != nb {
        return false;
    }
    let mut i: usize = 0;
    while i < na
        invariant
            na == a@.len(),
            na == b@.len(),
            i <= na,
            forall|j: int| 0 <= j < i ==> a@[j] == b@[j],
        decreases na - i,
    {
        if a.get_char(i) != b.get_char(i) {
            return false;
        }
        i = i + 1;
    }
    proof {
        assert(a@ =~= b@);
    }
    true
}

/// Equality of an owned string and a string slice.
pub fn string_eq_str(a: &String, b: &str) -> (r: bool)
    ensures
        r == (a@ == b@),
{
    str_eq(a.as_str(), b)
}

/// The larger of two numbers.
pub open spec fn max2(a: int, b: int) -> int {
    if a >= b {
        a
    } else {
        b
    }
}

/// Where the first line of `s` ends: at the first newline, or at the end.
pub open spec fn line_end(s: Seq<char>) -> nat
    decreases s.len(),
{
    if s.len() == 0 {
        0
    } else if s[0] == '\n' {
        0
    } else {
        1 + line_end(s.drop_first())
    }
}

/// A carriage return at the end of a line is dropped.
pub open spec fn strip_cr(s: Seq<char>) -> Seq<char> {
    if s.len() > 0 && s[s.len() - 1] == '\r' {
        s.drop_last()
    } else {
        s
    }
}

/// The lines of a string: split at newlines, with no empty last line for a
/// trailing newline, and carriage returns before newlines dropped.
pub open spec fn lines_of(s: Seq<char>) -> Seq<Seq<char>>
    decreases s.len(),
{
    if s.len() == 0 {
        Seq::<Seq<char>>::empty()
    } else {
        let k = line_end(s);
        if k >= s.len() {
            seq![strip_cr(s)]
        } else {
            seq![strip_cr(s.subrange(0, k as int))] + lines_of(s.skip(k as int + 1))
        }
    }
}

/// The length of the longest entry of a list of lines.
pub open spec fn max_line_len(ls: Seq<Seq<char>>) -> int
    decreases ls.len(),
{
    if ls.len() == 0 {
        0
    } else {
        max2(ls[0].len() as int, max_line_len(ls.drop_first()))
    }
}

/// A longest line length is never negative.
pub proof fn lemma_max_line_len_nonneg(ls: Seq<Seq<char>>)
    ensures
        max_line_len(ls) >= 0,
    decreases ls.len(),
{
    if ls.len() > 0 {
        lemma_max_line_len_nonneg(ls.drop_first());
    }
}

/// `line_end` is the unique boundary of the first line.
pub proof fn lemma_line_end_unique(s: Seq<char>, k: int)
    requires
        0 <= k <= s.len(),
        forall|j: int| 0 <= j < k ==> s[j] != '\n',
        k < s.len() ==> s[k] == '\n',
    ensures
        line_end(s) == k,
    decreases s.len(),
{
    if s.len() == 0 {
    } else if s[0] == '\n' {
        assert(k == 0);
    } else {
        assert(k >= 1);
        lemma_line_end_unique(s.drop_first(), k - 1);
    }
}

/// The length of the longest line of `s`, in characters.
pub fn longest_line_len(s: &str) -> (r: usize)
    ensures
        r as int == max_line_len(lines_of(s@)),
{
    let v = chars_of(s);
    let n = v.len();
    let mut best: usize = 0;
    let mut i: usize = 0;
    proof {
        assert(v@.skip(0) =~= v@);
        lemma_max_line_len_nonneg(lines_of(v@));
    }
    while i < n
        invariant
            n == v@.len(),
            v@ == s@,
            i <= n,
            max2(best as int, max_line_len(lines_of(v@.skip(i as int)))) == max_line_len(
                lines_of(v@),
            ),
        decreases n - i,
    {
        let ghost cur = v@.skip(i as int);
        let mut j: usize = i;
        while j < n && v[j] != '\n'
            invariant
                n == v@.len(),
                i <= j <= n,
                forall|m: int| i <= m < j ==> v@[m] != '\n',
            decreases n - j,
        {
            j = j + 1;
        }
        proof {
            lemma_line_end_unique(cur, j - i);
        }
        let mut linelen = j - i;
        if linelen > 0 && v[j - 1] == '\r' {
            linelen = linelen - 1;
        }
        if j == n {
            proof {
                assert(strip_cr(cur).len() == linelen) by {
                    if j - i > 0 {
                        assert(cur[cur.len() - 1] == v@[j - 1]);
                    }
                };
                assert(lines_of(cur) =~= seq![strip_cr(cur)]);
                assert(lines_of(cur).drop_first() =~= Seq::<Seq<char>>::empty());
            }
            if linelen > best {
                best = linelen;
            }
            i = n;
        } else {
            let ghost line = cur.subrange(0, (j - i) as int);
            proof {
                assert(line =~= v@.subrange(i as int, j as int));
                assert(strip_cr(line).len() == linelen) by {
                    if j - i > 0 {
                        assert(line[line.len() - 1] == v@[j - 1]);
                    }
                };
                assert(cur.skip((j - i) as int + 1) =~= v@.skip(j + 1));
                assert(lines_of(cur) == seq![strip_cr(line)] + lines_of(v@.skip(j + 1)));
                assert((seq![strip_cr(line)] + lines_of(v@.skip(j + 1)))[0] == strip_cr(line));
                assert((seq![strip_cr(line)] + lines_of(v@.skip(j + 1))).drop_first() =~= lines_of(
                    v@.skip(j + 1),
                ));
                lemma_max_line_len_nonneg(lines_of(v@.skip(j + 1)));
            }
            if linelen > best {
                best = linelen;
            }
            i = j + 1;
        }
    }
    proof {
        assert(v@.skip(n as int) =~= Seq::<char>::empty());
    }
    best
}

} // verus!
