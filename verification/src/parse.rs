//! The command parser: splits one raw input line into the command keyword
//! and the remaining content, and splits a private message into its target
//! id and text.

use vstd::prelude::*;
use vstd::string::StringExecFns;
use crate::text::{chars_of, is_ws, is_ws_char, string_of};

verus! {

/// The keyword used when an input line names no command of its own.
pub fn broadcast_keyword() -> (r: &'static str)
    ensures
        r@ == "/broadcast"@,
{
    "/broadcast"
}

/// The input line with every trailing newline removed.
pub open spec fn trim_trailing_newlines(s: Seq<char>) -> Seq<char>
    decreases s.len(),
{
    if s.len() > 0 && s[s.len() - 1] == '\n' {
        trim_trailing_newlines(s.drop_last())
    } else {
        s
    }
}

/// The length of the leading run of non-whitespace characters.
pub open spec fn token_end(s: Seq<char>) -> int
    decreases s.len(),
{
    if s.len() == 0 {
        0
    } else if is_ws_char(s[0]) {
        0
    } else {
        1 + token_end(s.drop_first())
    }
}

/// The first whitespace-delimited token of the line.
pub open spec fn first_token(s: Seq<char>) -> Seq<char> {
    s.subrange(0, token_end(s))
}

/// The line with its leading space characters removed.
pub open spec fn skip_leading_spaces(s: Seq<char>) -> Seq<char>
    decreases s.len(),
{
    if s.len() > 0 && s[0] == ' ' {
        skip_leading_spaces(s.drop_first())
    } else {
        s
    }
}

/// The line with all leading whitespace removed.
pub open spec fn skip_leading_ws(s: Seq<char>) -> Seq<char>
    decreases s.len(),
{
    if s.len() > 0 && is_ws_char(s[0]) {
        skip_leading_ws(s.drop_first())
    } else {
        s
    }
}

/// What parsing an input line yields: the keyword and the content. A line
/// that starts with the command prefix contributes its first token as the
/// keyword; any other line falls to the broadcast keyword and is kept whole.
/// Either way the content loses its leading spaces, and trailing newlines
/// are dropped first.
pub open spec fn spec_parse_input(line: Seq<char>) -> (Seq<char>, Seq<char>) {
    let t = trim_trailing_newlines(line);
    if t.len() > 0 && t[0] == '/' {
        let kw = first_token(t);
        (kw, skip_leading_spaces(t.skip(kw.len() as int)))
    } else {
        ("/broadcast"@, skip_leading_spaces(t))
    }
}

/// What splitting a private message's content yields: the target id is the
/// first whitespace-delimited token, the text is what follows it less its
/// leading spaces. Content with no token at all yields nothing.
pub open spec fn spec_split_target(content: Seq<char>) -> Option<(Seq<char>, Seq<char>)> {
    let t = skip_leading_ws(content);
    if t.len() == 0 {
        Option::None
    } else {
        let target = first_token(t);
        Option::Some((target, skip_leading_spaces(t.skip(target.len() as int))))
    }
}

/// `token_end` is the unique boundary of the leading non-whitespace run.
proof fn lemma_token_end_unique(s: Seq<char>, i: int)
    requires
        0 <= i <= s.len(),
        forall|j: int| 0 <= j < i ==> !is_ws_char(s[j]),
        i < s.len() ==> is_ws_char(s[i]),
    ensures
        token_end(s) == i,
    decreases s.len(),
{
    if s.len() == 0 {
    } else if is_ws_char(s[0]) {
        assert(i == 0);
    } else {
        assert(i >= 1);
        lemma_token_end_unique(s.drop_first(), i - 1);
    }
}

/// `skip_leading_spaces` drops exactly the leading run of spaces.
proof fn lemma_skip_spaces_unique(s: Seq<char>, k: int)
    requires
        0 <= k <= s.len(),
        forall|j: int| 0 <= j < k ==> s[j] == ' ',
        k < s.len() ==> s[k] != ' ',
    ensures
        skip_leading_spaces(s) =~= s.skip(k),
    decreases s.len(),
{
    if s.len() > 0 && s[0] == ' ' {
        assert(k >= 1);
        lemma_skip_spaces_unique(s.drop_first(), k - 1);
        assert(s.drop_first().skip(k - 1) =~= s.skip(k));
    } else {
        assert(k == 0);
        assert(s.skip(0) =~= s);
    }
}

/// `skip_leading_ws` drops exactly the leading run of whitespace.
pub proof fn lemma_skip_ws_unique(s: Seq<char>, k: int)
    requires
        0 <= k <= s.len(),
        forall|j: int| 0 <= j < k ==> is_ws_char(s[j]),
        k < s.len() ==> !is_ws_char(s[k]),
    ensures
        skip_leading_ws(s) =~= s.skip(k),
    decreases s.len(),
{
    if s.len() > 0 && is_ws_char(s[0]) {
        assert(k >= 1);
        lemma_skip_ws_unique(s.drop_first(), k - 1);
        assert(s.drop_first().skip(k - 1) =~= s.skip(k));
    } else {
        assert(k == 0);
        assert(s.skip(0) =~= s);
    }
}

/// Skipping whitespace never grows a line.
pub proof fn lemma_skip_ws_le(s: Seq<char>)
    ensures
        skip_leading_ws(s).len() <= s.len(),
    decreases s.len(),
{
    if s.len() > 0 && is_ws_char(s[0]) {
        lemma_skip_ws_le(s.drop_first());
    }
}

/// Drops the trailing newlines of a character vector in place.
fn trim_newlines_vec(v: &mut Vec<char>)
    ensures
        final(v)@ == trim_trailing_newlines(old(v)@),
{
    while v.len() > 0 && v[v.len() - 1] == '\n'
        invariant
            trim_trailing_newlines(v@) == trim_trailing_newlines(old(v)@),
        decreases v@.len(),
    {
        proof {
            assert(v@.drop_last() =~= v@.subrange(0, v@.len() - 1));
        }
        v.pop();
    }
}

/// The index where the leading token of `v` ends.
fn find_token_end(v: &Vec<char>) -> (r: usize)
    ensures
        r as int == token_end(v@),
        r <= v@.len(),
{
    let mut i: usize = 0;
    while i < v.len() && !is_ws(v[i])
        invariant
            i <= v@.len(),
            forall|j: int| 0 <= j < i ==> !is_ws_char(v@[j]),
        decreases v@.len() - i,
    {
        i = i + 1;
    }
    proof {
        lemma_token_end_unique(v@, i as int);
    }
    i
}

/// The number of leading space characters of `v` from position `from`.
fn count_spaces_from(v: &Vec<char>, from: usize) -> (r: usize)
    requires
        from <= v@.len(),
    ensures
        from <= r <= v@.len(),
        forall|j: int| from <= j < r ==> v@[j] == ' ',
        r < v@.len() ==> v@[r as int] != ' ',
{
    let mut i: usize = from;
    while i < v.len() && v[i] == ' '
        invariant
            from <= i <= v@.len(),
            forall|j: int| from <= j < i ==> v@[j] == ' ',
        decreases v@.len() - i,
    {
        i = i + 1;
    }
    i
}

/// Copies `v[from..to]` into a fresh vector.
fn copy_range(v: &Vec<char>, from: usize, to: usize) -> (r: Vec<char>)
    requires
        from <= to <= v@.len(),
    ensures
        r@ == v@.subrange(from as int, to as int),
{
    let mut r: Vec<char> = Vec::new();
    let mut i: usize = from;
    while i < to
        invariant
            from <= i <= to <= v@.len(),
            r@ == v@.subrange(from as int, i as int),
        decreases to - i,
    {
        r.push(v[i]);
        i = i + 1;
        proof {
            assert(r@ =~= v@.subrange(from as int, i as int));
        }
    }
    r
}

/// Parses one raw input line into its keyword and its content, as
/// [`spec_parse_input`] states.
pub fn parse_input(input: &str) -> (r: (String, String))
    ensures
        r.0@ == spec_parse_input(input@).0,
        r.1@ == spec_parse_input(input@).1,
{
    let mut v = chars_of(input);
    trim_newlines_vec(&mut v);
    if v.len() > 0 && v[0] == '/' {
        let kw_end = find_token_end(&v);
        let kw = copy_range(&v, 0, kw_end);
        let content_start = count_spaces_from(&v, kw_end);
        let content = copy_range(&v, content_start, v.len());
        proof {
            let t = trim_trailing_newlines(input@);
            assert(first_token(t) =~= kw@);
            lemma_skip_spaces_unique(t.skip(kw_end as int), content_start - kw_end);
            assert(t.skip(kw_end as int).skip(content_start - kw_end) =~= t.skip(
                content_start as int,
            ));
            assert(content@ =~= t.skip(content_start as int));
        }
        (string_of(&kw), string_of(&content))
    } else {
        let content_start = count_spaces_from(&v, 0);
        let content = copy_range(&v, content_start, v.len());
        proof {
            let t = trim_trailing_newlines(input@);
            lemma_skip_spaces_unique(t, content_start as int);
            assert(content@ =~= t.skip(content_start as int));
        }
        (String::from_str(broadcast_keyword()), string_of(&content))
    }
}

/// The number of leading whitespace characters of `v`.
fn count_ws(v: &Vec<char>) -> (r: usize)
    ensures
        r <= v@.len(),
        forall|j: int| 0 <= j < r ==> is_ws_char(v@[j]),
        r < v@.len() ==> !is_ws_char(v@[r as int]),
{
    let mut i: usize = 0;
    while i < v.len() && is_ws(v[i])
        invariant
            i <= v@.len(),
            forall|j: int| 0 <= j < i ==> is_ws_char(v@[j]),
        decreases v@.len() - i,
    {
        i = i + 1;
    }
    i
}

/// Splits a private message's content into its target id and its text, as
/// [`spec_split_target`] states; content holding no token yields `None`.
pub fn split_target(content: &str) -> (r: Option<(String, String)>)
    ensures
        r matches Option::Some(p) ==> {
            &&& spec_split_target(content@) matches Option::Some(q) && p.0@ == q.0 && p.1@ == q.1
        },
        r is None <==> spec_split_target(content@) is None,
{
    let v = chars_of(content);
    let start = count_ws(&v);
    proof {
        lemma_skip_ws_unique(v@, start as int);
    }
    if start == v.len() {
        proof {
            assert(skip_leading_ws(v@).len() == 0);
        }
        return Option::None;
    }
    let t = copy_range(&v, start, v.len());
    let tgt_end = find_token_end(&t);
    let target = copy_range(&t, 0, tgt_end);
    let text_start = count_spaces_from(&t, tgt_end);
    let text = copy_range(&t, text_start, t.len());
    proof {
        let tt = skip_leading_ws(content@);
        assert(t@ =~= tt);
        assert(first_token(tt) =~= target@);
        lemma_skip_spaces_unique(tt.skip(tgt_end as int), text_start - tgt_end);
        assert(tt.skip(tgt_end as int).skip(text_start - tgt_end) =~= tt.skip(text_start as int));
        assert(text@ =~= tt.skip(text_start as int));
        assert(tt.len() > 0);
    }
    Option::Some((string_of(&target), string_of(&text)))
}

} // verus!
