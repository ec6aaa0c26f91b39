//! Character-level helpers: trimming, first-line extraction and
//! concatenation, each stated over `Seq<char>`.

use vstd::prelude::*;

verus! {

/// Whether `c` carries the Unicode `White_Space` property.
pub open spec fn is_space(c: char) -> bool {
    let n = c as u32;
    ||| 0x09 <= n <= 0x0D
    ||| n == 0x20
    ||| n == 0x85
    ||| n == 0xA0
    ||| n == 0x1680
    ||| 0x2000 <= n <= 0x200A
    ||| n == 0x2028
    ||| n == 0x2029
    ||| n == 0x202F
    ||| n == 0x205F
    ||| n == 0x3000
}

/// `s` without its trailing white space.
pub open spec fn trim_end(s: Seq<char>) -> Seq<char>
    decreases s.len(),
{
    if s.len() > 0 && is_space(s.last()) {
        trim_end(s.drop_last())
    } else {
        s
    }
}

/// `s` without its leading white space.
pub open spec fn trim_start(s: Seq<char>) -> Seq<char>
    decreases s.len(),
{
    if s.len() > 0 && is_space(s.first()) {
        trim_start(s.drop_first())
    } else {
        s
    }
}

/// `s` without leading and trailing white space.
pub open spec fn trim(s: Seq<char>) -> Seq<char> {
    trim_start(trim_end(s))
}

/// `s` without any of its trailing commas.
pub open spec fn strip_commas(s: Seq<char>) -> Seq<char>
    decreases s.len(),
{
    if s.len() > 0 && s.last() == ',' {
        strip_commas(s.drop_last())
    } else {
        s
    }
}

/// `s` without one trailing comma, if it ends in one.
pub open spec fn strip_one_comma(s: Seq<char>) -> Seq<char> {
    if s.len() > 0 && s.last() == ',' {
        s.drop_last()
    } else {
        s
    }
}

/// `s` without one trailing line feed, if it ends in one.
pub open spec fn strip_one_newline(s: Seq<char>) -> Seq<char> {
    if s.len() > 0 && s.last() == '\n' {
        s.drop_last()
    } else {
        s
    }
}

/// Number of characters that precede the first line feed of `s`
/// (all of them when `s` holds none).
pub open spec fn line_len(s: Seq<char>) -> nat
    decreases s.len(),
{
    if s.len() == 0 || s.first() == '\n' {
        0
    } else {
        1 + line_len(s.drop_first())
    }
}

/// The first line of `s`, without its terminator: the text before the first
/// line feed, less a carriage return that directly precedes that line feed.
pub open spec fn first_line(s: Seq<char>) -> Seq<char> {
    let n = line_len(s) as int;
    if n < s.len() && n > 0 && s[n - 1] == '\r' {
        s.take(n - 1)
    } else {
        s.take(n)
    }
}

/// The character sequences of a list of strings, in order.
pub open spec fn texts(v: Seq<String>) -> Seq<Seq<char>> {
    v.map_values(|s: String| s@)
}

/// The character sequence of an optional text.
pub open spec fn optional_text(text: Option<String>) -> Option<Seq<char>> {
    match text {
        Some(t) => Some(t@),
        None => None,
    }
}

/// Appending a string appends its characters to the list of texts.
pub proof fn lemma_texts_push(v: Seq<String>, s: String)
    ensures
        texts(v.push(s)) == texts(v).push(s@),
{
    assert(texts(v.push(s)) =~= texts(v).push(s@));
}

/// A position with no line feed before it, which holds a line feed or is the
/// end of `s`, is `line_len`.
pub proof fn lemma_line_len_unique(s: Seq<char>, n: int)
    requires
        0 <= n <= s.len(),
        forall|i: int| 0 <= i < n ==> s[i] != '\n',
        n < s.len() ==> s[n] == '\n',
    ensures
        line_len(s) == n,
    decreases s.len(),
{
    if s.len() == 0 || s.first() == '\n' {
        if n > 0 {
            assert(s[0] != '\n');
        }
    } else {
        let t = s.drop_first();
        assert(n > 0);
        assert forall|i: int| 0 <= i < n - 1 implies t[i] != '\n' by {
            assert(t[i] == s[i + 1]);
        }
        lemma_line_len_unique(t, n - 1);
    }
}

pub fn is_whitespace(c: char) -> (b: bool)
    ensures
        b == is_space(c),
{
    let n: u32 = c as u32;
    (0x09 <= n && n <= 0x0D) || n == 0x20 || n == 0x85 || n == 0xA0 || n == 0x1680 || (0x2000 <= n
        && n <= 0x200A) || n == 0x2028 || n == 0x2029 || n == 0x202F || n == 0x205F || n == 0x3000
}

/// Copies the characters `from..to` of `s` into a new string.
pub(crate) fn slice(s: &str, from: usize, to: usize) -> (r: String)
    requires
        from <= to <= s@.len(),
    ensures
        r@ == s@.subrange(from as int, to as int),
{
    s.substring_char(from, to).to_owned()
}

/// `a` followed by `b`.
pub fn appended(a: &str, b: &str) -> (r: String)
    ensures
        r@ == a@ + b@,
{
    let mut r = a.to_owned();
    r.append(b);
    r
}

/// Whether the two texts hold the same characters.
pub fn same_text(a: &str, b: &str) -> (r: bool)
    ensures
        r == (a@ == b@),
{
    let x = a.to_owned();
    let y = b.to_owned();
    x == y
}

pub fn trimmed(s: &str) -> (r: String)
    ensures
        r@ == trim(s@),
{
    let mut end: usize = s.unicode_len();
    assert(s@.take(end as int) == s@);
    while end > 0 && is_whitespace(s.get_char(end - 1))
        invariant
            end <= s@.len(),
            trim_end(s@) == trim_end(s@.take(end as int)),
        decreases end,
    {
        proof {
            let t = s@.take(end as int);
            assert(t.last() == s@[end - 1]);
            assert(t.drop_last() == s@.take(end - 1));
        }
        end = end - 1;
    }
    proof {
        let t = s@.take(end as int);
        if end > 0 {
            assert(t.last() == s@[end - 1]);
        }
        assert(trim_end(t) == t);
    }
    let mut start: usize = 0;
    while start < end && is_whitespace(s.get_char(start))
        invariant
            start <= end <= s@.len(),
            trim(s@) == trim_start(s@.subrange(start as int, end as int)),
        decreases end - start,
    {
        proof {
            let t = s@.subrange(start as int, end as int);
            assert(t.first() == s@[start as int]);
            assert(t.drop_first() == s@.subrange(start + 1, end as int));
        }
        start = start + 1;
    }
    proof {
        let t = s@.subrange(start as int, end as int);
        if start < end {
            assert(t.first() == s@[start as int]);
        }
        assert(trim_start(t) == t);
    }
    slice(s, start, end)
}

pub fn without_trailing_commas(s: &str) -> (r: String)
    ensures
        r@ == strip_commas(s@),
{
    let mut end: usize = s.unicode_len();
    assert(s@.take(end as int) == s@);
    while end > 0 && s.get_char(end - 1) == ','
        invariant
            end <= s@.len(),
            strip_commas(s@) == strip_commas(s@.take(end as int)),
        decreases end,
    {
        proof {
            let t = s@.take(end as int);
            assert(t.last() == s@[end - 1]);
            assert(t.drop_last() == s@.take(end - 1));
        }
        end = end - 1;
    }
    proof {
        let t = s@.take(end as int);
        if end > 0 {
            assert(t.last() == s@[end - 1]);
        }
        assert(strip_commas(t) == t);
    }
    slice(s, 0, end)
}

pub fn without_one_trailing(s: &str, c: char) -> (r: String)
    ensures
        r@ == if s@.len() > 0 && s@.last() == c {
            s@.drop_last()
        } else {
            s@
        },
{
    let n: usize = s.unicode_len();
    if n > 0 && s.get_char(n - 1) == c {
        slice(s, 0, n - 1)
    } else {
        proof {
            assert(s@.subrange(0, n as int) == s@);
        }
        slice(s, 0, n)
    }
}

pub fn leading_line(s: &str) -> (r: String)
    ensures
        r@ == first_line(s@),
{
    let n: usize = s.unicode_len();
    let mut i: usize = 0;
    while i < n && s.get_char(i) != '\n'
        invariant
            i <= n == s@.len(),
            forall|j: int| 0 <= j < i ==> s@[j] != '\n',
        decreases n - i,
    {
        i = i + 1;
    }
    proof {
        lemma_line_len_unique(s@, i as int);
    }
    if i < n && i > 0 && s.get_char(i - 1) == '\r' {
        slice(s, 0, i - 1)
    } else {
        slice(s, 0, i)
    }
}

} // verus!
