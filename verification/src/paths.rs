//! File-name arithmetic on `/`-separated paths: splitting a path into
//! directory, stem and extension, and building the derived names the intake
//! needs (stamped names, sidecars, log files).

use crate::text::{appended, same_text, slice};
use vstd::prelude::*;

verus! {

/// Position of the last `c` in `s`, or `-1` when `s` holds none.
pub open spec fn last_index_of(s: Seq<char>, c: char) -> int
    decreases s.len(),
{
    if s.len() == 0 {
        -1
    } else if s.last() == c {
        s.len() - 1
    } else {
        last_index_of(s.drop_last(), c)
    }
}

/// The final component of `p`: what follows its last `/`.
pub open spec fn base_name(p: Seq<char>) -> Seq<char> {
    p.skip(last_index_of(p, '/') + 1)
}

/// `p` up to and including its last `/` (empty when it has none).
pub open spec fn dir_prefix(p: Seq<char>) -> Seq<char> {
    p.take(last_index_of(p, '/') + 1)
}

/// The directory that holds `p`: what precedes its last `/`, the root for a
/// file directly under it, and the empty path for a bare file name.
pub open spec fn dir_name(p: Seq<char>) -> Seq<char> {
    let i = last_index_of(p, '/');
    if i < 0 {
        Seq::empty()
    } else if i == 0 {
        p.take(1)
    } else {
        p.take(i)
    }
}

/// Whether the file name `name` has an extension: a `.` that is not its
/// first character.
pub open spec fn has_extension(name: Seq<char>) -> bool {
    last_index_of(name, '.') > 0
}

/// `name` without its extension and the `.` before it.
pub open spec fn stem(name: Seq<char>) -> Seq<char> {
    if has_extension(name) {
        name.take(last_index_of(name, '.'))
    } else {
        name
    }
}

/// What follows the last `.` of `name` (empty when it has no extension).
pub open spec fn extension(name: Seq<char>) -> Seq<char> {
    if has_extension(name) {
        name.skip(last_index_of(name, '.') + 1)
    } else {
        Seq::empty()
    }
}

/// Whether `p` names a CSV file: its final component has the extension `csv`.
pub open spec fn is_csv_path(p: Seq<char>) -> bool {
    has_extension(base_name(p)) && extension(base_name(p)) == seq!['c', 's', 'v']
}

/// `name` placed in directory `dir`.
pub open spec fn join(dir: Seq<char>, name: Seq<char>) -> Seq<char> {
    if dir.len() == 0 {
        name
    } else if dir.last() == '/' {
        dir + name
    } else {
        dir + seq!['/'] + name
    }
}

/// `p` with `_` and `stamp` inserted between the stem and the extension of
/// its final component.
pub open spec fn with_stamp(p: Seq<char>, stamp: Seq<char>) -> Seq<char> {
    let name = base_name(p);
    let stamped = dir_prefix(p) + stem(name) + seq!['_'] + stamp;
    if has_extension(name) {
        stamped + seq!['.'] + extension(name)
    } else {
        stamped
    }
}

/// The file name `name` with `_` and `stamp` inserted between its stem and
/// its extension.
pub open spec fn stamped_name(name: Seq<char>, stamp: Seq<char>) -> Seq<char> {
    let stamped = stem(name) + seq!['_'] + stamp;
    if has_extension(name) {
        stamped + seq!['.'] + extension(name)
    } else {
        stamped
    }
}

/// What `last_index_of` returns is the position of an occurrence with none
/// after it.
pub proof fn lemma_last_index_of(s: Seq<char>, c: char)
    ensures
        -1 <= last_index_of(s, c) < s.len(),
        last_index_of(s, c) >= 0 ==> s[last_index_of(s, c)] == c,
        forall|i: int| last_index_of(s, c) < i < s.len() ==> s[i] != c,
    decreases s.len(),
{
    if s.len() > 0 && s.last() != c {
        let t = s.drop_last();
        lemma_last_index_of(t, c);
        assert forall|i: int| last_index_of(s, c) < i < s.len() implies s[i] != c by {
            if i < t.len() {
                assert(s[i] == t[i]);
            }
        }
        if last_index_of(s, c) >= 0 {
            assert(s[last_index_of(s, c)] == t[last_index_of(t, c)]);
        }
    }
}

/// A position with the properties of `lemma_last_index_of` is
/// `last_index_of`.
pub proof fn lemma_last_index_of_unique(s: Seq<char>, c: char, k: int)
    requires
        -1 <= k < s.len(),
        k >= 0 ==> s[k] == c,
        forall|i: int| k < i < s.len() ==> s[i] != c,
    ensures
        last_index_of(s, c) == k,
    decreases s.len(),
{
    if s.len() > 0 && s.last() != c {
        let t = s.drop_last();
        assert(k < t.len());
        if k >= 0 {
            assert(t[k] == s[k]);
        }
        assert forall|i: int| k < i < t.len() implies t[i] != c by {
            assert(t[i] == s[i]);
        }
        lemma_last_index_of_unique(t, c, k);
    }
}

/// In `a + b`, the last `c` is the last one of `b` where `b` holds one, and
/// the last one of `a` otherwise.
pub proof fn lemma_last_index_of_concat(a: Seq<char>, b: Seq<char>, c: char)
    ensures
        last_index_of(a + b, c) == if last_index_of(b, c) >= 0 {
            a.len() + last_index_of(b, c)
        } else {
            last_index_of(a, c)
        },
{
    lemma_last_index_of(a, c);
    lemma_last_index_of(b, c);
    let s = a + b;
    let k = if last_index_of(b, c) >= 0 {
        a.len() + last_index_of(b, c)
    } else {
        last_index_of(a, c)
    };
    assert forall|i: int| k < i < s.len() implies s[i] != c by {
        if i >= a.len() {
            assert(s[i] == b[i - a.len()]);
        } else {
            assert(s[i] == a[i]);
        }
    }
    if k >= 0 {
        if last_index_of(b, c) >= 0 {
            assert(s[k] == b[k - a.len()]);
        } else {
            assert(s[k] == a[k]);
        }
    }
    lemma_last_index_of_unique(s, c, k);
}

/// A stamp that holds no `/` changes the file name only: the stamped path
/// lies in the directory of the path it was made from, and its file name is
/// the old one with the stamp inserted.
pub proof fn lemma_stamped_stays_in_place(path: Seq<char>, stamp: Seq<char>)
    requires
        !stamp.contains('/'),
    ensures
        dir_name(with_stamp(path, stamp)) == dir_name(path),
        base_name(with_stamp(path, stamp)) == stamped_name(base_name(path), stamp),
{
    let k = last_index_of(path, '/');
    lemma_last_index_of(path, '/');
    let prefix = dir_prefix(path);
    let name = base_name(path);
    let renamed = stamped_name(name, stamp);
    let whole = with_stamp(path, stamp);
    assert(whole =~= prefix + renamed);
    lemma_last_index_of(name, '.');
    assert forall|i: int| 0 <= i < name.len() implies name[i] != '/' by {
        assert(name[i] == path[k + 1 + i]);
    }
    assert forall|i: int| 0 <= i < renamed.len() implies renamed[i] != '/' by {
        let cut = stem(name).len();
        if i < cut {
            assert(renamed[i] == name[i]);
        } else if i == cut {
            assert(renamed[i] == '_');
        } else if i < cut + 1 + stamp.len() {
            assert(renamed[i] == stamp[i - cut - 1]);
            assert(stamp.contains(stamp[i - cut - 1]));
        } else if i == cut + 1 + stamp.len() {
            assert(renamed[i] == '.');
        } else {
            let j = i - (cut + 2 + stamp.len());
            assert(renamed[i] == extension(name)[j]);
            assert(extension(name)[j] == name[last_index_of(name, '.') + 1 + j]);
        }
    }
    lemma_last_index_of_unique(renamed, '/', -1);
    if k >= 0 {
        assert(prefix.last() == '/');
    }
    assert(last_index_of(prefix, '/') == k);
    lemma_last_index_of_concat(prefix, renamed, '/');
    assert(base_name(whole) =~= renamed);
    assert(dir_name(whole) =~= dir_name(path));
}

/// Position of the last `c` in `s`, if any.
pub fn last_index(s: &str, c: char) -> (r: Option<usize>)
    ensures
        s@.len() <= usize::MAX,
        match r {
            Some(i) => i == last_index_of(s@, c) && i < s@.len() && s@[i as int] == c,
            None => last_index_of(s@, c) == -1,
        },
{
    let mut i: usize = s.unicode_len();
    while i > 0 && s.get_char(i - 1) != c
        invariant
            i <= s@.len(),
            forall|j: int| i <= j < s@.len() ==> s@[j] != c,
        decreases i,
    {
        i = i - 1;
    }
    if i > 0 {
        proof {
            lemma_last_index_of_unique(s@, c, i - 1);
        }
        Some(i - 1)
    } else {
        proof {
            lemma_last_index_of_unique(s@, c, -1);
        }
        None
    }
}

/// Number of characters of `path` up to and including its last `/`.
fn prefix_len(path: &str) -> (n: usize)
    ensures
        n == last_index_of(path@, '/') + 1,
        n <= path@.len(),
{
    proof {
        lemma_last_index_of(path@, '/');
    }
    match last_index(path, '/') {
        Some(i) => i + 1,
        None => 0,
    }
}

/// The final component of `path`.
pub fn file_name(path: &str) -> (r: String)
    ensures
        r@ == base_name(path@),
{
    let n: usize = path.unicode_len();
    let k: usize = prefix_len(path);
    slice(path, k, n)
}

/// The directory that holds `path`.
pub fn parent(path: &str) -> (r: String)
    ensures
        r@ == dir_name(path@),
{
    let k: usize = prefix_len(path);
    if k == 0 {
        proof {
            assert(path@.subrange(0, 0) == Seq::<char>::empty());
        }
        slice(path, 0, 0)
    } else if k == 1 {
        slice(path, 0, 1)
    } else {
        slice(path, 0, k - 1)
    }
}

/// The stem of the file name `name`.
pub fn file_stem(name: &str) -> (r: String)
    ensures
        r@ == stem(name@),
{
    let n: usize = name.unicode_len();
    match last_index(name, '.') {
        Some(i) => {
            if i > 0 {
                slice(name, 0, i)
            } else {
                proof {
                    assert(name@.subrange(0, n as int) == name@);
                }
                slice(name, 0, n)
            }
        },
        None => {
            proof {
                assert(name@.subrange(0, n as int) == name@);
            }
            slice(name, 0, n)
        },
    }
}

/// The extension of the file name `name`, if it has one.
pub fn file_extension(name: &str) -> (r: Option<String>)
    ensures
        r is Some == has_extension(name@),
        r is Some ==> r->0@ == extension(name@),
{
    let n: usize = name.unicode_len();
    proof {
        lemma_last_index_of(name@, '.');
    }
    match last_index(name, '.') {
        Some(i) => {
            if i > 0 {
                Some(slice(name, i + 1, n))
            } else {
                None
            }
        },
        None => None,
    }
}

/// Whether `path` names a CSV file.
pub fn is_csv(path: &str) -> (r: bool)
    ensures
        r == is_csv_path(path@),
{
    let name = file_name(path);
    match file_extension(name.as_str()) {
        Some(ext) => {
            proof {
                reveal_strlit("csv");
                assert("csv"@ =~= seq!['c', 's', 'v']);
            }
            same_text(ext.as_str(), "csv")
        },
        None => false,
    }
}

/// `name` placed in directory `dir`.
pub fn joined(dir: &str, name: &str) -> (r: String)
    ensures
        r@ == join(dir@, name@),
{
    let n: usize = dir.unicode_len();
    if n == 0 {
        name.to_owned()
    } else if dir.get_char(n - 1) == '/' {
        appended(dir, name)
    } else {
        proof {
            reveal_strlit("/");
            assert("/"@ =~= seq!['/']);
        }
        let mut r = appended(dir, "/");
        r.append(name);
        r
    }
}

/// `path` with `_` and `stamp` inserted before the extension of its final
/// component.
pub fn stamped(path: &str, stamp: &str) -> (r: String)
    ensures
        r@ == with_stamp(path@, stamp@),
{
    let k: usize = prefix_len(path);
    let name = file_name(path);
    let mut r = slice(path, 0, k);
    let st = file_stem(name.as_str());
    r.append(st.as_str());
    proof {
        reveal_strlit("_");
        assert("_"@ =~= seq!['_']);
        reveal_strlit(".");
        assert("."@ =~= seq!['.']);
    }
    r.append("_");
    r.append(stamp);
    match file_extension(name.as_str()) {
        Some(ext) => {
            r.append(".");
            r.append(ext.as_str());
        },
        None => {},
    }
    r
}

} // verus!
