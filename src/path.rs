//! A model of `/`-separated paths: parent, file name and extension.
use vstd::prelude::*;
use crate::text::{chars_of, prefix_of, string_of, suffix_of};

verus! {

/// Index of the last `c` in `s`, or -1 when `s` holds none.
pub open spec fn last_index_of(s: Seq<char>, c: char) -> int
    decreases s.len(),
{
    if s.len() == 0 {
        -1
    } else if s.last() == c {
        s.len() - 1
    } else {
        last_index_of(s.drop_last(), c)
    }
}

/// Index at which the file name (the last component) of `p` starts.
pub open spec fn name_start(p: Seq<char>) -> int {
    last_index_of(p, '/') + 1
}

/// The last component of `p`.
pub open spec fn file_name(p: Seq<char>) -> Seq<char> {
    p.subrange(name_start(p), p.len() as int)
}

/// A file name has an extension when it holds a dot after its first character.
pub open spec fn has_extension(p: Seq<char>) -> bool {
    last_index_of(file_name(p), '.') > 0
}

/// What follows the last dot of the file name, when it has an extension.
pub open spec fn extension_of(p: Seq<char>) -> Seq<char> {
    let n = file_name(p);
    if has_extension(p) {
        n.subrange(last_index_of(n, '.') + 1, n.len() as int)
    } else {
        Seq::empty()
    }
}

/// `p` without the dot and extension of its file name.
pub open spec fn without_extension(p: Seq<char>) -> Seq<char> {
    if has_extension(p) {
        p.subrange(0, name_start(p) + last_index_of(file_name(p), '.'))
    } else {
        p
    }
}

proof fn lemma_last_index_bounds(s: Seq<char>, c: char)
    ensures
        -1 <= last_index_of(s, c) < s.len(),
        last_index_of(s, c) >= 0 ==> s[last_index_of(s, c)] == c,
        forall|j: int| last_index_of(s, c) < j < s.len() ==> s[j] != c,
    decreases s.len(),
{
    if s.len() > 0 && s.last() != c {
        let t = s.drop_last();
        lemma_last_index_bounds(t, c);
        assert forall|j: int| last_index_of(s, c) < j < s.len() implies s[j] != c by {
            if j < t.len() {
                assert(t[j] == s[j]);
            }
        }
    }
}

proof fn lemma_last_index_is(s: Seq<char>, c: char, k: int)
    requires
        -1 <= k < s.len(),
        k >= 0 ==> s[k] == c,
        forall|j: int| k < j < s.len() ==> s[j] != c,
    ensures
        last_index_of(s, c) == k,
    decreases s.len(),
{
    if s.len() > 0 && s.len() - 1 != k {
        let t = s.drop_last();
        assert forall|j: int| k < j < t.len() implies t[j] != c by {
            assert(t[j] == s[j]);
        }
        lemma_last_index_is(t, c, k);
    }
}

/// The index of the last `c` in `v`.
pub fn last_index(v: &Vec<char>, c: char) -> (r: Option<usize>)
    ensures
        match r {
            Some(k) => last_index_of(v@, c) == k && k < v@.len(),
            None => last_index_of(v@, c) == -1,
        },
{
    let mut i: usize = v.len();
    while i > 0
        invariant
            i <= v@.len(),
            forall|j: int| i <= j < v@.len() ==> v@[j] != c,
        decreases i,
    {
        if v[i - 1] == c {
            proof {
                lemma_last_index_is(v@, c, i - 1);
            }
            return Some(i - 1);
        }
        i = i - 1;
    }
    proof {
        lemma_last_index_is(v@, c, -1);
    }
    None
}

/// The file name of the path `p`.
pub fn file_name_chars(p: &Vec<char>) -> (r: Vec<char>)
    ensures
        r@ == file_name(p@),
{
    proof {
        lemma_last_index_bounds(p@, '/');
    }
    let _len = p.len();
    match last_index(p, '/') {
        Some(k) => suffix_of(p, k + 1),
        None => suffix_of(p, 0),
    }
}

/// The extension of the path `p`, and whether it has one.
pub fn extension_chars(p: &Vec<char>) -> (r: (bool, Vec<char>))
    ensures
        r.0 == has_extension(p@),
        r.1@ == extension_of(p@),
{
    let n = file_name_chars(p);
    proof {
        lemma_last_index_bounds(n@, '.');
    }
    let _nlen = n.len();
    match last_index(&n, '.') {
        Some(d) => {
            if d > 0 {
                (true, suffix_of(&n, d + 1))
            } else {
                (false, Vec::new())
            }
        },
        None => (false, Vec::new()),
    }
}

/// The path `p` with the extension of its file name (and its dot) removed.
pub fn without_extension_chars(p: &Vec<char>) -> (r: Vec<char>)
    ensures
        r@ == without_extension(p@),
{
    proof {
        lemma_last_index_bounds(p@, '/');
    }
    let _len = p.len();
    let start: usize = match last_index(p, '/') {
        Some(k) => k + 1,
        None => 0,
    };
    let n = suffix_of(p, start);
    assert(n@ == file_name(p@));
    proof {
        lemma_last_index_bounds(n@, '.');
    }
    let _nlen = n.len();
    match last_index(&n, '.') {
        Some(d) => {
            if d > 0 {
                prefix_of(p, start + d)
            } else {
                p.clone()
            }
        },
        None => p.clone(),
    }
}

/// `p` without trailing slashes, though a lone `/` stays.
pub open spec fn without_trailing_slashes(p: Seq<char>) -> Seq<char>
    decreases p.len(),
{
    if p.len() > 1 && p.last() == '/' {
        without_trailing_slashes(p.drop_last())
    } else {
        p
    }
}

/// A source path as the library reads it: trailing slashes are dropped.
pub open spec fn source_form(p: Seq<char>) -> Seq<char> {
    without_trailing_slashes(p)
}

/// The path `path` in the form the library reads it.
pub fn source_path(path: &str) -> (r: String)
    ensures
        r@ == source_form(path@),
{
    let mut v = chars_of(path);
    while v.len() > 1 && v[v.len() - 1] == '/'
        invariant
            without_trailing_slashes(v@) == source_form(path@),
        decreases v@.len(),
    {
        v.pop();
    }
    string_of(&v)
}

} // verus!
