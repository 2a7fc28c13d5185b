//! Choosing a destination name for the produced archive that collides with
//! nothing already present.
use vstd::prelude::*;
use crate::path::{without_extension, without_extension_chars};
use crate::text::{chars_of, string_of};

verus! {

/// The views of a sequence of strings.
pub open spec fn views(v: Seq<String>) -> Seq<Seq<char>> {
    v.map_values(|s: String| s@)
}

/// The suffix that disambiguates a destination name, repeated `k` times.
pub open spec fn new_marks(k: nat) -> Seq<char>
    decreases k,
{
    if k == 0 {
        Seq::empty()
    } else {
        new_marks((k - 1) as nat) + seq!['_', 'n', 'e', 'w']
    }
}

/// What a destination name is built on: a directory's path, or a file's path
/// without its extension.
pub open spec fn cbz_base(p: Seq<char>, is_dir: bool) -> Seq<char> {
    if is_dir {
        p
    } else {
        without_extension(p)
    }
}

/// The `k`-th candidate destination name.
pub open spec fn cbz_candidate(base: Seq<char>, k: nat) -> Seq<char> {
    base + new_marks(k) + seq!['.', 'c', 'b', 'z']
}

/// `r` is the first candidate for `p` that is not in `existing`.
pub open spec fn is_cbz_name(p: Seq<char>, is_dir: bool, existing: Seq<Seq<char>>, r: Seq<char>) -> bool {
    exists|k: nat| is_first_free(cbz_base(p, is_dir), existing, k) && r == cbz_candidate(cbz_base(p, is_dir), k)
}

/// Candidate `k` is free and every earlier one is taken.
pub open spec fn is_first_free(base: Seq<char>, existing: Seq<Seq<char>>, k: nat) -> bool {
    &&& !existing.contains(cbz_candidate(base, k))
    &&& forall|j: nat| j < k ==> existing.contains(#[trigger] cbz_candidate(base, j))
}

/// The length of the longest element of `s`.
pub open spec fn max_len(s: Seq<Seq<char>>) -> nat
    decreases s.len(),
{
    if s.len() == 0 {
        0
    } else {
        let m = max_len(s.drop_last());
        if s.last().len() > m {
            s.last().len()
        } else {
            m
        }
    }
}

proof fn lemma_max_len(s: Seq<Seq<char>>, x: Seq<char>)
    requires
        s.contains(x),
    ensures
        x.len() <= max_len(s),
    decreases s.len(),
{
    let i = choose|i: int| 0 <= i < s.len() && s[i] == x;
    if i < s.len() - 1 {
        assert(s.drop_last()[i] == x);
        lemma_max_len(s.drop_last(), x);
    }
}

proof fn lemma_new_marks_len(k: nat)
    ensures
        new_marks(k).len() == 4 * k,
    decreases k,
{
    if k > 0 {
        lemma_new_marks_len((k - 1) as nat);
    }
}

/// Whether `existing` holds a string equal to `s`.
pub fn contains_string(existing: &Vec<String>, s: &String) -> (r: bool)
    ensures
        r == views(existing@).contains(s@),
{
    let mut i: usize = 0;
    while i < existing.len()
        invariant
            i <= existing@.len(),
            forall|j: int| 0 <= j < i ==> existing@[j]@ != s@,
        decreases existing@.len() - i,
    {
        if existing[i] == *s {
            assert(views(existing@)[i as int] == s@);
            return true;
        }
        i = i + 1;
    }
    assert forall|j: int| 0 <= j < views(existing@).len() implies views(existing@)[j] != s@ by {
        assert(views(existing@)[j] == existing@[j]@);
    }
    false
}

/// The destination name for the source at `path`: `<name>.cbz` beside a
/// directory, the file's path with its extension replaced by `cbz` for a file,
/// and `_new` added to the stem for as long as the name is among `existing`
/// (the paths already present).
pub fn cbz_name(path: &str, is_dir: bool, existing: &Vec<String>) -> (r: String)
    ensures
        is_cbz_name(path@, is_dir, views(existing@), r@),
        !views(existing@).contains(r@),
{
    let p = chars_of(path);
    let mut stem: Vec<char> = if is_dir {
        p
    } else {
        without_extension_chars(&p)
    };
    let ghost base = cbz_base(path@, is_dir);
    let ghost ex = views(existing@);
    let ghost mut k: nat = 0;
    loop
        invariant
            stem@ == base + new_marks(k),
            forall|j: nat| j < k ==> ex.contains(#[trigger] cbz_candidate(base, j)),
            ex == views(existing@),
            base == cbz_base(path@, is_dir),
        decreases max_len(ex) - stem@.len(),
    {
        let mut cand = stem.clone();
        cand.push('.');
        cand.push('c');
        cand.push('b');
        cand.push('z');
        assert(cand@ == cbz_candidate(base, k));
        let s = string_of(&cand);
        if !contains_string(existing, &s) {
            assert(is_first_free(base, ex, k) && s@ == cbz_candidate(base, k));
            assert(is_cbz_name(path@, is_dir, ex, s@));
            return s;
        }
        proof {
            lemma_max_len(ex, cand@);
        }
        stem.push('_');
        stem.push('n');
        stem.push('e');
        stem.push('w');
        proof {
            assert(stem@ == base + new_marks(k + 1));
            k = k + 1;
        }
    }
}

/// Two destination names chosen one after the other, where the second choice
/// sees the first name as taken, are distinct, both free, and the second is
/// strictly longer.
pub proof fn lemma_second_name_is_longer(
    p: Seq<char>,
    is_dir: bool,
    existing: Seq<Seq<char>>,
    first: Seq<char>,
    second: Seq<char>,
)
    requires
        is_cbz_name(p, is_dir, existing, first),
        is_cbz_name(p, is_dir, existing.push(first), second),
    ensures
        first != second,
        !existing.contains(first),
        !existing.push(first).contains(second),
        second.len() > first.len(),
{
    let base = cbz_base(p, is_dir);
    let k1 = choose|k: nat| is_first_free(base, existing, k) && first == cbz_candidate(base, k);
    let k2 = choose|k: nat| is_first_free(base, existing.push(first), k) && second == cbz_candidate(base, k);
    assert(existing.push(first).contains(first)) by {
        assert(existing.push(first)[existing.len() as int] == first);
    }
    if k2 < k1 {
        assert(existing.contains(cbz_candidate(base, k2)));
        let i = choose|i: int| 0 <= i < existing.len() && existing[i] == cbz_candidate(base, k2);
        assert(existing.push(first)[i] == second);
    }
    assert(k2 != k1);
    lemma_new_marks_len(k1);
    lemma_new_marks_len(k2);
}

} // verus!
