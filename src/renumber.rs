//! Sequential renaming of files: numbered names, and free temporary names to
//! pass through while renaming.
use vstd::prelude::*;
use std::collections::hash_map::DefaultHasher;
use std::hash::Hasher;
use vstd::std_specs::hash::DefaultHasherAdditionalSpecFns;
use crate::naming::{contains_string, views};
use crate::path::{extension_chars, extension_of, has_extension, last_index, name_start};
use crate::text::{chars_of, prefix_of, push_all, string_of};

verus! {

/// The character of the digit `d` (below 16), lower case.
pub open spec fn digit_char(d: nat) -> char {
    seq!['0', '1', '2', '3', '4', '5', '6', '7', '8', '9', 'a', 'b', 'c', 'd', 'e', 'f'][d as int]
}

/// The digits of `n` in base `base`, most significant first, without leading zeros.
pub open spec fn digits_of(n: nat, base: nat) -> Seq<char>
    recommends
        2 <= base <= 16,
    decreases n via digits_of_decreases
{
    if base < 2 || n < base {
        seq![digit_char(n % 16)]
    } else {
        digits_of(n / base, base) + seq![digit_char(n % base)]
    }
}

#[via_fn]
proof fn digits_of_decreases(n: nat, base: nat) {
    if !(base < 2 || n < base) {
        assert(n / base < n) by (nonlinear_arith)
            requires
                base >= 2,
                n >= base,
        ;
    }
}

/// `n` in decimal, padded on the left with zeros to at least `width` characters.
pub open spec fn zero_padded(n: nat, width: nat) -> Seq<char> {
    let d = digits_of(n, 10);
    if d.len() < width {
        Seq::new((width - d.len()) as nat, |i: int| '0') + d
    } else {
        d
    }
}

/// The directory part of `p`, up to and including its last separator.
pub open spec fn dir_prefix(p: Seq<char>) -> Seq<char> {
    p.subrange(0, name_start(p))
}

/// The path `p` renamed to number `n`, `width` digits at least, keeping its
/// directory and extension.
pub open spec fn numbered_name(p: Seq<char>, n: nat, width: nat) -> Seq<char> {
    dir_prefix(p) + zero_padded(n, width) + if has_extension(p) {
        seq!['.'] + extension_of(p)
    } else {
        Seq::empty()
    }
}

/// A temporary name for `p`: `p` followed by a dot and `h` in hexadecimal.
pub open spec fn temp_name(p: Seq<char>, h: u64) -> Seq<char> {
    p + seq!['.'] + digits_of(h as nat, 16)
}

const DIGIT_CHARS: [char; 16] = ['0', '1', '2', '3', '4', '5', '6', '7', '8', '9', 'a', 'b', 'c', 'd', 'e', 'f'];

/// Appends the digits of `n` in base `base` to `out`.
fn push_digits(out: &mut Vec<char>, n: u64, base: u64)
    requires
        2 <= base <= 16,
    ensures
        final(out)@ == old(out)@ + digits_of(n as nat, base as nat),
    decreases n,
{
    if n >= base {
        assert(n / base < n) by (nonlinear_arith)
            requires
                base >= 2,
                n >= base,
        ;
        push_digits(out, n / base, base);
    }
    let d = (n % base) as usize;
    assert(DIGIT_CHARS@ == seq!['0', '1', '2', '3', '4', '5', '6', '7', '8', '9', 'a', 'b', 'c', 'd', 'e', 'f']);
    out.push(DIGIT_CHARS[d]);
    proof {
        if n < base {
            vstd::arithmetic::div_mod::lemma_small_mod(n as nat, base as nat);
            vstd::arithmetic::div_mod::lemma_small_mod(n as nat, 16);
        }
    }
}

/// Names for `files` numbered in order from `start_num`: each keeps its
/// directory and extension, and its stem becomes the number with at least
/// `digits` digits.
pub fn generate_new_names(files: &Vec<String>, digits: usize, start_num: usize) -> (r: Vec<String>)
    requires
        start_num + files@.len() <= usize::MAX,
    ensures
        r@.len() == files@.len(),
        forall|i: int|
            0 <= i < files@.len() ==> (#[trigger] r@[i])@ == numbered_name(
                files@[i]@,
                (start_num + i) as nat,
                digits as nat,
            ),
{
    let mut names: Vec<String> = Vec::new();
    let mut i: usize = 0;
    while i < files.len()
        invariant
            i <= files@.len(),
            start_num + files@.len() <= usize::MAX,
            names@.len() == i,
            forall|j: int|
                0 <= j < i ==> (#[trigger] names@[j])@ == numbered_name(
                    files@[j]@,
                    (start_num + j) as nat,
                    digits as nat,
                ),
        decreases files@.len() - i,
    {
        let p = chars_of(files[i].as_str());
        let _len = p.len();
        let mut out: Vec<char> = match last_index(&p, '/') {
            Some(k) => prefix_of(&p, k + 1),
            None => Vec::new(),
        };
        let mut num: Vec<char> = Vec::new();
        push_digits(&mut num, (start_num + i) as u64, 10);
        let mut pad: usize = num.len();
        while pad < digits
            invariant
                num@.len() <= pad <= digits || (pad == num@.len() && digits < pad),
                out@ == dir_prefix(p@) + Seq::new((pad - num@.len()) as nat, |k: int| '0'),
            decreases digits - pad,
        {
            out.push('0');
            pad = pad + 1;
            assert(out@ =~= dir_prefix(p@) + Seq::new((pad - num@.len()) as nat, |k: int| '0'));
        }
        push_all(&mut out, &num);
        let (has_ext, ext) = extension_chars(&p);
        if has_ext {
            out.push('.');
            push_all(&mut out, &ext);
        }
        proof {
            let d = digits_of((start_num + i) as nat, 10);
            assert(num@ == d);
            if d.len() >= digits {
                assert(Seq::new((pad - num@.len()) as nat, |k: int| '0') =~= Seq::<char>::empty());
            }
            assert(out@ =~= numbered_name(p@, (start_num + i) as nat, digits as nat));
        }
        names.push(string_of(&out));
        i = i + 1;
    }
    names
}

/// Whether renaming may go ahead: no new name is a path already present
/// (among `existing`) that is not itself one of the files being renamed.
pub fn can_rename(files: &Vec<String>, new_names: &Vec<String>, existing: &Vec<String>) -> (r: bool)
    ensures
        r == forall|i: int|
            0 <= i < new_names@.len() ==> !(views(existing@).contains(#[trigger] new_names@[i]@) && !views(
                files@,
            ).contains(new_names@[i]@)),
{
    let mut i: usize = 0;
    while i < new_names.len()
        invariant
            i <= new_names@.len(),
            forall|j: int|
                0 <= j < i ==> !(views(existing@).contains(#[trigger] new_names@[j]@) && !views(files@).contains(
                    new_names@[j]@,
                )),
        decreases new_names@.len() - i,
    {
        if contains_string(existing, &new_names[i]) && !contains_string(files, &new_names[i]) {
            return false;
        }
        i = i + 1;
    }
    true
}

/// The `n` low bytes of `x`, least significant first.
pub open spec fn le_bytes_of(x: nat, n: nat) -> Seq<u8>
    decreases n,
{
    if n == 0 {
        Seq::empty()
    } else {
        seq![(x % 256) as u8] + le_bytes_of(x / 256, (n - 1) as nat)
    }
}

/// The bytes that seed the hash of a temporary name for `p`: its file name in
/// UTF-8.
pub open spec fn name_seed(p: Seq<char>) -> Seq<u8> {
    vstd::utf8::encode_utf8(crate::path::file_name(p))
}

/// What a `DefaultHasher` has been fed after the byte string `seed` (hashed as
/// a slice: its length in eight bytes, then its bytes) and `k` rounds of
/// feeding it the eight bytes of its own hash.
pub open spec fn hash_states(seed: Seq<u8>, k: nat) -> Seq<Seq<u8>>
    decreases k,
{
    if k == 0 {
        seq![le_bytes_of(seed.len(), 8), seed]
    } else {
        let s = hash_states(seed, (k - 1) as nat);
        s.push(le_bytes_of(DefaultHasher::spec_finish(s) as nat, 8))
    }
}

/// The hash behind the `k`-th temporary name tried.
pub open spec fn chain_hash(seed: Seq<u8>, k: nat) -> u64 {
    DefaultHasher::spec_finish(hash_states(seed, k + 1))
}

/// The `k`-th temporary name tried for `p`, hashes seeded with `seed`.
pub open spec fn temp_candidate(p: Seq<char>, seed: Seq<u8>, k: nat) -> Seq<char> {
    temp_name(p, chain_hash(seed, k))
}

/// `r` is the first of the temporary names `0..=existing.len()` for `p` that
/// is not in `existing`, or `None` where all of them are.
pub open spec fn is_temp_choice(p: Seq<char>, seed: Seq<u8>, existing: Seq<Seq<char>>, r: Option<Seq<char>>) -> bool {
    match r {
        Some(s) => exists|k: nat|
            k <= existing.len() && s == temp_candidate(p, seed, k) && !existing.contains(s) && forall|j: nat|
                j < k ==> existing.contains(#[trigger] temp_candidate(p, seed, j)),
        None => forall|j: nat| j <= existing.len() ==> existing.contains(#[trigger] temp_candidate(p, seed, j)),
    }
}

/// An optional string as plain values.
pub open spec fn opt_view(r: Option<String>) -> Option<Seq<char>> {
    match r {
        Some(s) => Some(s@),
        None => None,
    }
}

/// A path beside `file` that is not among `existing`, made of `file`, a dot
/// and a hash in hexadecimal. The hasher is seeded with the file name's bytes
/// (`name_seed`), and each try feeds it the previous hash; after as many tries as
/// `existing` has elements, plus one, without a free name, `None`.
pub fn make_temp_file_path(file: &str, existing: &Vec<String>) -> (r: Option<String>)
    ensures
        is_temp_choice(file@, name_seed(file@), views(existing@), opt_view(r)),
        r matches Some(s) ==> !views(existing@).contains(s@) && exists|h: u64| s@ == temp_name(file@, h),
        existing@.len() == 0 ==> r is Some,
{
    let p = chars_of(file);
    let name = string_of(&crate::path::file_name_chars(&p));
    let name_bytes = name.as_str().as_bytes();
    let ghost seed = name_bytes@;
    assert(seed == name_seed(file@));
    let ghost ex = views(existing@);
    let mut hasher = DefaultHasher::new();
    let prefix = le_bytes(name_bytes.len() as u64);
    hasher.write(prefix.as_slice());
    hasher.write(name_bytes);
    let mut hash: u64 = hasher.finish();
    let mut tries: usize = 0;
    assert(hasher@ =~= hash_states(seed, 0));
    loop
        invariant
            p@ == file@,
            seed == name_seed(file@),
            ex == views(existing@),
            tries <= existing@.len(),
            existing@.len() == 0 ==> tries == 0,
            hasher@ == hash_states(seed, tries as nat),
            hash == DefaultHasher::spec_finish(hasher@),
            forall|j: nat| j < tries ==> ex.contains(#[trigger] temp_candidate(file@, seed, j)),
        decreases existing@.len() - tries,
    {
        let bytes = le_bytes(hash);
        hasher.write(bytes.as_slice());
        hash = hasher.finish();
        assert(hash == chain_hash(seed, tries as nat));
        let mut cand = p.clone();
        cand.push('.');
        push_digits(&mut cand, hash, 16);
        let s = string_of(&cand);
        assert(s@ == temp_candidate(file@, seed, tries as nat));
        if !contains_string(existing, &s) {
            assert(is_temp_choice(file@, seed, ex, Some(s@)));
            return Some(s);
        }
        if tries == existing.len() {
            assert(is_temp_choice(file@, seed, ex, None));
            return None;
        }
        tries = tries + 1;
    }
}

/// The eight bytes of `h`, least significant first.
fn le_bytes(h: u64) -> (r: Vec<u8>)
    ensures
        r@ == le_bytes_of(h as nat, 8),
{
    let mut v: Vec<u8> = Vec::new();
    let mut x: u64 = h;
    let mut i: usize = 0;
    while i < 8
        invariant
            i <= 8,
            v@ + le_bytes_of(x as nat, (8 - i) as nat) == le_bytes_of(h as nat, 8),
        decreases 8 - i,
    {
        let ghost before = v@;
        let b = (x % 256) as u8;
        v.push(b);
        assert(le_bytes_of(x as nat, (8 - i) as nat) == seq![b] + le_bytes_of((x / 256) as nat, (8 - i - 1) as nat));
        assert(v@ + le_bytes_of((x / 256) as nat, (8 - i - 1) as nat) =~= before + le_bytes_of(x as nat, (8 - i) as nat));
        x = x / 256;
        i = i + 1;
    }
    assert(le_bytes_of(x as nat, 0) =~= Seq::<u8>::empty());
    assert(v@ =~= le_bytes_of(h as nat, 8));
    v
}

} // verus!
