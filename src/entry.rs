//! Entries read from a source container, and the sink that transforms them and
//! writes them into the destination archive.
use vstd::prelude::*;
use crate::container::{
    append_content, archive_members, begin_member, finish_writer, has_name, member_content, member_count,
    member_meta, new_writer, open_archive, writer_sound, written_members, zip_image, zip_listing, zip_opens,
    Member, MAX_CONTENT_LEN, MAX_NAME_CHARS,
};
use std::io::Cursor;
use zip::ZipArchive;
use crate::text::{chars_of, string_of};
use crate::transform::{EntryTransform, Identity};

verus! {

/// One member of a source container: its relative name, whether it is a
/// regular file (rather than a directory), and its content.
pub struct SourceEntry {
    pub name: String,
    pub is_file: bool,
    pub data: Vec<u8>,
}

/// What can go wrong while converting one source.
#[derive(Debug, PartialEq, Eq)]
pub enum ConvertError {
    /// The source does not exist or cannot be read.
    Unreadable,
    /// The source is of no supported kind.
    Unsupported,
    /// The source container is corrupt or cannot be decoded.
    Decode,
    /// The transform failed on the named entry.
    Transform(String),
    /// The destination archive could not be built or written.
    Write,
    /// The finished source could not be moved aside.
    Relocation,
}

/// A source entry as plain values.
pub open spec fn entry_view(e: SourceEntry) -> (Seq<char>, bool, Seq<u8>) {
    (e.name@, e.is_file, e.data@)
}

/// The entries of `v` as plain values.
pub open spec fn entries_view(v: Seq<SourceEntry>) -> Seq<(Seq<char>, bool, Seq<u8>)> {
    v.map_values(|e: SourceEntry| entry_view(e))
}

/// An entry name with every backslash turned into a forward slash.
pub open spec fn slash_normalized(n: Seq<char>) -> Seq<char> {
    n.map_values(|c: char| if c == '\\' { '/' } else { c })
}

/// The members of the destination archive for `src` under `t`, in source
/// order: directories are skipped, every regular file goes through `t` and its
/// resulting name is slash-normalized. The first file on which `t` fails makes
/// the whole result fail with that file's name.
pub open spec fn transcoded<T: EntryTransform>(t: T, src: Seq<(Seq<char>, bool, Seq<u8>)>) -> Result<
    Seq<(Seq<char>, Seq<u8>)>,
    Seq<char>,
>
    decreases src.len(),
{
    if src.len() == 0 {
        Ok(Seq::empty())
    } else {
        match transcoded(t, src.drop_last()) {
            Err(n) => Err(n),
            Ok(prev) => {
                let e = src.last();
                if !e.1 {
                    Ok(prev)
                } else {
                    match t.spec_apply(e.2, e.0) {
                        None => Err(e.0),
                        Some(out) => Ok(prev.push((slash_normalized(out.1), out.0))),
                    }
                }
            },
        }
    }
}

/// Once a prefix of the source fails, the whole source fails the same way.
proof fn lemma_transcoded_err_sticks<T: EntryTransform>(t: T, src: Seq<(Seq<char>, bool, Seq<u8>)>, k: int)
    requires
        0 <= k <= src.len(),
        transcoded(t, src.subrange(0, k)) is Err,
    ensures
        transcoded(t, src) == transcoded(t, src.subrange(0, k)),
    decreases src.len() - k,
{
    if k < src.len() {
        assert(src.subrange(0, k + 1).drop_last() == src.subrange(0, k));
        lemma_transcoded_err_sticks(t, src, k + 1);
    } else {
        assert(src.subrange(0, k) == src);
    }
}

/// Turns every backslash of `name` into a forward slash.
pub fn normalize_name(name: &String) -> (r: String)
    ensures
        r@ == slash_normalized(name@),
{
    let v = chars_of(name.as_str());
    let mut out: Vec<char> = Vec::new();
    let mut i: usize = 0;
    while i < v.len()
        invariant
            i <= v@.len(),
            v@ == name@,
            out@ == slash_normalized(v@.subrange(0, i as int)),
        decreases v@.len() - i,
    {
        let c = v[i];
        if c == '\\' {
            out.push('/');
        } else {
            out.push(c);
        }
        i = i + 1;
        assert(v@.subrange(0, i as int) == v@.subrange(0, i - 1) + seq![c]);
        assert(out@ == slash_normalized(v@.subrange(0, i as int)));
    }
    assert(v@.subrange(0, v@.len() as int) == v@);
    string_of(&out)
}

/// Applies `t` to every regular file of `entries`, in order, skipping
/// directories and normalizing the resulting names.
pub fn transcode_entries<T: EntryTransform>(entries: Vec<SourceEntry>, t: &T) -> (r: Result<
    Vec<(String, Vec<u8>)>,
    String,
>)
    ensures
        match transcoded(*t, entries_view(entries@)) {
            Ok(out) => r matches Ok(v) && v@.map_values(|p: (String, Vec<u8>)| (p.0@, p.1@)) == out,
            Err(n) => r matches Err(m) && m@ == n,
        },
{
    let ghost src = entries_view(entries@);
    let mut rest = entries;
    let mut out: Vec<(String, Vec<u8>)> = Vec::new();
    let ghost mut i: int = 0;
    assert(src.subrange(0, 0) =~= Seq::empty());
    assert(out@.map_values(|p: (String, Vec<u8>)| (p.0@, p.1@)) =~= Seq::empty());
    while rest.len() > 0
        invariant
            0 <= i <= src.len(),
            src == entries_view(entries@),
            entries_view(rest@) == src.subrange(i, src.len() as int),
            transcoded(*t, src.subrange(0, i)) == Ok::<_, Seq<char>>(out@.map_values(|p: (String, Vec<u8>)| (p.0@, p.1@))),
        decreases rest@.len(),
    {
        proof {
            assert(entries_view(rest@).len() == rest@.len());
            assert(i < src.len());
        }
        let ghost before = rest@;
        let e = rest.remove(0);
        proof {
            assert(before == rest@.insert(0, e));
            assert(entry_view(e) == entries_view(rest@.insert(0, e))[0]);
            assert(src.subrange(0, i + 1).drop_last() == src.subrange(0, i));
            assert(src[i] == entry_view(e)) by {
                assert(src.subrange(i, src.len() as int)[0] == src[i]);
            }
            assert forall|j: int| 0 <= j < rest@.len() implies entries_view(rest@)[j] == src.subrange(
                i + 1,
                src.len() as int,
            )[j] by {
                assert(rest@[j] == before[j + 1]);
                assert(entries_view(before)[j + 1] == src.subrange(i, src.len() as int)[j + 1]);
            }
            assert(entries_view(rest@) =~= src.subrange(i + 1, src.len() as int));
            assert(src.subrange(0, i + 1).last() == entry_view(e));
        }
        let ghost prev = out@.map_values(|p: (String, Vec<u8>)| (p.0@, p.1@));
        if e.is_file {
            let name = e.name;
            match t.apply(e.data, name.clone()) {
                None => {
                    proof {
                        lemma_transcoded_err_sticks(*t, src, i + 1);
                    }
                    return Err(name);
                },
                Some(res) => {
                    let n = normalize_name(&res.1);
                    out.push((n, res.0));
                    assert(out@.map_values(|p: (String, Vec<u8>)| (p.0@, p.1@)) =~= prev.push(
                        (slash_normalized(res.1@), res.0@),
                    ));
                },
            }
        }
        proof {
            i = i + 1;
        }
    }
    assert(src.subrange(0, src.len() as int) == src);
    Ok(out)
}

/// Members as plain values.
pub open spec fn members_view(v: Seq<(String, Vec<u8>)>) -> Seq<(Seq<char>, Seq<u8>)> {
    v.map_values(|p: (String, Vec<u8>)| (p.0@, p.1@))
}

/// Whether the ZIP writer takes `members`: names pairwise distinct and at most
/// `MAX_NAME_CHARS` long, contents at most `MAX_CONTENT_LEN` long.
pub open spec fn zip_accepts(members: Seq<(Seq<char>, Seq<u8>)>) -> bool {
    &&& forall|i: int|
        0 <= i < members.len() ==> (#[trigger] members[i]).0.len() <= MAX_NAME_CHARS && members[i].1.len()
            <= MAX_CONTENT_LEN
    &&& forall|i: int, j: int| 0 <= i < j < members.len() ==> (#[trigger] members[i]).0 != (#[trigger] members[j]).0
}

/// Writes `members`, in order, into a new ZIP archive held in memory.
pub fn write_members(members: &Vec<(String, Vec<u8>)>) -> (r: Result<Vec<u8>, ConvertError>)
    ensures
        zip_accepts(members_view(members@)) ==> r is Ok,
        r matches Ok(bytes) ==> bytes@ == zip_image(members_view(members@)),
        r is Err ==> r == Err::<Vec<u8>, ConvertError>(ConvertError::Write),
{
    let ghost mv = members_view(members@);
    let mut w = new_writer();
    let mut i: usize = 0;
    while i < members.len()
        invariant
            i <= members@.len(),
            mv == members_view(members@),
            written_members(w) == mv.subrange(0, i as int),
            zip_accepts(mv) ==> writer_sound(w),
        decreases members@.len() - i,
    {
        let m = &members[i];
        assert(mv[i as int] == (m.0@, m.1@));
        let name_len = chars_of(m.0.as_str()).len();
        if name_len > MAX_NAME_CHARS {
            return Err(ConvertError::Write);
        }
        proof {
            if zip_accepts(mv) {
                assert(!has_name(written_members(w), m.0@)) by {
                    if has_name(written_members(w), m.0@) {
                        let j = choose|j: int|
                            0 <= j < written_members(w).len() && (#[trigger] written_members(w)[j]).0 == m.0@;
                        assert(mv[j] == written_members(w)[j]);
                        assert(mv[j].0 != mv[i as int].0);
                    }
                }
            }
        }
        match begin_member(&mut w, m.0.as_str()) {
            Ok(()) => {},
            Err(_) => {
                return Err(ConvertError::Write);
            },
        }
        match append_content(&mut w, m.1.as_slice()) {
            Ok(()) => {},
            Err(_) => {
                return Err(ConvertError::Write);
            },
        }
        i = i + 1;
        assert(written_members(w) =~= mv.subrange(0, i as int));
    }
    assert(mv.subrange(0, mv.len() as int) == mv);
    match finish_writer(w) {
        Ok(bytes) => Ok(bytes),
        Err(_) => Err(ConvertError::Write),
    }
}

/// Converts `entries` into the bytes of a CBZ archive: every regular file goes
/// through `t` and is written, in order, under its slash-normalized name. It
/// succeeds whenever `t` succeeds on every file and the writer takes the result.
pub fn entries2cbz<T: EntryTransform>(entries: Vec<SourceEntry>, t: &T) -> (r: Result<Vec<u8>, ConvertError>)
    ensures
        match transcoded(*t, entries_view(entries@)) {
            Ok(out) => (zip_accepts(out) ==> r is Ok) && match r {
                Ok(bytes) => bytes@ == zip_image(out),
                Err(e) => e == ConvertError::Write,
            },
            Err(n) => r matches Err(ConvertError::Transform(m)) && m@ == n,
        },
{
    match transcode_entries(entries, t) {
        Ok(members) => write_members(&members),
        Err(name) => Err(ConvertError::Transform(name)),
    }
}

/// A member as the entry the conversion reads.
pub open spec fn member_entry(m: Member) -> (Seq<char>, bool, Seq<u8>) {
    (m.0, m.1, m.2)
}

/// The entries of `members`, in order.
pub open spec fn member_entries(members: Seq<Member>) -> Seq<(Seq<char>, bool, Seq<u8>)> {
    members.map_values(|m: Member| member_entry(m))
}

/// Every member opens and reads to its end.
pub open spec fn all_readable(members: Seq<Member>) -> bool {
    forall|i: int| 0 <= i < members.len() ==> (#[trigger] members[i]).3
}

/// Reads the members of an opened archive, in container order; it fails,
/// with `Decode`, exactly when some member does not read.
pub fn archive_entries(a: &mut ZipArchive<Cursor<Vec<u8>>>) -> (r: Result<Vec<SourceEntry>, ConvertError>)
    ensures
        r is Ok <==> all_readable(archive_members(*old(a))),
        match r {
            Ok(v) => entries_view(v@) == member_entries(archive_members(*old(a))),
            Err(e) => e == ConvertError::Decode,
        },
{
    let ghost m = archive_members(*a);
    let n = member_count(a);
    let mut out: Vec<SourceEntry> = Vec::new();
    let mut i: usize = 0;
    while i < n
        invariant
            i <= n,
            n == m.len(),
            archive_members(*a) == m,
            m == archive_members(*old(a)),
            forall|j: int| 0 <= j < i ==> (#[trigger] m[j]).3,
            entries_view(out@) == member_entries(m.subrange(0, i as int)),
        decreases n - i,
    {
        let (name, is_file) = match member_meta(a, i) {
            Ok(p) => p,
            Err(_) => {
                return Err(ConvertError::Decode);
            },
        };
        let data = match member_content(a, i) {
            Ok(d) => d,
            Err(_) => {
                return Err(ConvertError::Decode);
            },
        };
        let ghost before = out@;
        out.push(SourceEntry { name, is_file, data });
        i = i + 1;
        proof {
            assert(entries_view(out@) =~= entries_view(before).push(entry_view(out@.last())));
            assert(member_entries(m.subrange(0, i as int)) =~= member_entries(m.subrange(0, i - 1)).push(
                member_entry(m[i - 1]),
            ));
        }
    }
    assert(m.subrange(0, m.len() as int) == m);
    assert(member_entries(m.subrange(0, m.len() as int)) == member_entries(m));
    Ok(out)
}

/// Whether `data` holds a ZIP archive whose central directory parses.
pub fn is_zip(data: &Vec<u8>) -> (r: bool)
    ensures
        r == zip_opens(data@),
{
    open_archive(data.clone()).is_ok()
}

/// Converts the ZIP archive held in `data` into the bytes of a CBZ archive,
/// members in container order, directories skipped, every regular file
/// through `t`. It fails with `Decode` exactly when the archive does not open
/// or a member does not read, and succeeds whenever `t` succeeds on every file
/// and the writer takes the result.
pub fn zip2cbz<T: EntryTransform>(data: Vec<u8>, t: &T) -> (r: Result<Vec<u8>, ConvertError>)
    ensures
        !zip_opens(data@) || !all_readable(zip_listing(data@)) <==> r == Err::<Vec<u8>, ConvertError>(
            ConvertError::Decode,
        ),
        zip_opens(data@) && all_readable(zip_listing(data@)) ==> match transcoded(
            *t,
            member_entries(zip_listing(data@)),
        ) {
            Ok(out) => (zip_accepts(out) ==> r is Ok) && match r {
                Ok(bytes) => bytes@ == zip_image(out),
                Err(e) => e == ConvertError::Write,
            },
            Err(n) => r matches Err(ConvertError::Transform(m)) && m@ == n,
        },
{
    let ghost d = data@;
    let mut a = match open_archive(data) {
        Ok(a) => a,
        Err(_) => {
            return Err(ConvertError::Decode);
        },
    };
    let entries = archive_entries(&mut a)?;
    entries2cbz(entries, t)
}

/// The number of regular files in `src`.
pub open spec fn file_count(src: Seq<(Seq<char>, bool, Seq<u8>)>) -> nat
    decreases src.len(),
{
    if src.len() == 0 {
        0
    } else {
        file_count(src.drop_last()) + if src.last().1 {
            1nat
        } else {
            0nat
        }
    }
}

/// The regular files of `src`, in order, with slash-normalized names.
pub open spec fn normalized_files(src: Seq<(Seq<char>, bool, Seq<u8>)>) -> Seq<(Seq<char>, Seq<u8>)>
    decreases src.len(),
{
    if src.len() == 0 {
        Seq::empty()
    } else {
        let prev = normalized_files(src.drop_last());
        if src.last().1 {
            prev.push((slash_normalized(src.last().0), src.last().2))
        } else {
            prev
        }
    }
}

/// A source with N regular files converts, whenever it converts, into exactly
/// N members, directories never among them, each named without a backslash.
pub proof fn lemma_one_member_per_file<T: EntryTransform>(t: T, src: Seq<(Seq<char>, bool, Seq<u8>)>)
    requires
        transcoded(t, src) is Ok,
    ensures
        transcoded(t, src)->Ok_0.len() == file_count(src),
        forall|i: int|
            0 <= i < transcoded(t, src)->Ok_0.len() ==> !(#[trigger] transcoded(t, src)->Ok_0[i]).0.contains('\\'),
    decreases src.len(),
{
    if src.len() > 0 {
        lemma_one_member_per_file(t, src.drop_last());
        let out = transcoded(t, src)->Ok_0;
        let prev = transcoded(t, src.drop_last())->Ok_0;
        assert forall|i: int| 0 <= i < out.len() implies !(#[trigger] out[i]).0.contains('\\') by {
            if i < prev.len() {
                assert(out[i] == prev[i]);
            } else {
                let n = out[i].0;
                assert forall|j: int| 0 <= j < n.len() implies n[j] != '\\' by {}
            }
        }
    }
}

/// The regular files of `src`, in order, as name and content.
pub open spec fn regular_files(src: Seq<(Seq<char>, bool, Seq<u8>)>) -> Seq<(Seq<char>, Seq<u8>)>
    decreases src.len(),
{
    if src.len() == 0 {
        Seq::empty()
    } else {
        let prev = regular_files(src.drop_last());
        if src.last().1 {
            prev.push((src.last().0, src.last().2))
        } else {
            prev
        }
    }
}

/// Through the identity transform a source always converts, into its regular
/// files with their contents unchanged and their names slash-normalized; where
/// no name holds a backslash (as in a ZIP archive), into exactly its regular
/// files, names and contents alike.
pub proof fn lemma_identity_keeps_files(src: Seq<(Seq<char>, bool, Seq<u8>)>)
    ensures
        transcoded(Identity, src) == Ok::<_, Seq<char>>(normalized_files(src)),
        (forall|i: int| 0 <= i < src.len() ==> !(#[trigger] src[i]).0.contains('\\')) ==> normalized_files(src)
            == regular_files(src),
    decreases src.len(),
{
    if src.len() > 0 {
        lemma_identity_keeps_files(src.drop_last());
        if forall|i: int| 0 <= i < src.len() ==> !(#[trigger] src[i]).0.contains('\\') {
            assert forall|i: int| 0 <= i < src.drop_last().len() implies !(#[trigger] src.drop_last()[i]).0.contains(
                '\\',
            ) by {
                assert(src.drop_last()[i] == src[i]);
            }
            assert(!src[src.len() - 1].0.contains('\\'));
            lemma_normalized_unchanged(src.last().0);
        }
    }
}

/// A name without backslashes is its own slash-normalized form.
proof fn lemma_normalized_unchanged(n: Seq<char>)
    requires
        !n.contains('\\'),
    ensures
        slash_normalized(n) == n,
{
    assert forall|j: int| 0 <= j < n.len() implies slash_normalized(n)[j] == n[j] by {
        assert(n[j] != '\\');
    }
    assert(slash_normalized(n) =~= n);
}

} // verus!
