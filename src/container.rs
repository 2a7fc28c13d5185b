//! ZIP containers held in memory, read and written through the `zip` crate.
use vstd::prelude::*;
use std::io::Cursor;
use zip::result::ZipError;
use zip::{ZipArchive, ZipWriter};

verus! {

/// `std::io::Cursor`, carried opaque.
#[verifier::external_type_specification]
#[verifier::external_body]
#[verifier::reject_recursive_types(T)]
pub struct ExCursor<T>(std::io::Cursor<T>);

/// `std::io::Error`, carried opaque.
#[verifier::external_type_specification]
#[verifier::external_body]
pub struct ExIoError(std::io::Error);

/// `zip::result::ZipError`, carried opaque.
#[verifier::external_type_specification]
#[verifier::external_body]
pub struct ExZipError(zip::result::ZipError);

/// `zip::ZipArchive`, opaque; what it holds is `archive_members`.
#[verifier::external_type_specification]
#[verifier::external_body]
#[verifier::reject_recursive_types(R)]
pub struct ExZipArchive<R>(zip::ZipArchive<R>);

/// A ZIP writer over an in-memory buffer, held opaque: Verus does not accept a
/// declaration of `zip::ZipWriter` with its `Write + Seek` bounds.
#[verifier::external_body]
pub struct MemberWriter {
    inner: ZipWriter<Cursor<Vec<u8>>>,
}

/// The most characters an entry name may have here: the ZIP format stores a
/// name's length in 16 bits, and a character takes at most four bytes.
pub const MAX_NAME_CHARS: usize = 16383;

/// The greatest content length of an entry this library writes. An entry
/// without ZIP64 extensions must stay under 4 GiB both before and after
/// compression; deflate's worst case adds a few bytes for each stored block of
/// at most 64 KiB plus a small constant (well under 1 MiB at this size), so
/// 256 MiB below the limit leaves room for it.
pub const MAX_CONTENT_LEN: u64 = 0xf000_0000;

/// A member of a ZIP archive: its name, whether it is a regular file, its
/// decompressed content, and whether it opens and reads to its end.
pub type Member = (Seq<char>, bool, Seq<u8>, bool);

/// Whether `ZipArchive::new` accepts `data` (its central directory parses).
pub uninterp spec fn zip_opens(data: Seq<u8>) -> bool;

/// The members of the ZIP archive held in `data`, in container order.
pub uninterp spec fn zip_listing(data: Seq<u8>) -> Seq<Member>;

/// The members of an opened archive, in container order.
pub uninterp spec fn archive_members(a: ZipArchive<Cursor<Vec<u8>>>) -> Seq<Member>;

/// The entries written so far into a ZIP writer, in order: name and content.
pub uninterp spec fn written_members(w: MemberWriter) -> Seq<(Seq<char>, Seq<u8>)>;

/// No call on the writer has failed so far, and no entry's content exceeds
/// `MAX_CONTENT_LEN`.
pub uninterp spec fn writer_sound(w: MemberWriter) -> bool;

/// The bytes of the ZIP file that holds `members`, deflate-compressed.
pub uninterp spec fn zip_image(members: Seq<(Seq<char>, Seq<u8>)>) -> Seq<u8>;

/// Whether one of `members` is named `name`.
pub open spec fn has_name(members: Seq<(Seq<char>, Seq<u8>)>, name: Seq<char>) -> bool {
    exists|j: int| 0 <= j < members.len() && (#[trigger] members[j]).0 == name
}

/// Relies on `zip::ZipArchive::new`: reads the central directory of `data`,
/// failing when it does not parse.
#[verifier::external_body]
pub(crate) fn open_archive(data: Vec<u8>) -> (r: Result<ZipArchive<Cursor<Vec<u8>>>, ZipError>)
    ensures
        r is Ok == zip_opens(data@),
        r matches Ok(a) ==> archive_members(a) == zip_listing(data@),
{
    ZipArchive::new(Cursor::new(data))
}

/// Relies on `zip::ZipArchive::len`: the number of members.
#[verifier::external_body]
pub(crate) fn member_count(a: &ZipArchive<Cursor<Vec<u8>>>) -> (r: usize)
    ensures
        r == archive_members(*a).len(),
{
    a.len()
}

/// Relies on `zip::ZipArchive::by_index` with `ZipFile::name` and
/// `ZipFile::is_file`: the name of member `i` and whether it is a regular file.
#[verifier::external_body]
pub(crate) fn member_meta(a: &mut ZipArchive<Cursor<Vec<u8>>>, i: usize) -> (r: Result<(String, bool), ZipError>)
    requires
        i < archive_members(*old(a)).len(),
    ensures
        archive_members(*final(a)) == archive_members(*old(a)),
        archive_members(*old(a))[i as int].3 ==> r is Ok,
        r matches Ok((name, is_file)) ==> name@ == archive_members(*old(a))[i as int].0
            && is_file == archive_members(*old(a))[i as int].1,
{
    let f = a.by_index(i)?;
    Ok((f.name().to_string(), f.is_file()))
}

/// Relies on `zip::ZipArchive::by_index` read to its end: the decompressed
/// content of member `i`, when it opens and reads.
#[verifier::external_body]
pub(crate) fn member_content(a: &mut ZipArchive<Cursor<Vec<u8>>>, i: usize) -> (r: Result<Vec<u8>, ZipError>)
    requires
        i < archive_members(*old(a)).len(),
    ensures
        archive_members(*final(a)) == archive_members(*old(a)),
        r is Ok <==> archive_members(*old(a))[i as int].3,
        r matches Ok(data) ==> data@ == archive_members(*old(a))[i as int].2,
{
    let mut f = a.by_index(i)?;
    let mut buf = Vec::new();
    std::io::Read::read_to_end(&mut f, &mut buf)?;
    Ok(buf)
}

/// Relies on `zip::ZipWriter::new`: a writer with no entries, over an empty buffer.
#[verifier::external_body]
pub(crate) fn new_writer() -> (r: MemberWriter)
    ensures
        written_members(r) == Seq::<(Seq<char>, Seq<u8>)>::empty(),
        writer_sound(r),
{
    MemberWriter { inner: ZipWriter::new(Cursor::new(Vec::new())) }
}

/// Relies on `zip::ZipWriter::start_file` with deflate compression and a fixed
/// modification time (1980-01-01): finishes the previous entry and starts a
/// new, still empty entry named `name`; it refuses a name already written.
#[verifier::external_body]
pub(crate) fn begin_member(w: &mut MemberWriter, name: &str) -> (r: Result<(), ZipError>)
    requires
        name@.len() <= MAX_NAME_CHARS,
    ensures
        writer_sound(*old(w)) && !has_name(written_members(*old(w)), name@) ==> r is Ok && writer_sound(*final(w)),
        r is Ok ==> written_members(*final(w)) == written_members(*old(w)).push((name@, Seq::empty())),
{
    let options = zip::write::SimpleFileOptions::default()
        .compression_method(zip::CompressionMethod::Deflated)
        .last_modified_time(zip::DateTime::default());
    w.inner.start_file(name, options)
}

/// Relies on `Write::write_all` of `zip::ZipWriter`: appends `data` to the
/// content of the entry last started, which may not grow past `MAX_CONTENT_LEN`.
#[verifier::external_body]
pub(crate) fn append_content(w: &mut MemberWriter, data: &[u8]) -> (r: Result<(), std::io::Error>)
    requires
        written_members(*old(w)).len() > 0,
    ensures
        writer_sound(*old(w)) && written_members(*old(w)).last().1.len() + data@.len() <= MAX_CONTENT_LEN ==> r is Ok
            && writer_sound(*final(w)),
        r is Ok ==> written_members(*final(w)) == written_members(*old(w)).drop_last().push(
            (written_members(*old(w)).last().0, written_members(*old(w)).last().1 + data@),
        ),
{
    std::io::Write::write_all(&mut w.inner, data)
}

/// Relies on `zip::ZipWriter::finish`: writes the central directory and hands
/// back the bytes of the whole archive.
#[verifier::external_body]
pub(crate) fn finish_writer(w: MemberWriter) -> (r: Result<Vec<u8>, ZipError>)
    ensures
        writer_sound(w) ==> r is Ok,
        r matches Ok(bytes) ==> bytes@ == zip_image(written_members(w)),
{
    Ok(w.inner.finish()?.into_inner())
}

} // verus!
