//! Deciding which kind of container a source path holds.
use vstd::prelude::*;
use crate::container::zip_opens;
use crate::entry::is_zip;
use crate::path::{extension_chars, extension_of};
use crate::text::chars_of;

verus! {

/// The kinds of source a conversion starts from.
#[derive(PartialEq, Eq, Structural, Clone, Copy, Debug)]
pub enum SourceKind {
    Directory,
    Zip,
    Rar,
    SevenZip,
    Unsupported,
}

/// The kind of the source at `path`: a directory is a directory; a file is a
/// ZIP archive whenever it parses as one, whatever its name; otherwise the
/// extension `rar` or `7z` decides.
pub open spec fn kind_of(path: Seq<char>, is_dir: bool, zip_ok: bool) -> SourceKind {
    if is_dir {
        SourceKind::Directory
    } else if zip_ok {
        SourceKind::Zip
    } else if extension_of(path) == seq!['r', 'a', 'r'] {
        SourceKind::Rar
    } else if extension_of(path) == seq!['7', 'z'] {
        SourceKind::SevenZip
    } else {
        SourceKind::Unsupported
    }
}

/// The kind of the source at `path`, given whether it is a directory and
/// whether its content parses as a ZIP archive.
pub fn classify(path: &str, is_dir: bool, zip_ok: bool) -> (r: SourceKind)
    ensures
        r == kind_of(path@, is_dir, zip_ok),
{
    if is_dir {
        return SourceKind::Directory;
    }
    if zip_ok {
        return SourceKind::Zip;
    }
    let p = chars_of(path);
    let (_, ext) = extension_chars(&p);
    if ext.len() == 3 && ext[0] == 'r' && ext[1] == 'a' && ext[2] == 'r' {
        assert(ext@ =~= seq!['r', 'a', 'r']);
        SourceKind::Rar
    } else if ext.len() == 2 && ext[0] == '7' && ext[1] == 'z' {
        assert(ext@ =~= seq!['7', 'z']);
        SourceKind::SevenZip
    } else {
        assert(ext@ != seq!['r', 'a', 'r'] ==> ext@.len() != 3 || ext@[0] != 'r' || ext@[1] != 'a' || ext@[2] != 'r');
        SourceKind::Unsupported
    }
}

/// The kind of the source at `path`, a directory when `is_dir`, else the file
/// whose content is `data`.
pub fn sniff(path: &str, is_dir: bool, data: &Vec<u8>) -> (r: SourceKind)
    ensures
        r == kind_of(path@, is_dir, !is_dir && zip_opens(data@)),
{
    let zip_ok = !is_dir && is_zip(data);
    classify(path, is_dir, zip_ok)
}

} // verus!
