use std::io::Write;
use tocbz::kind::{classify, sniff, SourceKind};

fn small_zip() -> Vec<u8> {
    let mut w = zip::ZipWriter::new(std::io::Cursor::new(Vec::new()));
    w.start_file("a.txt", zip::write::SimpleFileOptions::default()).unwrap();
    w.write_all(b"hello").unwrap();
    w.finish().unwrap().into_inner()
}

#[test]
fn text_file_is_not_supported() {
    assert_eq!(sniff("notes.txt", false, &b"plain words".to_vec()), SourceKind::Unsupported);
}

#[test]
fn kinds_by_extension() {
    assert_eq!(classify("a/b.rar", false, false), SourceKind::Rar);
    assert_eq!(classify("a/b.7z", false, false), SourceKind::SevenZip);
    assert_eq!(classify("a/b.RAR", false, false), SourceKind::Unsupported);
    assert_eq!(classify("a/.rar", false, false), SourceKind::Unsupported);
    assert_eq!(classify("a/b", true, false), SourceKind::Directory);
}

#[test]
fn zip_content_wins_over_extension() {
    assert_eq!(sniff("misnamed.rar", false, &small_zip()), SourceKind::Zip);
    assert_eq!(sniff("comic.cbz", false, &small_zip()), SourceKind::Zip);
}
