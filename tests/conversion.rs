use std::io::{Read, Write};
use tocbz::entry::{entries2cbz, transcode_entries, zip2cbz, ConvertError, SourceEntry};
use tocbz::resize::{rename_to_webp, resize_target, scale_width, Downscale};
use tocbz::session::{next_step, relocation_paths, Event, Outcome, Step};
use tocbz::kind::SourceKind;
use tocbz::path::source_path;
use tocbz::transform::{EntryTransform, Identity};

fn entry(name: &str, is_file: bool, data: &[u8]) -> SourceEntry {
    SourceEntry { name: name.to_string(), is_file, data: data.to_vec() }
}

fn read_back(bytes: Vec<u8>) -> Vec<(String, Vec<u8>)> {
    let mut a = zip::ZipArchive::new(std::io::Cursor::new(bytes)).unwrap();
    let mut out = Vec::new();
    for i in 0..a.len() {
        let mut f = a.by_index(i).unwrap();
        assert_eq!(f.compression(), zip::CompressionMethod::Deflated);
        let mut buf = Vec::new();
        f.read_to_end(&mut buf).unwrap();
        out.push((f.name().to_string(), buf));
    }
    out
}

fn png(width: u32, height: u32) -> Vec<u8> {
    let img = image::RgbImage::from_pixel(width, height, image::Rgb([200, 30, 30]));
    let mut buf = std::io::Cursor::new(Vec::new());
    image::DynamicImage::ImageRgb8(img).write_to(&mut buf, image::ImageFormat::Png).unwrap();
    buf.into_inner()
}

#[test]
fn directories_are_skipped_and_names_normalized() {
    let entries = vec![
        entry("sub", false, b""),
        entry("sub\\01.jpg", true, b"one"),
        entry("02.jpg", true, b"two"),
    ];
    let out = transcode_entries(entries, &Identity).unwrap();
    assert_eq!(out, vec![("sub/01.jpg".to_string(), b"one".to_vec()), ("02.jpg".to_string(), b"two".to_vec())]);
}

#[test]
fn archive_has_one_member_per_file() {
    let entries = vec![
        entry("a", false, b""),
        entry("a\\x.txt", true, b"x"),
        entry("a/b", false, b""),
        entry("a/b/y.txt", true, b"yy"),
        entry("z.txt", true, b""),
    ];
    let members = read_back(entries2cbz(entries, &Identity).unwrap());
    assert_eq!(members.len(), 3);
    assert_eq!(members[0].0, "a/x.txt");
    assert_eq!(members[1], ("a/b/y.txt".to_string(), b"yy".to_vec()));
    assert_eq!(members[2], ("z.txt".to_string(), Vec::new()));
}

#[test]
fn zip_round_trip_through_identity() {
    let mut w = zip::ZipWriter::new(std::io::Cursor::new(Vec::new()));
    let opts = zip::write::SimpleFileOptions::default().compression_method(zip::CompressionMethod::Stored);
    w.add_directory("pages/", opts).unwrap();
    w.start_file("pages/001.png", opts).unwrap();
    w.write_all(&[1, 2, 3, 4, 5]).unwrap();
    w.start_file("info.txt", opts).unwrap();
    w.write_all(b"title").unwrap();
    let source = w.finish().unwrap().into_inner();
    let members = read_back(zip2cbz(source, &Identity).unwrap());
    assert_eq!(
        members,
        vec![("pages/001.png".to_string(), vec![1, 2, 3, 4, 5]), ("info.txt".to_string(), b"title".to_vec())]
    );
}

#[test]
fn corrupt_zip_is_a_decode_error() {
    assert_eq!(zip2cbz(b"PK not really".to_vec(), &Identity), Err(ConvertError::Decode));
}

#[test]
fn short_image_passes_unchanged() {
    let data = png(40, 2560);
    let (out, name) = Downscale.apply(data.clone(), "p/01.png".to_string()).unwrap();
    assert_eq!(out, data);
    assert_eq!(name, "p/01.png");
}

#[test]
fn tall_image_is_resized_to_webp() {
    let data = png(100, 3000);
    let (out, name) = Downscale.apply(data, "p/01.png".to_string()).unwrap();
    assert_eq!(name, "p/01.webp");
    assert_eq!(image::guess_format(&out).unwrap(), image::ImageFormat::WebP);
    let img = image::load_from_memory(&out).unwrap();
    assert_eq!(img.height(), 2560);
    assert_eq!(img.width(), 85);
}

#[test]
fn text_passes_resizing_unchanged() {
    let data = vec![b'a'; 100_000];
    let (out, name) = Downscale.apply(data.clone(), "notes.txt".to_string()).unwrap();
    assert_eq!(out, data);
    assert_eq!(name, "notes.txt");
}

#[test]
fn resize_only_above_threshold() {
    assert_eq!(resize_target(None), None);
    assert_eq!(resize_target(Some((1000, 2560))), None);
    assert_eq!(resize_target(Some((1000, 2561))), Some(999));
    assert_eq!(resize_target(Some((1200, 3000))), Some(1024));
}

#[test]
fn webp_name_replaces_extension() {
    assert_eq!(rename_to_webp(&"a/b.c/01.png".to_string()), "a/b.c/01.webp");
    assert_eq!(rename_to_webp(&"cover".to_string()), "cover.webp");
}

#[test]
fn scaled_width_rounds_down() {
    assert_eq!(scale_width(100, 3000), 85);
    assert_eq!(scale_width(2000, 5120), 1000);
    assert_eq!(scale_width(1, 5000), 1);
}

#[test]
fn directory_comic_end_to_end() {
    let mut step = next_step("books/comic", Step::Classify, Event::Classified {
        kind: SourceKind::Directory,
        is_dir: true,
        existing: vec!["books/comic".to_string()],
    });
    let dest = match &step {
        Step::Convert { kind, dest } => {
            assert_eq!(*kind, SourceKind::Directory);
            dest.clone()
        }
        other => panic!("unexpected step {:?}", other),
    };
    assert_eq!(dest, "books/comic.cbz");
    let entries = vec![entry("01.png", true, &png(300, 3000)), entry("notes.txt", true, b"read me")];
    let members = read_back(entries2cbz(entries, &Downscale).unwrap());
    assert_eq!(members.len(), 2);
    assert_eq!(members[0].0, "01.webp");
    let img = image::load_from_memory(&members[0].1).unwrap();
    assert_eq!((img.width(), img.height()), (256, 2560));
    assert_eq!(members[1], ("notes.txt".to_string(), b"read me".to_vec()));
    step = next_step("books/comic", step, Event::Written(Ok(())));
    match &step {
        Step::Relocate { dest: d, old_dir, target } => {
            assert_eq!(d, "books/comic.cbz");
            assert_eq!(old_dir, "books/old");
            assert_eq!(target, "books/old/comic");
        }
        other => panic!("unexpected step {:?}", other),
    }
    step = next_step("books/comic", step, Event::Moved(true));
    assert!(matches!(step, Step::Done(Outcome::Converted(ref d)) if d == "books/comic.cbz"));
}

#[test]
fn existing_destination_gets_new_suffix() {
    let step = next_step("comic.zip", Step::Classify, Event::Classified {
        kind: SourceKind::Zip,
        is_dir: false,
        existing: vec!["comic.zip".to_string(), "comic.cbz".to_string()],
    });
    assert!(matches!(step, Step::Convert { ref dest, .. } if dest == "comic_new.cbz"));
}

#[test]
fn unsupported_source_is_reported() {
    let step = next_step("notes.txt", Step::Classify, Event::Classified {
        kind: SourceKind::Unsupported,
        is_dir: false,
        existing: Vec::new(),
    });
    assert!(matches!(step, Step::Done(Outcome::NotSupported)));
}

#[test]
fn unreadable_source_fails() {
    let step = next_step("gone.zip", Step::Classify, Event::Unreadable);
    assert!(matches!(step, Step::Done(Outcome::Failed(ConvertError::Unreadable))));
}

#[test]
fn failed_write_never_relocates() {
    let errors = || vec![ConvertError::Decode, ConvertError::Write, ConvertError::Transform("x.png".to_string())];
    for (e, expected) in errors().into_iter().zip(errors()) {
        let step = Step::Convert { kind: SourceKind::Rar, dest: "c.cbz".to_string() };
        let next = next_step("c.rar", step, Event::Written(Err(e)));
        assert!(matches!(next, Step::Done(Outcome::Failed(ref f)) if *f == expected));
    }
}

#[test]
fn failed_move_keeps_the_archive() {
    let step = Step::Relocate { dest: "c.cbz".to_string(), old_dir: "old".to_string(), target: "old/c.rar".to_string() };
    let next = next_step("c.rar", step, Event::Moved(false));
    assert!(matches!(next, Step::Done(Outcome::NotRelocated(ref d)) if d == "c.cbz"));
}

#[test]
fn relocation_beside_top_level_source() {
    let (dir, target) = relocation_paths("comic.rar");
    assert_eq!(dir, "old");
    assert_eq!(target, "old/comic.rar");
    let (dir, target) = relocation_paths("/comic");
    assert_eq!(dir, "/old");
    assert_eq!(target, "/old/comic");
}

#[test]
fn trailing_slash_is_dropped_and_backslash_kept() {
    assert_eq!(source_path("a/b/comic//"), "a/b/comic");
    assert_eq!(source_path("/"), "/");
    assert_eq!(source_path("books/a\\b.zip"), "books/a\\b.zip");
    let step = next_step("books/comic/", Step::Classify, Event::Classified {
        kind: SourceKind::Directory,
        is_dir: true,
        existing: vec!["books/comic".to_string()],
    });
    assert!(matches!(step, Step::Convert { ref dest, .. } if dest == "books/comic.cbz"));
    let step = next_step("books/comic/", step, Event::Written(Ok(())));
    match step {
        Step::Relocate { old_dir, target, .. } => {
            assert_eq!(old_dir, "books/old");
            assert_eq!(target, "books/old/comic");
        }
        other => panic!("unexpected step {:?}", other),
    }
    let step = next_step("books/a\\b.zip", Step::Classify, Event::Classified {
        kind: SourceKind::Zip,
        is_dir: false,
        existing: Vec::new(),
    });
    assert!(matches!(step, Step::Convert { ref dest, .. } if dest == "books/a\\b.cbz"));
}

#[test]
fn unreadable_zip_member_is_a_decode_error() {
    let mut w = zip::ZipWriter::new(std::io::Cursor::new(Vec::new()));
    let opts = zip::write::SimpleFileOptions::default().compression_method(zip::CompressionMethod::Stored);
    w.start_file("a.txt", opts).unwrap();
    w.write_all(b"hello world").unwrap();
    let mut bytes = w.finish().unwrap().into_inner();
    let at = bytes.windows(11).position(|x| x == b"hello world").unwrap();
    bytes[at] = b'J';
    assert_eq!(zip2cbz(bytes, &Identity), Err(ConvertError::Decode));
}

#[test]
fn duplicate_names_are_a_write_error() {
    let entries = vec![entry("a.txt", true, b"1"), entry("a.txt", true, b"2")];
    assert_eq!(entries2cbz(entries, &Identity), Err(ConvertError::Write));
}
