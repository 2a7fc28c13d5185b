use tocbz::naming::cbz_name;

#[test]
fn directory_gets_cbz_appended() {
    assert_eq!(cbz_name("books/comic", true, &Vec::new()), "books/comic.cbz");
}

#[test]
fn file_extension_is_replaced() {
    assert_eq!(cbz_name("books/comic.zip", false, &Vec::new()), "books/comic.cbz");
    assert_eq!(cbz_name("comic", false, &Vec::new()), "comic.cbz");
    assert_eq!(cbz_name("vol.1.rar", false, &Vec::new()), "vol.1.cbz");
}

#[test]
fn collision_appends_new() {
    let existing = vec!["comic.cbz".to_string(), "comic".to_string()];
    assert_eq!(cbz_name("comic", true, &existing), "comic_new.cbz");
}

#[test]
fn collision_goes_to_next_free_variant() {
    let existing = vec!["a/comic.cbz".to_string(), "a/comic_new.cbz".to_string()];
    assert_eq!(cbz_name("a/comic.rar", false, &existing), "a/comic_new_new.cbz");
}

#[test]
fn second_call_is_distinct_and_longer() {
    let mut existing = vec!["comic.cbz".to_string()];
    let first = cbz_name("comic.7z", false, &existing);
    existing.push(first.clone());
    let second = cbz_name("comic.7z", false, &existing);
    assert_ne!(first, second);
    assert!(second.len() > first.len());
    assert!(!existing.contains(&second));
}
