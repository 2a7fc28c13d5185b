use tocbz::renumber::{can_rename, generate_new_names, make_temp_file_path};

#[test]
fn test_make_temp_file_path() {
    let file = "test.txt";
    let temp_file = make_temp_file_path(file, &Vec::new()).unwrap();
    println!("{:?}", temp_file);
    assert_ne!(temp_file, file);
}

#[test]
fn temp_path_avoids_taken_names() {
    let first = make_temp_file_path("dir/a.png", &Vec::new()).unwrap();
    assert!(first.starts_with("dir/a.png."));
    let second = make_temp_file_path("dir/a.png", &vec![first.clone()]).unwrap();
    assert_ne!(first, second);
    assert!(second.starts_with("dir/a.png."));
}

#[test]
fn new_names_are_padded_and_keep_extensions() {
    let files = vec!["dir/b.jpg".to_string(), "dir/a".to_string(), "c.png".to_string()];
    let names = generate_new_names(&files, 3, 1);
    assert_eq!(names, vec!["dir/001.jpg", "dir/002", "003.png"]);
}

#[test]
fn new_names_wider_than_padding() {
    let files = vec!["x/p.jpg".to_string()];
    assert_eq!(generate_new_names(&files, 1, 123), vec!["x/123.jpg"]);
    assert_eq!(generate_new_names(&files, 2, 0), vec!["x/00.jpg"]);
}

#[test]
fn rename_blocked_only_by_foreign_paths() {
    let files = vec!["d/b.jpg".to_string(), "d/001.jpg".to_string()];
    let new_names = vec!["d/001.jpg".to_string(), "d/002.jpg".to_string()];
    assert!(can_rename(&files, &new_names, &vec!["d/001.jpg".to_string()]));
    assert!(!can_rename(&files, &new_names, &vec!["d/002.jpg".to_string()]));
    assert!(can_rename(&files, &new_names, &Vec::new()));
}
