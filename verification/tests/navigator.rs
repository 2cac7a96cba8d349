use imgvwr::navigator::{scan_plan, Navigator, ScanError};
use imgvwr::paths::is_supported;

fn entries(names: &[&str]) -> Vec<String> {
    names.iter().map(|n| format!("/tmp/pics/{n}")).collect()
}

fn file_name(p: &str) -> &str {
    p.rsplit('/').next().unwrap()
}

#[test]
fn scan_dir_sorts_by_filename() {
    let nav = Navigator::from_entries(&entries(&["c.png", "a.png", "b.png"]), None).unwrap();
    assert_eq!(file_name(nav.current()), "a.png");
    let names: Vec<&str> = nav.paths.iter().map(|p| file_name(p)).collect();
    assert_eq!(names, vec!["a.png", "b.png", "c.png"]);
}

#[test]
fn scan_file_starts_at_that_file() {
    let nav = Navigator::from_entries(
        &entries(&["a.png", "b.png", "c.png"]),
        Some("/tmp/pics/b.png"),
    )
    .unwrap();
    assert_eq!(file_name(nav.current()), "b.png");
}

#[test]
fn start_matches_paths_component_wise() {
    let nav = Navigator::from_entries(
        &entries(&["a.png", "b.png", "c.png"]),
        Some("/tmp//pics/./c.png"),
    )
    .unwrap();
    assert_eq!(file_name(nav.current()), "c.png");
}

#[test]
fn start_that_is_not_listed_starts_at_first() {
    let nav = Navigator::from_entries(
        &entries(&["b.png", "a.png", "notes.txt"]),
        Some("/tmp/pics/notes.txt"),
    )
    .unwrap();
    assert_eq!(nav.current, 0);
    assert_eq!(file_name(nav.current()), "a.png");
}

#[test]
fn next_wraps_around() {
    let mut nav = Navigator::from_entries(&entries(&["a.png", "b.png"]), None).unwrap();
    nav.next();
    assert_eq!(file_name(nav.current()), "b.png");
    nav.next();
    assert_eq!(file_name(nav.current()), "a.png");
}

#[test]
fn prev_wraps_around() {
    let mut nav = Navigator::from_entries(&entries(&["a.png", "b.png"]), None).unwrap();
    nav.prev();
    assert_eq!(file_name(nav.current()), "b.png");
    nav.prev();
    assert_eq!(file_name(nav.current()), "a.png");
}

#[test]
fn empty_dir_returns_error() {
    assert!(Navigator::from_entries(&Vec::new(), None).is_none());
}

#[test]
fn non_image_files_are_excluded() {
    let nav = Navigator::from_entries(&entries(&["readme.txt", "image.png"]), None).unwrap();
    assert_eq!(nav.paths.len(), 1);
    assert_eq!(file_name(nav.current()), "image.png");
}

#[test]
fn only_unsupported_files_return_error() {
    assert!(Navigator::from_entries(&entries(&["readme.txt", ".png", "png"]), None).is_none());
}

#[test]
fn extension_is_matched_case_insensitively() {
    assert!(is_supported("/x/photo.PNG"));
    assert!(is_supported("photo.pNg"));
    assert!(!is_supported("photo.png.txt"));
    assert!(!is_supported(".png"));
    assert!(!is_supported("photo.jpg"));
    assert!(!is_supported("photo"));
}

#[test]
fn next_then_prev_returns_to_start() {
    let mut nav = Navigator::from_entries(&entries(&["a.png", "b.png", "c.png"]), None).unwrap();
    for start in 0..3 {
        nav.current = start;
        nav.next();
        nav.prev();
        assert_eq!(nav.current, start);
        nav.prev();
        nav.next();
        assert_eq!(nav.current, start);
    }
}

#[test]
fn n_steps_forward_come_back() {
    let mut nav = Navigator::from_entries(&entries(&["a.png", "b.png", "c.png"]), None).unwrap();
    nav.current = 1;
    for _ in 0..3 {
        nav.next();
    }
    assert_eq!(nav.current, 1);
}

#[test]
fn remove_current_moves_to_following_image() {
    let mut nav = Navigator::from_entries(&entries(&["a.png", "b.png", "c.png"]), None).unwrap();
    nav.current = 1;
    assert_eq!(nav.remove_current().map(file_name), Some("c.png"));
    assert_eq!(nav.paths.len(), 2);
    assert_eq!(nav.remove_current().map(file_name), Some("a.png"));
    assert_eq!(nav.current, 0);
    assert_eq!(nav.remove_current(), None);
    assert!(nav.paths.is_empty());
}

#[test]
fn scan_plan_for_file_and_directory() {
    let plan = scan_plan("/tmp/pics/b.png", false).unwrap();
    assert_eq!(plan.dir, "/tmp/pics");
    assert_eq!(plan.start.as_deref(), Some("/tmp/pics/b.png"));
    let plan = scan_plan("/tmp/pics", true).unwrap();
    assert_eq!(plan.dir, "/tmp/pics");
    assert!(plan.start.is_none());
    assert_eq!(scan_plan("/", false).err(), Some(ScanError::NoParent));
    let plan = scan_plan("b.png", false).unwrap();
    assert_eq!(plan.dir, ".");
    assert_eq!(plan.start.as_deref(), Some("./b.png"));
}

#[test]
fn equal_file_names_keep_their_order() {
    let e = vec![
        "/z/same.png".to_string(),
        "/a/other.png".to_string(),
        "/a/same.png".to_string(),
    ];
    let nav = Navigator::from_entries(&e, None).unwrap();
    assert_eq!(nav.paths, vec!["/a/other.png", "/z/same.png", "/a/same.png"]);
}

#[test]
fn removing_the_last_image_wraps_to_the_first() {
    let mut nav =
        Navigator::from_entries(&entries(&["a.png", "b.png", "c.png", "d.png"]), None).unwrap();
    nav.current = 3;
    assert_eq!(nav.remove_current().map(file_name), Some("a.png"));
    assert_eq!(nav.current, 0);
    assert_eq!(nav.paths.len(), 3);
}

#[test]
fn bare_file_name_opens_in_current_directory() {
    let plan = scan_plan("b.png", false).unwrap();
    let listing = vec!["./a.png".to_string(), "./b.png".to_string()];
    let nav = Navigator::from_entries(&listing, plan.start.as_deref()).unwrap();
    assert_eq!(file_name(nav.current()), "b.png");
}
