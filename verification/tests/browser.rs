use rudder::browser::{normalize, parts_of, read_dir_entries, render, sort_listing, FileBrowser, FsEntry, ListError};

fn e(name: &str, is_dir: bool) -> FsEntry {
    FsEntry { name: name.to_string(), is_dir }
}

fn names(v: &[FsEntry]) -> Vec<String> {
    v.iter().map(|x| if x.is_dir { format!("{}/", x.name) } else { x.name.clone() }).collect()
}

fn raw_listing() -> Vec<FsEntry> {
    vec![
        e("zeta.txt", false),
        e("src", true),
        e(".git", true),
        e("Apps", true),
        e("alpha.md", false),
        e("Beta.md", false),
        e(".env", false),
    ]
}

#[test]
fn normalize_resolves_dots() {
    assert_eq!(normalize("/a/./b/../c"), "/a/c");
    assert_eq!(normalize("/a//b/"), "/a/b");
    assert_eq!(normalize("/.."), "/");
    assert_eq!(normalize("/"), "/");
    assert_eq!(normalize("../x"), "../x");
    assert_eq!(normalize("a/../.."), "..");
    assert_eq!(normalize("./a/b"), "a/b");
}

#[test]
fn parts_and_render_round_trip() {
    let parts = parts_of("/home//user/./proj");
    assert_eq!(parts, vec!["home".to_string(), "user".to_string(), "proj".to_string()]);
    assert_eq!(render(true, &parts), "/home/user/proj");
    assert_eq!(render(false, &parts), "home/user/proj");
}

#[test]
fn sorting_puts_directories_first_ignoring_case() {
    let sorted = sort_listing(&raw_listing());
    assert_eq!(
        names(&sorted),
        vec![".git/", "Apps/", "src/", ".env", "alpha.md", "Beta.md", "zeta.txt"]
    );
}

#[test]
fn sorting_is_stable_for_equal_names() {
    let sorted = sort_listing(&vec![e("README", false), e("readme", false), e("Readme", false)]);
    assert_eq!(names(&sorted), vec!["README", "readme", "Readme"]);
}

#[test]
fn listing_hides_dot_entries_and_adds_parent() {
    let (entries, err) = read_dir_entries("/home/u", &Ok(raw_listing()));
    assert!(err.is_none());
    assert_eq!(names(&entries), vec!["../", "Apps/", "src/", "alpha.md", "Beta.md", "zeta.txt"]);
    let (entries, _) = read_dir_entries("/", &Ok(raw_listing()));
    assert_eq!(names(&entries), vec!["Apps/", "src/", "alpha.md", "Beta.md", "zeta.txt"]);
}

#[test]
fn listing_errors_become_messages() {
    let (entries, err) = read_dir_entries("/root", &Err(ListError::PermissionDenied));
    assert!(entries.is_empty());
    assert_eq!(err.as_deref(), Some("Permission denied: /root"));
    let (_, err) = read_dir_entries("/gone", &Err(ListError::NotFound));
    assert_eq!(err.as_deref(), Some("Path does not exist: /gone"));
    let (_, err) = read_dir_entries("/x", &Err(ListError::Other("I/O error".to_string())));
    assert_eq!(err.as_deref(), Some("Failed to read directory: /x (I/O error)"));
}

#[test]
fn new_browser_normalizes_its_directory() {
    let b = FileBrowser::new("/home/u/./proj/");
    assert_eq!(b.current_dir, "/home/u/proj");
    assert!(b.entries.is_empty());
    assert_eq!(b.selected, 0);
}

#[test]
fn refresh_previous_next() {
    let mut b = FileBrowser::new("/home/u");
    b.refresh(Ok(raw_listing()));
    assert_eq!(b.entries.len(), 6);
    b.previous();
    assert_eq!(b.selected, 0);
    for _ in 0..10 {
        b.next();
    }
    assert_eq!(b.selected, 5);
    b.previous();
    assert_eq!(b.selected, 4);
}

#[test]
fn refresh_clamps_the_selection() {
    let mut b = FileBrowser::new("/home/u");
    b.refresh(Ok(raw_listing()));
    b.selected = 5;
    b.refresh(Ok(vec![e("one", true)]));
    assert_eq!(b.selected, 1);
    b.refresh(Err(ListError::NotFound));
    assert!(b.entries.is_empty());
    assert_eq!(b.error.as_deref(), Some("Path does not exist: /home/u"));
}

#[test]
fn enter_selected_directory() {
    let mut b = FileBrowser::new("/home/u");
    b.refresh(Ok(raw_listing()));
    b.next();
    b.next();
    assert_eq!(b.entries[b.selected].name, "src");
    assert!(b.enter_selected());
    assert_eq!(b.current_dir, "/home/u/src");
    assert_eq!(b.selected, 0);
}

#[test]
fn enter_selected_file_does_nothing() {
    let mut b = FileBrowser::new("/home/u");
    b.refresh(Ok(raw_listing()));
    b.selected = 3;
    assert!(!b.enter_selected());
    assert_eq!(b.current_dir, "/home/u");
    assert_eq!(b.selected, 3);
}

#[test]
fn going_up_reselects_the_directory_left() {
    let mut b = FileBrowser::new("/home/u/proj");
    assert!(b.go_to_parent());
    assert_eq!(b.current_dir, "/home/u");
    b.refresh(Ok(vec![e("other", true), e("proj", true), e("notes.txt", false)]));
    assert_eq!(b.entries[b.selected].name, "proj");
    assert_eq!(b.selected, 2);
}

#[test]
fn dot_dot_entry_goes_up() {
    let mut b = FileBrowser::new("/home/u");
    b.refresh(Ok(raw_listing()));
    assert_eq!(b.entries[0].name, "..");
    assert!(b.enter_selected());
    assert_eq!(b.current_dir, "/home");
}

#[test]
fn root_has_no_parent() {
    let mut b = FileBrowser::new("/");
    assert!(!b.go_to_parent());
    assert_eq!(b.current_dir, "/");
}

#[test]
fn change_dir_only_to_a_directory() {
    let mut b = FileBrowser::new("/home/u");
    b.selected = 2;
    assert!(!b.change_dir("/nope", false));
    assert_eq!(b.current_dir, "/home/u");
    assert_eq!(b.selected, 2);
    assert!(b.change_dir("/tmp/../var/", true));
    assert_eq!(b.current_dir, "/var");
    assert_eq!(b.selected, 0);
}

#[test]
fn normalizing_twice_changes_nothing() {
    for p in ["/a/./b/../c/", "../x/../../y", "a//b/./..", "/..", "", ".", "./..", "/usr/local/../bin/"] {
        let once = normalize(p);
        assert_eq!(normalize(&once), once);
    }
}

#[test]
fn moving_around_keeps_the_directory_normalized() {
    let mut b = FileBrowser::new("/home//u/./proj/..");
    assert_eq!(normalize(&b.current_dir), b.current_dir);
    b.refresh(Ok(vec![e("src", true)]));
    b.next();
    assert!(b.enter_selected());
    assert_eq!(b.current_dir, "/home/u/src");
    assert!(b.go_to_parent());
    assert_eq!(normalize(&b.current_dir), b.current_dir);
    assert!(b.change_dir("/tmp/./a/../b/", true));
    assert_eq!(b.current_dir, "/tmp/b");
}

#[test]
fn entering_then_going_up_returns_to_the_same_entry() {
    let mut b = FileBrowser::new("/home/u");
    b.refresh(Ok(raw_listing()));
    b.next();
    b.next();
    let before = b.selected;
    assert_eq!(b.entries[before].name, "src");
    assert!(b.enter_selected());
    assert!(b.go_to_parent());
    assert_eq!(b.current_dir, "/home/u");
    b.refresh(Ok(raw_listing()));
    assert_eq!(b.selected, before);
}
