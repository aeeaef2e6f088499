use explorer_core::{AppState, FileMeta, FsOutcome, ScanEntry};

fn entry(name: &str, is_dir: bool, size: u64) -> ScanEntry {
    ScanEntry {
        name: name.to_string(),
        meta: Some(FileMeta { is_dir, size }),
    }
}

fn home_scan() -> Vec<ScanEntry> {
    vec![entry("docs", true, 0), entry("a.txt", false, 42)]
}

#[test]
fn start_uses_the_reported_home_or_falls_back_to_the_root() {
    let s = AppState::start(Some("/home/u".to_string()));
    assert_eq!(s.current_dir, "/home/u");

    let s = AppState::start(None);
    assert_eq!(s.current_dir, "/");

    // a report that is not an absolute path is treated as unavailable
    let s = AppState::start(Some("relative".to_string()));
    assert_eq!(s.current_dir, "/");
}

#[test]
fn view_then_open_then_back_round_trip() {
    // cursor /home/u containing docs/ and a.txt
    let mut state = AppState::new("/home/u".to_string());

    let view = state.get_current_view(Ok(home_scan())).unwrap();
    assert_eq!(view.current_path, "/home/u");
    assert_eq!(view.items.len(), 2);
    assert_eq!(view.items[0].name, "docs");
    assert!(view.items[0].is_dir);
    assert_eq!(view.items[1].name, "a.txt");
    assert!(!view.items[1].is_dir);
    assert_eq!(view.items[1].size, 42);

    let opened = state.open_folder("docs", true, Ok(Vec::new())).unwrap();
    assert_eq!(state.current_dir, "/home/u/docs");
    assert_eq!(opened.current_path, "/home/u/docs");
    assert!(opened.can_go_back);

    let back = state.go_back(Ok(home_scan())).unwrap();
    assert_eq!(state.current_dir, "/home/u");
    assert_eq!(back.current_path, "/home/u");
}

#[test]
fn open_of_a_non_directory_leaves_the_cursor_alone() {
    let mut state = AppState::new("/home/u".to_string());
    let r = state.open_folder("a.txt", false, Ok(Vec::new()));
    assert_eq!(r.err().unwrap().message, "Not a directory");
    assert_eq!(state.current_dir, "/home/u");
}

#[test]
fn open_of_a_missing_name_leaves_the_cursor_alone() {
    let mut state = AppState::new("/home/u".to_string());
    let r = state.open_folder("no_such_dir", false, Ok(Vec::new()));
    assert!(r.is_err());
    assert_eq!(state.current_dir, "/home/u");
}

#[test]
fn open_accepts_an_absolute_path_verbatim() {
    let mut state = AppState::new("/home/u".to_string());
    state.open_folder("/tmp", true, Ok(Vec::new())).unwrap();
    assert_eq!(state.current_dir, "/tmp");
}

#[test]
fn open_rejects_an_embedded_nul() {
    let mut state = AppState::new("/home/u".to_string());
    let r = state.open_folder("bad\0name", true, Ok(Vec::new()));
    assert_eq!(r.err().unwrap().message, "Invalid input");
    assert_eq!(state.current_dir, "/home/u");
}

#[test]
fn go_back_at_the_root_is_a_no_op_that_lists_the_root() {
    let mut state = AppState::new("/".to_string());
    let view = state.go_back(Ok(Vec::new())).unwrap();
    assert_eq!(state.current_dir, "/");
    assert_eq!(view.current_path, "/");
    assert!(!view.can_go_back);
}

#[test]
fn delete_then_view_never_lists_the_deleted_name() {
    let state = AppState::new("/home/u".to_string());
    // after the caller removed a.txt, the rescan no longer holds it
    let rescan = vec![entry("docs", true, 0)];
    let view = state
        .delete_item("a.txt", FsOutcome::Done, Ok(rescan))
        .unwrap();
    assert!(view.items.iter().all(|n| n.name != "a.txt"));
    assert_eq!(state.current_dir, "/home/u");
}

#[test]
fn delete_failure_is_surfaced() {
    let state = AppState::new("/home/u".to_string());
    let r = state.delete_item(
        "a.txt",
        FsOutcome::Failed("permission denied".to_string()),
        Ok(Vec::new()),
    );
    assert_eq!(r.err().unwrap().message, "permission denied");
}

#[test]
fn create_folder_twice_reports_a_conflict_and_one_folder_remains() {
    let state = AppState::new("/home/u".to_string());

    let first = state
        .create_folder("X", FsOutcome::Done, Ok(vec![entry("X", true, 0)]))
        .unwrap();
    assert_eq!(first.items.len(), 1);
    assert_eq!(first.items[0].name, "X");

    // the second attempt: the filesystem reports the conflict
    let second = state.create_folder(
        "X",
        FsOutcome::AlreadyExists,
        Ok(vec![entry("X", true, 0)]),
    );
    assert_eq!(second.err().unwrap().message, "Already exists");

    // exactly one folder named X is left
    let view = state
        .get_current_view(Ok(vec![entry("X", true, 0)]))
        .unwrap();
    let count = view.items.iter().filter(|n| n.name == "X").count();
    assert_eq!(count, 1);
}

#[test]
fn create_file_lists_the_new_file() {
    let state = AppState::new("/home/u".to_string());
    let view = state
        .create_file("n.txt", FsOutcome::Done, Ok(vec![entry("n.txt", false, 0)]))
        .unwrap();
    assert_eq!(view.items.len(), 1);
    assert_eq!(view.items[0].name, "n.txt");
}

#[test]
fn rename_yields_exactly_the_new_name() {
    let state = AppState::new("/home/u".to_string());
    // directory held only a.txt; the caller renamed it to b.txt
    let rescan = vec![entry("b.txt", false, 42)];
    let view = state
        .rename_item("a.txt", "b.txt", FsOutcome::Done, Ok(rescan))
        .unwrap();
    let names: Vec<&str> = view.items.iter().map(|n| n.name.as_str()).collect();
    assert_eq!(names, vec!["b.txt"]);
}

#[test]
fn rename_rejects_an_embedded_nul() {
    let state = AppState::new("/home/u".to_string());
    let r = state.rename_item("a\0", "b", FsOutcome::Done, Ok(Vec::new()));
    assert_eq!(r.err().unwrap().message, "Invalid input");
}

#[test]
fn search_keeps_every_match_in_listing_order() {
    let state = AppState::new("/home/u".to_string());
    let scan = vec![
        entry("notes.txt", false, 1),
        entry("Notebook", true, 0),
        entry("other", false, 2),
    ];
    let found = state.search_files("note", Ok(scan)).unwrap();
    let names: Vec<&str> = found.items.iter().map(|n| n.name.as_str()).collect();
    // the directory first, then the file, both matching case-insensitively
    assert_eq!(names, vec!["Notebook", "notes.txt"]);
}

#[test]
fn search_with_empty_query_returns_the_full_view() {
    let state = AppState::new("/home/u".to_string());
    let all = state.get_current_view(Ok(home_scan())).unwrap();
    let found = state.search_files("", Ok(home_scan())).unwrap();
    let a: Vec<&str> = all.items.iter().map(|n| n.name.as_str()).collect();
    let b: Vec<&str> = found.items.iter().map(|n| n.name.as_str()).collect();
    assert_eq!(a, b);
}

#[test]
fn search_is_case_insensitive_and_a_subset_of_the_view() {
    let state = AppState::new("/home/u".to_string());
    let all = state.get_current_view(Ok(home_scan())).unwrap();

    let found = state.search_files("DOCS", Ok(home_scan())).unwrap();
    assert_eq!(found.items.len(), 1);
    assert_eq!(found.items[0].name, "docs");

    // every hit names an entry of the unfiltered view
    for hit in &found.items {
        assert!(all.items.iter().any(|n| n.name == hit.name));
    }
}

#[test]
fn search_misses_return_an_empty_listing() {
    let state = AppState::new("/home/u".to_string());
    let found = state.search_files("zzz", Ok(home_scan())).unwrap();
    assert!(found.items.is_empty());
    assert_eq!(found.current_path, "/home/u");
}
