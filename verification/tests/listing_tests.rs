use explorer_core::listing::read_directory;
use explorer_core::{AppError, FileMeta, ScanEntry};

fn entry(name: &str, is_dir: bool, size: u64) -> ScanEntry {
    ScanEntry {
        name: name.to_string(),
        meta: Some(FileMeta { is_dir, size }),
    }
}

fn unreadable(name: &str) -> ScanEntry {
    ScanEntry {
        name: name.to_string(),
        meta: None,
    }
}

#[test]
fn directories_come_first_then_names_ascend() {
    let scan = vec![
        entry("zeta.txt", false, 10),
        entry("alpha", true, 0),
        entry("beta.txt", false, 3),
        entry("omega", true, 0),
    ];
    let view = read_directory("/home/u", Ok(scan)).unwrap();
    let names: Vec<&str> = view.items.iter().map(|n| n.name.as_str()).collect();
    assert_eq!(names, vec!["alpha", "omega", "beta.txt", "zeta.txt"]);
    assert!(view.items[0].is_dir && view.items[1].is_dir);
    assert!(!view.items[2].is_dir && !view.items[3].is_dir);
}

#[test]
fn listing_has_no_duplicate_names() {
    let scan = vec![
        entry("b", false, 1),
        entry("a", true, 0),
        entry("c", false, 2),
    ];
    let view = read_directory("/", Ok(scan)).unwrap();
    let mut names: Vec<String> = view.items.iter().map(|n| n.name.clone()).collect();
    let total = names.len();
    names.dedup();
    assert_eq!(names.len(), total);
    assert_eq!(total, 3);
}

#[test]
fn unreadable_children_are_omitted_silently() {
    let scan = vec![
        entry("kept.txt", false, 5),
        unreadable("broken"),
        entry("also_kept", true, 0),
    ];
    let view = read_directory("/home/u", Ok(scan)).unwrap();
    let names: Vec<&str> = view.items.iter().map(|n| n.name.as_str()).collect();
    assert_eq!(names, vec!["also_kept", "kept.txt"]);
}

#[test]
fn failed_scan_fails_the_listing() {
    let r = read_directory(
        "/home/u",
        Err(AppError {
            message: "permission denied".to_string(),
        }),
    );
    assert_eq!(r.err().unwrap().message, "permission denied");
}

#[test]
fn empty_directory_lists_nothing() {
    let view = read_directory("/home/u", Ok(Vec::new())).unwrap();
    assert!(view.items.is_empty());
    assert_eq!(view.current_path, "/home/u");
}

#[test]
fn affordances_follow_the_parent_relation() {
    let view = read_directory("/home/u", Ok(Vec::new())).unwrap();
    assert!(view.can_go_back);
    assert!(view.can_go_up);
    assert!(!view.can_go_forward);

    let root = read_directory("/", Ok(Vec::new())).unwrap();
    assert!(!root.can_go_back);
    assert!(!root.can_go_up);
    assert!(!root.can_go_forward);
}

#[test]
fn name_order_is_case_sensitive_byte_order() {
    // 'B' precedes 'a' in code-point order
    let scan = vec![entry("a.txt", false, 1), entry("B.txt", false, 2)];
    let view = read_directory("/d", Ok(scan)).unwrap();
    let names: Vec<&str> = view.items.iter().map(|n| n.name.as_str()).collect();
    assert_eq!(names, vec!["B.txt", "a.txt"]);
}

#[test]
fn sizes_and_kinds_are_kept() {
    let scan = vec![entry("a.txt", false, 1234)];
    let view = read_directory("/d", Ok(scan)).unwrap();
    assert_eq!(view.items[0].size, 1234);
    assert!(!view.items[0].is_dir);
}
