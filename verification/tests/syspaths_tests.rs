use explorer_core::syspaths::{build_system_paths, get_system_paths};

#[test]
fn every_reported_category_appears_in_fixed_order() {
    let rows = build_system_paths(
        Some("/home/u".to_string()),
        None,
        Some("/home/u/Documents".to_string()),
        None,
        None,
        Some("/home/u/Music".to_string()),
        None,
    );
    let labels: Vec<&str> = rows.iter().map(|p| p.label.as_str()).collect();
    assert_eq!(labels, vec!["Home", "Documents", "Music"]);
    assert_eq!(rows[0].path, "/home/u");
    assert_eq!(rows[0].icon, "home");
    assert_eq!(rows[1].icon, "file-text");
    assert_eq!(rows[2].icon, "music");
}

#[test]
fn nothing_reported_yields_an_empty_list() {
    let rows = build_system_paths(None, None, None, None, None, None, None);
    assert!(rows.is_empty());
}

#[test]
fn all_seven_categories_carry_their_labels_and_icons() {
    let some = |s: &str| Some(s.to_string());
    let rows = build_system_paths(
        some("/h"),
        some("/d"),
        some("/doc"),
        some("/dl"),
        some("/p"),
        some("/m"),
        some("/v"),
    );
    let pairs: Vec<(&str, &str)> = rows
        .iter()
        .map(|p| (p.label.as_str(), p.icon.as_str()))
        .collect();
    assert_eq!(
        pairs,
        vec![
            ("Home", "home"),
            ("Desktop", "monitor"),
            ("Documents", "file-text"),
            ("Downloads", "download"),
            ("Pictures", "image"),
            ("Music", "music"),
            ("Videos", "video"),
        ]
    );
}

#[test]
fn lookup_outcomes_decide_the_whole_command_result() {
    let home = dirs::home_dir().map(|p| p.to_string_lossy().to_string());
    let rows = get_system_paths(home.clone(), None, None, None, None, None, None).unwrap();
    match home {
        Some(h) => {
            assert_eq!(rows.len(), 1);
            assert_eq!(rows[0].label, "Home");
            assert_eq!(rows[0].path, h);
            assert_eq!(rows[0].icon, "home");
        }
        None => assert!(rows.is_empty()),
    }
}
