use explorer_core::paths::{has_parent, parent_dir, resolve};

#[test]
fn relative_names_are_joined_onto_the_current_directory() {
    assert_eq!(resolve("/home/u", "docs").unwrap(), "/home/u/docs");
    assert_eq!(resolve("/", "docs").unwrap(), "/docs");
}

#[test]
fn absolute_input_is_used_verbatim() {
    assert_eq!(resolve("/home/u", "/etc").unwrap(), "/etc");
}

#[test]
fn embedded_nul_is_invalid_input() {
    let r = resolve("/home/u", "a\0b");
    assert_eq!(r.err().unwrap().message, "Invalid input");
}

#[test]
fn parent_walks_one_level_up() {
    assert_eq!(parent_dir("/home/u").unwrap(), "/home");
    assert_eq!(parent_dir("/home").unwrap(), "/");
    assert_eq!(parent_dir("/").is_none(), true);
}

#[test]
fn parent_ignores_surplus_separators() {
    assert_eq!(parent_dir("/a//b").unwrap(), "/a");
    assert_eq!(parent_dir("/a/b/").unwrap(), "/a");
    assert_eq!(parent_dir("/a/").unwrap(), "/");
}

#[test]
fn only_the_root_has_no_parent() {
    assert!(!has_parent("/"));
    assert!(has_parent("/home"));
}
