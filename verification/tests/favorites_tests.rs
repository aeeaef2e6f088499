use explorer_core::favorites::FavoritesStore;

#[test]
fn adding_the_same_path_twice_is_a_conflict_and_keeps_one_row() {
    let mut store = FavoritesStore::new();
    store.add_new_favorite("/home/u", "Home", "home").unwrap();

    let r = store.add_new_favorite("/home/u", "Home", "home");
    assert_eq!(r.err().unwrap().message, "Already exists");

    let rows = store.get_all_favorites().unwrap();
    let count = rows.iter().filter(|f| f.path == "/home/u").count();
    assert_eq!(count, 1);
    assert_eq!(rows.len(), 1);
}

#[test]
fn listing_is_ordered_by_label() {
    let mut store = FavoritesStore::new();
    store.add_favorite("/c", "Zoo", "z").unwrap();
    store.add_favorite("/a", "Attic", "a").unwrap();
    store.add_favorite("/b", "Music", "m").unwrap();

    let rows = store.get_favorites();
    let labels: Vec<&str> = rows.iter().map(|f| f.label.as_str()).collect();
    assert_eq!(labels, vec!["Attic", "Music", "Zoo"]);
}

#[test]
fn ids_are_unique_and_store_assigned() {
    let mut store = FavoritesStore::new();
    store.add_favorite("/a", "A", "i").unwrap();
    store.add_favorite("/b", "B", "i").unwrap();
    store.add_favorite("/c", "C", "i").unwrap();

    let rows = store.get_favorites();
    let mut ids: Vec<i64> = rows.iter().map(|f| f.id).collect();
    ids.sort();
    ids.dedup();
    assert_eq!(ids.len(), 3);
}

#[test]
fn removing_an_id_drops_exactly_that_row() {
    let mut store = FavoritesStore::new();
    store.add_favorite("/a", "A", "i").unwrap();
    store.add_favorite("/b", "B", "i").unwrap();
    let rows = store.get_favorites();
    let gone = rows[0].id;

    let left = store.remove_existing_favorite(gone).unwrap();
    assert_eq!(left.len(), 1);
    assert!(left.iter().all(|f| f.id != gone));
}

#[test]
fn removing_an_absent_id_is_a_no_op() {
    let mut store = FavoritesStore::new();
    store.add_favorite("/a", "A", "i").unwrap();
    let left = store.remove_existing_favorite(9999).unwrap();
    assert_eq!(left.len(), 1);
    assert_eq!(left[0].path, "/a");
}

#[test]
fn same_label_under_different_paths_is_allowed() {
    let mut store = FavoritesStore::new();
    store.add_favorite("/a", "Same", "i").unwrap();
    store.add_favorite("/b", "Same", "i").unwrap();
    let rows = store.get_favorites();
    assert_eq!(rows.len(), 2);
}
