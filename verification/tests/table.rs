use terminar_core::table::Table;

fn keys(table: &Table<u32>) -> Vec<String> {
    (0..table.len()).map(|i| table.entry(i).0.clone()).collect()
}

#[test]
fn a_key_has_its_last_value() {
    let mut table: Table<u32> = Table::new();
    table.insert("a".to_string(), 1);
    table.insert("b".to_string(), 2);
    table.insert("a".to_string(), 3);
    assert_eq!(table.len(), 2);
    assert_eq!(table.get("a"), Some(&3));
    assert_eq!(table.get("b"), Some(&2));
    assert_eq!(table.get("c"), None);
    assert!(table.contains_key("b"));
    assert!(!table.contains_key(""));
    assert_eq!(keys(&table), vec!["a", "b"]);
}

#[test]
fn values_can_be_changed_in_place() {
    let mut table: Table<u32> = Table::new();
    table.insert("a".to_string(), 1);
    *table.get_mut("a").unwrap() += 4;
    assert!(table.get_mut("b").is_none());
    assert_eq!(table.get("a"), Some(&5));
}

#[test]
fn entries_can_be_removed() {
    let mut table: Table<u32> = Table::new();
    for (i, key) in ["x", "y", "z"].iter().enumerate() {
        table.insert(key.to_string(), i as u32);
    }
    assert_eq!(table.remove("y"), Some(1));
    assert_eq!(table.remove("y"), None);
    assert_eq!(keys(&table), vec!["x", "z"]);
    assert_eq!(table.get("z"), Some(&2));
    table.insert("y".to_string(), 9);
    assert_eq!(keys(&table), vec!["x", "z", "y"]);
}
