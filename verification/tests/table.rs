use weave::table::Table;

fn keys(table: &Table<u64>) -> Vec<String> {
    (0..table.len()).map(|i| table.key(i).clone()).collect()
}

#[test]
fn a_key_has_one_value() {
    let mut table: Table<u64> = Table::new();
    table.put("a", 1);
    table.put("b", 2);
    table.put("a", 3);
    assert_eq!(keys(&table), vec!["a".to_string(), "b".to_string()]);
    assert_eq!(table.get("a"), Some(&3));
    assert_eq!(table.get("b"), Some(&2));
    assert_eq!(table.get("c"), None);
    assert_eq!(*table.value(1), 2);
}

#[test]
fn a_key_that_was_taken_is_gone() {
    let mut table: Table<u64> = Table::new();
    table.put("a", 1);
    table.put("a", 2);
    table.put("b", 3);
    assert_eq!(table.take("a"), Some(2));
    assert!(!table.contains("a"));
    assert_eq!(table.get("a"), None);
    assert_eq!(table.take("a"), None);
    assert_eq!(keys(&table), vec!["b".to_string()]);
}

#[test]
fn taking_undoes_putting() {
    let mut table: Table<u64> = Table::new();
    table.put("a", 1);
    table.put("b", 2);
    assert_eq!(table.take("b"), Some(2));
    assert_eq!(keys(&table), vec!["a".to_string()]);
    assert_eq!(table.get("a"), Some(&1));
}
