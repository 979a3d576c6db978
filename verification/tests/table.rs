use dahuavto::table::Table;

#[test]
fn later_value_replaces_the_earlier() {
    let mut table: Table<usize> = Table::new();
    table.insert("a".to_string(), 1);
    table.insert("b".to_string(), 2);
    table.insert("a".to_string(), 3);
    assert_eq!(table.len(), 2);
    assert_eq!(table.get("a"), Some(&3));
    assert_eq!(table.get("b"), Some(&2));
    assert_eq!(table.get("c"), None);
    assert_eq!(table.entry(0), ("a", &3));
    assert_eq!(table.entry(1), ("b", &2));
    table.clear();
    assert_eq!(table.get("a"), None);
    assert_eq!(table.len(), 0);
}
