use ripr_reports::release_scope::sorted_unique;

fn texts(values: &[&str]) -> Vec<String> {
    values.iter().map(|v| v.to_string()).collect()
}

#[test]
fn sorted_inventory_is_strictly_ascending_with_the_input_members() {
    let sorted = sorted_unique(&texts(&["src/b.rs", "src/a.rs", "src/b.rs", "docs/x.md", "src/a.rs"]));
    assert_eq!(sorted, texts(&["docs/x.md", "src/a.rs", "src/b.rs"]));
    assert!(sorted.windows(2).all(|pair| pair[0] < pair[1]));
    assert!(sorted_unique(&[]).is_empty());
}
