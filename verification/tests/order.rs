use cyclonedx_export::order::sort_and_dedup;

fn strings(items: &[&str]) -> Vec<String> {
    items.iter().map(|s| s.to_string()).collect()
}

#[test]
fn sort_and_dedup_orders_and_removes_duplicates() {
    let mut list = strings(&["b@1", "a@2", "b@1", "a@10", "a@2", "c@0"]);
    sort_and_dedup(&mut list);
    assert_eq!(list, strings(&["a@10", "a@2", "b@1", "c@0"]));
}

#[test]
fn sort_and_dedup_of_empty_list() {
    let mut list: Vec<String> = Vec::new();
    sort_and_dedup(&mut list);
    assert!(list.is_empty());
}

#[test]
fn sort_and_dedup_puts_prefix_first() {
    let mut list = strings(&["ab", "a", "", "B", "ab"]);
    sort_and_dedup(&mut list);
    assert_eq!(list, strings(&["", "B", "a", "ab"]));
}

#[test]
fn sort_and_dedup_orders_by_code_point() {
    let mut list = strings(&["\u{10000}", "\u{ff5e}", "z", "\u{e9}"]);
    sort_and_dedup(&mut list);
    assert_eq!(list, strings(&["z", "\u{e9}", "\u{ff5e}", "\u{10000}"]));
}
