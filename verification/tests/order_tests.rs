use fluffy::order::{sorted_strings, str_le};

#[test]
fn string_order() {
    assert!(str_le("a", "b"));
    assert!(str_le("", "a"));
    assert!(str_le("f1", "f10"));
    assert!(str_le("f10", "f2"));
    assert!(!str_le("b", "a"));
    assert!(str_le("same", "same"));
    assert!(str_le("Z", "a"));
    assert!(str_le("é", "𝄞"));
}

#[test]
fn sorting_matches_std() {
    let v: Vec<String> = ["pear", "Apple", "apple", "", "zebra", "éclair", "apple", "a b"].iter().map(|s| s.to_string()).collect();
    let mut want = v.clone();
    want.sort();
    assert_eq!(sorted_strings(&v), want);
}
