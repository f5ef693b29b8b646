use script_engine::text::{compare_bytes, compare_text, int_to_text, join, starts_with, text_eq, Order};

fn order_of(a: &str, b: &str) -> Order {
    match a.cmp(b) {
        std::cmp::Ordering::Less => Order::Less,
        std::cmp::Ordering::Equal => Order::Equal,
        std::cmp::Ordering::Greater => Order::Greater,
    }
}

#[test]
fn compare_text_is_the_order_of_strings() {
    let words = ["", "a", "ab", "abc", "abd", "b", "B", "caf\u{e9}", "cafe", "z\u{1F600}", "\u{4e2d}"];
    for a in words {
        for b in words {
            assert_eq!(compare_text(a, b), order_of(a, b), "{:?} against {:?}", a, b);
        }
    }
}

#[test]
fn compare_bytes_is_lexicographic() {
    assert_eq!(compare_bytes(&[], &[]), Order::Equal);
    assert_eq!(compare_bytes(&[], &[0]), Order::Less);
    assert_eq!(compare_bytes(&[0], &[]), Order::Greater);
    assert_eq!(compare_bytes(&[1, 2, 3], &[1, 2, 3]), Order::Equal);
    assert_eq!(compare_bytes(&[1, 2], &[1, 2, 3]), Order::Less);
    assert_eq!(compare_bytes(&[1, 3], &[1, 2, 3]), Order::Greater);
    assert_eq!(compare_bytes(&[255], &[1, 1]), Order::Greater);
}

#[test]
fn text_eq_compares_characters() {
    assert!(text_eq("", ""));
    assert!(text_eq("print", "print"));
    assert!(!text_eq("print", "prin"));
    assert!(!text_eq("print", "Print"));
    assert!(text_eq("\u{e9}", "\u{e9}"));
    assert!(!text_eq("\u{e9}", "e"));
}

#[test]
fn starts_with_checks_the_prefix() {
    assert!(starts_with("get$x", "get$"));
    assert!(starts_with("get$", "get$"));
    assert!(!starts_with("get", "get$"));
    assert!(!starts_with("set$x", "get$"));
    assert!(starts_with("anything", ""));
    assert!(starts_with("", ""));
    assert!(!starts_with("", "a"));
    assert!(starts_with("\u{e9}t\u{e9}", "\u{e9}t"));
    assert!(!starts_with("\u{e9}t\u{e9}", "et"));
}

#[test]
fn int_to_text_writes_decimals() {
    for i in [0, 1, 9, 10, 11, 99, 100, 12345, -1, -10, -999, i64::MAX, i64::MIN, i64::MIN + 1] {
        assert_eq!(int_to_text(i), i.to_string());
    }
    assert_eq!(int_to_text(42), "42");
    assert_eq!(int_to_text(-9223372036854775808), "-9223372036854775808");
}

#[test]
fn join_puts_the_separator_between_parts() {
    let parts = |v: &[&str]| v.iter().map(|s| s.to_string()).collect::<Vec<String>>();
    assert_eq!(join(&parts(&[]), ", "), "");
    assert_eq!(join(&parts(&["a"]), ", "), "a");
    assert_eq!(join(&parts(&["a", "b"]), ", "), "a, b");
    assert_eq!(join(&parts(&["a", "", "c"]), "-"), "a--c");
    assert_eq!(join(&parts(&["x", "y"]), ""), "xy");
}
