use image_sort::text::{find_last, join_with, text_less, to_decimal};

#[test]
fn decimal_of_small_and_large_numbers() {
    assert_eq!(to_decimal(0), "0");
    assert_eq!(to_decimal(7), "7");
    assert_eq!(to_decimal(10), "10");
    assert_eq!(to_decimal(99999), "99999");
    assert_eq!(to_decimal(u64::MAX), "18446744073709551615");
}

#[test]
fn text_order_is_dictionary_order() {
    assert!(text_less("2008 10", "2008 11"));
    assert!(!text_less("2008 11", "2008 10"));
    assert!(text_less("2008 1", "2008 10"));
    assert!(!text_less("2008 10", "2008 10"));
    assert!(text_less("", "a"));
    assert!(!text_less("", ""));
    assert!(text_less("Unknown Date", "a"));
}

#[test]
fn text_order_agrees_with_std() {
    let words = ["", "a", "ab", "b", "2023 01", "2008 10", "\u{e9}", "z", "Z"];
    for a in words {
        for b in words {
            assert_eq!(text_less(a, b), a < b);
        }
    }
}

#[test]
fn find_last_gives_the_last_place() {
    assert_eq!(find_last("a/b/c", '/'), Some(3));
    assert_eq!(find_last("abc", '/'), None);
    assert_eq!(find_last("/", '/'), Some(0));
    assert_eq!(find_last("", '/'), None);
    assert_eq!(find_last("\u{e9}.x", '.'), Some(1));
}

#[test]
fn join_with_puts_the_separator_between() {
    let parts = vec![String::from("a"), String::from("b"), String::from("c")];
    assert_eq!(join_with(&parts, ", "), "a, b, c");
    assert_eq!(join_with(&vec![String::from("a")], ", "), "a");
    assert_eq!(join_with(&Vec::new(), ", "), "");
}
