use rust_book::text::{chars_of, decimal_string, same_text, split_at_char};

#[test]
fn decimal_digits() {
    assert_eq!(decimal_string(0), "0");
    assert_eq!(decimal_string(7), "7");
    assert_eq!(decimal_string(10), "10");
    assert_eq!(decimal_string(1203), "1203");
    assert_eq!(decimal_string(u32::MAX), "4294967295");
}

#[test]
fn split_keeps_empty_pieces() {
    assert_eq!(split_at_char("a b", ' '), vec!["a", "b"]);
    assert_eq!(split_at_char("", ' '), vec![""]);
    assert_eq!(split_at_char(" a  b ", ' '), vec!["", "a", "", "b", ""]);
    assert_eq!(split_at_char("Здрав ствуйте", ' '), vec!["Здрав", "ствуйте"]);
}

#[test]
fn text_helpers() {
    assert!(same_text("abc", "abc"));
    assert!(!same_text("abc", "abd"));
    assert_eq!(chars_of("aЗb"), vec!['a', 'З', 'b']);
}
