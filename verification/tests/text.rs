use voidweb::text::{concat_str, decimal_string, join_path, push_decimal};

#[test]
fn decimal_numbers() {
    assert_eq!(decimal_string(0), "0");
    assert_eq!(decimal_string(7), "7");
    assert_eq!(decimal_string(10), "10");
    assert_eq!(decimal_string(9150), "9150");
    assert_eq!(decimal_string(u64::MAX), u64::MAX.to_string());
    let mut s = "x=".to_string();
    push_decimal(&mut s, 305);
    assert_eq!(s, "x=305");
}

#[test]
fn joining_paths() {
    assert_eq!(join_path("/home/u", "voidweb"), "/home/u/voidweb");
    assert_eq!(join_path("/home/u/", "voidweb"), "/home/u/voidweb");
    assert_eq!(join_path("", "voidweb"), "voidweb");
    assert_eq!(join_path("/", "tor"), "/tor");
}

#[test]
fn concatenation() {
    assert_eq!(concat_str("ab", "cd"), "abcd");
    assert_eq!(concat_str("", ""), "");
}
