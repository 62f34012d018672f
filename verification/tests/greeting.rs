use rust_wasm::{add, greet};

#[test]
fn greet_says_hello() {
    assert_eq!(greet("World"), "Hello, World!");
    assert_eq!(greet("Ada Lovelace"), "Hello, Ada Lovelace!");
}

#[test]
fn greet_of_no_name() {
    assert_eq!(greet(""), "Hello, !");
}

#[test]
fn greet_keeps_the_name_as_it_is() {
    assert_eq!(greet("  J\u{f6}rg {} "), "Hello,   J\u{f6}rg {} !");
}

#[test]
fn add_is_the_sum() {
    assert_eq!(add(2, 3), 5);
    assert_eq!(add(-2, 3), 1);
    assert_eq!(add(0, 0), 0);
    assert_eq!(add(-7, -8), -15);
}

#[test]
fn add_reaches_both_ends() {
    assert_eq!(add(i32::MAX, 0), i32::MAX);
    assert_eq!(add(i32::MAX - 1, 1), i32::MAX);
    assert_eq!(add(i32::MIN, 0), i32::MIN);
    assert_eq!(add(i32::MIN + 1, -1), i32::MIN);
    assert_eq!(add(i32::MAX, i32::MIN), -1);
}
