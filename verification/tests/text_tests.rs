use sway_tools::text::{concat3, copy_texts, decimal};

#[test]
fn decimal_writes_base_ten() {
    assert_eq!(decimal(0), "0");
    assert_eq!(decimal(7), "7");
    assert_eq!(decimal(10), "10");
    assert_eq!(decimal(109), "109");
    assert_eq!(decimal(8388614), "8388614");
    assert_eq!(decimal(u64::MAX), "18446744073709551615");
}

#[test]
fn decimal_agrees_with_the_standard_formatting() {
    let mut n: u64 = 1;
    for _ in 0..60 {
        assert_eq!(decimal(n), format!("{}", n));
        assert_eq!(decimal(n - 1), format!("{}", n - 1));
        n = n.wrapping_mul(3).wrapping_add(1);
    }
}

#[test]
fn concat3_puts_three_texts_in_a_row() {
    assert_eq!(concat3("a", "bc", "def"), "abcdef");
    assert_eq!(concat3("", "", ""), "");
    assert_eq!(concat3("x", "", "z"), "xz");
}

#[test]
fn copy_texts_keeps_order_and_content() {
    let v = vec!["b".to_string(), "a".to_string(), "b".to_string()];
    assert_eq!(copy_texts(&v), v);
    assert_eq!(copy_texts(&Vec::new()), Vec::<String>::new());
}
