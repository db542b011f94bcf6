use xz_pass::text::{append_signed_decimal, chars_of, decimal_string};

#[test]
fn decimal_of_zero_and_numbers() {
    assert_eq!(decimal_string(0), "0");
    assert_eq!(decimal_string(7), "7");
    assert_eq!(decimal_string(93), "93");
    assert_eq!(decimal_string(262144), "262144");
    assert_eq!(decimal_string(u64::MAX), "18446744073709551615");
}

#[test]
fn signed_decimal_matches_display() {
    for n in [0i64, 5, -5, 100, -100, i64::MIN, i64::MAX] {
        let mut s = String::from("x");
        append_signed_decimal(&mut s, n);
        assert_eq!(s, format!("x{}", n));
    }
}

#[test]
fn chars_of_keeps_order() {
    assert_eq!(chars_of("aĐb"), vec!['a', 'Đ', 'b']);
    assert_eq!(chars_of(""), Vec::<char>::new());
}
