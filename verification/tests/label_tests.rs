use sudokube::decimal_label;

#[test]
fn decimal_labels_render_one_and_two_digit_numbers() {
    assert_eq!(decimal_label(0), "0");
    assert_eq!(decimal_label(7), "7");
    assert_eq!(decimal_label(10), "10");
    assert_eq!(decimal_label(42), "42");
    assert_eq!(decimal_label(99), "99");
}
