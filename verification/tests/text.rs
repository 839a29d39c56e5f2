use rs_sqlite::text::{decimal_text, strip_zeros};
use rs_sqlite::{to_u8_array, Row};

fn row(id: u32, username: &str, email: &str) -> Row {
    Row { id, username: to_u8_array::<32>(username), email: to_u8_array::<255>(email) }
}

#[test]
fn decimal_text_of_numbers() {
    assert_eq!(decimal_text(0), "0");
    assert_eq!(decimal_text(7), "7");
    assert_eq!(decimal_text(10), "10");
    assert_eq!(decimal_text(120), "120");
    assert_eq!(decimal_text(1234567890), "1234567890");
    assert_eq!(decimal_text(u32::MAX), "4294967295");
}

#[test]
fn strip_zeros_keeps_the_other_bytes_in_order() {
    assert_eq!(strip_zeros(&[]), Vec::<u8>::new());
    assert_eq!(strip_zeros(&[0, 0, 0]), Vec::<u8>::new());
    assert_eq!(strip_zeros(&[1, 2, 3]), vec![1, 2, 3]);
    assert_eq!(strip_zeros(&[1, 2, 0, 0]), vec![1, 2]);
    assert_eq!(strip_zeros(&[0, 1, 0, 2, 0]), vec![1, 2]);
}

#[test]
fn row_text_leaves_the_padding_out() {
    assert_eq!(row(1, "abc", "abc@x.io").to_text().unwrap(), "(1, abc, abc@x.io)");
    assert_eq!(row(2, "byd", "byd@x.io").to_text().unwrap(), "(2, byd, byd@x.io)");
}

#[test]
fn row_text_of_empty_fields() {
    assert_eq!(row(0, "", "").to_text().unwrap(), "(0, , )");
}

#[test]
fn row_text_of_full_fields() {
    let name = "n".repeat(32);
    let email = "e".repeat(255);
    assert_eq!(
        row(4294967295, &name, &email).to_text().unwrap(),
        format!("(4294967295, {}, {})", name, email)
    );
}

#[test]
fn row_text_keeps_letters_beyond_ascii() {
    assert_eq!(row(5, "zoë", "zoë@x.io").to_text().unwrap(), "(5, zoë, zoë@x.io)");
}

#[test]
fn row_text_needs_utf8() {
    let mut broken = row(1, "abc", "abc@x.io");
    broken.username[1] = 0xff;
    assert_eq!(broken.to_text(), None);
    let mut broken = row(1, "abc", "abc@x.io");
    broken.email[0] = 0xc3;
    assert_eq!(broken.to_text(), None);
}
