use embedded_text::text_box::{fitted_height, fitted_height_unlimited};

#[test]
fn fitted_height_is_limited() {
    assert_eq!(fitted_height(30, 100), 30);
    assert_eq!(fitted_height(300, 100), 100);
    assert_eq!(fitted_height(u32::MAX, u32::MAX), i32::MAX as u32);
    assert_eq!(fitted_height_unlimited(42), 42);
    assert_eq!(fitted_height_unlimited(u32::MAX), i32::MAX as u32);
}
