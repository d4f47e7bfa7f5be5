use pngme::ascii_art::{luma_to_ascii, scale, ASCII_BRIGHTNESS};

#[test]
fn test_scale() {
    assert_eq!(scale(u8::MIN), '`');
    assert_eq!(scale(u8::MAX), '$');
    for b in u8::MIN..=u8::MAX {
        let c = scale(b);
        assert!(ASCII_BRIGHTNESS.contains(c));
    }
}

#[test]
fn scale_midpoint() {
    // 64 * 128 / 255 = 32
    assert_eq!(scale(128), ASCII_BRIGHTNESS.chars().nth(32).unwrap());
    assert_eq!(scale(128), 'v');
}

#[test]
fn luma_rows_are_separated_by_newlines() {
    assert_eq!(luma_to_ascii(2, &[0, 255, 255, 0]), "`$\n$`");
    assert_eq!(luma_to_ascii(3, &[0, 255, 0]), "`$`");
    assert_eq!(luma_to_ascii(1, &[0, 0]), "`\n`");
}

#[test]
fn luma_empty_image() {
    assert_eq!(luma_to_ascii(4, &[]), "");
}
