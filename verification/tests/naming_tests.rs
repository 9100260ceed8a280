use arueshalae::naming::{decimal_string, file_name, media_path, padded_decimal_string, thumb_file_name, thumb_path};

#[test]
fn naming_is_deterministic() {
    assert_eq!(file_name(42, 99, "png"), "0000042_99.png");
}

#[test]
fn decimal_renders_all_digits() {
    assert_eq!(decimal_string(0), "0");
    assert_eq!(decimal_string(9), "9");
    assert_eq!(decimal_string(1234567890), "1234567890");
    assert_eq!(decimal_string(u64::MAX), "18446744073709551615");
}

#[test]
fn padding_reaches_seven_digits() {
    assert_eq!(padded_decimal_string(0), "0000000");
    assert_eq!(padded_decimal_string(123), "0000123");
    assert_eq!(padded_decimal_string(1234567), "1234567");
    assert_eq!(padded_decimal_string(12345678), "12345678");
}

#[test]
fn file_names_sort_like_insertion_order() {
    let earlier = file_name(7, 999999, "mp4");
    let later = file_name(1200, 3, "png");
    assert!(earlier < later);
    assert_eq!(earlier, "0000007_999999.mp4");
    assert_eq!(later, "0001200_3.png");
}

#[test]
fn thumbnails_live_under_their_video_name() {
    assert_eq!(thumb_file_name("0000042_99.mp4"), "0000042_99.mp4.jpeg");
    assert_eq!(thumb_path("/base", "0000042_99.mp4"), "/base/.thumbs/0000042_99.mp4.jpeg");
    assert_eq!(media_path("/base", "0000042_99.mp4"), "/base/0000042_99.mp4");
}
