use arueshalae::classify::{classify, MediaKind, HEADER_SIZE};
use arueshalae::error::{AppError, ErrorClass};
use arueshalae::transcode::{
    finish_image_compression, keep_original_outcome, plan_media, thumbnail_timestamp_ms,
    TranscodePlan, COMPRESSION_THRESHOLD,
};

fn png_header() -> Vec<u8> {
    let mut h = vec![0x89u8, 0x50, 0x4E, 0x47, 0x0D, 0x0A, 0x1A, 0x0A];
    h.resize(HEADER_SIZE, 0);
    h
}

fn mp4_header() -> Vec<u8> {
    let mut h = vec![0u8, 0, 0, 0x18];
    h.extend_from_slice(b"ftypisom");
    h.resize(HEADER_SIZE, 0);
    h
}

fn jpeg_header() -> Vec<u8> {
    vec![0xFFu8, 0xD8, 0xFF, 0xE0, 0, 0, 0, 0, 0, 0, 0, 0]
}

#[test]
fn classification_recognizes_images_and_videos() {
    let png = classify(&png_header()).unwrap();
    assert_eq!(png.kind, MediaKind::Image);
    assert_eq!(png.mime, "image/png");
    assert_eq!(png.extension, "png");

    let mp4 = classify(&mp4_header()).unwrap();
    assert_eq!(mp4.kind, MediaKind::Video);
    assert_eq!(mp4.mime, "video/mp4");
    assert_eq!(mp4.extension, "mp4");

    let jpg = classify(&jpeg_header()).unwrap();
    assert_eq!(jpg.kind, MediaKind::Image);
    assert_eq!(jpg.extension, "jpg");
}

#[test]
fn classification_rejects_bad_content() {
    assert_eq!(classify(&Vec::new()).unwrap_err(), AppError::EmptyPayload);
    assert_eq!(classify(&vec![0x01u8, 0x02, 0x03, 0x04]).unwrap_err(), AppError::UnknownFileType);
    let mut pdf = b"%PDF-1.4".to_vec();
    pdf.resize(32, 0);
    assert_eq!(classify(&pdf).unwrap_err(), AppError::UnsupportedFileType);
}

#[test]
fn planning_follows_the_size_threshold() {
    let png = classify(&png_header()).unwrap();
    assert_eq!(plan_media(&png, COMPRESSION_THRESHOLD - 1), Ok(TranscodePlan::KeepOriginal));
    assert_eq!(plan_media(&png, COMPRESSION_THRESHOLD), Ok(TranscodePlan::CompressImage));
    assert_eq!(plan_media(&png, COMPRESSION_THRESHOLD + 1), Ok(TranscodePlan::CompressImage));
}

#[test]
fn planning_never_reencodes_blacklisted_formats() {
    let jpg = classify(&jpeg_header()).unwrap();
    assert_eq!(plan_media(&jpg, COMPRESSION_THRESHOLD * 10), Ok(TranscodePlan::KeepOriginal));
}

#[test]
fn videos_always_get_a_thumbnail_plan() {
    let mp4 = classify(&mp4_header()).unwrap();
    assert_eq!(plan_media(&mp4, 1), Ok(TranscodePlan::VideoThumbnail));
    let out = keep_original_outcome(&mp4);
    assert!(out.original);
    assert_eq!(out.mime, "video/mp4");
}

#[test]
fn larger_reencodes_keep_the_original() {
    let png = classify(&png_header()).unwrap();
    let kept = finish_image_compression(&png, 4_000_000, 4_000_001);
    assert!(kept.original);
    assert_eq!(kept.mime, "image/png");
    assert_eq!(kept.extension, "png");
    let equal = finish_image_compression(&png, 4_000_000, 4_000_000);
    assert!(equal.original);
}

#[test]
fn smaller_reencodes_replace_the_original() {
    let png = classify(&png_header()).unwrap();
    let swapped = finish_image_compression(&png, 4_000_000, 3_999_999);
    assert!(!swapped.original);
    assert_eq!(swapped.mime, "image/jpeg");
    assert_eq!(swapped.extension, "jpeg");
}

#[test]
fn thumbnail_time_is_a_tenth() {
    assert_eq!(thumbnail_timestamp_ms(10_000), 1_000);
    assert_eq!(thumbnail_timestamp_ms(9), 0);
}

#[test]
fn errors_describe_themselves() {
    assert_eq!(AppError::EmptyPayload.class(), ErrorClass::Content);
    assert_eq!(AppError::UnknownFileType.class(), ErrorClass::Content);
    assert_eq!(AppError::NoSuchPost.class(), ErrorClass::InvariantViolation);
    assert!(!AppError::ApiReturnedNoPost.message().is_empty());
    assert_eq!(AppError::UnknownFileType.message(), "could not infer file type");
}
