//! The transcoding policy: what to do with a classified artifact, and which
//! artifact to keep once a re-encode has run.
//!
//! A video is stored as-is but needs a thumbnail frame. An image at or above
//! the size threshold is re-encoded unless its format is already known to
//! compress well; the smaller of the original and the re-encode is kept, and
//! the originality flag records which one.

use vstd::prelude::*;
use crate::classify::SniffedType;
use crate::error::AppError;
use crate::text::str_eq;

verus! {

/// The quality level handed to the image re-encoder.
pub const JPEG_QUALITY: u8 = 90;

/// Images at or above this many bytes are candidates for re-encoding.
pub const COMPRESSION_THRESHOLD: u64 = 3 * 1024 * 1024;

/// Formats already known to compress well, which are never re-encoded:
/// JPEG under either extension spelling, and GIF.
pub open spec fn compresses_well(ext: Seq<char>) -> bool {
    ext == "jpg"@ || ext == "jpeg"@ || ext == "gif"@
}

/// Runtime test for `compresses_well`.
pub fn is_compression_blacklisted(ext: &str) -> (r: bool)
    ensures
        r == compresses_well(ext@),
{
    str_eq(ext, "jpg") || str_eq(ext, "jpeg") || str_eq(ext, "gif")
}

/// What the pipeline must do with a classified artifact.
#[derive(Clone, Copy, Debug, PartialEq, Eq, Structural)]
pub enum TranscodePlan {
    /// Store the artifact untouched.
    KeepOriginal,
    /// Re-encode the image, then keep the smaller of the two.
    CompressImage,
    /// Store the video untouched and extract a thumbnail frame.
    VideoThumbnail,
}

/// Plans the handling of a classified artifact of `file_size` bytes. Only a
/// format that is neither image nor video is rejected.
pub fn plan_media(t: &SniffedType, file_size: u64) -> (r: Result<TranscodePlan, AppError>)
    ensures
        r is Ok <==> !(t.kind is Other),
        match r {
            Ok(p) => {
                &&& (p is VideoThumbnail <==> t.kind is Video)
                &&& (p is CompressImage <==> t.kind is Image && !compresses_well(t.extension@)
                    && file_size >= COMPRESSION_THRESHOLD)
                &&& (p is KeepOriginal <==> t.kind is Image && (compresses_well(t.extension@)
                    || file_size < COMPRESSION_THRESHOLD))
            },
            Err(e) => e == AppError::UnsupportedFileType,
        },
{
    match t.kind {
        crate::classify::MediaKind::Video => Ok(TranscodePlan::VideoThumbnail),
        crate::classify::MediaKind::Image => {
            if !is_compression_blacklisted(t.extension.as_str()) && file_size
                >= COMPRESSION_THRESHOLD {
                Ok(TranscodePlan::CompressImage)
            } else {
                Ok(TranscodePlan::KeepOriginal)
            }
        },
        crate::classify::MediaKind::Other => Err(AppError::UnsupportedFileType),
    }
}

/// What the store records for an artifact: its MIME type, extension and
/// whether the kept artifact is the untouched original.
pub struct MediaOutcome {
    pub mime: String,
    pub extension: String,
    pub original: bool,
}

/// Keeps the artifact as it came: its own format, originality affirmed.
pub fn keep_original_outcome(t: &SniffedType) -> (r: MediaOutcome)
    ensures
        r.mime@ == t.mime@,
        r.extension@ == t.extension@,
        r.original == true,
{
    MediaOutcome { mime: t.mime.clone(), extension: t.extension.clone(), original: true }
}

/// Chooses between the original artifact and its re-encode by size: the
/// re-encode is kept only when strictly smaller; otherwise the original stays
/// and the originality flag says so. This guards against re-encoders that
/// occasionally produce larger output.
pub fn finish_image_compression(t: &SniffedType, original_size: u64, compressed_size: u64) -> (r:
    MediaOutcome)
    ensures
        compressed_size < original_size ==> !r.original && r.mime@ == "image/jpeg"@ && r.extension@
            == "jpeg"@,
        compressed_size >= original_size ==> r.original && r.mime@ == t.mime@ && r.extension@
            == t.extension@,
{
    if compressed_size < original_size {
        MediaOutcome {
            mime: String::from_str("image/jpeg"),
            extension: String::from_str("jpeg"),
            original: false,
        }
    } else {
        keep_original_outcome(t)
    }
}

/// The timestamp for a video's thumbnail frame: a tenth of its duration.
pub fn thumbnail_timestamp_ms(duration_ms: u64) -> (r: u64)
    ensures
        r == duration_ms / 10,
{
    duration_ms / 10
}

} // verus!
