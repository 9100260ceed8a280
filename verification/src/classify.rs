//! Content classification: magic-byte sniffing of a downloaded artifact's
//! header, yielding a coarse kind (image / video / other) and a concrete
//! format. Anything that is neither an image nor a video fails the post.

use vstd::prelude::*;
use crate::error::AppError;

verus! {

/// How many leading bytes of a downloaded artifact the classifier reads.
pub const HEADER_SIZE: usize = 0xFF;

/// The coarse kind of a sniffed format.
#[derive(Clone, Copy, Debug, PartialEq, Eq, Structural)]
pub enum MediaKind {
    Image,
    Video,
    Other,
}

/// A concrete sniffed format: coarse kind, MIME type and file extension.
#[derive(Debug)]
pub struct SniffedType {
    pub kind: MediaKind,
    pub mime: String,
    pub extension: String,
}

/// What sniffing yields, as plain mathematical values.
pub struct SniffSpec {
    pub kind: MediaKind,
    pub mime: Seq<char>,
    pub extension: Seq<char>,
}

/// The format that magic-byte sniffing assigns to a byte prefix; a function of
/// the bytes alone.
pub uninterp spec fn sniff_spec(bytes: Seq<u8>) -> Option<SniffSpec>;

/// Relies on `infer::get`: it matches the buffer against a fixed, built-in
/// table of magic-byte signatures, a deterministic function of the bytes
/// alone; its matcher kinds for images and videos map onto `MediaKind`, every
/// other kind onto `Other`.
#[verifier::external_body]
fn sniff(buf: &[u8]) -> (r: Option<SniffedType>)
    ensures
        match r {
            Some(t) => sniff_spec(buf@) matches Some(s) && t.kind == s.kind && t.mime@ == s.mime
                && t.extension@ == s.extension,
            None => sniff_spec(buf@) is None,
        },
{
    infer::get(buf).map(|t| SniffedType {
        kind: match t.matcher_type() {
            infer::MatcherType::Image => MediaKind::Image,
            infer::MatcherType::Video => MediaKind::Video,
            _ => MediaKind::Other,
        },
        mime: t.mime_type().to_string(),
        extension: t.extension().to_string(),
    })
}

/// Classifies downloaded content from its header bytes. Empty content, a
/// header matching no known format, and a format that is neither an image nor
/// a video are each rejected with their own error.
pub fn classify(header: &Vec<u8>) -> (r: Result<SniffedType, AppError>)
    ensures
        r is Ok <==> header@.len() > 0 && (sniff_spec(header@) matches Some(s) && !(s.kind
            is Other)),
        match r {
            Ok(t) => sniff_spec(header@) matches Some(s) && t.kind == s.kind && t.mime@ == s.mime
                && t.extension@ == s.extension,
            Err(e) => {
                &&& (e == AppError::EmptyPayload <==> header@.len() == 0)
                &&& (e == AppError::UnknownFileType <==> header@.len() > 0 && sniff_spec(header@)
                    is None)
                &&& (e == AppError::UnsupportedFileType <==> header@.len() > 0 && (sniff_spec(
                    header@,
                ) matches Some(s) && s.kind is Other))
            },
        },
{
    if header.len() == 0 {
        return Err(AppError::EmptyPayload);
    }
    match sniff(header.as_slice()) {
        None => Err(AppError::UnknownFileType),
        Some(t) => {
            match t.kind {
                MediaKind::Other => Err(AppError::UnsupportedFileType),
                _ => Ok(t),
            }
        },
    }
}

} // verus!
