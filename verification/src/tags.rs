//! Tags: a unique, case-normalized, whitespace-trimmed name with an optional
//! kind classification supplied by the ingestion source.

use vstd::prelude::*;
use crate::text::{lower_of, lowercase, trim, trim_spec};

verus! {

/// The kind classification an ingestion source may attach to a tag.
#[derive(Clone, Copy, Debug, PartialEq, Eq, Structural)]
pub enum TagKind {
    Copyright,
    Character,
    Artist,
    General,
    Metadata,
}

impl TagKind {
    /// The lowercase label this kind is stored under.
    pub fn as_str(&self) -> (r: &'static str)
        ensures
            r@ == self.label(),
    {
        let r = match self {
            TagKind::Copyright => "copyright",
            TagKind::Character => "character",
            TagKind::Artist => "artist",
            TagKind::General => "general",
            TagKind::Metadata => "metadata",
        };
        proof {
            reveal_strlit("copyright");
            reveal_strlit("character");
            reveal_strlit("artist");
            reveal_strlit("general");
            reveal_strlit("metadata");
        }
        r
    }

    /// The label of each kind, as a sequence of characters.
    pub open spec fn label(self) -> Seq<char> {
        match self {
            TagKind::Copyright => "copyright"@,
            TagKind::Character => "character"@,
            TagKind::Artist => "artist"@,
            TagKind::General => "general"@,
            TagKind::Metadata => "metadata"@,
        }
    }
}

/// A tag as the upload path supplies it: a raw name and a kind.
pub struct Tag {
    pub name: String,
    pub kind: TagKind,
}

/// The normalized form of a raw tag name: trimmed, then case-folded.
pub open spec fn normalized_name(raw: Seq<char>) -> Seq<char> {
    lower_of(trim_spec(raw))
}

/// Trims and case-folds a raw tag name, exactly as `normalized_name` describes.
pub fn normalize_tag_name(raw: &str) -> (r: String)
    ensures
        r@ == normalized_name(raw@),
{
    let t = trim(raw);
    lowercase(t.as_str())
}

} // verus!
