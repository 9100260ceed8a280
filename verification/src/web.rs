//! Rows the browsing surface reads, and the pagination arithmetic for it.

use vstd::prelude::*;
use crate::naming::{media_path, thumb_path};
use crate::text::{starts_with, starts_with_spec};

verus! {

/// How many posts one page of the browsing surface shows.
pub const POSTS_PER_PAGE: i64 = 48;

/// One row of the browsing surface: a post's external id and its stored
/// artifact's name and MIME type.
pub struct Post {
    pub id: i64,
    pub file_name: String,
    pub mime: String,
}

impl Post {
    /// Whether the stored artifact is a video.
    pub open spec fn is_video_spec(self) -> bool {
        starts_with_spec(self.mime@, "video"@)
    }

    /// Whether the stored artifact is a video, by its MIME type.
    pub fn is_video(&self) -> (r: bool)
        ensures
            r == self.is_video_spec(),
    {
        starts_with(self.mime.as_str(), "video")
    }

    /// The path the browsing surface serves for this post: the artifact itself
    /// for an image, the thumbnail for a video.
    pub fn image_path(&self, base_path: &str) -> (r: String)
        ensures
            self.is_video_spec() ==> r@ == base_path@ + "/.thumbs/"@ + self.file_name@ + ".jpeg"@,
            !self.is_video_spec() ==> r@ == base_path@ + "/"@ + self.file_name@,
    {
        if self.is_video() {
            thumb_path(base_path, self.file_name.as_str())
        } else {
            media_path(base_path, self.file_name.as_str())
        }
    }
}

/// A tag row for the browsing surface: its id, name and how many posts use it.
pub struct Tag {
    pub id: i64,
    pub name: String,
    pub uses: usize,
}

/// The page selector of the browsing surface's index query.
pub struct PageQuery {
    pub page: Option<i64>,
}

/// The pagination strip: the page numbers to show as buttons, whether a
/// jump-to-first and a jump-to-last shortcut are needed, and the page total.
pub struct Pagination {
    pub pages: Vec<i64>,
    pub show_first: bool,
    pub show_last: bool,
    pub total_page_count: i64,
}

/// How many pages `total` posts fill.
pub open spec fn page_count_of(total: u64) -> int {
    (total + 47) / 48
}

/// `bc` raised to at least one button.
pub open spec fn button_floor(bc: i64) -> int {
    if bc < 1 {
        1
    } else {
        bc as int
    }
}

/// `cp` clamped into the valid page range `1..=pages`.
pub open spec fn clamped_page(cp: i64, pages: int) -> int {
    if cp < 1 {
        1
    } else if cp > pages {
        pages
    } else {
        cp as int
    }
}

/// The first page button: the window of `bc` buttons centered on the current
/// page, shifted right to start at one and left to end at the last page.
pub open spec fn page_start(bc: i64, cp: i64, total: u64) -> int {
    let pages = page_count_of(total);
    let b = button_floor(bc);
    let c = clamped_page(cp, pages);
    let off = (b - 1) / 2;
    let ds = if c - off < 1 {
        1
    } else {
        c - off
    };
    if ds + b - 1 > pages {
        if pages - (b - 1) < 1 {
            1
        } else {
            pages - (b - 1)
        }
    } else {
        ds
    }
}

/// The last page button.
pub open spec fn page_end(bc: i64, cp: i64, total: u64) -> int {
    let pages = page_count_of(total);
    let e = page_start(bc, cp, total) + button_floor(bc) - 1;
    if e > pages {
        pages
    } else {
        e
    }
}

/// Computes the pagination strip for `total_post_count` posts: up to
/// `button_count` consecutive page buttons around the (clamped) current page,
/// and shortcuts wherever pages lie outside the window.
pub fn pagination(button_count: i64, current_page: i64, total_post_count: u64) -> (r: Pagination)
    requires
        button_count < 0x1_0000_0000,
    ensures
        r.total_page_count == page_count_of(total_post_count),
        total_post_count == 0 ==> r.pages@ == Seq::<i64>::empty() && !r.show_first && !r.show_last,
        total_post_count > 0 ==> {
            let s = page_start(button_count, current_page, total_post_count);
            let e = page_end(button_count, current_page, total_post_count);
            &&& r.pages@ == Seq::new((e - s + 1) as nat, |i: int| (s + i) as i64)
            &&& r.show_first == (s > 1)
            &&& r.show_last == (e < page_count_of(total_post_count))
        },
{
    let total_pages_u: u64 = total_post_count / 48 + (if total_post_count % 48 > 0 {
        1u64
    } else {
        0u64
    });
    let total_page_count: i64 = total_pages_u as i64;
    if total_page_count == 0 {
        return Pagination {
            pages: Vec::new(),
            show_first: false,
            show_last: false,
            total_page_count: 0,
        };
    }
    let cp: i64 = if current_page < 1 {
        1
    } else if current_page > total_page_count {
        total_page_count
    } else {
        current_page
    };
    let b: i64 = if button_count < 1 {
        1
    } else {
        button_count
    };
    let off: i64 = (b - 1) / 2;
    let ds: i64 = if cp - off < 1 {
        1
    } else {
        cp - off
    };
    let start: i64 = if ds + b - 1 > total_page_count {
        if total_page_count - (b - 1) < 1 {
            1
        } else {
            total_page_count - (b - 1)
        }
    } else {
        ds
    };
    let end: i64 = if start + b - 1 > total_page_count {
        total_page_count
    } else {
        start + b - 1
    };
    let mut pages: Vec<i64> = Vec::new();
    let mut p: i64 = start;
    while p <= end
        invariant
            start <= p <= end + 1,
            end < 0x7fff_ffff_ffff_ffff,
            pages@ =~= Seq::new((p - start) as nat, |i: int| (start + i) as i64),
        decreases end + 1 - p,
    {
        pages.push(p);
        p = p + 1;
    }
    Pagination { pages, show_first: start > 1, show_last: end < total_page_count, total_page_count }
}

} // verus!
