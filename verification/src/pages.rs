//! The store's read side for the browsing surface: the paged index of
//! downloaded posts and the single-post lookups behind image serving.

use vstd::prelude::*;
use crate::error::AppError;
use crate::naming::{file_name, file_name_spec, media_path, thumb_path};
use crate::store::{has_download_in, known_in, DownloadRecord, PostRecord, PostStore};
use crate::text::{starts_with, starts_with_spec};
use crate::web::Post;

verus! {

/// The position of external id `e`'s download record.
pub open spec fn download_ix(downloads: Seq<DownloadRecord>, e: i64) -> int {
    choose|i: int| 0 <= i < downloads.len() && downloads[i].external_id == e
}

/// The browsing row for post `p`: its external id and its download's file
/// name and MIME type.
pub open spec fn row_of(p: PostRecord, downloads: Seq<DownloadRecord>) -> Post {
    let d = downloads[download_ix(downloads, p.external_id)];
    Post { id: p.external_id, file_name: d.file_name, mime: d.mime }
}

/// All browsing rows, newest first by internal id: one per post that has a
/// download record.
pub open spec fn page_rows(posts: Seq<PostRecord>, downloads: Seq<DownloadRecord>) -> Seq<Post>
    decreases posts.len(),
{
    if posts.len() == 0 {
        Seq::empty()
    } else {
        let rest = page_rows(posts.drop_last(), downloads);
        if has_download_in(downloads, posts.last().external_id) {
            seq![row_of(posts.last(), downloads)] + rest
        } else {
            rest
        }
    }
}

/// How many rows a page query skips: 48 per page before the selected one.
pub open spec fn page_skip(page: Option<i64>) -> int {
    let p = match page {
        Some(v) => v as int,
        None => 1,
    };
    if p < 1 {
        0
    } else {
        (p - 1) * 48
    }
}

impl PostStore {
    /// The download record of external id `e`, if any.
    fn find_download_index(&self, e: i64) -> (r: Option<usize>)
        ensures
            match r {
                Some(ix) => ix < self.downloads@.len() && self.downloads@[ix as int].external_id
                    == e,
                None => !has_download_in(self.downloads@, e),
            },
    {
        let mut i: usize = 0;
        while i < self.downloads.len()
            invariant
                i <= self.downloads@.len(),
                forall|j: int| 0 <= j < i ==> (#[trigger] self.downloads@[j]).external_id != e,
            decreases self.downloads@.len() - i,
        {
            if self.downloads[i].external_id == e {
                return Some(i);
            }
            i = i + 1;
        }
        None
    }

    /// One page of the browsing surface: the selected page's window of 48
    /// rows, newest first, and the total number of downloaded posts.
    pub fn get_page(&self, query: &crate::web::PageQuery) -> (r: (Vec<Post>, u64))
        requires
            self.wf(),
        ensures
            ({
                let rows = page_rows(self.posts@, self.downloads@);
                let sk = if page_skip(query.page) > rows.len() {
                    rows.len() as int
                } else {
                    page_skip(query.page)
                };
                let en = if sk + 48 > rows.len() {
                    rows.len() as int
                } else {
                    sk + 48
                };
                r.0@ == rows.subrange(sk, en) && r.1 == rows.len()
            }),
    {
        let mut rows: Vec<Post> = Vec::new();
        let mut i: usize = 0;
        proof {
            assert(self.posts@.take(0) =~= Seq::<PostRecord>::empty());
        }
        while i < self.posts.len()
            invariant
                self.wf(),
                i <= self.posts@.len(),
                rows@ =~= page_rows(self.posts@.take(i as int), self.downloads@),
            decreases self.posts@.len() - i,
        {
            let p = self.posts[i];
            proof {
                assert(self.posts@.take(i + 1).drop_last() =~= self.posts@.take(i as int));
                assert(self.posts@.take(i + 1).last() == self.posts@[i as int]);
            }
            match self.find_download_index(p.external_id) {
                Some(ix) => {
                    proof {
                        let c = download_ix(self.downloads@, p.external_id);
                        assert(0 <= c < self.downloads@.len() && self.downloads@[c].external_id
                            == p.external_id);
                        assert(c == ix as int);
                    }
                    let row = Post {
                        id: p.external_id,
                        file_name: self.downloads[ix].file_name.clone(),
                        mime: self.downloads[ix].mime.clone(),
                    };
                    rows.insert(0, row);
                    proof {
                        assert(rows@ =~= seq![
                            row_of(self.posts@[i as int], self.downloads@),
                        ] + page_rows(self.posts@.take(i as int), self.downloads@));
                    }
                },
                None => {
                },
            }
            i = i + 1;
        }
        proof {
            assert(self.posts@.take(self.posts@.len() as int) =~= self.posts@);
        }
        let total: u64 = rows.len() as u64;
        let ghost all = page_rows(self.posts@, self.downloads@);
        // skip the pages before the selected one, oldest last: remove from the
        // newest end, 48 rows per skipped page
        let page: i64 = match query.page {
            Some(v) => v,
            None => 1,
        };
        let skip_pages: u64 = if page < 1 {
            0
        } else {
            (page - 1) as u64
        };
        let want_skip: u64 = if skip_pages > total / 48 {
            total
        } else {
            skip_pages * 48
        };
        proof {
            vstd::arithmetic::div_mod::lemma_fundamental_div_mod(total as int, 48);
            assert(want_skip == if page_skip(query.page) > all.len() {
                all.len() as int
            } else {
                page_skip(query.page)
            });
        }
        let mut dropped: u64 = 0;
        while dropped < want_skip
            invariant
                dropped <= want_skip <= all.len(),
                rows@ =~= all.skip(dropped as int),
            decreases want_skip - dropped,
        {
            let _ = rows.remove(0);
            dropped = dropped + 1;
            proof {
                assert(rows@ =~= all.skip(dropped as int));
            }
        }
        proof {
            assert(rows@ =~= all.subrange(want_skip as int, all.len() as int));
        }
        while rows.len() > 48
            invariant
                rows@ =~= all.subrange(want_skip as int, want_skip + rows@.len()),
                want_skip + rows@.len() <= all.len(),
                want_skip + rows@.len() == all.len() || rows@.len() >= 48,
            decreases rows@.len(),
        {
            let _ = rows.pop();
            proof {
                assert(rows@ =~= all.subrange(want_skip as int, want_skip + rows@.len()));
            }
        }
        (rows, total)
    }
}

/// A post as the serving layer reads it: both ids, and the stored artifact's
/// extension and MIME type.
pub struct PostData {
    pub id: i64,
    pub external_id: i64,
    pub extension: String,
    pub mime: String,
}

impl PostStore {
    /// The serving data of the post with external id `e`: present exactly when
    /// the post is known and downloaded.
    pub fn get_post(&self, external_id: i64) -> (r: Result<PostData, AppError>)
        requires
            self.wf(),
        ensures
            r is Ok <==> known_in(self.posts@, external_id) && has_download_in(
                self.downloads@,
                external_id,
            ),
            match r {
                Ok(p) => {
                    &&& p.external_id == external_id
                    &&& exists|i: int|
                        0 <= i < self.posts@.len() && (#[trigger] self.posts@[i]).external_id
                            == external_id && self.posts@[i].id == p.id
                    &&& exists|j: int|
                        0 <= j < self.downloads@.len() && (#[trigger] self.downloads@[j]).external_id
                            == external_id && self.downloads@[j].extension@ == p.extension@
                            && self.downloads@[j].mime@ == p.mime@
                    &&& 1 <= p.id
                },
                Err(e) => e == AppError::NoSuchPost,
            },
    {
        let id = match self.get_sort_id_for_post(external_id) {
            Ok(v) => v,
            Err(e) => {
                return Err(e);
            },
        };
        match self.find_download_index(external_id) {
            Some(ix) => {
                proof {
                    let i = choose|i: int|
                        0 <= i < self.posts@.len() && (#[trigger] self.posts@[i]).external_id
                            == external_id && self.posts@[i].id == id;
                    assert(1 <= self.posts@[i].id);
                }
                Ok(
                    PostData {
                        id,
                        external_id,
                        extension: self.downloads[ix].extension.clone(),
                        mime: self.downloads[ix].mime.clone(),
                    },
                )
            },
            None => Err(AppError::NoSuchPost),
        }
    }

    /// The browsing row of the post with external id `e`, straight from its
    /// download record.
    pub fn get_post_for_send_image(&self, post_id: i64) -> (r: Result<Post, AppError>)
        ensures
            r is Ok <==> has_download_in(self.downloads@, post_id),
            match r {
                Ok(p) => p.id == post_id && exists|j: int|
                    0 <= j < self.downloads@.len() && (#[trigger] self.downloads@[j]).external_id
                        == post_id && self.downloads@[j].file_name@ == p.file_name@
                        && self.downloads@[j].mime@ == p.mime@,
                Err(e) => e == AppError::NoSuchPost,
            },
    {
        match self.find_download_index(post_id) {
            Some(ix) => Ok(
                Post {
                    id: post_id,
                    file_name: self.downloads[ix].file_name.clone(),
                    mime: self.downloads[ix].mime.clone(),
                },
            ),
            None => Err(AppError::NoSuchPost),
        }
    }
}

impl PostData {
    /// The path the serving layer reads for this post: the artifact itself for
    /// an image, the video's thumbnail otherwise, both derived from the
    /// deterministic file name.
    pub fn serve_path(&self, base_path: &str) -> (r: String)
        requires
            0 <= self.id,
            0 <= self.external_id,
        ensures
            ({
                let name = file_name_spec(self.id as nat, self.external_id as nat, self.extension@);
                if starts_with_spec(self.mime@, "image"@) {
                    r@ == base_path@ + "/"@ + name
                } else {
                    r@ == base_path@ + "/.thumbs/"@ + name + ".jpeg"@
                }
            }),
    {
        let name = file_name(self.id, self.external_id, self.extension.as_str());
        if starts_with(self.mime.as_str(), "image") {
            media_path(base_path, name.as_str())
        } else {
            thumb_path(base_path, name.as_str())
        }
    }
}

} // verus!
