//! The post store: posts, download records, tags and post–tag associations.
//!
//! The store owns all four entities; the intake gate and the workers read and
//! write only through its operations. External ids are unique and are the
//! single source of truth for "already known"; internal ids are assigned
//! monotonically at insert and order the posts. A download record belongs to
//! exactly one post and is written once, never updated. Tags have unique,
//! case-normalized, whitespace-trimmed, nonempty names; associations are
//! inserted idempotently and nothing is ever deleted.

use vstd::prelude::*;
use crate::error::AppError;
use crate::tags::TagKind;

verus! {

/// A post: the remote source's stable external id, and the locally assigned
/// monotonic internal id.
#[derive(Clone, Copy, Debug, PartialEq, Eq, Structural)]
pub struct PostRecord {
    pub external_id: i64,
    pub id: i64,
}

/// A post's stored artifact: final file name, MIME type, extension and whether
/// the artifact is the untouched original or a re-encoded substitute.
#[derive(Debug)]
pub struct DownloadRecord {
    pub external_id: i64,
    pub file_name: String,
    pub mime: String,
    pub extension: String,
    pub original: bool,
}

/// A tag: unique normalized name, plus the source's kind when it supplied one.
#[derive(Debug)]
pub struct TagRecord {
    pub name: String,
    pub kind: Option<TagKind>,
}

/// One post–tag association.
#[derive(Debug)]
pub struct PostTag {
    pub external_id: i64,
    pub tag: String,
}

/// Whether some post in `posts` carries external id `e`.
pub open spec fn known_in(posts: Seq<PostRecord>, e: i64) -> bool {
    exists|i: int| 0 <= i < posts.len() && (#[trigger] posts[i]).external_id == e
}

/// Whether some download in `downloads` belongs to external id `e`.
pub open spec fn has_download_in(downloads: Seq<DownloadRecord>, e: i64) -> bool {
    exists|i: int| 0 <= i < downloads.len() && (#[trigger] downloads[i]).external_id == e
}

/// Whether some tag in `tags` is named `n`.
pub open spec fn has_tag_in(tags: Seq<TagRecord>, n: Seq<char>) -> bool {
    exists|i: int| 0 <= i < tags.len() && (#[trigger] tags[i]).name@ == n
}

/// Whether `assocs` associates external id `e` with the tag named `n`.
pub open spec fn has_assoc_in(assocs: Seq<PostTag>, e: i64, n: Seq<char>) -> bool {
    exists|i: int|
        0 <= i < assocs.len() && (#[trigger] assocs[i]).external_id == e && assocs[i].tag@ == n
}

/// The store of all four entities.
pub struct PostStore {
    pub posts: Vec<PostRecord>,
    pub downloads: Vec<DownloadRecord>,
    pub tags: Vec<TagRecord>,
    pub post_tags: Vec<PostTag>,
    pub next_id: i64,
}

impl PostStore {
    /// The store's invariant: unique external ids, strictly increasing internal
    /// ids below `next_id`, downloads one per known post, unique nonempty tag
    /// names, and unique associations that refer to known posts and tags.
    pub open spec fn wf(self) -> bool {
        &&& 1 <= self.next_id
        &&& forall|i: int, j: int|
            0 <= i < j < self.posts@.len() ==> (#[trigger] self.posts@[i]).external_id != (
            #[trigger] self.posts@[j]).external_id
        &&& forall|i: int, j: int|
            0 <= i < j < self.posts@.len() ==> (#[trigger] self.posts@[i]).id < (
            #[trigger] self.posts@[j]).id
        &&& forall|i: int|
            0 <= i < self.posts@.len() ==> 1 <= (#[trigger] self.posts@[i]).id < self.next_id
        &&& forall|i: int, j: int|
            0 <= i < j < self.downloads@.len() ==> (#[trigger] self.downloads@[i]).external_id != (
            #[trigger] self.downloads@[j]).external_id
        &&& forall|i: int|
            0 <= i < self.downloads@.len() ==> known_in(
                self.posts@,
                (#[trigger] self.downloads@[i]).external_id,
            )
        &&& forall|i: int, j: int|
            0 <= i < j < self.tags@.len() ==> (#[trigger] self.tags@[i]).name@ != (
            #[trigger] self.tags@[j]).name@
        &&& forall|i: int| 0 <= i < self.tags@.len() ==> (#[trigger] self.tags@[i]).name@.len() > 0
        &&& forall|i: int, j: int|
            0 <= i < j < self.post_tags@.len() ==> !((#[trigger] self.post_tags@[i]).external_id
                == (#[trigger] self.post_tags@[j]).external_id && self.post_tags@[i].tag@
                == self.post_tags@[j].tag@)
        &&& forall|i: int|
            0 <= i < self.post_tags@.len() ==> known_in(
                self.posts@,
                (#[trigger] self.post_tags@[i]).external_id,
            ) && has_tag_in(self.tags@, self.post_tags@[i].tag@)
    }

    /// An empty store.
    pub fn new() -> (s: PostStore)
        ensures
            s.wf(),
            s.posts@ =~= Seq::<PostRecord>::empty(),
            s.downloads@ =~= Seq::<DownloadRecord>::empty(),
            s.tags@ =~= Seq::<TagRecord>::empty(),
            s.post_tags@ =~= Seq::<PostTag>::empty(),
            s.next_id == 1,
    {
        PostStore {
            posts: Vec::new(),
            downloads: Vec::new(),
            tags: Vec::new(),
            post_tags: Vec::new(),
            next_id: 1,
        }
    }

    /// Whether a post with external id `e` is already known.
    pub fn contains_post(&self, e: i64) -> (r: bool)
        ensures
            r == known_in(self.posts@, e),
    {
        let mut i: usize = 0;
        while i < self.posts.len()
            invariant
                i <= self.posts@.len(),
                forall|j: int| 0 <= j < i ==> (#[trigger] self.posts@[j]).external_id != e,
            decreases self.posts@.len() - i,
        {
            if self.posts[i].external_id == e {
                return true;
            }
            i = i + 1;
        }
        false
    }

    /// Whether the post with external id `e` has a download record.
    pub fn has_download(&self, e: i64) -> (r: bool)
        ensures
            r == has_download_in(self.downloads@, e),
    {
        let mut i: usize = 0;
        while i < self.downloads.len()
            invariant
                i <= self.downloads@.len(),
                forall|j: int| 0 <= j < i ==> (#[trigger] self.downloads@[j]).external_id != e,
            decreases self.downloads@.len() - i,
        {
            if self.downloads[i].external_id == e {
                return true;
            }
            i = i + 1;
        }
        false
    }

    /// How many posts the store knows.
    pub fn post_count(&self) -> (r: usize)
        ensures
            r == self.posts@.len(),
    {
        self.posts.len()
    }

    /// How many download records the store holds.
    pub fn get_download_count(&self) -> (r: usize)
        ensures
            r == self.downloads@.len(),
    {
        self.downloads.len()
    }

    /// The internal sequence id of the post with external id `e`; the post
    /// must have been inserted before its content is ever processed.
    pub fn get_sort_id_for_post(&self, e: i64) -> (r: Result<i64, AppError>)
        ensures
            match r {
                Ok(v) => exists|i: int|
                    0 <= i < self.posts@.len() && (#[trigger] self.posts@[i]).external_id == e
                        && self.posts@[i].id == v,
                Err(err) => err == AppError::NoSuchPost && !known_in(self.posts@, e),
            },
    {
        let mut i: usize = 0;
        while i < self.posts.len()
            invariant
                i <= self.posts@.len(),
                forall|j: int| 0 <= j < i ==> (#[trigger] self.posts@[j]).external_id != e,
            decreases self.posts@.len() - i,
        {
            if self.posts[i].external_id == e {
                return Ok(self.posts[i].id);
            }
            i = i + 1;
        }
        Err(AppError::NoSuchPost)
    }

    /// Inserts every id of `ids` that is not yet known, in order, assigning
    /// consecutive internal ids, and returns exactly the newly inserted ids;
    /// ids already present (or repeated within `ids`) are silently skipped.
    pub fn insert_posts(&mut self, ids: &Vec<i64>) -> (new_ids: Vec<i64>)
        requires
            old(self).wf(),
            old(self).next_id + ids@.len() <= i64::MAX,
        ensures
            final(self).wf(),
            (final(self).posts@, final(self).next_id as int, new_ids@) =~~= insert_ids_spec(
                old(self).posts@,
                old(self).next_id as int,
                ids@,
            ),
            final(self).downloads@ == old(self).downloads@,
            final(self).tags@ == old(self).tags@,
            final(self).post_tags@ == old(self).post_tags@,
    {
        let mut new_ids: Vec<i64> = Vec::new();
        let mut k: usize = 0;
        proof {
            assert(ids@.take(0) =~= Seq::<i64>::empty());
        }
        while k < ids.len()
            invariant
                old(self).wf(),
                k <= ids@.len(),
                old(self).next_id + ids@.len() <= i64::MAX,
                self.next_id >= old(self).next_id,
                self.next_id + (ids@.len() - k) <= i64::MAX,
                self.wf(),
                (self.posts@, self.next_id as int, new_ids@) =~~= insert_ids_spec(
                    old(self).posts@,
                    old(self).next_id as int,
                    ids@.take(k as int),
                ),
                self.downloads@ == old(self).downloads@,
                self.tags@ == old(self).tags@,
                self.post_tags@ == old(self).post_tags@,
            decreases ids@.len() - k,
        {
            let e = ids[k];
            proof {
                assert(ids@.take(k + 1).drop_last() =~= ids@.take(k as int));
                assert(ids@.take(k + 1).last() == e);
            }
            if !self.contains_post(e) {
                let ghost prev = self.posts@;
                let rec = PostRecord { external_id: e, id: self.next_id };
                self.posts.push(rec);
                self.next_id = self.next_id + 1;
                new_ids.push(e);
                proof {
                    assert forall|ii: int|
                        0 <= ii < self.downloads@.len() implies known_in(
                        self.posts@,
                        (#[trigger] self.downloads@[ii]).external_id,
                    ) by {
                        let w = choose|w: int|
                            0 <= w < prev.len() && prev[w].external_id
                                == self.downloads@[ii].external_id;
                        assert(self.posts@[w].external_id == self.downloads@[ii].external_id);
                    }
                    assert forall|ii: int|
                        0 <= ii < self.post_tags@.len() implies known_in(
                        self.posts@,
                        (#[trigger] self.post_tags@[ii]).external_id,
                    ) by {
                        let w = choose|w: int|
                            0 <= w < prev.len() && prev[w].external_id
                                == self.post_tags@[ii].external_id;
                        assert(self.posts@[w].external_id == self.post_tags@[ii].external_id);
                    }
                }
            }
            k = k + 1;
        }
        proof {
            assert(ids@.take(ids@.len() as int) =~= ids@);
        }
        new_ids
    }

    /// The external ids of posts that have no download record yet, newest
    /// first by internal id: the backlog that a restart re-enqueues.
    pub fn pending_posts(&self) -> (r: Vec<i64>)
        ensures
            r@ == pending_of(self.posts@, self.downloads@),
    {
        let mut r: Vec<i64> = Vec::new();
        let mut i: usize = 0;
        proof {
            assert(self.posts@.take(0) =~= Seq::<PostRecord>::empty());
        }
        while i < self.posts.len()
            invariant
                i <= self.posts@.len(),
                r@ =~= pending_of(self.posts@.take(i as int), self.downloads@),
            decreases self.posts@.len() - i,
        {
            let e = self.posts[i].external_id;
            proof {
                assert(self.posts@.take(i + 1).drop_last() =~= self.posts@.take(i as int));
                assert(self.posts@.take(i + 1).last() == self.posts@[i as int]);
            }
            if !self.has_download(e) {
                r.insert(0, e);
                proof {
                    assert(r@ =~= seq![e] + pending_of(self.posts@.take(i as int), self.downloads@));
                }
            }
            i = i + 1;
        }
        proof {
            assert(self.posts@.take(self.posts@.len() as int) =~= self.posts@);
        }
        r
    }

    /// Of `ids`, those that already have a download record, each reported
    /// once, in first-occurrence order.
    pub fn filter_already_downloaded_posts(&self, ids: &Vec<i64>) -> (r: Vec<i64>)
        ensures
            r@ == filter_downloaded(self.downloads@, ids@),
            forall|e: i64|
                r@.contains(e) <==> ids@.contains(e) && has_download_in(self.downloads@, e),
    {
        let mut r: Vec<i64> = Vec::new();
        let mut k: usize = 0;
        proof {
            assert(ids@.take(0) =~= Seq::<i64>::empty());
        }
        while k < ids.len()
            invariant
                k <= ids@.len(),
                r@ =~= filter_downloaded(self.downloads@, ids@.take(k as int)),
            decreases ids@.len() - k,
        {
            let e = ids[k];
            proof {
                assert(ids@.take(k + 1).drop_last() =~= ids@.take(k as int));
                assert(ids@.take(k + 1).last() == e);
            }
            if self.has_download(e) && !contains_id(&r, e) {
                r.push(e);
            }
            k = k + 1;
        }
        proof {
            assert(ids@.take(ids@.len() as int) =~= ids@);
            lemma_filter_downloaded_contains(self.downloads@, ids@);
        }
        r
    }

    /// Whether a tag named `n` exists.
    pub fn has_tag(&self, n: &str) -> (r: bool)
        ensures
            r == has_tag_in(self.tags@, n@),
    {
        let mut i: usize = 0;
        while i < self.tags.len()
            invariant
                i <= self.tags@.len(),
                forall|j: int| 0 <= j < i ==> (#[trigger] self.tags@[j]).name@ != n@,
            decreases self.tags@.len() - i,
        {
            if crate::text::str_eq(self.tags[i].name.as_str(), n) {
                return true;
            }
            i = i + 1;
        }
        false
    }

    /// Whether the post with external id `e` is associated with the tag named `n`.
    pub fn has_assoc(&self, e: i64, n: &str) -> (r: bool)
        ensures
            r == has_assoc_in(self.post_tags@, e, n@),
    {
        let mut i: usize = 0;
        while i < self.post_tags.len()
            invariant
                i <= self.post_tags@.len(),
                forall|j: int|
                    0 <= j < i ==> !((#[trigger] self.post_tags@[j]).external_id == e
                        && self.post_tags@[j].tag@ == n@),
            decreases self.post_tags@.len() - i,
        {
            if self.post_tags[i].external_id == e && crate::text::str_eq(
                self.post_tags[i].tag.as_str(),
                n,
            ) {
                return true;
            }
            i = i + 1;
        }
        false
    }

    /// Persists a post's download record together with its tag set: the
    /// durability commit point of the ingestion pipeline. The tags arrive as
    /// one whitespace-separated string; each is case-folded, empty ones are
    /// dropped, tags are created on first occurrence (without a kind), and
    /// associations are inserted idempotently. Fails without changing anything
    /// if the post is unknown or already has a download record.
    pub fn insert_download(
        &mut self,
        post_id: i64,
        file_name: &str,
        mime: &str,
        extension: &str,
        original: bool,
        space_separated_tags: &str,
    ) -> (r: Result<(), AppError>)
        requires
            old(self).wf(),
        ensures
            final(self).wf(),
            r is Ok <==> known_in(old(self).posts@, post_id) && !has_download_in(
                old(self).downloads@,
                post_id,
            ),
            r is Err ==> *final(self) == *old(self) && (r == Err::<(), AppError>(
                AppError::NoSuchPost,
            ) <==> !known_in(old(self).posts@, post_id)) && (r == Err::<(), AppError>(
                AppError::DownloadExists,
            ) <==> known_in(old(self).posts@, post_id) && has_download_in(
                old(self).downloads@,
                post_id,
            )),
            r is Ok ==> {
                &&& final(self).posts@ == old(self).posts@
                &&& final(self).next_id == old(self).next_id
                &&& final(self).downloads@.drop_last() == old(self).downloads@
                &&& final(self).downloads@.len() == old(self).downloads@.len() + 1
                &&& final(self).downloads@.last().external_id == post_id
                &&& final(self).downloads@.last().file_name@ == file_name@
                &&& final(self).downloads@.last().mime@ == mime@
                &&& final(self).downloads@.last().extension@ == extension@
                &&& final(self).downloads@.last().original == original
                &&& final(self).tags@.take(old(self).tags@.len() as int) == old(self).tags@
                &&& forall|i: int|
                    old(self).tags@.len() <= i < final(self).tags@.len() ==> (
                    #[trigger] final(self).tags@[i]).kind is None && tag_in_source(
                        space_separated_tags@,
                        final(self).tags@[i].name@,
                    ) && !has_tag_in(old(self).tags@, final(self).tags@[i].name@)
                &&& forall|n: Seq<char>|
                    #[trigger] has_tag_in(final(self).tags@, n) <==> has_tag_in(old(self).tags@, n)
                        || tag_in_source(space_separated_tags@, n)
                &&& final(self).post_tags@.take(old(self).post_tags@.len() as int) == old(
                    self,
                ).post_tags@
                &&& forall|i: int|
                    old(self).post_tags@.len() <= i < final(self).post_tags@.len() ==> (
                    #[trigger] final(self).post_tags@[i]).external_id == post_id
                &&& forall|n: Seq<char>|
                    #[trigger] has_assoc_in(final(self).post_tags@, post_id, n)
                        <==> has_assoc_in(old(self).post_tags@, post_id, n) || tag_in_source(
                        space_separated_tags@,
                        n,
                    )
                &&& forall|e: i64, n: Seq<char>|
                    e != post_id ==> (#[trigger] has_assoc_in(final(self).post_tags@, e, n)
                        <==> has_assoc_in(old(self).post_tags@, e, n))
            },
    {
        if !self.contains_post(post_id) {
            return Err(AppError::NoSuchPost);
        }
        if self.has_download(post_id) {
            return Err(AppError::DownloadExists);
        }
        let d = DownloadRecord {
            external_id: post_id,
            file_name: String::from_str(file_name),
            mime: String::from_str(mime),
            extension: String::from_str(extension),
            original,
        };
        let ghost old_downloads = self.downloads@;
        self.downloads.push(d);
        proof {
            lemma_has_download_push(old_downloads, self.downloads@.last());
            assert(self.downloads@.drop_last() =~= old_downloads);
        }
        let words = crate::text::split_words(space_separated_tags);
        let ghost ws = crate::text::split_ws(space_separated_tags@);
        let mut w: usize = 0;
        while w < words.len()
            invariant
                old(self).wf(),
                self.wf(),
                w <= words@.len(),
                crate::text::char_views(words@) == ws,
                ws == crate::text::split_ws(space_separated_tags@),
                self.posts@ == old(self).posts@,
                self.next_id == old(self).next_id,
                self.downloads@.len() == old(self).downloads@.len() + 1,
                self.downloads@.drop_last() == old(self).downloads@,
                self.downloads@.last().external_id == post_id,
                self.downloads@.last().file_name@ == file_name@,
                self.downloads@.last().mime@ == mime@,
                self.downloads@.last().extension@ == extension@,
                self.downloads@.last().original == original,
                known_in(self.posts@, post_id),
                old(self).tags@.len() <= self.tags@.len(),
                old(self).post_tags@.len() <= self.post_tags@.len(),
                self.tags@.take(old(self).tags@.len() as int) == old(self).tags@,
                forall|i: int|
                    old(self).tags@.len() <= i < self.tags@.len() ==> (#[trigger] self.tags@[i]).kind
                        is None && tag_in_prefix(ws, w as int, self.tags@[i].name@) && !has_tag_in(
                        old(self).tags@,
                        self.tags@[i].name@,
                    ),
                forall|n: Seq<char>|
                    #[trigger] has_tag_in(self.tags@, n) <==> has_tag_in(old(self).tags@, n)
                        || tag_in_prefix(ws, w as int, n),
                self.post_tags@.take(old(self).post_tags@.len() as int) == old(self).post_tags@,
                forall|i: int|
                    old(self).post_tags@.len() <= i < self.post_tags@.len() ==> (
                    #[trigger] self.post_tags@[i]).external_id == post_id,
                forall|n: Seq<char>|
                    #[trigger] has_assoc_in(self.post_tags@, post_id, n) <==> has_assoc_in(
                        old(self).post_tags@,
                        post_id,
                        n,
                    ) || tag_in_prefix(ws, w as int, n),
                forall|e: i64, n: Seq<char>|
                    e != post_id ==> (#[trigger] has_assoc_in(self.post_tags@, e, n)
                        <==> has_assoc_in(old(self).post_tags@, e, n)),
            decreases words@.len() - w,
        {
            let lw = crate::text::lowercase(words[w].as_str());
            proof {
                assert(ws[w as int] == words@[w as int]@);
                assert(lw@ == crate::text::lower_of(ws[w as int]));
            }
            if !lw.as_str().is_empty() {
                if !self.has_assoc(post_id, lw.as_str()) {
                    if !self.has_tag(lw.as_str()) {
                        let ghost old_tags = self.tags@;
                        self.tags.push(TagRecord { name: lw.clone(), kind: None });
                        proof {
                            lemma_has_tag_push(old_tags, self.tags@.last());
                            assert(self.tags@.take(old(self).tags@.len() as int) =~= old_tags.take(
                                old(self).tags@.len() as int,
                            ));
                        }
                    }
                    let ghost old_assocs = self.post_tags@;
                    self.post_tags.push(PostTag { external_id: post_id, tag: lw });
                    proof {
                        lemma_has_assoc_push(old_assocs, self.post_tags@.last());
                        assert(self.post_tags@.take(old(self).post_tags@.len() as int)
                            =~= old_assocs.take(old(self).post_tags@.len() as int));
                    }
                }
            }
            w = w + 1;
            proof {
                assert forall|n: Seq<char>|
                    tag_in_prefix(ws, w as int, n) implies has_tag_in(self.tags@, n)
                    && has_assoc_in(self.post_tags@, post_id, n) by {
                    let i = choose|i: int|
                        0 <= i < w && crate::text::lower_of(#[trigger] ws[i]) == n && n.len() > 0;
                    if i == w - 1 {
                        assert(n == lw@);
                    }
                }
            }
        }
        proof {
            assert forall|n: Seq<char>| #[trigger]
                tag_in_source(space_separated_tags@, n) implies tag_in_prefix(
                ws,
                words@.len() as int,
                n,
            ) by {
            }
        }
        Ok(())
    }
}

impl PostStore {
    /// Ingests a manually uploaded post in one step: creates the post row if
    /// its external id is new, creates its download record (named after the
    /// internal and external ids) unless one already exists, and associates
    /// the supplied tags, normalized, empty names dropped, each tag created on
    /// first occurrence with the kind its source supplied. Returns the post's
    /// internal id.
    pub fn insert_post(
        &mut self,
        external_id: i64,
        extension: &str,
        mime: &str,
        original: bool,
        tags: &Vec<crate::tags::Tag>,
    ) -> (r: i64)
        requires
            old(self).wf(),
            0 <= external_id,
            old(self).next_id < i64::MAX,
        ensures
            final(self).wf(),
            exists|i: int|
                0 <= i < final(self).posts@.len() && (#[trigger] final(self).posts@[i]).external_id
                    == external_id && final(self).posts@[i].id == r,
            known_in(old(self).posts@, external_id) ==> final(self).posts@ == old(self).posts@
                && final(self).next_id == old(self).next_id && exists|i: int|
                0 <= i < old(self).posts@.len() && (#[trigger] old(self).posts@[i]).external_id
                    == external_id && old(self).posts@[i].id == r,
            !known_in(old(self).posts@, external_id) ==> final(self).posts@ == old(
                self,
            ).posts@.push(PostRecord { external_id, id: old(self).next_id }) && r == old(
                self,
            ).next_id && final(self).next_id == old(self).next_id + 1,
            has_download_in(old(self).downloads@, external_id) ==> final(self).downloads@ == old(
                self,
            ).downloads@,
            !has_download_in(old(self).downloads@, external_id) ==> {
                &&& final(self).downloads@.drop_last() == old(self).downloads@
                &&& final(self).downloads@.len() == old(self).downloads@.len() + 1
                &&& final(self).downloads@.last().external_id == external_id
                &&& final(self).downloads@.last().file_name@ == crate::naming::file_name_spec(
                    r as nat,
                    external_id as nat,
                    extension@,
                )
                &&& final(self).downloads@.last().mime@ == mime@
                &&& final(self).downloads@.last().extension@ == extension@
                &&& final(self).downloads@.last().original == original
            },
            final(self).tags@.take(old(self).tags@.len() as int) == old(self).tags@,
            forall|i: int|
                old(self).tags@.len() <= i < final(self).tags@.len() ==> upload_tag_in(
                    tags@,
                    (#[trigger] final(self).tags@[i]).name@,
                ) && !has_tag_in(old(self).tags@, final(self).tags@[i].name@) && exists|j: int|
                    0 <= j < tags@.len() && crate::tags::normalized_name(
                        (#[trigger] tags@[j]).name@,
                    ) == final(self).tags@[i].name@ && final(self).tags@[i].kind == Some(
                        tags@[j].kind,
                    ),
            forall|n: Seq<char>|
                #[trigger] has_tag_in(final(self).tags@, n) <==> has_tag_in(old(self).tags@, n)
                    || upload_tag_in(tags@, n),
            final(self).post_tags@.take(old(self).post_tags@.len() as int) == old(self).post_tags@,
            forall|i: int|
                old(self).post_tags@.len() <= i < final(self).post_tags@.len() ==> (
                #[trigger] final(self).post_tags@[i]).external_id == external_id,
            forall|n: Seq<char>|
                #[trigger] has_assoc_in(final(self).post_tags@, external_id, n) <==> has_assoc_in(
                    old(self).post_tags@,
                    external_id,
                    n,
                ) || upload_tag_in(tags@, n),
            forall|e: i64, n: Seq<char>|
                e != external_id ==> (#[trigger] has_assoc_in(final(self).post_tags@, e, n)
                    <==> has_assoc_in(old(self).post_tags@, e, n)),
    {
        let id: i64;
        match self.get_sort_id_for_post(external_id) {
            Ok(v) => {
                id = v;
            },
            Err(_) => {
                let ghost prev = self.posts@;
                let rec = PostRecord { external_id, id: self.next_id };
                self.posts.push(rec);
                id = self.next_id;
                self.next_id = self.next_id + 1;
                proof {
                    lemma_known_push(prev, rec);
                    assert forall|ii: int|
                        0 <= ii < self.posts@.len() implies 1 <= (#[trigger] self.posts@[ii]).id by {
                        if ii < prev.len() {
                            assert(self.posts@[ii] == prev[ii]);
                        }
                    }
                    assert((#[trigger] self.posts@[self.posts@.len() - 1]).external_id
                        == external_id && self.posts@[self.posts@.len() - 1].id == id);
                }
            },
        }
        proof {
            let i = choose|i: int|
                0 <= i < self.posts@.len() && (#[trigger] self.posts@[i]).external_id
                    == external_id && self.posts@[i].id == id;
            assert(1 <= self.posts@[i].id);
        }
        if !self.has_download(external_id) {
            let name = crate::naming::file_name(id, external_id, extension);
            let d = DownloadRecord {
                external_id,
                file_name: name,
                mime: String::from_str(mime),
                extension: String::from_str(extension),
                original,
            };
            let ghost old_downloads = self.downloads@;
            self.downloads.push(d);
            proof {
                lemma_has_download_push(old_downloads, self.downloads@.last());
                assert(self.downloads@.drop_last() =~= old_downloads);
            }
        }
        let ghost mid_posts = self.posts@;
        let ghost mid_next = self.next_id;
        let ghost mid_downloads = self.downloads@;
        let mut w: usize = 0;
        while w < tags.len()
            invariant
                old(self).wf(),
                self.wf(),
                w <= tags@.len(),
                self.posts@ == mid_posts,
                self.next_id == mid_next,
                self.downloads@ == mid_downloads,
                known_in(self.posts@, external_id),
                old(self).tags@.len() <= self.tags@.len(),
                old(self).post_tags@.len() <= self.post_tags@.len(),
                self.tags@.take(old(self).tags@.len() as int) == old(self).tags@,
                forall|i: int|
                    old(self).tags@.len() <= i < self.tags@.len() ==> upload_tag_in_prefix(
                        tags@,
                        w as int,
                        (#[trigger] self.tags@[i]).name@,
                    ) && !has_tag_in(old(self).tags@, self.tags@[i].name@) && exists|j: int|
                        0 <= j < tags@.len() && crate::tags::normalized_name(
                            (#[trigger] tags@[j]).name@,
                        ) == self.tags@[i].name@ && self.tags@[i].kind == Some(tags@[j].kind),
                forall|n: Seq<char>|
                    #[trigger] has_tag_in(self.tags@, n) <==> has_tag_in(old(self).tags@, n)
                        || upload_tag_in_prefix(tags@, w as int, n),
                self.post_tags@.take(old(self).post_tags@.len() as int) == old(self).post_tags@,
                forall|i: int|
                    old(self).post_tags@.len() <= i < self.post_tags@.len() ==> (
                    #[trigger] self.post_tags@[i]).external_id == external_id,
                forall|n: Seq<char>|
                    #[trigger] has_assoc_in(self.post_tags@, external_id, n) <==> has_assoc_in(
                        old(self).post_tags@,
                        external_id,
                        n,
                    ) || upload_tag_in_prefix(tags@, w as int, n),
                forall|e: i64, n: Seq<char>|
                    e != external_id ==> (#[trigger] has_assoc_in(self.post_tags@, e, n)
                        <==> has_assoc_in(old(self).post_tags@, e, n)),
            decreases tags@.len() - w,
        {
            let ln = crate::tags::normalize_tag_name(tags[w].name.as_str());
            if !ln.as_str().is_empty() {
                if !self.has_assoc(external_id, ln.as_str()) {
                    if !self.has_tag(ln.as_str()) {
                        let ghost old_tags = self.tags@;
                        self.tags.push(TagRecord { name: ln.clone(), kind: Some(tags[w].kind) });
                        proof {
                            lemma_has_tag_push(old_tags, self.tags@.last());
                            assert(self.tags@.take(old(self).tags@.len() as int) =~= old_tags.take(
                                old(self).tags@.len() as int,
                            ));
                        }
                    }
                    let ghost old_assocs = self.post_tags@;
                    self.post_tags.push(PostTag { external_id, tag: ln });
                    proof {
                        lemma_has_assoc_push(old_assocs, self.post_tags@.last());
                        assert(self.post_tags@.take(old(self).post_tags@.len() as int)
                            =~= old_assocs.take(old(self).post_tags@.len() as int));
                    }
                }
            }
            w = w + 1;
            proof {
                assert forall|n: Seq<char>|
                    upload_tag_in_prefix(tags@, w as int, n) implies has_tag_in(self.tags@, n)
                    && has_assoc_in(self.post_tags@, external_id, n) by {
                    let i = choose|i: int|
                        0 <= i < w && crate::tags::normalized_name((#[trigger] tags@[i]).name@) == n
                            && n.len() > 0;
                    if i == w - 1 {
                        assert(n == ln@);
                    }
                }
            }
        }
        id
    }
}

/// Whether `n` is the nonempty normalized name of one of the first `w`
/// supplied tags.
pub open spec fn upload_tag_in_prefix(ts: Seq<crate::tags::Tag>, w: int, n: Seq<char>) -> bool {
    n.len() > 0 && exists|i: int|
        0 <= i < w && crate::tags::normalized_name((#[trigger] ts[i]).name@) == n
}

/// Whether `n` is the nonempty normalized name of one of the supplied tags.
pub open spec fn upload_tag_in(ts: Seq<crate::tags::Tag>, n: Seq<char>) -> bool {
    n.len() > 0 && exists|i: int|
        0 <= i < ts.len() && crate::tags::normalized_name((#[trigger] ts[i]).name@) == n
}

/// Whether `n` is the nonempty case-folded form of one of the first `w`
/// whitespace-separated words of the source tag list `ws`.
pub open spec fn tag_in_prefix(ws: Seq<Seq<char>>, w: int, n: Seq<char>) -> bool {
    n.len() > 0 && exists|i: int| 0 <= i < w && crate::text::lower_of(#[trigger] ws[i]) == n
}

/// Whether `n` is the nonempty case-folded form of one of the whitespace-
/// separated words of the tag string `ts`.
pub open spec fn tag_in_source(ts: Seq<char>, n: Seq<char>) -> bool {
    n.len() > 0 && exists|i: int|
        0 <= i < crate::text::split_ws(ts).len() && crate::text::lower_of(
            #[trigger] crate::text::split_ws(ts)[i],
        ) == n
}

proof fn lemma_known_push(posts: Seq<PostRecord>, rec: PostRecord)
    ensures
        forall|e: i64|
            #[trigger] known_in(posts.push(rec), e) <==> known_in(posts, e) || rec.external_id == e,
{
    assert forall|e: i64|
        #[trigger] known_in(posts.push(rec), e) <==> known_in(posts, e) || rec.external_id
            == e by {
        if known_in(posts, e) {
            let w = choose|w: int| 0 <= w < posts.len() && posts[w].external_id == e;
            assert(posts.push(rec)[w].external_id == e);
        }
        if rec.external_id == e {
            assert(posts.push(rec)[posts.len() as int].external_id == e);
        }
        if known_in(posts.push(rec), e) {
            let w = choose|w: int|
                0 <= w < posts.push(rec).len() && posts.push(rec)[w].external_id == e;
            if w < posts.len() {
                assert(posts[w].external_id == e);
            }
        }
    }
}

proof fn lemma_has_download_push(downloads: Seq<DownloadRecord>, d: DownloadRecord)
    ensures
        forall|e: i64|
            #[trigger] has_download_in(downloads.push(d), e) <==> has_download_in(downloads, e)
                || d.external_id == e,
{
    assert forall|e: i64|
        #[trigger] has_download_in(downloads.push(d), e) <==> has_download_in(downloads, e)
            || d.external_id == e by {
        if has_download_in(downloads, e) {
            let w = choose|w: int| 0 <= w < downloads.len() && downloads[w].external_id == e;
            assert(downloads.push(d)[w].external_id == e);
        }
        if d.external_id == e {
            assert(downloads.push(d)[downloads.len() as int].external_id == e);
        }
        if has_download_in(downloads.push(d), e) {
            let w = choose|w: int|
                0 <= w < downloads.push(d).len() && downloads.push(d)[w].external_id == e;
            if w < downloads.len() {
                assert(downloads[w].external_id == e);
            }
        }
    }
}

proof fn lemma_has_tag_push(tags: Seq<TagRecord>, t: TagRecord)
    ensures
        forall|n: Seq<char>|
            #[trigger] has_tag_in(tags.push(t), n) <==> has_tag_in(tags, n) || t.name@ == n,
{
    assert forall|n: Seq<char>|
        #[trigger] has_tag_in(tags.push(t), n) <==> has_tag_in(tags, n) || t.name@ == n by {
        if has_tag_in(tags, n) {
            let w = choose|w: int| 0 <= w < tags.len() && tags[w].name@ == n;
            assert(tags.push(t)[w].name@ == n);
        }
        if t.name@ == n {
            assert(tags.push(t)[tags.len() as int].name@ == n);
        }
        if has_tag_in(tags.push(t), n) {
            let w = choose|w: int| 0 <= w < tags.push(t).len() && tags.push(t)[w].name@ == n;
            if w < tags.len() {
                assert(tags[w].name@ == n);
            }
        }
    }
}

proof fn lemma_has_assoc_push(assocs: Seq<PostTag>, a: PostTag)
    ensures
        forall|e: i64, n: Seq<char>|
            #[trigger] has_assoc_in(assocs.push(a), e, n) <==> has_assoc_in(assocs, e, n) || (
            a.external_id == e && a.tag@ == n),
{
    assert forall|e: i64, n: Seq<char>|
        #[trigger] has_assoc_in(assocs.push(a), e, n) <==> has_assoc_in(assocs, e, n) || (
        a.external_id == e && a.tag@ == n) by {
        if has_assoc_in(assocs, e, n) {
            let w = choose|w: int|
                0 <= w < assocs.len() && assocs[w].external_id == e && assocs[w].tag@ == n;
            assert(assocs.push(a)[w].external_id == e && assocs.push(a)[w].tag@ == n);
        }
        if a.external_id == e && a.tag@ == n {
            assert(assocs.push(a)[assocs.len() as int].external_id == e);
        }
        if has_assoc_in(assocs.push(a), e, n) {
            let w = choose|w: int|
                0 <= w < assocs.push(a).len() && assocs.push(a)[w].external_id == e
                    && assocs.push(a)[w].tag@ == n;
            if w < assocs.len() {
                assert(assocs[w].external_id == e && assocs[w].tag@ == n);
            }
        }
    }
}

/// Whether `v` holds `e`.
pub fn contains_id(v: &Vec<i64>, e: i64) -> (r: bool)
    ensures
        r == v@.contains(e),
{
    let mut i: usize = 0;
    while i < v.len()
        invariant
            i <= v@.len(),
            forall|j: int| 0 <= j < i ==> v@[j] != e,
        decreases v@.len() - i,
    {
        if v[i] == e {
            proof {
                assert(v@[i as int] == e);
            }
            return true;
        }
        i = i + 1;
    }
    false
}

/// What inserting `ids` one by one does: each id not yet present is appended
/// with the next internal id; the third component lists the newly inserted
/// ids in order.
pub open spec fn insert_ids_spec(posts: Seq<PostRecord>, next: int, ids: Seq<i64>) -> (
    Seq<PostRecord>,
    int,
    Seq<i64>,
)
    decreases ids.len(),
{
    if ids.len() == 0 {
        (posts, next, Seq::<i64>::empty())
    } else {
        let r = insert_ids_spec(posts, next, ids.drop_last());
        let e = ids.last();
        if known_in(r.0, e) {
            (r.0, r.1, r.2)
        } else {
            (r.0.push(PostRecord { external_id: e, id: r.1 as i64 }), r.1 + 1, r.2.push(e))
        }
    }
}

/// The pending backlog of `posts` against `downloads`: external ids without a
/// download record, newest (largest internal id) first.
pub open spec fn pending_of(posts: Seq<PostRecord>, downloads: Seq<DownloadRecord>) -> Seq<i64>
    decreases posts.len(),
{
    if posts.len() == 0 {
        Seq::empty()
    } else {
        let rest = pending_of(posts.drop_last(), downloads);
        if has_download_in(downloads, posts.last().external_id) {
            rest
        } else {
            seq![posts.last().external_id] + rest
        }
    }
}

/// Of `ids`, in order of first occurrence, those with a download record.
pub open spec fn filter_downloaded(downloads: Seq<DownloadRecord>, ids: Seq<i64>) -> Seq<i64>
    decreases ids.len(),
{
    if ids.len() == 0 {
        Seq::empty()
    } else {
        let r = filter_downloaded(downloads, ids.drop_last());
        let e = ids.last();
        if has_download_in(downloads, e) && !r.contains(e) {
            r.push(e)
        } else {
            r
        }
    }
}

proof fn lemma_contains_split(ids: Seq<i64>)
    requires
        ids.len() > 0,
    ensures
        forall|e: i64|
            #[trigger] ids.contains(e) <==> ids.drop_last().contains(e) || e == ids.last(),
{
    assert forall|e: i64|
        #[trigger] ids.contains(e) <==> ids.drop_last().contains(e) || e == ids.last() by {
        if ids.contains(e) {
            let k = choose|k: int| 0 <= k < ids.len() && ids[k] == e;
            if k < ids.len() - 1 {
                assert(ids.drop_last()[k] == e);
            }
        }
        if ids.drop_last().contains(e) {
            let k = choose|k: int| 0 <= k < ids.drop_last().len() && ids.drop_last()[k] == e;
            assert(ids[k] == e);
        }
        if e == ids.last() {
            assert(ids[ids.len() - 1] == e);
        }
    }
}

/// After inserting a batch, an id is known exactly when it was known before or
/// stood in the batch; the id counter never moves backwards.
pub proof fn lemma_insert_ids_known(posts: Seq<PostRecord>, next: int, ids: Seq<i64>)
    ensures
        forall|e: i64|
            #[trigger] known_in(insert_ids_spec(posts, next, ids).0, e) <==> known_in(posts, e)
                || ids.contains(e),
        insert_ids_spec(posts, next, ids).1 >= next,
    decreases ids.len(),
{
    if ids.len() == 0 {
        assert(forall|e: i64| !ids.contains(e));
    } else {
        lemma_insert_ids_known(posts, next, ids.drop_last());
        lemma_contains_split(ids);
        let r = insert_ids_spec(posts, next, ids.drop_last());
        let e0 = ids.last();
        if !known_in(r.0, e0) {
            lemma_known_push(r.0, PostRecord { external_id: e0, id: r.1 as i64 });
        }
    }
}

/// Inserting a batch of ids that are all already known changes nothing and
/// returns no ids.
pub proof fn lemma_insert_ids_all_known(posts: Seq<PostRecord>, next: int, ids: Seq<i64>)
    requires
        forall|e: i64| #[trigger] ids.contains(e) ==> known_in(posts, e),
    ensures
        insert_ids_spec(posts, next, ids).0 == posts,
        insert_ids_spec(posts, next, ids).1 == next,
        insert_ids_spec(posts, next, ids).2 =~= Seq::<i64>::empty(),
    decreases ids.len(),
{
    if ids.len() > 0 {
        lemma_contains_split(ids);
        assert forall|e: i64| #[trigger] ids.drop_last().contains(e) implies known_in(posts, e) by {
            assert(ids.contains(e));
        }
        lemma_insert_ids_all_known(posts, next, ids.drop_last());
        assert(ids.contains(ids.last()));
    }
}

/// Intake idempotence: submitting the same batch twice inserts it once. The
/// second pass finds every id known, leaves the store as the first pass left
/// it, and returns the empty set of newly inserted ids — so nothing is
/// published onto the ingestion queue a second time.
pub proof fn lemma_submit_idempotent(posts: Seq<PostRecord>, next: int, ids: Seq<i64>)
    ensures
        ({
            let first = insert_ids_spec(posts, next, ids);
            let second = insert_ids_spec(first.0, first.1, ids);
            second.0 == first.0 && second.1 == first.1 && second.2 =~= Seq::<i64>::empty()
        }),
{
    let first = insert_ids_spec(posts, next, ids);
    lemma_insert_ids_known(posts, next, ids);
    lemma_insert_ids_all_known(first.0, first.1, ids);
}

/// How many of `ids` are already known in `posts`.
pub open spec fn count_known(posts: Seq<PostRecord>, ids: Seq<i64>) -> int
    decreases ids.len(),
{
    if ids.len() == 0 {
        0int
    } else {
        count_known(posts, ids.drop_last()) + if known_in(posts, ids.last()) {
            1int
        } else {
            0int
        }
    }
}

/// Dedup correctness: a batch of N distinct ids of which K are already known
/// yields exactly N − K newly inserted ids, all distinct, all of the batch,
/// and none of them previously known.
pub proof fn lemma_submit_dedup(posts: Seq<PostRecord>, next: int, ids: Seq<i64>)
    requires
        ids.no_duplicates(),
    ensures
        ({
            let new_ids = insert_ids_spec(posts, next, ids).2;
            &&& new_ids.len() == ids.len() - count_known(posts, ids)
            &&& new_ids.no_duplicates()
            &&& forall|e: i64|
                #[trigger] new_ids.contains(e) ==> ids.contains(e) && !known_in(posts, e)
        }),
    decreases ids.len(),
{
    if ids.len() > 0 {
        let tail = ids.drop_last();
        let e0 = ids.last();
        assert(tail.no_duplicates()) by {
            assert(forall|i: int, j: int|
                0 <= i < j < tail.len() ==> tail[i] == ids[i] && tail[j] == ids[j]);
        }
        lemma_submit_dedup(posts, next, tail);
        lemma_insert_ids_known(posts, next, tail);
        lemma_contains_split(ids);
        let r = insert_ids_spec(posts, next, tail);
        let new_ids = insert_ids_spec(posts, next, ids).2;
        assert(!tail.contains(e0)) by {
            if tail.contains(e0) {
                let k = choose|k: int| 0 <= k < tail.len() && tail[k] == e0;
                assert(ids[k] == ids[ids.len() - 1]);
            }
        }
        if known_in(r.0, e0) {
            assert(known_in(posts, e0));
            assert forall|e: i64| #[trigger]
                new_ids.contains(e) implies ids.contains(e) && !known_in(posts, e) by {}
        } else {
            assert(!known_in(posts, e0));
            assert(new_ids == r.2.push(e0));
            assert forall|e: i64| #[trigger]
                new_ids.contains(e) implies ids.contains(e) && !known_in(posts, e) by {
                let k = choose|k: int| 0 <= k < new_ids.len() && new_ids[k] == e;
                if k < r.2.len() {
                    assert(r.2[k] == e);
                    assert(r.2.contains(e));
                }
            }
            assert(new_ids.no_duplicates()) by {
                assert forall|i: int, j: int|
                    0 <= i < j < new_ids.len() implies new_ids[i] != new_ids[j] by {
                    if j < r.2.len() {
                        assert(r.2[i] == new_ids[i] && r.2[j] == new_ids[j]);
                    } else {
                        assert(new_ids[j] == e0);
                        assert(r.2[i] == new_ids[i]);
                        assert(r.2.contains(new_ids[i]));
                    }
                }
            }
        }
    }
}

proof fn lemma_filter_downloaded_contains(downloads: Seq<DownloadRecord>, ids: Seq<i64>)
    ensures
        forall|e: i64|
            filter_downloaded(downloads, ids).contains(e) <==> ids.contains(e) && has_download_in(
                downloads,
                e,
            ),
    decreases ids.len(),
{
    if ids.len() > 0 {
        lemma_filter_downloaded_contains(downloads, ids.drop_last());
        let prev = filter_downloaded(downloads, ids.drop_last());
        let cur = filter_downloaded(downloads, ids);
        let le = ids.last();
        assert forall|e: i64|
            cur.contains(e) implies ids.contains(e) && has_download_in(downloads, e) by {
            if prev.contains(e) {
                assert(ids.drop_last().contains(e));
                let k = choose|k: int|
                    0 <= k < ids.drop_last().len() && ids.drop_last()[k] == e;
                assert(ids[k] == e);
            } else {
                assert(cur == prev.push(le));
                let m = choose|m: int| 0 <= m < cur.len() && cur[m] == e;
                if m < prev.len() {
                    assert(prev[m] == e);
                }
                assert(e == le);
                assert(ids[ids.len() - 1] == e);
            }
        }
        assert forall|e: i64|
            ids.contains(e) && has_download_in(downloads, e) implies cur.contains(e) by {
            if prev.contains(e) {
                let m = choose|m: int| 0 <= m < prev.len() && prev[m] == e;
                if has_download_in(downloads, le) && !prev.contains(le) {
                    assert(cur == prev.push(le));
                    assert(cur[m] == e);
                } else {
                    assert(cur == prev);
                }
            } else {
                assert(!ids.drop_last().contains(e));
                let k = choose|k: int| 0 <= k < ids.len() && ids[k] == e;
                assert(k == ids.len() - 1) by {
                    if k < ids.len() - 1 {
                        assert(ids.drop_last()[k] == e);
                    }
                }
                assert(e == le);
                assert(cur == prev.push(le));
                assert(cur[cur.len() - 1] == e);
            }
        }
    }
}

} // verus!
