//! The intake gate: the boundary that receives externally observed post ids,
//! deduplicates them against the store, and publishes each genuinely new id
//! onto the ingestion queue exactly once. The same gate re-enqueues the
//! backlog of posts left without a download record by a prior run: the
//! system's only retry mechanism.

use vstd::prelude::*;
use crate::error::AppError;
use crate::store::{
    filter_downloaded, has_download_in, insert_ids_spec, known_in, pending_of, PostStore,
};

verus! {

/// The metadata the remote source returns for one post.
#[derive(Debug)]
pub struct XMLPost {
    pub file_url: String,
    pub space_seperated_tags: String,
}

/// The list of posts in the remote source's answer.
pub struct XMLPosts {
    pub posts: Vec<XMLPost>,
}

/// The answer's first post; a remote answer with zero records for a known id
/// is a hard failure for that post.
pub fn first_post(answer: XMLPosts) -> (r: Result<XMLPost, AppError>)
    ensures
        match r {
            Ok(p) => answer.posts@.len() > 0 && p == answer.posts@[0],
            Err(e) => e == AppError::ApiReturnedNoPost && answer.posts@.len() == 0,
        },
{
    let mut posts = answer.posts;
    if posts.len() == 0 {
        return Err(AppError::ApiReturnedNoPost);
    }
    let p = posts.remove(0);
    Ok(p)
}

/// A batch of external post ids, as the HTTP layer exchanges them.
pub struct PostIdsResponse {
    pub post_ids: Vec<i64>,
}

/// The intake gate and its ingestion queue of external post ids.
pub struct IntakeGate {
    pub queue: Vec<i64>,
}

impl IntakeGate {
    /// A gate with an empty queue.
    pub fn new() -> (g: IntakeGate)
        ensures
            g.queue@ =~= Seq::<i64>::empty(),
    {
        IntakeGate { queue: Vec::new() }
    }

    /// Inserts the batch with insert-if-absent semantics, returns exactly the
    /// newly inserted ids, and publishes each of them onto the queue exactly
    /// once; pre-existing ids are silently skipped.
    pub fn submit(&mut self, store: &mut PostStore, ids: &Vec<i64>) -> (new_ids: Vec<i64>)
        requires
            old(store).wf(),
            old(store).next_id + ids@.len() <= i64::MAX,
        ensures
            final(store).wf(),
            (final(store).posts@, final(store).next_id as int, new_ids@) =~~= insert_ids_spec(
                old(store).posts@,
                old(store).next_id as int,
                ids@,
            ),
            final(store).downloads@ == old(store).downloads@,
            final(store).tags@ == old(store).tags@,
            final(store).post_tags@ == old(store).post_tags@,
            final(self).queue@ == old(self).queue@ + new_ids@,
    {
        let new_ids = store.insert_posts(ids);
        let mut k: usize = 0;
        while k < new_ids.len()
            invariant
                k <= new_ids@.len(),
                self.queue@ =~= old(self).queue@ + new_ids@.take(k as int),
            decreases new_ids@.len() - k,
        {
            self.queue.push(new_ids[k]);
            proof {
                assert(self.queue@ =~= old(self).queue@ + new_ids@.take(k + 1));
            }
            k = k + 1;
        }
        proof {
            assert(new_ids@.take(new_ids@.len() as int) =~= new_ids@);
        }
        new_ids
    }

    /// The restart-time backlog scan: every post with a row but no download
    /// record, newest first, is published onto the queue again.
    pub fn requeue_pending(&mut self, store: &PostStore)
        ensures
            final(self).queue@ == old(self).queue@ + pending_of(store.posts@, store.downloads@),
    {
        let pending = store.pending_posts();
        let mut k: usize = 0;
        while k < pending.len()
            invariant
                k <= pending@.len(),
                pending@ == pending_of(store.posts@, store.downloads@),
                self.queue@ =~= old(self).queue@ + pending@.take(k as int),
            decreases pending@.len() - k,
        {
            self.queue.push(pending[k]);
            proof {
                assert(self.queue@ =~= old(self).queue@ + pending@.take(k + 1));
            }
            k = k + 1;
        }
        proof {
            assert(pending@.take(pending@.len() as int) =~= pending@);
        }
    }

    /// The client-side "already downloaded" check: of `ids`, those that have a
    /// download record (not merely a post row).
    pub fn existing(&self, store: &PostStore, ids: &Vec<i64>) -> (r: Vec<i64>)
        ensures
            r@ == filter_downloaded(store.downloads@, ids@),
            forall|e: i64|
                r@.contains(e) <==> ids@.contains(e) && has_download_in(store.downloads@, e),
    {
        store.filter_already_downloaded_posts(ids)
    }

    /// The next id a worker takes off the queue, oldest first.
    pub fn next_post(&mut self) -> (r: Option<i64>)
        ensures
            old(self).queue@.len() == 0 ==> r is None && final(self).queue@ == old(self).queue@,
            old(self).queue@.len() > 0 ==> r == Some(old(self).queue@[0]) && final(self).queue@
                == old(self).queue@.drop_first(),
    {
        if self.queue.len() == 0 {
            None
        } else {
            let e = self.queue.remove(0);
            proof {
                assert(self.queue@ =~= old(self).queue@.drop_first());
            }
            Some(e)
        }
    }
}

/// A post is pending exactly when it is known and has no download record: what
/// `requeue_pending` publishes is precisely the crashed or unfinished work.
pub proof fn lemma_pending_iff(store: PostStore, e: i64)
    ensures
        pending_of(store.posts@, store.downloads@).contains(e) <==> known_in(store.posts@, e)
            && !has_download_in(store.downloads@, e),
{
    lemma_pending_of_contains(store.posts@, store.downloads@);
}

proof fn lemma_pending_of_contains(
    posts: Seq<crate::store::PostRecord>,
    downloads: Seq<crate::store::DownloadRecord>,
)
    ensures
        forall|e: i64|
            pending_of(posts, downloads).contains(e) <==> known_in(posts, e) && !has_download_in(
                downloads,
                e,
            ),
    decreases posts.len(),
{
    if posts.len() > 0 {
        lemma_pending_of_contains(posts.drop_last(), downloads);
        let prev = pending_of(posts.drop_last(), downloads);
        let cur = pending_of(posts, downloads);
        let le = posts.last().external_id;
        assert forall|e: i64|
            cur.contains(e) implies known_in(posts, e) && !has_download_in(downloads, e) by {
            if prev.contains(e) {
                assert(known_in(posts.drop_last(), e));
                let w = choose|w: int|
                    0 <= w < posts.drop_last().len() && posts.drop_last()[w].external_id == e;
                assert(posts[w].external_id == e);
            } else {
                assert(cur == seq![le] + prev);
                let m = choose|m: int| 0 <= m < cur.len() && cur[m] == e;
                if m > 0 {
                    assert(prev[m - 1] == e);
                }
                assert(e == le);
                assert(posts[posts.len() - 1].external_id == e);
            }
        }
        assert forall|e: i64|
            known_in(posts, e) && !has_download_in(downloads, e) implies cur.contains(e) by {
            let w = choose|w: int| 0 <= w < posts.len() && posts[w].external_id == e;
            if w == posts.len() - 1 {
                assert(cur == seq![le] + prev);
                assert(cur[0] == e);
            } else {
                assert(posts.drop_last()[w].external_id == e);
                assert(known_in(posts.drop_last(), e));
                assert(prev.contains(e));
                let m = choose|m: int| 0 <= m < prev.len() && prev[m] == e;
                if has_download_in(downloads, le) {
                    assert(cur == prev);
                } else {
                    assert(cur == seq![le] + prev);
                    assert(cur[m + 1] == e);
                }
            }
        }
    }
}

} // verus!
