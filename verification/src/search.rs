//! Search: parsing a raw query into wanted and exclude terms, and the
//! tag-intersection query over the store.
//!
//! A bare word is a wanted term; a word prefixed with a minus sign is an
//! exclude term with the prefix stripped, and a lone minus is dropped. Exclude
//! terms are accepted by the parser but not yet applied to filtering — a known
//! open question of the design, kept visible here rather than silently fixed.

use vstd::prelude::*;
use crate::error::AppError;
use crate::store::{has_assoc_in, PostRecord, PostStore, PostTag};
use crate::text::{char_views, split_words, split_ws, str_eq};

verus! {

/// A parsed query: bare words to require, minus-prefixed words to exclude.
pub struct Search {
    pub wanted: Vec<String>,
    pub exclude: Vec<String>,
}

/// The raw query string as the HTTP layer hands it over.
pub struct SearchQuery {
    pub term: String,
}

/// The wanted terms among the words `ws`: those not starting with a minus.
pub open spec fn wanted_of(ws: Seq<Seq<char>>) -> Seq<Seq<char>>
    decreases ws.len(),
{
    if ws.len() == 0 {
        Seq::empty()
    } else {
        let r = wanted_of(ws.drop_last());
        let w = ws.last();
        if w.len() > 0 && w[0] == '-' {
            r
        } else {
            r.push(w)
        }
    }
}

/// The exclude terms among the words `ws`: minus-prefixed words, prefix
/// stripped, empty remainders dropped.
pub open spec fn exclude_of(ws: Seq<Seq<char>>) -> Seq<Seq<char>>
    decreases ws.len(),
{
    if ws.len() == 0 {
        Seq::empty()
    } else {
        let r = exclude_of(ws.drop_last());
        let w = ws.last();
        if w.len() > 1 && w[0] == '-' {
            r.push(w.drop_first())
        } else {
            r
        }
    }
}

impl Search {
    /// Parses a raw query string, exactly as `wanted_of` and `exclude_of`
    /// describe its whitespace-separated words.
    pub fn new(input: &str) -> (r: Search)
        ensures
            char_views(r.wanted@) == wanted_of(split_ws(input@)),
            char_views(r.exclude@) == exclude_of(split_ws(input@)),
    {
        let words = split_words(input);
        let ghost ws = split_ws(input@);
        let mut wanted: Vec<String> = Vec::new();
        let mut exclude: Vec<String> = Vec::new();
        let mut k: usize = 0;
        proof {
            assert(ws.take(0) =~= Seq::<Seq<char>>::empty());
        }
        while k < words.len()
            invariant
                k <= words@.len(),
                char_views(words@) == ws,
                char_views(wanted@) =~= wanted_of(ws.take(k as int)),
                char_views(exclude@) =~= exclude_of(ws.take(k as int)),
            decreases words@.len() - k,
        {
            proof {
                assert(ws.take(k + 1).drop_last() =~= ws.take(k as int));
                assert(ws.take(k + 1).last() == words@[k as int]@);
            }
            let w = &words[k];
            let len = w.as_str().unicode_len();
            if len > 0 && w.as_str().get_char(0) == '-' {
                if len > 1 {
                    let stripped = w.as_str().substring_char(1, len);
                    exclude.push(String::from_str(stripped));
                    proof {
                        assert(stripped@ =~= words@[k as int]@.drop_first());
                        assert(char_views(exclude@) =~= char_views(exclude@.drop_last()).push(
                            stripped@,
                        ));
                    }
                }
            } else {
                wanted.push(w.clone());
                proof {
                    assert(char_views(wanted@) =~= char_views(wanted@.drop_last()).push(
                        words@[k as int]@,
                    ));
                }
            }
            k = k + 1;
        }
        proof {
            assert(ws.take(ws.len() as int) =~= ws);
        }
        Search { wanted, exclude }
    }
}

/// Whether the post with external id `e` carries every tag of `inc`.
pub open spec fn matches_wanted(assocs: Seq<PostTag>, e: i64, inc: Seq<Seq<char>>) -> bool {
    forall|i: int| 0 <= i < inc.len() ==> has_assoc_in(assocs, e, #[trigger] inc[i])
}

/// The external ids of the posts carrying every wanted term, newest first by
/// internal id.
pub open spec fn search_results(
    posts: Seq<PostRecord>,
    assocs: Seq<PostTag>,
    inc: Seq<Seq<char>>,
) -> Seq<i64>
    decreases posts.len(),
{
    if posts.len() == 0 {
        Seq::empty()
    } else {
        let rest = search_results(posts.drop_last(), assocs, inc);
        if matches_wanted(assocs, posts.last().external_id, inc) {
            seq![posts.last().external_id] + rest
        } else {
            rest
        }
    }
}

/// Whether the views of `v` are pairwise distinct.
pub open spec fn distinct_views(v: Seq<String>) -> bool {
    forall|i: int, j: int| 0 <= i < j < v.len() ==> (#[trigger] v[i])@ != (#[trigger] v[j])@
}

impl PostStore {
    /// Whether the post with external id `e` carries every tag of `wanted`.
    pub fn post_matches(&self, e: i64, wanted: &Vec<String>) -> (r: bool)
        ensures
            r == matches_wanted(self.post_tags@, e, char_views(wanted@)),
    {
        let mut i: usize = 0;
        while i < wanted.len()
            invariant
                i <= wanted@.len(),
                forall|j: int|
                    0 <= j < i ==> has_assoc_in(
                        self.post_tags@,
                        e,
                        #[trigger] char_views(wanted@)[j],
                    ),
            decreases wanted@.len() - i,
        {
            if !self.has_assoc(e, wanted[i].as_str()) {
                proof {
                    assert(char_views(wanted@)[i as int] == wanted@[i as int]@);
                }
                return false;
            }
            i = i + 1;
        }
        true
    }

    /// The tag-intersection query: posts whose tag set includes every wanted
    /// term, newest first. A query without wanted terms is rejected; a query
    /// that repeats a wanted term matches nothing (the match count can never
    /// reach the number of terms). Exclude terms are not yet applied.
    pub fn search(&self, q: &Search) -> (r: Result<Vec<i64>, AppError>)
        ensures
            match r {
                Ok(v) => q.wanted@.len() > 0 && if distinct_views(q.wanted@) {
                    v@ == search_results(self.posts@, self.post_tags@, char_views(q.wanted@))
                } else {
                    v@ == Seq::<i64>::empty()
                },
                Err(e) => e == AppError::EmptyQuery && q.wanted@.len() == 0,
            },
    {
        if q.wanted.len() == 0 {
            return Err(AppError::EmptyQuery);
        }
        let mut a: usize = 0;
        while a < q.wanted.len()
            invariant
                a <= q.wanted@.len(),
                forall|i: int, j: int|
                    0 <= i < j < q.wanted@.len() && i < a ==> (#[trigger] q.wanted@[i])@ != (
                    #[trigger] q.wanted@[j])@,
            decreases q.wanted@.len() - a,
        {
            let mut b: usize = a + 1;
            while b < q.wanted.len()
                invariant
                    a < b <= q.wanted@.len(),
                    forall|j: int|
                        a < j < b ==> (#[trigger] q.wanted@[j])@ != q.wanted@[a as int]@,
                decreases q.wanted@.len() - b,
            {
                if str_eq(q.wanted[a].as_str(), q.wanted[b].as_str()) {
                    return Ok(Vec::new());
                }
                b = b + 1;
            }
            a = a + 1;
        }
        let mut out: Vec<i64> = Vec::new();
        let mut i: usize = 0;
        proof {
            assert(self.posts@.take(0) =~= Seq::<PostRecord>::empty());
        }
        while i < self.posts.len()
            invariant
                i <= self.posts@.len(),
                out@ =~= search_results(
                    self.posts@.take(i as int),
                    self.post_tags@,
                    char_views(q.wanted@),
                ),
            decreases self.posts@.len() - i,
        {
            let e = self.posts[i].external_id;
            proof {
                assert(self.posts@.take(i + 1).drop_last() =~= self.posts@.take(i as int));
                assert(self.posts@.take(i + 1).last() == self.posts@[i as int]);
            }
            if self.post_matches(e, &q.wanted) {
                out.insert(0, e);
                proof {
                    assert(out@ =~= seq![e] + search_results(
                        self.posts@.take(i as int),
                        self.post_tags@,
                        char_views(q.wanted@),
                    ));
                }
            }
            i = i + 1;
        }
        proof {
            assert(self.posts@.take(self.posts@.len() as int) =~= self.posts@);
        }
        Ok(out)
    }
}

} // verus!
