//! Tag autocompletion: substring match against tag names, ordered by how many
//! posts use each tag, capped at ten results — a fixed limit.

use vstd::prelude::*;
use crate::store::{PostStore, PostTag};
use crate::tags::TagKind;
use crate::text::{contains_seq, contains_substring};

verus! {

/// How many posts use the tag named `n`.
pub open spec fn uses_of(assocs: Seq<PostTag>, n: Seq<char>) -> int
    decreases assocs.len(),
{
    if assocs.len() == 0 {
        0int
    } else {
        uses_of(assocs.drop_last(), n) + if assocs.last().tag@ == n {
            1int
        } else {
            0int
        }
    }
}

/// One autocompletion entry: a tag's name and kind, and its use count.
pub struct AutoCompleteSuggestion {
    pub name: String,
    pub kind: Option<TagKind>,
    pub uses: usize,
}

/// Whether `v` holds the index `e`.
fn contains_ix(v: &Vec<usize>, e: usize) -> (r: bool)
    ensures
        r == v@.contains(e),
{
    let mut i: usize = 0;
    while i < v.len()
        invariant
            i <= v@.len(),
            forall|j: int| 0 <= j < i ==> v@[j] != e,
        decreases v@.len() - i,
    {
        if v[i] == e {
            proof {
                assert(v@[i as int] == e);
            }
            return true;
        }
        i = i + 1;
    }
    false
}

impl PostStore {
    /// How many posts use the tag named `n`.
    pub fn uses_count(&self, n: &str) -> (r: usize)
        ensures
            r == uses_of(self.post_tags@, n@),
    {
        let mut r: usize = 0;
        let mut i: usize = 0;
        proof {
            assert(self.post_tags@.take(0) =~= Seq::<PostTag>::empty());
        }
        while i < self.post_tags.len()
            invariant
                i <= self.post_tags@.len(),
                r == uses_of(self.post_tags@.take(i as int), n@),
                r <= i,
            decreases self.post_tags@.len() - i,
        {
            proof {
                assert(self.post_tags@.take(i + 1).drop_last() =~= self.post_tags@.take(i as int));
                assert(self.post_tags@.take(i + 1).last() == self.post_tags@[i as int]);
            }
            if crate::text::str_eq(self.post_tags[i].tag.as_str(), n) {
                r = r + 1;
            }
            i = i + 1;
        }
        proof {
            assert(self.post_tags@.take(self.post_tags@.len() as int) =~= self.post_tags@);
        }
        r
    }

    /// The indices of up to ten tags whose names contain `term`, most used
    /// first: any matching tag left out loses to every one picked.
    fn select_top_tags(&self, term: &str) -> (r: Vec<usize>)
        ensures
            r@.len() <= 10,
            forall|k: int|
                0 <= k < r@.len() ==> #[trigger] r@[k] < self.tags@.len() && contains_seq(
                    self.tags@[r@[k] as int].name@,
                    term@,
                ),
            forall|a: int, b: int| 0 <= a < b < r@.len() ==> r@[a] != r@[b],
            forall|a: int, b: int|
                0 <= a < b < r@.len() ==> uses_of(self.post_tags@, self.tags@[#[trigger] r@[a] as int].name@)
                    >= uses_of(self.post_tags@, self.tags@[#[trigger] r@[b] as int].name@),
            forall|j: int|
                0 <= j < self.tags@.len() && contains_seq((#[trigger] self.tags@[j]).name@, term@)
                    && !r@.contains(j as usize) ==> r@.len() == 10 && uses_of(
                    self.post_tags@,
                    self.tags@[j].name@,
                ) <= uses_of(self.post_tags@, self.tags@[r@[r@.len() - 1] as int].name@),
    {
        let mut picked: Vec<usize> = Vec::new();
        let mut done = false;
        while picked.len() < 10 && !done
            invariant
                picked@.len() <= 10,
                forall|k: int|
                    0 <= k < picked@.len() ==> #[trigger] picked@[k] < self.tags@.len()
                        && contains_seq(self.tags@[picked@[k] as int].name@, term@),
                forall|a: int, b: int| 0 <= a < b < picked@.len() ==> picked@[a] != picked@[b],
                forall|a: int, b: int|
                    0 <= a < b < picked@.len() ==> uses_of(
                        self.post_tags@,
                        self.tags@[#[trigger] picked@[a] as int].name@,
                    ) >= uses_of(self.post_tags@, self.tags@[#[trigger] picked@[b] as int].name@),
                picked@.len() > 0 ==> forall|j: int|
                    0 <= j < self.tags@.len() && contains_seq(
                        (#[trigger] self.tags@[j]).name@,
                        term@,
                    ) && !picked@.contains(j as usize) ==> uses_of(self.post_tags@, self.tags@[j].name@)
                        <= uses_of(
                        self.post_tags@,
                        self.tags@[picked@[picked@.len() - 1] as int].name@,
                    ),
                done ==> forall|j: int|
                    0 <= j < self.tags@.len() && contains_seq(
                        (#[trigger] self.tags@[j]).name@,
                        term@,
                    ) ==> picked@.contains(j as usize),
            decreases 10 - picked@.len() + (if done {
                0int
            } else {
                1int
            }),
        {
            let mut best: usize = 0;
            let mut found = false;
            let mut best_uses: usize = 0;
            let mut j: usize = 0;
            while j < self.tags.len()
                invariant
                    j <= self.tags@.len(),
                    found ==> best < self.tags@.len() && best < j && contains_seq(
                        self.tags@[best as int].name@,
                        term@,
                    ) && !picked@.contains(best) && best_uses == uses_of(
                        self.post_tags@,
                        self.tags@[best as int].name@,
                    ),
                    forall|jj: int|
                        0 <= jj < j && contains_seq((#[trigger] self.tags@[jj]).name@, term@)
                            && !picked@.contains(jj as usize) ==> found && uses_of(
                            self.post_tags@,
                            self.tags@[jj].name@,
                        ) <= best_uses,
                decreases self.tags@.len() - j,
            {
                if contains_substring(self.tags[j].name.as_str(), term) && !contains_ix(
                    &picked,
                    j,
                ) {
                    let u = self.uses_count(self.tags[j].name.as_str());
                    if !found || u > best_uses {
                        best = j;
                        found = true;
                        best_uses = u;
                    }
                }
                j = j + 1;
            }
            if found {
                let ghost oldp = picked@;
                picked.push(best);
                proof {
                    assert(forall|k: int| 0 <= k < oldp.len() ==> picked@[k] == oldp[k]);
                    assert(picked@[picked@.len() - 1] == best);
                    if oldp.len() > 0 {
                        // the freshly picked tag was unpicked, so the previous
                        // bound applies to it as well
                        assert(uses_of(self.post_tags@, self.tags@[best as int].name@) <= uses_of(
                            self.post_tags@,
                            self.tags@[oldp[oldp.len() - 1] as int].name@,
                        ));
                    }
                    assert forall|a: int, b: int|
                        0 <= a < b < picked@.len() implies picked@[a] != picked@[b] by {
                        if b == picked@.len() - 1 {
                            if oldp.contains(picked@[a]) && picked@[a] == best {
                                assert(false);
                            }
                            assert(oldp[a] == picked@[a]);
                            assert(oldp.contains(picked@[a])) by {
                                assert(oldp[a] == picked@[a]);
                            }
                        }
                    }
                    assert forall|a: int, b: int|
                        0 <= a < b < picked@.len() implies uses_of(
                        self.post_tags@,
                        self.tags@[#[trigger] picked@[a] as int].name@,
                    ) >= uses_of(
                        self.post_tags@,
                        self.tags@[#[trigger] picked@[b] as int].name@,
                    ) by {
                        if b == picked@.len() - 1 && a < oldp.len() - 1 {
                            assert(uses_of(
                                self.post_tags@,
                                self.tags@[oldp[a] as int].name@,
                            ) >= uses_of(
                                self.post_tags@,
                                self.tags@[oldp[oldp.len() - 1] as int].name@,
                            ));
                        }
                    }
                    assert forall|j: int|
                        0 <= j < self.tags@.len() && contains_seq(
                            (#[trigger] self.tags@[j]).name@,
                            term@,
                        ) && !picked@.contains(j as usize) implies uses_of(
                        self.post_tags@,
                        self.tags@[j].name@,
                    ) <= uses_of(
                        self.post_tags@,
                        self.tags@[picked@[picked@.len() - 1] as int].name@,
                    ) by {
                        assert(!oldp.contains(j as usize)) by {
                            if oldp.contains(j as usize) {
                                let m = choose|m: int| 0 <= m < oldp.len() && oldp[m] == j as usize;
                                assert(picked@[m] == j as usize);
                            }
                        }
                    }
                }
            } else {
                done = true;
            }
        }
        picked
    }

    /// Up to ten suggestions for `term`: tags whose names contain it, most
    /// used first; with fewer than ten results every matching tag is present,
    /// and any matching tag left out of a full list loses to every entry.
    pub fn autocomplete(&self, term: &str) -> (r: Vec<AutoCompleteSuggestion>)
        requires
            self.wf(),
        ensures
            r@.len() <= 10,
            forall|k: int|
                0 <= k < r@.len() ==> contains_seq((#[trigger] r@[k]).name@, term@) && r@[k].uses
                    == uses_of(self.post_tags@, r@[k].name@) && exists|i: int|
                    0 <= i < self.tags@.len() && (#[trigger] self.tags@[i]).name@ == r@[k].name@
                        && self.tags@[i].kind == r@[k].kind,
            forall|a: int, b: int|
                0 <= a < b < r@.len() ==> (#[trigger] r@[a]).uses >= (#[trigger] r@[b]).uses,
            forall|a: int, b: int|
                0 <= a < b < r@.len() ==> (#[trigger] r@[a]).name@ != (#[trigger] r@[b]).name@,
            forall|j: int|
                0 <= j < self.tags@.len() && contains_seq((#[trigger] self.tags@[j]).name@, term@)
                    && (forall|k: int| 0 <= k < r@.len() ==> (#[trigger] r@[k]).name@
                    != self.tags@[j].name@) ==> r@.len() == 10 && uses_of(
                    self.post_tags@,
                    self.tags@[j].name@,
                ) <= r@[r@.len() - 1].uses,
    {
        let picked = self.select_top_tags(term);
        let mut out: Vec<AutoCompleteSuggestion> = Vec::new();
        let mut k: usize = 0;
        while k < picked.len()
            invariant
                self.wf(),
                k <= picked@.len(),
                out@.len() == k,
                forall|m: int|
                    0 <= m < picked@.len() ==> #[trigger] picked@[m] < self.tags@.len()
                        && contains_seq(self.tags@[picked@[m] as int].name@, term@),
                forall|a: int, b: int| 0 <= a < b < picked@.len() ==> picked@[a] != picked@[b],
                forall|a: int, b: int|
                    0 <= a < b < picked@.len() ==> uses_of(
                        self.post_tags@,
                        self.tags@[#[trigger] picked@[a] as int].name@,
                    ) >= uses_of(self.post_tags@, self.tags@[#[trigger] picked@[b] as int].name@),
                forall|m: int|
                    0 <= m < k ==> (#[trigger] out@[m]).name@ == self.tags@[picked@[m] as int].name@
                        && out@[m].kind == self.tags@[picked@[m] as int].kind && out@[m].uses
                        == uses_of(self.post_tags@, out@[m].name@),
            decreases picked@.len() - k,
        {
            let ix = picked[k];
            let u = self.uses_count(self.tags[ix].name.as_str());
            out.push(
                AutoCompleteSuggestion {
                    name: self.tags[ix].name.clone(),
                    kind: self.tags[ix].kind,
                    uses: u,
                },
            );
            k = k + 1;
        }
        proof {
            assert forall|j: int|
                0 <= j < self.tags@.len() && contains_seq((#[trigger] self.tags@[j]).name@, term@)
                    && (forall|kk: int| 0 <= kk < out@.len() ==> (#[trigger] out@[kk]).name@
                    != self.tags@[j].name@) implies out@.len() == 10 && uses_of(
                self.post_tags@,
                self.tags@[j].name@,
            ) <= out@[out@.len() - 1].uses by {
                assert(!picked@.contains(j as usize)) by {
                    if picked@.contains(j as usize) {
                        vstd::std_specs::vec::axiom_spec_len(&self.tags);
                        let m = choose|m: int| 0 <= m < picked@.len() && picked@[m] == j as usize;
                        assert(picked@[m] as int == j);
                        assert(out@[m].name@ == self.tags@[picked@[m] as int].name@);
                        assert(out@[m].name@ == self.tags@[j].name@);
                    }
                }
                assert(out@[out@.len() - 1].name@ == self.tags@[picked@[picked@.len()
                    - 1] as int].name@);
            }
            assert forall|a: int, b: int|
                0 <= a < b < out@.len() implies (#[trigger] out@[a]).name@ != (
            #[trigger] out@[b]).name@ by {
                let pa = picked@[a] as int;
                let pb = picked@[b] as int;
                if pa < pb {
                    assert(self.tags@[pa].name@ != self.tags@[pb].name@);
                } else {
                    assert(self.tags@[pb].name@ != self.tags@[pa].name@);
                }
            }
        }
        out
    }

    /// The same ten-entry suggestion list, as tag rows for the browsing
    /// surface; a tag's id is its position in the store, counted from one.
    pub fn get_tag_suggestions(&self, input: &str) -> (r: Vec<crate::web::Tag>)
        requires
            self.wf(),
            self.tags@.len() < i64::MAX,
        ensures
            r@.len() <= 10,
            forall|k: int|
                0 <= k < r@.len() ==> 1 <= (#[trigger] r@[k]).id <= self.tags@.len() && self.tags@[
                    r@[k].id - 1
                ].name@ == r@[k].name@ && contains_seq(r@[k].name@, input@) && r@[k].uses == uses_of(
                    self.post_tags@,
                    r@[k].name@,
                ),
            forall|a: int, b: int|
                0 <= a < b < r@.len() ==> (#[trigger] r@[a]).uses >= (#[trigger] r@[b]).uses,
            forall|j: int|
                0 <= j < self.tags@.len() && contains_seq((#[trigger] self.tags@[j]).name@, input@)
                    && (forall|k: int| 0 <= k < r@.len() ==> (#[trigger] r@[k]).id - 1 != j)
                    ==> r@.len() == 10 && uses_of(self.post_tags@, self.tags@[j].name@)
                    <= r@[r@.len() - 1].uses,
    {
        let picked = self.select_top_tags(input);
        let mut out: Vec<crate::web::Tag> = Vec::new();
        let mut k: usize = 0;
        while k < picked.len()
            invariant
                self.wf(),
                self.tags@.len() < i64::MAX,
                k <= picked@.len(),
                out@.len() == k,
                forall|m: int|
                    0 <= m < picked@.len() ==> #[trigger] picked@[m] < self.tags@.len()
                        && contains_seq(self.tags@[picked@[m] as int].name@, input@),
                forall|a: int, b: int|
                    0 <= a < b < picked@.len() ==> uses_of(
                        self.post_tags@,
                        self.tags@[#[trigger] picked@[a] as int].name@,
                    ) >= uses_of(self.post_tags@, self.tags@[#[trigger] picked@[b] as int].name@),
                forall|j: int|
                    0 <= j < self.tags@.len() && contains_seq(
                        (#[trigger] self.tags@[j]).name@,
                        input@,
                    ) && !picked@.contains(j as usize) ==> picked@.len() == 10 && uses_of(
                        self.post_tags@,
                        self.tags@[j].name@,
                    ) <= uses_of(
                        self.post_tags@,
                        self.tags@[picked@[picked@.len() - 1] as int].name@,
                    ),
                forall|m: int|
                    0 <= m < k ==> (#[trigger] out@[m]).id == picked@[m] + 1 && out@[m].name@
                        == self.tags@[picked@[m] as int].name@ && out@[m].uses == uses_of(
                        self.post_tags@,
                        out@[m].name@,
                    ),
            decreases picked@.len() - k,
        {
            let ix = picked[k];
            let u = self.uses_count(self.tags[ix].name.as_str());
            out.push(
                crate::web::Tag {
                    id: (ix as i64) + 1,
                    name: self.tags[ix].name.clone(),
                    uses: u,
                },
            );
            k = k + 1;
        }
        proof {
            assert forall|j: int|
                0 <= j < self.tags@.len() && contains_seq((#[trigger] self.tags@[j]).name@, input@)
                    && (forall|kk: int| 0 <= kk < out@.len() ==> (#[trigger] out@[kk]).id - 1 != j)
                    implies out@.len() == 10 && uses_of(self.post_tags@, self.tags@[j].name@)
                <= out@[out@.len() - 1].uses by {
                assert(!picked@.contains(j as usize)) by {
                    if picked@.contains(j as usize) {
                        vstd::std_specs::vec::axiom_spec_len(&self.tags);
                        let m = choose|m: int| 0 <= m < picked@.len() && picked@[m] == j as usize;
                        assert(picked@[m] as int == j);
                        assert(out@[m].id == picked@[m] + 1);
                        assert(out@[m].id - 1 == j);
                    }
                }
                assert(out@[out@.len() - 1].name@ == self.tags@[picked@[picked@.len()
                    - 1] as int].name@);
            }
        }
        out
    }
}

} // verus!
