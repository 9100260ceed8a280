//! Text helpers: whitespace handling, word splitting, substring search and
//! case normalization for tag names and search queries.

use vstd::prelude::*;

verus! {

/// The whitespace characters this library recognizes when it trims and splits.
pub open spec fn is_space_char(c: char) -> bool {
    c == ' ' || c == '\t' || c == '\n' || c == '\r'
}

/// Runtime test for `is_space_char`.
pub fn is_space(c: char) -> (r: bool)
    ensures
        r == is_space_char(c),
{
    c == ' ' || c == '\t' || c == '\n' || c == '\r'
}

/// `s` without its leading whitespace.
pub open spec fn trim_front(s: Seq<char>) -> Seq<char>
    decreases s.len(),
{
    if s.len() > 0 && is_space_char(s[0]) {
        trim_front(s.drop_first())
    } else {
        s
    }
}

/// `s` without its trailing whitespace.
pub open spec fn trim_back(s: Seq<char>) -> Seq<char>
    decreases s.len(),
{
    if s.len() > 0 && is_space_char(s.last()) {
        trim_back(s.drop_last())
    } else {
        s
    }
}

/// `s` without leading and trailing whitespace.
pub open spec fn trim_spec(s: Seq<char>) -> Seq<char> {
    trim_back(trim_front(s))
}

proof fn lemma_trim_front_skip(s: Seq<char>, k: int)
    requires
        0 <= k <= s.len(),
        forall|j: int| 0 <= j < k ==> is_space_char(s[j]),
        k == s.len() || !is_space_char(s[k]),
    ensures
        trim_front(s) == s.skip(k),
    decreases k,
{
    if k == 0 {
        assert(trim_front(s) =~= s.skip(0)) by {
            assert(s.skip(0) =~= s);
        }
    } else {
        let t = s.drop_first();
        assert(t =~= s.skip(1));
        lemma_trim_front_skip(t, k - 1);
        assert(t.skip(k - 1) =~= s.skip(k));
    }
}

proof fn lemma_trim_back_take(s: Seq<char>, k: int)
    requires
        0 <= k <= s.len(),
        forall|j: int| k <= j < s.len() ==> is_space_char(s[j]),
        k == 0 || !is_space_char(s[k - 1]),
    ensures
        trim_back(s) == s.take(k),
    decreases s.len(),
{
    if k == s.len() {
        assert(trim_back(s) =~= s.take(k)) by {
            assert(s.take(k) =~= s);
        }
    } else {
        let t = s.drop_last();
        lemma_trim_back_take(t, k);
        assert(t.take(k) =~= s.take(k));
    }
}

/// Removes leading and trailing whitespace, exactly as `trim_spec` describes.
pub fn trim(s: &str) -> (r: String)
    ensures
        r@ == trim_spec(s@),
{
    let len = s.unicode_len();
    let mut a: usize = 0;
    while a < len && is_space(s.get_char(a))
        invariant
            a <= len == s@.len(),
            forall|j: int| 0 <= j < a ==> is_space_char(s@[j]),
        decreases len - a,
    {
        a = a + 1;
    }
    proof {
        lemma_trim_front_skip(s@, a as int);
    }
    if a == len {
        proof {
            assert(s@.skip(a as int) =~= Seq::<char>::empty());
            assert(trim_back(Seq::<char>::empty()) =~= Seq::<char>::empty());
        }
        return String::new();
    }
    let mut b: usize = len;
    while b > a && is_space(s.get_char(b - 1))
        invariant
            a <= b <= len == s@.len(),
            forall|j: int| b <= j < len ==> is_space_char(s@[j]),
        decreases b,
    {
        b = b - 1;
    }
    proof {
        let t = s@.skip(a as int);
        lemma_trim_back_take(t, b - a);
        assert(t.take(b - a) =~= s@.subrange(a as int, b as int));
    }
    let r = s.substring_char(a, b);
    String::from_str(r)
}

/// The length of the longest whitespace-free prefix of `s`.
pub open spec fn word_len(s: Seq<char>) -> nat
    decreases s.len(),
{
    if s.len() == 0 || is_space_char(s[0]) {
        0
    } else {
        1 + word_len(s.drop_first())
    }
}

pub proof fn lemma_word_len_le(s: Seq<char>)
    ensures
        word_len(s) <= s.len(),
    decreases s.len(),
{
    if s.len() > 0 && !is_space_char(s[0]) {
        lemma_word_len_le(s.drop_first());
    }
}

proof fn lemma_word_len_is(s: Seq<char>, k: nat)
    requires
        k <= s.len(),
        forall|j: int| 0 <= j < k ==> !is_space_char(s[j]),
        k == s.len() || is_space_char(s[k as int]),
    ensures
        word_len(s) == k,
    decreases k,
{
    if k > 0 {
        lemma_word_len_is(s.drop_first(), (k - 1) as nat);
    }
}

/// The whitespace-separated words of `s`, in order, each nonempty and free of
/// whitespace.
pub open spec fn split_ws(s: Seq<char>) -> Seq<Seq<char>>
    decreases s.len(),
{
    if s.len() == 0 {
        Seq::empty()
    } else if is_space_char(s[0]) {
        split_ws(s.drop_first())
    } else {
        proof {
            lemma_word_len_le(s);
        }
        seq![s.take(word_len(s) as int)] + split_ws(s.skip(word_len(s) as int))
    }
}

/// The views of a sequence of strings.
pub open spec fn char_views(v: Seq<String>) -> Seq<Seq<char>> {
    v.map_values(|x: String| x@)
}

/// Splits `s` at whitespace, dropping empty tokens, exactly as `split_ws`
/// describes.
pub fn split_words(s: &str) -> (r: Vec<String>)
    ensures
        char_views(r@) == split_ws(s@),
{
    let len = s.unicode_len();
    let mut words: Vec<String> = Vec::new();
    let mut i: usize = 0;
    proof {
        assert(s@.skip(0) =~= s@);
        assert(char_views(Seq::<String>::empty()) + split_ws(s@) =~= split_ws(s@));
    }
    while i < len
        invariant
            i <= len == s@.len(),
            split_ws(s@) =~= char_views(words@) + split_ws(s@.skip(i as int)),
        decreases len - i,
    {
        if is_space(s.get_char(i)) {
            proof {
                assert(s@.skip(i as int).drop_first() =~= s@.skip(i + 1));
            }
            i = i + 1;
        } else {
            let mut j: usize = i + 1;
            while j < len && !is_space(s.get_char(j))
                invariant
                    i < j <= len == s@.len(),
                    forall|k: int| i <= k < j ==> !is_space_char(s@[k]),
                decreases len - j,
            {
                j = j + 1;
            }
            let ghost rest = s@.skip(i as int);
            proof {
                assert(forall|k: int| 0 <= k < j - i ==> !is_space_char(rest[k]));
                lemma_word_len_is(rest, (j - i) as nat);
                assert(rest.take(j - i) =~= s@.subrange(i as int, j as int));
                assert(rest.skip(j - i) =~= s@.skip(j as int));
            }
            let w = s.substring_char(i, j);
            words.push(String::from_str(w));
            proof {
                assert(char_views(words@) =~= char_views(words@.drop_last()).push(w@));
            }
            i = j;
        }
    }
    proof {
        assert(s@.skip(len as int) =~= Seq::<char>::empty());
        assert(char_views(words@) + split_ws(Seq::<char>::empty()) =~= char_views(words@));
    }
    words
}

/// Whether `n` occurs in `h` starting at position `i`.
pub open spec fn matches_at(h: Seq<char>, n: Seq<char>, i: int) -> bool {
    0 <= i && i + n.len() <= h.len() && h.subrange(i, i + n.len()) == n
}

/// Whether `n` occurs anywhere in `h`.
pub open spec fn contains_seq(h: Seq<char>, n: Seq<char>) -> bool {
    exists|i: int| matches_at(h, n, i)
}

/// Whether `needle` occurs as a contiguous substring of `hay`, exactly as
/// `contains_seq` describes.
pub fn contains_substring(hay: &str, needle: &str) -> (r: bool)
    ensures
        r == contains_seq(hay@, needle@),
{
    let hlen = hay.unicode_len();
    let nlen = needle.unicode_len();
    if nlen > hlen {
        proof {
            assert(forall|i: int| !#[trigger] matches_at(hay@, needle@, i));
        }
        return false;
    }
    let mut i: usize = 0;
    while i <= hlen - nlen
        invariant
            nlen <= hlen,
            hlen == hay@.len(),
            nlen == needle@.len(),
            0 <= i <= hlen - nlen + 1,
            forall|k: int| 0 <= k < i ==> !matches_at(hay@, needle@, k),
        decreases hlen - nlen + 1 - i,
    {
        let mut j: usize = 0;
        while j < nlen && hay.get_char(i + j) == needle.get_char(j)
            invariant
                i + nlen <= hlen,
                hlen == hay@.len(),
                nlen == needle@.len(),
                0 <= j <= nlen,
                forall|k: int| 0 <= k < j ==> hay@[i + k] == needle@[k],
            decreases nlen - j,
        {
            j = j + 1;
        }
        if j == nlen {
            proof {
                assert(hay@.subrange(i as int, i + nlen) =~= needle@);
                assert(matches_at(hay@, needle@, i as int));
            }
            return true;
        }
        proof {
            assert(!matches_at(hay@, needle@, i as int)) by {
                if matches_at(hay@, needle@, i as int) {
                    assert(hay@.subrange(i as int, i + nlen)[j as int] == needle@[j as int]);
                }
            }
        }
        i = i + 1;
    }
    proof {
        assert(forall|k: int| matches_at(hay@, needle@, k) ==> 0 <= k <= hlen - nlen);
    }
    false
}

/// Whether `p` is a prefix of `s`.
pub open spec fn starts_with_spec(s: Seq<char>, p: Seq<char>) -> bool {
    s.len() >= p.len() && s.take(p.len() as int) == p
}

/// Whether `s` starts with `prefix`, exactly as `starts_with_spec` describes.
pub fn starts_with(s: &str, prefix: &str) -> (r: bool)
    ensures
        r == starts_with_spec(s@, prefix@),
{
    let slen = s.unicode_len();
    let plen = prefix.unicode_len();
    if plen > slen {
        return false;
    }
    let mut j: usize = 0;
    while j < plen && s.get_char(j) == prefix.get_char(j)
        invariant
            plen <= slen == s@.len(),
            plen == prefix@.len(),
            0 <= j <= plen,
            forall|k: int| 0 <= k < j ==> s@[k] == prefix@[k],
        decreases plen - j,
    {
        j = j + 1;
    }
    if j == plen {
        proof {
            assert(s@.take(plen as int) =~= prefix@);
        }
        true
    } else {
        proof {
            assert(!starts_with_spec(s@, prefix@)) by {
                if starts_with_spec(s@, prefix@) {
                    assert(s@.take(plen as int)[j as int] == prefix@[j as int]);
                }
            }
        }
        false
    }
}

/// Whether two string slices hold the same characters.
pub fn str_eq(a: &str, b: &str) -> (r: bool)
    ensures
        r == (a@ == b@),
{
    let sa = String::from_str(a);
    let sb = String::from_str(b);
    sa.eq(&sb)
}

/// The case-folded form of a sequence of characters, as `str::to_lowercase`
/// computes it; it depends on the characters alone.
pub uninterp spec fn lower_of(s: Seq<char>) -> Seq<char>;

/// Relies on `str::to_lowercase`: the result is a deterministic, locale-free
/// function of the input characters, and an empty input stays empty.
#[verifier::external_body]
pub(crate) fn lowercase(s: &str) -> (r: String)
    ensures
        r@ == lower_of(s@),
        s@.len() == 0 ==> r@.len() == 0,
{
    s.to_lowercase()
}

} // verus!
