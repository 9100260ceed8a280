//! Parsing of post identifiers: a decimal `i64` parser matching the standard
//! library's behaviour, and the comma-separated id lists the intake endpoint
//! receives.

use vstd::prelude::*;
use crate::text::{trim, trim_spec};

verus! {

/// Whether `c` is a decimal digit.
pub open spec fn is_digit_char(c: char) -> bool {
    48 <= c as int && c as int <= 57
}

/// The numeric value of the digit `c`.
pub open spec fn digit_of(c: char) -> int {
    c as int - 48
}

/// Whether every character of `s` is a decimal digit.
pub open spec fn all_digits(s: Seq<char>) -> bool {
    forall|i: int| 0 <= i < s.len() ==> is_digit_char(#[trigger] s[i])
}

/// The value of `s` read as decimal digits, most significant first.
pub open spec fn digits_val(s: Seq<char>) -> int
    decreases s.len(),
{
    if s.len() == 0 {
        0
    } else {
        digits_val(s.drop_last()) * 10 + digit_of(s.last())
    }
}

/// What parsing `s` as an `i64` yields: an optional sign, then at least one
/// digit, and a value within the type's range; anything else is rejected.
pub open spec fn parse_i64_spec(s: Seq<char>) -> Option<int> {
    let signed = s.len() > 0 && (s[0] == '-' || s[0] == '+');
    let t = if signed {
        s.drop_first()
    } else {
        s
    };
    let neg = s.len() > 0 && s[0] == '-';
    if t.len() > 0 && all_digits(t) {
        let v = if neg {
            -digits_val(t)
        } else {
            digits_val(t)
        };
        if i64::MIN <= v <= i64::MAX {
            Some(v)
        } else {
            None
        }
    } else {
        None
    }
}

proof fn lemma_digits_val_nonneg(s: Seq<char>)
    requires
        all_digits(s),
    ensures
        digits_val(s) >= 0,
    decreases s.len(),
{
    if s.len() > 0 {
        assert(all_digits(s.drop_last()));
        lemma_digits_val_nonneg(s.drop_last());
    }
}

proof fn lemma_digits_val_mono(s: Seq<char>, k: int)
    requires
        all_digits(s),
        0 <= k <= s.len(),
    ensures
        digits_val(s.take(k)) <= digits_val(s),
    decreases s.len(),
{
    if k == s.len() {
        assert(s.take(k) =~= s);
    } else {
        let t = s.drop_last();
        assert(all_digits(t));
        assert(t.take(k) =~= s.take(k));
        lemma_digits_val_mono(t, k);
        lemma_digits_val_nonneg(t);
    }
}

/// Parses `s` as a decimal `i64`, exactly as `parse_i64_spec` describes.
pub fn parse_i64(s: &str) -> (r: Option<i64>)
    ensures
        match r {
            Some(v) => parse_i64_spec(s@) == Some(v as int),
            None => parse_i64_spec(s@) is None,
        },
{
    let len = s.unicode_len();
    if len == 0 {
        return None;
    }
    let c0 = s.get_char(0);
    let neg = c0 == '-';
    let start: usize = if c0 == '-' || c0 == '+' {
        1
    } else {
        0
    };
    let ghost t = if start == 1 {
        s@.drop_first()
    } else {
        s@
    };
    proof {
        if start == 1 {
            assert(t =~= s@.skip(1));
        }
    }
    if start == len {
        return None;
    }
    let bound: u64 = 0x8000_0000_0000_0000;
    let mut acc: u64 = 0;
    let mut i: usize = start;
    while i < len
        invariant
            start <= i <= len == s@.len(),
            s@.len() > 0,
            start == 0 || start == 1,
            (start == 1) <==> (s@[0] == '-' || s@[0] == '+'),
            start == 1 ==> t == s@.drop_first(),
            start == 0 ==> t == s@,
            start < len,
            t.len() == len - start,
            forall|j: int| 0 <= j < i - start ==> is_digit_char(#[trigger] t[j]),
            acc == digits_val(t.take(i - start)),
            acc <= bound,
            bound == 0x8000_0000_0000_0000u64,
            forall|j: int| start <= j < i ==> t[j - start] == s@[j],
        decreases len - i,
    {
        let c = s.get_char(i);
        let u = c as u32;
        proof {
            assert(t[i - start] == s@[i as int]);
            assert(u as int == c as int);
        }
        if u < 48 || u > 57 {
            proof {
                assert(!is_digit_char(t[i - start]));
                assert(!all_digits(t));
            }
            return None;
        }
        let d = (u - 48) as u64;
        proof {
            assert(d == digit_of(t[i - start]));
            assert(t.take(i - start + 1).drop_last() =~= t.take(i - start));
            assert(t.take(i - start + 1).last() == t[i - start]);
            assert(digits_val(t.take(i - start + 1)) == acc * 10 + d);
        }
        if acc > (bound - d) / 10 {
            // the running magnitude already exceeds what an i64 can hold
            proof {
                vstd::arithmetic::div_mod::lemma_fundamental_div_mod((bound - d) as int, 10);
                assert(acc * 10 + d > bound);
                if all_digits(t) {
                    lemma_digits_val_mono(t, i - start + 1);
                }
            }
            return None;
        }
        acc = acc * 10 + d;
        i = i + 1;
    }
    proof {
        assert(t.take(len - start) =~= t);
        assert(all_digits(t));
    }
    if neg {
        if acc == bound {
            Some(i64::MIN)
        } else {
            Some(-(acc as i64))
        }
    } else {
        if acc < bound {
            Some(acc as i64)
        } else {
            None
        }
    }
}

/// The length of the longest prefix of `s` free of the character `stop`.
pub open spec fn until_len(s: Seq<char>, stop: char) -> nat
    decreases s.len(),
{
    if s.len() == 0 || s[0] == stop {
        0
    } else {
        1 + until_len(s.drop_first(), stop)
    }
}

pub proof fn lemma_until_len_le(s: Seq<char>, stop: char)
    ensures
        until_len(s, stop) <= s.len(),
    decreases s.len(),
{
    if s.len() > 0 && s[0] != stop {
        lemma_until_len_le(s.drop_first(), stop);
    }
}

pub proof fn lemma_until_len_is(s: Seq<char>, stop: char, k: nat)
    requires
        k <= s.len(),
        forall|j: int| 0 <= j < k ==> s[j] != stop,
        k == s.len() || s[k as int] == stop,
    ensures
        until_len(s, stop) == k,
    decreases k,
{
    if k > 0 {
        lemma_until_len_is(s.drop_first(), stop, (k - 1) as nat);
    }
}

/// The comma-separated segments of `s`, empty segments kept, as Rust's
/// `split(',')` yields them.
pub open spec fn split_commas(s: Seq<char>) -> Seq<Seq<char>>
    decreases s.len(),
{
    let k = until_len(s, ',');
    if k == s.len() {
        seq![s]
    } else {
        proof {
            lemma_until_len_le(s, ',');
        }
        seq![s.take(k as int)] + split_commas(s.skip(k as int + 1))
    }
}

/// Splits `s` at commas, exactly as `split_commas` describes.
pub fn split_comma(s: &str) -> (r: Vec<String>)
    ensures
        crate::text::char_views(r@) == split_commas(s@),
{
    let len = s.unicode_len();
    let mut segs: Vec<String> = Vec::new();
    let mut i: usize = 0;
    proof {
        assert(s@.skip(0) =~= s@);
        assert(crate::text::char_views(Seq::<String>::empty()) + split_commas(s@) =~= split_commas(
            s@,
        ));
    }
    let mut done = false;
    while !done
        invariant
            len == s@.len(),
            !done ==> i <= len && split_commas(s@) =~= crate::text::char_views(segs@)
                + split_commas(s@.skip(i as int)),
            done ==> split_commas(s@) =~= crate::text::char_views(segs@),
        decreases len - i + (if done {
            0int
        } else {
            1int
        }),
    {
        let mut j: usize = i;
        while j < len && s.get_char(j) != ','
            invariant
                i <= j <= len == s@.len(),
                forall|k: int| i <= k < j ==> s@[k] != ',',
            decreases len - j,
        {
            j = j + 1;
        }
        let ghost rest = s@.skip(i as int);
        proof {
            assert(forall|k: int| 0 <= k < j - i ==> rest[k] != ',');
            lemma_until_len_is(rest, ',', (j - i) as nat);
            assert(rest.take(j - i) =~= s@.subrange(i as int, j as int));
            if j < len {
                assert(rest.skip(j - i + 1) =~= s@.skip(j + 1));
            } else {
                assert(rest.take(j - i) =~= rest);
            }
        }
        let w = s.substring_char(i, j);
        segs.push(String::from_str(w));
        proof {
            assert(crate::text::char_views(segs@) =~= crate::text::char_views(
                segs@.drop_last(),
            ).push(w@));
        }
        if j == len {
            done = true;
        } else {
            i = j + 1;
        }
    }
    segs
}

/// Parses a comma-separated list of ids, each segment trimmed; yields the ids
/// in order, or nothing if any segment is not a well-formed `i64`.
pub fn parse_id_list(s: &str) -> (r: Option<Vec<i64>>)
    ensures
        match r {
            Some(v) => {
                &&& v@.len() == split_commas(s@).len()
                &&& forall|k: int|
                    0 <= k < v@.len() ==> parse_i64_spec(trim_spec(#[trigger] split_commas(s@)[k]))
                        == Some(v@[k] as int)
            },
            None => exists|k: int|
                0 <= k < split_commas(s@).len() && parse_i64_spec(
                    trim_spec(#[trigger] split_commas(s@)[k]),
                ) is None,
        },
{
    let segs = split_comma(s);
    let mut out: Vec<i64> = Vec::new();
    let mut i: usize = 0;
    while i < segs.len()
        invariant
            i <= segs.len(),
            crate::text::char_views(segs@) == split_commas(s@),
            out@.len() == i,
            forall|k: int|
                0 <= k < i ==> parse_i64_spec(trim_spec(#[trigger] split_commas(s@)[k])) == Some(
                    out@[k] as int,
                ),
        decreases segs.len() - i,
    {
        let seg = trim(segs[i].as_str());
        proof {
            assert(split_commas(s@)[i as int] == segs@[i as int]@);
        }
        match parse_i64(seg.as_str()) {
            Some(v) => {
                out.push(v);
            },
            None => {
                return None;
            },
        }
        i = i + 1;
    }
    Some(out)
}


/// The millisecond value of a fraction-of-a-second digit string, read to three
/// digits: a shorter fraction is padded with zeros, a longer one truncated.
pub open spec fn frac_ms(f: Seq<char>) -> int {
    if f.len() >= 3 {
        digits_val(f.take(3))
    } else if f.len() == 2 {
        digits_val(f) * 10
    } else if f.len() == 1 {
        digits_val(f) * 100
    } else {
        0
    }
}

/// What reading a duration probe's answer yields: the first line, trimmed, as
/// decimal seconds with an optional fraction, in whole milliseconds; anything
/// malformed or too large for a machine word is rejected.
pub open spec fn duration_ms_spec(s: Seq<char>) -> Option<int> {
    let line = trim_spec(s.take(until_len(s, '\n') as int));
    let k = until_len(line, '.') as int;
    let whole = line.take(k);
    let frac = if k == line.len() {
        Seq::<char>::empty()
    } else {
        line.skip(k + 1)
    };
    if whole.len() > 0 && all_digits(whole) && all_digits(frac) {
        let v = digits_val(whole) * 1000 + frac_ms(frac);
        if v <= u64::MAX {
            Some(v)
        } else {
            None
        }
    } else {
        None
    }
}

/// Parses a duration probe's output into whole milliseconds, exactly as
/// `duration_ms_spec` describes.
pub fn parse_duration_ms(s: &str) -> (r: Option<u64>)
    ensures
        match r {
            Some(v) => duration_ms_spec(s@) == Some(v as int),
            None => duration_ms_spec(s@) is None,
        },
{
    let len = s.unicode_len();
    // the probe's answer is its first line
    let mut e: usize = 0;
    while e < len && s.get_char(e) != '\n'
        invariant
            e <= len == s@.len(),
            forall|j: int| 0 <= j < e ==> s@[j] != '\n',
        decreases len - e,
    {
        e = e + 1;
    }
    proof {
        lemma_until_len_is(s@, '\n', e as nat);
    }
    let raw_line = s.substring_char(0, e);
    proof {
        assert(raw_line@ =~= s@.take(e as int));
    }
    let line = trim(raw_line);
    let llen = line.as_str().unicode_len();
    let ghost spec_line = trim_spec(s@.take(until_len(s@, '\n') as int));

    // split at the first decimal point
    let mut k: usize = 0;
    while k < llen && line.as_str().get_char(k) != '.'
        invariant
            k <= llen == line@.len(),
            forall|j: int| 0 <= j < k ==> line@[j] != '.',
        decreases llen - k,
    {
        k = k + 1;
    }
    proof {
        lemma_until_len_is(line@, '.', k as nat);
    }
    let ghost whole = line@.take(k as int);
    let ghost frac = if k == llen {
        Seq::<char>::empty()
    } else {
        line@.skip(k as int + 1)
    };
    if k == 0 {
        return None;
    }

    // the whole seconds
    let bound: u64 = u64::MAX;
    let mut acc: u64 = 0;
    let mut i: usize = 0;
    while i < k
        invariant
            0 < k <= llen == line@.len(),
            0 <= i <= k,
            line@ == spec_line,
            spec_line == trim_spec(s@.take(until_len(s@, '\n') as int)),
            until_len(line@, '.') == k as nat,
            whole == line@.take(k as int),
            whole.len() == k,
            frac == (if k == llen {
                Seq::<char>::empty()
            } else {
                line@.skip(k as int + 1)
            }),
            forall|j: int| 0 <= j < i ==> is_digit_char(#[trigger] whole[j]),
            acc == digits_val(whole.take(i as int)),
            bound == u64::MAX,
        decreases k - i,
    {
        let c = line.as_str().get_char(i);
        let u = c as u32;
        proof {
            assert(whole[i as int] == line@[i as int]);
            assert(u as int == c as int);
        }
        if u < 48 || u > 57 {
            proof {
                assert(!is_digit_char(whole[i as int]));
                assert(!all_digits(whole));
            }
            return None;
        }
        let d = (u - 48) as u64;
        proof {
            assert(d == digit_of(whole[i as int]));
            assert(whole.take(i + 1).drop_last() =~= whole.take(i as int));
            assert(whole.take(i + 1).last() == whole[i as int]);
            assert(digits_val(whole.take(i + 1)) == acc * 10 + d);
        }
        if acc > (bound - d) / 10 {
            // the seconds alone are beyond any machine-word duration
            proof {
                vstd::arithmetic::div_mod::lemma_fundamental_div_mod((bound - d) as int, 10);
                assert(acc * 10 + d > bound);
                if all_digits(whole) && all_digits(frac) {
                    lemma_digits_val_mono(whole, i + 1);
                    lemma_frac_ms_nonneg(frac);
                }
            }
            return None;
        }
        acc = acc * 10 + d;
        i = i + 1;
    }
    proof {
        assert(whole.take(k as int) =~= whole);
        assert(all_digits(whole));
    }

    // the fraction, three digits of it
    let mut fm: u64 = 0;
    if k < llen {
        let mut j: usize = k + 1;
        while j < llen
            invariant
                k + 1 <= j <= llen == line@.len(),
                k < llen,
                line@ == spec_line,
                spec_line == trim_spec(s@.take(until_len(s@, '\n') as int)),
                until_len(line@, '.') == k as nat,
                whole == line@.take(k as int),
                all_digits(whole),
                k > 0,
                frac == line@.skip(k as int + 1),
                forall|m: int| 0 <= m < j - k - 1 ==> is_digit_char(#[trigger] frac[m]),
            decreases llen - j,
        {
            let c = line.as_str().get_char(j);
            let u = c as u32;
            proof {
                assert(frac[j - k - 1] == line@[j as int]);
                assert(u as int == c as int);
            }
            if u < 48 || u > 57 {
                proof {
                    assert(!is_digit_char(frac[j - k - 1]));
                    assert(!all_digits(frac));
                }
                return None;
            }
            j = j + 1;
        }
        proof {
            assert(all_digits(frac));
        }
        let flen = llen - k - 1;
        if flen >= 3 {
            proof {
                assert(frac[0] == line@[k + 1] && frac[1] == line@[k + 2] && frac[2] == line@[k
                    + 3]);
                assert(is_digit_char(line@[k + 1]) && is_digit_char(line@[k + 2]) && is_digit_char(
                    line@[k + 3],
                ));
            }
            let d0 = digit_at(&line, k + 1);
            let d1 = digit_at(&line, k + 2);
            let d2 = digit_at(&line, k + 3);
            fm = d0 * 100 + d1 * 10 + d2;
            proof {
                let f3 = frac.take(3);
                assert(f3.drop_last() =~= frac.take(2));
                assert(f3.drop_last().drop_last() =~= frac.take(1));
                assert(frac.take(1).drop_last() =~= Seq::<char>::empty());
                assert(f3.drop_last().drop_last().last() == frac[0]);
                assert(f3.drop_last().last() == frac[1]);
                assert(f3.last() == frac[2]);
                assert(digits_val(Seq::<char>::empty()) == 0);
                assert(digits_val(frac.take(1)) == digit_of(frac[0]));
                assert(digits_val(frac.take(2)) == digits_val(frac.take(1)) * 10 + digit_of(
                    frac[1],
                ));
                assert(digits_val(f3) == digits_val(frac.take(2)) * 10 + digit_of(frac[2]));
                assert(fm == frac_ms(frac));
            }
        } else if flen == 2 {
            proof {
                assert(frac[0] == line@[k + 1] && frac[1] == line@[k + 2]);
                assert(is_digit_char(line@[k + 1]) && is_digit_char(line@[k + 2]));
            }
            let d0 = digit_at(&line, k + 1);
            let d1 = digit_at(&line, k + 2);
            fm = d0 * 100 + d1 * 10;
            proof {
                assert(frac.drop_last() =~= frac.take(1));
                assert(frac.take(1).drop_last() =~= Seq::<char>::empty());
                assert(frac.take(1).last() == frac[0]);
                assert(frac.last() == frac[1]);
                assert(digits_val(Seq::<char>::empty()) == 0);
                assert(digits_val(frac.take(1)) == digit_of(frac[0]));
                assert(digits_val(frac) == digits_val(frac.take(1)) * 10 + digit_of(frac[1]));
                assert(fm == frac_ms(frac));
            }
        } else if flen == 1 {
            proof {
                assert(frac[0] == line@[k + 1]);
                assert(is_digit_char(line@[k + 1]));
            }
            let d0 = digit_at(&line, k + 1);
            fm = d0 * 100;
            proof {
                assert(frac.drop_last() =~= Seq::<char>::empty());
                assert(frac.last() == frac[0]);
                assert(digits_val(Seq::<char>::empty()) == 0);
                assert(digits_val(frac) == digit_of(frac[0]));
                assert(fm == frac_ms(frac));
            }
        } else {
            proof {
                assert(frac =~= Seq::<char>::empty());
            }
        }
    } else {
        proof {
            assert(frac =~= Seq::<char>::empty());
            assert(all_digits(frac));
        }
    }

    // scale to milliseconds, rejecting what a machine word cannot hold
    if acc > (bound - fm) / 1000 {
        proof {
            vstd::arithmetic::div_mod::lemma_fundamental_div_mod((bound - fm) as int, 1000);
            assert(acc * 1000 + fm > bound);
        }
        return None;
    }
    proof {
        vstd::arithmetic::div_mod::lemma_fundamental_div_mod((bound - fm) as int, 1000);
        assert(acc * 1000 + fm <= bound);
    }
    Some(acc * 1000 + fm)
}

proof fn lemma_frac_ms_nonneg(f: Seq<char>)
    requires
        all_digits(f),
    ensures
        frac_ms(f) >= 0,
{
    if f.len() >= 3 {
        assert(all_digits(f.take(3)));
        lemma_digits_val_nonneg(f.take(3));
    } else if f.len() >= 1 {
        lemma_digits_val_nonneg(f);
    }
}

/// The digit at position `i` of `line`, which must hold one there.
fn digit_at(line: &String, i: usize) -> (d: u64)
    requires
        i < line@.len(),
        is_digit_char(line@[i as int]),
    ensures
        d == digit_of(line@[i as int]),
        d <= 9,
{
    let c = line.as_str().get_char(i);
    let u = c as u32;
    proof {
        assert(u as int == c as int);
    }
    (u - 48) as u64
}

} // verus!
