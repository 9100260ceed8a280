//! Deterministic file naming.
//!
//! A stored artifact is named `{internal id, zero-padded to seven digits}_{external
//! id}.{extension}`; the padding makes a lexicographic directory listing follow
//! insertion order. A video's thumbnail lives in the `.thumbs` subdirectory under
//! the video's full file name plus a `.jpeg` suffix, so it can never collide with
//! a primary artifact.

use vstd::prelude::*;

verus! {

/// The decimal digit character for `d`.
pub open spec fn digit_char(d: int) -> char {
    if d == 0 {
        '0'
    } else if d == 1 {
        '1'
    } else if d == 2 {
        '2'
    } else if d == 3 {
        '3'
    } else if d == 4 {
        '4'
    } else if d == 5 {
        '5'
    } else if d == 6 {
        '6'
    } else if d == 7 {
        '7'
    } else if d == 8 {
        '8'
    } else {
        '9'
    }
}

/// The decimal representation of `n`, most significant digit first, no sign
/// and no leading zeros (except for `n == 0` itself).
pub open spec fn decimal_digits(n: nat) -> Seq<char>
    decreases n,
{
    if n < 10 {
        seq![digit_char(n as int)]
    } else {
        decimal_digits(n / 10).push(digit_char((n % 10) as int))
    }
}

/// `s` left-padded with `'0'` up to width `w`; `s` unchanged if already as wide.
pub open spec fn zero_extend(s: Seq<char>, w: nat) -> Seq<char> {
    if s.len() >= w {
        s
    } else {
        Seq::new((w - s.len()) as nat, |i: int| '0') + s
    }
}

/// The final file name for an artifact of the post with internal id `sort_id`
/// and external id `post_id`, stored with extension `ext`.
pub open spec fn file_name_spec(sort_id: nat, post_id: nat, ext: Seq<char>) -> Seq<char> {
    zero_extend(decimal_digits(sort_id), 7) + seq!['_'] + decimal_digits(post_id) + seq!['.'] + ext
}

/// The one-character string for decimal digit `d`.
fn digit_str(d: u64) -> (r: &'static str)
    requires
        d < 10,
    ensures
        r@ =~= seq![digit_char(d as int)],
{
    let r = match d {
        0 => "0",
        1 => "1",
        2 => "2",
        3 => "3",
        4 => "4",
        5 => "5",
        6 => "6",
        7 => "7",
        8 => "8",
        _ => "9",
    };
    proof {
        reveal_strlit("0");
        reveal_strlit("1");
        reveal_strlit("2");
        reveal_strlit("3");
        reveal_strlit("4");
        reveal_strlit("5");
        reveal_strlit("6");
        reveal_strlit("7");
        reveal_strlit("8");
        reveal_strlit("9");
    }
    r
}

/// The decimal representation of `n`.
pub fn decimal_string(n: u64) -> (s: String)
    ensures
        s@ == decimal_digits(n as nat),
    decreases n,
{
    if n < 10 {
        String::from_str(digit_str(n))
    } else {
        let mut s = decimal_string(n / 10);
        s.append(digit_str(n % 10));
        proof {
            assert(s@ =~= decimal_digits((n / 10) as nat).push(digit_char((n % 10) as int)));
        }
        s
    }
}

/// The decimal representation of `n`, zero-padded to at least seven characters.
pub fn padded_decimal_string(n: u64) -> (s: String)
    ensures
        s@ == zero_extend(decimal_digits(n as nat), 7),
{
    let digits = decimal_string(n);
    let len = digits.as_str().unicode_len();
    let mut s = String::new();
    let mut i = len;
    while i < 7
        invariant
            len <= i <= 7 || (i == len && i >= 7),
            s@ =~= Seq::new((i - len) as nat, |j: int| '0'),
        decreases 7 - i,
    {
        s.append(digit_str(0));
        i = i + 1;
        proof {
            assert(s@ =~= Seq::new((i - len) as nat, |j: int| '0'));
        }
    }
    s.append(digits.as_str());
    proof {
        if len >= 7 {
            assert(s@ =~= zero_extend(decimal_digits(n as nat), 7));
        } else {
            assert(s@ =~= zero_extend(decimal_digits(n as nat), 7));
        }
    }
    s
}

/// Builds the final file name from the internal id, the external id and the
/// extension, exactly as `file_name_spec` describes.
pub fn file_name(sort_id: i64, post_id: i64, extension: &str) -> (r: String)
    requires
        0 <= sort_id,
        0 <= post_id,
    ensures
        r@ == file_name_spec(sort_id as nat, post_id as nat, extension@),
{
    let mut r = padded_decimal_string(sort_id as u64);
    r.append("_");
    let post = decimal_string(post_id as u64);
    r.append(post.as_str());
    r.append(".");
    r.append(extension);
    proof {
        reveal_strlit("_");
        reveal_strlit(".");
        assert(r@ =~= file_name_spec(sort_id as nat, post_id as nat, extension@));
    }
    r
}

/// The name of a video's thumbnail: the video's file name plus a `.jpeg` suffix.
pub fn thumb_file_name(name: &str) -> (r: String)
    ensures
        r@ == name@ + ".jpeg"@,
{
    let mut r = String::from_str(name);
    r.append(".jpeg");
    r
}

/// The path of a primary artifact under the base directory.
pub fn media_path(base: &str, name: &str) -> (r: String)
    ensures
        r@ == base@ + "/"@ + name@,
{
    let mut r = String::from_str(base);
    r.append("/");
    r.append(name);
    proof {
        assert(r@ =~= base@ + "/"@ + name@);
    }
    r
}

/// The path of a video thumbnail under the base directory's `.thumbs` namespace,
/// keyed by the video's full file name.
pub fn thumb_path(base: &str, name: &str) -> (r: String)
    ensures
        r@ == base@ + "/.thumbs/"@ + name@ + ".jpeg"@,
{
    let mut r = String::from_str(base);
    r.append("/.thumbs/");
    r.append(name);
    r.append(".jpeg");
    proof {
        assert(r@ =~= base@ + "/.thumbs/"@ + name@ + ".jpeg"@);
    }
    r
}

} // verus!
