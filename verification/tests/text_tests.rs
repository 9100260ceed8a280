use arueshalae::parse::{parse_duration_ms, parse_i64, parse_id_list};
use arueshalae::tags::normalize_tag_name;
use arueshalae::text::{contains_substring, split_words, starts_with, str_eq, trim};

#[test]
fn trim_strips_both_ends() {
    assert_eq!(trim("  a b \n"), "a b");
    assert_eq!(trim("\t\r\n "), "");
    assert_eq!(trim(""), "");
    assert_eq!(trim("abc"), "abc");
}

#[test]
fn split_words_drops_empty_tokens() {
    assert_eq!(split_words("a  b\tc"), vec!["a", "b", "c"]);
    assert_eq!(split_words("  "), Vec::<String>::new());
    assert_eq!(split_words("one"), vec!["one"]);
    assert_eq!(split_words("\na\n"), vec!["a"]);
}

#[test]
fn substring_search_finds_inner_matches() {
    assert!(contains_substring("character_name", "acter"));
    assert!(contains_substring("abc", ""));
    assert!(contains_substring("abc", "abc"));
    assert!(!contains_substring("abc", "abcd"));
    assert!(!contains_substring("abab", "aa"));
}

#[test]
fn prefix_and_equality_checks() {
    assert!(starts_with("video/mp4", "video"));
    assert!(!starts_with("image/png", "video"));
    assert!(str_eq("same", "same"));
    assert!(!str_eq("same", "Same"));
}

#[test]
fn tag_names_are_trimmed_and_folded() {
    assert_eq!(normalize_tag_name(" MiXeD\t"), "mixed");
    assert_eq!(normalize_tag_name("already_lower"), "already_lower");
    assert_eq!(normalize_tag_name("  "), "");
}

#[test]
fn i64_parsing_matches_the_grammar() {
    assert_eq!(parse_i64("42"), Some(42));
    assert_eq!(parse_i64("-7"), Some(-7));
    assert_eq!(parse_i64("+7"), Some(7));
    assert_eq!(parse_i64("0"), Some(0));
    assert_eq!(parse_i64(""), None);
    assert_eq!(parse_i64("-"), None);
    assert_eq!(parse_i64("+"), None);
    assert_eq!(parse_i64("12x"), None);
    assert_eq!(parse_i64(" 12"), None);
    assert_eq!(parse_i64("9223372036854775807"), Some(i64::MAX));
    assert_eq!(parse_i64("9223372036854775808"), None);
    assert_eq!(parse_i64("-9223372036854775808"), Some(i64::MIN));
    assert_eq!(parse_i64("-9223372036854775809"), None);
    assert_eq!(parse_i64("99999999999999999999999"), None);
}

#[test]
fn probe_durations_become_milliseconds() {
    assert_eq!(parse_duration_ms("12.345000\n"), Some(12_345));
    assert_eq!(parse_duration_ms("12.3"), Some(12_300));
    assert_eq!(parse_duration_ms("12.34"), Some(12_340));
    assert_eq!(parse_duration_ms("12."), Some(12_000));
    assert_eq!(parse_duration_ms("7"), Some(7_000));
    assert_eq!(parse_duration_ms("0.9996"), Some(999));
    assert_eq!(parse_duration_ms("3.5\nsecond line"), Some(3_500));
    assert_eq!(parse_duration_ms(" 3.5 \n"), Some(3_500));
    assert_eq!(parse_duration_ms(""), None);
    assert_eq!(parse_duration_ms(".5"), None);
    assert_eq!(parse_duration_ms("abc"), None);
    assert_eq!(parse_duration_ms("1.2.3"), None);
    assert_eq!(parse_duration_ms("-1.0"), None);
}

#[test]
fn id_lists_are_parsed_with_trimming() {
    assert_eq!(parse_id_list("1, 2,3"), Some(vec![1, 2, 3]));
    assert_eq!(parse_id_list("7"), Some(vec![7]));
    assert_eq!(parse_id_list("1,,2"), None);
    assert_eq!(parse_id_list(""), None);
    assert_eq!(parse_id_list("1,x"), None);
}
