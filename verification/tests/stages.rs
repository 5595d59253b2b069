use renamer_rs::{Delimiter, DelimiterType, Extractor, Replacer, Selector, Trim};

#[test]
fn literal_split_keeps_empty_segments() {
    let d = Delimiter::new(",", DelimiterType::Literal).unwrap();
    assert_eq!(d.split("a,,b"), vec!["a", "", "b"]);
}

#[test]
fn literal_split_round_trip() {
    let d = Delimiter::new("--", DelimiterType::Literal).unwrap();
    let input = "one--two----three--";
    let parts = d.split(input);
    assert_eq!(parts, vec!["one", "two", "", "three", ""]);
    assert_eq!(parts.join("--"), input);
}

#[test]
fn literal_split_without_occurrence_is_whole_input() {
    let d = Delimiter::new(";", DelimiterType::Literal).unwrap();
    assert_eq!(d.split("plain"), vec!["plain"]);
}

#[test]
fn empty_literal_delimiter_splits_between_characters() {
    let d = Delimiter::new("", DelimiterType::Literal).unwrap();
    let parts = d.split("ab");
    assert_eq!(parts, vec!["", "a", "b", ""]);
    assert_eq!(parts.join(""), "ab");
    assert_eq!(d.split(""), vec!["", ""]);
}

#[test]
fn pattern_split_collapses_runs() {
    let d = Delimiter::new(r"\s+", DelimiterType::Pattern).unwrap();
    assert_eq!(d.split("a  b\tc"), vec!["a", "b", "c"]);
}

#[test]
fn default_delimiter_splits_on_space() {
    let d = Delimiter::default();
    assert_eq!(d.split("a b"), vec!["a", "b"]);
}

#[test]
fn trim_left_removes_repeated_prefix() {
    let t = Trim::left("ab");
    assert_eq!(t.trim("ababxab"), "xab");
}

#[test]
fn trim_right_removes_repeated_suffix() {
    let t = Trim::right("s");
    assert_eq!(t.trim("glasss"), "gla");
}

#[test]
fn trim_both_removes_each_end() {
    let t = Trim::both("s");
    assert_eq!(t.trim("ssthings"), "thing");
}

#[test]
fn trim_is_identity_on_non_match() {
    let t = Trim::both("x");
    assert_eq!(t.trim("middle"), "middle");
    let t = Trim::left("z");
    assert_eq!(t.trim("azb"), "azb");
}

#[test]
fn trim_slice_preserves_order_and_length() {
    let t = Trim::both("s");
    let values = vec!["smiddles".to_string(), "ssthings".to_string(), "plain".to_string()];
    assert_eq!(t.trim_slice(&values), vec!["middle", "thing", "plain"]);
}

#[test]
fn replacer_rewrites_every_match() {
    let r = Replacer::new("[0-9]+", "#").unwrap();
    assert_eq!(r.replace("a12b345c"), "a#b#c");
}

#[test]
fn replacer_substitute_is_literal() {
    let r = Replacer::new("a", "$0").unwrap();
    assert_eq!(r.replace("abc"), "$0bc");
}

#[test]
fn replace_slice_is_element_wise() {
    let r = Replacer::new("o", "0").unwrap();
    let values = vec!["one".to_string(), "two".to_string()];
    assert_eq!(r.replace_slice(&values), vec!["0ne", "tw0"]);
}

#[test]
fn selector_picks_lowest_matching_index() {
    let s = Selector::new(None, "b").unwrap();
    let segments = vec!["ab".to_string(), "bb".to_string(), "cb".to_string()];
    assert_eq!(s.match_segment(&segments), Some("ab".to_string()));
}

#[test]
fn selector_yields_nothing_without_match() {
    let s = Selector::new(None, "zz").unwrap();
    let segments = vec!["a".to_string(), "b".to_string()];
    assert_eq!(s.match_segment(&segments), None);
    let empty: Vec<String> = Vec::new();
    assert_eq!(s.match_segment(&empty), None);
}

#[test]
fn selector_is_match_is_a_substring_test() {
    let s = Selector::new(None, "^ot").unwrap();
    assert!(s.is_match("other"));
    assert!(!s.is_match("b other"));
}

#[test]
fn extractor_takes_leftmost_match() {
    let e = Extractor::new(None, "[0-9]+").unwrap();
    assert_eq!(e.extract("ab 12 cd 34"), Some("12".to_string()));
    assert_eq!(e.extract("no digits"), None);
}

#[test]
fn extractor_keeps_optional_name() {
    let e = Extractor::new(Some("year".to_string()), "[0-9]{4}").unwrap();
    assert_eq!(e.extract("made in 1987"), Some("1987".to_string()));
}
