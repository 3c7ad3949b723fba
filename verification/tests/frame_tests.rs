use sokoban::frame::{collection_span, find_first, find_last};

#[test]
fn find_first_gives_the_first_match() {
    assert_eq!(find_first(b"abcabc", b"bc"), Some(1));
    assert_eq!(find_first(b"abcabc", b"abc"), Some(0));
    assert_eq!(find_first(b"abcabc", b"c"), Some(2));
    assert_eq!(find_first(b"abcabc", b"abcabc"), Some(0));
    assert_eq!(find_first(b"aaab", b"aab"), Some(1));
}

#[test]
fn find_last_gives_the_last_match() {
    assert_eq!(find_last(b"abcabc", b"bc"), Some(4));
    assert_eq!(find_last(b"abcabc", b"abc"), Some(3));
    assert_eq!(find_last(b"abcabc", b"a"), Some(3));
    assert_eq!(find_last(b"abcabc", b"abcabc"), Some(0));
    assert_eq!(find_last(b"baaa", b"baa"), Some(0));
}

#[test]
fn find_gives_none_without_a_match() {
    assert_eq!(find_first(b"abcabc", b"cb"), None);
    assert_eq!(find_last(b"abcabc", b"cb"), None);
    assert_eq!(find_first(b"abc", b"abcd"), None);
    assert_eq!(find_last(b"abc", b"abcd"), None);
    assert_eq!(find_first(b"", b"a"), None);
    assert_eq!(find_last(b"", b"a"), None);
}

#[test]
fn empty_pattern_matches_at_both_ends() {
    assert_eq!(find_first(b"abc", b""), Some(0));
    assert_eq!(find_last(b"abc", b""), Some(3));
    assert_eq!(find_first(b"", b""), Some(0));
    assert_eq!(find_last(b"", b""), Some(0));
}

#[test]
fn find_agrees_with_the_search_of_strings() {
    let texts = ["", "a", "ab", "aab", "abab", "ababab", "bbbb", "<a></a><a></a>"];
    let patterns = ["", "a", "b", "ab", "ba", "bb", "aba", "</a>", "<a>"];
    for text in texts {
        for pattern in patterns {
            assert_eq!(find_first(text.as_bytes(), pattern.as_bytes()), text.find(pattern));
            assert_eq!(find_last(text.as_bytes(), pattern.as_bytes()), text.rfind(pattern));
        }
    }
}

#[test]
fn span_runs_from_the_opening_to_the_end_of_the_closing() {
    let text = "<?xml?><Sok><LevelCollection Copyright=\"x\"><Level/></LevelCollection></Sok>";
    let (start, end) = collection_span(text).expect("a span");
    assert_eq!(start, 12);
    assert_eq!(
        &text[start..end],
        "<LevelCollection Copyright=\"x\"><Level/></LevelCollection>"
    );
}

#[test]
fn span_takes_the_first_opening_and_the_last_closing() {
    let text = "é<LevelCollection></LevelCollection>ü<LevelCollection></LevelCollection>ß";
    let (start, end) = collection_span(text).expect("a span");
    assert_eq!(start, 2);
    assert_eq!(end, text.len() - 2);
    assert_eq!(
        &text[start..end],
        "<LevelCollection></LevelCollection>ü<LevelCollection></LevelCollection>"
    );
}

#[test]
fn span_needs_both_ends() {
    assert_eq!(collection_span(""), None);
    assert_eq!(collection_span("<LevelCollection>"), None);
    assert_eq!(collection_span("</LevelCollection>"), None);
    assert_eq!(collection_span("<levelcollection></levelcollection>"), None);
}

#[test]
fn span_needs_the_closing_to_end_after_the_opening() {
    assert_eq!(collection_span("</LevelCollection>  <LevelCollection>"), None);
    assert_eq!(collection_span("</LevelCollection><LevelCollection>"), Some((18, 18)));
}
