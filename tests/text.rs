use blazing_board::text::{chunk_words, is_white_char, normalize_body, split_words, trim, CHUNK_SIZE};

fn strings(words: &[&str]) -> Vec<String> {
    words.iter().map(|w| w.to_string()).collect()
}

#[test]
fn whitespace_matches_std_for_every_char() {
    for code in 0u32..=0x10FFFF {
        if let Some(c) = char::from_u32(code) {
            assert_eq!(is_white_char(c), c.is_whitespace(), "char {:#x}", code);
        }
    }
}

#[test]
fn normalize_replaces_newlines_and_strips_punctuation() {
    assert_eq!(normalize_body("Hello, world.\nNext: one; two"), "Hello world Next one two");
    assert_eq!(normalize_body(""), "");
    assert_eq!(normalize_body(",.:;"), "");
    assert_eq!(normalize_body("a\n\nb!?"), "a  b!?");
}

#[test]
fn normalize_keeps_word_boundaries_at_newlines() {
    let body = normalize_body("alpha\nbeta");
    assert_eq!(split_words(&body), strings(&["alpha", "beta"]));
}

#[test]
fn split_words_discards_empty_tokens() {
    assert_eq!(split_words("  alpha \t beta\n\ngamma  "), strings(&["alpha", "beta", "gamma"]));
    assert_eq!(split_words(""), Vec::<String>::new());
    assert_eq!(split_words(" \t\n "), Vec::<String>::new());
    assert_eq!(split_words("one"), strings(&["one"]));
    assert_eq!(split_words("x\u{3000}y\u{a0}z"), strings(&["x", "y", "z"]));
}

#[test]
fn split_words_matches_std() {
    let s = "  \u{dc}ber  stra\u{df}e\tna\u{ef}ve\u{2003}caf\u{e9} \n end ";
    let expected: Vec<String> = s.split_whitespace().map(|w| w.to_string()).collect();
    assert_eq!(split_words(s), expected);
}

#[test]
fn trim_removes_surrounding_whitespace() {
    assert_eq!(trim("  alpha "), "alpha");
    assert_eq!(trim("alpha"), "alpha");
    assert_eq!(trim("   "), "");
    assert_eq!(trim(""), "");
    assert_eq!(trim(" a b "), "a b");
}

#[test]
fn chunks_hold_fifteen_words_but_the_last() {
    let words: Vec<String> = (0..31).map(|i| format!("w{}", i)).collect();
    let chunks = chunk_words(&words);
    assert_eq!(chunks.len(), 3);
    assert_eq!(chunks[0].len(), CHUNK_SIZE);
    assert_eq!(chunks[1].len(), CHUNK_SIZE);
    assert_eq!(chunks[2].len(), 1);
    let flat: Vec<String> = chunks.concat();
    assert_eq!(flat, words);
}

#[test]
fn chunking_edge_sizes() {
    let empty: Vec<String> = Vec::new();
    assert!(chunk_words(&empty).is_empty());
    let fifteen: Vec<String> = (0..15).map(|i| format!("w{}", i)).collect();
    let chunks = chunk_words(&fifteen);
    assert_eq!(chunks.len(), 1);
    assert_eq!(chunks[0], fifteen);
    let sixteen: Vec<String> = (0..16).map(|i| format!("w{}", i)).collect();
    let chunks = chunk_words(&sixteen);
    assert_eq!(chunks.len(), 2);
    assert_eq!(chunks[1], strings(&["w15"]));
}
