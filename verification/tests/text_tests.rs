use coursework::text::{is_whitespace_char, most_frequent_word, trim_input};

#[test]
fn most_frequent_word_of_sample_text() {
    let text = "the quick brown fox jumps over the lazy dog the quick brown fox";
    let (word, count) = most_frequent_word(text);
    assert_eq!(word, "the");
    assert_eq!(count, 3);
}

#[test]
fn most_frequent_word_of_empty_text() {
    assert_eq!(most_frequent_word(""), (String::new(), 0));
    assert_eq!(most_frequent_word(" \t\n  "), (String::new(), 0));
}

#[test]
fn most_frequent_word_tie_goes_to_first() {
    assert_eq!(most_frequent_word("a b"), ("a".to_string(), 1));
    assert_eq!(most_frequent_word("b a b a"), ("b".to_string(), 2));
    assert_eq!(most_frequent_word("x y y x z"), ("x".to_string(), 2));
}

#[test]
fn most_frequent_word_splits_on_unicode_whitespace() {
    assert_eq!(most_frequent_word("x\u{3000}y\u{a0}y"), ("y".to_string(), 2));
    assert_eq!(most_frequent_word("  café\tcafé  thé "), ("café".to_string(), 2));
}

#[test]
fn most_frequent_word_distinguishes_prefixes() {
    assert_eq!(most_frequent_word("ab a ab abc a ab"), ("ab".to_string(), 3));
}

#[test]
fn whitespace_matches_std_for_every_char() {
    let mut n: u32 = 0;
    while n <= 0x10FFFF {
        if let Some(c) = char::from_u32(n) {
            assert_eq!(is_whitespace_char(c), c.is_whitespace(), "char {:x}", n);
        }
        n += 1;
    }
}

#[test]
fn trim_matches_std() {
    let samples = ["", "  ", " 3 ", "1\n", "\t a b \r\n", "x", "\u{2003}y\u{2028}", "already"];
    for s in samples.iter() {
        assert_eq!(trim_input(s), s.trim().to_string());
    }
}

#[test]
fn doubled_text_doubles_the_count() {
    let t = "the quick brown fox jumps over the lazy dog the quick brown fox";
    let (w, c) = most_frequent_word(t);
    let doubled = format!("{} {}", t, t);
    assert_eq!(most_frequent_word(&doubled), (w, 2 * c));
}

#[test]
fn reordered_words_keep_the_count() {
    let (w1, c1) = most_frequent_word("b a b c a");
    let (w2, c2) = most_frequent_word("a a c b b");
    assert_eq!(c1, c2);
    assert_eq!((w1.as_str(), w2.as_str()), ("b", "a"));
}
