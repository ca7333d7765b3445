use smoltalk::text::{
    decimal_string, is_white, join_from, join_path, split_words, str_eq, to_ascii_lower, trim,
};

#[test]
fn white_space_is_that_of_unicode() {
    for n in 0..=0x10FFFF_u32 {
        if let Some(c) = char::from_u32(n) {
            assert_eq!(is_white(c), c.is_whitespace(), "{n:x}");
        }
    }
}

#[test]
fn trimming_and_words_agree_with_the_standard_library() {
    for text in ["", "  ", " a b\u{2003}c ", "\u{a0}x\t\ny", "word", "\u{200b} z \u{85}"] {
        assert_eq!(trim(text), text.trim());
        let words: Vec<String> = text.split_whitespace().map(|w| w.to_string()).collect();
        assert_eq!(split_words(text), words);
        assert_eq!(join_from(&words, 0, " "), words.join(" "));
    }
}

#[test]
fn numbers_are_written_in_decimal() {
    for n in [0_u64, 7, 10, 99, 100, 1_234_567_890, u64::MAX] {
        assert_eq!(decimal_string(n), n.to_string());
    }
}

#[test]
fn paths_are_joined_as_the_standard_library_joins_them() {
    for (base, path) in [("/a", "b"), ("/a/", "b"), ("/a", "/b"), ("", "b"), ("a", ""), ("a", "b/c")] {
        let expected = std::path::Path::new(base).join(path);
        assert_eq!(join_path(base, path), expected.to_str().unwrap());
    }
}

#[test]
fn ascii_letters_are_lowered() {
    for text in ["AUTO", "aZ09-\u{c4}\u{e4}", "[BLANK]"] {
        assert_eq!(to_ascii_lower(text), text.to_ascii_lowercase());
    }
    assert!(str_eq("same", "same"));
    assert!(!str_eq("same", "Same"));
}
