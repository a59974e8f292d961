use pencast::text::{
    characters, find_letters, is_whitespace, join, lines, split_whitespace, to_decimal, trim,
};

#[test]
fn white_space_is_that_of_unicode() {
    for code in 0..=0x10_ffffu32 {
        if let Some(character) = char::from_u32(code) {
            assert_eq!(is_whitespace(character), character.is_whitespace(), "{code:x}");
        }
    }
}

#[test]
fn characters_are_listed() {
    assert_eq!(characters("a\u{e9}\u{1f58a}"), vec!['a', '\u{e9}', '\u{1f58a}']);
    assert!(characters("").is_empty());
}

#[test]
fn white_space_is_taken_off() {
    for text in ["", "  ", "a", " a b\t\n", "\u{3000}x\u{2028}", "\r\n\r\n", "x y", "\u{85} z"] {
        assert_eq!(trim(text), text.trim());
        assert_eq!(trim(&trim(text)), trim(text));
    }
}

#[test]
fn words_are_split() {
    for text in ["", " ", "one", " one  two\tthree\n", "a\u{a0}b", "\u{e9} \u{1f58a}x"] {
        assert_eq!(split_whitespace(text), text.split_whitespace().collect::<Vec<_>>());
    }
}

#[test]
fn lines_are_split() {
    for text in
        ["", "\n", "one", "one\n", "one\r\ntwo", "\n\n", "one\r", "a\r\n\r\nb\n", "x\r\r\n", "\r"]
    {
        assert_eq!(lines(text), text.lines().collect::<Vec<_>>());
    }
}

#[test]
fn strings_are_joined() {
    assert_eq!(join(&[], ", "), "");
    assert_eq!(join(&["a".to_owned()], ", "), "a");
    assert_eq!(join(&["a".to_owned(), String::new(), "c".to_owned()], ", "), "a, , c");
}

#[test]
fn letters_are_found() {
    for text in
        ["", "close", "closed", "Error: CLOSED.", "cLoSeD", "cclosed", "closclosed", "clos ed"]
    {
        assert_eq!(
            find_letters(text, "closed"),
            text.to_ascii_lowercase().contains("closed"),
            "{text}"
        );
    }
    assert!(find_letters("", ""));
    assert!(!find_letters("\u{212a}", "k"));
}

#[test]
fn numbers_are_written() {
    for value in [0, 1, 9, 10, 63, 100, 4_096, 1_000_000_007, u32::MAX] {
        assert_eq!(to_decimal(value), value.to_string());
    }
    assert_ne!(to_decimal(11), to_decimal(1));
}
