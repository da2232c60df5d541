use pinentry::text::{chars_of, is_whitespace, join_words, same_text, split_words, to_decimal};

fn owned(words: &[&str]) -> Vec<String> {
    words.iter().map(|w| w.to_string()).collect()
}

#[test]
fn white_space_is_what_the_standard_library_calls_white_space() {
    let mut code: u32 = 0;
    while code <= 0x10ffff {
        if let Some(c) = char::from_u32(code) {
            assert_eq!(is_whitespace(c), c.is_whitespace(), "U+{:04X}", code);
        }
        code += 1;
    }
}

#[test]
fn white_space_at_the_edges_of_each_range() {
    for c in ['\t', '\n', '\u{b}', '\u{c}', '\r', ' ', '\u{85}', '\u{a0}', '\u{1680}'] {
        assert!(is_whitespace(c));
    }
    for c in ['\u{2000}', '\u{200a}', '\u{2028}', '\u{2029}', '\u{202f}', '\u{205f}', '\u{3000}'] {
        assert!(is_whitespace(c));
    }
    for c in ['\u{8}', '\u{e}', '!', 'a', '\u{84}', '\u{86}', '\u{1fff}', '\u{200b}', '\u{180e}'] {
        assert!(!is_whitespace(c));
    }
}

#[test]
fn characters_come_out_in_order() {
    assert_eq!(chars_of(""), Vec::<char>::new());
    assert_eq!(chars_of("a é越"), vec!['a', ' ', 'é', '越']);
}

#[test]
fn words_are_cut_at_every_run_of_white_space() {
    assert_eq!(split_words("SETDESC a b c"), owned(&["SETDESC", "a", "b", "c"]));
    assert_eq!(split_words("  a \t\t b\r\n"), owned(&["a", "b"]));
    assert_eq!(split_words("one"), owned(&["one"]));
    assert_eq!(split_words("é\u{a0}越\u{3000}x"), owned(&["é", "越", "x"]));
}

#[test]
fn a_blank_text_has_no_words() {
    assert_eq!(split_words(""), Vec::<String>::new());
    assert_eq!(split_words(" \t\n\u{2003}"), Vec::<String>::new());
}

#[test]
fn words_agree_with_the_standard_library() {
    let samples = [
        "",
        " ",
        "GETPIN\n",
        "SETDESC  Please enter   the passphrase%0Afor key\t0xABCD \n",
        "\u{85}a\u{1680}b\u{2028}c\u{205f}",
        "x\u{200b}y z",
        "tail ",
        " head",
    ];
    for sample in samples {
        let expected: Vec<String> = sample.split_whitespace().map(String::from).collect();
        assert_eq!(split_words(sample), expected, "{:?}", sample);
    }
}

#[test]
fn words_are_joined_by_single_spaces() {
    let words = owned(&["SETDESC", "a", "b", "c"]);
    assert_eq!(join_words(&words, 0), "SETDESC a b c");
    assert_eq!(join_words(&words, 1), "a b c");
    assert_eq!(join_words(&words, 3), "c");
    assert_eq!(join_words(&words, 4), "");
    assert_eq!(join_words(&Vec::new(), 0), "");
}

#[test]
fn joining_agrees_with_the_standard_library() {
    let words = owned(&["Enter", "the", "PIN:", "é越"]);
    for from in 0..=words.len() {
        assert_eq!(join_words(&words, from), words[from..].join(" "));
    }
}

#[test]
fn spacing_collapses_when_words_are_cut_and_joined() {
    let words = split_words("  a \t b\n\n c  ");
    assert_eq!(join_words(&words, 0), "a b c");
    assert_eq!(split_words(&join_words(&words, 0)), words);
}

#[test]
fn texts_are_the_same_only_when_equal() {
    assert!(same_text("GETPIN", "GETPIN"));
    assert!(same_text("", ""));
    assert!(!same_text("GETPIN", "GETPI"));
    assert!(!same_text("GETPIN", "getpin"));
    assert!(!same_text("GETPIN", "GETPIN "));
}

#[test]
fn numbers_are_written_in_decimal() {
    assert_eq!(to_decimal(0), "0");
    assert_eq!(to_decimal(9), "9");
    assert_eq!(to_decimal(10), "10");
    assert_eq!(to_decimal(42), "42");
    assert_eq!(to_decimal(1000), "1000");
    assert_eq!(to_decimal(4294967295), "4294967295");
}

#[test]
fn decimal_agrees_with_the_standard_library() {
    let mut n: u32 = 1;
    for _ in 0..200 {
        assert_eq!(to_decimal(n), n.to_string());
        assert_eq!(to_decimal(n - 1), (n - 1).to_string());
        n = n.wrapping_mul(37).wrapping_add(11);
        if n == 0 {
            n = 1;
        }
    }
}
