use pinentry::entry::{Entry, Key, Progress, Signal, Stroke, LINE_BREAK};

fn entry(input: &str) -> Entry {
    Entry {
        description: String::from("Enter the PIN%0Afor the card"),
        prompt: String::from("PIN:"),
        input: String::from(input),
    }
}

fn press(key: Key) -> Signal {
    Signal::Key { stroke: Stroke::Press, key }
}

#[test]
fn an_entry_starts_with_nothing_typed() {
    let made = Entry::new(String::from("d"), String::from("p"));
    assert_eq!(made.description, "d");
    assert_eq!(made.prompt, "p");
    assert_eq!(made.input, "");
}

#[test]
fn characters_go_behind_the_input() {
    let mut e = entry("");
    e.enter_char('1');
    e.enter_char('é');
    e.enter_char(' ');
    e.enter_char('越');
    assert_eq!(e.input, "1é 越");
    assert_eq!(e.prompt, "PIN:");
}

#[test]
fn backspace_takes_the_last_character() {
    let mut e = entry("1234");
    e.delete_char();
    assert_eq!(e.input, "123");
    e.delete_char();
    e.delete_char();
    assert_eq!(e.input, "1");
    e.delete_char();
    assert_eq!(e.input, "");
    e.delete_char();
    assert_eq!(e.input, "");
}

#[test]
fn backspace_leaves_an_input_with_wide_characters() {
    for input in ["é", "aé", "éa", "12越45", "\u{1f511}"] {
        let mut e = entry(input);
        e.delete_char();
        assert_eq!(e.input, input);
    }
}

#[test]
fn backspace_agrees_with_taking_characters_by_the_byte_count() {
    for input in ["", "a", "ab", "abc def", "é", "aé", "äöü", "x\u{1f511}y", "12345678"] {
        let mut e = entry(input);
        e.delete_char();
        let expected: String = if input.is_empty() {
            String::new()
        } else {
            input.chars().take(input.len() - 1).collect()
        };
        assert_eq!(e.input, expected, "{:?}", input);
    }
}

#[test]
fn keys_are_taken_in() {
    let mut e = entry("");
    assert_eq!(e.press(press(Key::Char('1'))), Progress::Pending);
    assert_eq!(e.press(press(Key::Char('2'))), Progress::Pending);
    assert_eq!(e.press(press(Key::Char('x'))), Progress::Pending);
    assert_eq!(e.input, "12x");
    assert_eq!(e.press(press(Key::Backspace)), Progress::Pending);
    assert_eq!(e.input, "12");
    assert_eq!(e.press(press(Key::Other)), Progress::Pending);
    assert_eq!(e.input, "12");
    assert_eq!(e.press(press(Key::Enter)), Progress::Accepted(String::from("12")));
    assert_eq!(e.input, "12");
}

#[test]
fn escape_gives_up() {
    let mut e = entry("1234");
    assert_eq!(e.press(press(Key::Esc)), Progress::Cancelled);
    assert_eq!(e.input, "1234");
}

#[test]
fn enter_accepts_an_empty_input() {
    let mut e = entry("");
    assert_eq!(e.press(press(Key::Enter)), Progress::Accepted(String::new()));
}

#[test]
fn only_the_press_of_a_key_counts() {
    let keys = [Key::Char('1'), Key::Backspace, Key::Enter, Key::Esc, Key::Other];
    for stroke in [Stroke::Repeat, Stroke::Release] {
        for key in keys {
            let mut e = entry("12");
            assert_eq!(e.press(Signal::Key { stroke, key }), Progress::Pending);
            assert_eq!(e, entry("12"));
        }
    }
    let mut e = entry("12");
    assert_eq!(e.press(Signal::Other), Progress::Pending);
    assert_eq!(e, entry("12"));
}

#[test]
fn the_description_is_shown_line_by_line() {
    assert_eq!(LINE_BREAK, "%0A");
    assert_eq!(entry("").description_lines(), vec!["Enter the PIN", "for the card"]);
}

#[test]
fn lines_agree_with_the_standard_library() {
    let samples = [
        "",
        "one line",
        "%0A",
        "a%0Ab",
        "a%0A%0Ab",
        "%0Aa%0A",
        "%0",
        "%0A%0",
        "%%0A0A",
        "%0a lower",
        "%0%0AA",
        "100%0Aé越%0A%",
        "%0A%0A%0A",
    ];
    for sample in samples {
        let e = Entry::new(String::from(sample), String::new());
        let expected: Vec<String> = sample.split("%0A").map(String::from).collect();
        assert_eq!(e.description_lines(), expected, "{:?}", sample);
    }
}

#[test]
fn the_input_is_shown_as_stars() {
    assert_eq!(entry("").mask(), "");
    assert_eq!(entry("1").mask(), "*");
    assert_eq!(entry("1234").mask(), "****");
    assert_eq!(entry("é").mask(), "**");
    assert_eq!(entry("a越").mask(), "****");
    for input in ["", "abc", "äöü", "\u{1f511}x"] {
        assert_eq!(entry(input).mask(), "*".repeat(input.len()));
    }
}

#[test]
fn the_prompt_stands_between_two_spaces() {
    assert_eq!(entry("").title(), " PIN: ");
    assert_eq!(Entry::new(String::new(), String::new()).title(), "  ");
    assert_eq!(Entry::new(String::new(), String::from(" x ")).title(), "  x  ");
}

#[test]
fn the_cursor_stands_behind_the_stars() {
    assert_eq!(entry("").cursor(0, 21), Some((1, 22)));
    assert_eq!(entry("1234").cursor(0, 21), Some((5, 22)));
    assert_eq!(entry("1234").cursor(10, 0), Some((15, 1)));
    assert_eq!(entry("é").cursor(0, 0), Some((3, 1)));
}

#[test]
fn the_cursor_has_no_place_beyond_the_last_column_or_row() {
    assert_eq!(entry("1234").cursor(65530, 0), Some((65535, 1)));
    assert_eq!(entry("1234").cursor(65531, 0), None);
    assert_eq!(entry("").cursor(65535, 0), None);
    assert_eq!(entry("").cursor(0, 65534), Some((1, 65535)));
    assert_eq!(entry("").cursor(0, 65535), None);
}

#[test]
fn the_cursor_counts_stars_modulo_65536() {
    let long = "x".repeat(65536 + 7);
    assert_eq!(entry(&long).cursor(2, 3), Some((10, 4)));
}
