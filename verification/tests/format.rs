use eloget::fmt::{format_str, handle_word, parse_word, FormatError, KnownData};

fn fabmazz() -> KnownData {
    KnownData {
        user: String::from("fabmazz"),
        title: String::from("None"),
        bullet_elo: 1700,
        blitz_elo: 1800,
        rapid_elo: 1900,
        classical_elo: 2000,
    }
}

#[test]
fn default_template_shows_user_and_blitz() {
    let out = eloget::fmt::format(&mut "{user}: {blitz_elo} blitz".chars(), fabmazz());
    assert_eq!(out, Ok(String::from("fabmazz: 1800 blitz")));
}

#[test]
fn text_without_braces_is_unchanged() {
    let template = "no placeholders here, just text: 1 + 1 = 2";
    assert_eq!(eloget::fmt::format(&mut template.chars(), fabmazz()), Ok(String::from(template)));
}

#[test]
fn empty_template_is_empty_text() {
    assert_eq!(eloget::fmt::format(&mut "".chars(), fabmazz()), Ok(String::new()));
}

#[test]
fn each_key_shows_its_field() {
    let data = KnownData {
        user: String::from("magnus"),
        title: String::from("GM"),
        bullet_elo: 3201,
        blitz_elo: 3102,
        rapid_elo: 2903,
        classical_elo: 2804,
    };
    assert_eq!(format_str("{user}", data.clone()), Ok(String::from("magnus")));
    assert_eq!(format_str("{title}", data.clone()), Ok(String::from("GM")));
    assert_eq!(format_str("{bullet_elo}", data.clone()), Ok(String::from("3201")));
    assert_eq!(format_str("{blitz_elo}", data.clone()), Ok(String::from("3102")));
    assert_eq!(format_str("{rapid_elo}", data.clone()), Ok(String::from("2903")));
    assert_eq!(format_str("{classical_elo}", data), Ok(String::from("2804")));
}

#[test]
fn ratings_are_written_in_decimal() {
    let data = KnownData {
        bullet_elo: 0,
        blitz_elo: 7,
        rapid_elo: 10,
        classical_elo: u32::MAX,
        ..fabmazz()
    };
    assert_eq!(
        format_str("{bullet_elo}/{blitz_elo}/{rapid_elo}/{classical_elo}", data),
        Ok(String::from("0/7/10/4294967295"))
    );
}

#[test]
fn unterminated_placeholder_is_unexpected_empty() {
    assert_eq!(
        eloget::fmt::format(&mut "{user".chars(), fabmazz()),
        Err(FormatError::UnexpectedEmpty)
    );
    assert_eq!(format_str("rated {blitz_elo", fabmazz()), Err(FormatError::UnexpectedEmpty));
    assert_eq!(format_str("{", fabmazz()), Err(FormatError::UnexpectedEmpty));
}

#[test]
fn unknown_key_is_unrecognized_format() {
    assert_eq!(
        eloget::fmt::format(&mut "{nonexistent}".chars(), fabmazz()),
        Err(FormatError::UnrecognizedFormat(String::from("nonexistent")))
    );
}

#[test]
fn empty_key_is_unrecognized_format() {
    assert_eq!(format_str("{}", fabmazz()), Err(FormatError::UnrecognizedFormat(String::new())));
}

#[test]
fn keys_are_matched_exactly() {
    assert_eq!(
        format_str("{User}", fabmazz()),
        Err(FormatError::UnrecognizedFormat(String::from("User")))
    );
    assert_eq!(
        format_str("{ user }", fabmazz()),
        Err(FormatError::UnrecognizedFormat(String::from(" user ")))
    );
}

#[test]
fn placeholder_at_the_end_is_valid() {
    assert_eq!(format_str("title: {title}", fabmazz()), Ok(String::from("title: None")));
}

#[test]
fn adjacent_placeholders_are_joined() {
    assert_eq!(
        format_str("{user}{title}{rapid_elo}", fabmazz()),
        Ok(String::from("fabmazzNone1900"))
    );
}

#[test]
fn open_brace_inside_a_placeholder_is_part_of_the_key() {
    assert_eq!(
        format_str("{us{er}", fabmazz()),
        Err(FormatError::UnrecognizedFormat(String::from("us{er")))
    );
}

#[test]
fn first_close_brace_ends_the_key() {
    assert_eq!(format_str("{user}}", fabmazz()), Ok(String::from("fabmazz}")));
}

#[test]
fn close_brace_outside_a_placeholder_is_plain_text() {
    assert_eq!(format_str("a}b", fabmazz()), Ok(String::from("a}b")));
}

#[test]
fn text_beyond_ascii_is_copied() {
    assert_eq!(
        format_str("♞ {user} – {blitz_elo} ⚡", fabmazz()),
        Ok(String::from("♞ fabmazz – 1800 ⚡"))
    );
}

#[test]
fn the_first_failure_from_the_left_decides() {
    assert_eq!(
        format_str("{user} {bad} {worse} {blitz_elo", fabmazz()),
        Err(FormatError::UnrecognizedFormat(String::from("bad")))
    );
    assert_eq!(
        format_str("{user} {blitz_elo {bad}", fabmazz()),
        Err(FormatError::UnrecognizedFormat(String::from("blitz_elo {bad")))
    );
    assert_eq!(format_str("{user} {bad", fabmazz()), Err(FormatError::UnexpectedEmpty));
}

#[test]
fn stream_is_exhausted_after_success() {
    let mut stream = "{user}!".chars();
    assert_eq!(eloget::fmt::format(&mut stream, fabmazz()), Ok(String::from("fabmazz!")));
    assert_eq!(stream.as_str(), "");
}

#[test]
fn stream_stands_behind_an_unrecognized_placeholder() {
    let mut stream = "{user} {bad} and more".chars();
    assert_eq!(
        eloget::fmt::format(&mut stream, fabmazz()),
        Err(FormatError::UnrecognizedFormat(String::from("bad")))
    );
    assert_eq!(stream.as_str(), " and more");
}

#[test]
fn stream_is_exhausted_after_an_unterminated_placeholder() {
    let mut stream = "abc {user".chars();
    assert_eq!(eloget::fmt::format(&mut stream, fabmazz()), Err(FormatError::UnexpectedEmpty));
    assert_eq!(stream.next(), None);
}

#[test]
fn format_reads_any_stream_of_characters() {
    let mut stream = vec!['{', 'u', 's', 'e', 'r', '}', '?'].into_iter();
    assert_eq!(eloget::fmt::format(&mut stream, fabmazz()), Ok(String::from("fabmazz?")));
}

#[test]
fn parse_word_reads_up_to_the_close_brace() {
    let mut stream = "blitz_elo} blitz".chars();
    assert_eq!(parse_word(&mut stream), Ok(String::from("blitz_elo")));
    assert_eq!(stream.as_str(), " blitz");
}

#[test]
fn parse_word_of_a_closed_empty_key() {
    let mut stream = "}x".chars();
    assert_eq!(parse_word(&mut stream), Ok(String::new()));
    assert_eq!(stream.as_str(), "x");
}

#[test]
fn parse_word_without_close_brace_is_unexpected_empty() {
    let mut stream = "blitz_elo".chars();
    assert_eq!(parse_word(&mut stream), Err(FormatError::UnexpectedEmpty));
    assert_eq!(stream.as_str(), "");
    assert_eq!(parse_word(&mut "".chars()), Err(FormatError::UnexpectedEmpty));
}

#[test]
fn handle_word_resolves_the_six_keys() {
    let data = fabmazz();
    assert_eq!(handle_word(String::from("user"), &data), Ok(String::from("fabmazz")));
    assert_eq!(handle_word(String::from("title"), &data), Ok(String::from("None")));
    assert_eq!(handle_word(String::from("bullet_elo"), &data), Ok(String::from("1700")));
    assert_eq!(handle_word(String::from("blitz_elo"), &data), Ok(String::from("1800")));
    assert_eq!(handle_word(String::from("rapid_elo"), &data), Ok(String::from("1900")));
    assert_eq!(handle_word(String::from("classical_elo"), &data), Ok(String::from("2000")));
}

#[test]
fn handle_word_rejects_any_other_key() {
    let data = fabmazz();
    for key in ["", "usr", "users", "USER", "elo", "blitz", "correspondence_elo", "user "] {
        assert_eq!(
            handle_word(String::from(key), &data),
            Err(FormatError::UnrecognizedFormat(String::from(key)))
        );
    }
}

#[test]
fn format_error_messages() {
    assert_eq!(FormatError::UnexpectedEmpty.to_string(), "Unexpected end of string.");
    assert_eq!(
        FormatError::UnexpectedChar { found: 'a', expected: '}' }.to_string(),
        "Epected char '}', found 'a'."
    );
    assert_eq!(
        FormatError::UnrecognizedFormat(String::from("nonexistent")).to_string(),
        "Value nonexistent is not recognized."
    );
}
