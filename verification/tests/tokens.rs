use mmgx::token::{tokenize_str, CodeToken, Token};

fn kinds(source: &str) -> Vec<(Option<CodeToken>, usize, usize)> {
    let (_, tokens) = tokenize_str(source);
    tokens.iter().map(|t| (t.kind, t.start, t.end)).collect()
}

#[test]
fn names_identifiers_and_numbers() {
    assert_eq!(
        kinds("foo foo_bar _x 12 a1"),
        vec![
            (Some(CodeToken::Name), 0, 3),
            (Some(CodeToken::Whitespace), 3, 4),
            (Some(CodeToken::Identifier), 4, 11),
            (Some(CodeToken::Whitespace), 11, 12),
            (Some(CodeToken::Identifier), 12, 14),
            (Some(CodeToken::Whitespace), 14, 15),
            (Some(CodeToken::Number), 15, 17),
            (Some(CodeToken::Whitespace), 17, 18),
            (Some(CodeToken::Name), 18, 20),
            (None, 20, 20),
        ]
    );
}

#[test]
fn number_followed_by_letters_is_two_tokens() {
    assert_eq!(
        kinds("12ab"),
        vec![(Some(CodeToken::Number), 0, 2), (Some(CodeToken::Name), 2, 4), (None, 4, 4)]
    );
}

#[test]
fn punctuation() {
    assert_eq!(
        kinds("<>(){}@,"),
        vec![
            (Some(CodeToken::DiamondOpen), 0, 1),
            (Some(CodeToken::DiamondClose), 1, 2),
            (Some(CodeToken::ParenOpen), 2, 3),
            (Some(CodeToken::ParenClose), 3, 4),
            (Some(CodeToken::CurlyOpen), 4, 5),
            (Some(CodeToken::CurleyClose), 5, 6),
            (Some(CodeToken::Modifier), 6, 7),
            (Some(CodeToken::Comma), 7, 8),
            (None, 8, 8),
        ]
    );
}

#[test]
fn dots_take_the_longest_token() {
    assert_eq!(
        kinds(". .. ... ...."),
        vec![
            (Some(CodeToken::Dot), 0, 1),
            (Some(CodeToken::Whitespace), 1, 2),
            (Some(CodeToken::Range), 2, 4),
            (Some(CodeToken::Whitespace), 4, 5),
            (Some(CodeToken::VaArgs), 5, 8),
            (Some(CodeToken::Whitespace), 8, 9),
            (Some(CodeToken::VaArgs), 9, 12),
            (Some(CodeToken::Dot), 12, 13),
            (None, 13, 13),
        ]
    );
}

#[test]
fn colons_and_slashes() {
    assert_eq!(
        kinds("a::b:c/d"),
        vec![
            (Some(CodeToken::Name), 0, 1),
            (Some(CodeToken::ScopeResolution), 1, 3),
            (Some(CodeToken::Name), 3, 4),
            (Some(CodeToken::Unknown), 4, 5),
            (Some(CodeToken::Name), 5, 6),
            (Some(CodeToken::Unknown), 6, 7),
            (Some(CodeToken::Name), 7, 8),
            (None, 8, 8),
        ]
    );
}

#[test]
fn comment_runs_to_the_line_break() {
    assert_eq!(
        kinds("x // a b\ny"),
        vec![
            (Some(CodeToken::Name), 0, 1),
            (Some(CodeToken::Whitespace), 1, 2),
            (Some(CodeToken::Comment), 2, 8),
            (Some(CodeToken::NewLine), 8, 9),
            (Some(CodeToken::Name), 9, 10),
            (None, 10, 10),
        ]
    );
}

#[test]
fn comment_at_the_end_of_the_text() {
    assert_eq!(kinds("//"), vec![(Some(CodeToken::Comment), 0, 2), (None, 2, 2)]);
}

#[test]
fn line_breaks_of_both_conventions() {
    assert_eq!(
        kinds("\n\r\n\r"),
        vec![
            (Some(CodeToken::NewLine), 0, 1),
            (Some(CodeToken::NewLine), 1, 3),
            (Some(CodeToken::Unknown), 3, 4),
            (None, 4, 4),
        ]
    );
}

#[test]
fn string_literals() {
    assert_eq!(kinds("\"\""), vec![(Some(CodeToken::String), 0, 2), (None, 2, 2)]);
    assert_eq!(kinds("\"a.b.\""), vec![(Some(CodeToken::String), 0, 6), (None, 6, 6)]);
}

#[test]
fn unclosed_string_is_unknown_up_to_the_last_pair() {
    assert_eq!(
        kinds("\"a.b c"),
        vec![
            (Some(CodeToken::Unknown), 0, 3),
            (Some(CodeToken::Name), 3, 4),
            (Some(CodeToken::Whitespace), 4, 5),
            (Some(CodeToken::Name), 5, 6),
            (None, 6, 6),
        ]
    );
    assert_eq!(
        kinds("\"abc\""),
        vec![
            (Some(CodeToken::Unknown), 0, 1),
            (Some(CodeToken::Name), 1, 4),
            (Some(CodeToken::Unknown), 4, 5),
            (None, 5, 5),
        ]
    );
}

#[test]
fn backslash_never_starts_a_pair() {
    assert_eq!(
        kinds("\"\\.\""),
        vec![
            (Some(CodeToken::Unknown), 0, 1),
            (Some(CodeToken::Unknown), 1, 2),
            (Some(CodeToken::Dot), 2, 3),
            (Some(CodeToken::Unknown), 3, 4),
            (None, 4, 4),
        ]
    );
}

#[test]
fn pair_may_hold_any_other_character() {
    assert_eq!(kinds("\"\n.é.\""), vec![(Some(CodeToken::String), 0, 6), (None, 6, 6)]);
}

#[test]
fn other_characters_are_unknown_one_by_one() {
    assert_eq!(
        kinds("+é$"),
        vec![
            (Some(CodeToken::Unknown), 0, 1),
            (Some(CodeToken::Unknown), 1, 2),
            (Some(CodeToken::Unknown), 2, 3),
            (None, 3, 3),
        ]
    );
}

#[test]
fn empty_text_has_only_the_end_mark() {
    let (chars, tokens) = tokenize_str("");
    assert!(chars.is_empty());
    assert_eq!(
        tokens,
        vec![Token { kind: None, start: 0, end: 0, line: 0, line_start: 0, line_start_last: 0 }]
    );
}

#[test]
fn lines_are_counted() {
    let (_, tokens) = tokenize_str("a\nb\r\nc");
    assert_eq!(
        tokens,
        vec![
            Token { kind: Some(CodeToken::Name), start: 0, end: 1, line: 0, line_start: 0, line_start_last: 0 },
            Token { kind: Some(CodeToken::NewLine), start: 1, end: 2, line: 1, line_start: 2, line_start_last: 0 },
            Token { kind: Some(CodeToken::Name), start: 2, end: 3, line: 1, line_start: 2, line_start_last: 0 },
            Token { kind: Some(CodeToken::NewLine), start: 3, end: 5, line: 2, line_start: 5, line_start_last: 2 },
            Token { kind: Some(CodeToken::Name), start: 5, end: 6, line: 2, line_start: 5, line_start_last: 2 },
            Token { kind: None, start: 6, end: 6, line: 2, line_start: 5, line_start_last: 2 },
        ]
    );
}

#[test]
fn tokens_cover_the_text() {
    let source = "int x;\n@M {\n\tT<a> \"a.\" // c\r\n}\n...é";
    let (chars, tokens) = tokenize_str(source);
    assert_eq!(chars.iter().collect::<String>(), source);
    let mut at = 0;
    for token in &tokens {
        assert_eq!(token.start, at);
        assert!(token.end >= token.start);
        at = token.end;
    }
    assert_eq!(at, chars.len());
}
