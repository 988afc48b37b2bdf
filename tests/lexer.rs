use ungrammar_lsp::lexer::{advance, is_escapable, is_ident_char, is_whitespace, skip_comment, skip_ws};
use ungrammar_lsp::{tokenize, Error, Location, Range, Token, TokenKind};

fn loc(line: usize, column: usize) -> Location {
    Location { line, column }
}

fn kinds(tokens: &[Token]) -> Vec<&TokenKind> {
    tokens.iter().map(|t| &t.kind).collect()
}

fn simple_error(input: &str) -> (String, Option<Location>) {
    match tokenize(input) {
        Err(Error::Simple { message, location }) => (message, location),
        other => panic!("expected a point error for {input:?}, got {other:?}"),
    }
}

#[test]
fn should_output_span_trace() {
    let err = tokenize("A = B\n  $").unwrap_err();
    assert_eq!(err.to_string(), "unexpected character: `$`; 2:3: ");
}

#[test]
fn whitespace_and_comments_give_no_tokens() {
    assert!(tokenize("").unwrap().is_empty());
    assert!(tokenize(" \t\n\n").unwrap().is_empty());
    assert!(tokenize("// a comment\n   // another one").unwrap().is_empty());
    assert!(tokenize("//").unwrap().is_empty());
    assert!(tokenize("\n// 'unclosed $ \r\n\t").unwrap().is_empty());
}

#[test]
fn identifier_is_one_node() {
    let tokens = tokenize("Foo_bar").unwrap();
    assert_eq!(tokens.len(), 1);
    assert_eq!(tokens[0].kind, TokenKind::Node("Foo_bar".to_string()));
    assert_eq!(tokens[0].loc, loc(0, 0));
    assert_eq!(tokens[0].end_location(), loc(0, 7));
    assert_eq!(tokens[0].kind.size_hint(), 7);
}

#[test]
fn digits_are_not_identifier_characters() {
    let (message, location) = simple_error("abc1");
    assert_eq!(message, "unexpected character: `1`");
    assert_eq!(location, Some(loc(0, 3)));
}

#[test]
fn quoted_literal_decodes_escapes() {
    let tokens = tokenize("'a\\'b'").unwrap();
    assert_eq!(tokens.len(), 1);
    assert_eq!(tokens[0].kind, TokenKind::Token("a'b".to_string()));
    let tokens = tokenize("'\\\\'").unwrap();
    assert_eq!(tokens[0].kind, TokenKind::Token("\\".to_string()));
    let tokens = tokenize("''").unwrap();
    assert_eq!(tokens[0].kind, TokenKind::Token(String::new()));
}

#[test]
fn carriage_return_is_rejected() {
    let (message, location) = simple_error("Foo\r\n");
    assert_eq!(message, "unexpected `\\r`, only Unix-style line endings allowed");
    assert_eq!(location, Some(loc(0, 3)));
    let (message, location) = simple_error("\r");
    assert_eq!(message, "unexpected `\\r`, only Unix-style line endings allowed");
    assert_eq!(location, Some(loc(0, 0)));
    let (_, location) = simple_error("A = B\n// c\n\rC");
    assert_eq!(location, Some(loc(2, 0)));
}

#[test]
fn carriage_return_inside_literal_or_comment_is_kept() {
    let tokens = tokenize("'\r'").unwrap();
    assert_eq!(tokens[0].kind, TokenKind::Token("\r".to_string()));
    assert!(tokenize("// x\r").unwrap().is_empty());
}

#[test]
fn punctuation_and_locations() {
    let tokens = tokenize("A = B* | (C)? :\n  'x' D").unwrap();
    assert_eq!(
        kinds(&tokens),
        vec![
            &TokenKind::Node("A".to_string()),
            &TokenKind::Eq,
            &TokenKind::Node("B".to_string()),
            &TokenKind::Star,
            &TokenKind::Pipe,
            &TokenKind::LParen,
            &TokenKind::Node("C".to_string()),
            &TokenKind::RParen,
            &TokenKind::QMark,
            &TokenKind::Colon,
            &TokenKind::Token("x".to_string()),
            &TokenKind::Node("D".to_string()),
        ]
    );
    let locs: Vec<Location> = tokens.iter().map(|t| t.loc).collect();
    assert_eq!(
        locs,
        vec![
            loc(0, 0),
            loc(0, 2),
            loc(0, 4),
            loc(0, 5),
            loc(0, 7),
            loc(0, 9),
            loc(0, 10),
            loc(0, 11),
            loc(0, 12),
            loc(0, 14),
            loc(1, 2),
            loc(1, 6),
        ]
    );
}

#[test]
fn token_locations_never_go_back() {
    let tokens = tokenize("Rule =\n  'a\\'b' Other*\n// note\n| 'é' x").unwrap();
    for pair in tokens.windows(2) {
        let end = pair[0].end_location();
        let next = pair[1].loc;
        assert!(end.line < next.line || (end.line == next.line && end.column <= next.column));
    }
    assert_eq!(tokens.last().unwrap().loc, loc(3, 6));
}

#[test]
fn columns_count_characters_not_bytes() {
    let tokens = tokenize("'éé' x").unwrap();
    assert_eq!(tokens[0].kind.size_hint(), 2);
    assert_eq!(tokens[1].loc, loc(0, 5));
}

#[test]
fn literal_errors() {
    let (message, location) = simple_error("A = 'unterminated");
    assert_eq!(message, "unclosed token literal");
    assert_eq!(location, Some(loc(0, 4)));
    let (message, location) = simple_error("\n  'bad \\n escape'");
    assert_eq!(message, "invalid escape in token literal");
    assert_eq!(location, Some(loc(1, 2)));
    let (message, _) = simple_error("'ends with backslash\\");
    assert_eq!(message, "invalid escape in token literal");
}

#[test]
fn unexpected_character() {
    let (message, location) = simple_error("A = B\n  $");
    assert_eq!(message, "unexpected character: `$`");
    assert_eq!(location, Some(loc(1, 2)));
    let (message, _) = simple_error("/ x");
    assert_eq!(message, "unexpected character: `/`");
}

#[test]
fn token_range_spans_the_token() {
    let tokens = tokenize("  Name").unwrap();
    let range = tokens[0].range();
    assert_eq!(range, Range { begin: loc(0, 2), ex_end: loc(0, 6) });
    let tokens = tokenize("x|").unwrap();
    assert_eq!(tokens[1].range(), Range { begin: loc(0, 1), ex_end: loc(0, 2) });
}

#[test]
fn location_advances_over_text() {
    let mut l = loc(3, 4);
    l.advance(&['a', 'b']);
    assert_eq!(l, loc(3, 6));
    l.advance(&['x', '\n', 'y', '\n', 'z', 'w']);
    assert_eq!(l, loc(5, 2));
    l.advance(&[]);
    assert_eq!(l, loc(5, 2));
    assert_eq!(Location::default(), loc(0, 0));
}

#[test]
fn character_classes() {
    assert!(is_whitespace(' ') && is_whitespace('\t') && is_whitespace('\n'));
    assert!(!is_whitespace('\r'));
    assert!(is_ident_char('a') && is_ident_char('Z') && is_ident_char('_'));
    assert!(!is_ident_char('0') && !is_ident_char('-') && !is_ident_char('é'));
    assert!(is_escapable('\\') && is_escapable('\''));
    assert!(!is_escapable('n'));
}

#[test]
fn skipping_whitespace_and_comments() {
    let text: Vec<char> = " \t\n// note\nX".chars().collect();
    let mut pos = 0;
    skip_ws(&text, &mut pos);
    assert_eq!(pos, 3);
    skip_comment(&text, &mut pos);
    assert_eq!(pos, 11);
    skip_comment(&text, &mut pos);
    assert_eq!(pos, 11);
    let open: Vec<char> = "// to the end".chars().collect();
    let mut pos = 0;
    skip_comment(&open, &mut pos);
    assert_eq!(pos, open.len());
}

#[test]
fn advance_reads_one_token() {
    let text: Vec<char> = "ab_c= 'x'".chars().collect();
    let mut pos = 0;
    assert_eq!(advance(&text, &mut pos).unwrap(), TokenKind::Node("ab_c".to_string()));
    assert_eq!(pos, 4);
    assert_eq!(advance(&text, &mut pos).unwrap(), TokenKind::Eq);
    assert_eq!(pos, 5);
    pos = 6;
    assert_eq!(advance(&text, &mut pos).unwrap(), TokenKind::Token("x".to_string()));
    assert_eq!(pos, 9);
    let mut pos = 0;
    match advance(&['#'], &mut pos) {
        Err(Error::Simple { message, location: None }) => {
            assert_eq!(message, "unexpected character: `#`")
        }
        other => panic!("unexpected {other:?}"),
    }
}
