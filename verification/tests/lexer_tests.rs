use shell_lexer::lexer::Lexer;
use shell_lexer::token::{Token, TokenType};

fn collect(source: &[u8], offset: usize) -> Vec<Token<'_>> {
    let mut lexer = Lexer::new(source, offset);
    let mut tokens = Vec::new();
    while let Some(token) = lexer.next() {
        tokens.push(token);
    }
    tokens
}

#[test]
fn number_scenario() {
    let mut lexer = Lexer::new(b"123", 0);
    let t = lexer.next().expect("one token");
    assert_eq!(t.token_type, TokenType::Number);
    assert_eq!(t.contents, b"123");
    assert_eq!(t.span_start, 0);
    assert_eq!(t.span_end, 3);
    assert!(lexer.next().is_none());
}

#[test]
fn variable_pipe_variable_scenario() {
    let tokens = collect(b"$foo|$bar", 0);
    assert_eq!(tokens.len(), 3);
    assert_eq!(tokens[0].token_type, TokenType::Variable);
    assert_eq!(tokens[0].contents, b"$foo");
    assert_eq!((tokens[0].span_start, tokens[0].span_end), (0, 4));
    assert_eq!(tokens[1].token_type, TokenType::Pipe);
    assert_eq!(tokens[1].contents, b"|");
    assert_eq!((tokens[1].span_start, tokens[1].span_end), (4, 5));
    assert_eq!(tokens[2].token_type, TokenType::Variable);
    assert_eq!(tokens[2].contents, b"$bar");
    assert_eq!((tokens[2].span_start, tokens[2].span_end), (5, 9));
}

#[test]
fn number_range_scenario() {
    let tokens = collect(b"1..5", 0);
    assert_eq!(tokens.len(), 3);
    assert_eq!(tokens[0].token_type, TokenType::Number);
    assert_eq!(tokens[0].contents, b"1");
    assert_eq!((tokens[0].span_start, tokens[0].span_end), (0, 1));
    assert_eq!(tokens[1].token_type, TokenType::DotDot);
    assert_eq!(tokens[1].contents, b"..");
    assert_eq!((tokens[1].span_start, tokens[1].span_end), (1, 3));
    assert_eq!(tokens[2].token_type, TokenType::Number);
    assert_eq!(tokens[2].contents, b"5");
    assert_eq!((tokens[2].span_start, tokens[2].span_end), (3, 4));
}

#[test]
fn ampersand_maximal_munch_scenario() {
    let mut lexer = Lexer::new(b"&&", 0);
    let t = lexer.next().expect("one token");
    assert_eq!(t.token_type, TokenType::AmpersandAmpersand);
    assert_eq!((t.span_start, t.span_end), (0, 2));
    assert!(lexer.next().is_none());

    let mut lexer = Lexer::new(b"&x", 0);
    let t = lexer.next().expect("first token");
    assert_eq!(t.token_type, TokenType::Ampersand);
    assert_eq!((t.span_start, t.span_end), (0, 1));
}

#[test]
fn unterminated_string_with_escaped_quote_scenario() {
    let source = b"\"a\\\"b";
    let mut lexer = Lexer::new(source, 0);
    let t = lexer.next().expect("one token");
    assert_eq!(t.token_type, TokenType::String);
    assert_eq!(t.contents, source);
    assert_eq!((t.span_start, t.span_end), (0, 5));
    assert!(lexer.next().is_none());
}

#[test]
fn losslessness_on_a_full_line() {
    let source: &[u8] = b"let x = $y + 1 # done";
    let tokens = collect(source, 0);
    let mut rebuilt: Vec<u8> = Vec::new();
    for t in &tokens {
        rebuilt.extend_from_slice(t.contents);
    }
    assert_eq!(rebuilt, source);
}

#[test]
fn span_contiguity_on_a_full_line() {
    let source: &[u8] = b"if ($x >= 10) { \"ok\" } else 'no'\n";
    let offset = 7;
    let tokens = collect(source, offset);
    assert!(!tokens.is_empty());
    assert_eq!(tokens[0].span_start, offset);
    for pair in tokens.windows(2) {
        assert_eq!(pair[0].span_end, pair[1].span_start);
    }
    assert_eq!(tokens.last().unwrap().span_end, offset + source.len());
}

#[test]
fn peek_is_idempotent_and_agrees_with_next() {
    let mut lexer = Lexer::new(b"abc def", 0);
    let p1 = lexer.peek().expect("token");
    let p2 = lexer.peek().expect("token");
    assert_eq!(p1.token_type, p2.token_type);
    assert_eq!(p1.contents, p2.contents);
    assert_eq!((p1.span_start, p1.span_end), (p2.span_start, p2.span_end));

    let n = lexer.next().expect("token");
    assert_eq!(n.token_type, p1.token_type);
    assert_eq!(n.contents, p1.contents);
    assert_eq!((n.span_start, n.span_end), (p1.span_start, p1.span_end));
    assert_eq!(n.contents, b"abc");

    let after = lexer.next().expect("token");
    assert_eq!(after.token_type, TokenType::Space);
}

#[test]
fn peek_does_not_advance() {
    let mut lexer = Lexer::new(b"12 34", 0);
    for _ in 0..5 {
        let p = lexer.peek().expect("token");
        assert_eq!(p.contents, b"12");
        assert_eq!((p.span_start, p.span_end), (0, 2));
    }
    let t = lexer.next().expect("token");
    assert_eq!(t.contents, b"12");
}

#[test]
fn arbitrary_bytes_still_produce_tokens() {
    let source: &[u8] = &[1, 2, 3, b' ', 0xff, 0xfe];
    let tokens = collect(source, 0);
    assert_eq!(tokens.len(), 3);
    assert_eq!(tokens[0].token_type, TokenType::Bareword);
    assert_eq!(tokens[0].contents, &[1, 2, 3]);
    assert_eq!(tokens[1].token_type, TokenType::Space);
    assert_eq!(tokens[2].token_type, TokenType::Bareword);
    assert_eq!(tokens[2].contents, &[0xff, 0xfe]);
}

#[test]
fn newline_mode_flag_changes_classification() {
    let mut lexer = Lexer::new(b"\n", 0);
    let t = lexer.next().expect("token");
    assert_eq!(t.token_type, TokenType::Newline);
    assert_eq!((t.span_start, t.span_end), (0, 1));

    let mut lexer = Lexer::new(b"\n\n x", 0);
    lexer.newline_is_space = true;
    let t = lexer.next().expect("token");
    assert_eq!(t.token_type, TokenType::Space);
    assert_eq!(t.contents, b"\n\n ");
    assert_eq!((t.span_start, t.span_end), (0, 3));
}

#[test]
fn space_run_is_maximal() {
    let tokens = collect(b"a  \t\r b", 0);
    assert_eq!(tokens.len(), 3);
    assert_eq!(tokens[1].token_type, TokenType::Space);
    assert_eq!(tokens[1].contents, b"  \t\r ");
    assert_eq!((tokens[1].span_start, tokens[1].span_end), (1, 6));
}

#[test]
fn comment_runs_to_newline_exclusive() {
    let tokens = collect(b"# hi\nx", 0);
    assert_eq!(tokens.len(), 3);
    assert_eq!(tokens[0].token_type, TokenType::Comment);
    assert_eq!(tokens[0].contents, b"# hi");
    assert_eq!((tokens[0].span_start, tokens[0].span_end), (0, 4));
    assert_eq!(tokens[1].token_type, TokenType::Newline);
    assert_eq!((tokens[1].span_start, tokens[1].span_end), (4, 5));
    assert_eq!(tokens[2].token_type, TokenType::Bareword);
    assert_eq!(tokens[2].contents, b"x");
}

#[test]
fn comment_at_end_of_input() {
    let tokens = collect(b"#tail", 0);
    assert_eq!(tokens.len(), 1);
    assert_eq!(tokens[0].token_type, TokenType::Comment);
    assert_eq!(tokens[0].contents, b"#tail");
    assert_eq!((tokens[0].span_start, tokens[0].span_end), (0, 5));
}

#[test]
fn simple_string_terminated_and_unterminated() {
    let mut lexer = Lexer::new(b"'ab'c", 0);
    let t = lexer.next().expect("token");
    assert_eq!(t.token_type, TokenType::SimpleString);
    assert_eq!(t.contents, b"'ab'");
    assert_eq!((t.span_start, t.span_end), (0, 4));

    let mut lexer = Lexer::new(b"'ab", 0);
    let t = lexer.next().expect("token");
    assert_eq!(t.token_type, TokenType::SimpleString);
    assert_eq!(t.contents, b"'ab");
    assert_eq!((t.span_start, t.span_end), (0, 3));
}

#[test]
fn double_quoted_string_with_escapes() {
    let mut lexer = Lexer::new(b"\"a\\\"b\" x", 0);
    let t = lexer.next().expect("token");
    assert_eq!(t.token_type, TokenType::String);
    assert_eq!(t.contents, b"\"a\\\"b\"");
    assert_eq!((t.span_start, t.span_end), (0, 6));
}

#[test]
fn quoted_bareword_excludes_delimiters_from_contents() {
    let mut lexer = Lexer::new(b"`ab`c", 0);
    let t = lexer.next().expect("token");
    assert_eq!(t.token_type, TokenType::Bareword);
    assert_eq!(t.contents, b"ab");
    assert_eq!((t.span_start, t.span_end), (0, 4));
    let t = lexer.next().expect("token");
    assert_eq!(t.contents, b"c");
    assert_eq!((t.span_start, t.span_end), (4, 5));
}

#[test]
fn lone_backtick_gives_empty_word() {
    let mut lexer = Lexer::new(b"`", 0);
    let t = lexer.next().expect("token");
    assert_eq!(t.token_type, TokenType::Bareword);
    assert_eq!(t.contents, b"");
    assert_eq!((t.span_start, t.span_end), (0, 1));
    assert!(lexer.next().is_none());
}

#[test]
fn unterminated_quoted_bareword_drops_first_and_last_byte() {
    let mut lexer = Lexer::new(b"`ab", 0);
    let t = lexer.next().expect("token");
    assert_eq!(t.token_type, TokenType::Bareword);
    assert_eq!(t.contents, b"a");
    assert_eq!((t.span_start, t.span_end), (0, 3));
    assert!(lexer.next().is_none());
}

#[test]
fn single_symbols() {
    let cases: &[(&[u8], TokenType)] = &[
        (b"(", TokenType::LParen),
        (b")", TokenType::RParen),
        (b"[", TokenType::LSquare),
        (b"]", TokenType::RSquare),
        (b"{", TokenType::LCurly),
        (b"}", TokenType::RCurly),
        (b"<", TokenType::LessThan),
        (b">", TokenType::GreaterThan),
        (b"+", TokenType::Plus),
        (b"-", TokenType::Dash),
        (b"*", TokenType::Asterisk),
        (b"/", TokenType::ForwardSlash),
        (b"=", TokenType::Equals),
        (b":", TokenType::Colon),
        (b";", TokenType::Semicolon),
        (b".", TokenType::Dot),
        (b"!", TokenType::Exclamation),
        (b"|", TokenType::Pipe),
        (b"&", TokenType::Ampersand),
        (b",", TokenType::Comma),
    ];
    for (source, expected) in cases {
        let mut lexer = Lexer::new(source, 0);
        let t = lexer.next().expect("token");
        assert_eq!(t.token_type, *expected);
        assert_eq!(t.contents, *source);
        assert_eq!((t.span_start, t.span_end), (0, 1));
        assert!(lexer.next().is_none());
    }
}

#[test]
fn double_symbols() {
    let cases: &[(&[u8], TokenType)] = &[
        (b"<=", TokenType::LessThanEqual),
        (b">=", TokenType::GreaterThanEqual),
        (b"++", TokenType::PlusPlus),
        (b"**", TokenType::AsteriskAsterisk),
        (b"//", TokenType::ForwardSlashForwardSlash),
        (b"==", TokenType::EqualsEquals),
        (b"=~", TokenType::EqualsTilde),
        (b"!=", TokenType::ExclamationEquals),
        (b"!~", TokenType::ExclamationTilde),
        (b"||", TokenType::PipePipe),
        (b"..", TokenType::DotDot),
        (b"&&", TokenType::AmpersandAmpersand),
    ];
    for (source, expected) in cases {
        let mut lexer = Lexer::new(source, 0);
        let t = lexer.next().expect("token");
        assert_eq!(t.token_type, *expected);
        assert_eq!(t.contents, *source);
        assert_eq!((t.span_start, t.span_end), (0, 2));
        assert!(lexer.next().is_none());
    }
}

#[test]
fn dollar_symbol_through_direct_scan() {
    let mut lexer = Lexer::new(b"$", 0);
    let t = lexer.lex_symbol().expect("token");
    assert_eq!(t.token_type, TokenType::Dollar);
    assert_eq!(t.contents, b"$");
    assert_eq!((t.span_start, t.span_end), (0, 1));
}

#[test]
fn dollar_dispatches_to_variable() {
    let mut lexer = Lexer::new(b"$", 0);
    let t = lexer.next().expect("token");
    assert_eq!(t.token_type, TokenType::Variable);
    assert_eq!(t.contents, b"$");
    assert_eq!((t.span_start, t.span_end), (0, 1));
}

#[test]
fn number_stops_at_first_non_digit() {
    let tokens = collect(b"12ab", 0);
    assert_eq!(tokens.len(), 2);
    assert_eq!(tokens[0].token_type, TokenType::Number);
    assert_eq!(tokens[0].contents, b"12");
    assert_eq!((tokens[0].span_start, tokens[0].span_end), (0, 2));
    assert_eq!(tokens[1].token_type, TokenType::Bareword);
    assert_eq!(tokens[1].contents, b"ab");
    assert_eq!((tokens[1].span_start, tokens[1].span_end), (2, 4));
}

#[test]
fn starting_offset_shifts_spans() {
    let mut lexer = Lexer::new(b"123", 10);
    let t = lexer.next().expect("token");
    assert_eq!((t.span_start, t.span_end), (10, 13));
}

#[test]
fn empty_input_yields_sentinel() {
    let mut lexer = Lexer::new(b"", 0);
    assert!(lexer.peek().is_none());
    assert!(lexer.next().is_none());
    assert!(lexer.next().is_none());
}

#[test]
fn operator_bytes_stay_inside_barewords() {
    let tokens = collect(b"a+b c", 0);
    assert_eq!(tokens.len(), 3);
    assert_eq!(tokens[0].token_type, TokenType::Bareword);
    assert_eq!(tokens[0].contents, b"a+b");
    assert_eq!(tokens[1].token_type, TokenType::Space);
    assert_eq!(tokens[2].contents, b"c");
}

#[test]
fn bareword_stops_at_grouping_punctuation() {
    let tokens = collect(b"ab(cd", 0);
    assert_eq!(tokens.len(), 3);
    assert_eq!(tokens[0].contents, b"ab");
    assert_eq!(tokens[1].token_type, TokenType::LParen);
    assert_eq!(tokens[2].contents, b"cd");
}

#[test]
fn variable_name_stops_at_symbol() {
    let tokens = collect(b"$abc.def", 0);
    assert_eq!(tokens.len(), 3);
    assert_eq!(tokens[0].token_type, TokenType::Variable);
    assert_eq!(tokens[0].contents, b"$abc");
    assert_eq!(tokens[1].token_type, TokenType::Dot);
    assert_eq!(tokens[2].token_type, TokenType::Bareword);
    assert_eq!(tokens[2].contents, b"def");
}

#[test]
fn form_feed_yields_empty_bareword_without_progress() {
    // A form feed is ASCII whitespace for the bareword termination rule but
    // is not in the lexer's own whitespace set, so the dispatcher sends it
    // to the bareword scanner, which consumes nothing: still a token, never
    // an error, but the cursor does not move.
    let mut lexer = Lexer::new(b"\x0c", 0);
    for _ in 0..2 {
        let t = lexer.next().expect("token");
        assert_eq!(t.token_type, TokenType::Bareword);
        assert_eq!(t.contents, b"");
        assert_eq!((t.span_start, t.span_end), (0, 0));
    }
}

#[test]
fn direct_number_scan_on_non_digit_is_empty() {
    let mut lexer = Lexer::new(b"ab", 5);
    let t = lexer.lex_number().expect("token");
    assert_eq!(t.token_type, TokenType::Number);
    assert_eq!(t.contents, b"");
    assert_eq!((t.span_start, t.span_end), (5, 5));
}
