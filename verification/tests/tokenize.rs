use endron::machine::{digit, ident_start, punctuation, transition, Action, Transition};
use endron::tokenizer::{tokenize, LexError, Token, TokenKind, Tokenizer, TokenizerState};

fn tok(kind: TokenKind, start: usize, end: usize, line: usize, column: usize) -> Token {
    Token { kind, start, end, column, line }
}

fn kinds(source: &str) -> Vec<TokenKind> {
    tokenize(source).unwrap().iter().map(|t| t.kind).collect()
}

#[test]
fn empty_input_is_one_end_marker() {
    assert_eq!(tokenize(""), Ok(vec![tok(TokenKind::Eof, 0, 0, 1, 1)]));
}

#[test]
fn blank_input_is_one_end_marker_at_the_end() {
    assert_eq!(tokenize("  \n "), Ok(vec![tok(TokenKind::Eof, 4, 4, 2, 2)]));
}

#[test]
fn position_after_line_break() {
    assert_eq!(
        tokenize("a\nb"),
        Ok(vec![
            tok(TokenKind::Ident, 0, 1, 1, 1),
            tok(TokenKind::Ident, 2, 3, 2, 1),
            tok(TokenKind::Eof, 3, 3, 2, 2),
        ])
    );
}

#[test]
fn position_after_spaces() {
    assert_eq!(
        tokenize("  ab  cd"),
        Ok(vec![
            tok(TokenKind::Ident, 2, 4, 1, 3),
            tok(TokenKind::Ident, 6, 8, 1, 7),
            tok(TokenKind::Eof, 8, 8, 1, 9),
        ])
    );
}

#[test]
fn minus_before_digit_is_a_number() {
    assert_eq!(
        tokenize("-5"),
        Ok(vec![tok(TokenKind::LiteralNumber, 0, 2, 1, 1), tok(TokenKind::Eof, 2, 2, 1, 3)])
    );
}

#[test]
fn minus_before_space_is_a_minus() {
    assert_eq!(
        tokenize("- 5"),
        Ok(vec![
            tok(TokenKind::Minus, 0, 1, 1, 1),
            tok(TokenKind::LiteralNumber, 2, 3, 1, 3),
            tok(TokenKind::Eof, 3, 3, 1, 4),
        ])
    );
}

#[test]
fn minus_at_end_and_before_letter() {
    assert_eq!(kinds("-"), vec![TokenKind::Minus, TokenKind::Eof]);
    assert_eq!(kinds("-a"), vec![TokenKind::Minus, TokenKind::Ident, TokenKind::Eof]);
    assert_eq!(
        tokenize("-12.5"),
        Ok(vec![tok(TokenKind::LiteralDecimal, 0, 5, 1, 1), tok(TokenKind::Eof, 5, 5, 1, 6)])
    );
}

#[test]
fn line_comment_stops_before_line_break() {
    assert_eq!(
        tokenize("// x"),
        Ok(vec![tok(TokenKind::LineComment, 0, 4, 1, 1), tok(TokenKind::Eof, 4, 4, 1, 5)])
    );
    assert_eq!(
        tokenize("// x\ny"),
        Ok(vec![
            tok(TokenKind::LineComment, 0, 4, 1, 1),
            tok(TokenKind::Ident, 5, 6, 2, 1),
            tok(TokenKind::Eof, 6, 6, 2, 2),
        ])
    );
}

#[test]
fn third_slash_makes_a_doc_comment() {
    assert_eq!(
        tokenize("/// x"),
        Ok(vec![tok(TokenKind::DocComment, 0, 5, 1, 1), tok(TokenKind::Eof, 5, 5, 1, 6)])
    );
    assert_eq!(kinds("///"), vec![TokenKind::DocComment, TokenKind::Eof]);
    assert_eq!(kinds("//"), vec![TokenKind::LineComment, TokenKind::Eof]);
}

#[test]
fn later_slash_leaves_a_line_comment() {
    assert_eq!(
        tokenize("// a / b"),
        Ok(vec![tok(TokenKind::LineComment, 0, 8, 1, 1), tok(TokenKind::Eof, 8, 8, 1, 9)])
    );
}

#[test]
fn lone_slash() {
    assert_eq!(
        tokenize("/"),
        Ok(vec![tok(TokenKind::Slash, 0, 1, 1, 1), tok(TokenKind::Eof, 1, 1, 1, 2)])
    );
    assert_eq!(kinds("/a"), vec![TokenKind::Slash, TokenKind::Ident, TokenKind::Eof]);
}

#[test]
fn double_asterisk() {
    assert_eq!(
        tokenize("**"),
        Ok(vec![tok(TokenKind::DoubleAsterisk, 0, 2, 1, 1), tok(TokenKind::Eof, 2, 2, 1, 3)])
    );
    assert_eq!(
        kinds("***"),
        vec![TokenKind::DoubleAsterisk, TokenKind::Asterisk, TokenKind::Eof]
    );
}

#[test]
fn asterisk_before_letter() {
    assert_eq!(
        tokenize("*a"),
        Ok(vec![
            tok(TokenKind::Asterisk, 0, 1, 1, 1),
            tok(TokenKind::Ident, 1, 2, 1, 2),
            tok(TokenKind::Eof, 2, 2, 1, 3),
        ])
    );
}

#[test]
fn invalid_character_is_an_error() {
    assert_eq!(
        tokenize("%"),
        Err(LexError::InvalidCharacter { byte: b'%', offset: 0, line: 1, column: 1 })
    );
    assert_eq!(
        tokenize("a\n  % b"),
        Err(LexError::InvalidCharacter { byte: b'%', offset: 4, line: 2, column: 3 })
    );
    assert_eq!(
        tokenize("\\"),
        Err(LexError::InvalidCharacter { byte: b'\\', offset: 0, line: 1, column: 1 })
    );
    assert_eq!(
        tokenize("a\tb"),
        Err(LexError::InvalidCharacter { byte: b'\t', offset: 1, line: 1, column: 2 })
    );
}

#[test]
fn non_ascii_outside_a_string_is_an_error() {
    assert_eq!(
        tokenize("é"),
        Err(LexError::InvalidCharacter { byte: 0xc3, offset: 0, line: 1, column: 1 })
    );
    assert_eq!(
        tokenize("aé"),
        Err(LexError::InvalidCharacter { byte: 0xc3, offset: 1, line: 1, column: 2 })
    );
}

#[test]
fn unterminated_string_is_an_error() {
    assert_eq!(
        tokenize("\"abc"),
        Err(LexError::UnterminatedString { offset: 0, line: 1, column: 1 })
    );
    assert_eq!(
        tokenize("x\n \"a\\"),
        Err(LexError::UnterminatedString { offset: 3, line: 2, column: 2 })
    );
    assert_eq!(
        tokenize("\"a\\\""),
        Err(LexError::UnterminatedString { offset: 0, line: 1, column: 1 })
    );
    assert_eq!(tokenize("\""), Err(LexError::UnterminatedString { offset: 0, line: 1, column: 1 }));
}

#[test]
fn string_spans_both_quotes() {
    assert_eq!(
        tokenize("\"ab\" c"),
        Ok(vec![
            tok(TokenKind::LiteralString, 0, 4, 1, 1),
            tok(TokenKind::Ident, 5, 6, 1, 6),
            tok(TokenKind::Eof, 6, 6, 1, 7),
        ])
    );
    assert_eq!(
        tokenize("\"\""),
        Ok(vec![tok(TokenKind::LiteralString, 0, 2, 1, 1), tok(TokenKind::Eof, 2, 2, 1, 3)])
    );
}

#[test]
fn escape_pair_swallows_a_quote() {
    assert_eq!(
        tokenize("\"a\\\"b\""),
        Ok(vec![tok(TokenKind::LiteralString, 0, 6, 1, 1), tok(TokenKind::Eof, 6, 6, 1, 7)])
    );
    assert_eq!(
        tokenize("\"\\\\\"x"),
        Ok(vec![
            tok(TokenKind::LiteralString, 0, 4, 1, 1),
            tok(TokenKind::Ident, 4, 5, 1, 5),
            tok(TokenKind::Eof, 5, 5, 1, 6),
        ])
    );
}

#[test]
fn line_break_in_string_starts_a_line() {
    assert_eq!(
        tokenize("\"a\nb\" c"),
        Ok(vec![
            tok(TokenKind::LiteralString, 0, 5, 1, 1),
            tok(TokenKind::Ident, 6, 7, 2, 4),
            tok(TokenKind::Eof, 7, 7, 2, 5),
        ])
    );
}

#[test]
fn escaped_line_break_counts_as_two_columns() {
    assert_eq!(
        tokenize("\"\\\n\" c"),
        Ok(vec![
            tok(TokenKind::LiteralString, 0, 4, 1, 1),
            tok(TokenKind::Ident, 5, 6, 1, 6),
            tok(TokenKind::Eof, 6, 6, 1, 7),
        ])
    );
}

#[test]
fn lone_underscore_is_its_own_kind() {
    assert_eq!(
        tokenize("_"),
        Ok(vec![tok(TokenKind::Underscore, 0, 1, 1, 1), tok(TokenKind::Eof, 1, 1, 1, 2)])
    );
    assert_eq!(kinds("_ a"), vec![TokenKind::Underscore, TokenKind::Ident, TokenKind::Eof]);
    assert_eq!(kinds("_a"), vec![TokenKind::Ident, TokenKind::Eof]);
    assert_eq!(kinds("__"), vec![TokenKind::Ident, TokenKind::Eof]);
    assert_eq!(kinds("_1"), vec![TokenKind::Ident, TokenKind::Eof]);
    assert_eq!(kinds("_;"), vec![TokenKind::Underscore, TokenKind::Semicolon, TokenKind::Eof]);
}

#[test]
fn identifier_takes_letters_digits_underscores() {
    assert_eq!(
        tokenize("aZ_09 b"),
        Ok(vec![
            tok(TokenKind::Ident, 0, 5, 1, 1),
            tok(TokenKind::Ident, 6, 7, 1, 7),
            tok(TokenKind::Eof, 7, 7, 1, 8),
        ])
    );
}

#[test]
fn numbers_and_decimals() {
    assert_eq!(
        tokenize("12"),
        Ok(vec![tok(TokenKind::LiteralNumber, 0, 2, 1, 1), tok(TokenKind::Eof, 2, 2, 1, 3)])
    );
    assert_eq!(
        tokenize("1.5"),
        Ok(vec![tok(TokenKind::LiteralDecimal, 0, 3, 1, 1), tok(TokenKind::Eof, 3, 3, 1, 4)])
    );
    assert_eq!(
        tokenize("1."),
        Ok(vec![tok(TokenKind::LiteralDecimal, 0, 2, 1, 1), tok(TokenKind::Eof, 2, 2, 1, 3)])
    );
    assert_eq!(
        tokenize("1.2.3"),
        Ok(vec![
            tok(TokenKind::LiteralDecimal, 0, 3, 1, 1),
            tok(TokenKind::Period, 3, 4, 1, 4),
            tok(TokenKind::LiteralNumber, 4, 5, 1, 5),
            tok(TokenKind::Eof, 5, 5, 1, 6),
        ])
    );
    assert_eq!(kinds("1a"), vec![TokenKind::LiteralNumber, TokenKind::Ident, TokenKind::Eof]);
}

#[test]
fn every_single_byte_token() {
    assert_eq!(
        kinds("{}(),;^:.@!$|?~#+><="),
        vec![
            TokenKind::LBrace,
            TokenKind::RBrace,
            TokenKind::LParen,
            TokenKind::RParen,
            TokenKind::Comma,
            TokenKind::Semicolon,
            TokenKind::Caret,
            TokenKind::Colon,
            TokenKind::Period,
            TokenKind::At,
            TokenKind::Bang,
            TokenKind::Dollar,
            TokenKind::Pipe,
            TokenKind::QuestionMark,
            TokenKind::Tilde,
            TokenKind::NumberSign,
            TokenKind::Plus,
            TokenKind::GreaterThan,
            TokenKind::LessThan,
            TokenKind::Equal,
            TokenKind::Eof,
        ]
    );
}

#[test]
fn same_input_same_tokens() {
    let source = "let x = -1.5 ** y // done\n\"s\\n\" _";
    assert_eq!(tokenize(source), tokenize(source));
    assert_eq!(tokenize("a % b"), tokenize("a % b"));
}

#[test]
fn spans_are_ordered_with_blank_gaps() {
    let source = "fn main ( a , b ) {\n  a ** -2.5 / b // c\n  \"x\\\"y\" _\n}\n";
    let bytes = source.as_bytes();
    let tokens = tokenize(source).unwrap();
    assert!(!tokens.is_empty());
    assert!(bytes[..tokens[0].start].iter().all(|b| *b == b' ' || *b == b'\n'));
    for pair in tokens.windows(2) {
        assert!(pair[0].end <= pair[1].start);
        assert!(bytes[pair[0].end..pair[1].start].iter().all(|b| *b == b' ' || *b == b'\n'));
    }
    let last = tokens[tokens.len() - 1];
    assert_eq!(last.kind, TokenKind::Eof);
    assert_eq!(last.start, source.len());
    assert_eq!(last.end, source.len());
    assert_eq!(tokens.iter().filter(|t| t.kind == TokenKind::Eof).count(), 1);
}

#[test]
fn lexemes_are_not_empty_and_have_their_shape() {
    let source = "ab \"s t\" // c\n/// d\n-3 4.5 _ **";
    let tokens = tokenize(source).unwrap();
    let lexemes: Vec<&str> = tokens.iter().map(|t| &source[t.start..t.end]).collect();
    assert_eq!(lexemes, vec!["ab", "\"s t\"", "// c", "/// d", "-3", "4.5", "_", "**", ""]);
    for t in &tokens {
        assert!(t.kind == TokenKind::Eof || t.start < t.end);
    }
}

#[test]
fn cursor_hands_out_tokens_one_by_one() {
    let mut cursor = Tokenizer::new("a +\n1");
    assert_eq!((cursor.index, cursor.line, cursor.column), (0, 0, 0));
    assert_eq!(cursor.next(), Ok(tok(TokenKind::Ident, 0, 1, 1, 1)));
    assert_eq!((cursor.index, cursor.line, cursor.column), (1, 0, 1));
    assert_eq!(cursor.next(), Ok(tok(TokenKind::Plus, 2, 3, 1, 3)));
    assert_eq!(cursor.next(), Ok(tok(TokenKind::LiteralNumber, 4, 5, 2, 1)));
    assert_eq!((cursor.index, cursor.line, cursor.column), (5, 1, 1));
    assert_eq!(cursor.next(), Ok(tok(TokenKind::Eof, 5, 5, 2, 2)));
    assert_eq!(cursor.next(), Ok(tok(TokenKind::Eof, 5, 5, 2, 2)));
}

#[test]
fn cursor_stays_put_on_an_error() {
    let mut cursor = Tokenizer::new("a  %");
    assert_eq!(cursor.next(), Ok(tok(TokenKind::Ident, 0, 1, 1, 1)));
    assert_eq!(
        cursor.next(),
        Err(LexError::InvalidCharacter { byte: b'%', offset: 3, line: 1, column: 4 })
    );
    assert_eq!((cursor.index, cursor.line, cursor.column), (1, 0, 1));
}

#[test]
fn cursor_leaves_an_open_string_unread() {
    let mut cursor = Tokenizer::new("x \"y");
    assert_eq!(cursor.next(), Ok(tok(TokenKind::Ident, 0, 1, 1, 1)));
    assert_eq!(
        cursor.next(),
        Err(LexError::UnterminatedString { offset: 2, line: 1, column: 3 })
    );
    assert_eq!((cursor.index, cursor.line, cursor.column), (1, 0, 1));
}

#[test]
fn byte_classes() {
    assert!(digit(b'0') && digit(b'9') && !digit(b'/') && !digit(b':'));
    assert!(ident_start(b'a') && ident_start(b'z') && ident_start(b'A') && ident_start(b'Z'));
    assert!(ident_start(b'_') && !ident_start(b'5') && !ident_start(b'-'));
    assert!(!ident_start(b'@') && !ident_start(b'[') && !ident_start(b'`') && !ident_start(b'{'));
}

#[test]
fn punctuation_kinds() {
    assert_eq!(punctuation(b'{'), Some(TokenKind::LBrace));
    assert_eq!(punctuation(b'='), Some(TokenKind::Equal));
    assert_eq!(punctuation(b'#'), Some(TokenKind::NumberSign));
    assert_eq!(punctuation(b'%'), None);
    assert_eq!(punctuation(b'-'), None);
    assert_eq!(punctuation(b'a'), None);
}

fn entry(action: Action, state: TokenizerState, kind: TokenKind) -> Transition {
    Transition { action, state, kind }
}

#[test]
fn table_from_start() {
    let start = TokenizerState::Start;
    assert_eq!(transition(start, b' ', 0), entry(Action::Skip, start, TokenKind::Eof));
    assert_eq!(transition(start, b'\n', 0), entry(Action::Skip, start, TokenKind::Eof));
    assert_eq!(
        transition(start, b'q', 0),
        entry(Action::Consume, TokenizerState::Ident, TokenKind::Ident)
    );
    assert_eq!(
        transition(start, b'4', 0),
        entry(Action::Consume, TokenizerState::Number, TokenKind::LiteralNumber)
    );
    assert_eq!(
        transition(start, b'"', 0),
        entry(Action::Consume, TokenizerState::String, TokenKind::LiteralString)
    );
    assert_eq!(
        transition(start, b'-', 0),
        entry(Action::Consume, TokenizerState::Minus, TokenKind::Minus)
    );
    assert_eq!(
        transition(start, b'/', 0),
        entry(Action::Consume, TokenizerState::Slash, TokenKind::Slash)
    );
    assert_eq!(
        transition(start, b'*', 0),
        entry(Action::Consume, TokenizerState::Asterisk, TokenKind::Asterisk)
    );
    assert_eq!(transition(start, b'+', 0), entry(Action::Accept, start, TokenKind::Plus));
    assert_eq!(transition(start, b'%', 0), entry(Action::Reject, start, TokenKind::Eof));
}

#[test]
fn table_inside_tokens() {
    assert_eq!(
        transition(TokenizerState::Ident, b'7', 1),
        entry(Action::Consume, TokenizerState::Ident, TokenKind::Ident)
    );
    assert_eq!(
        transition(TokenizerState::Ident, b'.', 1),
        entry(Action::Stop, TokenizerState::Ident, TokenKind::Ident)
    );
    assert_eq!(
        transition(TokenizerState::Minus, b'7', 1),
        entry(Action::Consume, TokenizerState::Number, TokenKind::LiteralNumber)
    );
    assert_eq!(
        transition(TokenizerState::Minus, b' ', 1),
        entry(Action::Stop, TokenizerState::Minus, TokenKind::Minus)
    );
    assert_eq!(
        transition(TokenizerState::Number, b'.', 2),
        entry(Action::Consume, TokenizerState::Decimal, TokenKind::LiteralDecimal)
    );
    assert_eq!(
        transition(TokenizerState::Decimal, b'.', 3),
        entry(Action::Stop, TokenizerState::Decimal, TokenKind::LiteralDecimal)
    );
    assert_eq!(
        transition(TokenizerState::String, b'\\', 1),
        entry(Action::ConsumePair, TokenizerState::String, TokenKind::LiteralString)
    );
    assert_eq!(
        transition(TokenizerState::String, b'"', 1),
        entry(Action::Accept, TokenizerState::String, TokenKind::LiteralString)
    );
    assert_eq!(
        transition(TokenizerState::String, b'\n', 1),
        entry(Action::Consume, TokenizerState::String, TokenKind::LiteralString)
    );
    assert_eq!(
        transition(TokenizerState::Slash, b'/', 1),
        entry(Action::Consume, TokenizerState::LineComment, TokenKind::LineComment)
    );
    assert_eq!(
        transition(TokenizerState::LineComment, b'/', 2),
        entry(Action::Consume, TokenizerState::DocComment, TokenKind::DocComment)
    );
    assert_eq!(
        transition(TokenizerState::LineComment, b'/', 5),
        entry(Action::Consume, TokenizerState::LineComment, TokenKind::LineComment)
    );
    assert_eq!(
        transition(TokenizerState::LineComment, b'\n', 5),
        entry(Action::Stop, TokenizerState::LineComment, TokenKind::LineComment)
    );
    assert_eq!(
        transition(TokenizerState::DocComment, b'\n', 5),
        entry(Action::Stop, TokenizerState::DocComment, TokenKind::DocComment)
    );
    assert_eq!(
        transition(TokenizerState::Asterisk, b'*', 1),
        entry(Action::Accept, TokenizerState::Asterisk, TokenKind::DoubleAsterisk)
    );
    assert_eq!(
        transition(TokenizerState::Asterisk, b'a', 1),
        entry(Action::Stop, TokenizerState::Asterisk, TokenKind::Asterisk)
    );
    assert_eq!(
        transition(TokenizerState::Zero, b'0', 0),
        entry(Action::Reject, TokenizerState::Zero, TokenKind::Eof)
    );
}
