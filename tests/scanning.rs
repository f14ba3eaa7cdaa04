use alox::error::{lex_error, LexErrorKind};
use alox::scanner::{keyword_type, scan, Scanner};
use alox::token::{Literal, Token, TokenType};

fn kinds(tokens: &[Token]) -> Vec<TokenType> {
    tokens.iter().map(|t| t.token_type).collect()
}

#[test]
fn scan_always_ends_with_eof() {
    for src in ["", "1 + 2", "@#$", "\"abc", "var x = 1;", "// only a comment", "é ü"] {
        let (tokens, _) = scan(src);
        assert!(!tokens.is_empty());
        assert_eq!(tokens.last().unwrap().token_type, TokenType::EOF);
        let eofs = tokens.iter().filter(|t| t.token_type == TokenType::EOF).count();
        assert_eq!(eofs, 1);
    }
}

#[test]
fn blank_source_scans_to_eof_alone() {
    for src in ["", "   ", " \t\r\n", "// a comment", "  // one\n\t// two\n\n"] {
        let (tokens, errors) = scan(src);
        assert_eq!(kinds(&tokens), vec![TokenType::EOF]);
        assert!(errors.is_empty());
    }
}

#[test]
fn eof_line_is_last_line_reached() {
    let (tokens, _) = scan("1\n2\n\n");
    assert_eq!(tokens.last().unwrap().line, 4);
    assert_eq!(tokens[0].line, 1);
    assert_eq!(tokens[1].line, 2);
}

#[test]
fn number_literal_round_trip() {
    let (tokens, errors) = scan("123.5");
    assert!(errors.is_empty());
    assert_eq!(kinds(&tokens), vec![TokenType::NUMBER, TokenType::EOF]);
    assert_eq!(tokens[0].lexeme, "123.5");
    match &tokens[0].literal {
        Some(Literal::Number(text)) => {
            assert_eq!(text, "123.5");
            assert_eq!(text.parse::<f64>().unwrap(), 123.5);
        }
        other => panic!("unexpected literal {:?}", other),
    }
}

#[test]
fn string_literal_round_trip() {
    let (tokens, errors) = scan("\"hi there\"");
    assert!(errors.is_empty());
    assert_eq!(kinds(&tokens), vec![TokenType::STRING, TokenType::EOF]);
    assert_eq!(tokens[0].lexeme, "\"hi there\"");
    match &tokens[0].literal {
        Some(Literal::String(s)) => assert_eq!(s, "hi there"),
        other => panic!("unexpected literal {:?}", other),
    }
}

#[test]
fn unterminated_string_reports_one_error() {
    let (tokens, errors) = scan("\"abc");
    assert_eq!(errors.len(), 1);
    assert_eq!(errors[0].kind, LexErrorKind::UnterminatedString);
    assert_eq!(errors[0].line, 1);
    assert_eq!(kinds(&tokens), vec![TokenType::EOF]);
}

#[test]
fn string_spanning_lines_counts_them() {
    let (tokens, errors) = scan("\"a\nb\" 1");
    assert!(errors.is_empty());
    assert_eq!(tokens[0].token_type, TokenType::STRING);
    assert_eq!(tokens[0].line, 2);
    assert_eq!(tokens[1].line, 2);
}

#[test]
fn unexpected_characters_are_reported_and_skipped() {
    let (tokens, errors) = scan("1 @\n# 2");
    assert_eq!(kinds(&tokens), vec![TokenType::NUMBER, TokenType::NUMBER, TokenType::EOF]);
    assert_eq!(errors.len(), 2);
    assert_eq!(errors[0].kind, LexErrorKind::UnexpectedCharacter('@'));
    assert_eq!(errors[0].line, 1);
    assert_eq!(errors[1].kind, LexErrorKind::UnexpectedCharacter('#'));
    assert_eq!(errors[1].line, 2);
}

#[test]
fn one_and_two_character_operators() {
    let (tokens, _) = scan("! != = == < <= > >= / *");
    assert_eq!(
        kinds(&tokens),
        vec![
            TokenType::Bang,
            TokenType::BangEqual,
            TokenType::Equal,
            TokenType::EqualEqual,
            TokenType::Less,
            TokenType::LessEqual,
            TokenType::Greater,
            TokenType::GreaterEqual,
            TokenType::Slash,
            TokenType::Star,
            TokenType::EOF,
        ]
    );
    assert_eq!(tokens[1].lexeme, "!=");
}

#[test]
fn punctuation() {
    let (tokens, _) = scan("(){},.-+;");
    assert_eq!(
        kinds(&tokens),
        vec![
            TokenType::LeftParen,
            TokenType::RightParen,
            TokenType::LeftBrace,
            TokenType::RightBrace,
            TokenType::Comma,
            TokenType::Dot,
            TokenType::Minus,
            TokenType::Plus,
            TokenType::Semicolon,
            TokenType::EOF,
        ]
    );
}

#[test]
fn trailing_dot_is_a_separate_token() {
    let (tokens, _) = scan("12.");
    assert_eq!(kinds(&tokens), vec![TokenType::NUMBER, TokenType::Dot, TokenType::EOF]);
    assert_eq!(tokens[0].lexeme, "12");
    let (tokens, _) = scan("1.2.3");
    assert_eq!(kinds(&tokens), vec![TokenType::NUMBER, TokenType::Dot, TokenType::NUMBER, TokenType::EOF]);
    assert_eq!(tokens[0].lexeme, "1.2");
}

#[test]
fn keywords_and_identifiers() {
    let (tokens, _) = scan("and class else false for fun if nil or print return super this true var while orchid _x1");
    assert_eq!(
        kinds(&tokens),
        vec![
            TokenType::AND,
            TokenType::CLASS,
            TokenType::ELSE,
            TokenType::FALSE,
            TokenType::FOR,
            TokenType::FUN,
            TokenType::IF,
            TokenType::NIL,
            TokenType::OR,
            TokenType::PRINT,
            TokenType::RETURN,
            TokenType::SUPER,
            TokenType::THIS,
            TokenType::TRUE,
            TokenType::VAR,
            TokenType::WHILE,
            TokenType::IDENTIFIER,
            TokenType::IDENTIFIER,
            TokenType::EOF,
        ]
    );
    assert_eq!(tokens[16].lexeme, "orchid");
    assert_eq!(keyword_type(&"while".to_string()), TokenType::WHILE);
    assert_eq!(keyword_type(&"While".to_string()), TokenType::IDENTIFIER);
}

#[test]
fn comment_runs_to_end_of_line() {
    let (tokens, _) = scan("1 // 2 3\n4");
    assert_eq!(kinds(&tokens), vec![TokenType::NUMBER, TokenType::NUMBER, TokenType::EOF]);
    assert_eq!(tokens[1].lexeme, "4");
    assert_eq!(tokens[1].line, 2);
}

#[test]
fn non_ascii_text_in_strings() {
    let (tokens, errors) = scan("\"héllo\" é");
    assert_eq!(tokens[0].lexeme, "\"héllo\"");
    assert_eq!(errors.len(), 1);
    assert_eq!(errors[0].kind, LexErrorKind::UnexpectedCharacter('é'));
}

#[test]
fn scanner_struct_matches_scan() {
    let (a, e1) = Scanner::new("1 + \"x\"".to_string()).scan_tokens();
    let (b, e2) = scan("1 + \"x\"");
    assert_eq!(format!("{:?}", a), format!("{:?}", b));
    assert_eq!(e1, e2);
}

#[test]
fn lexical_diagnostics() {
    let (_, errors) = scan("\"abc");
    let d = lex_error(&errors[0]);
    assert_eq!(d.line, 1);
    assert_eq!(d.location, "");
    assert_eq!(d.message, "Unterminated string! Try adding a \"");
    let (_, errors) = scan("\n$");
    let d = lex_error(&errors[0]);
    assert_eq!(d.line, 2);
    assert_eq!(d.message, "Unexpected character!");
}
