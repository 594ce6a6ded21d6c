use lox::decimal::Decimal;
use lox::reporter::Diagnostic;
use lox::scanner::Scanner;
use lox::token::{Object, Token, TokenType};
use lox::Lox;

fn scan(source: &str) -> (Vec<Token>, Vec<Diagnostic>) {
    let mut scanner = Scanner::new(source);
    scanner.scan_tokens();
    let (tokens, lox) = scanner.finish();
    let mut diagnostics = Vec::new();
    for d in lox.diagnostics() {
        diagnostics.push(Diagnostic { line: d.line, message: d.message.clone() });
    }
    (tokens, diagnostics)
}

fn kinds(tokens: &Vec<Token>) -> Vec<TokenType> {
    tokens.iter().map(|t| t.token_type).collect()
}

fn plain(kind: TokenType, lexeme: &str, line: u32) -> Token {
    Token::new(kind, lexeme.to_string(), None, line)
}

fn number(text: &str, line: u32) -> Token {
    let value = Decimal::parse(text).unwrap();
    Token::new(TokenType::Number, text.to_string(), Some(Object::Num(value)), line)
}

fn number_value(token: &Token) -> f64 {
    match &token.literal {
        Some(Object::Num(d)) => d.to_string().parse::<f64>().unwrap(),
        _ => panic!("no number literal"),
    }
}

#[test]
fn empty_source_gives_only_the_end_token() {
    let (tokens, diagnostics) = scan("");
    assert_eq!(tokens, vec![plain(TokenType::Eof, "", 1)]);
    assert!(diagnostics.is_empty());
}

#[test]
fn every_scan_ends_with_the_end_token() {
    for source in ["", "1", "(", "\"open", "// note", "a b c", "\n\n", "1.5 <= 2", "@#"] {
        let (tokens, _) = scan(source);
        let last = tokens.last().unwrap();
        assert_eq!(last.token_type, TokenType::Eof);
        assert_eq!(last.lexeme, "");
        assert_eq!(last.literal, None);
        let ends = tokens.iter().filter(|t| t.token_type == TokenType::Eof).count();
        assert_eq!(ends, 1);
    }
}

#[test]
fn punctuation_gives_one_token_each() {
    let (tokens, diagnostics) = scan("(){},.-+;*");
    assert_eq!(
        tokens,
        vec![
            plain(TokenType::LeftParen, "(", 1),
            plain(TokenType::RightParen, ")", 1),
            plain(TokenType::LeftBrace, "{", 1),
            plain(TokenType::RightBrace, "}", 1),
            plain(TokenType::Comma, ",", 1),
            plain(TokenType::Dot, ".", 1),
            plain(TokenType::Minus, "-", 1),
            plain(TokenType::Plus, "+", 1),
            plain(TokenType::Semicolon, ";", 1),
            plain(TokenType::Star, "*", 1),
            plain(TokenType::Eof, "", 1),
        ]
    );
    assert!(diagnostics.is_empty());
}

#[test]
fn repeated_punctuation_is_not_merged() {
    let (tokens, _) = scan("((..**");
    assert_eq!(
        kinds(&tokens),
        vec![
            TokenType::LeftParen,
            TokenType::LeftParen,
            TokenType::Dot,
            TokenType::Dot,
            TokenType::Star,
            TokenType::Star,
            TokenType::Eof,
        ]
    );
    for token in &tokens[..6] {
        assert_eq!(token.lexeme.chars().count(), 1);
    }
}

#[test]
fn bang_equal_is_one_token() {
    let (tokens, diagnostics) = scan("!=");
    assert_eq!(tokens, vec![plain(TokenType::BangEqual, "!=", 1), plain(TokenType::Eof, "", 1)]);
    assert!(diagnostics.is_empty());
}

#[test]
fn bang_alone_is_one_token_and_the_next_character_is_scanned_separately() {
    let (tokens, _) = scan("!(");
    assert_eq!(
        tokens,
        vec![
            plain(TokenType::Bang, "!", 1),
            plain(TokenType::LeftParen, "(", 1),
            plain(TokenType::Eof, "", 1),
        ]
    );
    let (tokens, _) = scan("!");
    assert_eq!(tokens, vec![plain(TokenType::Bang, "!", 1), plain(TokenType::Eof, "", 1)]);
    let (tokens, _) = scan("! =");
    assert_eq!(kinds(&tokens), vec![TokenType::Bang, TokenType::Equal, TokenType::Eof]);
}

#[test]
fn two_character_operators_prefer_the_longer_form() {
    let (tokens, _) = scan("= == < <= > >= ! !=");
    assert_eq!(
        tokens,
        vec![
            plain(TokenType::Equal, "=", 1),
            plain(TokenType::EqualEqual, "==", 1),
            plain(TokenType::Less, "<", 1),
            plain(TokenType::LessEqual, "<=", 1),
            plain(TokenType::Greater, ">", 1),
            plain(TokenType::GreaterEqual, ">=", 1),
            plain(TokenType::Bang, "!", 1),
            plain(TokenType::BangEqual, "!=", 1),
            plain(TokenType::Eof, "", 1),
        ]
    );
}

#[test]
fn three_equal_signs_are_a_pair_and_a_single() {
    let (tokens, _) = scan("===");
    assert_eq!(kinds(&tokens), vec![TokenType::EqualEqual, TokenType::Equal, TokenType::Eof]);
    let (tokens, _) = scan("<==");
    assert_eq!(kinds(&tokens), vec![TokenType::LessEqual, TokenType::Equal, TokenType::Eof]);
}

#[test]
fn comment_gives_no_token() {
    let (tokens, diagnostics) = scan("// anything\n1");
    assert_eq!(tokens, vec![number("1", 2), plain(TokenType::Eof, "", 2)]);
    assert_eq!(number_value(&tokens[0]), 1.0);
    assert!(diagnostics.is_empty());
}

#[test]
fn comment_runs_to_the_end_of_the_source() {
    let (tokens, diagnostics) = scan("+ // the rest ( ) \" @");
    assert_eq!(tokens, vec![plain(TokenType::Plus, "+", 1), plain(TokenType::Eof, "", 1)]);
    assert!(diagnostics.is_empty());
}

#[test]
fn comment_leaves_the_newline_to_be_counted() {
    let (tokens, _) = scan("//\n//\n*");
    assert_eq!(tokens, vec![plain(TokenType::Star, "*", 3), plain(TokenType::Eof, "", 3)]);
}

#[test]
fn single_slash_is_a_token() {
    let (tokens, _) = scan("/ 2 /");
    assert_eq!(
        tokens,
        vec![
            plain(TokenType::Slash, "/", 1),
            number("2", 1),
            plain(TokenType::Slash, "/", 1),
            plain(TokenType::Eof, "", 1),
        ]
    );
}

#[test]
fn blank_space_gives_no_token() {
    let (tokens, diagnostics) = scan(" \t\r ( \t ) \r");
    assert_eq!(
        tokens,
        vec![
            plain(TokenType::LeftParen, "(", 1),
            plain(TokenType::RightParen, ")", 1),
            plain(TokenType::Eof, "", 1),
        ]
    );
    assert!(diagnostics.is_empty());
}

#[test]
fn newline_advances_the_line() {
    let (tokens, _) = scan("(\n)\n\n;");
    assert_eq!(
        tokens,
        vec![
            plain(TokenType::LeftParen, "(", 1),
            plain(TokenType::RightParen, ")", 2),
            plain(TokenType::Semicolon, ";", 4),
            plain(TokenType::Eof, "", 4),
        ]
    );
}

#[test]
fn string_literal_holds_what_is_between_the_quotes() {
    let (tokens, diagnostics) = scan("\"hello world\"");
    assert_eq!(
        tokens,
        vec![
            Token::new(
                TokenType::String,
                "\"hello world\"".to_string(),
                Some(Object::Str("hello world".to_string())),
                1
            ),
            plain(TokenType::Eof, "", 1),
        ]
    );
    assert!(diagnostics.is_empty());
}

#[test]
fn empty_string_literal() {
    let (tokens, _) = scan("\"\"");
    assert_eq!(tokens[0].token_type, TokenType::String);
    assert_eq!(tokens[0].lexeme, "\"\"");
    assert_eq!(tokens[0].literal, Some(Object::Str(String::new())));
}

#[test]
fn string_literal_takes_no_escapes() {
    let (tokens, _) = scan("\"a\\nb\"");
    assert_eq!(tokens[0].literal, Some(Object::Str("a\\nb".to_string())));
    let (tokens, diagnostics) = scan("\"a\\\"b\"");
    assert_eq!(tokens[0].literal, Some(Object::Str("a\\".to_string())));
    assert_eq!(kinds(&tokens), vec![TokenType::String, TokenType::Eof]);
    assert_eq!(
        diagnostics,
        vec![
            Diagnostic { line: 1, message: "Unexpected character.".to_string() },
            Diagnostic { line: 1, message: "Unterminated string.".to_string() },
        ]
    );
}

#[test]
fn multi_line_string() {
    let mut scanner = Scanner::new("\"a\nb\"");
    assert_eq!(scanner.line(), 1);
    let tokens = scanner.scan_tokens();
    assert_eq!(tokens.len(), 2);
    assert_eq!(tokens[0].token_type, TokenType::String);
    assert_eq!(tokens[0].lexeme, "\"a\nb\"");
    assert_eq!(tokens[0].literal, Some(Object::Str("a\nb".to_string())));
    assert_eq!(tokens[0].line, 1);
    assert_eq!(tokens[1], plain(TokenType::Eof, "", 2));
    assert_eq!(scanner.line(), 2);
}

#[test]
fn token_after_a_multi_line_string_is_on_the_later_line() {
    let (tokens, _) = scan("+\n\"a\n\nb\" -");
    assert_eq!(tokens[0], plain(TokenType::Plus, "+", 1));
    assert_eq!(tokens[1].token_type, TokenType::String);
    assert_eq!(tokens[1].line, 2);
    assert_eq!(tokens[2], plain(TokenType::Minus, "-", 4));
    assert_eq!(tokens[3], plain(TokenType::Eof, "", 4));
}

#[test]
fn unterminated_string() {
    let (tokens, diagnostics) = scan("\"abc");
    assert_eq!(tokens.iter().filter(|t| t.token_type == TokenType::String).count(), 0);
    assert_eq!(tokens, vec![plain(TokenType::Eof, "", 1)]);
    assert_eq!(
        diagnostics,
        vec![Diagnostic { line: 1, message: "Unterminated string.".to_string() }]
    );
}

#[test]
fn unterminated_string_is_reported_on_the_line_it_opened_on() {
    let (tokens, diagnostics) = scan("(\n\"abc\ndef\n");
    assert_eq!(
        tokens,
        vec![plain(TokenType::LeftParen, "(", 1), plain(TokenType::Eof, "", 4)]
    );
    assert_eq!(
        diagnostics,
        vec![Diagnostic { line: 2, message: "Unterminated string.".to_string() }]
    );
}

#[test]
fn integer_number() {
    let (tokens, diagnostics) = scan("123");
    assert_eq!(tokens, vec![number("123", 1), plain(TokenType::Eof, "", 1)]);
    assert_eq!(number_value(&tokens[0]), 123.0);
    assert!(diagnostics.is_empty());
}

#[test]
fn number_with_a_fraction() {
    let (tokens, _) = scan("123.45");
    assert_eq!(tokens, vec![number("123.45", 1), plain(TokenType::Eof, "", 1)]);
    assert_eq!(number_value(&tokens[0]), 123.45);
}

#[test]
fn trailing_dot_is_a_token_of_its_own() {
    let (tokens, _) = scan("123.");
    assert_eq!(
        tokens,
        vec![number("123", 1), plain(TokenType::Dot, ".", 1), plain(TokenType::Eof, "", 1)]
    );
    assert_eq!(number_value(&tokens[0]), 123.0);
}

#[test]
fn leading_dot_is_a_token_of_its_own() {
    let (tokens, _) = scan(".5");
    assert_eq!(
        tokens,
        vec![plain(TokenType::Dot, ".", 1), number("5", 1), plain(TokenType::Eof, "", 1)]
    );
}

#[test]
fn second_point_ends_the_number() {
    let (tokens, _) = scan("1.2.3");
    assert_eq!(
        tokens,
        vec![
            number("1.2", 1),
            plain(TokenType::Dot, ".", 1),
            number("3", 1),
            plain(TokenType::Eof, "", 1),
        ]
    );
}

#[test]
fn number_literal_keeps_every_digit() {
    let text = "00123456789012345678901234567890.12345678901234567890";
    let (tokens, _) = scan(text);
    assert_eq!(tokens.len(), 2);
    assert_eq!(tokens[0].lexeme, text);
    match &tokens[0].literal {
        Some(Object::Num(d)) => {
            let whole: String = d.whole_digits().iter().collect();
            let fraction: String = d.fraction_digits().iter().collect();
            assert_eq!(whole, "00123456789012345678901234567890");
            assert_eq!(fraction, "12345678901234567890");
        }
        _ => panic!("no number literal"),
    }
}

#[test]
fn unexpected_character_is_reported_and_skipped() {
    let (tokens, diagnostics) = scan("(@)");
    assert_eq!(
        tokens,
        vec![
            plain(TokenType::LeftParen, "(", 1),
            plain(TokenType::RightParen, ")", 1),
            plain(TokenType::Eof, "", 1),
        ]
    );
    assert_eq!(
        diagnostics,
        vec![Diagnostic { line: 1, message: "Unexpected character.".to_string() }]
    );
}

#[test]
fn each_unexpected_character_is_reported_with_its_line() {
    let (tokens, diagnostics) = scan("a\n#\n\n$ +");
    assert_eq!(tokens, vec![plain(TokenType::Plus, "+", 4), plain(TokenType::Eof, "", 4)]);
    assert_eq!(
        diagnostics,
        vec![
            Diagnostic { line: 1, message: "Unexpected character.".to_string() },
            Diagnostic { line: 2, message: "Unexpected character.".to_string() },
            Diagnostic { line: 4, message: "Unexpected character.".to_string() },
        ]
    );
}

#[test]
fn nul_character_is_an_ordinary_unexpected_character() {
    let (tokens, diagnostics) = scan("1\0.5");
    assert_eq!(
        tokens,
        vec![
            number("1", 1),
            plain(TokenType::Dot, ".", 1),
            number("5", 1),
            plain(TokenType::Eof, "", 1),
        ]
    );
    assert_eq!(diagnostics.len(), 1);
    let (tokens, _) = scan("\"a\0b\"");
    assert_eq!(tokens[0].literal, Some(Object::Str("a\0b".to_string())));
}

#[test]
fn characters_are_counted_by_code_point() {
    let (tokens, diagnostics) = scan("é(\"żółć\")ß;");
    assert_eq!(
        tokens,
        vec![
            plain(TokenType::LeftParen, "(", 1),
            Token::new(
                TokenType::String,
                "\"żółć\"".to_string(),
                Some(Object::Str("żółć".to_string())),
                1
            ),
            plain(TokenType::RightParen, ")", 1),
            plain(TokenType::Semicolon, ";", 1),
            plain(TokenType::Eof, "", 1),
        ]
    );
    assert_eq!(diagnostics.len(), 2);
}

#[test]
fn mixed_source() {
    let (tokens, diagnostics) = scan("(1.5+\"x\")*2 // done\n!= ;");
    assert_eq!(
        tokens,
        vec![
            plain(TokenType::LeftParen, "(", 1),
            number("1.5", 1),
            plain(TokenType::Plus, "+", 1),
            Token::new(
                TokenType::String,
                "\"x\"".to_string(),
                Some(Object::Str("x".to_string())),
                1
            ),
            plain(TokenType::RightParen, ")", 1),
            plain(TokenType::Star, "*", 1),
            number("2", 1),
            plain(TokenType::BangEqual, "!=", 2),
            plain(TokenType::Semicolon, ";", 2),
            plain(TokenType::Eof, "", 2),
        ]
    );
    assert!(diagnostics.is_empty());
}

#[test]
fn only_string_and_number_tokens_carry_a_literal() {
    let (tokens, _) = scan("( 1 \"s\" <= / 2.5 ; .");
    for token in &tokens {
        match token.token_type {
            TokenType::String => assert!(matches!(token.literal, Some(Object::Str(_)))),
            TokenType::Number => assert!(matches!(token.literal, Some(Object::Num(_)))),
            _ => assert_eq!(token.literal, None),
        }
    }
}

#[test]
fn new_scanner_is_at_the_start() {
    let scanner = Scanner::new("( )");
    assert_eq!(scanner.source(), "( )");
    assert_eq!(scanner.line(), 1);
    assert!(scanner.tokens().is_empty());
    assert!(!scanner.lox().had_error());
}

#[test]
fn scanning_again_adds_one_more_end_token() {
    let mut scanner = Scanner::new("+");
    assert_eq!(scanner.scan_tokens().len(), 2);
    let tokens = scanner.scan_tokens();
    assert_eq!(
        kinds(tokens),
        vec![TokenType::Plus, TokenType::Eof, TokenType::Eof]
    );
}

#[test]
fn run_gives_tokens_and_reports() {
    let (tokens, lox) = Lox::run("1 ? 2");
    assert_eq!(tokens, vec![number("1", 1), number("2", 1), plain(TokenType::Eof, "", 1)]);
    assert!(lox.had_error());
    assert_eq!(
        lox.diagnostics(),
        &vec![Diagnostic { line: 1, message: "Unexpected character.".to_string() }]
    );
    let (_, lox) = Lox::run("1 + 2");
    assert!(!lox.had_error());
    assert!(lox.diagnostics().is_empty());
}

#[test]
fn error_keeps_reports_in_order() {
    let mut lox = Lox::new();
    assert!(!lox.had_error());
    lox.error(3, "first".to_string());
    lox.error(1, "second".to_string());
    assert!(lox.had_error());
    assert_eq!(
        lox.diagnostics(),
        &vec![
            Diagnostic { line: 3, message: "first".to_string() },
            Diagnostic { line: 1, message: "second".to_string() },
        ]
    );
}
