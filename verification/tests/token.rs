use lox::decimal::Decimal;
use lox::token::{Object, Token, TokenType};

#[test]
fn token_new_keeps_its_parts() {
    let token = Token::new(TokenType::Minus, "-".to_string(), None, 7);
    assert_eq!(token.token_type, TokenType::Minus);
    assert_eq!(token.lexeme, "-");
    assert_eq!(token.literal, None);
    assert_eq!(token.line, 7);
}

#[test]
fn token_to_string_shows_kind_lexeme_and_literal() {
    let plain = Token::new(TokenType::LeftParen, "(".to_string(), None, 1);
    assert_eq!(plain.to_string(), "LeftParen ( nil");
    let string = Token::new(
        TokenType::String,
        "\"hi\"".to_string(),
        Some(Object::Str("hi".to_string())),
        1,
    );
    assert_eq!(string.to_string(), "String \"hi\" hi");
    let number = Token::new(
        TokenType::Number,
        "1.50".to_string(),
        Some(Object::Num(Decimal::parse("1.50").unwrap())),
        1,
    );
    assert_eq!(number.to_string(), "Number 1.50 1.5");
    let end = Token::new(TokenType::Eof, String::new(), None, 3);
    assert_eq!(end.to_string(), "Eof  nil");
}

#[test]
fn token_clone_is_equal() {
    let token = Token::new(
        TokenType::Number,
        "2.5".to_string(),
        Some(Object::Num(Decimal::parse("2.5").unwrap())),
        4,
    );
    assert_eq!(token.clone(), token);
    let token = Token::new(
        TokenType::String,
        "\"s\"".to_string(),
        Some(Object::Str("s".to_string())),
        4,
    );
    assert_eq!(token.clone(), token);
}

#[test]
fn kind_names() {
    let kinds = [
        (TokenType::LeftParen, "LeftParen"),
        (TokenType::RightParen, "RightParen"),
        (TokenType::LeftBrace, "LeftBrace"),
        (TokenType::RightBrace, "RightBrace"),
        (TokenType::Comma, "Comma"),
        (TokenType::Dot, "Dot"),
        (TokenType::Minus, "Minus"),
        (TokenType::Plus, "Plus"),
        (TokenType::Semicolon, "Semicolon"),
        (TokenType::Slash, "Slash"),
        (TokenType::Star, "Star"),
        (TokenType::Bang, "Bang"),
        (TokenType::BangEqual, "BangEqual"),
        (TokenType::Equal, "Equal"),
        (TokenType::EqualEqual, "EqualEqual"),
        (TokenType::Greater, "Greater"),
        (TokenType::GreaterEqual, "GreaterEqual"),
        (TokenType::Less, "Less"),
        (TokenType::LessEqual, "LessEqual"),
        (TokenType::String, "String"),
        (TokenType::Number, "Number"),
        (TokenType::Eof, "Eof"),
    ];
    for (kind, name) in kinds {
        assert_eq!(kind.name(), name);
    }
}

#[test]
fn object_to_string() {
    assert_eq!(Object::Str("as is".to_string()).to_string(), "as is");
    assert_eq!(Object::Num(Decimal::parse("10.010").unwrap()).to_string(), "10.01");
    assert_eq!(Object::Nil.to_string(), "nil");
    let mut out = String::from("> ");
    Object::Str("x".to_string()).write_to(&mut out);
    Object::Nil.write_to(&mut out);
    assert_eq!(out, "> xnil");
}

#[test]
fn decimal_parse_accepts_numerals_only() {
    for text in ["0", "7", "123", "123.45", "0.5", "000", "1.0", "00.00"] {
        assert!(Decimal::parse(text).is_some(), "{}", text);
    }
    for text in ["", ".", "1.", ".5", "1.2.3", "1..2", "-1", "+1", "1e5", "1 ", " 1", "a", "1a", "1.a", "١"] {
        assert!(Decimal::parse(text).is_none(), "{:?}", text);
    }
}

#[test]
fn decimal_keeps_its_digits() {
    let d = Decimal::parse("0123.4500").unwrap();
    assert_eq!(d.whole_digits(), &vec!['0', '1', '2', '3']);
    assert_eq!(d.fraction_digits(), &vec!['4', '5', '0', '0']);
    let d = Decimal::parse("42").unwrap();
    assert_eq!(d.whole_digits(), &vec!['4', '2']);
    assert!(d.fraction_digits().is_empty());
}

#[test]
fn decimal_to_string_is_the_shortest_spelling() {
    let cases = [
        ("0", "0"),
        ("000", "0"),
        ("007", "7"),
        ("7", "7"),
        ("123", "123"),
        ("123.0", "123"),
        ("123.000", "123"),
        ("123.45", "123.45"),
        ("123.4500", "123.45"),
        ("0.5", "0.5"),
        ("00.50", "0.5"),
        ("0.05", "0.05"),
        ("100", "100"),
        ("100.001", "100.001"),
        ("0.0", "0"),
    ];
    for (text, shown) in cases {
        assert_eq!(Decimal::parse(text).unwrap().to_string(), shown);
    }
}

#[test]
fn decimal_to_string_reads_back_as_the_same_number() {
    for text in ["0", "007", "123.0", "123.45", "0.50", "3.14159", "1000000"] {
        let d = Decimal::parse(text).unwrap();
        let shown = d.to_string();
        assert_eq!(shown.parse::<f64>().unwrap(), text.parse::<f64>().unwrap());
        assert_eq!(Decimal::parse(&shown).unwrap().to_string(), shown);
    }
}

#[test]
fn decimal_from_chars_reads_a_range() {
    let chars: Vec<char> = "x12.5y".chars().collect();
    assert_eq!(Decimal::from_chars(&chars, 1, 5), Decimal::parse("12.5"));
    assert_eq!(Decimal::from_chars(&chars, 1, 3), Decimal::parse("12"));
    assert_eq!(Decimal::from_chars(&chars, 1, 4), None);
    assert_eq!(Decimal::from_chars(&chars, 0, 3), None);
    assert_eq!(Decimal::from_chars(&chars, 2, 2), None);
    assert_eq!(Decimal::from_chars(&chars, 1, 5).unwrap().clone(), Decimal::parse("12.5").unwrap());
}

#[test]
fn text_helpers_copy_characters_in_order() {
    let chars = lox::text::collect_chars("héllo");
    assert_eq!(chars, vec!['h', 'é', 'l', 'l', 'o']);
    assert_eq!(lox::text::substring(&chars, 1, 4), "éll");
    assert_eq!(lox::text::substring(&chars, 2, 2), "");
    let mut out = String::from("[");
    lox::text::push_range(&mut out, &chars, 0, 2);
    assert_eq!(out, "[hé");
}
