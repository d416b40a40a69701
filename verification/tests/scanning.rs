use smp::scanner::{Scanner, ScannerError};
use smp::tokens::Token;

/// All tokens up to the end of input, the way a consumer drains the
/// scanner.
fn drain(mut s: Scanner) -> Vec<Token> {
    let mut actual = Vec::new();
    loop {
        match s.next_token().unwrap() {
            Token::Eof => {
                return actual;
            },
            t => {
                actual.push(t);
            },
        }
    }
}

#[test]
fn lib_one_plus_one() {
    let mut s = Scanner::new(String::from("1+1")).unwrap();
    assert_eq!(s.next_token().unwrap(), Token::Num((1f64).to_bits()));
    assert_eq!(s.next_token().unwrap(), Token::Plus);
    assert_eq!(s.next_token().unwrap(), Token::Num((1f64).to_bits()));
    assert_eq!(s.next_token().unwrap(), Token::Eof);
    assert_eq!(s.next_token().unwrap(), Token::Eof);
}

#[test]
fn lib_decimals() {
    let mut s = Scanner::new(String::from("1.5+1")).unwrap();
    assert_eq!(s.next_token().unwrap(), Token::Num((1.5f64).to_bits()));
    assert_eq!(s.next_token().unwrap(), Token::Plus);
    assert_eq!(s.next_token().unwrap(), Token::Num((1f64).to_bits()));
    assert_eq!(s.next_token().unwrap(), Token::Eof);
}

#[test]
fn scanner_one_plus_one() {
    let mut s = Scanner::new(String::from("1+1")).unwrap();
    assert_eq!(s.next_token().unwrap(), Token::Num((1f64).to_bits()));
    assert_eq!(s.next_token().unwrap(), Token::Plus);
    assert_eq!(s.next_token().unwrap(), Token::Num((1f64).to_bits()));
    assert_eq!(s.next_token().unwrap(), Token::Eof);
    assert_eq!(s.next_token().unwrap(), Token::Eof);
}

#[test]
fn scanner_decimals() {
    let mut s = Scanner::new(String::from("1.5+1")).unwrap();
    assert_eq!(s.next_token().unwrap(), Token::Num((1.5f64).to_bits()));
    assert_eq!(s.next_token().unwrap(), Token::Plus);
    assert_eq!(s.next_token().unwrap(), Token::Num((1f64).to_bits()));
    assert_eq!(s.next_token().unwrap(), Token::Eof);
}

#[test]
fn test_one_plus_one() {
    let mut s = Scanner::new(String::from("1+1")).unwrap();
    assert_eq!(s.next_token().unwrap(), Token::Num((1f64).to_bits()));
    assert_eq!(s.next_token().unwrap(), Token::Plus);
    assert_eq!(s.next_token().unwrap(), Token::Num((1f64).to_bits()));
    assert_eq!(s.next_token().unwrap(), Token::Eof);
    assert_eq!(s.next_token().unwrap(), Token::Eof);
}

#[test]
fn test_decimals() {
    let mut s = Scanner::new(String::from("1.5+1")).unwrap();
    assert_eq!(s.next_token().unwrap(), Token::Num((1.5f64).to_bits()));
    assert_eq!(s.next_token().unwrap(), Token::Plus);
    assert_eq!(s.next_token().unwrap(), Token::Num((1f64).to_bits()));
    assert_eq!(s.next_token().unwrap(), Token::Eof);
}

#[test]
fn arrays() {
    let s = Scanner::new(String::from(
        r#"
        a := [5];
        "#,
    )).unwrap();
    let expected = vec![
        Token::Name(String::from("a")),
        Token::Assign,
        Token::LBracket,
        Token::Num((5f64).to_bits()),
        Token::RBracket,
        Token::SColon,
    ];
    assert_eq!(expected, drain(s));
}

#[test]
fn scanner_scan_program() {
    let s = Scanner::new(String::from(
        r#"
        def main() {
            if (1 + 1) == 2 {
                return 1;
            }
            return 0
        }
        "#,
    )).unwrap();
    let expected = vec![
        Token::Def,
        Token::Name(String::from("main")),
        Token::LParen,
        Token::RParen,
        Token::LCurly,
        Token::If,
        Token::LParen,
        Token::Num((1f64).to_bits()),
        Token::Plus,
        Token::Num((1f64).to_bits()),
        Token::RParen,
        Token::Equals,
        Token::Num((2f64).to_bits()),
        Token::LCurly,
        Token::Return,
        Token::Num((1f64).to_bits()),
        Token::SColon,
        Token::RCurly,
        Token::Return,
        Token::Num((0f64).to_bits()),
        Token::RCurly,
    ];
    assert_eq!(expected, drain(s));
}

#[test]
fn test_scan_program() {
    let s = Scanner::new(String::from(
        r#"
        def main() {
            if (1 + 1) == 2 {
                return 1;
            }
            return 0
        }
        "#,
    )).unwrap();
    let expected = vec![
        Token::Def,
        Token::Name(String::from("main")),
        Token::LParen,
        Token::RParen,
        Token::LCurly,
        Token::If,
        Token::LParen,
        Token::Num((1f64).to_bits()),
        Token::Plus,
        Token::Num((1f64).to_bits()),
        Token::RParen,
        Token::Equals,
        Token::Num((2f64).to_bits()),
        Token::LCurly,
        Token::Return,
        Token::Num((1f64).to_bits()),
        Token::SColon,
        Token::RCurly,
        Token::Return,
        Token::Num((0f64).to_bits()),
        Token::RCurly,
    ];
    assert_eq!(expected, drain(s));
}

#[test]
fn keywords_and_operators() {
    let s = Scanner::new(String::from("while x <= 3 && y >= 4 || !z != w sqrt len round input # end")).unwrap();
    let expected = vec![
        Token::While,
        Token::Name(String::from("x")),
        Token::LessEqual,
        Token::Num((3f64).to_bits()),
        Token::And,
        Token::Name(String::from("y")),
        Token::MoreEqual,
        Token::Num((4f64).to_bits()),
        Token::Or,
        Token::Not,
        Token::Name(String::from("z")),
        Token::NotEqual,
        Token::Name(String::from("w")),
        Token::Sqrt,
        Token::Len,
        Token::Round,
        Token::Input,
    ];
    assert_eq!(expected, drain(s));
}

#[test]
fn invalid_numeral_is_rejected() {
    // two dots make no number: the text is carried in the fault
    match Scanner::new(String::from("1.2.3")) {
        Err(ScannerError::InvalidNumeric(s)) => assert_eq!(s, "1.2.3"),
        other => panic!("expected an invalid-numeral fault, got {:?}", other),
    }
}

#[test]
fn one_dot_numeral_is_accepted() {
    let mut s = Scanner::new(String::from("2.")).unwrap();
    assert_eq!(s.next_token().unwrap(), Token::Num((2f64).to_bits()));
}

#[test]
fn stray_character_is_rejected() {
    match Scanner::new(String::from("@")) {
        Err(ScannerError::UnexpectedToken(s)) => assert_eq!(s, "@"),
        other => panic!("expected an unexpected-token fault, got {:?}", other),
    }
}

#[test]
fn lone_colon_is_rejected() {
    assert!(matches!(
        Scanner::new(String::from(": =")),
        Err(ScannerError::UnexpectedToken(_))
    ));
}
