use monkey::ast::Identifier;
use monkey::lexer::Lexer;
use monkey::token::TOKEN;

#[test]
fn test() {
    let input = r#"
          let five = 5;
          let ten = 10;
          let add = fn(x, y) {
            x + y;
          };
          let result = add(five, ten);
          !-/*6;
          7 < 10 > 8;

          if (9 < 11) {
            return true;
          } else {
            return false;
          }

          13 == 13;
          14 != 5;
          "foobar"
          "foo bar"
          "far \" boo"
          [1, 2]
        "#;

    let tokens = vec![
        TOKEN::LET,
        TOKEN::IDENT(Identifier("five".to_string())),
        TOKEN::ASSIGN,
        TOKEN::NUMBER(5),
        TOKEN::SEMICOLON,
        TOKEN::LET,
        TOKEN::IDENT(Identifier("ten".to_string())),
        TOKEN::ASSIGN,
        TOKEN::NUMBER(10),
        TOKEN::SEMICOLON,
        TOKEN::LET,
        TOKEN::IDENT(Identifier("add".to_string())),
        TOKEN::ASSIGN,
        TOKEN::FUNCTION,
        TOKEN::LPAREN,
        TOKEN::IDENT(Identifier("x".to_string())),
        TOKEN::COMMA,
        TOKEN::IDENT(Identifier("y".to_string())),
        TOKEN::RPAREN,
        TOKEN::LBRACE,
        TOKEN::IDENT(Identifier("x".to_string())),
        TOKEN::PLUS,
        TOKEN::IDENT(Identifier("y".to_string())),
        TOKEN::SEMICOLON,
        TOKEN::RBRACE,
        TOKEN::SEMICOLON,
        TOKEN::LET,
        TOKEN::IDENT(Identifier("result".to_string())),
        TOKEN::ASSIGN,
        TOKEN::IDENT(Identifier("add".to_string())),
        TOKEN::LPAREN,
        TOKEN::IDENT(Identifier("five".to_string())),
        TOKEN::COMMA,
        TOKEN::IDENT(Identifier("ten".to_string())),
        TOKEN::RPAREN,
        TOKEN::SEMICOLON,
        TOKEN::BANG,
        TOKEN::MINUS,
        TOKEN::SLASH,
        TOKEN::ASTERISK,
        TOKEN::NUMBER(6),
        TOKEN::SEMICOLON,
        TOKEN::NUMBER(7),
        TOKEN::LT,
        TOKEN::NUMBER(10),
        TOKEN::GT,
        TOKEN::NUMBER(8),
        TOKEN::SEMICOLON,
        TOKEN::IF,
        TOKEN::LPAREN,
        TOKEN::NUMBER(9),
        TOKEN::LT,
        TOKEN::NUMBER(11),
        TOKEN::RPAREN,
        TOKEN::LBRACE,
        TOKEN::RETURN,
        TOKEN::TRUE,
        TOKEN::SEMICOLON,
        TOKEN::RBRACE,
        TOKEN::ELSE,
        TOKEN::LBRACE,
        TOKEN::RETURN,
        TOKEN::FALSE,
        TOKEN::SEMICOLON,
        TOKEN::RBRACE,
        TOKEN::NUMBER(13),
        TOKEN::EQ,
        TOKEN::NUMBER(13),
        TOKEN::SEMICOLON,
        TOKEN::NUMBER(14),
        TOKEN::NotEQ,
        TOKEN::NUMBER(5),
        TOKEN::SEMICOLON,
        TOKEN::STRING("foobar".to_string()),
        TOKEN::STRING("foo bar".to_string()),
        TOKEN::STRING("far \" boo".to_string()),
        TOKEN::LBRACKET,
        TOKEN::NUMBER(1),
        TOKEN::COMMA,
        TOKEN::NUMBER(2),
        TOKEN::RBRACKET,
        TOKEN::EOF,
    ];
    let mut l = Lexer::new(input);

    for token in tokens.iter() {
        assert_eq!(l.next_token(), *token);
    }
}

#[test]
fn lexer_eof_is_stable() {
    let mut l = Lexer::new("let x");
    let mut tokens = Vec::new();
    for _ in 0..8 {
        tokens.push(l.next_token());
    }
    assert_eq!(tokens[0], TOKEN::LET);
    assert_eq!(tokens[1], TOKEN::IDENT(Identifier("x".to_string())));
    for t in tokens.iter().skip(2) {
        assert_eq!(*t, TOKEN::EOF);
    }
}

#[test]
fn lexer_keywords_never_ident() {
    let mut l = Lexer::new("fn let true false if else return returned");
    assert_eq!(l.next_token(), TOKEN::FUNCTION);
    assert_eq!(l.next_token(), TOKEN::LET);
    assert_eq!(l.next_token(), TOKEN::TRUE);
    assert_eq!(l.next_token(), TOKEN::FALSE);
    assert_eq!(l.next_token(), TOKEN::IF);
    assert_eq!(l.next_token(), TOKEN::ELSE);
    assert_eq!(l.next_token(), TOKEN::RETURN);
    assert_eq!(
        l.next_token(),
        TOKEN::IDENT(Identifier("returned".to_string()))
    );
    assert_eq!(l.next_token(), TOKEN::EOF);
}

#[test]
fn lexer_two_char_operators() {
    let mut l = Lexer::new("= == != ! =");
    assert_eq!(l.next_token(), TOKEN::ASSIGN);
    assert_eq!(l.next_token(), TOKEN::EQ);
    assert_eq!(l.next_token(), TOKEN::NotEQ);
    assert_eq!(l.next_token(), TOKEN::BANG);
    assert_eq!(l.next_token(), TOKEN::ASSIGN);
    assert_eq!(l.next_token(), TOKEN::EOF);
}

#[test]
fn lexer_number_overflow_is_illegal() {
    let mut l = Lexer::new("9223372036854775807 9223372036854775808");
    assert_eq!(l.next_token(), TOKEN::NUMBER(9223372036854775807));
    assert_eq!(l.next_token(), TOKEN::ILLEGAL('9'));
    assert_eq!(l.next_token(), TOKEN::EOF);
}

#[test]
fn lexer_unterminated_string_is_illegal() {
    let mut l = Lexer::new("\"abc");
    assert_eq!(l.next_token(), TOKEN::ILLEGAL('"'));
    assert_eq!(l.next_token(), TOKEN::EOF);
}

#[test]
fn token_literals() {
    assert_eq!(TOKEN::NUMBER(42).literal(), "42");
    assert_eq!(TOKEN::NUMBER(-7).literal(), "-7");
    assert_eq!(TOKEN::NUMBER(0).literal(), "0");
    assert_eq!(
        TOKEN::NUMBER(-9223372036854775808).literal(),
        "-9223372036854775808"
    );
    assert_eq!(TOKEN::EQ.literal(), "==");
    assert_eq!(TOKEN::ILLEGAL('?').literal(), "?");
    assert_eq!(TOKEN::IDENT(Identifier("abc".to_string())).to_type_name(), "IDENT");
    assert!(TOKEN::NUMBER(1).is_same_with(TOKEN::NUMBER(2)));
    assert!(!TOKEN::NUMBER(1).is_same_with(TOKEN::EOF));
}

#[test]
fn lexer_unicode_letters() {
    let mut l = Lexer::new("caf\u{e9} if\u{e9}");
    assert_eq!(
        l.next_token(),
        TOKEN::IDENT(Identifier("caf\u{e9}".to_string()))
    );
    assert_eq!(
        l.next_token(),
        TOKEN::IDENT(Identifier("if\u{e9}".to_string()))
    );
    assert_eq!(l.next_token(), TOKEN::EOF);
}
