//! The token vocabulary shared by the lexer and the parser.
//!
//! `TOKEN` is the executable type; `TokenV` is its mathematical view, with
//! `Seq<char>` payloads and unbounded integers.  The parser compares tokens
//! by kind only (`is_same_with`), ignoring payloads.

use vstd::prelude::*;

use crate::ast::{Identifier, Number};
use crate::strutil::{char_to_string, int_to_string, spec_int_str};

verus! {

/// Mathematical view of a token.
pub enum TokenV {
    EOF,
    ILLEGAL(char),
    IDENT(Seq<char>),
    NUMBER(int),
    STRING(Seq<char>),
    ASSIGN,
    PLUS,
    MINUS,
    BANG,
    ASTERISK,
    SLASH,
    GT,
    LT,
    EQ,
    NotEQ,
    COMMA,
    SEMICOLON,
    LPAREN,
    RPAREN,
    LBRACE,
    RBRACE,
    LBRACKET,
    RBRACKET,
    FUNCTION,
    LET,
    TRUE,
    FALSE,
    IF,
    ELSE,
    RETURN,
}

#[derive(Debug, PartialEq, Clone)]
pub enum TOKEN {
    EOF,
    ILLEGAL(char),

    // Identifiers + literals
    IDENT(Identifier),
    NUMBER(Number),
    STRING(String),

    // Operators
    ASSIGN,
    PLUS,
    MINUS,
    BANG,
    ASTERISK,
    SLASH,

    GT,
    LT,
    EQ,
    NotEQ,

    // Delimiters
    COMMA,
    SEMICOLON,
    LPAREN,
    RPAREN,
    LBRACE,
    RBRACE,
    LBRACKET,
    RBRACKET,

    // Keywords
    FUNCTION,
    LET,
    TRUE,
    FALSE,
    IF,
    ELSE,
    RETURN,
}

impl View for TOKEN {
    type V = TokenV;

    open spec fn view(&self) -> TokenV {
        match self {
            TOKEN::EOF => TokenV::EOF,
            TOKEN::ILLEGAL(c) => TokenV::ILLEGAL(*c),
            TOKEN::IDENT(id) => TokenV::IDENT(id.0@),
            TOKEN::NUMBER(n) => TokenV::NUMBER(*n as int),
            TOKEN::STRING(s) => TokenV::STRING(s@),
            TOKEN::ASSIGN => TokenV::ASSIGN,
            TOKEN::PLUS => TokenV::PLUS,
            TOKEN::MINUS => TokenV::MINUS,
            TOKEN::BANG => TokenV::BANG,
            TOKEN::ASTERISK => TokenV::ASTERISK,
            TOKEN::SLASH => TokenV::SLASH,
            TOKEN::GT => TokenV::GT,
            TOKEN::LT => TokenV::LT,
            TOKEN::EQ => TokenV::EQ,
            TOKEN::NotEQ => TokenV::NotEQ,
            TOKEN::COMMA => TokenV::COMMA,
            TOKEN::SEMICOLON => TokenV::SEMICOLON,
            TOKEN::LPAREN => TokenV::LPAREN,
            TOKEN::RPAREN => TokenV::RPAREN,
            TOKEN::LBRACE => TokenV::LBRACE,
            TOKEN::RBRACE => TokenV::RBRACE,
            TOKEN::LBRACKET => TokenV::LBRACKET,
            TOKEN::RBRACKET => TokenV::RBRACKET,
            TOKEN::FUNCTION => TokenV::FUNCTION,
            TOKEN::LET => TokenV::LET,
            TOKEN::TRUE => TokenV::TRUE,
            TOKEN::FALSE => TokenV::FALSE,
            TOKEN::IF => TokenV::IF,
            TOKEN::ELSE => TokenV::ELSE,
            TOKEN::RETURN => TokenV::RETURN,
        }
    }
}

/// A number identifying the variant of a token, ignoring its payload.
pub open spec fn token_kind(t: TokenV) -> int {
    match t {
        TokenV::EOF => 0,
        TokenV::ILLEGAL(_) => 1,
        TokenV::IDENT(_) => 2,
        TokenV::NUMBER(_) => 3,
        TokenV::STRING(_) => 4,
        TokenV::ASSIGN => 5,
        TokenV::PLUS => 6,
        TokenV::MINUS => 7,
        TokenV::BANG => 8,
        TokenV::ASTERISK => 9,
        TokenV::SLASH => 10,
        TokenV::GT => 11,
        TokenV::LT => 12,
        TokenV::EQ => 13,
        TokenV::NotEQ => 14,
        TokenV::COMMA => 15,
        TokenV::SEMICOLON => 16,
        TokenV::LPAREN => 17,
        TokenV::RPAREN => 18,
        TokenV::LBRACE => 19,
        TokenV::RBRACE => 20,
        TokenV::LBRACKET => 21,
        TokenV::RBRACKET => 22,
        TokenV::FUNCTION => 23,
        TokenV::LET => 24,
        TokenV::TRUE => 25,
        TokenV::FALSE => 26,
        TokenV::IF => 27,
        TokenV::ELSE => 28,
        TokenV::RETURN => 29,
    }
}

/// Two tokens are kind-equal when they are the same variant, whatever the
/// payloads.
pub open spec fn same_kind(a: TokenV, b: TokenV) -> bool {
    token_kind(a) == token_kind(b)
}

/// The literal text a token stands for: the payload for identifier, number
/// and string tokens, and the fixed source spelling otherwise.
pub open spec fn spec_token_literal(t: TokenV) -> Seq<char> {
    match t {
        TokenV::ASSIGN => "="@,
        TokenV::PLUS => "+"@,
        TokenV::MINUS => "-"@,
        TokenV::BANG => "!"@,
        TokenV::ASTERISK => "*"@,
        TokenV::SLASH => "/"@,
        TokenV::GT => ">"@,
        TokenV::LT => "<"@,
        TokenV::EQ => "=="@,
        TokenV::NotEQ => "!="@,
        TokenV::COMMA => ","@,
        TokenV::SEMICOLON => ";"@,
        TokenV::LPAREN => "("@,
        TokenV::RPAREN => ")"@,
        TokenV::LBRACE => "{"@,
        TokenV::RBRACE => "}"@,
        TokenV::LBRACKET => "["@,
        TokenV::RBRACKET => "]"@,
        TokenV::EOF => "EOF"@,
        TokenV::LET => "LET"@,
        TokenV::RETURN => "RETURN"@,
        TokenV::TRUE => "true"@,
        TokenV::FALSE => "false"@,
        TokenV::ELSE => "else"@,
        TokenV::IF => "if"@,
        TokenV::FUNCTION => "fn"@,
        TokenV::ILLEGAL(c) => seq![c],
        TokenV::IDENT(s) => s,
        TokenV::NUMBER(n) => spec_int_str(n),
        TokenV::STRING(s) => s,
    }
}

/// The name of a token's kind, used to describe tokens in messages.
pub open spec fn spec_token_type_name(t: TokenV) -> Seq<char> {
    match t {
        TokenV::IDENT(_) => "IDENT"@,
        TokenV::NUMBER(_) => "NUMBER"@,
        TokenV::STRING(_) => "STRING"@,
        TokenV::ILLEGAL(_) => "ILLEGAL"@,
        _ => spec_token_literal(t),
    }
}

/// The keyword table: the token a reserved word lexes to, if the name is
/// reserved.
pub open spec fn spec_keyword(name: Seq<char>) -> Option<TokenV> {
    if name == "fn"@ {
        Some(TokenV::FUNCTION)
    } else if name == "let"@ {
        Some(TokenV::LET)
    } else if name == "true"@ {
        Some(TokenV::TRUE)
    } else if name == "false"@ {
        Some(TokenV::FALSE)
    } else if name == "if"@ {
        Some(TokenV::IF)
    } else if name == "else"@ {
        Some(TokenV::ELSE)
    } else if name == "return"@ {
        Some(TokenV::RETURN)
    } else {
        None
    }
}

/// Looks a collected identifier up in the keyword table.
pub fn lookup_keyword(name: &String) -> (r: Option<TOKEN>)
    ensures
        r is Some <==> spec_keyword(name@) is Some,
        r matches Some(t) ==> t@ == spec_keyword(name@).unwrap(),
{
    if *name == String::from_str("fn") {
        Some(TOKEN::FUNCTION)
    } else if *name == String::from_str("let") {
        Some(TOKEN::LET)
    } else if *name == String::from_str("true") {
        Some(TOKEN::TRUE)
    } else if *name == String::from_str("false") {
        Some(TOKEN::FALSE)
    } else if *name == String::from_str("if") {
        Some(TOKEN::IF)
    } else if *name == String::from_str("else") {
        Some(TOKEN::ELSE)
    } else if *name == String::from_str("return") {
        Some(TOKEN::RETURN)
    } else {
        None
    }
}

/// The view of a token list, element by element.
pub open spec fn tokens_view(ts: Seq<TOKEN>) -> Seq<TokenV>
    decreases ts,
{
    if ts.len() == 0 {
        Seq::empty()
    } else {
        tokens_view(ts.drop_last()).push(ts.last()@)
    }
}

/// A token list's view has the list's length.
pub proof fn lemma_tokens_view_len(ts: Seq<TOKEN>)
    ensures
        tokens_view(ts).len() == ts.len(),
        forall|i: int| 0 <= i < ts.len() ==> tokens_view(ts)[i] == #[trigger] ts[i]@,
    decreases ts,
{
    if ts.len() > 0 {
        lemma_tokens_view_len(ts.drop_last());
        assert forall|i: int| 0 <= i < ts.len() implies tokens_view(ts)[i] == #[trigger] ts[i]@ by {
            if i < ts.len() - 1 {
                assert(ts.drop_last()[i] == ts[i]);
                assert(tokens_view(ts)[i] == tokens_view(ts.drop_last())[i]);
            } else {
                assert(ts[i] == ts.last());
            }
        }
    }
}

/// Pushing a token appends its view to the list's view.
pub proof fn lemma_tokens_view_push(ts: Seq<TOKEN>, t: TOKEN)
    ensures
        tokens_view(ts.push(t)) == tokens_view(ts).push(t@),
{
    assert(ts.push(t).drop_last() =~= ts);
    assert(ts.push(t).last() == t);
}

/// A copy of a token, with the same view.
pub fn clone_token(t: &TOKEN) -> (r: TOKEN)
    ensures
        r@ == t@,
{
    match t {
        TOKEN::EOF => TOKEN::EOF,
        TOKEN::ILLEGAL(c) => TOKEN::ILLEGAL(*c),
        TOKEN::IDENT(id) => TOKEN::IDENT(Identifier(id.0.clone())),
        TOKEN::NUMBER(n) => TOKEN::NUMBER(*n),
        TOKEN::STRING(s) => TOKEN::STRING(s.clone()),
        TOKEN::ASSIGN => TOKEN::ASSIGN,
        TOKEN::PLUS => TOKEN::PLUS,
        TOKEN::MINUS => TOKEN::MINUS,
        TOKEN::BANG => TOKEN::BANG,
        TOKEN::ASTERISK => TOKEN::ASTERISK,
        TOKEN::SLASH => TOKEN::SLASH,
        TOKEN::GT => TOKEN::GT,
        TOKEN::LT => TOKEN::LT,
        TOKEN::EQ => TOKEN::EQ,
        TOKEN::NotEQ => TOKEN::NotEQ,
        TOKEN::COMMA => TOKEN::COMMA,
        TOKEN::SEMICOLON => TOKEN::SEMICOLON,
        TOKEN::LPAREN => TOKEN::LPAREN,
        TOKEN::RPAREN => TOKEN::RPAREN,
        TOKEN::LBRACE => TOKEN::LBRACE,
        TOKEN::RBRACE => TOKEN::RBRACE,
        TOKEN::LBRACKET => TOKEN::LBRACKET,
        TOKEN::RBRACKET => TOKEN::RBRACKET,
        TOKEN::FUNCTION => TOKEN::FUNCTION,
        TOKEN::LET => TOKEN::LET,
        TOKEN::TRUE => TOKEN::TRUE,
        TOKEN::FALSE => TOKEN::FALSE,
        TOKEN::IF => TOKEN::IF,
        TOKEN::ELSE => TOKEN::ELSE,
        TOKEN::RETURN => TOKEN::RETURN,
    }
}

impl TOKEN {
    /// The literal text this token stands for.
    pub fn literal(&self) -> (r: String)
        ensures
            r@ == spec_token_literal(self@),
    {
        match self {
            TOKEN::ASSIGN => String::from_str("="),
            TOKEN::PLUS => String::from_str("+"),
            TOKEN::MINUS => String::from_str("-"),
            TOKEN::BANG => String::from_str("!"),
            TOKEN::ASTERISK => String::from_str("*"),
            TOKEN::SLASH => String::from_str("/"),
            TOKEN::GT => String::from_str(">"),
            TOKEN::LT => String::from_str("<"),
            TOKEN::EQ => String::from_str("=="),
            TOKEN::NotEQ => String::from_str("!="),
            TOKEN::COMMA => String::from_str(","),
            TOKEN::SEMICOLON => String::from_str(";"),
            TOKEN::LPAREN => String::from_str("("),
            TOKEN::RPAREN => String::from_str(")"),
            TOKEN::LBRACE => String::from_str("{"),
            TOKEN::RBRACE => String::from_str("}"),
            TOKEN::LBRACKET => String::from_str("["),
            TOKEN::RBRACKET => String::from_str("]"),
            TOKEN::EOF => String::from_str("EOF"),
            TOKEN::LET => String::from_str("LET"),
            TOKEN::RETURN => String::from_str("RETURN"),
            TOKEN::TRUE => String::from_str("true"),
            TOKEN::FALSE => String::from_str("false"),
            TOKEN::ELSE => String::from_str("else"),
            TOKEN::IF => String::from_str("if"),
            TOKEN::FUNCTION => String::from_str("fn"),
            TOKEN::ILLEGAL(c) => char_to_string(*c),
            TOKEN::IDENT(s) => s.0.clone(),
            TOKEN::NUMBER(n) => int_to_string(*n),
            TOKEN::STRING(s) => s.clone(),
        }
    }

    /// The name of this token's kind.
    pub fn to_type_name(&self) -> (r: String)
        ensures
            r@ == spec_token_type_name(self@),
    {
        match self {
            TOKEN::IDENT(_) => String::from_str("IDENT"),
            TOKEN::NUMBER(_) => String::from_str("NUMBER"),
            TOKEN::STRING(_) => String::from_str("STRING"),
            TOKEN::ILLEGAL(_) => String::from_str("ILLEGAL"),
            _ => self.literal(),
        }
    }

    /// Whether two tokens are the same variant, ignoring the payloads.
    pub fn is_same_with(&self, token: TOKEN) -> (r: bool)
        ensures
            r == same_kind(self@, token@),
    {
        self.kind_code() == token.kind_code()
    }

    /// The variant of this token as a number, matching `token_kind`.
    pub fn kind_code(&self) -> (r: u32)
        ensures
            r as int == token_kind(self@),
    {
        match self {
            TOKEN::EOF => 0,
            TOKEN::ILLEGAL(_) => 1,
            TOKEN::IDENT(_) => 2,
            TOKEN::NUMBER(_) => 3,
            TOKEN::STRING(_) => 4,
            TOKEN::ASSIGN => 5,
            TOKEN::PLUS => 6,
            TOKEN::MINUS => 7,
            TOKEN::BANG => 8,
            TOKEN::ASTERISK => 9,
            TOKEN::SLASH => 10,
            TOKEN::GT => 11,
            TOKEN::LT => 12,
            TOKEN::EQ => 13,
            TOKEN::NotEQ => 14,
            TOKEN::COMMA => 15,
            TOKEN::SEMICOLON => 16,
            TOKEN::LPAREN => 17,
            TOKEN::RPAREN => 18,
            TOKEN::LBRACE => 19,
            TOKEN::RBRACE => 20,
            TOKEN::LBRACKET => 21,
            TOKEN::RBRACKET => 22,
            TOKEN::FUNCTION => 23,
            TOKEN::LET => 24,
            TOKEN::TRUE => 25,
            TOKEN::FALSE => 26,
            TOKEN::IF => 27,
            TOKEN::ELSE => 28,
            TOKEN::RETURN => 29,
        }
    }
}

} // verus!
