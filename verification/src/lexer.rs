//! The lexer: source text to tokens, one token per call.
//!
//! The behaviour is fixed by the functional model `spec_next_token` over a
//! character sequence and a position; `Lexer::next_token` is proved to
//! return exactly the model's token and to leave the position exactly where
//! the model says.  The model never gets stuck: on a number too large for
//! the language's integers or an unterminated string literal it yields an
//! `ILLEGAL` token, and at the end of input (or on an embedded NUL byte) it
//! yields `EOF` for ever after.

use vstd::prelude::*;

use crate::ast::Identifier;
use crate::strutil::chars_to_string;
use crate::strutil::{is_alphabetic_char, spec_is_alphabetic};
use crate::strutil::str_to_chars;
use crate::token::{TOKEN, TokenV, lookup_keyword, spec_keyword};

verus! {

/// The character at a position, with NUL standing for "outside the input".
pub open spec fn char_at(s: Seq<char>, i: int) -> char {
    if 0 <= i < s.len() {
        s[i]
    } else {
        '\0'
    }
}

/// The whitespace characters the lexer skips.
pub open spec fn spec_is_ws(c: char) -> bool {
    c == ' ' || c == '\t' || c == '\n' || c == '\r'
}

/// Identifier characters: letters and the underscore.
pub open spec fn spec_is_letter(c: char) -> bool {
    spec_is_alphabetic(c) || c == '_'
}

/// Decimal digit characters.
pub open spec fn spec_is_digit(c: char) -> bool {
    '0' <= c && c <= '9'
}

/// The numeric value of a decimal digit character.
pub open spec fn spec_digit_val(c: char) -> int {
    c as u32 - 48
}

/// The first position at or after `i` holding a non-whitespace character.
pub open spec fn spec_skip_ws(s: Seq<char>, i: int) -> int
    decreases s.len() - i,
{
    if i < s.len() && 0 <= i && spec_is_ws(s[i]) {
        spec_skip_ws(s, i + 1)
    } else {
        i
    }
}

/// The end of the run of identifier characters starting at `i`.
pub open spec fn letters_end(s: Seq<char>, i: int) -> int
    decreases s.len() - i,
{
    if i < s.len() && 0 <= i && spec_is_letter(s[i]) {
        letters_end(s, i + 1)
    } else {
        i
    }
}

/// The end of the run of digit characters starting at `i`.
pub open spec fn digits_end(s: Seq<char>, i: int) -> int
    decreases s.len() - i,
{
    if i < s.len() && 0 <= i && spec_is_digit(s[i]) {
        digits_end(s, i + 1)
    } else {
        i
    }
}

/// The value of the digit run `s[i..j)`, read as a decimal number.
pub open spec fn digits_val(s: Seq<char>, i: int, j: int) -> int
    decreases j - i,
{
    if i >= j {
        0
    } else {
        digits_val(s, i, j - 1) * 10 + spec_digit_val(s[j - 1])
    }
}

/// The position of the closing quote of a string literal whose body starts
/// at `i`, or -1 when the input ends first.  A backslash escapes the
/// character after it.
pub open spec fn str_end(s: Seq<char>, i: int) -> int
    decreases s.len() - i,
{
    if i < 0 || i >= s.len() {
        -1
    } else if s[i] == '"' {
        i
    } else if s[i] == '\\' {
        if i + 1 >= s.len() {
            -1
        } else {
            str_end(s, i + 2)
        }
    } else {
        str_end(s, i + 1)
    }
}

/// The characters of the string literal body `s[i..j)`, with each
/// backslash dropped and the character after it kept verbatim.
pub open spec fn str_content(s: Seq<char>, i: int, j: int) -> Seq<char>
    decreases j - i,
{
    if i < 0 || i >= j || j > s.len() {
        Seq::empty()
    } else if s[i] == '\\' && i + 1 < j {
        seq![s[i + 1]] + str_content(s, i + 2, j)
    } else {
        seq![s[i]] + str_content(s, i + 1, j)
    }
}

/// The token beginning at position `pos` (after skipping whitespace) and
/// the position just after it.  This is the lexer's whole contract.
pub open spec fn spec_next_token(s: Seq<char>, pos: int) -> (TokenV, int) {
    let i = spec_skip_ws(s, pos);
    if i >= s.len() || i < 0 {
        (TokenV::EOF, i)
    } else {
        let c = s[i];
        let p = char_at(s, i + 1);
        if c == '=' && p == '=' {
            (TokenV::EQ, i + 2)
        } else if c == '=' {
            (TokenV::ASSIGN, i + 1)
        } else if c == '!' && p == '=' {
            (TokenV::NotEQ, i + 2)
        } else if c == '!' {
            (TokenV::BANG, i + 1)
        } else if c == '+' {
            (TokenV::PLUS, i + 1)
        } else if c == '-' {
            (TokenV::MINUS, i + 1)
        } else if c == '*' {
            (TokenV::ASTERISK, i + 1)
        } else if c == '/' {
            (TokenV::SLASH, i + 1)
        } else if c == '>' {
            (TokenV::GT, i + 1)
        } else if c == '<' {
            (TokenV::LT, i + 1)
        } else if c == ',' {
            (TokenV::COMMA, i + 1)
        } else if c == ';' {
            (TokenV::SEMICOLON, i + 1)
        } else if c == '(' {
            (TokenV::LPAREN, i + 1)
        } else if c == ')' {
            (TokenV::RPAREN, i + 1)
        } else if c == '{' {
            (TokenV::LBRACE, i + 1)
        } else if c == '}' {
            (TokenV::RBRACE, i + 1)
        } else if c == '[' {
            (TokenV::LBRACKET, i + 1)
        } else if c == ']' {
            (TokenV::RBRACKET, i + 1)
        } else if c == '"' {
            let e = str_end(s, i + 1);
            if e < 0 {
                (TokenV::ILLEGAL('"'), s.len() as int)
            } else {
                (TokenV::STRING(str_content(s, i + 1, e)), e + 1)
            }
        } else if spec_is_letter(c) {
            let j = letters_end(s, i);
            let name = s.subrange(i, j);
            match spec_keyword(name) {
                Some(k) => (k, j),
                None => (TokenV::IDENT(name), j),
            }
        } else if spec_is_digit(c) {
            let j = digits_end(s, i);
            let v = digits_val(s, i, j);
            if v <= i64::MAX {
                (TokenV::NUMBER(v), j)
            } else {
                (TokenV::ILLEGAL(c), j)
            }
        } else if c == '\0' {
            (TokenV::EOF, i)
        } else {
            (TokenV::ILLEGAL(c), i + 1)
        }
    }
}

/// The whole token stream of the input from a position: every token that
/// repeated `next_token` calls produce, up to and including the first
/// `EOF`.
pub open spec fn spec_token_stream(s: Seq<char>, pos: int) -> Seq<TokenV>
    decreases (if pos <= s.len() {
        s.len() - pos + 1
    } else {
        0
    }),
{
    let (t, p2) = spec_next_token(s, pos);
    if pos > s.len() || t is EOF {
        seq![t]
    } else {
        let q = if p2 >= pos + 1 {
            p2
        } else {
            pos + 1
        };
        seq![t] + spec_token_stream(s, q)
    }
}

/// Whether a character can appear in an identifier.
pub fn is_letter(ch: char) -> (r: bool)
    ensures
        r == spec_is_letter(ch),
{
    is_alphabetic_char(ch) || ch == '_'
}

/// Whether a character is a decimal digit.
pub fn is_digit(ch: char) -> (r: bool)
    ensures
        r == spec_is_digit(ch),
{
    '0' <= ch && ch <= '9'
}

/// The lexer: the source characters and the position of the character the
/// lexer currently looks at.
#[derive(Debug, Clone)]
pub struct Lexer {
    chars: Vec<char>,
    pos: usize,
}

impl Lexer {
    /// The source text as a character sequence.
    pub closed spec fn src(&self) -> Seq<char> {
        self.chars@
    }

    /// The current position.
    pub closed spec fn cur(&self) -> int {
        self.pos as int
    }

    /// The lexer never moves past the end of the input.
    pub closed spec fn wf(&self) -> bool {
        self.pos <= self.chars@.len()
    }

    /// Builds a lexer over the given source text, looking at its first
    /// character.
    pub fn new(input: &str) -> (l: Lexer)
        ensures
            l.wf(),
            l.src() == input@,
            l.cur() == 0,
    {
        Lexer { chars: str_to_chars(input), pos: 0 }
    }

    /// The character at the current position, NUL at the end of input.
    fn current_char(&self) -> (c: char)
        requires
            self.wf(),
        ensures
            c == char_at(self.src(), self.cur()),
    {
        if self.pos < self.chars.len() {
            self.chars[self.pos]
        } else {
            '\0'
        }
    }

    /// Moves to the next character; at the end of input the position stays.
    pub fn read_char(&mut self)
        requires
            old(self).wf(),
        ensures
            final(self).wf(),
            final(self).src() == old(self).src(),
            final(self).cur() == if old(self).cur() < old(self).src().len() {
                old(self).cur() + 1
            } else {
                old(self).cur()
            },
    {
        if self.pos < self.chars.len() {
            self.pos = self.pos + 1;
        }
    }

    /// The character after the current one, NUL when there is none.
    pub fn read_peek(&self) -> (c: char)
        requires
            self.wf(),
        ensures
            c == char_at(self.src(), self.cur() + 1),
    {
        if self.pos >= self.chars.len() {
            '\0'
        } else if self.pos == self.chars.len() - 1 {
            '\0'
        } else {
            self.chars[self.pos + 1]
        }
    }

    /// Skips whitespace; afterwards the position is the first non-blank one.
    #[verifier::loop_isolation(false)]
    pub fn skip_white_space(&mut self)
        requires
            old(self).wf(),
        ensures
            final(self).wf(),
            final(self).src() == old(self).src(),
            final(self).cur() == spec_skip_ws(old(self).src(), old(self).cur()),
    {
        while self.pos < self.chars.len() && (self.chars[self.pos] == ' ' || self.chars[self.pos]
            == '\t' || self.chars[self.pos] == '\n' || self.chars[self.pos] == '\r')
            invariant
                self.wf(),
                self.src() == old(self).src(),
                spec_skip_ws(self.src(), self.cur()) == spec_skip_ws(
                    old(self).src(),
                    old(self).cur(),
                ),
            decreases self.chars@.len() - self.pos,
        {
            self.pos = self.pos + 1;
        }
    }

    /// The next token of the input, exactly as `spec_next_token` gives it.
    pub fn next_token(&mut self) -> (t: TOKEN)
        requires
            old(self).wf(),
        ensures
            final(self).wf(),
            final(self).src() == old(self).src(),
            t@ == spec_next_token(old(self).src(), old(self).cur()).0,
            final(self).cur() == spec_next_token(old(self).src(), old(self).cur()).1,
            0 <= final(self).cur() <= final(self).src().len(),
    {
        self.skip_white_space();
        if self.pos >= self.chars.len() {
            return TOKEN::EOF;
        }
        let c = self.chars[self.pos];
        let peek = self.read_peek();

        let is_two_char = c == '=' || c == '!' || c == '+' || c == '-' || c == '*' || c == '/'
            || c == '>' || c == '<' || c == ',' || c == ';' || c == '(' || c == ')' || c == '{'
            || c == '}' || c == '[' || c == ']';
        if is_two_char {
            let token = if c == '=' && peek == '=' {
                self.read_char();
                TOKEN::EQ
            } else if c == '=' {
                TOKEN::ASSIGN
            } else if c == '!' && peek == '=' {
                self.read_char();
                TOKEN::NotEQ
            } else if c == '!' {
                TOKEN::BANG
            } else if c == '+' {
                TOKEN::PLUS
            } else if c == '-' {
                TOKEN::MINUS
            } else if c == '*' {
                TOKEN::ASTERISK
            } else if c == '/' {
                TOKEN::SLASH
            } else if c == '>' {
                TOKEN::GT
            } else if c == '<' {
                TOKEN::LT
            } else if c == ',' {
                TOKEN::COMMA
            } else if c == ';' {
                TOKEN::SEMICOLON
            } else if c == '(' {
                TOKEN::LPAREN
            } else if c == ')' {
                TOKEN::RPAREN
            } else if c == '{' {
                TOKEN::LBRACE
            } else if c == '}' {
                TOKEN::RBRACE
            } else if c == '[' {
                TOKEN::LBRACKET
            } else {
                TOKEN::RBRACKET
            };
            self.read_char();
            return token;
        }

        if c == '"' {
            return self.read_str();
        }
        if is_letter(c) {
            return self.read_identifier();
        }
        if is_digit(c) {
            return self.read_number();
        }
        if c == '\0' {
            return TOKEN::EOF;
        }
        self.read_char();
        TOKEN::ILLEGAL(c)
    }

    /// Collects an identifier or keyword; the current character must start
    /// one.
    #[verifier::loop_isolation(false)]
    pub fn read_identifier(&mut self) -> (t: TOKEN)
        requires
            old(self).wf(),
            old(self).cur() < old(self).src().len(),
            spec_is_letter(old(self).src()[old(self).cur()]),
        ensures
            final(self).wf(),
            final(self).src() == old(self).src(),
            final(self).cur() == letters_end(old(self).src(), old(self).cur()),
            t@ == ({
                let name = old(self).src().subrange(old(self).cur(), final(self).cur());
                match spec_keyword(name) {
                    Some(k) => k,
                    None => TokenV::IDENT(name),
                }
            }),
    {
        let ghost s = self.src();
        let ghost start = self.cur();
        let mut buf: Vec<char> = Vec::new();

        while self.pos < self.chars.len() && is_letter(self.chars[self.pos])
            invariant
                self.wf(),
                self.src() == s,
                start <= self.cur(),
                letters_end(s, self.cur()) == letters_end(s, start),
                buf@ == s.subrange(start, self.cur()),
            decreases self.chars@.len() - self.pos,
        {
            buf.push(self.chars[self.pos]);
            self.pos = self.pos + 1;
            proof {
                assert(buf@ =~= s.subrange(start, self.cur()));
            }
        }
        proof {
            assert(letters_end(s, self.cur()) == self.cur());
        }

        let name = chars_to_string(&buf);
        match lookup_keyword(&name) {
            Some(k) => k,
            None => TOKEN::IDENT(Identifier(name)),
        }
    }

    /// Collects a run of digits; the current character must be a digit.
    /// Yields the number's token, or an `ILLEGAL` token carrying the first
    /// digit when the value does not fit the language's integers.
    #[verifier::loop_isolation(false)]
    pub fn read_number(&mut self) -> (t: TOKEN)
        requires
            old(self).wf(),
            old(self).cur() < old(self).src().len(),
            spec_is_digit(old(self).src()[old(self).cur()]),
        ensures
            final(self).wf(),
            final(self).src() == old(self).src(),
            final(self).cur() == digits_end(old(self).src(), old(self).cur()),
            t@ == ({
                let v = digits_val(old(self).src(), old(self).cur(), final(self).cur());
                if v <= i64::MAX {
                    TokenV::NUMBER(v)
                } else {
                    TokenV::ILLEGAL(old(self).src()[old(self).cur()])
                }
            }),
    {
        let ghost s = self.src();
        let ghost start = self.cur();
        let first = self.chars[self.pos];
        let mut value: i64 = 0;
        let mut overflow: bool = false;

        while self.pos < self.chars.len() && is_digit(self.chars[self.pos])
            invariant
                self.wf(),
                self.src() == s,
                start <= self.cur(),
                digits_end(s, self.cur()) == digits_end(s, start),
                0 <= value,
                !overflow ==> value == digits_val(s, start, self.cur()),
                overflow ==> digits_val(s, start, self.cur()) > i64::MAX,
            decreases self.chars@.len() - self.pos,
        {
            let c = self.chars[self.pos];
            let d: i64 = (c as u32 - 48) as i64;
            proof {
                assert(0 <= d <= 9);
                assert(digits_val(s, start, self.cur() + 1) == digits_val(s, start, self.cur())
                    * 10 + spec_digit_val(s[self.cur()]));
                lemma_digits_val_step(digits_val(s, start, self.cur()), spec_digit_val(
                    s[self.cur()],
                ));
            }
            if overflow || value > (i64::MAX - d) / 10 {
                overflow = true;
            } else {
                value = value * 10 + d;
            }
            self.pos = self.pos + 1;
        }
        proof {
            assert(digits_end(s, self.cur()) == self.cur());
        }

        if overflow {
            TOKEN::ILLEGAL(first)
        } else {
            TOKEN::NUMBER(value)
        }
    }

    /// Collects a string literal's body; the current character must be the
    /// opening quote.  Yields the string token, or an `ILLEGAL` token when
    /// the input ends before the closing quote.
    #[verifier::loop_isolation(false)]
    pub fn read_str(&mut self) -> (t: TOKEN)
        requires
            old(self).wf(),
            old(self).cur() < old(self).src().len(),
            old(self).src()[old(self).cur()] == '"',
        ensures
            final(self).wf(),
            final(self).src() == old(self).src(),
            ({
                let e = str_end(old(self).src(), old(self).cur() + 1);
                if e < 0 {
                    t@ == TokenV::ILLEGAL('"') && final(self).cur() == final(self).src().len()
                } else {
                    t@ == TokenV::STRING(str_content(old(self).src(), old(self).cur() + 1, e))
                        && final(self).cur() == e + 1
                }
            }),
    {
        let ghost s = self.src();
        let ghost start = self.cur() + 1;
        let ghost e = str_end(s, start);
        proof {
            lemma_str_end_ge(s, start);
        }
        let mut buf: Vec<char> = Vec::new();
        self.read_char();

        loop
            invariant
                self.wf(),
                self.src() == s,
                start <= self.cur(),
                str_end(s, self.cur()) == e,
                e >= 0 ==> self.cur() <= e && str_content(s, start, e) == buf@ + str_content(
                    s,
                    self.cur(),
                    e,
                ),
            decreases self.chars@.len() - self.pos,
        {
            if self.pos >= self.chars.len() {
                proof {
                    assert(e == -1);
                }
                return TOKEN::ILLEGAL('"');
            }
            let c = self.chars[self.pos];
            if c == '"' {
                proof {
                    assert(e == self.cur());
                    assert(str_content(s, self.cur(), e) =~= Seq::<char>::empty());
                    assert(buf@ =~= str_content(s, start, e));
                }
                self.pos = self.pos + 1;
                return TOKEN::STRING(chars_to_string(&buf));
            }
            if c == '\\' {
                proof {
                    lemma_str_end_ge(s, self.cur() + 2);
                    assert(str_end(s, self.cur()) == str_end(s, self.cur() + 2));
                }
                self.pos = self.pos + 1;
                if self.pos >= self.chars.len() {
                    proof {
                        assert(e == -1);
                    }
                    return TOKEN::ILLEGAL('"');
                }
                let c2 = self.chars[self.pos];
                buf.push(c2);
                self.pos = self.pos + 1;
                proof {
                    if e >= 0 {
                        assert(str_content(s, self.cur() - 2, e) == seq![s[self.cur() - 1]]
                            + str_content(s, self.cur(), e));
                        assert(str_content(s, start, e) =~= buf@ + str_content(
                            s,
                            self.cur(),
                            e,
                        ));
                    }
                }
            } else {
                buf.push(c);
                self.pos = self.pos + 1;
                proof {
                    if e >= 0 {
                        assert(str_content(s, self.cur() - 1, e) == seq![s[self.cur() - 1]]
                            + str_content(s, self.cur(), e));
                        assert(str_content(s, start, e) =~= buf@ + str_content(
                            s,
                            self.cur(),
                            e,
                        ));
                    }
                }
            }
        }
    }
}

/// One more digit multiplies the value by ten and adds the digit.
proof fn lemma_digits_val_step(v: int, d: int)
    requires
        0 <= v,
        0 <= d <= 9,
    ensures
        v * 10 + d > i64::MAX <==> v > (i64::MAX - d) / 10,
        v * 10 + d >= v,
{
    assert(v * 10 + d > i64::MAX <==> v > (i64::MAX - d) / 10) by (nonlinear_arith)
        requires
            0 <= v,
            0 <= d <= 9,
    ;
    assert(v * 10 + d >= v) by (nonlinear_arith)
        requires
            0 <= v,
            0 <= d,
    ;
}

/// Whitespace skipping stays inside the input and stops at the first
/// non-blank character.
pub proof fn lemma_skip_ws_bounds(s: Seq<char>, i: int)
    requires
        0 <= i <= s.len(),
    ensures
        i <= spec_skip_ws(s, i) <= s.len(),
        spec_skip_ws(s, i) < s.len() ==> !spec_is_ws(s[spec_skip_ws(s, i)]),
    decreases s.len() - i,
{
    if i < s.len() && spec_is_ws(s[i]) {
        lemma_skip_ws_bounds(s, i + 1);
    }
}

/// The end of a letter run stays inside the input.
pub proof fn lemma_letters_end_bounds(s: Seq<char>, i: int)
    requires
        0 <= i <= s.len(),
    ensures
        i <= letters_end(s, i) <= s.len(),
    decreases s.len() - i,
{
    if i < s.len() && spec_is_letter(s[i]) {
        lemma_letters_end_bounds(s, i + 1);
    }
}

/// The end of a digit run stays inside the input.
pub proof fn lemma_digits_end_bounds(s: Seq<char>, i: int)
    requires
        0 <= i <= s.len(),
    ensures
        i <= digits_end(s, i) <= s.len(),
    decreases s.len() - i,
{
    if i < s.len() && spec_is_digit(s[i]) {
        lemma_digits_end_bounds(s, i + 1);
    }
}

/// The next token never ends before it began, nor past the end of input.
pub proof fn lemma_next_token_bounds(s: Seq<char>, pos: int)
    requires
        0 <= pos <= s.len(),
    ensures
        pos <= spec_next_token(s, pos).1 <= s.len(),
{
    lemma_skip_ws_bounds(s, pos);
    let i = spec_skip_ws(s, pos);
    if i < s.len() {
        let c = s[i];
        if c == '"' {
            lemma_str_end_ge(s, i + 1);
        } else if spec_is_letter(c) {
            lemma_letters_end_bounds(s, i);
        } else if spec_is_digit(c) {
            lemma_digits_end_bounds(s, i);
        }
    }
}

/// Every token but `EOF` consumes at least one character, and after an
/// `EOF` every further call yields `EOF` again at the same position.
pub proof fn lemma_next_token_progress(s: Seq<char>, pos: int)
    requires
        0 <= pos <= s.len(),
    ensures
        !(spec_next_token(s, pos).0 is EOF) ==> spec_next_token(s, pos).1 > pos,
        spec_next_token(s, pos).0 is EOF ==> spec_next_token(s, spec_next_token(s, pos).1)
            == (TokenV::EOF, spec_next_token(s, pos).1),
{
    lemma_skip_ws_bounds(s, pos);
    let i = spec_skip_ws(s, pos);
    if i < s.len() {
        let c = s[i];
        if c == '"' {
            lemma_str_end_ge(s, i + 1);
        } else if spec_is_letter(c) {
            lemma_letters_end_bounds(s, i + 1);
            assert(letters_end(s, i) == letters_end(s, i + 1));
        } else if spec_is_digit(c) {
            lemma_digits_end_bounds(s, i + 1);
            assert(digits_end(s, i) == digits_end(s, i + 1));
        }
    }
}

/// The position after reading `k` tokens, one call at a time.
pub open spec fn lexer_pos_after(s: Seq<char>, pos: int, k: nat) -> int
    decreases k,
{
    if k == 0 {
        pos
    } else {
        spec_next_token(s, lexer_pos_after(s, pos, (k - 1) as nat)).1
    }
}

/// Reading one token and then `k` more is reading `k + 1` tokens.
proof fn lemma_pos_after_shift(s: Seq<char>, pos: int, k: nat)
    ensures
        lexer_pos_after(s, pos, k + 1) == lexer_pos_after(s, spec_next_token(s, pos).1, k),
    decreases k,
{
    let p2 = spec_next_token(s, pos).1;
    if k == 0 {
        assert(lexer_pos_after(s, pos, 1) == spec_next_token(s, lexer_pos_after(s, pos, 0)).1);
        assert(lexer_pos_after(s, p2, 0) == p2);
    } else {
        lemma_pos_after_shift(s, pos, (k - 1) as nat);
        assert(lexer_pos_after(s, pos, k + 1) == spec_next_token(s, lexer_pos_after(s, pos, k)).1);
        assert(lexer_pos_after(s, p2, k) == spec_next_token(s, lexer_pos_after(s, p2, (k - 1) as nat)).1);
    }
}

/// From any position of any input, some number of `next_token` calls
/// reaches `EOF`; by `lemma_next_token_progress`, every call after that
/// yields `EOF` again.
pub proof fn lemma_eventually_eof(s: Seq<char>, pos: int)
    requires
        0 <= pos <= s.len(),
    ensures
        exists|k: nat|
            spec_next_token(s, lexer_pos_after(s, pos, k)).0 is EOF,
    decreases s.len() - pos,
{
    if spec_next_token(s, pos).0 is EOF {
        assert(lexer_pos_after(s, pos, 0) == pos);
        assert(spec_next_token(s, lexer_pos_after(s, pos, 0)).0 is EOF);
    } else {
        let p2 = spec_next_token(s, pos).1;
        lemma_next_token_bounds(s, pos);
        lemma_next_token_progress(s, pos);
        lemma_eventually_eof(s, p2);
        let k2 = choose|k: nat| spec_next_token(s, lexer_pos_after(s, p2, k)).0 is EOF;
        lemma_pos_after_shift(s, pos, k2);
        assert(spec_next_token(s, lexer_pos_after(s, pos, k2 + 1)).0 is EOF);
    }
}

/// The characters the lexer gives to operators, punctuation and string
/// quotes before it considers letters.
pub open spec fn spec_is_symbol(c: char) -> bool {
    c == '=' || c == '!' || c == '+' || c == '-' || c == '*' || c == '/' || c == '>' || c == '<'
        || c == ',' || c == ';' || c == '(' || c == ')' || c == '{' || c == '}' || c == '['
        || c == ']' || c == '"'
}

/// A reserved word never lexes to an identifier token: whenever the model
/// yields `IDENT(name)`, the name is not in the keyword table; and when
/// the letter run at the token's start spells a reserved word, the token
/// is that word's keyword token.
pub proof fn lemma_keywords_never_ident(s: Seq<char>, pos: int)
    ensures
        spec_next_token(s, pos).0 matches TokenV::IDENT(name) ==> spec_keyword(name) is None,
        ({
            let i = spec_skip_ws(s, pos);
            (0 <= i < s.len() && spec_is_letter(s[i]) && !spec_is_symbol(s[i]) && spec_keyword(
                s.subrange(i, letters_end(s, i)),
            ) is Some) ==> spec_next_token(s, pos).0 == spec_keyword(
                s.subrange(i, letters_end(s, i)),
            ).unwrap()
        }),
{
}

/// `==` and `!=` lex as one token each; a lone `=` or `!` lexes as
/// `ASSIGN` or `BANG`.
pub proof fn lemma_two_char_operators(s: Seq<char>, pos: int)
    ensures
        ({
            let i = spec_skip_ws(s, pos);
            &&& (0 <= i < s.len() && s[i] == '=' && char_at(s, i + 1) == '=') ==> spec_next_token(
                s,
                pos,
            ) == (TokenV::EQ, i + 2)
            &&& (0 <= i < s.len() && s[i] == '=' && char_at(s, i + 1) != '=') ==> spec_next_token(
                s,
                pos,
            ) == (TokenV::ASSIGN, i + 1)
            &&& (0 <= i < s.len() && s[i] == '!' && char_at(s, i + 1) == '=') ==> spec_next_token(
                s,
                pos,
            ) == (TokenV::NotEQ, i + 2)
            &&& (0 <= i < s.len() && s[i] == '!' && char_at(s, i + 1) != '=') ==> spec_next_token(
                s,
                pos,
            ) == (TokenV::BANG, i + 1)
        }),
{
}

/// A closing quote, where there is one, never lies before the scan start.
proof fn lemma_str_end_ge(s: Seq<char>, i: int)
    ensures
        str_end(s, i) == -1 || str_end(s, i) >= i,
        str_end(s, i) < s.len(),
        str_end(s, i) >= 0 ==> s[str_end(s, i)] == '"',
    decreases s.len() - i,
{
    if 0 <= i < s.len() {
        if s[i] == '"' {
        } else if s[i] == '\\' {
            if i + 1 < s.len() {
                lemma_str_end_ge(s, i + 2);
            }
        } else {
            lemma_str_end_ge(s, i + 1);
        }
    }
}

} // verus!
