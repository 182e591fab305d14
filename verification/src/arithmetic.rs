//! A small lexer of arithmetic expressions: decimal numbers and the
//! operators `+`, `-`, `*` and `/`, with whitespace between them.
use vstd::prelude::*;

use crate::frontend::lex::scan::{is_digit, is_whitespace, number_at, number_value};
use crate::text::char_at;

verus! {

#[derive(Debug, Clone, Copy, PartialEq, Eq, Structural)]
pub enum Literal {
    Number(usize),
}

#[derive(Debug, Clone, Copy, PartialEq, Eq, Structural)]
pub enum Token {
    Literal(Literal),
    Minus,
    Plus,
    Asterisk,
    Slash,
    Whitespace,
}

/// The token of an operator character.
pub open spec fn operator_token(c: char) -> Option<Token> {
    if c == '+' {
        Some(Token::Plus)
    } else if c == '-' {
        Some(Token::Minus)
    } else if c == '/' {
        Some(Token::Slash)
    } else if c == '*' {
        Some(Token::Asterisk)
    } else {
        None
    }
}

/// The first index at or after `i` that holds no digit.
pub open spec fn digits_end(s: Seq<char>, i: int) -> int
    decreases s.len() - i,
{
    if 0 <= i < s.len() && is_digit(s[i]) {
        digits_end(s, i + 1)
    } else {
        i
    }
}

pub proof fn lemma_digits_end(s: Seq<char>, i: int)
    requires
        0 <= i <= s.len(),
    ensures
        i <= digits_end(s, i) <= s.len(),
        forall|k: int| i <= k < digits_end(s, i) ==> is_digit(#[trigger] s[k]),
        digits_end(s, i) < s.len() ==> !is_digit(s[digits_end(s, i)]),
    decreases s.len() - i,
{
    if i < s.len() && is_digit(s[i]) {
        lemma_digits_end(s, i + 1);
    }
}

/// The input from `pos` on can be lexed: it holds only whitespace, operators
/// and digits, and every number fits in a `usize`.
pub open spec fn arithmetic_lexable(s: Seq<char>, pos: int) -> bool
    decreases s.len() - pos,
{
    if pos < 0 || pos >= s.len() {
        true
    } else {
        let c = s[pos];
        if is_whitespace(c) || operator_token(c) is Some {
            arithmetic_lexable(s, pos + 1)
        } else if is_digit(c) {
            proof {
                lemma_digits_end(s, pos + 1);
            }
            let e = digits_end(s, pos + 1);
            if e <= pos {
                false
            } else {
                number_value(s.subrange(pos, e)) <= usize::MAX && arithmetic_lexable(s, e)
            }
        } else {
            false
        }
    }
}

/// The tokens of the input from `pos` on, whitespace left out.
pub open spec fn arithmetic_tokens(s: Seq<char>, pos: int) -> Seq<Token>
    decreases s.len() - pos,
{
    if pos < 0 || pos >= s.len() {
        Seq::empty()
    } else {
        let c = s[pos];
        if is_whitespace(c) {
            arithmetic_tokens(s, pos + 1)
        } else if operator_token(c) is Some {
            seq![operator_token(c)->0] + arithmetic_tokens(s, pos + 1)
        } else if is_digit(c) {
            proof {
                lemma_digits_end(s, pos + 1);
            }
            let e = digits_end(s, pos + 1);
            if e <= pos {
                Seq::empty()
            } else {
                seq![Token::Literal(Literal::Number(number_value(s.subrange(pos, e)) as usize))]
                    + arithmetic_tokens(s, e)
            }
        } else {
            Seq::empty()
        }
    }
}

/// Reads the tokens of an arithmetic expression.
pub struct Lexer {
    input: String,
    position: usize,
}

impl Lexer {
    pub closed spec fn text(&self) -> Seq<char> {
        self.input@
    }

    pub closed spec fn pos(&self) -> nat {
        self.position as nat
    }

    pub closed spec fn ascii(&self) -> bool {
        self.input.is_ascii()
    }

    pub fn new(input: String) -> (r: Self)
        ensures
            r.text() == input@,
            r.pos() == 0,
            r.ascii() == input.is_ascii(),
    {
        Lexer { input, position: 0 }
    }

    /// The tokens of `input`.
    pub fn lex_str(input: String) -> (r: Vec<Token>)
        requires
            input.is_ascii(),
            arithmetic_lexable(input@, 0),
        ensures
            r@ == arithmetic_tokens(input@, 0),
    {
        let mut lexer = Lexer::new(input);
        lexer.lex_remaining()
    }

    /// The tokens of the rest of the input; the input is then used up.
    pub fn lex_remaining(&mut self) -> (r: Vec<Token>)
        requires
            old(self).ascii(),
            arithmetic_lexable(old(self).text(), old(self).pos() as int),
        ensures
            r@ == arithmetic_tokens(old(self).text(), old(self).pos() as int),
            final(self).text() == old(self).text(),
            final(self).ascii(),
            final(self).pos() >= final(self).text().len(),
    {
        let ghost s = self.input@;
        let ghost start = self.position as int;
        let n = self.input.as_str().unicode_len();
        let mut tokens: Vec<Token> = Vec::new();
        while self.position < n
            invariant
                self.input@ == s,
                self.input.is_ascii(),
                n == s.len(),
                arithmetic_lexable(s, self.position as int),
                tokens@ + arithmetic_tokens(s, self.position as int) == arithmetic_tokens(s, start),
            decreases n - self.position,
        {
            let pos = self.position;
            let c = char_at(&self.input, pos);
            if is_whitespace_byte(c) {
                self.position = pos + 1;
            } else if c == '+' || c == '-' || c == '/' || c == '*' {
                let t = if c == '+' {
                    Token::Plus
                } else if c == '-' {
                    Token::Minus
                } else if c == '/' {
                    Token::Slash
                } else {
                    Token::Asterisk
                };
                let ghost before = tokens@;
                tokens.push(t);
                assert(tokens@ + arithmetic_tokens(s, pos + 1) =~= before + arithmetic_tokens(s, pos as int));
                self.position = pos + 1;
            } else {
                proof {
                    lemma_digits_end(s, pos + 1);
                }
                let mut e = pos + 1;
                while e < n && is_digit_byte(char_at(&self.input, e))
                    invariant
                        self.input@ == s,
                        self.input.is_ascii(),
                        n == s.len(),
                        pos + 1 <= e <= n,
                        digits_end(s, e as int) == digits_end(s, pos + 1),
                    decreases n - e,
                {
                    e = e + 1;
                }
                proof {
                    lemma_digits_end(s, pos as int);
                }
                let v = match number_at(&self.input, pos, e) {
                    Some(v) => v,
                    None => 0,
                };
                let ghost before = tokens@;
                tokens.push(Token::Literal(Literal::Number(v)));
                assert(tokens@ + arithmetic_tokens(s, e as int) =~= before + arithmetic_tokens(s, pos as int));
                self.position = e;
            }
        }
        assert(tokens@ + arithmetic_tokens(s, self.position as int) =~= tokens@);
        tokens
    }
}

fn is_whitespace_byte(c: char) -> (r: bool)
    ensures
        r == is_whitespace(c),
{
    c == ' ' || ('\t' <= c && c <= '\r')
}

fn is_digit_byte(c: char) -> (r: bool)
    ensures
        r == is_digit(c),
{
    '0' <= c && c <= '9'
}

} // verus!
