use vstd::prelude::*;

use crate::span::Span;
use crate::text::{decimal, decimal_string, copy_str};

verus! {

/// Reserved words of the language.
#[derive(Debug, Clone, Copy, PartialEq, Eq, Hash, Structural)]
pub enum Keyword {
    Binary,
    Box,
    Extern,
    Enum,
    For,
    Fn,
    Impl,
    Let,
    Mut,
    Pub,
    Return,
    Self_,
    Struct,
    Trait,
    Unary,
    Use,
}

/// A lexical token.
#[derive(Debug, PartialEq, Eq, Hash)]
pub enum Token {
    Number(usize),
    Ident(String),
    Keyword(Keyword),
    String(String),

    /// '@'
    At,
    /// '"'
    DoubleQuote,
    /// '$'
    DollarSign,
    /// '^'
    Carrot,
    /// '\\'
    BackSlash,
    /// '`'
    Backtick,
    /// '#'
    Pound,
    /// '-'
    Minus,
    /// '+'
    Plus,
    /// '*'
    Asterisk,
    /// '/'
    Slash,
    /// '='
    Equals,
    /// '<'
    LeftAngleBracket,
    /// '>'
    RightAngleBracket,
    /// '.'
    Dot,
    /// ','
    Comma,
    /// ':'
    Colon,
    /// ';'
    Semicolon,
    /// '&'
    And,
    /// '!'
    Bang,
    /// '|'
    Pipe,
    /// '\n' (special case)
    NewLine,
    /// '\r', '\t', ' ', ..
    Whitespace,
    /// '('
    OpenParen,
    /// ')'
    CloseParen,
    /// '{'
    OpenCurlyBrace,
    /// '}'
    CloseCurlyBrace,
    /// '['
    OpenSquareBracket,
    /// ']'
    CloseSquareBracket,
}

/// The mathematical value of a [`Token`]: its text held as a `Seq<char>`.
pub enum TokenV {
    Number(usize),
    Ident(Seq<char>),
    Keyword(Keyword),
    String(Seq<char>),
    At,
    DoubleQuote,
    DollarSign,
    Carrot,
    BackSlash,
    Backtick,
    Pound,
    Minus,
    Plus,
    Asterisk,
    Slash,
    Equals,
    LeftAngleBracket,
    RightAngleBracket,
    Dot,
    Comma,
    Colon,
    Semicolon,
    And,
    Bang,
    Pipe,
    NewLine,
    Whitespace,
    OpenParen,
    CloseParen,
    OpenCurlyBrace,
    CloseCurlyBrace,
    OpenSquareBracket,
    CloseSquareBracket,
}

impl View for Token {
    type V = TokenV;

    open spec fn view(&self) -> TokenV {
        match self {
            Token::Number(n) => TokenV::Number(*n),
            Token::Ident(s) => TokenV::Ident(s@),
            Token::Keyword(k) => TokenV::Keyword(*k),
            Token::String(s) => TokenV::String(s@),
            Token::At => TokenV::At,
            Token::DoubleQuote => TokenV::DoubleQuote,
            Token::DollarSign => TokenV::DollarSign,
            Token::Carrot => TokenV::Carrot,
            Token::BackSlash => TokenV::BackSlash,
            Token::Backtick => TokenV::Backtick,
            Token::Pound => TokenV::Pound,
            Token::Minus => TokenV::Minus,
            Token::Plus => TokenV::Plus,
            Token::Asterisk => TokenV::Asterisk,
            Token::Slash => TokenV::Slash,
            Token::Equals => TokenV::Equals,
            Token::LeftAngleBracket => TokenV::LeftAngleBracket,
            Token::RightAngleBracket => TokenV::RightAngleBracket,
            Token::Dot => TokenV::Dot,
            Token::Comma => TokenV::Comma,
            Token::Colon => TokenV::Colon,
            Token::Semicolon => TokenV::Semicolon,
            Token::And => TokenV::And,
            Token::Bang => TokenV::Bang,
            Token::Pipe => TokenV::Pipe,
            Token::NewLine => TokenV::NewLine,
            Token::Whitespace => TokenV::Whitespace,
            Token::OpenParen => TokenV::OpenParen,
            Token::CloseParen => TokenV::CloseParen,
            Token::OpenCurlyBrace => TokenV::OpenCurlyBrace,
            Token::CloseCurlyBrace => TokenV::CloseCurlyBrace,
            Token::OpenSquareBracket => TokenV::OpenSquareBracket,
            Token::CloseSquareBracket => TokenV::CloseSquareBracket,
        }
    }
}

/// The spelling of a keyword.
pub open spec fn keyword_text(k: Keyword) -> Seq<char> {
    match k {
        Keyword::Binary => seq!['b', 'i', 'n', 'a', 'r', 'y'],
        Keyword::Box => seq!['b', 'o', 'x'],
        Keyword::Extern => seq!['e', 'x', 't', 'e', 'r', 'n'],
        Keyword::Enum => seq!['e', 'n', 'u', 'm'],
        Keyword::For => seq!['f', 'o', 'r'],
        Keyword::Fn => seq!['f', 'n'],
        Keyword::Impl => seq!['i', 'm', 'p', 'l'],
        Keyword::Let => seq!['l', 'e', 't'],
        Keyword::Mut => seq!['m', 'u', 't'],
        Keyword::Pub => seq!['p', 'u', 'b'],
        Keyword::Return => seq!['r', 'e', 't', 'u', 'r', 'n'],
        Keyword::Self_ => seq!['s', 'e', 'l', 'f'],
        Keyword::Struct => seq!['s', 't', 'r', 'u', 'c', 't'],
        Keyword::Trait => seq!['t', 'r', 'a', 'i', 't'],
        Keyword::Unary => seq!['u', 'n', 'a', 'r', 'y'],
        Keyword::Use => seq!['u', 's', 'e'],
    }
}

/// What `Display` shows of a token.
pub open spec fn token_display(t: TokenV) -> Seq<char> {
    match t {
        TokenV::Number(n) => "numeric literal: "@ + decimal(n as nat),
        TokenV::Ident(s) => "identifier: "@ + s,
        TokenV::String(s) => "string literal: "@ + s,
        TokenV::Keyword(k) => "keyword: "@ + keyword_text(k),
        TokenV::At => "@"@,
        TokenV::DoubleQuote => "\""@,
        TokenV::DollarSign => "$"@,
        TokenV::Carrot => "^"@,
        TokenV::BackSlash => "\\"@,
        TokenV::Backtick => "`"@,
        TokenV::Pound => "#"@,
        TokenV::Minus => "-"@,
        TokenV::Plus => "+"@,
        TokenV::Asterisk => "*"@,
        TokenV::Slash => "/"@,
        TokenV::Equals => "="@,
        TokenV::LeftAngleBracket => "<"@,
        TokenV::RightAngleBracket => ">"@,
        TokenV::Dot => "."@,
        TokenV::Comma => ","@,
        TokenV::Colon => ":"@,
        TokenV::Semicolon => ";"@,
        TokenV::And => "&"@,
        TokenV::Bang => "!"@,
        TokenV::Pipe => "|"@,
        TokenV::NewLine => "NEWLINE"@,
        TokenV::Whitespace => "WHITESPACE"@,
        TokenV::OpenParen => "("@,
        TokenV::CloseParen => ")"@,
        TokenV::OpenCurlyBrace => "{"@,
        TokenV::CloseCurlyBrace => "}"@,
        TokenV::OpenSquareBracket => "["@,
        TokenV::CloseSquareBracket => "]"@,
    }
}

pub(crate) fn keyword_str(k: Keyword) -> (r: &'static str)
    ensures
        r@ == keyword_text(k),
{
    proof {
        reveal_strlit("binary");
        reveal_strlit("box");
        reveal_strlit("extern");
        reveal_strlit("enum");
        reveal_strlit("for");
        reveal_strlit("fn");
        reveal_strlit("impl");
        reveal_strlit("let");
        reveal_strlit("mut");
        reveal_strlit("pub");
        reveal_strlit("return");
        reveal_strlit("self");
        reveal_strlit("struct");
        reveal_strlit("trait");
        reveal_strlit("unary");
        reveal_strlit("use");
    }
    match k {
        Keyword::Binary => {
            let r = "binary";
            assert(r@ =~= keyword_text(k));
            r
        }
        Keyword::Box => {
            let r = "box";
            assert(r@ =~= keyword_text(k));
            r
        }
        Keyword::Extern => {
            let r = "extern";
            assert(r@ =~= keyword_text(k));
            r
        }
        Keyword::Enum => {
            let r = "enum";
            assert(r@ =~= keyword_text(k));
            r
        }
        Keyword::For => {
            let r = "for";
            assert(r@ =~= keyword_text(k));
            r
        }
        Keyword::Fn => {
            let r = "fn";
            assert(r@ =~= keyword_text(k));
            r
        }
        Keyword::Impl => {
            let r = "impl";
            assert(r@ =~= keyword_text(k));
            r
        }
        Keyword::Let => {
            let r = "let";
            assert(r@ =~= keyword_text(k));
            r
        }
        Keyword::Mut => {
            let r = "mut";
            assert(r@ =~= keyword_text(k));
            r
        }
        Keyword::Pub => {
            let r = "pub";
            assert(r@ =~= keyword_text(k));
            r
        }
        Keyword::Return => {
            let r = "return";
            assert(r@ =~= keyword_text(k));
            r
        }
        Keyword::Self_ => {
            let r = "self";
            assert(r@ =~= keyword_text(k));
            r
        }
        Keyword::Struct => {
            let r = "struct";
            assert(r@ =~= keyword_text(k));
            r
        }
        Keyword::Trait => {
            let r = "trait";
            assert(r@ =~= keyword_text(k));
            r
        }
        Keyword::Unary => {
            let r = "unary";
            assert(r@ =~= keyword_text(k));
            r
        }
        Keyword::Use => {
            let r = "use";
            assert(r@ =~= keyword_text(k));
            r
        }
    }
}

impl Token {
    pub fn is_number(&self) -> (r: bool)
        ensures
            r == (self is Number),
    {
        if let Token::Number(_) = self { true } else { false }
    }

    pub fn is_ident(&self) -> (r: bool)
        ensures
            r == (self is Ident),
    {
        if let Token::Ident(_) = self { true } else { false }
    }

    pub fn is_keyword(&self) -> (r: bool)
        ensures
            r == (self is Keyword),
    {
        if let Token::Keyword(_) = self { true } else { false }
    }

    /// A copy of the token.
    pub fn duplicate(&self) -> (r: Token)
        ensures
            r@ == self@,
    {
        match self {
            Token::Number(n) => Token::Number(*n),
            Token::Ident(s) => Token::Ident(s.clone()),
            Token::Keyword(k) => Token::Keyword(*k),
            Token::String(s) => Token::String(s.clone()),
            Token::At => Token::At,
            Token::DoubleQuote => Token::DoubleQuote,
            Token::DollarSign => Token::DollarSign,
            Token::Carrot => Token::Carrot,
            Token::BackSlash => Token::BackSlash,
            Token::Backtick => Token::Backtick,
            Token::Pound => Token::Pound,
            Token::Minus => Token::Minus,
            Token::Plus => Token::Plus,
            Token::Asterisk => Token::Asterisk,
            Token::Slash => Token::Slash,
            Token::Equals => Token::Equals,
            Token::LeftAngleBracket => Token::LeftAngleBracket,
            Token::RightAngleBracket => Token::RightAngleBracket,
            Token::Dot => Token::Dot,
            Token::Comma => Token::Comma,
            Token::Colon => Token::Colon,
            Token::Semicolon => Token::Semicolon,
            Token::And => Token::And,
            Token::Bang => Token::Bang,
            Token::Pipe => Token::Pipe,
            Token::NewLine => Token::NewLine,
            Token::Whitespace => Token::Whitespace,
            Token::OpenParen => Token::OpenParen,
            Token::CloseParen => Token::CloseParen,
            Token::OpenCurlyBrace => Token::OpenCurlyBrace,
            Token::CloseCurlyBrace => Token::CloseCurlyBrace,
            Token::OpenSquareBracket => Token::OpenSquareBracket,
            Token::CloseSquareBracket => Token::CloseSquareBracket,
        }
    }

    /// Whether two tokens are the same token.
    pub fn same_as(&self, other: &Token) -> (r: bool)
        ensures
            r == (self@ == other@),
    {
        match (self, other) {
            (Token::Number(a), Token::Number(b)) => *a == *b,
            (Token::Ident(a), Token::Ident(b)) => *a == *b,
            (Token::Keyword(a), Token::Keyword(b)) => *a == *b,
            (Token::String(a), Token::String(b)) => *a == *b,
            (Token::At, Token::At) => true,
            (Token::DoubleQuote, Token::DoubleQuote) => true,
            (Token::DollarSign, Token::DollarSign) => true,
            (Token::Carrot, Token::Carrot) => true,
            (Token::BackSlash, Token::BackSlash) => true,
            (Token::Backtick, Token::Backtick) => true,
            (Token::Pound, Token::Pound) => true,
            (Token::Minus, Token::Minus) => true,
            (Token::Plus, Token::Plus) => true,
            (Token::Asterisk, Token::Asterisk) => true,
            (Token::Slash, Token::Slash) => true,
            (Token::Equals, Token::Equals) => true,
            (Token::LeftAngleBracket, Token::LeftAngleBracket) => true,
            (Token::RightAngleBracket, Token::RightAngleBracket) => true,
            (Token::Dot, Token::Dot) => true,
            (Token::Comma, Token::Comma) => true,
            (Token::Colon, Token::Colon) => true,
            (Token::Semicolon, Token::Semicolon) => true,
            (Token::And, Token::And) => true,
            (Token::Bang, Token::Bang) => true,
            (Token::Pipe, Token::Pipe) => true,
            (Token::NewLine, Token::NewLine) => true,
            (Token::Whitespace, Token::Whitespace) => true,
            (Token::OpenParen, Token::OpenParen) => true,
            (Token::CloseParen, Token::CloseParen) => true,
            (Token::OpenCurlyBrace, Token::OpenCurlyBrace) => true,
            (Token::CloseCurlyBrace, Token::CloseCurlyBrace) => true,
            (Token::OpenSquareBracket, Token::OpenSquareBracket) => true,
            (Token::CloseSquareBracket, Token::CloseSquareBracket) => true,
            _ => false,
        }
    }

    /// What `Display` shows of the token.
    pub fn to_display_string(&self) -> (r: String)
        ensures
            r@ == token_display(self@),
    {
        match self {
            Token::Number(n) => {
                let mut r = copy_str("numeric literal: ");
                let d = decimal_string(*n);
                r.append(d.as_str());
                r
            },
            Token::Ident(s) => {
                let mut r = copy_str("identifier: ");
                r.append(s.as_str());
                r
            },
            Token::String(s) => {
                let mut r = copy_str("string literal: ");
                r.append(s.as_str());
                r
            },
            Token::Keyword(k) => {
                let mut r = copy_str("keyword: ");
                r.append(keyword_str(*k));
                r
            },
            Token::At => copy_str("@"),
            Token::DoubleQuote => copy_str("\""),
            Token::DollarSign => copy_str("$"),
            Token::Carrot => copy_str("^"),
            Token::BackSlash => copy_str("\\"),
            Token::Backtick => copy_str("`"),
            Token::Pound => copy_str("#"),
            Token::Minus => copy_str("-"),
            Token::Plus => copy_str("+"),
            Token::Asterisk => copy_str("*"),
            Token::Slash => copy_str("/"),
            Token::Equals => copy_str("="),
            Token::LeftAngleBracket => copy_str("<"),
            Token::RightAngleBracket => copy_str(">"),
            Token::Dot => copy_str("."),
            Token::Comma => copy_str(","),
            Token::Colon => copy_str(":"),
            Token::Semicolon => copy_str(";"),
            Token::And => copy_str("&"),
            Token::Bang => copy_str("!"),
            Token::Pipe => copy_str("|"),
            Token::NewLine => copy_str("NEWLINE"),
            Token::Whitespace => copy_str("WHITESPACE"),
            Token::OpenParen => copy_str("("),
            Token::CloseParen => copy_str(")"),
            Token::OpenCurlyBrace => copy_str("{"),
            Token::CloseCurlyBrace => copy_str("}"),
            Token::OpenSquareBracket => copy_str("["),
            Token::CloseSquareBracket => copy_str("]"),
        }
    }

    /// Attaches a span to the token.
    pub fn spanned(self, start_line: usize, start_column: usize, end_line: usize, end_column: usize) -> (r: SpannedToken)
        ensures
            r.token == self,
            r.span == (Span { start_line, start_column, end_line, end_column }),
    {
        SpannedToken { token: self, span: Span { start_line, start_column, end_line, end_column } }
    }
}

impl Clone for Token {
    fn clone(&self) -> (r: Token)
        ensures
            r@ == self@,
    {
        self.duplicate()
    }
}

/// A token together with the source span it was read from.
#[derive(Debug)]
pub struct SpannedToken {
    pub token: Token,
    pub span: Span,
}

pub struct SpannedTokenV {
    pub token: TokenV,
    pub span: Span,
}

impl View for SpannedToken {
    type V = SpannedTokenV;

    open spec fn view(&self) -> SpannedTokenV {
        SpannedTokenV { token: self.token@, span: self.span }
    }
}

/// Two lists of tokens are equal.
pub fn tokens_equal(a: &Vec<Token>, b: &Vec<Token>) -> (r: bool)
    ensures
        r == (token_views(a@) == token_views(b@)),
{
    if a.len() != b.len() {
        assert(token_views(a@).len() != token_views(b@).len());
        return false;
    }
    let mut i: usize = 0;
    while i < a.len()
        invariant
            a@.len() == b@.len(),
            i <= a@.len(),
            forall|j: int| 0 <= j < i ==> #[trigger] a@[j]@ == b@[j]@,
        decreases a@.len() - i,
    {
        if !a[i].same_as(&b[i]) {
            assert(token_views(a@)[i as int] != token_views(b@)[i as int]);
            return false;
        }
        i += 1;
    }
    assert(token_views(a@) =~= token_views(b@));
    true
}

/// The values of a sequence of spanned tokens.
pub open spec fn spanned_views(v: Seq<SpannedToken>) -> Seq<SpannedTokenV> {
    v.map_values(|t: SpannedToken| t@)
}

/// The values of a sequence of tokens.
pub open spec fn token_views(v: Seq<Token>) -> Seq<TokenV> {
    v.map_values(|t: Token| t@)
}

} // verus!
