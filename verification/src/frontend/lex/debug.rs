//! The text that `{:?}` gives for tokens.
use vstd::prelude::*;

use crate::text::{copy_str, decimal, decimal_string};
use super::token::{Keyword, Token, TokenV, token_views};

verus! {

/// What `{:?}` gives for a string: the string quoted, with quotes,
/// backslashes and unprintable characters escaped.
pub uninterp spec fn str_debug(s: Seq<char>) -> Seq<char>;

/// Formats a string with `{:?}` (std's `Debug` for `str`).
#[verifier::external_body]
fn str_debug_text(s: &str) -> (r: String)
    ensures
        r@ == str_debug(s@),
{
    format!("{:?}", s)
}

/// The name of a keyword's variant.
pub open spec fn keyword_debug(k: Keyword) -> Seq<char> {
    match k {
        Keyword::Binary => "Binary"@,
        Keyword::Box => "Box"@,
        Keyword::Extern => "Extern"@,
        Keyword::Enum => "Enum"@,
        Keyword::For => "For"@,
        Keyword::Fn => "Fn"@,
        Keyword::Impl => "Impl"@,
        Keyword::Let => "Let"@,
        Keyword::Mut => "Mut"@,
        Keyword::Pub => "Pub"@,
        Keyword::Return => "Return"@,
        Keyword::Self_ => "Self_"@,
        Keyword::Struct => "Struct"@,
        Keyword::Trait => "Trait"@,
        Keyword::Unary => "Unary"@,
        Keyword::Use => "Use"@,
    }
}

fn keyword_debug_str(k: Keyword) -> (r: &'static str)
    ensures
        r@ == keyword_debug(k),
{
    match k {
        Keyword::Binary => "Binary",
        Keyword::Box => "Box",
        Keyword::Extern => "Extern",
        Keyword::Enum => "Enum",
        Keyword::For => "For",
        Keyword::Fn => "Fn",
        Keyword::Impl => "Impl",
        Keyword::Let => "Let",
        Keyword::Mut => "Mut",
        Keyword::Pub => "Pub",
        Keyword::Return => "Return",
        Keyword::Self_ => "Self_",
        Keyword::Struct => "Struct",
        Keyword::Trait => "Trait",
        Keyword::Unary => "Unary",
        Keyword::Use => "Use",
    }
}

/// What `{:?}` gives for a token.
pub open spec fn token_debug(t: TokenV) -> Seq<char> {
    match t {
        TokenV::Number(n) => "Number("@ + decimal(n as nat) + ")"@,
        TokenV::Ident(s) => "Ident("@ + str_debug(s) + ")"@,
        TokenV::Keyword(k) => "Keyword("@ + keyword_debug(k) + ")"@,
        TokenV::String(s) => "String("@ + str_debug(s) + ")"@,
        TokenV::At => "At"@,
        TokenV::DoubleQuote => "DoubleQuote"@,
        TokenV::DollarSign => "DollarSign"@,
        TokenV::Carrot => "Carrot"@,
        TokenV::BackSlash => "BackSlash"@,
        TokenV::Backtick => "Backtick"@,
        TokenV::Pound => "Pound"@,
        TokenV::Minus => "Minus"@,
        TokenV::Plus => "Plus"@,
        TokenV::Asterisk => "Asterisk"@,
        TokenV::Slash => "Slash"@,
        TokenV::Equals => "Equals"@,
        TokenV::LeftAngleBracket => "LeftAngleBracket"@,
        TokenV::RightAngleBracket => "RightAngleBracket"@,
        TokenV::Dot => "Dot"@,
        TokenV::Comma => "Comma"@,
        TokenV::Colon => "Colon"@,
        TokenV::Semicolon => "Semicolon"@,
        TokenV::And => "And"@,
        TokenV::Bang => "Bang"@,
        TokenV::Pipe => "Pipe"@,
        TokenV::NewLine => "NewLine"@,
        TokenV::Whitespace => "Whitespace"@,
        TokenV::OpenParen => "OpenParen"@,
        TokenV::CloseParen => "CloseParen"@,
        TokenV::OpenCurlyBrace => "OpenCurlyBrace"@,
        TokenV::CloseCurlyBrace => "CloseCurlyBrace"@,
        TokenV::OpenSquareBracket => "OpenSquareBracket"@,
        TokenV::CloseSquareBracket => "CloseSquareBracket"@,
    }
}

/// What `{:?}` gives for a list of tokens: `[a, b, ..]`.
pub open spec fn tokens_debug(ts: Seq<TokenV>) -> Seq<char> {
    "["@ + token_list_debug(ts) + "]"@
}

pub open spec fn token_list_debug(ts: Seq<TokenV>) -> Seq<char>
    decreases ts.len(),
{
    if ts.len() == 0 {
        Seq::empty()
    } else if ts.len() == 1 {
        token_debug(ts[0])
    } else {
        token_list_debug(ts.drop_last()) + ", "@ + token_debug(ts.last())
    }
}

impl Token {
    /// What `{:?}` gives for the token.
    pub fn to_debug_string(&self) -> (r: String)
        ensures
            r@ == token_debug(self@),
    {
        match self {
            Token::Number(n) => {
                let mut r = copy_str("Number(");
                let d = decimal_string(*n);
                r.append(d.as_str());
                r.append(")");
                r
            },
            Token::Ident(s) => {
                let mut r = copy_str("Ident(");
                let d = str_debug_text(s.as_str());
                r.append(d.as_str());
                r.append(")");
                r
            },
            Token::Keyword(k) => {
                let mut r = copy_str("Keyword(");
                r.append(keyword_debug_str(*k));
                r.append(")");
                r
            },
            Token::String(s) => {
                let mut r = copy_str("String(");
                let d = str_debug_text(s.as_str());
                r.append(d.as_str());
                r.append(")");
                r
            },
            Token::At => copy_str("At"),
            Token::DoubleQuote => copy_str("DoubleQuote"),
            Token::DollarSign => copy_str("DollarSign"),
            Token::Carrot => copy_str("Carrot"),
            Token::BackSlash => copy_str("BackSlash"),
            Token::Backtick => copy_str("Backtick"),
            Token::Pound => copy_str("Pound"),
            Token::Minus => copy_str("Minus"),
            Token::Plus => copy_str("Plus"),
            Token::Asterisk => copy_str("Asterisk"),
            Token::Slash => copy_str("Slash"),
            Token::Equals => copy_str("Equals"),
            Token::LeftAngleBracket => copy_str("LeftAngleBracket"),
            Token::RightAngleBracket => copy_str("RightAngleBracket"),
            Token::Dot => copy_str("Dot"),
            Token::Comma => copy_str("Comma"),
            Token::Colon => copy_str("Colon"),
            Token::Semicolon => copy_str("Semicolon"),
            Token::And => copy_str("And"),
            Token::Bang => copy_str("Bang"),
            Token::Pipe => copy_str("Pipe"),
            Token::NewLine => copy_str("NewLine"),
            Token::Whitespace => copy_str("Whitespace"),
            Token::OpenParen => copy_str("OpenParen"),
            Token::CloseParen => copy_str("CloseParen"),
            Token::OpenCurlyBrace => copy_str("OpenCurlyBrace"),
            Token::CloseCurlyBrace => copy_str("CloseCurlyBrace"),
            Token::OpenSquareBracket => copy_str("OpenSquareBracket"),
            Token::CloseSquareBracket => copy_str("CloseSquareBracket"),
        }
    }
}

/// What `{:?}` gives for a list of tokens.
pub fn tokens_debug_string(ts: &Vec<Token>) -> (r: String)
    ensures
        r@ == tokens_debug(token_views(ts@)),
{
    let ghost vs = token_views(ts@);
    let mut list = String::new();
    let mut i: usize = 0;
    while i < ts.len()
        invariant
            i <= ts@.len(),
            vs == token_views(ts@),
            list@ == token_list_debug(vs.take(i as int)),
        decreases ts@.len() - i,
    {
        let d = ts[i].to_debug_string();
        proof {
            assert(vs.take(i + 1).drop_last() =~= vs.take(i as int));
        }
        if i > 0 {
            list.append(", ");
        } else {
            assert(vs.take(1) =~= seq![vs[0]]);
        }
        list.append(d.as_str());
        i += 1;
    }
    assert(vs.take(i as int) =~= vs);
    let mut r = copy_str("[");
    r.append(list.as_str());
    r.append("]");
    r
}

} // verus!
