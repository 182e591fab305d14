use vstd::prelude::*;

use crate::text::{char_at, substring};
use super::token::{Keyword, Token, TokenV, keyword_text};

verus! {

/// ASCII whitespace as `char::is_whitespace` sees it: tab, line feed,
/// vertical tab, form feed, carriage return and space.
pub open spec fn is_whitespace(c: char) -> bool {
    c == ' ' || ('\t' <= c && c <= '\r')
}

pub open spec fn is_alpha(c: char) -> bool {
    ('a' <= c && c <= 'z') || ('A' <= c && c <= 'Z')
}

pub open spec fn is_digit(c: char) -> bool {
    '0' <= c && c <= '9'
}

/// Which characters continue a run that the scanner reads in one go.
pub enum RunKind {
    /// Letters, digits and underscores (identifiers and keywords).
    Ident,
    /// Digits and underscores (numeric literals).
    Number,
    /// Anything but a double quote (string literal contents).
    Quoted,
    /// Anything but a line feed (line comments).
    Line,
}

pub open spec fn in_run(kind: RunKind, c: char) -> bool {
    match kind {
        RunKind::Ident => is_alpha(c) || is_digit(c) || c == '_',
        RunKind::Number => is_digit(c) || c == '_',
        RunKind::Quoted => c != '"',
        RunKind::Line => c != '\n',
    }
}

/// The first index at or after `i` whose character ends a run of `kind`
/// (the length of `s` if the run reaches the end).
pub open spec fn run_end(s: Seq<char>, i: int, kind: RunKind) -> int
    decreases s.len() - i,
{
    if 0 <= i < s.len() && in_run(kind, s[i]) {
        run_end(s, i + 1, kind)
    } else {
        i
    }
}

pub proof fn lemma_run_end(s: Seq<char>, i: int, kind: RunKind)
    requires
        0 <= i <= s.len(),
    ensures
        i <= run_end(s, i, kind) <= s.len(),
        forall|k: int| i <= k < run_end(s, i, kind) ==> in_run(kind, #[trigger] s[k]),
        run_end(s, i, kind) < s.len() ==> !in_run(kind, s[run_end(s, i, kind)]),
    decreases s.len() - i,
{
    if i < s.len() && in_run(kind, s[i]) {
        lemma_run_end(s, i + 1, kind);
    }
}

pub open spec fn digit_value(c: char) -> nat {
    (c as int - '0' as int) as nat
}

/// The value of a numeric literal: its digits read in base ten, underscores
/// ignored.
pub open spec fn number_value(s: Seq<char>) -> nat
    decreases s.len(),
{
    if s.len() == 0 {
        0
    } else if s.last() == '_' {
        number_value(s.drop_last())
    } else {
        number_value(s.drop_last()) * 10 + digit_value(s.last())
    }
}

proof fn lemma_number_value_grows(s: Seq<char>, k: int)
    requires
        0 <= k <= s.len(),
        forall|j: int| 0 <= j < s.len() ==> #[trigger] is_digit(s[j]) || s[j] == '_',
    ensures
        number_value(s.take(k)) <= number_value(s),
    decreases s.len() - k,
{
    if k < s.len() {
        lemma_number_value_grows(s, k + 1);
        assert(s.take(k + 1).drop_last() =~= s.take(k));
    } else {
        assert(s.take(k) =~= s);
    }
}

/// The keyword spelled `t`, if any.
pub open spec fn keyword_of(t: Seq<char>) -> Option<Keyword> {
    if t == keyword_text(Keyword::Binary) {
        Some(Keyword::Binary)
    } else if t == keyword_text(Keyword::Box) {
        Some(Keyword::Box)
    } else if t == keyword_text(Keyword::Extern) {
        Some(Keyword::Extern)
    } else if t == keyword_text(Keyword::Enum) {
        Some(Keyword::Enum)
    } else if t == keyword_text(Keyword::For) {
        Some(Keyword::For)
    } else if t == keyword_text(Keyword::Fn) {
        Some(Keyword::Fn)
    } else if t == keyword_text(Keyword::Impl) {
        Some(Keyword::Impl)
    } else if t == keyword_text(Keyword::Let) {
        Some(Keyword::Let)
    } else if t == keyword_text(Keyword::Mut) {
        Some(Keyword::Mut)
    } else if t == keyword_text(Keyword::Pub) {
        Some(Keyword::Pub)
    } else if t == keyword_text(Keyword::Return) {
        Some(Keyword::Return)
    } else if t == keyword_text(Keyword::Self_) {
        Some(Keyword::Self_)
    } else if t == keyword_text(Keyword::Struct) {
        Some(Keyword::Struct)
    } else if t == keyword_text(Keyword::Trait) {
        Some(Keyword::Trait)
    } else if t == keyword_text(Keyword::Unary) {
        Some(Keyword::Unary)
    } else if t == keyword_text(Keyword::Use) {
        Some(Keyword::Use)
    } else {
        None
    }
}

/// A word is a keyword if it spells one, an identifier otherwise.
pub open spec fn word_token(t: Seq<char>) -> TokenV {
    match keyword_of(t) {
        Some(k) => TokenV::Keyword(k),
        None => TokenV::Ident(t),
    }
}

/// The token of a one-character symbol.
pub open spec fn symbol_token(c: char) -> Option<TokenV> {
    if c == '@' {
        Some(TokenV::At)
    } else if c == '`' {
        Some(TokenV::Backtick)
    } else if c == '\\' {
        Some(TokenV::BackSlash)
    } else if c == '^' {
        Some(TokenV::Carrot)
    } else if c == '$' {
        Some(TokenV::DollarSign)
    } else if c == '#' {
        Some(TokenV::Pound)
    } else if c == '+' {
        Some(TokenV::Plus)
    } else if c == '-' {
        Some(TokenV::Minus)
    } else if c == '*' {
        Some(TokenV::Asterisk)
    } else if c == '=' {
        Some(TokenV::Equals)
    } else if c == '.' {
        Some(TokenV::Dot)
    } else if c == ',' {
        Some(TokenV::Comma)
    } else if c == ':' {
        Some(TokenV::Colon)
    } else if c == ';' {
        Some(TokenV::Semicolon)
    } else if c == '&' {
        Some(TokenV::And)
    } else if c == '!' {
        Some(TokenV::Bang)
    } else if c == '|' {
        Some(TokenV::Pipe)
    } else if c == '(' {
        Some(TokenV::OpenParen)
    } else if c == ')' {
        Some(TokenV::CloseParen)
    } else if c == '{' {
        Some(TokenV::OpenCurlyBrace)
    } else if c == '}' {
        Some(TokenV::CloseCurlyBrace)
    } else if c == '[' {
        Some(TokenV::OpenSquareBracket)
    } else if c == ']' {
        Some(TokenV::CloseSquareBracket)
    } else if c == '<' {
        Some(TokenV::LeftAngleBracket)
    } else if c == '>' {
        Some(TokenV::RightAngleBracket)
    } else {
        None
    }
}

/// A `//` comment runs to the end of its line: it is read as whitespace up
/// to the first line feed after it, which it leaves to be read next, or to
/// the end of the input; the lines after it are still read.
pub proof fn law_line_comment_ends_at_line_break(s: Seq<char>, pos: int)
    requires
        0 <= pos,
        pos + 1 < s.len(),
        s[pos] == '/',
        s[pos + 1] == '/',
    ensures
        scan_raw(s, pos).0 == Raw::Tok(TokenV::Whitespace),
        pos + 2 <= scan_raw(s, pos).1 <= s.len(),
        forall|k: int| pos <= k < scan_raw(s, pos).1 ==> s[k] != '\n',
        scan_raw(s, pos).1 < s.len() ==> s[scan_raw(s, pos).1] == '\n',
{
    lemma_run_end(s, pos + 1, RunKind::Line);
}

/// What the scanner makes of the characters at one position.
pub enum Raw {
    /// A token.
    Tok(TokenV),
    /// A character that starts no token.
    Invalid(char),
    /// The input ends where the scanner must read on: an unterminated string
    /// literal, a `/` as the last character, or a numeric literal too large
    /// for a `usize`.
    Fault,
}

/// The token that starts at `pos`, and the position just after it.
pub open spec fn scan_raw(s: Seq<char>, pos: int) -> (Raw, int) {
    let c = s[pos];
    if is_whitespace(c) {
        if c == '\n' {
            (Raw::Tok(TokenV::NewLine), pos + 1)
        } else {
            (Raw::Tok(TokenV::Whitespace), pos + 1)
        }
    } else if c == '"' {
        let e = run_end(s, pos + 1, RunKind::Quoted);
        if e >= s.len() {
            (Raw::Fault, e)
        } else {
            (Raw::Tok(TokenV::String(s.subrange(pos + 1, e))), e + 1)
        }
    } else if c == '/' {
        if pos + 1 >= s.len() {
            (Raw::Fault, pos + 1)
        } else if s[pos + 1] == '/' {
            (Raw::Tok(TokenV::Whitespace), run_end(s, pos + 1, RunKind::Line))
        } else {
            (Raw::Tok(TokenV::Slash), pos + 1)
        }
    } else if symbol_token(c) is Some {
        (Raw::Tok(symbol_token(c)->0), pos + 1)
    } else if is_alpha(c) || c == '_' {
        let e = run_end(s, pos + 1, RunKind::Ident);
        (Raw::Tok(word_token(s.subrange(pos, e))), e)
    } else if is_digit(c) {
        let e = run_end(s, pos + 1, RunKind::Number);
        let v = number_value(s.subrange(pos, e));
        if v > usize::MAX {
            (Raw::Fault, e)
        } else {
            (Raw::Tok(TokenV::Number(v as usize)), e)
        }
    } else {
        (Raw::Invalid(c), pos + 1)
    }
}

pub proof fn lemma_scan_advances(s: Seq<char>, pos: int)
    requires
        0 <= pos < s.len(),
    ensures
        pos < scan_raw(s, pos).1,
        scan_raw(s, pos).0 !is Fault ==> scan_raw(s, pos).1 <= s.len(),
{
    lemma_run_end(s, pos + 1, RunKind::Quoted);
    lemma_run_end(s, pos + 1, RunKind::Line);
    lemma_run_end(s, pos + 1, RunKind::Ident);
    lemma_run_end(s, pos + 1, RunKind::Number);
}

/// Scanning from `pos` to the end meets no fault.
pub open spec fn clean_from(s: Seq<char>, pos: int) -> bool
    decreases s.len() - pos,
{
    if pos < 0 || pos >= s.len() {
        true
    } else {
        proof {
            lemma_scan_advances(s, pos);
        }
        !(scan_raw(s, pos).0 is Fault) && clean_from(s, scan_raw(s, pos).1)
    }
}

/// The line after reading from `pos` to `end`.
pub open spec fn line_after(s: Seq<char>, pos: int, line: nat) -> nat {
    if s[pos] == '\n' { line + 1 } else { line }
}

/// The column after reading from `pos` to `end`: a line feed starts the next
/// line at column 1, anything else moves the column by what was read.
pub open spec fn column_after(s: Seq<char>, pos: int, end: int, col: nat) -> nat {
    if s[pos] == '\n' { 1 } else { (col + (end - pos)) as nat }
}

/// The scanner's outcome, as a value.
pub enum RawToken {
    Tok(Token),
    Invalid(char),
    Fault,
}

impl View for RawToken {
    type V = Raw;

    open spec fn view(&self) -> Raw {
        match self {
            RawToken::Tok(t) => Raw::Tok(t@),
            RawToken::Invalid(c) => Raw::Invalid(*c),
            RawToken::Fault => Raw::Fault,
        }
    }
}

fn is_whitespace_char(c: char) -> (r: bool)
    ensures
        r == is_whitespace(c),
{
    c == ' ' || ('\t' <= c && c <= '\r')
}

fn is_alpha_char(c: char) -> (r: bool)
    ensures
        r == is_alpha(c),
{
    ('a' <= c && c <= 'z') || ('A' <= c && c <= 'Z')
}

fn is_digit_char(c: char) -> (r: bool)
    ensures
        r == is_digit(c),
{
    '0' <= c && c <= '9'
}

fn in_run_char(kind: &RunKind, c: char) -> (r: bool)
    ensures
        r == in_run(*kind, c),
{
    match kind {
        RunKind::Ident => is_alpha_char(c) || is_digit_char(c) || c == '_',
        RunKind::Number => is_digit_char(c) || c == '_',
        RunKind::Quoted => c != '"',
        RunKind::Line => c != '\n',
    }
}

/// Where the run of `kind` that starts at `i` ends.
fn find_run_end(s: &String, i: usize, kind: RunKind) -> (e: usize)
    requires
        s.is_ascii(),
        i <= s@.len(),
    ensures
        e == run_end(s@, i as int, kind),
{
    let n = s.as_str().unicode_len();
    let mut j = i;
    while j < n && in_run_char(&kind, char_at(s, j))
        invariant
            s.is_ascii(),
            n == s@.len(),
            i <= j <= n,
            run_end(s@, i as int, kind) == run_end(s@, j as int, kind),
        decreases n - j,
    {
        j += 1;
    }
    j
}

fn symbol_of(c: char) -> (r: Option<Token>)
    ensures
        match r {
            Some(t) => symbol_token(c) == Some(t@),
            None => symbol_token(c) is None,
        },
{
    if c == '@' {
        Some(Token::At)
    } else if c == '`' {
        Some(Token::Backtick)
    } else if c == '\\' {
        Some(Token::BackSlash)
    } else if c == '^' {
        Some(Token::Carrot)
    } else if c == '$' {
        Some(Token::DollarSign)
    } else if c == '#' {
        Some(Token::Pound)
    } else if c == '+' {
        Some(Token::Plus)
    } else if c == '-' {
        Some(Token::Minus)
    } else if c == '*' {
        Some(Token::Asterisk)
    } else if c == '=' {
        Some(Token::Equals)
    } else if c == '.' {
        Some(Token::Dot)
    } else if c == ',' {
        Some(Token::Comma)
    } else if c == ':' {
        Some(Token::Colon)
    } else if c == ';' {
        Some(Token::Semicolon)
    } else if c == '&' {
        Some(Token::And)
    } else if c == '!' {
        Some(Token::Bang)
    } else if c == '|' {
        Some(Token::Pipe)
    } else if c == '(' {
        Some(Token::OpenParen)
    } else if c == ')' {
        Some(Token::CloseParen)
    } else if c == '{' {
        Some(Token::OpenCurlyBrace)
    } else if c == '}' {
        Some(Token::CloseCurlyBrace)
    } else if c == '[' {
        Some(Token::OpenSquareBracket)
    } else if c == ']' {
        Some(Token::CloseSquareBracket)
    } else if c == '<' {
        Some(Token::LeftAngleBracket)
    } else if c == '>' {
        Some(Token::RightAngleBracket)
    } else {
        None
    }
}

/// Whether characters `from..to` of `s` spell `w`.
fn spells(s: &String, from: usize, to: usize, w: &str) -> (r: bool)
    requires
        s.is_ascii(),
        from <= to <= s@.len(),
    ensures
        r == (s@.subrange(from as int, to as int) == w@),
{
    let n = w.unicode_len();
    if to - from != n {
        return false;
    }
    let mut i: usize = 0;
    while i < n
        invariant
            s.is_ascii(),
            from <= to <= s@.len(),
            to - from == n,
            n == w@.len(),
            i <= n,
            forall|j: int| 0 <= j < i ==> s@[from + j] == w@[j],
        decreases n - i,
    {
        if char_at(s, from + i) != w.get_char(i) {
            assert(s@.subrange(from as int, to as int)[i as int] != w@[i as int]);
            return false;
        }
        i += 1;
    }
    assert(s@.subrange(from as int, to as int) =~= w@);
    true
}

fn keyword_at(s: &String, from: usize, to: usize) -> (r: Option<Keyword>)
    requires
        s.is_ascii(),
        from <= to <= s@.len(),
    ensures
        r == keyword_of(s@.subrange(from as int, to as int)),
{
    if spells(s, from, to, keyword_name(Keyword::Binary)) {
        return Some(Keyword::Binary);
    }
    if spells(s, from, to, keyword_name(Keyword::Box)) {
        return Some(Keyword::Box);
    }
    if spells(s, from, to, keyword_name(Keyword::Extern)) {
        return Some(Keyword::Extern);
    }
    if spells(s, from, to, keyword_name(Keyword::Enum)) {
        return Some(Keyword::Enum);
    }
    if spells(s, from, to, keyword_name(Keyword::For)) {
        return Some(Keyword::For);
    }
    if spells(s, from, to, keyword_name(Keyword::Fn)) {
        return Some(Keyword::Fn);
    }
    if spells(s, from, to, keyword_name(Keyword::Impl)) {
        return Some(Keyword::Impl);
    }
    if spells(s, from, to, keyword_name(Keyword::Let)) {
        return Some(Keyword::Let);
    }
    if spells(s, from, to, keyword_name(Keyword::Mut)) {
        return Some(Keyword::Mut);
    }
    if spells(s, from, to, keyword_name(Keyword::Pub)) {
        return Some(Keyword::Pub);
    }
    if spells(s, from, to, keyword_name(Keyword::Return)) {
        return Some(Keyword::Return);
    }
    if spells(s, from, to, keyword_name(Keyword::Self_)) {
        return Some(Keyword::Self_);
    }
    if spells(s, from, to, keyword_name(Keyword::Struct)) {
        return Some(Keyword::Struct);
    }
    if spells(s, from, to, keyword_name(Keyword::Trait)) {
        return Some(Keyword::Trait);
    }
    if spells(s, from, to, keyword_name(Keyword::Unary)) {
        return Some(Keyword::Unary);
    }
    if spells(s, from, to, keyword_name(Keyword::Use)) {
        return Some(Keyword::Use);
    }
    None
}

fn keyword_name(k: Keyword) -> (r: &'static str)
    ensures
        r@ == keyword_text(k),
{
    super::token::keyword_str(k)
}

/// Reads the token at `pos`: what [`scan_raw`] states, and the position just
/// after it.
pub fn scan_at(s: &String, pos: usize) -> (r: (RawToken, usize))
    requires
        s.is_ascii(),
        pos < s@.len(),
    ensures
        r.0@ == scan_raw(s@, pos as int).0,
        r.1 == scan_raw(s@, pos as int).1,
{
    let n = s.as_str().unicode_len();
    let c = char_at(s, pos);
    if is_whitespace_char(c) {
        if c == '\n' {
            (RawToken::Tok(Token::NewLine), pos + 1)
        } else {
            (RawToken::Tok(Token::Whitespace), pos + 1)
        }
    } else if c == '"' {
        let e = find_run_end(s, pos + 1, RunKind::Quoted);
        if e >= n {
            (RawToken::Fault, e)
        } else {
            proof { lemma_run_end(s@, pos + 1, RunKind::Quoted); }
            (RawToken::Tok(Token::String(substring(s, pos + 1, e))), e + 1)
        }
    } else if c == '/' {
        if pos + 1 >= n {
            (RawToken::Fault, pos + 1)
        } else if char_at(s, pos + 1) == '/' {
            (RawToken::Tok(Token::Whitespace), find_run_end(s, pos + 1, RunKind::Line))
        } else {
            (RawToken::Tok(Token::Slash), pos + 1)
        }
    } else if let Some(t) = symbol_of(c) {
        (RawToken::Tok(t), pos + 1)
    } else if is_alpha_char(c) || c == '_' {
        let e = find_run_end(s, pos + 1, RunKind::Ident);
        proof { lemma_run_end(s@, pos + 1, RunKind::Ident); }
        match keyword_at(s, pos, e) {
            Some(k) => (RawToken::Tok(Token::Keyword(k)), e),
            None => (RawToken::Tok(Token::Ident(substring(s, pos, e))), e),
        }
    } else if is_digit_char(c) {
        let e = find_run_end(s, pos + 1, RunKind::Number);
        proof { lemma_run_end(s@, pos + 1, RunKind::Number); }
        match number_at(s, pos, e) {
            Some(v) => (RawToken::Tok(Token::Number(v)), e),
            None => (RawToken::Fault, e),
        }
    } else {
        (RawToken::Invalid(c), pos + 1)
    }
}

/// The value of the numeric literal at `from..to`, or `None` when it does not
/// fit in a `usize`.
pub(crate) fn number_at(s: &String, from: usize, to: usize) -> (r: Option<usize>)
    requires
        s.is_ascii(),
        from <= to <= s@.len(),
        forall|j: int| from <= j < to ==> #[trigger] is_digit(s@[j]) || s@[j] == '_',
    ensures
        match r {
            Some(v) => v == number_value(s@.subrange(from as int, to as int)),
            None => number_value(s@.subrange(from as int, to as int)) > usize::MAX,
        },
{
    let ghost t = s@.subrange(from as int, to as int);
    let mut v: usize = 0;
    let mut i = from;
    while i < to
        invariant
            s.is_ascii(),
            from <= i <= to <= s@.len(),
            t == s@.subrange(from as int, to as int),
            forall|j: int| from <= j < to ==> #[trigger] is_digit(s@[j]) || s@[j] == '_',
            v == number_value(t.take(i - from)),
        decreases to - i,
    {
        let c = char_at(s, i);
        proof {
            assert(t.take(i - from + 1).drop_last() =~= t.take(i - from));
            assert(t.take(i - from + 1).last() == c);
        }
        assert(is_digit(s@[i as int]) || s@[i as int] == '_');
        if c != '_' {
            let d = (c as u32 - '0' as u32) as usize;
            let next = match v.checked_mul(10) {
                Some(m) => m.checked_add(d),
                None => None,
            };
            match next {
                Some(m) => { v = m; },
                None => {
                    proof {
                        assert forall|j: int| 0 <= j < t.len() implies #[trigger] is_digit(t[j]) || t[j] == '_' by {
                            assert(t[j] == s@[from + j]);
                        }
                        lemma_number_value_grows(t, i - from + 1);
                    }
                    return None;
                },
            }
        }
        i += 1;
    }
    assert(t.take(to - from) =~= t);
    Some(v)
}

} // verus!
