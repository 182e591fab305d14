//! The lexer: turns source text into spanned tokens, applying `#define`
//! replacements and the replacements registered from lexer callbacks, and
//! asking its caller for the tokens of each `#include`d file.
pub mod token;
pub mod scan;
pub mod debug;
pub mod callbacks;

use vstd::prelude::*;

use crate::span::Span;
use crate::text::{char_at, copy_str, decimal, decimal_string};
use token::{Keyword, Token, TokenV, SpannedToken, SpannedTokenV, token_display, spanned_views, token_views};
use scan::{scan_raw, scan_at, clean_from, line_after, column_after, Raw, RawToken, lemma_scan_advances};

verus! {

/// Where the preprocessor stands in a `#directive from to` line.
#[derive(Debug, Clone, Copy, PartialEq, Eq, Structural)]
pub enum PreprocessorState {
    FoundPound,
    Define,
    Include,
    AwaitingNewLine,
    Idle,
}

/// State of the directive being read.
pub struct Preprocessor {
    state: PreprocessorState,
    /// The token a `#define` replaces; `Pound` while none was read.
    define_from: Token,
    /// The tokens a `#define` replaces it with.
    define_to: Vec<Token>,
    include_path: String,
}

pub struct PreprocessorV {
    pub state: PreprocessorState,
    pub define_from: TokenV,
    pub define_to: Seq<TokenV>,
    pub include_path: Seq<char>,
}

impl View for Preprocessor {
    type V = PreprocessorV;

    closed spec fn view(&self) -> PreprocessorV {
        PreprocessorV {
            state: self.state,
            define_from: self.define_from@,
            define_to: token_views(self.define_to@),
            include_path: self.include_path@,
        }
    }
}

/// A preprocessor that is reading no directive.
pub open spec fn fresh_preprocessor() -> PreprocessorV {
    PreprocessorV {
        state: PreprocessorState::Idle,
        define_from: TokenV::Pound,
        define_to: Seq::empty(),
        include_path: Seq::empty(),
    }
}

impl Preprocessor {
    pub fn new() -> (r: Self)
        ensures
            r@ == fresh_preprocessor(),
    {
        let r = Preprocessor {
            state: PreprocessorState::Idle,
            define_from: Token::Pound,
            define_to: Vec::new(),
            include_path: String::new(),
        };
        assert(token_views(r.define_to@) =~= Seq::<TokenV>::empty());
        r
    }

    pub fn reset(&mut self)
        ensures
            final(self)@ == fresh_preprocessor(),
    {
        *self = Self::new();
    }
}

/// The value of a lexer.
pub struct LexerV {
    pub file_path: Seq<char>,
    pub input: Seq<char>,
    pub position: usize,
    pub last_line: usize,
    pub last_column: usize,
    pub current_line: usize,
    pub current_column: usize,
    pub strip_whitespace: bool,
    pub preprocessor: PreprocessorV,
    /// Token replacements (seen token -> the tokens it becomes).
    pub replacements: Map<TokenV, Seq<TokenV>>,
    /// Tokens produced so far.
    pub tokens: Seq<SpannedTokenV>,
    /// Errors found so far.
    pub errors: Seq<Seq<char>>,
    /// The file named by an `#include` whose tokens the lexer waits for.
    pub pending_include: Option<Seq<char>>,
}

/// The map that a list of rules stands for: a later rule for a token
/// overrides an earlier one.
pub open spec fn rules_map(s: Seq<(TokenV, Seq<TokenV>)>) -> Map<TokenV, Seq<TokenV>>
    decreases s.len(),
{
    if s.len() == 0 {
        Map::empty()
    } else {
        rules_map(s.drop_last()).insert(s.last().0, s.last().1)
    }
}

pub open spec fn rule_views(s: Seq<(Token, Vec<Token>)>) -> Seq<(TokenV, Seq<TokenV>)> {
    s.map_values(|p: (Token, Vec<Token>)| (p.0@, token_views(p.1@)))
}

/// Replacing token `t` by `rule`: each token of `rule`, with the span of `t`.
pub open spec fn respan(rule: Seq<TokenV>, span: Span) -> Seq<SpannedTokenV> {
    rule.map_values(|x: TokenV| SpannedTokenV { token: x, span })
}

/// Adds a token to the output, replaced if a rule names it.
pub open spec fn emit(v: LexerV, t: TokenV, span: Span) -> LexerV {
    if v.replacements.contains_key(t) {
        LexerV { tokens: v.tokens + respan(v.replacements[t], span), ..v }
    } else {
        LexerV { tokens: v.tokens.push(SpannedTokenV { token: t, span }), ..v }
    }
}

pub open spec fn with_error(v: LexerV, e: Seq<char>) -> LexerV {
    LexerV { errors: v.errors.push(e), ..v }
}

pub open spec fn with_preprocessor(v: LexerV, p: PreprocessorV) -> LexerV {
    LexerV { preprocessor: p, ..v }
}

/// `d` spells the word whose lower-case letters are `lower` and upper-case
/// letters are `upper`, in any mix of cases.
pub open spec fn spelled_ignoring_case(d: Seq<char>, lower: Seq<char>, upper: Seq<char>) -> bool {
    &&& d.len() == lower.len()
    &&& forall|i: int| 0 <= i < d.len() ==> d[i] == lower[i] || d[i] == upper[i]
}

pub open spec fn invalid_directive_message(d: Seq<char>) -> Seq<char> {
    "Invalid preprocessor directive: `"@ + d + "`\nValid options are `define`, `include`"@
}

pub open spec fn dangling_token_message(t: TokenV) -> Seq<char> {
    "Found unexpected token `"@ + token_display(t) + "` while waiting for new line."@
}

pub open spec fn nested_pound_message() -> Seq<char> {
    "Preprocessor directive cannot include `#` symbol"@
}

pub open spec fn invalid_character_message(file: Seq<char>, line: usize, col: usize, c: char) -> Seq<char> {
    file + ":"@ + decimal(line as nat) + ":"@ + decimal(col as nat) + ": Invalid character: `"@
        + seq![c] + "`"@
}

pub open spec fn unreadable_include_message(path: Seq<char>) -> Seq<char> {
    "Failed to read file: `./"@ + path + "`"@
}

/// What the lexer does with a token it has read (with the preprocessor).
pub open spec fn consume(v: LexerV, t: TokenV, span: Span) -> LexerV {
    let p = v.preprocessor;
    if v.strip_whitespace && t == TokenV::Whitespace {
        v
    } else if t == TokenV::Pound {
        if p.state == PreprocessorState::Idle {
            with_preprocessor(v, PreprocessorV { state: PreprocessorState::FoundPound, ..p })
        } else {
            with_error(v, nested_pound_message())
        }
    } else {
        match p.state {
            PreprocessorState::FoundPound => {
                match t {
                    TokenV::Ident(d) => {
                        if spelled_ignoring_case(d, "define"@, "DEFINE"@) {
                            with_preprocessor(v, PreprocessorV { state: PreprocessorState::Define, ..p })
                        } else if spelled_ignoring_case(d, "include"@, "INCLUDE"@) {
                            with_preprocessor(v, PreprocessorV { state: PreprocessorState::Include, ..p })
                        } else {
                            with_error(v, invalid_directive_message(d))
                        }
                    },
                    _ => emit(v, t, span),
                }
            },
            PreprocessorState::Define => {
                if p.define_from == TokenV::Pound {
                    with_preprocessor(
                        v,
                        PreprocessorV { define_from: t, state: PreprocessorState::AwaitingNewLine, ..p },
                    )
                } else {
                    v
                }
            },
            PreprocessorState::Include => {
                if p.include_path.len() == 0 {
                    match t {
                        TokenV::String(s) => LexerV { pending_include: Some(s), ..v },
                        _ => v,
                    }
                } else {
                    v
                }
            },
            PreprocessorState::AwaitingNewLine => {
                if t == TokenV::NewLine {
                    let defined = if p.define_from != TokenV::Pound {
                        LexerV { replacements: v.replacements.insert(p.define_from, p.define_to), ..v }
                    } else {
                        v
                    };
                    with_preprocessor(defined, fresh_preprocessor())
                } else if p.define_from != TokenV::Pound {
                    with_preprocessor(v, PreprocessorV { define_to: p.define_to.push(t), ..p })
                } else {
                    with_error(v, dangling_token_message(t))
                }
            },
            PreprocessorState::Idle => {
                if t == TokenV::NewLine && v.strip_whitespace {
                    v
                } else {
                    emit(v, t, span)
                }
            },
        }
    }
}

/// The lexer after it has read the characters of one token (but before it
/// has done anything with the token).
pub open spec fn moved(v: LexerV) -> LexerV {
    let pos = v.position as int;
    let e = scan_raw(v.input, pos).1;
    LexerV {
        position: e as usize,
        last_line: v.current_line,
        last_column: v.current_column,
        current_line: line_after(v.input, pos, v.current_line as nat) as usize,
        current_column: column_after(v.input, pos, e, v.current_column as nat) as usize,
        ..v
    }
}

/// The span of the token read from `v`.
pub open spec fn step_span(v: LexerV) -> Span {
    let m = moved(v);
    Span {
        start_line: v.current_line,
        start_column: v.current_column,
        end_line: m.current_line,
        end_column: m.current_column,
    }
}

/// Reads one token and acts on it.
pub open spec fn step(v: LexerV) -> LexerV {
    let m = moved(v);
    match scan_raw(v.input, v.position as int).0 {
        Raw::Tok(t) => consume(m, t, step_span(v)),
        Raw::Invalid(c) => with_error(
            m,
            invalid_character_message(v.file_path, m.current_line, m.current_column, c),
        ),
        Raw::Fault => m,
    }
}

/// The lexer can read no further: its input is used up, it waits for the
/// tokens of an included file, or what follows cannot be read.
pub open spec fn stopped(v: LexerV) -> bool {
    ||| v.position >= v.input.len()
    ||| v.input.len() >= usize::MAX
    ||| v.pending_include is Some
    ||| scan_raw(v.input, v.position as int).0 is Fault
}

pub proof fn lemma_step_moves(v: LexerV)
    requires
        !stopped(v),
    ensures
        step(v).input == v.input,
        step(v).position == scan_raw(v.input, v.position as int).1,
        v.position < step(v).position <= v.input.len(),
        step(v).file_path == v.file_path,
        step(v).strip_whitespace == v.strip_whitespace,
{
    lemma_scan_advances(v.input, v.position as int);
}

/// The token that the lexer reads next, when what comes next is a token.
pub open spec fn next_token(v: LexerV) -> Option<TokenV> {
    match scan_raw(v.input, v.position as int).0 {
        Raw::Tok(t) => Some(t),
        _ => None,
    }
}

/// `#define` (in any mix of cases) after a `#` starts a definition.
pub proof fn law_define_directive_starts(v: LexerV, d: Seq<char>)
    requires
        !stopped(v),
        next_token(v) == Some(TokenV::Ident(d)),
        v.preprocessor.state == PreprocessorState::FoundPound,
        d.len() == 6,
        forall|i: int| 0 <= i < 6 ==> d[i] == "define"@[i] || d[i] == "DEFINE"@[i],
    ensures
        step(v).preprocessor.state == PreprocessorState::Define,
        step(v).preprocessor.define_from == v.preprocessor.define_from,
        step(v).replacements == v.replacements,
        step(v).tokens == v.tokens,
{
    reveal_strlit("define");
    reveal_strlit("DEFINE");
    assert(spelled_ignoring_case(d, "define"@, "DEFINE"@));
}

/// On a `#define` line, the first token after `define` is the one to be
/// replaced, and each later token before the line feed is added, in order,
/// to what it is replaced by; nothing is output meanwhile.
pub proof fn law_define_collects(v: LexerV, t: TokenV)
    requires
        !stopped(v),
        next_token(v) == Some(t),
        t != TokenV::Pound,
        t != TokenV::NewLine,
        !(v.strip_whitespace && t == TokenV::Whitespace),
    ensures
        v.preprocessor.state == PreprocessorState::Define && v.preprocessor.define_from == TokenV::Pound ==> {
            &&& step(v).preprocessor.define_from == t
            &&& step(v).preprocessor.define_to == v.preprocessor.define_to
            &&& step(v).preprocessor.state == PreprocessorState::AwaitingNewLine
        },
        v.preprocessor.state == PreprocessorState::AwaitingNewLine && v.preprocessor.define_from != TokenV::Pound ==> {
            &&& step(v).preprocessor.define_from == v.preprocessor.define_from
            &&& step(v).preprocessor.define_to == v.preprocessor.define_to.push(t)
            &&& step(v).preprocessor.state == PreprocessorState::AwaitingNewLine
        },
        v.preprocessor.state == PreprocessorState::Define || v.preprocessor.state == PreprocessorState::AwaitingNewLine
            ==> step(v).tokens == v.tokens && step(v).replacements == v.replacements,
{
}

/// The line feed that ends a `#define from to..` line registers the rule:
/// from then on `from` is read as `to..`; the preprocessor is idle again and
/// nothing is output.
pub proof fn law_define_registered_at_line_end(v: LexerV)
    requires
        !stopped(v),
        next_token(v) == Some(TokenV::NewLine),
        v.preprocessor.state == PreprocessorState::AwaitingNewLine,
        v.preprocessor.define_from != TokenV::Pound,
    ensures
        step(v).replacements == v.replacements.insert(v.preprocessor.define_from, v.preprocessor.define_to),
        step(v).replacements[v.preprocessor.define_from] == v.preprocessor.define_to,
        step(v).preprocessor.state == PreprocessorState::Idle,
        step(v).tokens == v.tokens,
{
}

/// Outside directives, a token that a rule names is output as the rule's
/// tokens, in order, each with the span of the token read.
pub proof fn law_rule_replaces_token(v: LexerV, t: TokenV)
    requires
        !stopped(v),
        next_token(v) == Some(t),
        v.preprocessor.state == PreprocessorState::Idle,
        t != TokenV::Pound,
        !is_blank(t),
        v.replacements.contains_key(t),
    ensures
        step(v).tokens.len() == v.tokens.len() + v.replacements[t].len(),
        step(v).tokens.take(v.tokens.len() as int) == v.tokens,
        forall|i: int| 0 <= i < v.replacements[t].len() ==> #[trigger] step(v).tokens[v.tokens.len() + i]
            == (SpannedTokenV { token: v.replacements[t][i], span: step_span(v) }),
        step(v).replacements == v.replacements,
{
    assert(step(v).tokens.take(v.tokens.len() as int) =~= v.tokens);
}

/// Two lexers that differ at most in their file path and in the text of
/// their errors (not in how many there are).
pub open spec fn agree_but_path(a: LexerV, b: LexerV) -> bool {
    &&& a == (LexerV { file_path: a.file_path, errors: a.errors, ..b })
    &&& a.errors.len() == b.errors.len()
}

/// The file path reaches only error messages: lexing the same input under
/// another path gives the same tokens, with the same spans, the same rules
/// and the same number of errors.
pub proof fn law_path_only_in_errors(a: LexerV, b: LexerV)
    requires
        agree_but_path(a, b),
    ensures
        agree_but_path(lex_run(a), lex_run(b)),
    decreases a.input.len() - a.position,
{
    if !stopped(a) {
        lemma_step_moves(a);
        lemma_step_moves(b);
        let ma = moved(a);
        let mb = moved(b);
        assert(agree_but_path(ma, mb));
        match scan_raw(a.input, a.position as int).0 {
            Raw::Tok(t) => {
                assert(step_span(a) == step_span(b));
                assert(agree_but_path(consume(ma, t, step_span(a)), consume(mb, t, step_span(b))));
            },
            _ => {},
        }
        assert(agree_but_path(step(a), step(b)));
        law_path_only_in_errors(step(a), step(b));
    }
}

/// Whitespace and line breaks: the tokens that stripping drops.
pub open spec fn is_blank(t: TokenV) -> bool {
    t == TokenV::Whitespace || t == TokenV::NewLine
}

pub open spec fn no_blank_tokens(ts: Seq<SpannedTokenV>) -> bool {
    forall|i: int| 0 <= i < ts.len() ==> !is_blank(#[trigger] ts[i].token)
}

/// No replacement rule makes a whitespace or line-break token.
pub open spec fn no_blank_rules(r: Map<TokenV, Seq<TokenV>>) -> bool {
    forall|k: TokenV, i: int| r.contains_key(k) && 0 <= i < r[k].len() ==> !is_blank(#[trigger] r[k][i])
}

/// Only a `#` is read as the `Pound` token.
pub proof fn lemma_pound_only_from_hash(s: Seq<char>, pos: int)
    requires
        0 <= pos < s.len(),
        scan_raw(s, pos).0 == Raw::Tok(TokenV::Pound),
    ensures
        s[pos] == '#',
{
}

/// With whitespace stripped, lexing text that holds no `#` (so no
/// directive) adds no whitespace or line-break token to the output: spaces,
/// tabs, line breaks and `//` comments give no token.
pub proof fn law_stripping_leaves_no_blanks(v: LexerV)
    requires
        v.strip_whitespace,
        v.preprocessor.state == PreprocessorState::Idle,
        no_blank_rules(v.replacements),
        no_blank_tokens(v.tokens),
        forall|j: int| v.position <= j < v.input.len() ==> v.input[j] != '#',
    ensures
        no_blank_tokens(lex_run(v).tokens),
    decreases v.input.len() - v.position,
{
    if !stopped(v) {
        lemma_step_moves(v);
        let w = step(v);
        let m = moved(v);
        match scan_raw(v.input, v.position as int).0 {
            Raw::Tok(t) => {
                if t == TokenV::Pound {
                    lemma_pound_only_from_hash(v.input, v.position as int);
                }
                let span = step_span(v);
                if !(t == TokenV::Whitespace) && !(t == TokenV::NewLine) {
                    if m.replacements.contains_key(t) {
                        let added = respan(m.replacements[t], span);
                        assert forall|i: int| 0 <= i < w.tokens.len() implies !is_blank(#[trigger] w.tokens[i].token) by {
                            if i >= m.tokens.len() {
                                assert(w.tokens[i] == added[i - m.tokens.len()]);
                                assert(!is_blank(m.replacements[t][i - m.tokens.len()]));
                            }
                        }
                    }
                }
            },
            _ => {},
        }
        law_stripping_leaves_no_blanks(w);
    }
}

/// A lexer that strips whitespace, stands outside any directive, and has
/// neither produced nor been given a rule that makes a whitespace or
/// line-break token.
pub open spec fn blank_free(v: LexerV) -> bool {
    &&& v.strip_whitespace
    &&& v.preprocessor.state == PreprocessorState::Idle
    &&& no_blank_rules(v.replacements)
    &&& no_blank_tokens(v.tokens)
}

/// The rest of the input holds no `#`, so no directive.
pub open spec fn no_directives_ahead(v: LexerV) -> bool {
    forall|j: int| v.position <= j < v.input.len() ==> v.input[j] != '#'
}

/// The lexer after it has read on until it stops.
pub open spec fn lex_run(v: LexerV) -> LexerV
    decreases v.input.len() - v.position,
{
    if stopped(v) {
        v
    } else {
        proof {
            lemma_step_moves(v);
        }
        lex_run(step(v))
    }
}


/// The lexer after the tokens `included` of the file it waited for have been
/// added: they go to the output as they are, and the directive line ends.
pub open spec fn after_include(v: LexerV, included: Seq<SpannedTokenV>) -> LexerV {
    LexerV {
        tokens: v.tokens + included,
        preprocessor: PreprocessorV { state: PreprocessorState::AwaitingNewLine, ..v.preprocessor },
        pending_include: None,
        ..v
    }
}

/// The lexer after the file it waited for could not be read.
pub open spec fn after_unreadable_include(v: LexerV) -> LexerV {
    LexerV {
        errors: v.errors.push(unreadable_include_message(v.pending_include->0)),
        pending_include: None,
        ..v
    }
}

/// The lexer once its tokens and errors have been handed out.
pub open spec fn emptied(v: LexerV) -> LexerV {
    LexerV { tokens: Seq::empty(), errors: Seq::empty(), ..v }
}

/// What a call of `lex` on a lexer whose value is `v` hands back.
pub open spec fn lex_outcome(v: LexerV, r: LexStep) -> bool {
    let w = lex_run(v);
    match w.pending_include {
        Some(p) => r matches LexStep::Include(path) && path@ == p,
        None => match r {
            LexStep::Finished(Ok(ts)) => w.errors.len() == 0 && spanned_views(ts@) == w.tokens,
            LexStep::Finished(Err(es)) => w.errors.len() > 0
                && es@.map_values(|e: String| e@) == w.errors,
            LexStep::Include(_) => false,
        },
    }
}

/// What a call of [`Lexer::lex`] hands back.
pub enum LexStep {
    /// The input is used up: the tokens, or the errors if there were any.
    Finished(Result<Vec<SpannedToken>, Vec<String>>),
    /// The tokens of this `#include`d file are needed before lexing goes on.
    Include(String),
}

/// Converts source text into spanned tokens.
pub struct Lexer {
    file_path: String,
    input: String,
    position: usize,
    last_line: usize,
    last_column: usize,
    current_line: usize,
    current_column: usize,
    strip_whitespace: bool,
    preprocessor: Preprocessor,
    /// Token replacements, later ones overriding earlier ones.
    custom_replacements: Vec<(Token, Vec<Token>)>,
    tokens: Vec<SpannedToken>,
    errors: Vec<String>,
    pending_include: Option<String>,
}

impl View for Lexer {
    type V = LexerV;

    closed spec fn view(&self) -> LexerV {
        LexerV {
            file_path: self.file_path@,
            input: self.input@,
            position: self.position,
            last_line: self.last_line,
            last_column: self.last_column,
            current_line: self.current_line,
            current_column: self.current_column,
            strip_whitespace: self.strip_whitespace,
            preprocessor: self.preprocessor@,
            replacements: rules_map(rule_views(self.custom_replacements@)),
            tokens: spanned_views(self.tokens@),
            errors: self.errors@.map_values(|e: String| e@),
            pending_include: match self.pending_include {
                Some(p) => Some(p@),
                None => None,
            },
        }
    }
}

/// A lexer that has read nothing yet.
pub open spec fn fresh_lexer(file_path: Seq<char>, input: Seq<char>, strip_whitespace: bool) -> LexerV {
    LexerV {
        file_path,
        input,
        position: 0,
        last_line: 0,
        last_column: 0,
        current_line: 1,
        current_column: 0,
        strip_whitespace,
        preprocessor: fresh_preprocessor(),
        replacements: Map::empty(),
        tokens: Seq::empty(),
        errors: Seq::empty(),
        pending_include: None,
    }
}

/// What the rest of the input needs: ASCII text, with no fault from the
/// current position on.
pub open spec fn lexable(v: LexerV) -> bool {
    &&& vstd::utf8::is_ascii_chars(v.input)
    &&& v.input.len() < usize::MAX
    &&& clean_from(v.input, v.position as int)
}


fn copy_tokens(v: &Vec<Token>) -> (r: Vec<Token>)
    ensures
        token_views(r@) == token_views(v@),
{
    let mut r: Vec<Token> = Vec::new();
    let mut i: usize = 0;
    while i < v.len()
        invariant
            i <= v@.len(),
            token_views(r@) =~= token_views(v@.take(i as int)),
        decreases v.len() - i,
    {
        r.push(v[i].duplicate());
        i += 1;
        assert(token_views(v@.take(i as int)) =~= token_views(v@.take(i - 1)).push(v@[i - 1]@));
    }
    assert(v@.take(i as int) =~= v@);
    r
}

proof fn lemma_rules_map_suffix(s: Seq<(TokenV, Seq<TokenV>)>, i: int, k: TokenV)
    requires
        0 <= i <= s.len(),
        forall|j: int| i <= j < s.len() ==> s[j].0 != k,
    ensures
        rules_map(s).contains_key(k) == rules_map(s.take(i)).contains_key(k),
        rules_map(s).contains_key(k) ==> rules_map(s)[k] == rules_map(s.take(i))[k],
    decreases s.len() - i,
{
    if i < s.len() {
        lemma_rules_map_suffix(s, i + 1, k);
        assert(s.take(i + 1).drop_last() =~= s.take(i));
    } else {
        assert(s.take(i) =~= s);
    }
}

impl Lexer {
    /// Internal consistency of the lexer: its input is ASCII and its
    /// counters stay within the input.
    pub closed spec fn well_formed(&self) -> bool {
        &&& self.input.is_ascii()
        &&& self.input@.len() < usize::MAX
        &&& self.position <= self.input@.len()
        &&& self.current_line <= self.position + 1
        &&& self.current_column <= self.position
    }

    /// A lexer for `input`; `file_path` is used only in error messages.
    pub fn new(file_path: String, input: String, strip_whitespace: bool) -> (r: Self)
        requires
            vstd::utf8::is_ascii_chars(input@),
            input@.len() < usize::MAX,
        ensures
            r.well_formed(),
            r@ == fresh_lexer(file_path@, input@, strip_whitespace),
            strip_whitespace ==> blank_free(r@),
    {
        let r = Lexer {
            file_path,
            input,
            position: 0,
            last_line: 0,
            last_column: 0,
            current_line: 1,
            current_column: 0,
            strip_whitespace,
            preprocessor: Preprocessor::new(),
            custom_replacements: Vec::new(),
            tokens: Vec::new(),
            errors: Vec::new(),
            pending_include: None,
        };
        assert(rule_views(r.custom_replacements@) =~= Seq::empty());
        assert(spanned_views(r.tokens@) =~= Seq::empty());
        assert(r.errors@.map_values(|e: String| e@) =~= Seq::empty());
        r
    }

    /// Whether the whole of `input` can be lexed: it is ASCII and holds no
    /// unterminated string literal, no `/` as its last character and no
    /// numeric literal too large for a `usize`.
    pub fn is_lexable(input: &String) -> (r: bool)
        ensures
            r == (vstd::utf8::is_ascii_chars(input@) && input@.len() < usize::MAX
                && clean_from(input@, 0)),
    {
        if !input.is_ascii() {
            return false;
        }
        let n = input.as_str().unicode_len();
        if n == usize::MAX {
            return false;
        }
        let mut pos: usize = 0;
        while pos < n
            invariant
                input.is_ascii(),
                n == input@.len(),
                n < usize::MAX,
                pos <= n,
                clean_from(input@, 0) == clean_from(input@, pos as int),
            decreases n - pos,
        {
            let (raw, next) = scan_at(input, pos);
            proof {
                lemma_scan_advances(input@, pos as int);
            }
            if let RawToken::Fault = raw {
                return false;
            }
            pos = next;
        }
        true
    }

    /// Marks the start of the next token.
    pub fn reset_last_position(&mut self)
        ensures
            final(self)@ == (LexerV {
                last_line: old(self)@.current_line,
                last_column: old(self)@.current_column,
                ..old(self)@
            }),
            final(self).well_formed() == old(self).well_formed(),
    {
        self.last_line = self.current_line;
        self.last_column = self.current_column;
    }

    /// Registers a replacement: from now on `from` is read as `to`. A
    /// replacement makes no whitespace or line-break token.
    pub fn add_replacement(&mut self, from: Token, to: Vec<Token>)
        requires
            forall|i: int| 0 <= i < to@.len() ==> !is_blank(#[trigger] to@[i]@),
        ensures
            final(self)@ == (LexerV {
                replacements: old(self)@.replacements.insert(from@, token_views(to@)),
                ..old(self)@
            }),
            final(self).well_formed() == old(self).well_formed(),
    {
        self.add_rule(from, to);
    }

    /// Registers a rule: from now on `from` is read as `to`.
    fn add_rule(&mut self, from: Token, to: Vec<Token>)
        ensures
            final(self)@ == (LexerV {
                replacements: old(self)@.replacements.insert(from@, token_views(to@)),
                ..old(self)@
            }),
            final(self).well_formed() == old(self).well_formed(),
    {
        self.custom_replacements.push((from, to));
        proof {
            let s = rule_views(self.custom_replacements@);
            assert(s.drop_last() =~= rule_views(old(self).custom_replacements@));
        }
    }

    /// The index of the rule that applies to `t`, if any.
    fn find_rule(&self, t: &Token) -> (r: Option<usize>)
        ensures
            match r {
                Some(i) => {
                    &&& i < self.custom_replacements@.len()
                    &&& self@.replacements.contains_key(t@)
                    &&& self@.replacements[t@] == token_views(self.custom_replacements@[i as int].1@)
                },
                None => !self@.replacements.contains_key(t@),
            },
    {
        let ghost s = rule_views(self.custom_replacements@);
        let mut i = self.custom_replacements.len();
        while i > 0
            invariant
                i <= self.custom_replacements@.len(),
                s == rule_views(self.custom_replacements@),
                forall|j: int| i <= j < s.len() ==> s[j].0 != t@,
            decreases i,
        {
            if self.custom_replacements[i - 1].0.same_as(t) {
                proof {
                    lemma_rules_map_suffix(s, i as int, t@);
                    assert(s.take(i as int).drop_last() =~= s.take(i - 1));
                }
                return Some(i - 1);
            }
            i -= 1;
        }
        proof {
            lemma_rules_map_suffix(s, 0, t@);
            assert(s.take(0) =~= Seq::empty());
        }
        None
    }

    /// Adds a token to the output, replaced if a rule names it.
    fn emit(&mut self, token: SpannedToken)
        ensures
            final(self)@ == emit(old(self)@, token.token@, token.span),
            final(self).well_formed() == old(self).well_formed(),
    {
        match self.find_rule(&token.token) {
            Some(i) => {
                let span = token.span;
                let ghost rule = token_views(self.custom_replacements@[i as int].1@);
                let ghost start = spanned_views(self.tokens@);
                let n = self.custom_replacements[i].1.len();
                let mut k: usize = 0;
                while k < n
                    invariant
                        i < self.custom_replacements@.len(),
                        n == self.custom_replacements@[i as int].1@.len(),
                        rule == token_views(self.custom_replacements@[i as int].1@),
                        k <= n,
                        spanned_views(self.tokens@) =~= start + respan(rule.take(k as int), span),
                        self.custom_replacements == old(self).custom_replacements,
                        self.file_path == old(self).file_path,
                        self.input == old(self).input,
                        self.position == old(self).position,
                        self.last_line == old(self).last_line,
                        self.last_column == old(self).last_column,
                        self.current_line == old(self).current_line,
                        self.current_column == old(self).current_column,
                        self.strip_whitespace == old(self).strip_whitespace,
                        self.preprocessor == old(self).preprocessor,
                        self.errors == old(self).errors,
                        self.pending_include == old(self).pending_include,
                        start == spanned_views(old(self).tokens@),
                    decreases n - k,
                {
                    let t = self.custom_replacements[i].1[k].duplicate();
                    assert(t@ == rule[k as int]);
                    let ghost before = spanned_views(self.tokens@);
                    self.tokens.push(SpannedToken { token: t, span });
                    assert(spanned_views(self.tokens@) =~= before.push(
                        SpannedTokenV { token: rule[k as int], span },
                    ));
                    k += 1;
                    assert(respan(rule.take(k as int), span) =~= respan(rule.take(k - 1), span).push(
                        SpannedTokenV { token: rule[k - 1], span },
                    ));
                }
                assert(rule.take(n as int) =~= rule);
            },
            None => {
                self.tokens.push(token);
                assert(spanned_views(self.tokens@) =~= spanned_views(old(self).tokens@).push(token@));
            },
        }
    }

    fn push_error(&mut self, e: String)
        ensures
            final(self)@ == with_error(old(self)@, e@),
            final(self).well_formed() == old(self).well_formed(),
    {
        self.errors.push(e);
        assert(self.errors@.map_values(|e: String| e@) =~= old(self).errors@.map_values(|e: String| e@).push(e@));
    }

    /// What the lexer does with a token it has read (with the preprocessor).
    fn consume(&mut self, token: SpannedToken)
        ensures
            final(self)@ == consume(old(self)@, token.token@, token.span),
            final(self).well_formed() == old(self).well_formed(),
    {
        if self.strip_whitespace {
            if let Token::Whitespace = token.token {
                return;
            }
        }
        if let Token::Pound = token.token {
            if let PreprocessorState::Idle = self.preprocessor.state {
                self.preprocessor.state = PreprocessorState::FoundPound;
            } else {
                self.push_error(copy_str("Preprocessor directive cannot include `#` symbol"));
            }
            return;
        }
        match self.preprocessor.state {
            PreprocessorState::FoundPound => {
                proof {
                    reveal_strlit("define");
                    reveal_strlit("DEFINE");
                    reveal_strlit("include");
                    reveal_strlit("INCLUDE");
                }
                if let Token::Ident(directive) = &token.token {
                    if spelled_ignoring_case_exec(directive, "define", "DEFINE") {
                        self.preprocessor.state = PreprocessorState::Define;
                    } else if spelled_ignoring_case_exec(directive, "include", "INCLUDE") {
                        self.preprocessor.state = PreprocessorState::Include;
                    } else {
                        let mut e = copy_str("Invalid preprocessor directive: `");
                        e.append(directive.as_str());
                        e.append("`\nValid options are `define`, `include`");
                        self.push_error(e);
                    }
                    return;
                }
                self.emit(token);
            },
            PreprocessorState::Define => {
                if self.preprocessor.define_from.same_as(&Token::Pound) {
                    self.preprocessor.define_from = token.token;
                    self.preprocessor.state = PreprocessorState::AwaitingNewLine;
                }
            },
            PreprocessorState::Include => {
                if self.preprocessor.include_path.as_str().unicode_len() == 0 {
                    if let Token::String(path) = token.token {
                        self.pending_include = Some(path);
                    }
                }
            },
            PreprocessorState::AwaitingNewLine => {
                if let Token::NewLine = token.token {
                    if !self.preprocessor.define_from.same_as(&Token::Pound) {
                        let from = self.preprocessor.define_from.duplicate();
                        let to = copy_tokens(&self.preprocessor.define_to);
                        self.add_rule(from, to);
                    }
                    self.preprocessor.reset();
                } else if !self.preprocessor.define_from.same_as(&Token::Pound) {
                    self.preprocessor.define_to.push(token.token);
                    assert(token_views(self.preprocessor.define_to@) =~= token_views(
                        old(self).preprocessor.define_to@,
                    ).push(token.token@));
                } else {
                    let mut e = copy_str("Found unexpected token `");
                    let shown = token.token.to_display_string();
                    e.append(shown.as_str());
                    e.append("` while waiting for new line.");
                    self.push_error(e);
                }
            },
            PreprocessorState::Idle => {
                if self.strip_whitespace {
                    if let Token::NewLine = token.token {
                        return;
                    }
                }
                self.emit(token);
            },
        }
    }
}

/// Whether `d` spells `lower`/`upper` in any mix of cases.
fn spelled_ignoring_case_exec(d: &String, lower: &str, upper: &str) -> (r: bool)
    requires
        lower@.len() == upper@.len(),
    ensures
        r == spelled_ignoring_case(d@, lower@, upper@),
{
    let n = d.as_str().unicode_len();
    if n != lower.unicode_len() {
        return false;
    }
    let mut i: usize = 0;
    while i < n
        invariant
            n == d@.len(),
            n == lower@.len(),
            n == upper@.len(),
            i <= n,
            forall|j: int| 0 <= j < i ==> d@[j] == lower@[j] || d@[j] == upper@[j],
        decreases n - i,
    {
        let c = d.as_str().get_char(i);
        if c != lower.get_char(i) && c != upper.get_char(i) {
            return false;
        }
        i += 1;
    }
    true
}

impl Lexer {
    /// Reads the characters of the next token.
    fn lex_next_token(&mut self) -> (r: Result<SpannedToken, String>)
        requires
            old(self).well_formed(),
            !stopped(old(self)@),
        ensures
            final(self).well_formed(),
            final(self)@ == moved(old(self)@),
            match r {
                Ok(t) => scan_raw(old(self)@.input, old(self)@.position as int).0 == Raw::Tok(t.token@)
                    && t.span == step_span(old(self)@),
                Err(e) => scan_raw(old(self)@.input, old(self)@.position as int).0 is Invalid
                    && e@ == invalid_character_message(
                    old(self)@.file_path,
                    moved(old(self)@).current_line,
                    moved(old(self)@).current_column,
                    scan_raw(old(self)@.input, old(self)@.position as int).0->Invalid_0,
                ),
            },
    {
        self.reset_last_position();
        let pos = self.position;
        let (raw, end) = scan_at(&self.input, pos);
        proof {
            lemma_scan_advances(self.input@, pos as int);
        }
        if char_at(&self.input, pos) == '\n' {
            self.current_line = self.current_line + 1;
            self.current_column = 1;
        } else {
            self.current_column = self.current_column + (end - pos);
        }
        self.position = end;
        match raw {
            RawToken::Tok(t) => Ok(t.spanned(self.last_line, self.last_column, self.current_line, self.current_column)),
            RawToken::Invalid(c) => {
                let mut e = copy_str(self.file_path.as_str());
                e.append(":");
                let line = decimal_string(self.current_line);
                e.append(line.as_str());
                e.append(":");
                let col = decimal_string(self.current_column);
                e.append(col.as_str());
                e.append(": Invalid character: `");
                let shown = crate::text::substring(&self.input, pos, pos + 1);
                assert(shown@ =~= seq![c]);
                e.append(shown.as_str());
                e.append("`");
                Err(e)
            },
            RawToken::Fault => {
                assert(false);
                Err(String::new())
            },
        }
    }

    /// Lexes on until the input is used up or an `#include` needs the tokens
    /// of another file. See [`lex_outcome`] for what is handed back.
    pub fn lex(&mut self) -> (r: LexStep)
        requires
            old(self).well_formed(),
            lexable(old(self)@),
        ensures
            final(self).well_formed(),
            lexable(final(self)@),
            lex_outcome(old(self)@, r),
            final(self)@ == match r {
                LexStep::Include(_) => lex_run(old(self)@),
                LexStep::Finished(_) => emptied(lex_run(old(self)@)),
            },
            blank_free(old(self)@) && no_directives_ahead(old(self)@) ==> match r {
                LexStep::Finished(Ok(ts)) => no_blank_tokens(spanned_views(ts@)),
                _ => true,
            },
    {
        proof {
            if blank_free(old(self)@) && no_directives_ahead(old(self)@) {
                law_stripping_leaves_no_blanks(old(self)@);
            }
        }
        let n = self.input.as_str().unicode_len();
        while self.position < n && self.pending_include.is_none()
            invariant
                self.well_formed(),
                n == self@.input.len(),
                lexable(self@),
                lex_run(self@) == lex_run(old(self)@),
            decreases n - self.position,
        {
            let ghost before = self@;
            proof {
                lemma_scan_advances(before.input, before.position as int);
            }
            match self.lex_next_token() {
                Ok(token) => self.consume(token),
                Err(e) => self.push_error(e),
            }
            proof {
                assert(self@ == step(before));
                lemma_step_moves(before);
            }
        }
        match &self.pending_include {
            Some(path) => LexStep::Include(path.clone()),
            None => {
                let mut tokens: Vec<SpannedToken> = Vec::new();
                let mut errors: Vec<String> = Vec::new();
                std::mem::swap(&mut tokens, &mut self.tokens);
                std::mem::swap(&mut errors, &mut self.errors);
                assert(spanned_views(self.tokens@) =~= Seq::empty());
                assert(self.errors@.map_values(|e: String| e@) =~= Seq::empty());
                if errors.len() == 0 {
                    LexStep::Finished(Ok(tokens))
                } else {
                    LexStep::Finished(Err(errors))
                }
            },
        }
    }

    /// Hands the lexer the tokens of the file its `#include` named.
    pub fn include_tokens(&mut self, included: Vec<SpannedToken>)
        requires
            old(self)@.pending_include is Some,
        ensures
            final(self)@ == after_include(old(self)@, spanned_views(included@)),
            final(self).well_formed() == old(self).well_formed(),
    {
        let mut included = included;
        let ghost added = spanned_views(included@);
        self.tokens.append(&mut included);
        assert(spanned_views(self.tokens@) =~= spanned_views(old(self).tokens@) + added);
        self.preprocessor.state = PreprocessorState::AwaitingNewLine;
        self.pending_include = None;
    }

    /// Tells the lexer that the file its `#include` named could not be read.
    pub fn include_unreadable(&mut self)
        requires
            old(self)@.pending_include is Some,
        ensures
            final(self)@ == after_unreadable_include(old(self)@),
            final(self).well_formed() == old(self).well_formed(),
    {
        let mut e = copy_str("Failed to read file: `./");
        match &self.pending_include {
            Some(path) => e.append(path.as_str()),
            None => {},
        }
        e.append("`");
        self.pending_include = None;
        self.push_error(e);
    }
}

} // verus!
