//! Lexer callbacks: replacements given as source text, each side lexed on
//! its own before the rule is registered.
use vstd::prelude::*;

use crate::frontend::LexerCallback;
use crate::text::copy_str;
use super::scan::clean_from;
use super::token::{SpannedToken, SpannedTokenV, TokenV, spanned_views};
use super::{LexStep, Lexer, LexerV, blank_free, fresh_lexer, is_blank, law_stripping_leaves_no_blanks, lex_run, no_blank_tokens};

verus! {

/// Text that a lexer can take whole: ASCII, not too long, and free of the
/// faults that stop lexing.
pub open spec fn lexable_text(s: Seq<char>) -> bool {
    &&& vstd::utf8::is_ascii_chars(s)
    &&& s.len() < usize::MAX
    &&& clean_from(s, 0)
}

/// The lexer after a fresh lexer has taken all of `text`.
pub open spec fn lexed_alone(path: Seq<char>, text: Seq<char>) -> LexerV {
    lex_run(fresh_lexer(path, text, true))
}

/// Each of `lines`, followed by a line break.
pub open spec fn lines(lines: Seq<Seq<char>>) -> Seq<char>
    decreases lines.len(),
{
    if lines.len() == 0 {
        Seq::empty()
    } else {
        self::lines(lines.drop_last()) + lines.last() + "\n"@
    }
}

/// Why lexing `text` on its own gave no tokens: its errors, or an
/// `#include`, whose file cannot be read for a callback.
pub open spec fn lone_failure(path: Seq<char>, text: Seq<char>) -> Seq<char> {
    let w = lexed_alone(path, text);
    match w.pending_include {
        Some(p) => "Cannot include `"@ + p + "` in `"@ + path + "`"@,
        None => "Lexing errors: \n\n"@ + lines(w.errors),
    }
}

/// Lexing `text` on its own gives tokens: it has no error and no `#include`.
pub open spec fn lexes_alone(path: Seq<char>, text: Seq<char>) -> bool {
    lexed_alone(path, text).pending_include is None && lexed_alone(path, text).errors.len() == 0
}

/// The callback's `string` is a single token, as only single-token strings
/// are supported, wherever it lexes at all.
pub open spec fn single_token_string(string: Seq<char>) -> bool {
    lexes_alone("custom input"@, string) ==> lexed_alone("custom input"@, string).tokens.len() == 1
}

/// The callback's `replacement` gives no whitespace or line-break token,
/// wherever it lexes at all.
pub open spec fn blank_free_replacement(replacement: Seq<char>) -> bool {
    lexes_alone("custom output"@, replacement) ==> no_blank_tokens(lexed_alone("custom output"@, replacement).tokens)
}

/// A replacement text with no `#` in it gives no whitespace or line-break
/// token.
pub proof fn lemma_replacement_without_directives(replacement: Seq<char>)
    requires
        forall|j: int| 0 <= j < replacement.len() ==> replacement[j] != '#',
    ensures
        blank_free_replacement(replacement),
{
    law_stripping_leaves_no_blanks(fresh_lexer("custom output"@, replacement, true));
}

/// The rule that a callback (`string`, `replacement`) makes: the single
/// token of its `string` (see `single_token_string`) becomes the tokens of
/// its `replacement`.
pub open spec fn callback_rule(string: Seq<char>, replacement: Seq<char>) -> Result<(TokenV, Seq<TokenV>), Seq<char>> {
    let input = lexed_alone("custom input"@, string);
    let output = lexed_alone("custom output"@, replacement);
    if !lexes_alone("custom input"@, string) {
        Err(lone_failure("custom input"@, string))
    } else if !lexes_alone("custom output"@, replacement) {
        Err(lone_failure("custom output"@, replacement))
    } else {
        Ok((input.tokens[0].token, output.tokens.map_values(|t: SpannedTokenV| t.token)))
    }
}

/// The lexer after the rules of the first `n` callbacks: they are registered
/// in order, up to the first that fails.
pub open spec fn callbacks_applied(v: LexerV, callbacks: Seq<(Seq<char>, Seq<char>)>, n: nat) -> (LexerV, Result<(), Seq<char>>)
    decreases n,
{
    if n == 0 || n > callbacks.len() {
        (v, Ok(()))
    } else {
        let before = callbacks_applied(v, callbacks, (n - 1) as nat);
        match before.1 {
            Err(m) => before,
            Ok(()) => match callback_rule(callbacks[n - 1].0, callbacks[n - 1].1) {
                Err(m) => (before.0, Err(m)),
                Ok(rule) => (LexerV { replacements: before.0.replacements.insert(rule.0, rule.1), ..before.0 }, Ok(())),
            },
        }
    }
}

/// Once a callback failed, the later ones change nothing.
proof fn lemma_callbacks_stay(v: LexerV, callbacks: Seq<(Seq<char>, Seq<char>)>, n: nat, m: nat)
    requires
        n <= m <= callbacks.len(),
        callbacks_applied(v, callbacks, n).1 is Err,
    ensures
        callbacks_applied(v, callbacks, m) == callbacks_applied(v, callbacks, n),
    decreases m,
{
    if m > n {
        lemma_callbacks_stay(v, callbacks, n, (m - 1) as nat);
    }
}

/// Rules from replacements that give no whitespace or line-break token keep
/// a lexer free of such tokens.
proof fn lemma_callbacks_keep_blank_free(v: LexerV, callbacks: Seq<(Seq<char>, Seq<char>)>, n: nat)
    requires
        blank_free(v),
        forall|i: int| 0 <= i < callbacks.len() ==> blank_free_replacement(#[trigger] callbacks[i].1),
    ensures
        blank_free(callbacks_applied(v, callbacks, n).0),
    decreases n,
{
    if n > 0 && n <= callbacks.len() {
        lemma_callbacks_keep_blank_free(v, callbacks, (n - 1) as nat);
        let before = callbacks_applied(v, callbacks, (n - 1) as nat);
        let cb = callbacks[n - 1];
        assert(blank_free_replacement(cb.1));
        if before.1 is Ok {
            if let Ok(rule) = callback_rule(cb.0, cb.1) {
                let out = lexed_alone("custom output"@, cb.1).tokens;
                assert forall|i: int| 0 <= i < rule.1.len() implies !is_blank(#[trigger] rule.1[i]) by {
                    assert(rule.1[i] == out[i].token);
                }
                let r2 = before.0.replacements.insert(rule.0, rule.1);
                assert forall|k: TokenV, i: int| r2.contains_key(k) && 0 <= i < r2[k].len() implies !is_blank(#[trigger] r2[k][i]) by {
                    if k != rule.0 {
                        assert(before.0.replacements.contains_key(k));
                        assert(r2[k] == before.0.replacements[k]);
                    }
                }
            }
        }
    }
}

/// What parsing `callbacks` keeps of a lexer free of whitespace tokens.
proof fn lemma_parse_callbacks_blank_free(v: LexerV, callbacks: Seq<LexerCallback>)
    ensures
        blank_free(v) && (forall|i: int| 0 <= i < callbacks.len()
            ==> blank_free_replacement(#[trigger] callbacks[i].replacement@))
            ==> blank_free(callbacks_applied(v, callback_texts(callbacks), callbacks.len()).0),
{
    let texts = callback_texts(callbacks);
    if blank_free(v) && (forall|i: int| 0 <= i < callbacks.len()
        ==> blank_free_replacement(#[trigger] callbacks[i].replacement@)) {
        assert forall|j: int| 0 <= j < texts.len() implies blank_free_replacement(#[trigger] texts[j].1) by {
            assert(texts[j].1 == callbacks[j].replacement@);
        }
        lemma_callbacks_keep_blank_free(v, texts, callbacks.len());
    }
}

pub open spec fn callback_texts(callbacks: Seq<LexerCallback>) -> Seq<(Seq<char>, Seq<char>)> {
    callbacks.map_values(|c: LexerCallback| (c.string@, c.replacement@))
}

fn lines_of(errors: &Vec<String>) -> (r: String)
    ensures
        r@ == lines(errors@.map_values(|e: String| e@)),
{
    let ghost es = errors@.map_values(|e: String| e@);
    let mut r = String::new();
    let mut i: usize = 0;
    while i < errors.len()
        invariant
            i <= errors@.len(),
            es == errors@.map_values(|e: String| e@),
            r@ == lines(es.take(i as int)),
        decreases errors@.len() - i,
    {
        assert(es.take(i + 1).drop_last() =~= es.take(i as int));
        r.append(errors[i].as_str());
        r.append("\n");
        i += 1;
    }
    assert(es.take(i as int) =~= es);
    r
}

/// Lexes `text` with a lexer of its own.
fn lex_alone(path: &str, text: &String) -> (r: Result<Vec<SpannedToken>, String>)
    requires
        lexable_text(text@),
    ensures
        match r {
            Ok(ts) => lexes_alone(path@, text@) && spanned_views(ts@) == lexed_alone(path@, text@).tokens,
            Err(e) => !lexes_alone(path@, text@) && e@ == lone_failure(path@, text@),
        },
{
    let mut lexer = Lexer::new(copy_str(path), text.clone(), true);
    match lexer.lex() {
        LexStep::Finished(Ok(tokens)) => Ok(tokens),
        LexStep::Finished(Err(errors)) => {
            let mut m = copy_str("Lexing errors: \n\n");
            let shown = lines_of(&errors);
            m.append(shown.as_str());
            Err(m)
        },
        LexStep::Include(p) => {
            let mut m = copy_str("Cannot include `");
            m.append(p.as_str());
            m.append("` in `");
            m.append(path);
            m.append("`");
            Err(m)
        },
    }
}

impl Lexer {
    /// Registers the replacement of each callback, in order: the single
    /// token of its `string` is read as the tokens of its `replacement`.
    /// Stops at the first callback whose texts do not lex on their own, with
    /// the reason.
    pub fn parse_callbacks(&mut self, callbacks: Vec<LexerCallback>) -> (r: Result<(), String>)
        requires
            forall|i: int| 0 <= i < callbacks@.len() ==> lexable_text(#[trigger] callbacks@[i].string@)
                && lexable_text(callbacks@[i].replacement@) && single_token_string(callbacks@[i].string@),
        ensures
            final(self)@ == callbacks_applied(old(self)@, callback_texts(callbacks@), callbacks@.len()).0,
            final(self).well_formed() == old(self).well_formed(),
            blank_free(old(self)@) && (forall|i: int| 0 <= i < callbacks@.len()
                ==> blank_free_replacement(#[trigger] callbacks@[i].replacement@)) ==> blank_free(final(self)@),
            match r {
                Ok(()) => callbacks_applied(old(self)@, callback_texts(callbacks@), callbacks@.len()).1 is Ok,
                Err(e) => callbacks_applied(old(self)@, callback_texts(callbacks@), callbacks@.len()).1
                    == Err::<(), Seq<char>>(e@),
            },
    {
        let ghost texts = callback_texts(callbacks@);
        let mut i: usize = 0;
        while i < callbacks.len()
            invariant
                i <= callbacks@.len(),
                texts == callback_texts(callbacks@),
                forall|j: int| 0 <= j < callbacks@.len() ==> lexable_text(#[trigger] callbacks@[j].string@)
                    && lexable_text(callbacks@[j].replacement@) && single_token_string(callbacks@[j].string@),
                self@ == callbacks_applied(old(self)@, texts, i as nat).0,
                callbacks_applied(old(self)@, texts, i as nat).1 is Ok,
                self.well_formed() == old(self).well_formed(),
            decreases callbacks@.len() - i,
        {
            let cb = &callbacks[i];
            assert(texts[i as int] == (cb.string@, cb.replacement@));
            let input = lex_alone("custom input", &cb.string);
            let output = lex_alone("custom output", &cb.replacement);
            let input = match input {
                Err(e) => {
                    proof {
                        lemma_callbacks_stay(old(self)@, texts, (i + 1) as nat, callbacks@.len());
                        lemma_parse_callbacks_blank_free(old(self)@, callbacks@);
                    }
                    return Err(e);
                },
                Ok(ts) => ts,
            };
            let output = match output {
                Err(e) => {
                    proof {
                        lemma_callbacks_stay(old(self)@, texts, (i + 1) as nat, callbacks@.len());
                        lemma_parse_callbacks_blank_free(old(self)@, callbacks@);
                    }
                    return Err(e);
                },
                Ok(ts) => ts,
            };
            let mut to: Vec<super::token::Token> = Vec::new();
            let mut k: usize = 0;
            while k < output.len()
                invariant
                    k <= output@.len(),
                    to@.len() == k,
                    forall|j: int| 0 <= j < k ==> #[trigger] to@[j]@ == output@[j]@.token,
                decreases output@.len() - k,
            {
                to.push(output[k].token.duplicate());
                k += 1;
            }
            proof {
                assert(super::token::token_views(to@) =~= spanned_views(output@).map_values(|t: SpannedTokenV| t.token));
            }
            let from = input[0].token.duplicate();
            assert(from@ == spanned_views(input@)[0].token);
            self.add_rule(from, to);
            i += 1;
        }
        proof {
            lemma_parse_callbacks_blank_free(old(self)@, callbacks@);
        }
        Ok(())
    }
}

} // verus!
