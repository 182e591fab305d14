pub mod lex;
pub mod validate;
pub mod parse;
pub mod modules;

use vstd::prelude::*;

verus! {

/// A replacement that the lexer applies: the tokens of `string` stand for
/// those of `replacement`.
pub struct LexerCallback {
    pub string: String,
    pub replacement: String,
}

} // verus!
