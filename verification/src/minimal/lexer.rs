//! The tokens of the surface language.

use vstd::prelude::*;

verus! {

/// A token of the surface language.
#[derive(Clone, Debug)]
pub enum Token<'source> {
    Ident(&'source str),
    KeywordFun,
    KeywordLet,
    KeywordIn,
    Colon,
    Equals,
    EqualsGreater,
    HyphenGreater,
    OpenParen,
    CloseParen,
    Error,
}

/// A token between the offsets where it starts and ends.
pub type Spanned<Tok, Loc> = (Loc, Tok, Loc);

} // verus!
