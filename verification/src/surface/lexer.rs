//! The tokens of the surface language, and the errors of the lexer.

use crate::source::{ByteRange, FileId};
use vstd::prelude::*;

verus! {

/// A token of the surface language. Names, holes and literals hold the text
/// that they stand for.
#[derive(Clone, Debug)]
pub enum Token<'source> {
    Name(&'source str),
    Hole(&'source str),
    StringLiteral(&'source str),
    NumberLiteral(&'source str),
    KeywordDef,
    KeywordFalse,
    KeywordFun,
    KeywordLet,
    KeywordMatch,
    KeywordOverlap,
    KeywordType,
    KeywordTrue,
    KeywordWhere,
    Colon,
    Comma,
    Equals,
    EqualsGreater,
    FullStop,
    HyphenGreater,
    LessHyphen,
    Minus,
    Pipe,
    Plus,
    Semicolon,
    Underscore,
    OpenBrace,
    CloseBrace,
    OpenBracket,
    CloseBracket,
    OpenParen,
    CloseParen,
    Error,
}

/// A token between the offsets where it starts and ends.
pub type Spanned<Tok, Loc> = (Loc, Tok, Loc);

/// An error of the lexer.
#[derive(Clone, Debug)]
pub enum Error {
    UnexpectedCharacter { range: ByteRange },
}

impl Error {
    /// The range of the source that the error is about.
    pub fn range(&self) -> (range: ByteRange)
        ensures
            range == self->range,
    {
        match self {
            Error::UnexpectedCharacter { range } => *range,
        }
    }

    /// The message that a diagnostic for the error carries.
    pub fn message(&self) -> (message: &'static str)
        ensures
            message@ == "unexpected character"@,
    {
        match self {
            Error::UnexpectedCharacter { .. } => "unexpected character",
        }
    }

    /// The file that the error is in.
    pub fn file_id(&self) -> (file_id: FileId)
        ensures
            file_id == self->range.file_id,
    {
        match self {
            Error::UnexpectedCharacter { range } => range.file_id(),
        }
    }
}

impl<'source> Token<'source> {
    /// How a message names the token.
    pub open spec fn spec_description(&self) -> Seq<char> {
        match self {
            Token::Name(_) => "name"@,
            Token::Hole(_) => "hole"@,
            Token::StringLiteral(_) => "string literal"@,
            Token::NumberLiteral(_) => "number literal"@,
            Token::KeywordDef => "def"@,
            Token::KeywordFalse => "false"@,
            Token::KeywordFun => "fun"@,
            Token::KeywordLet => "let"@,
            Token::KeywordMatch => "match"@,
            Token::KeywordOverlap => "overlap"@,
            Token::KeywordType => "Type"@,
            Token::KeywordTrue => "true"@,
            Token::KeywordWhere => "where"@,
            Token::Colon => ":"@,
            Token::Comma => ","@,
            Token::Equals => "=>"@,
            Token::EqualsGreater => "=>"@,
            Token::FullStop => "."@,
            Token::HyphenGreater => "->"@,
            Token::LessHyphen => "<-"@,
            Token::Minus => "-"@,
            Token::Pipe => "|"@,
            Token::Plus => "+"@,
            Token::Semicolon => ";"@,
            Token::Underscore => "_"@,
            Token::OpenBrace => "{"@,
            Token::CloseBrace => "}"@,
            Token::OpenBracket => "["@,
            Token::CloseBracket => "]"@,
            Token::OpenParen => "("@,
            Token::CloseParen => ")"@,
            Token::Error => "error"@,
        }
    }

    pub fn description(&self) -> (description: &'static str)
        ensures
            description@ == self.spec_description(),
    {
        match self {
            Token::Name(_) => "name",
            Token::Hole(_) => "hole",
            Token::StringLiteral(_) => "string literal",
            Token::NumberLiteral(_) => "number literal",
            Token::KeywordDef => "def",
            Token::KeywordFalse => "false",
            Token::KeywordFun => "fun",
            Token::KeywordLet => "let",
            Token::KeywordMatch => "match",
            Token::KeywordOverlap => "overlap",
            Token::KeywordType => "Type",
            Token::KeywordTrue => "true",
            Token::KeywordWhere => "where",
            Token::Colon => ":",
            Token::Comma => ",",
            Token::Equals => "=>",
            Token::EqualsGreater => "=>",
            Token::FullStop => ".",
            Token::HyphenGreater => "->",
            Token::LessHyphen => "<-",
            Token::Minus => "-",
            Token::Pipe => "|",
            Token::Plus => "+",
            Token::Semicolon => ";",
            Token::Underscore => "_",
            Token::OpenBrace => "{",
            Token::CloseBrace => "}",
            Token::OpenBracket => "[",
            Token::CloseBracket => "]",
            Token::OpenParen => "(",
            Token::CloseParen => ")",
            Token::Error => "error",
        }
    }
}

} // verus!
