//! Checks of the tokens and the errors of the lexer.

use fathom::source::ByteRange;
use fathom::surface::lexer::{Error, Token};

#[test]
fn token_descriptions() {
    assert_eq!(Token::Name("x").description(), "name");
    assert_eq!(Token::Hole("x").description(), "hole");
    assert_eq!(Token::StringLiteral("x").description(), "string literal");
    assert_eq!(Token::NumberLiteral("1").description(), "number literal");
    assert_eq!(Token::KeywordDef.description(), "def");
    assert_eq!(Token::KeywordFalse.description(), "false");
    assert_eq!(Token::KeywordFun.description(), "fun");
    assert_eq!(Token::KeywordLet.description(), "let");
    assert_eq!(Token::KeywordMatch.description(), "match");
    assert_eq!(Token::KeywordOverlap.description(), "overlap");
    assert_eq!(Token::KeywordTrue.description(), "true");
    assert_eq!(Token::KeywordType.description(), "Type");
    assert_eq!(Token::KeywordWhere.description(), "where");
    assert_eq!(Token::Colon.description(), ":");
    assert_eq!(Token::Comma.description(), ",");
    assert_eq!(Token::Equals.description(), "=>");
    assert_eq!(Token::EqualsGreater.description(), "=>");
    assert_eq!(Token::FullStop.description(), ".");
    assert_eq!(Token::HyphenGreater.description(), "->");
    assert_eq!(Token::LessHyphen.description(), "<-");
    assert_eq!(Token::Minus.description(), "-");
    assert_eq!(Token::Semicolon.description(), ";");
    assert_eq!(Token::Pipe.description(), "|");
    assert_eq!(Token::Plus.description(), "+");
    assert_eq!(Token::Underscore.description(), "_");
    assert_eq!(Token::OpenBrace.description(), "{");
    assert_eq!(Token::CloseBrace.description(), "}");
    assert_eq!(Token::OpenBracket.description(), "[");
    assert_eq!(Token::CloseBracket.description(), "]");
    assert_eq!(Token::OpenParen.description(), "(");
    assert_eq!(Token::CloseParen.description(), ")");
    assert_eq!(Token::Error.description(), "error");
}

#[test]
fn lexer_error_knows_its_range() {
    let range = ByteRange::new(3, 10, 11);
    let error = Error::UnexpectedCharacter { range };
    assert_eq!(error.range(), range);
    assert_eq!(error.range().file_id(), 3);
    assert_eq!(error.range().start(), 10);
    assert_eq!(error.range().end(), 11);
    assert_eq!(error.file_id(), 3);
    assert_eq!(error.message(), "unexpected character");
}
