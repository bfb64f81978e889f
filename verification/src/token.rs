//! The tokens of the language.

use vstd::prelude::*;

verus! {

/// A classified piece of source text. The operators and brackets carry the
/// character that was matched, the literals and identifiers their text.
#[derive(Debug, PartialEq, Eq)]
pub enum Token {
    /// `=`
    Assign(char),
    /// `+`
    Plus(char),
    /// `-`
    Minus(char),
    /// `{`
    LCurly(char),
    /// `}`
    RCurly(char),
    /// `(`
    LParen(char),
    /// `)`
    RParen(char),
    /// A `.` that accesses a member.
    Dot,
    /// A numeric literal.
    Num(Vec<char>),
    /// An identifier.
    Ident(Vec<char>),
    /// The text of a string literal, without its quotes.
    String(Vec<char>),
    /// The end of a statement: a newline or `;`.
    EndOfLine,
    /// A character that begins nothing the language knows.
    Invalid(char),
}

/// The mathematical value of a [`Token`].
pub ghost enum TokenView {
    Assign(char),
    Plus(char),
    Minus(char),
    LCurly(char),
    RCurly(char),
    LParen(char),
    RParen(char),
    Dot,
    Num(Seq<char>),
    Ident(Seq<char>),
    String(Seq<char>),
    EndOfLine,
    Invalid(char),
}

impl View for Token {
    type V = TokenView;

    open spec fn view(&self) -> TokenView {
        match *self {
            Token::Assign(c) => TokenView::Assign(c),
            Token::Plus(c) => TokenView::Plus(c),
            Token::Minus(c) => TokenView::Minus(c),
            Token::LCurly(c) => TokenView::LCurly(c),
            Token::RCurly(c) => TokenView::RCurly(c),
            Token::LParen(c) => TokenView::LParen(c),
            Token::RParen(c) => TokenView::RParen(c),
            Token::Dot => TokenView::Dot,
            Token::Num(text) => TokenView::Num(text@),
            Token::Ident(text) => TokenView::Ident(text@),
            Token::String(text) => TokenView::String(text@),
            Token::EndOfLine => TokenView::EndOfLine,
            Token::Invalid(c) => TokenView::Invalid(c),
        }
    }
}

} // verus!
