//! The tokens the scanner reacts to, and their mathematical view.

use vstd::prelude::*;

verus! {

/// A lexical token, reduced to the shapes the scanner tells apart.
#[derive(Clone, Debug, PartialEq, Eq)]
pub enum Lexeme {
    /// The `pragma` keyword.
    Pragma,
    /// A bare identifier, with its text.
    Identifier(String),
    /// A string literal, with its content.
    StringLiteral(String),
    /// `;`
    Semicolon,
    /// `{`
    OpenBrace,
    /// `}`
    CloseBrace,
    /// Any other token.
    Other,
}

/// What a `Lexeme` is in specifications: the same shapes, over sequences of
/// characters.
pub enum LexemeView {
    Pragma,
    Identifier(Seq<char>),
    StringLiteral(Seq<char>),
    Semicolon,
    OpenBrace,
    CloseBrace,
    Other,
}

impl View for Lexeme {
    type V = LexemeView;

    open spec fn view(&self) -> LexemeView {
        match self {
            Lexeme::Pragma => LexemeView::Pragma,
            Lexeme::Identifier(text) => LexemeView::Identifier(text@),
            Lexeme::StringLiteral(text) => LexemeView::StringLiteral(text@),
            Lexeme::Semicolon => LexemeView::Semicolon,
            Lexeme::OpenBrace => LexemeView::OpenBrace,
            Lexeme::CloseBrace => LexemeView::CloseBrace,
            Lexeme::Other => LexemeView::Other,
        }
    }
}

/// A failure to tokenize some span of the input. It carries nothing: the
/// scanner skips it whatever its cause.
#[derive(Clone, Copy, Debug, PartialEq, Eq)]
pub struct LexError;

/// One element of a token stream, as specifications see it.
pub type ItemView = Result<LexemeView, LexError>;

/// The view of one element of a token stream.
pub open spec fn item_view(item: Result<Lexeme, LexError>) -> ItemView {
    match item {
        Ok(lexeme) => Ok(lexeme@),
        Err(e) => Err(e),
    }
}

/// The view of a token stream, element by element.
pub open spec fn items_view(items: Seq<Result<Lexeme, LexError>>) -> Seq<ItemView> {
    items.map_values(|item: Result<Lexeme, LexError>| item_view(item))
}

} // verus!
