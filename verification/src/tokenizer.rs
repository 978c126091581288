//! The binding to the Solidity tokenizer of `solang_parser`. Everything here
//! is believed, not proved: the types are opaque, and the contracts say what
//! the tokenizer's source shows.

use vstd::prelude::*;
use crate::lexeme::{ItemView, LexError, Lexeme, item_view};
use solang_parser::lexer::Lexer;
use solang_parser::pt::Comment;

verus! {

/// `solang_parser::lexer::Lexer`, the tokenizer: an iterator over the tokens
/// of one input. Opaque.
#[verifier::external_type_specification]
#[verifier::external_body]
pub struct ExLexer<'input>(Lexer<'input>);

/// `solang_parser::pt::Comment`, a comment the tokenizer met. Opaque; the
/// tokenizer wants a list to put them in.
#[verifier::external_type_specification]
#[verifier::external_body]
pub struct ExComment(Comment);

/// `solang_parser::lexer::Token`, the tokenizer's own token. Opaque.
#[verifier::external_type_specification]
#[verifier::external_body]
pub struct ExToken<'input>(solang_parser::lexer::Token<'input>);

/// `solang_parser::lexer::LexicalError`, the tokenizer's own error. Opaque.
#[verifier::external_type_specification]
#[verifier::external_body]
pub struct ExLexicalError(solang_parser::lexer::LexicalError);

/// The stream that the tokenizer makes of an input: what a `Lexer` made by
/// `Lexer::new` on that input, with file number 0, yields from its first item
/// to its last, each item reduced to a `Lexeme` or a `LexError`.
pub uninterp spec fn token_stream(input: Seq<char>) -> Seq<ItemView>;

/// The items that a `Lexer` has yet to yield, in order.
pub uninterp spec fn pending(lexer: Lexer<'_>) -> Seq<ItemView>;

/// The input that a `Lexer` was made with.
pub uninterp spec fn source(lexer: Lexer<'_>) -> Seq<char>;

/// Whether an input begins with a dot and a decimal digit. On such an input
/// the tokenizer computes the end of the number's empty integer part as the
/// dot's position minus one, which at position 0 is out of range, and it
/// panics.
pub open spec fn begins_with_fraction(input: Seq<char>) -> bool {
    input.len() >= 2 && input[0] == '.' && '0' <= input[1] <= '9'
}

/// Calls `Lexer::new` with file number 0. The new lexer has yet to yield the
/// whole stream of its input. It yields at most one item for each byte of the
/// input, so their number fits in a `usize`.
#[verifier::external_body]
pub(crate) fn new_lexer<'a>(input: &'a str, comments: &'a mut Vec<Comment>) -> (lexer: Lexer<'a>)
    ensures
        source(lexer) == input@,
        pending(lexer) == token_stream(input@),
        pending(lexer).len() <= usize::MAX,
{
    Lexer::new(input, 0, comments)
}

/// Calls `Iterator::next` on a `Lexer` and reduces the item to the shapes the
/// scanner tells apart. While items are pending it hands out the first of
/// them and leaves the rest pending; it returns `None` when none is pending,
/// and none is pending after that.
/// Left out: a lexer whose input begins with a dot and a digit, on which
/// `next` panics.
#[verifier::external_body]
pub(crate) fn next_item(lexer: &mut Lexer<'_>) -> (item: Option<Result<Lexeme, LexError>>)
    requires
        !begins_with_fraction(source(*old(lexer))),
    ensures
        source(*final(lexer)) == source(*old(lexer)),
        match item {
            Some(first) => pending(*old(lexer)).len() > 0
                && item_view(first) == pending(*old(lexer)).first()
                && pending(*final(lexer)) == pending(*old(lexer)).drop_first(),
            None => pending(*old(lexer)).len() == 0 && pending(*final(lexer)).len() == 0,
        },
{
    lexer.next().map(|item| item.map_err(|_| LexError).map(|(_, token, _)| match token {
        solang_parser::lexer::Token::Pragma => Lexeme::Pragma,
        solang_parser::lexer::Token::Identifier(text) => Lexeme::Identifier(text.to_string()),
        solang_parser::lexer::Token::StringLiteral(_, text) => Lexeme::StringLiteral(text.to_string()),
        solang_parser::lexer::Token::Semicolon => Lexeme::Semicolon,
        solang_parser::lexer::Token::OpenCurlyBrace => Lexeme::OpenBrace,
        solang_parser::lexer::Token::CloseCurlyBrace => Lexeme::CloseBrace,
        _ => Lexeme::Other,
    }))
}

} // verus!
