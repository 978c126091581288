//! The analysis of a source text: the result type, the scan of a token
//! stream, and the scan of the tokenizer's stream as it comes.

use vstd::prelude::*;
use vstd::string::*;
use crate::lexeme::{ItemView, LexError, Lexeme, item_view, items_view};
use crate::machine::{ScanState, StateView, texts, versions_from, yielded};
use crate::tokenizer::{begins_with_fraction, new_lexer, next_item, pending, source, token_stream};
use solang_parser::pt::Comment;

verus! {

/// What a scan found.
#[derive(Clone, Debug, PartialEq, Eq)]
pub struct AnalysisResult {
    /// The version constraints of the top-level `pragma solidity`
    /// statements, in the order of their appearance.
    pub version_pragmas: Vec<String>,
    /// Kept for import paths. No scan fills it.
    pub imports: Vec<String>,
}

/// An `AnalysisResult` in specifications.
pub struct AnalysisResultView {
    pub version_pragmas: Seq<Seq<char>>,
    pub imports: Seq<Seq<char>>,
}

impl View for AnalysisResult {
    type V = AnalysisResultView;

    open spec fn view(&self) -> AnalysisResultView {
        AnalysisResultView {
            version_pragmas: texts(self.version_pragmas@),
            imports: texts(self.imports@),
        }
    }
}

/// The result of scanning `items` from the top level: the literals the state
/// machine extracts, and no imports.
pub open spec fn analysis_of(items: Seq<ItemView>) -> AnalysisResultView {
    AnalysisResultView {
        version_pragmas: versions_from(StateView::TopLevel, items),
        imports: Seq::empty(),
    }
}

/// Scans a token stream once, left to right, from the top level. Lex errors
/// are skipped. The scan never fails: a stream without a version pragma gives
/// an empty list.
pub fn scan(tokens: &[Result<Lexeme, LexError>]) -> (result: AnalysisResult)
    ensures
        result@ == analysis_of(items_view(tokens@)),
{
    let ghost items = items_view(tokens@);
    let mut version_pragmas: Vec<String> = Vec::new();
    let mut state = ScanState::TopLevel;
    let mut i: usize = 0;
    proof {
        assert(items.skip(0) == items);
        assert(texts(version_pragmas@) + versions_from(state@, items) == versions_from(
            state@,
            items,
        ));
    }
    while i < tokens.len()
        invariant
            i <= tokens.len(),
            items == items_view(tokens@),
            state@.wf(),
            state@.depth() <= i,
            texts(version_pragmas@) + versions_from(state@, items.skip(i as int))
                == versions_from(StateView::TopLevel, items),
        decreases tokens.len() - i,
    {
        let ghost rest = items.skip(i as int);
        let ghost before = state@;
        let ghost found = texts(version_pragmas@);
        proof {
            assert(rest.first() == item_view(tokens@[i as int]));
            assert(rest.drop_first() == items.skip(i + 1));
        }
        state = state.step(&tokens[i], &mut version_pragmas);
        proof {
            let head = yielded(before, rest.first());
            let tail = versions_from(state@, rest.drop_first());
            assert(found + (head + tail) == (found + head) + tail);
        }
        i = i + 1;
    }
    proof {
        assert(items.skip(i as int).len() == 0);
        assert(texts(version_pragmas@) + Seq::<Seq<char>>::empty() == texts(version_pragmas@));
        assert(texts(Seq::<String>::empty()) == Seq::<Seq<char>>::empty());
    }
    AnalysisResult { version_pragmas, imports: Vec::new() }
}

/// Whether `analyze` takes `input`: whether the tokenizer can be run on it.
pub fn can_analyze(input: &str) -> (yes: bool)
    ensures
        yes == !begins_with_fraction(input@),
{
    if input.unicode_len() < 2 {
        return true;
    }
    let first = input.get_char(0);
    let second = input.get_char(1);
    !(first == '.' && '0' <= second && second <= '9')
}

/// Tokenizes `input` and scans the tokens as they come, one at a time.
/// The result is the scan of the tokenizer's stream for `input`.
pub fn analyze(input: String) -> (result: AnalysisResult)
    requires
        !begins_with_fraction(input@),
    ensures
        result@ == analysis_of(token_stream(input@)),
{
    let mut comments: Vec<Comment> = Vec::new();
    let mut lexer = new_lexer(input.as_str(), &mut comments);
    let mut version_pragmas: Vec<String> = Vec::new();
    let mut state = ScanState::TopLevel;
    let ghost stream = token_stream(input@);
    let ghost mut read: nat = 0;
    proof {
        assert(texts(version_pragmas@) + versions_from(state@, stream) == versions_from(
            state@,
            stream,
        ));
    }
    loop
        invariant
            !begins_with_fraction(source(lexer)),
            stream == token_stream(input@),
            read + pending(lexer).len() <= usize::MAX,
            state@.wf(),
            state@.depth() <= read,
            texts(version_pragmas@) + versions_from(state@, pending(lexer)) == versions_from(
                StateView::TopLevel,
                stream,
            ),
        ensures
            texts(version_pragmas@) == versions_from(StateView::TopLevel, stream),
        decreases pending(lexer).len(),
    {
        let ghost rest = pending(lexer);
        let ghost before = state@;
        let ghost found = texts(version_pragmas@);
        match next_item(&mut lexer) {
            None => {
                proof {
                    assert(found + Seq::<Seq<char>>::empty() == found);
                }
                break ;
            },
            Some(item) => {
                state = state.step(&item, &mut version_pragmas);
                proof {
                    let head = yielded(before, rest.first());
                    let tail = versions_from(state@, rest.drop_first());
                    assert(found + (head + tail) == (found + head) + tail);
                    read = read + 1;
                }
            },
        }
    }
    proof {
        assert(texts(Seq::<String>::empty()) == Seq::<Seq<char>>::empty());
    }
    AnalysisResult { version_pragmas, imports: Vec::new() }
}

} // verus!
