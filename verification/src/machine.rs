//! The scanner's state machine: its states, its transition table, and the run
//! of the table over a token stream.

use vstd::prelude::*;
use crate::lexeme::{ItemView, LexError, Lexeme, LexemeView, item_view};

verus! {

/// Where the scanner stands between two tokens.
#[derive(Clone, Copy, Debug, PartialEq, Eq)]
pub enum ScanState {
    /// Outside any statement or block.
    TopLevel,
    /// The previous token was `pragma`.
    PragmaSeen,
    /// The previous two tokens were `pragma` and the identifier `solidity`.
    PragmaSolidityTargeted,
    /// Inside a top-level statement of no interest, up to its terminator.
    SkippingStatement,
    /// Inside braces; the number counts the open braces not yet closed.
    InBlock(usize),
}

/// A `ScanState` in specifications, with an unbounded depth.
pub enum StateView {
    TopLevel,
    PragmaSeen,
    PragmaSolidityTargeted,
    SkippingStatement,
    InBlock(nat),
}

impl StateView {
    /// The number of open braces: zero outside a block.
    pub open spec fn depth(self) -> nat {
        match self {
            StateView::InBlock(depth) => depth,
            _ => 0,
        }
    }

    /// A block state counts at least one open brace.
    pub open spec fn wf(self) -> bool {
        self matches StateView::InBlock(depth) ==> depth >= 1
    }
}

impl View for ScanState {
    type V = StateView;

    open spec fn view(&self) -> StateView {
        match self {
            ScanState::TopLevel => StateView::TopLevel,
            ScanState::PragmaSeen => StateView::PragmaSeen,
            ScanState::PragmaSolidityTargeted => StateView::PragmaSolidityTargeted,
            ScanState::SkippingStatement => StateView::SkippingStatement,
            ScanState::InBlock(depth) => StateView::InBlock(*depth as nat),
        }
    }
}

/// The identifier that makes a pragma a version pragma.
pub open spec fn solidity() -> Seq<char> {
    "solidity"@
}

/// The transition table: the state after `token` is read in `state`.
pub open spec fn next_state(state: StateView, token: LexemeView) -> StateView {
    match state {
        StateView::InBlock(depth) => match token {
            LexemeView::OpenBrace => StateView::InBlock(depth + 1),
            LexemeView::CloseBrace => if depth > 1 {
                StateView::InBlock((depth - 1) as nat)
            } else {
                StateView::TopLevel
            },
            _ => state,
        },
        _ => match token {
            LexemeView::OpenBrace => StateView::InBlock(1),
            LexemeView::Semicolon => StateView::TopLevel,
            LexemeView::Pragma => if state is TopLevel {
                StateView::PragmaSeen
            } else {
                StateView::SkippingStatement
            },
            LexemeView::Identifier(text) => if state is PragmaSeen && text == solidity() {
                StateView::PragmaSolidityTargeted
            } else {
                StateView::SkippingStatement
            },
            _ => StateView::SkippingStatement,
        },
    }
}

/// The table's one action: the literals that reading `token` in `state`
/// extracts. A string literal right after `pragma solidity` is extracted;
/// nothing else is.
pub open spec fn emitted(state: StateView, token: LexemeView) -> Seq<Seq<char>> {
    match token {
        LexemeView::StringLiteral(text) if state is PragmaSolidityTargeted => seq![text],
        _ => Seq::empty(),
    }
}

/// The state after one element of the stream: a lex error changes nothing.
pub open spec fn settle(state: StateView, item: ItemView) -> StateView {
    match item {
        Ok(token) => next_state(state, token),
        Err(_) => state,
    }
}

/// The literals that one element of the stream extracts.
pub open spec fn yielded(state: StateView, item: ItemView) -> Seq<Seq<char>> {
    match item {
        Ok(token) => emitted(state, token),
        Err(_) => Seq::empty(),
    }
}

/// The state after the whole of `items`, read from `state` on.
pub open spec fn state_after(state: StateView, items: Seq<ItemView>) -> StateView
    decreases items.len(),
{
    if items.len() == 0 {
        state
    } else {
        state_after(settle(state, items.first()), items.drop_first())
    }
}

/// The literals extracted from `items`, read from `state` on, in the order of
/// their appearance.
pub open spec fn versions_from(state: StateView, items: Seq<ItemView>) -> Seq<Seq<char>>
    decreases items.len(),
{
    if items.len() == 0 {
        Seq::empty()
    } else {
        yielded(state, items.first()) + versions_from(
            settle(state, items.first()),
            items.drop_first(),
        )
    }
}

/// The view of a list of strings.
pub open spec fn texts(strings: Seq<String>) -> Seq<Seq<char>> {
    strings.map_values(|s: String| s@)
}

impl ScanState {
    /// Reads one element of the stream: moves to the next state of the table
    /// and appends to `versions` what the element extracts. The depth must
    /// leave room for one more brace.
    pub fn step(self, item: &Result<Lexeme, LexError>, versions: &mut Vec<String>) -> (next:
        ScanState)
        requires
            self@.wf(),
            self@.depth() < usize::MAX,
        ensures
            next@ == settle(self@, item_view(*item)),
            next@.wf(),
            texts(final(versions)@) == texts(old(versions)@) + yielded(self@, item_view(*item)),
    {
        let ghost before = versions@;
        proof {
            assert(texts(before) + Seq::<Seq<char>>::empty() =~= texts(before));
        }
        let token = match item {
            Ok(token) => token,
            Err(_) => {
                return self;
            },
        };
        match self {
            ScanState::InBlock(depth) => match token {
                Lexeme::OpenBrace => ScanState::InBlock(depth + 1),
                Lexeme::CloseBrace => if depth == 1 {
                    ScanState::TopLevel
                } else {
                    ScanState::InBlock(depth - 1)
                },
                _ => self,
            },
            _ => match token {
                Lexeme::OpenBrace => ScanState::InBlock(1),
                Lexeme::Semicolon => ScanState::TopLevel,
                Lexeme::Pragma => match self {
                    ScanState::TopLevel => ScanState::PragmaSeen,
                    _ => ScanState::SkippingStatement,
                },
                Lexeme::Identifier(text) => match self {
                    ScanState::PragmaSeen => if is_solidity(text) {
                        ScanState::PragmaSolidityTargeted
                    } else {
                        ScanState::SkippingStatement
                    },
                    _ => ScanState::SkippingStatement,
                },
                Lexeme::StringLiteral(text) => {
                    match self {
                        ScanState::PragmaSolidityTargeted => {
                            versions.push(text.clone());
                            proof {
                                assert(texts(versions@) =~= texts(before) + seq![text@]);
                            }
                        },
                        _ => {},
                    }
                    ScanState::SkippingStatement
                },
                _ => ScanState::SkippingStatement,
            },
        }
    }
}

/// Whether `text` is the identifier `solidity`.
fn is_solidity(text: &String) -> (yes: bool)
    ensures
        yes == (text@ == solidity()),
{
    let wanted = String::from_str("solidity");
    *text == wanted
}

} // verus!
