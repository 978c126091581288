//! What holds of every scan, proved from the transition table.

use vstd::prelude::*;
use crate::analysis::{AnalysisResult, analysis_of};
use crate::lexeme::{ItemView, LexError, LexemeView};
use crate::machine::{StateView, next_state, settle, state_after, versions_from};
use crate::tokenizer::token_stream;

verus! {

/// A scan can be cut anywhere: reading `head` and then `tail` from the state
/// that `head` left gives the state and the literals of reading both at once.
/// So what a scan has found stays found, in its place, whatever follows.
pub proof fn lemma_scan_splits(state: StateView, head: Seq<ItemView>, tail: Seq<ItemView>)
    ensures
        state_after(state, head + tail) == state_after(state_after(state, head), tail),
        versions_from(state, head + tail) == versions_from(state, head) + versions_from(
            state_after(state, head),
            tail,
        ),
        versions_from(state, head).is_prefix_of(versions_from(state, head + tail)),
    decreases head.len(),
{
    if head.len() == 0 {
        assert(head + tail == tail);
        assert(Seq::<Seq<char>>::empty() + versions_from(state, tail) == versions_from(
            state,
            tail,
        ));
    } else {
        let next = settle(state, head.first());
        assert((head + tail).first() == head.first());
        assert((head + tail).drop_first() == head.drop_first() + tail);
        lemma_scan_splits(next, head.drop_first(), tail);
    }
}

/// A lex error is transparent: put anywhere into a stream, it changes neither
/// the state the scan ends in nor the literals it finds.
pub proof fn lemma_lex_error_is_skipped(
    state: StateView,
    head: Seq<ItemView>,
    error: LexError,
    tail: Seq<ItemView>,
)
    ensures
        state_after(state, head + seq![Err(error)] + tail) == state_after(state, head + tail),
        versions_from(state, head + seq![Err(error)] + tail) == versions_from(
            state,
            head + tail,
        ),
{
    let middle = state_after(state, head);
    let skipped: Seq<ItemView> = seq![Err(error)];
    assert(head + skipped + tail == head + (skipped + tail));
    lemma_scan_splits(state, head, skipped + tail);
    lemma_scan_splits(state, head, tail);
    assert((skipped + tail).first() == skipped[0]);
    assert((skipped + tail).drop_first() == tail);
    assert(Seq::<Seq<char>>::empty() + versions_from(middle, tail) == versions_from(
        middle,
        tail,
    ));
}

/// Whether the stream holds the `pragma` keyword.
pub open spec fn has_pragma(items: Seq<ItemView>) -> bool {
    exists|i: int| 0 <= i < items.len() && items[i] == Ok::<LexemeView, LexError>(LexemeView::Pragma)
}

/// Read from a state that is not inside a pragma, a stream without the
/// `pragma` keyword never gets inside one, and nothing is found.
proof fn lemma_no_pragma_from(state: StateView, items: Seq<ItemView>)
    requires
        !has_pragma(items),
        !(state is PragmaSeen),
        !(state is PragmaSolidityTargeted),
    ensures
        versions_from(state, items) == Seq::<Seq<char>>::empty(),
    decreases items.len(),
{
    if items.len() > 0 {
        let rest = items.drop_first();
        assert(items[0] != Ok::<LexemeView, LexError>(LexemeView::Pragma));
        assert(!has_pragma(rest)) by {
            if has_pragma(rest) {
                let i = choose|i: int|
                    0 <= i < rest.len() && rest[i] == Ok::<LexemeView, LexError>(
                        LexemeView::Pragma,
                    );
                assert(items[i + 1] == rest[i]);
            }
        }
        lemma_no_pragma_from(settle(state, items.first()), rest);
    }
}

/// A stream without the `pragma` keyword holds no version pragma.
pub proof fn lemma_no_pragma_no_versions(items: Seq<ItemView>)
    requires
        !has_pragma(items),
    ensures
        analysis_of(items).version_pragmas == Seq::<Seq<char>>::empty(),
{
    lemma_no_pragma_from(StateView::TopLevel, items);
}

/// Whether the scan of `items` from `state` is inside a block before and
/// after each of its elements.
pub open spec fn stays_in_block(state: StateView, items: Seq<ItemView>) -> bool {
    forall|k: int| 0 <= k <= items.len() ==> #[trigger] state_after(state, items.take(k)) is InBlock
}

/// What stands inside a block is not inspected: as long as the scan is inside
/// a block it finds nothing, whatever the tokens look like.
pub proof fn lemma_block_content_is_not_inspected(state: StateView, items: Seq<ItemView>)
    requires
        stays_in_block(state, items),
    ensures
        versions_from(state, items) == Seq::<Seq<char>>::empty(),
    decreases items.len(),
{
    assert(items.take(0).len() == 0);
    assert(state_after(state, items.take(0)) is InBlock);
    if items.len() > 0 {
        let next = settle(state, items.first());
        let rest = items.drop_first();
        assert forall|k: int| 0 <= k <= rest.len() implies #[trigger] state_after(
            next,
            rest.take(k),
        ) is InBlock by {
            let longer = items.take(k + 1);
            assert(longer.first() == items.first());
            assert(longer.drop_first() == rest.take(k));
            assert(state_after(state, longer) is InBlock);
        }
        lemma_block_content_is_not_inspected(next, rest);
    }
}

/// The depth invariant. A well-formed state stays well formed through any
/// stream, so a block state always counts at least one open brace, and the
/// depth grows by at most one for each element read.
pub proof fn lemma_depth_invariant(state: StateView, items: Seq<ItemView>)
    requires
        state.wf(),
    ensures
        state_after(state, items).wf(),
        state_after(state, items).depth() <= state.depth() + items.len(),
    decreases items.len(),
{
    if items.len() > 0 {
        lemma_depth_invariant(settle(state, items.first()), items.drop_first());
    }
}

/// A closing brace outside any block is no error and opens nothing: it is
/// read as any other token, and the statement it stands in is skipped.
pub proof fn lemma_stray_close_brace(state: StateView)
    requires
        !(state is InBlock),
    ensures
        next_state(state, LexemeView::CloseBrace) == next_state(state, LexemeView::Other),
        next_state(state, LexemeView::CloseBrace) == StateView::SkippingStatement,
{
}

/// Scanning keeps nothing between calls: two results of scanning one stream
/// are the same.
pub proof fn lemma_scan_is_a_function(
    items: Seq<ItemView>,
    first: AnalysisResult,
    second: AnalysisResult,
)
    requires
        first@ == analysis_of(items),
        second@ == analysis_of(items),
    ensures
        first@ == second@,
{
}

/// Analyzing keeps nothing between calls: two results of analyzing one text
/// are the same.
pub proof fn lemma_analyze_is_a_function(
    input: Seq<char>,
    first: AnalysisResult,
    second: AnalysisResult,
)
    requires
        first@ == analysis_of(token_stream(input)),
        second@ == analysis_of(token_stream(input)),
    ensures
        first@ == second@,
{
}

} // verus!
