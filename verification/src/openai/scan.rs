//! The backward scan that recovers the history of a conversation.

use crate::openai::event::EventError;
use crate::openai::{message_views, MessageView, OpenAIMessage};
use crate::text::texts;
use vstd::prelude::*;

verus! {

/// What one event of the history means for the backward scan.
#[derive(Debug, PartialEq, Eq)]
pub enum Processed {
    /// A usable turn and its anchor: keep it and scan on.
    Continue(String, OpenAIMessage),
    /// The boundary of the conversation: nothing older counts.
    Stop,
}

/// The mathematical value of a [`Processed`].
pub ghost enum ProcessedView {
    Continue(Seq<char>, MessageView),
    Stop,
}

impl View for Processed {
    type V = ProcessedView;

    open spec fn view(&self) -> ProcessedView {
        match self {
            Processed::Continue(id, message) => ProcessedView::Continue(id@, message@),
            Processed::Stop => ProcessedView::Stop,
        }
    }
}

/// What classifying one event gives: a signal, nothing for an event to pass
/// over, or an error.
pub type Outcome = Result<Option<Processed>, EventError>;

/// The mathematical value of an [`Outcome`].
pub type OutcomeView = Result<Option<ProcessedView>, EventError>;

/// The view of an outcome.
pub open spec fn outcome_view(outcome: Outcome) -> OutcomeView {
    match outcome {
        Ok(Some(signal)) => Ok(Some(signal@)),
        Ok(None) => Ok(None),
        Err(e) => Err(e),
    }
}

/// The views of a list of outcomes.
pub open spec fn outcome_views(outcomes: Seq<Outcome>) -> Seq<OutcomeView> {
    Seq::new(outcomes.len(), |i: int| outcome_view(outcomes[i]))
}

/// Whether an outcome ends the scan: the boundary signal, or an error.
pub open spec fn halts(outcome: OutcomeView) -> bool {
    outcome is Err || outcome == Ok::<Option<ProcessedView>, EventError>(Some(ProcessedView::Stop))
}

/// Whether an outcome carries a turn.
pub open spec fn keeps(outcome: OutcomeView) -> bool {
    outcome matches Ok(Some(ProcessedView::Continue(_, _)))
}

/// The anchor and the turn that an outcome carries.
pub open spec fn carried(outcome: OutcomeView) -> (Seq<char>, MessageView) {
    (outcome->Ok_0->0->Continue_0, outcome->Ok_0->0->Continue_1)
}

/// The first index at or after `i` whose outcome ends the scan, or the
/// number of outcomes where none does.
pub open spec fn boundary_from(outcomes: Seq<OutcomeView>, i: int) -> int
    decreases outcomes.len() - i,
{
    if 0 <= i < outcomes.len() && !halts(outcomes[i]) {
        boundary_from(outcomes, i + 1)
    } else {
        i
    }
}

/// Where the scan ends.
pub open spec fn boundary(outcomes: Seq<OutcomeView>) -> int {
    boundary_from(outcomes, 0)
}

/// The indices from `lo` up to `hi` whose outcomes carry a turn, ascending.
pub open spec fn kept_indices(outcomes: Seq<OutcomeView>, lo: int, hi: int) -> Seq<int>
    decreases hi - lo,
{
    if lo >= hi {
        Seq::empty()
    } else if keeps(outcomes[lo]) {
        seq![lo] + kept_indices(outcomes, lo + 1, hi)
    } else {
        kept_indices(outcomes, lo + 1, hi)
    }
}

/// What the outcomes from `lo` up to `hi` carry, in the order of discovery.
pub open spec fn kept(outcomes: Seq<OutcomeView>, lo: int, hi: int) -> Seq<
    (Seq<char>, MessageView),
> {
    kept_indices(outcomes, lo, hi).map_values(|k: int| carried(outcomes[k]))
}

/// What the scan retains, in the order of discovery: what the outcomes
/// before the boundary carry.
pub open spec fn retained(outcomes: Seq<OutcomeView>) -> Seq<(Seq<char>, MessageView)> {
    kept(outcomes, 0, boundary(outcomes))
}

/// The history that a scan recovers: what it retains, oldest first.
pub open spec fn history(outcomes: Seq<OutcomeView>) -> Seq<(Seq<char>, MessageView)> {
    retained(outcomes).reverse()
}

/// The anchors of a history.
pub open spec fn history_anchors(outcomes: Seq<OutcomeView>) -> Seq<Seq<char>> {
    history(outcomes).map_values(|pair: (Seq<char>, MessageView)| pair.0)
}

/// The turns of a history.
pub open spec fn history_turns(outcomes: Seq<OutcomeView>) -> Seq<MessageView> {
    history(outcomes).map_values(|pair: (Seq<char>, MessageView)| pair.1)
}

/// The boundary lies inside the list, no outcome before it ends the scan,
/// and the outcome at it does.
pub proof fn lemma_boundary_from(outcomes: Seq<OutcomeView>, i: int)
    requires
        0 <= i <= outcomes.len(),
    ensures
        i <= boundary_from(outcomes, i) <= outcomes.len(),
        forall|k: int| i <= k < boundary_from(outcomes, i) ==> !halts(#[trigger] outcomes[k]),
        boundary_from(outcomes, i) < outcomes.len() ==> halts(
            outcomes[boundary_from(outcomes, i)],
        ),
    decreases outcomes.len() - i,
{
    if i < outcomes.len() && !halts(outcomes[i]) {
        lemma_boundary_from(outcomes, i + 1);
    }
}

/// An index is the boundary when no outcome between `i` and it ends the scan
/// and it is the end of the list or its outcome ends the scan.
pub proof fn lemma_boundary_is(outcomes: Seq<OutcomeView>, i: int, b: int)
    requires
        0 <= i <= b <= outcomes.len(),
        forall|k: int| i <= k < b ==> !halts(#[trigger] outcomes[k]),
        b == outcomes.len() || halts(outcomes[b]),
    ensures
        boundary_from(outcomes, i) == b,
    decreases b - i,
{
    if i < b {
        lemma_boundary_is(outcomes, i + 1, b);
    }
}

/// The kept indices lie in their range, ascend strictly, and name outcomes
/// that carry a turn.
pub proof fn lemma_kept_indices(outcomes: Seq<OutcomeView>, lo: int, hi: int)
    ensures
        forall|n: int|
            0 <= n < kept_indices(outcomes, lo, hi).len() ==> lo <= (#[trigger] kept_indices(
                outcomes,
                lo,
                hi,
            )[n]) < hi && keeps(outcomes[kept_indices(outcomes, lo, hi)[n]]),
        forall|m: int, n: int|
            0 <= m < n < kept_indices(outcomes, lo, hi).len() ==> (#[trigger] kept_indices(
                outcomes,
                lo,
                hi,
            )[m]) < (#[trigger] kept_indices(outcomes, lo, hi)[n]),
    decreases hi - lo,
{
    if lo < hi {
        lemma_kept_indices(outcomes, lo + 1, hi);
        let rest = kept_indices(outcomes, lo + 1, hi);
        let all = kept_indices(outcomes, lo, hi);
        if keeps(outcomes[lo]) {
            assert(all == seq![lo] + rest);
            assert forall|n: int| 0 <= n < all.len() implies lo <= (#[trigger] all[n]) < hi
                && keeps(outcomes[all[n]]) by {
                if n > 0 {
                    assert(all[n] == rest[n - 1]);
                }
            }
            assert forall|m: int, n: int| 0 <= m < n < all.len() implies (#[trigger] all[m]) < (
                #[trigger] all[n]
            ) by {
                assert(all[n] == rest[n - 1]);
                if m > 0 {
                    assert(all[m] == rest[m - 1]);
                }
            }
        }
    }
}

/// What a range carries depends on the outcomes of that range alone.
pub proof fn lemma_kept_indices_local(
    a: Seq<OutcomeView>,
    b: Seq<OutcomeView>,
    lo: int,
    hi: int,
)
    requires
        0 <= lo,
        hi <= a.len(),
        hi <= b.len(),
        forall|k: int| lo <= k < hi ==> a[k] == b[k],
    ensures
        kept_indices(a, lo, hi) == kept_indices(b, lo, hi),
        kept(a, lo, hi) == kept(b, lo, hi),
    decreases hi - lo,
{
    if lo < hi {
        lemma_kept_indices_local(a, b, lo + 1, hi);
    }
    lemma_kept_indices(a, lo, hi);
    assert(kept(a, lo, hi) =~= kept(b, lo, hi));
}

/// What a range carries starts with what its first outcome carries, if any.
proof fn lemma_kept_step(outcomes: Seq<OutcomeView>, lo: int, hi: int)
    requires
        lo < hi,
    ensures
        kept(outcomes, lo, hi) == if keeps(outcomes[lo]) {
            seq![carried(outcomes[lo])] + kept(outcomes, lo + 1, hi)
        } else {
            kept(outcomes, lo + 1, hi)
        },
{
    if keeps(outcomes[lo]) {
        assert(kept(outcomes, lo, hi) =~= seq![carried(outcomes[lo])] + kept(
            outcomes,
            lo + 1,
            hi,
        ));
    }
}

/// Nothing at or after an event that ends the scan reaches the recovered
/// history: the history is that of the events before it.
pub proof fn lemma_history_stops(outcomes: Seq<OutcomeView>, k: int)
    requires
        0 <= k < outcomes.len(),
        halts(outcomes[k]),
    ensures
        history(outcomes) == history(outcomes.subrange(0, k)),
        boundary(outcomes) <= k,
{
    let before = outcomes.subrange(0, k);
    let b = boundary(outcomes);
    lemma_boundary_from(outcomes, 0);
    if b > k {
        assert(!halts(outcomes[k]));
    }
    assert forall|j: int| 0 <= j < b implies !halts(#[trigger] before[j]) by {
        assert(before[j] == outcomes[j]);
    }
    if b < k {
        assert(before[b] == outcomes[b]);
    }
    lemma_boundary_is(before, 0, b);
    lemma_kept_indices_local(outcomes, before, 0, b);
}

/// The recovered history is in the order of time, oldest first: of two of
/// its entries, the earlier one was discovered later in the backward scan.
/// `kept_indices` gives the place of discovery of each.
pub proof fn lemma_history_oldest_first(outcomes: Seq<OutcomeView>, i: int, j: int)
    requires
        0 <= i < j < history(outcomes).len(),
    ensures
        ({
            let found = kept_indices(outcomes, 0, boundary(outcomes)).reverse();
            &&& found.len() == history(outcomes).len()
            &&& 0 <= found[j] < found[i] < boundary(outcomes)
            &&& history(outcomes)[i] == carried(outcomes[found[i]])
            &&& history(outcomes)[j] == carried(outcomes[found[j]])
        }),
{
    lemma_kept_indices(outcomes, 0, boundary(outcomes));
    let indices = kept_indices(outcomes, 0, boundary(outcomes));
    let n = indices.len() as int;
    assert(indices.reverse()[i] == indices[n - 1 - i]);
    assert(indices.reverse()[j] == indices[n - 1 - j]);
}

/// Whether an outcome ends the scan: the boundary signal, or an error.
pub fn ends_scan(outcome: &Outcome) -> (r: bool)
    ensures
        r == halts(outcome_view(*outcome)),
{
    match outcome {
        Ok(Some(Processed::Stop)) => true,
        Ok(_) => false,
        Err(_) => true,
    }
}

/// The views of the anchors and turns of a list of pairs.
pub open spec fn pair_views(anchors: Seq<String>, turns: Seq<OpenAIMessage>) -> Seq<
    (Seq<char>, MessageView),
> {
    Seq::new(anchors.len(), |i: int| (anchors[i]@, turns[i]@))
}

/// Recovers the history from the outcomes of a backward scan, given in the
/// order of discovery, newest first: the anchors and the turns of the
/// events before the first that ends the scan, oldest first.
pub fn scan(outcomes: Vec<Outcome>) -> (r: (Vec<String>, Vec<OpenAIMessage>))
    ensures
        texts(r.0@) == history_anchors(outcome_views(outcomes@)),
        message_views(r.1@) == history_turns(outcome_views(outcomes@)),
{
    let mut outcomes = outcomes;
    let ghost given = outcome_views(outcomes@);
    let mut b: usize = 0;
    while b < outcomes.len() && !ends_scan(&outcomes[b])
        invariant
            0 <= b <= outcomes.len(),
            given == outcome_views(outcomes@),
            boundary(given) == boundary_from(given, b as int),
        decreases outcomes.len() - b,
    {
        assert(given[b as int] == outcome_view(outcomes@[b as int]));
        b += 1;
    }
    proof {
        if b < outcomes.len() {
            assert(given[b as int] == outcome_view(outcomes@[b as int]));
        }
        assert(boundary(given) == b);
    }
    outcomes.truncate(b);
    let mut anchors: Vec<String> = Vec::new();
    let mut turns: Vec<OpenAIMessage> = Vec::new();
    assert(pair_views(anchors@, turns@) =~= kept(given, b as int, b as int).reverse());
    while outcomes.len() > 0
        invariant
            outcomes.len() <= b <= given.len(),
            forall|k: int| 0 <= k < outcomes.len() ==> outcome_view(#[trigger] outcomes@[k]) == given[k],
            anchors.len() == turns.len(),
            pair_views(anchors@, turns@) == kept(given, outcomes.len() as int, b as int).reverse(),
        decreases outcomes.len(),
    {
        let ghost k = outcomes.len() - 1;
        let ghost before = pair_views(anchors@, turns@);
        let ghost last = outcomes@[k];
        assert(outcome_view(last) == given[k]);
        proof {
            lemma_kept_step(given, k, b as int);
        }
        match outcomes.pop() {
            Some(Ok(Some(Processed::Continue(id, message)))) => {
                anchors.push(id);
                turns.push(message);
                proof {
                    assert(keeps(given[k]));
                    assert(carried(given[k]) == (id@, message@));
                    assert(pair_views(anchors@, turns@) =~= before.push((id@, message@)));
                    assert((seq![carried(given[k])] + kept(given, k + 1, b as int)).reverse()
                        =~= kept(given, k + 1, b as int).reverse().push(carried(given[k])));
                }
            },
            _ => {
                assert(!keeps(given[k]));
            },
        }
    }
    proof {
        let pairs = pair_views(anchors@, turns@);
        assert(pairs == history(given));
        assert(texts(anchors@) =~= history_anchors(given));
        assert(message_views(turns@) =~= history_turns(given));
    }
    (anchors, turns)
}

} // verus!
