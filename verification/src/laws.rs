use vstd::prelude::*;

use crate::event::ChangeEventView;
use crate::obj::NormalizedObjectView;
use crate::stream::{all_empty, heads, rr_merge, tails};
use crate::tracer::{TraceActionView, TraceEventView};
use crate::watch::{action_of, actions_of, dispatched, dispatched_actions};

verus! {

/// Timestamps set aside, a run of stream items dispatches the same calls
/// whatever instant the clock hands out.
pub proof fn lemma_dispatched_actions_agree(items: Seq<Result<ChangeEventView, Seq<char>>>, ts: int)
    ensures
        actions_of(dispatched(items, ts)) == dispatched_actions(items),
    decreases items.len(),
{
    if items.len() == 0 {
        assert(actions_of(dispatched(items, ts)) =~= dispatched_actions(items));
    } else {
        lemma_dispatched_actions_agree(items.drop_last(), ts);
        let front = dispatched(items.drop_last(), ts);
        match items.last() {
            Ok(e) => {
                assert(actions_of(front.push(TraceEventView { action: action_of(e), ts }))
                    =~= actions_of(front).push(action_of(e)));
            },
            Err(_) => {},
        }
    }
}

/// Dispatch distributes over concatenation of feeds: what a run records
/// for two stretches in a row is what it records for each, in order.
pub proof fn lemma_dispatched_actions_add(
    a: Seq<Result<ChangeEventView, Seq<char>>>,
    b: Seq<Result<ChangeEventView, Seq<char>>>,
)
    ensures
        dispatched_actions(a + b) == dispatched_actions(a) + dispatched_actions(b),
    decreases b.len(),
{
    if b.len() == 0 {
        assert(a + b =~= a);
        assert(dispatched_actions(a) + dispatched_actions(b) =~= dispatched_actions(a));
    } else {
        lemma_dispatched_actions_add(a, b.drop_last());
        assert((a + b).drop_last() =~= a + b.drop_last());
        assert((a + b).last() == b.last());
        match b.last() {
            Ok(e) => {
                assert(dispatched_actions(a) + dispatched_actions(b) =~= (dispatched_actions(a)
                    + dispatched_actions(b.drop_last())).push(action_of(e)));
            },
            Err(_) => {},
        }
    }
}

/// A stream error in the middle of a run neither ends it nor hides
/// anything: the recorder receives exactly the calls it would have
/// received had the error never appeared, before and after alike.
pub proof fn lemma_stream_error_ignored(
    before: Seq<Result<ChangeEventView, Seq<char>>>,
    after: Seq<Result<ChangeEventView, Seq<char>>>,
    msg: Seq<char>,
)
    ensures
        dispatched_actions(before + seq![Err::<ChangeEventView, Seq<char>>(msg)] + after)
            == dispatched_actions(before + after),
{
    let mid = seq![Err::<ChangeEventView, Seq<char>>(msg)];
    assert(mid.drop_last() =~= Seq::<Result<ChangeEventView, Seq<char>>>::empty());
    assert(dispatched_actions(Seq::<Result<ChangeEventView, Seq<char>>>::empty()) =~= Seq::<
        TraceActionView,
    >::empty());
    assert(mid.last() == Err::<ChangeEventView, Seq<char>>(msg));
    assert(dispatched_actions(mid) =~= Seq::<TraceActionView>::empty());
    lemma_dispatched_actions_add(before, mid);
    assert(dispatched_actions(before + mid) =~= dispatched_actions(before));
    lemma_dispatched_actions_add(before + mid, after);
    lemma_dispatched_actions_add(before, after);
}

/// Under a fixed clock, every entry a run dispatches carries exactly that
/// clock's instant as its timestamp.
pub proof fn lemma_fixed_clock_timestamps(items: Seq<Result<ChangeEventView, Seq<char>>>, ts: int)
    ensures
        forall|i: int| 0 <= i < dispatched(items, ts).len() ==> (#[trigger] dispatched(
            items,
            ts,
        )[i]).ts == ts,
    decreases items.len(),
{
    if items.len() > 0 {
        lemma_fixed_clock_timestamps(items.drop_last(), ts);
        let front = dispatched(items.drop_last(), ts);
        assert forall|i: int| 0 <= i < dispatched(items, ts).len() implies (#[trigger] dispatched(
            items,
            ts,
        )[i]).ts == ts by {
            match items.last() {
                Ok(e) => {
                    if i < front.len() {
                        assert(dispatched(items, ts)[i] == front[i]);
                    } else {
                        assert(dispatched(items, ts)[i] == (TraceEventView {
                            action: action_of(e),
                            ts,
                        }));
                    }
                },
                Err(_) => {
                    assert(dispatched(items, ts)[i] == front[i]);
                },
            }
        }
    }
}

/// With two tracked types each producing one event, the merge dispatches
/// exactly two recorder calls, one per source object — nothing more,
/// nothing lost, whichever stream's item the merge happens to take first.
pub proof fn lemma_two_streams_two_dispatches(a: ChangeEventView, b: ChangeEventView)
    ensures
        dispatched_actions(
            rr_merge(
                seq![
                    seq![Ok::<ChangeEventView, Seq<char>>(a)],
                    seq![Ok::<ChangeEventView, Seq<char>>(b)],
                ],
            ),
        ) == seq![action_of(a), action_of(b)],
{
    let sa = seq![Ok::<ChangeEventView, Seq<char>>(a)];
    let sb = seq![Ok::<ChangeEventView, Seq<char>>(b)];
    let ss = seq![sa, sb];
    assert(ss[0] == sa && ss[1] == sb && ss.len() == 2);
    assert(sa.len() == 1 && sb.len() == 1);
    assert(!all_empty(ss));
    assert(ss.drop_last() =~= seq![sa]);
    assert(seq![sa].drop_last() =~= Seq::<Seq<Result<ChangeEventView, Seq<char>>>>::empty());
    assert(heads(Seq::<Seq<Result<ChangeEventView, Seq<char>>>>::empty()) =~= Seq::<
        Result<ChangeEventView, Seq<char>>,
    >::empty());
    assert(seq![sa].last() == sa);
    assert(sa[0] == Ok::<ChangeEventView, Seq<char>>(a));
    assert(heads(seq![sa]) =~= seq![Ok::<ChangeEventView, Seq<char>>(a)]);
    let m = seq![Ok::<ChangeEventView, Seq<char>>(a), Ok::<ChangeEventView, Seq<char>>(b)];
    assert(heads(ss) =~= m);
    assert forall|i: int| 0 <= i < tails(ss).len() implies (#[trigger] tails(ss)[i]).len() == 0 by {
        if i == 0 {
            assert(tails(ss)[0] == sa.drop_first());
        } else {
            assert(tails(ss)[i] == sb.drop_first());
        }
    }
    assert(all_empty(tails(ss)));
    assert(rr_merge(tails(ss)) =~= Seq::<Result<ChangeEventView, Seq<char>>>::empty());
    assert(rr_merge(ss) =~= m);
    assert(m.drop_last() =~= seq![Ok::<ChangeEventView, Seq<char>>(a)]);
    assert(seq![Ok::<ChangeEventView, Seq<char>>(a)].drop_last() =~= Seq::<
        Result<ChangeEventView, Seq<char>>,
    >::empty());
    assert(dispatched_actions(Seq::<Result<ChangeEventView, Seq<char>>>::empty()) =~= Seq::<
        TraceActionView,
    >::empty());
    assert(seq![Ok::<ChangeEventView, Seq<char>>(a)].last() == Ok::<ChangeEventView, Seq<char>>(a));
    assert(dispatched_actions(seq![Ok::<ChangeEventView, Seq<char>>(a)]) =~= seq![action_of(a)]);
    assert(dispatched_actions(m) =~= seq![action_of(a), action_of(b)]);
}

/// A resync dispatches as one full replace carrying the complete object
/// set the stream reported — never as creates or deletes merged
/// incrementally into the recorder's prior state.
pub proof fn lemma_resync_is_full_replace(objs: Seq<NormalizedObjectView>)
    ensures
        action_of(ChangeEventView::Resynced(objs)) == TraceActionView::ReplaceAll(objs),
{
}

} // verus!
