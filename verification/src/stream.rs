use vstd::prelude::*;

use crate::config::{TrackedResourceConfig, TrackedResourceConfigView};
use crate::event::{ChangeEvent, ChangeEventView, RawEvent, StreamError, normalize_event, normalize_event_spec};

verus! {

/// The view of one stream item: a normalized event, or the message of the
/// transport error that took its place.
pub open spec fn item_view(item: Result<ChangeEvent, StreamError>) -> Result<ChangeEventView, Seq<char>> {
    match item {
        Ok(e) => Ok(e@),
        Err(err) => Err(err.msg@),
    }
}

/// The view of a whole run of stream items.
pub open spec fn items_view(items: Seq<Result<ChangeEvent, StreamError>>) -> Seq<Result<ChangeEventView, Seq<char>>> {
    items.map_values(|it: Result<ChangeEvent, StreamError>| item_view(it))
}

/// One member stream of the merge point: the observation outcomes of one
/// tracked resource type, in the order they became available.
#[derive(Clone, Debug, PartialEq)]
pub struct EventStream {
    pub items: Vec<Result<ChangeEvent, StreamError>>,
}

impl View for EventStream {
    type V = Seq<Result<ChangeEventView, Seq<char>>>;

    open spec fn view(&self) -> Seq<Result<ChangeEventView, Seq<char>>> {
        items_view(self.items@)
    }
}

impl DeepView for EventStream {
    type V = Seq<Result<ChangeEventView, Seq<char>>>;

    open spec fn deep_view(&self) -> Seq<Result<ChangeEventView, Seq<char>>> {
        self.view()
    }
}

/// What one raw transport item becomes on a built stream: an event is
/// normalized under the tracked type's configuration, a transport error
/// passes through as a stream error instead of ending construction.
pub open spec fn built_item_view(item: Result<RawEvent, StreamError>, cfg: TrackedResourceConfigView) -> Result<ChangeEventView, Seq<char>> {
    match item {
        Ok(e) => Ok(normalize_event_spec(e@, cfg)),
        Err(err) => Err(err.msg@),
    }
}

/// Builds the stream of one tracked resource type from the raw
/// observation outcomes of its watch: each event is normalized — strip
/// paths removed, type identity stamped — and each transport error is
/// passed through as a stream item.
pub fn build_stream_for(cfg: &TrackedResourceConfig, raw: Vec<Result<RawEvent, StreamError>>) -> (r: EventStream)
    ensures
        r@ == raw@.map_values(|it: Result<RawEvent, StreamError>| built_item_view(it, cfg@)),
{
    let ghost orig: Seq<Result<RawEvent, StreamError>> = raw@;
    let mut rest = raw;
    let mut items: Vec<Result<ChangeEvent, StreamError>> = Vec::new();
    while rest.len() > 0
        invariant
            rest.len() <= orig.len(),
            rest@ == orig.subrange(orig.len() - rest.len(), orig.len() as int),
            items_view(items@) == orig.subrange(0, orig.len() - rest.len()).map_values(
                |it: Result<RawEvent, StreamError>| built_item_view(it, cfg@),
            ),
        decreases rest.len(),
    {
        let ghost k: int = orig.len() - rest.len();
        let ghost items_before: Seq<Result<ChangeEvent, StreamError>> = items@;
        let it = rest.remove(0);
        proof {
            assert(it == orig[k]);
            assert(rest@ =~= orig.subrange(k + 1, orig.len() as int));
        }
        let mapped = match it {
            Ok(e) => Ok(normalize_event(e, cfg)),
            Err(err) => Err(err),
        };
        proof {
            assert(item_view(mapped) == built_item_view(orig[k], cfg@));
        }
        items.push(mapped);
        proof {
            assert(items_view(items@) =~= items_view(items_before).push(item_view(mapped)));
            assert(items_view(items@) =~= orig.subrange(0, k + 1).map_values(
                |x: Result<RawEvent, StreamError>| built_item_view(x, cfg@),
            ));
        }
    }
    proof {
        assert(orig.subrange(0, orig.len() as int) =~= orig);
    }
    EventStream { items }
}

/// In one round of the merge, the next ready item of every member stream
/// that still has one, in member order.
pub open spec fn heads<T>(streams: Seq<Seq<T>>) -> Seq<T>
    decreases streams.len(),
{
    if streams.len() == 0 {
        Seq::empty()
    } else {
        let front = heads(streams.drop_last());
        if streams.last().len() > 0 {
            front.push(streams.last()[0])
        } else {
            front
        }
    }
}

/// The member streams after one round: every stream that had an item has
/// yielded its first one.
pub open spec fn tails<T>(streams: Seq<Seq<T>>) -> Seq<Seq<T>> {
    streams.map_values(|s: Seq<T>| if s.len() > 0 { s.drop_first() } else { s })
}

/// How many items are left across all member streams.
pub open spec fn total_len<T>(streams: Seq<Seq<T>>) -> nat
    decreases streams.len(),
{
    if streams.len() == 0 {
        0
    } else {
        total_len(streams.drop_last()) + streams.last().len()
    }
}

/// Every member stream has ended: the merged feed is exhausted.
pub open spec fn all_empty<T>(streams: Seq<Seq<T>>) -> bool {
    forall|i: int| 0 <= i < streams.len() ==> streams[i].len() == 0
}

/// One merge round moves exactly the round's heads out of the members.
pub proof fn lemma_heads_tails_measure<T>(streams: Seq<Seq<T>>)
    ensures
        total_len(tails(streams)) + heads(streams).len() == total_len(streams),
    decreases streams.len(),
{
    if streams.len() == 0 {
        assert(tails(streams) =~= Seq::<Seq<T>>::empty());
    } else {
        lemma_heads_tails_measure(streams.drop_last());
        assert(tails(streams).drop_last() =~= tails(streams.drop_last()));
        assert(tails(streams).last() == (if streams.last().len() > 0 {
            streams.last().drop_first()
        } else {
            streams.last()
        }));
    }
}

/// While some member stream still has an item, a merge round yields at
/// least one: no member is starved while it keeps producing.
pub proof fn lemma_heads_nonempty<T>(streams: Seq<Seq<T>>)
    requires
        !all_empty(streams),
    ensures
        heads(streams).len() > 0,
    decreases streams.len(),
{
    let i = choose|i: int| 0 <= i < streams.len() && streams[i].len() > 0;
    if streams.last().len() == 0 {
        assert(streams.drop_last()[i] == streams[i]);
        assert(!all_empty(streams.drop_last()));
        lemma_heads_nonempty(streams.drop_last());
    }
}

/// The merged order of a fixed set of member streams: round after round,
/// the next ready item of each member in turn, until every member has
/// ended. No item is reordered relative to another item of the same
/// member stream.
pub open spec fn rr_merge<T>(streams: Seq<Seq<T>>) -> Seq<T>
    decreases total_len(streams),
    via rr_merge_decreases::<T>
{
    if all_empty(streams) {
        Seq::empty()
    } else {
        heads(streams) + rr_merge(tails(streams))
    }
}

#[via_fn]
proof fn rr_merge_decreases<T>(streams: Seq<Seq<T>>) {
    if !all_empty(streams) {
        lemma_heads_tails_measure(streams);
        lemma_heads_nonempty(streams);
    }
}

/// Whether any member stream still has an item.
fn any_non_empty(streams: &Vec<EventStream>) -> (r: bool)
    ensures
        r == !all_empty(streams.deep_view()),
{
    let mut i: usize = 0;
    while i < streams.len()
        invariant
            i <= streams.len(),
            forall|j: int| 0 <= j < i ==> streams.deep_view()[j].len() == 0,
        decreases streams.len() - i,
    {
        let n = streams[i].items.len();
        if n > 0 {
            proof {
                assert(streams.deep_view()[i as int].len() > 0);
            }
            return true;
        }
        i += 1;
    }
    false
}

/// The fan-in primitive: merges a fixed set of member streams into one
/// feed, taking the next ready item of each member in rounds, so that no
/// member is starved while it keeps producing. The set is fixed here at
/// construction; it only shrinks as members end, and the merged feed is
/// exhausted exactly when every member has ended.
#[verifier::rlimit(60)]
pub fn select_all(streams: Vec<EventStream>) -> (r: EventStream)
    ensures
        r@ == rr_merge(streams.deep_view()),
{
    let ghost orig: Seq<Seq<Result<ChangeEventView, Seq<char>>>> = streams.deep_view();
    let mut ss = streams;
    let mut merged: Vec<Result<ChangeEvent, StreamError>> = Vec::new();
    let mut go = any_non_empty(&ss);
    while go
        invariant
            go == !all_empty(ss.deep_view()),
            items_view(merged@) + rr_merge(ss.deep_view()) == rr_merge(orig),
        decreases total_len(ss.deep_view()),
    {
        let ghost round: Seq<Seq<Result<ChangeEventView, Seq<char>>>> = ss.deep_view();
        let ghost merged_start: Seq<Result<ChangeEventView, Seq<char>>> = items_view(merged@);
        let mut next: Vec<EventStream> = Vec::new();
        while ss.len() > 0
            invariant
                ss.len() <= round.len(),
                next.len() == round.len() - ss.len(),
                ss.deep_view() == round.subrange(round.len() - ss.len(), round.len() as int),
                next.deep_view() == tails(round.subrange(0, round.len() - ss.len())),
                items_view(merged@) == merged_start + heads(
                    round.subrange(0, round.len() - ss.len()),
                ),
            decreases ss.len(),
        {
            let ghost p: int = round.len() - ss.len();
            let ghost next_before: Seq<Seq<Result<ChangeEventView, Seq<char>>>> = next.deep_view();
            let ghost merged_before: Seq<Result<ChangeEventView, Seq<char>>> = items_view(merged@);
            let ghost ss_before: Seq<Seq<Result<ChangeEventView, Seq<char>>>> = ss.deep_view();
            let mut s = ss.remove(0);
            proof {
                assert(ss_before == round.subrange(p, round.len() as int));
                assert(s.deep_view() == ss_before[0]);
                assert(s.deep_view() == round[p]);
                assert(ss.deep_view() =~= ss_before.remove(0));
                assert(ss.deep_view() =~= round.subrange(p + 1, round.len() as int));
            }
            if s.items.len() > 0 {
                let ghost s_before: Seq<Result<ChangeEventView, Seq<char>>> = s@;
                let it = s.items.remove(0);
                proof {
                    assert(item_view(it) == s_before[0]);
                    assert(s@ =~= s_before.drop_first());
                }
                let ghost merged_items_before: Seq<Result<ChangeEvent, StreamError>> = merged@;
                merged.push(it);
                proof {
                    assert(items_view(merged@) =~= items_view(merged_items_before).push(
                        item_view(it),
                    ));
                }
            }
            next.push(s);
            proof {
                let sub1 = round.subrange(0, p + 1);
                assert(sub1.drop_last() =~= round.subrange(0, p));
                assert(sub1.last() == round[p]);
                assert(next.deep_view() =~= next_before.push(s.deep_view()));
                assert(tails(sub1) =~= tails(round.subrange(0, p)).push(s.deep_view()));
                if round[p].len() > 0 {
                    assert(heads(sub1) =~= heads(round.subrange(0, p)).push(round[p][0]));
                    assert(items_view(merged@) =~= merged_before.push(round[p][0]));
                } else {
                    assert(heads(sub1) =~= heads(round.subrange(0, p)));
                }
                assert(items_view(merged@) =~= merged_start + heads(sub1));
            }
        }
        proof {
            assert(round.subrange(0, round.len() as int) =~= round);
        }
        ss = next;
        go = any_non_empty(&ss);
        proof {
            assert(ss.deep_view() == tails(round));
            assert(rr_merge(round) == heads(round) + rr_merge(tails(round)));
            assert(items_view(merged@) + rr_merge(ss.deep_view()) =~= (merged_start + heads(
                round,
            )) + rr_merge(tails(round)));
            assert((merged_start + heads(round)) + rr_merge(tails(round)) =~= merged_start
                + rr_merge(round));
            lemma_heads_tails_measure(round);
            lemma_heads_nonempty(round);
        }
    }
    proof {
        assert(rr_merge(ss.deep_view()) =~= Seq::<Result<ChangeEventView, Seq<char>>>::empty());
        assert(items_view(merged@) =~= items_view(merged@) + rr_merge(ss.deep_view()));
    }
    EventStream { items: merged }
}

} // verus!
