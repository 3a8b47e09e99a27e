use vstd::prelude::*;

use crate::clock::Clock;
use crate::event::{BuildError, ChangeEvent, ChangeEventView, StreamError};
use crate::stream::{EventStream, item_view, rr_merge, select_all};
use crate::tracer::{TraceActionView, TraceEventView, Tracer};

verus! {

/// The recorder call that one consumed event dispatches: an applied
/// object is created, a deleted one deleted, and a resync replaces the
/// full object set.
pub open spec fn action_of(e: ChangeEventView) -> TraceActionView {
    match e {
        ChangeEventView::Applied(o) => TraceActionView::Create(o),
        ChangeEventView::Deleted(o) => TraceActionView::Delete(o),
        ChangeEventView::Resynced(os) => TraceActionView::ReplaceAll(os),
    }
}

/// The recorder entries that a run of stream items dispatches when every
/// event is stamped with the one instant `ts`: one entry per event, in
/// arrival order. Stream errors dispatch nothing.
pub open spec fn dispatched(items: Seq<Result<ChangeEventView, Seq<char>>>, ts: int) -> Seq<TraceEventView>
    decreases items.len(),
{
    if items.len() == 0 {
        Seq::empty()
    } else {
        let front = dispatched(items.drop_last(), ts);
        match items.last() {
            Ok(e) => front.push(TraceEventView { action: action_of(e), ts }),
            Err(_) => front,
        }
    }
}

/// The recorder calls, timestamps set aside, that a run of stream items
/// dispatches: one per event, in arrival order, none for an error.
pub open spec fn dispatched_actions(items: Seq<Result<ChangeEventView, Seq<char>>>) -> Seq<TraceActionView>
    decreases items.len(),
{
    if items.len() == 0 {
        Seq::empty()
    } else {
        let front = dispatched_actions(items.drop_last());
        match items.last() {
            Ok(e) => front.push(action_of(e)),
            Err(_) => front,
        }
    }
}

/// The calls of a recorder history, their timestamps set aside.
pub open spec fn actions_of(events: Seq<TraceEventView>) -> Seq<TraceActionView> {
    events.map_values(|e: TraceEventView| e.action)
}

/// Every per-type stream was built.
pub open spec fn all_built(built: Seq<Result<EventStream, BuildError>>) -> bool {
    forall|i: int| 0 <= i < built.len() ==> built[i] is Ok
}

/// The member streams of the merge point, one per successfully built
/// tracked type (a failed build contributes nothing — construction never
/// reaches the merge in that case).
pub open spec fn built_stream_views(built: Seq<Result<EventStream, BuildError>>) -> Seq<Seq<Result<ChangeEventView, Seq<char>>>> {
    built.map_values(
        |b: Result<EventStream, BuildError>|
            match b {
                Ok(s) => s@,
                Err(_) => Seq::empty(),
            },
    )
}

/// The stream multiplexer: owns the merged feed of every tracked type's
/// stream, the recorder history, and the shared clock, and drives
/// dispatch. Consumption is single-threaded by design, which is what
/// makes each dispatch exclusive.
pub struct Watcher {
    pub w: EventStream,
    pub t: Tracer,
    pub clock: Clock,
}

impl Watcher {
    /// Construction from the per-type build outcomes: all-or-nothing. A
    /// single tracked type that failed to build prevents the watcher from
    /// starting at all, and the first failure is surfaced to the caller
    /// with its descriptor. On success the member streams are merged into
    /// one feed and dispatch will be timestamped by the wall clock.
    #[verifier::loop_isolation(false)]
    pub fn new(built: Vec<Result<EventStream, BuildError>>, t: Tracer) -> (r: Result<Watcher, BuildError>)
        ensures
            r is Ok <==> all_built(built@),
            (r matches Ok(w) ==> w.w@ == rr_merge(built_stream_views(built@)) && w.t == t
                && w.clock == Clock::Utc),
            (r matches Err(e) ==> built@.contains(Err::<EventStream, BuildError>(e))),
    {
        let ghost orig: Seq<Result<EventStream, BuildError>> = built@;
        let mut rest = built;
        let mut streams: Vec<EventStream> = Vec::new();
        while rest.len() > 0
            invariant
                rest.len() <= orig.len(),
                rest@ == orig.subrange(orig.len() - rest.len(), orig.len() as int),
                forall|j: int| 0 <= j < orig.len() - rest.len() ==> orig[j] is Ok,
                streams.deep_view() == built_stream_views(
                    orig.subrange(0, orig.len() - rest.len()),
                ),
            decreases rest.len(),
        {
            let ghost k: int = orig.len() - rest.len();
            let ghost streams_before: Seq<Seq<Result<ChangeEventView, Seq<char>>>> =
                streams.deep_view();
            let b = rest.remove(0);
            proof {
                assert(b == orig[k]);
                assert(rest@ =~= orig.subrange(k + 1, orig.len() as int));
            }
            match b {
                Ok(s) => {
                    let ghost sv: Seq<Result<ChangeEventView, Seq<char>>> = s.deep_view();
                    streams.push(s);
                    proof {
                        assert(streams.deep_view() =~= streams_before.push(sv));
                        assert(streams.deep_view() =~= built_stream_views(
                            orig.subrange(0, k + 1),
                        ));
                    }
                },
                Err(e) => {
                    proof {
                        assert(orig[k] == Err::<EventStream, BuildError>(e));
                        assert(!(orig[k] is Ok));
                        assert(!all_built(orig));
                        assert(orig.contains(Err::<EventStream, BuildError>(e)));
                    }
                    return Err(e);
                },
            }
        }
        proof {
            assert(orig.subrange(0, orig.len() as int) =~= orig);
        }
        Ok(Watcher { w: select_all(streams), t, clock: Clock::Utc })
    }

    /// Construction from explicit parts — one pre-built stream, the
    /// recorder handle and a clock — so the merge and dispatch loop can be
    /// driven without a live cluster.
    pub fn new_from_parts(w: EventStream, t: Tracer, clock: Clock) -> (r: Watcher)
        ensures
            r.w == w,
            r.t == t,
            r.clock == clock,
    {
        Watcher { w, t, clock }
    }

    /// Dispatches one consumed event to the recorder under a timestamp
    /// taken from the clock at this moment — arrival at the merge point,
    /// not origin time. Exactly one history entry is appended; a resync is
    /// recorded as a full replace of the stream's object set, never merged
    /// into prior state.
    pub fn handle_pod_event(&mut self, evt: ChangeEvent)
        ensures
            final(self).w == old(self).w,
            final(self).clock == old(self).clock,
            final(self).t@.len() == old(self).t@.len() + 1,
            final(self).t@.drop_last() == old(self).t@,
            final(self).t@.last().action == action_of(evt@),
            (old(self).clock matches Clock::Fixed(t0) ==> final(self).t@.last().ts == t0 as int),
    {
        let ts = self.clock.now();
        match evt {
            ChangeEvent::Applied(obj) => self.t.create_obj(obj, ts),
            ChangeEvent::Deleted(obj) => self.t.delete_obj(obj, ts),
            ChangeEvent::Resynced(objs) => self.t.update_all_objs(objs, ts),
        }
    }

    /// Consumes one item of the merged feed: an event is dispatched, a
    /// stream error is dropped without touching the recorder — a single
    /// stream's transient error never stops the loop.
    pub fn handle_item(&mut self, item: Result<ChangeEvent, StreamError>)
        ensures
            final(self).w == old(self).w,
            final(self).clock == old(self).clock,
            (match item {
                Ok(evt) => final(self).t@.len() == old(self).t@.len() + 1
                    && final(self).t@.drop_last() == old(self).t@
                    && final(self).t@.last().action == action_of(evt@)
                    && (old(self).clock matches Clock::Fixed(t0) ==> final(self).t@.last().ts
                    == t0 as int),
                Err(_) => final(self).t == old(self).t,
            }),
    {
        match item {
            Ok(evt) => self.handle_pod_event(evt),
            Err(_) => (),
        }
    }

    /// The run loop: pulls the next available item from the merged feed
    /// and dispatches it, until every member stream has ended. Events are
    /// recorded in arrival order, one history entry per event; errors are
    /// skipped and never end the run; and under a fixed clock every entry
    /// carries that clock's instant.
    pub fn start(&mut self)
        ensures
            final(self).clock == old(self).clock,
            final(self).w@.len() == 0,
            actions_of(final(self).t@) == actions_of(old(self).t@) + dispatched_actions(
                old(self).w@,
            ),
            (old(self).clock matches Clock::Fixed(t0) ==> final(self).t@ == old(self).t@
                + dispatched(old(self).w@, t0 as int)),
    {
        let ghost orig_w: Seq<Result<ChangeEventView, Seq<char>>> = self.w@;
        let ghost orig_t: Seq<TraceEventView> = self.t@;
        let ghost clk: Clock = self.clock;
        while self.w.items.len() > 0
            invariant
                self.clock == clk,
                self.w@.len() <= orig_w.len(),
                self.w@ == orig_w.subrange(orig_w.len() - self.w@.len(), orig_w.len() as int),
                actions_of(self.t@) == actions_of(orig_t) + dispatched_actions(
                    orig_w.subrange(0, orig_w.len() - self.w@.len()),
                ),
                (clk matches Clock::Fixed(t0) ==> self.t@ == orig_t + dispatched(
                    orig_w.subrange(0, orig_w.len() - self.w@.len()),
                    t0 as int,
                )),
            decreases self.w.items.len(),
        {
            let ghost k: int = orig_w.len() - self.w@.len();
            let ghost w_before: Seq<Result<ChangeEventView, Seq<char>>> = self.w@;
            let ghost t_before: Seq<TraceEventView> = self.t@;
            let item = self.w.items.remove(0);
            let ghost iv: Result<ChangeEventView, Seq<char>> = item_view(item);
            proof {
                assert(iv == w_before[0]);
                assert(iv == orig_w[k]);
                assert(self.w@ =~= w_before.remove(0));
                assert(self.w@ =~= orig_w.subrange(k + 1, orig_w.len() as int));
            }
            self.handle_item(item);
            proof {
                let sub1 = orig_w.subrange(0, k + 1);
                assert(sub1.drop_last() =~= orig_w.subrange(0, k));
                assert(sub1.last() == orig_w[k]);
                match iv {
                    Ok(ev) => {
                        assert(actions_of(self.t@) =~= actions_of(t_before).push(action_of(ev)));
                        assert(dispatched_actions(sub1) == dispatched_actions(
                            orig_w.subrange(0, k),
                        ).push(action_of(ev)));
                        assert(actions_of(self.t@) =~= actions_of(orig_t) + dispatched_actions(
                            sub1,
                        ));
                        match clk {
                            Clock::Fixed(t0) => {
                                assert(self.t@.last() == (TraceEventView {
                                    action: action_of(ev),
                                    ts: t0 as int,
                                }));
                                assert(self.t@ =~= t_before.push(
                                    TraceEventView { action: action_of(ev), ts: t0 as int },
                                ));
                                assert(self.t@ =~= orig_t + dispatched(sub1, t0 as int));
                            },
                            Clock::Utc => {},
                        }
                    },
                    Err(_) => {
                        assert(dispatched_actions(sub1) == dispatched_actions(
                            orig_w.subrange(0, k),
                        ));
                    },
                }
            }
        }
        proof {
            assert(self.w@.len() == 0);
            assert(orig_w.subrange(0, orig_w.len() as int) =~= orig_w);
        }
    }
}

} // verus!
