use vstd::prelude::*;

use crate::obj::{NormalizedObject, NormalizedObjectView};

verus! {

/// One call into the recorder: a create or delete of a single object, or
/// a replace-all carrying the complete object set of a resync.
#[derive(Clone, Debug, PartialEq)]
pub enum TraceAction {
    Create(NormalizedObject),
    Delete(NormalizedObject),
    ReplaceAll(Vec<NormalizedObject>),
}

/// Mathematical model of a [`TraceAction`].
pub enum TraceActionView {
    Create(NormalizedObjectView),
    Delete(NormalizedObjectView),
    ReplaceAll(Seq<NormalizedObjectView>),
}

impl View for TraceAction {
    type V = TraceActionView;

    open spec fn view(&self) -> TraceActionView {
        match self {
            TraceAction::Create(o) => TraceActionView::Create(o@),
            TraceAction::Delete(o) => TraceActionView::Delete(o@),
            TraceAction::ReplaceAll(os) => TraceActionView::ReplaceAll(os.deep_view()),
        }
    }
}

/// One recorded dispatch: the recorder call and the timestamp the clock
/// gave at the moment of dispatch.
#[derive(Clone, Debug, PartialEq)]
pub struct TraceEvent {
    pub action: TraceAction,
    pub ts: i64,
}

/// Mathematical model of a [`TraceEvent`].
pub struct TraceEventView {
    pub action: TraceActionView,
    pub ts: int,
}

impl View for TraceEvent {
    type V = TraceEventView;

    open spec fn view(&self) -> TraceEventView {
        TraceEventView { action: self.action@, ts: self.ts as int }
    }
}

/// The recorder-facing side of the core: the ordered history of dispatch
/// calls made so far. Dispatch is strictly sequential — each call appends
/// exactly one entry, and nothing else touches the history.
#[derive(Clone, Debug, PartialEq)]
pub struct Tracer {
    pub events: Vec<TraceEvent>,
}

impl View for Tracer {
    type V = Seq<TraceEventView>;

    open spec fn view(&self) -> Seq<TraceEventView> {
        self.events.deep_view()
    }
}

impl DeepView for TraceEvent {
    type V = TraceEventView;

    open spec fn deep_view(&self) -> TraceEventView {
        self.view()
    }
}

impl Tracer {
    /// A recorder history with nothing in it yet.
    pub fn new() -> (t: Tracer)
        ensures
            t@ == Seq::<TraceEventView>::empty(),
    {
        let t = Tracer { events: Vec::new() };
        proof {
            assert(t@ =~= Seq::<TraceEventView>::empty());
        }
        t
    }

    /// Records that one object appeared, at the given instant. Ownership
    /// of the object passes to the recorder.
    pub fn create_obj(&mut self, obj: NormalizedObject, ts: i64)
        ensures
            final(self)@ == old(self)@.push(
                TraceEventView { action: TraceActionView::Create(obj@), ts: ts as int },
            ),
    {
        let ghost before: Seq<TraceEventView> = self@;
        self.events.push(TraceEvent { action: TraceAction::Create(obj), ts });
        proof {
            assert(self@ =~= before.push(
                TraceEventView { action: TraceActionView::Create(obj@), ts: ts as int },
            ));
        }
    }

    /// Records that one object went away, at the given instant.
    pub fn delete_obj(&mut self, obj: NormalizedObject, ts: i64)
        ensures
            final(self)@ == old(self)@.push(
                TraceEventView { action: TraceActionView::Delete(obj@), ts: ts as int },
            ),
    {
        let ghost before: Seq<TraceEventView> = self@;
        self.events.push(TraceEvent { action: TraceAction::Delete(obj), ts });
        proof {
            assert(self@ =~= before.push(
                TraceEventView { action: TraceActionView::Delete(obj@), ts: ts as int },
            ));
        }
    }

    /// Records a resync: the complete, authoritative object set of the
    /// source stream at this instant, as one full replace. Prior history
    /// is kept as history — nothing is merged into it.
    pub fn update_all_objs(&mut self, objs: Vec<NormalizedObject>, ts: i64)
        ensures
            final(self)@ == old(self)@.push(
                TraceEventView {
                    action: TraceActionView::ReplaceAll(objs.deep_view()),
                    ts: ts as int,
                },
            ),
    {
        let ghost before: Seq<TraceEventView> = self@;
        let ghost objs_view: Seq<NormalizedObjectView> = objs.deep_view();
        self.events.push(TraceEvent { action: TraceAction::ReplaceAll(objs), ts });
        proof {
            assert(self@ =~= before.push(
                TraceEventView { action: TraceActionView::ReplaceAll(objs_view), ts: ts as int },
            ));
        }
    }
}

} // verus!
