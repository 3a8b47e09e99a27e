use vstd::prelude::*;

use crate::config::{TrackedResourceConfig, TrackedResourceConfigView};
use crate::normalize::{normalize, normalize_obj};
use crate::obj::{DynObject, DynObjectView, GroupVersionKind, GvkView, NormalizedObject, NormalizedObjectView};

verus! {

/// One unit of observation from a source watch stream, as the transport
/// reports it, before normalization. `Resynced` carries the complete
/// current object set the source believes exists.
#[derive(Clone, Debug, PartialEq)]
pub enum RawEvent {
    Applied(DynObject),
    Deleted(DynObject),
    Resynced(Vec<DynObject>),
}

/// Mathematical model of a [`RawEvent`].
pub enum RawEventView {
    Applied(DynObjectView),
    Deleted(DynObjectView),
    Resynced(Seq<DynObjectView>),
}

impl View for RawEvent {
    type V = RawEventView;

    open spec fn view(&self) -> RawEventView {
        match self {
            RawEvent::Applied(o) => RawEventView::Applied(o@),
            RawEvent::Deleted(o) => RawEventView::Deleted(o@),
            RawEvent::Resynced(os) => RawEventView::Resynced(os.deep_view()),
        }
    }
}

/// One unit of observation after normalization: what the multiplexer
/// consumes and the recorder is handed. `Resynced` must be treated as a
/// replace-all, not an incremental update.
#[derive(Clone, Debug, PartialEq)]
pub enum ChangeEvent {
    Applied(NormalizedObject),
    Deleted(NormalizedObject),
    Resynced(Vec<NormalizedObject>),
}

/// Mathematical model of a [`ChangeEvent`].
pub enum ChangeEventView {
    Applied(NormalizedObjectView),
    Deleted(NormalizedObjectView),
    Resynced(Seq<NormalizedObjectView>),
}

impl View for ChangeEvent {
    type V = ChangeEventView;

    open spec fn view(&self) -> ChangeEventView {
        match self {
            ChangeEvent::Applied(o) => ChangeEventView::Applied(o@),
            ChangeEvent::Deleted(o) => ChangeEventView::Deleted(o@),
            ChangeEvent::Resynced(os) => ChangeEventView::Resynced(os.deep_view()),
        }
    }
}

/// A transport-level failure surfaced as an item on a member stream.
/// Non-fatal: the loop logs it and goes on, and the stream may still
/// yield further items.
#[derive(Clone, Debug, PartialEq)]
pub struct StreamError {
    pub msg: String,
}

impl View for StreamError {
    type V = Seq<char>;

    open spec fn view(&self) -> Seq<char> {
        self.msg@
    }
}

/// A tracked resource type could not be turned into a live stream, most
/// often because it resolves to no known API endpoint. Fatal to starting
/// the watcher; carries the offending descriptor.
#[derive(Clone, Debug, PartialEq)]
pub struct BuildError {
    pub gvk: GroupVersionKind,
    pub msg: String,
}

/// Mathematical model of a [`BuildError`].
pub struct BuildErrorView {
    pub gvk: GvkView,
    pub msg: Seq<char>,
}

impl View for BuildError {
    type V = BuildErrorView;

    open spec fn view(&self) -> BuildErrorView {
        BuildErrorView { gvk: self.gvk@, msg: self.msg@ }
    }
}

/// What normalization makes of one observed event: every object it
/// carries is normalized under the tracked type's configuration.
pub open spec fn normalize_event_spec(e: RawEventView, cfg: TrackedResourceConfigView) -> ChangeEventView {
    match e {
        RawEventView::Applied(o) => ChangeEventView::Applied(normalize_obj(o, cfg)),
        RawEventView::Deleted(o) => ChangeEventView::Deleted(normalize_obj(o, cfg)),
        RawEventView::Resynced(os) => ChangeEventView::Resynced(
            os.map_values(|o: DynObjectView| normalize_obj(o, cfg)),
        ),
    }
}

/// Normalizes every object carried by one observed event.
pub fn normalize_event(e: RawEvent, cfg: &TrackedResourceConfig) -> (r: ChangeEvent)
    ensures
        r@ == normalize_event_spec(e@, cfg@),
{
    match e {
        RawEvent::Applied(o) => ChangeEvent::Applied(normalize(o, cfg)),
        RawEvent::Deleted(o) => ChangeEvent::Deleted(normalize(o, cfg)),
        RawEvent::Resynced(os) => {
            let ghost orig: Seq<DynObjectView> = os.deep_view();
            let mut rest = os;
            let mut out: Vec<NormalizedObject> = Vec::new();
            while rest.len() > 0
                invariant
                    rest.len() <= orig.len(),
                    rest.deep_view() == orig.subrange(orig.len() - rest.len(), orig.len() as int),
                    out.deep_view() == orig.subrange(0, orig.len() - rest.len()).map_values(
                        |o: DynObjectView| normalize_obj(o, cfg@),
                    ),
                decreases rest.len(),
            {
                let ghost k: int = orig.len() - rest.len();
                let ghost rest_before: Seq<DynObjectView> = rest.deep_view();
                let ghost out_before: Seq<NormalizedObjectView> = out.deep_view();
                let o = rest.remove(0);
                proof {
                    assert(o.deep_view() == rest_before[0]);
                    assert(o.deep_view() == orig[k]);
                    assert(rest.deep_view() =~= rest_before.remove(0));
                    assert(rest.deep_view() =~= orig.subrange(k + 1, orig.len() as int));
                }
                out.push(normalize(o, cfg));
                proof {
                    assert(out.deep_view() =~= out_before.push(normalize_obj(orig[k], cfg@)));
                    assert(out.deep_view() =~= orig.subrange(0, k + 1).map_values(
                        |ov: DynObjectView| normalize_obj(ov, cfg@),
                    ));
                }
            }
            proof {
                assert(orig.subrange(0, orig.len() as int) =~= orig);
            }
            ChangeEvent::Resynced(out)
        },
    }
}

/// One notification as a watch transport delivers it. Some transports
/// hand a resync over as one complete set; others stream it in parts —
/// `InitStart` opens it, each `InitPage` carries one object of the set,
/// and `InitDone` closes it.
#[derive(Clone, Debug, PartialEq)]
pub enum WatchNotification {
    Apply(DynObject),
    Delete(DynObject),
    InitStart,
    InitPage(DynObject),
    InitDone,
}

/// Reassembles a streamed resync into single observations: ordinary
/// applies and deletes pass straight through, and the pages of a resync
/// are collected until the transport closes it, at which point the
/// complete set comes out as one `Resynced` event.
#[derive(Clone, Debug, PartialEq)]
pub struct ResyncBuffer {
    pub buffering: bool,
    pub buf: Vec<DynObject>,
}

impl ResyncBuffer {
    /// A buffer with no resync open.
    pub fn new() -> (r: ResyncBuffer)
        ensures
            !r.buffering,
            r.buf.deep_view() == Seq::<DynObjectView>::empty(),
    {
        let r = ResyncBuffer { buffering: false, buf: Vec::new() };
        proof {
            assert(r.buf.deep_view() =~= Seq::<DynObjectView>::empty());
        }
        r
    }

    /// Consumes one transport notification and yields the observation it
    /// completes, if any: an apply or delete at once; a resync only when
    /// its last page has arrived, carrying every page in order. A page or
    /// a close with no resync open is dropped.
    pub fn observe(&mut self, n: WatchNotification) -> (r: Option<RawEvent>)
        ensures
            (match n {
                WatchNotification::Apply(o) => r == Some(RawEvent::Applied(o)) && *final(self)
                    == *old(self),
                WatchNotification::Delete(o) => r == Some(RawEvent::Deleted(o)) && *final(self)
                    == *old(self),
                WatchNotification::InitStart => r is None && final(self).buffering
                    && final(self).buf.deep_view() == Seq::<DynObjectView>::empty(),
                WatchNotification::InitPage(o) => r is None
                    && final(self).buffering == old(self).buffering
                    && (if old(self).buffering {
                    final(self).buf.deep_view() == old(self).buf.deep_view().push(o@)
                } else {
                    *final(self) == *old(self)
                }),
                WatchNotification::InitDone => !final(self).buffering && (if old(self).buffering {
                    final(self).buf.deep_view() == Seq::<DynObjectView>::empty() && (r matches Some(
                        RawEvent::Resynced(set),
                    ) && set.deep_view() == old(self).buf.deep_view())
                } else {
                    r is None && *final(self) == *old(self)
                }),
            }),
    {
        match n {
            WatchNotification::Apply(o) => Some(RawEvent::Applied(o)),
            WatchNotification::Delete(o) => Some(RawEvent::Deleted(o)),
            WatchNotification::InitStart => {
                self.buffering = true;
                let empty: Vec<DynObject> = Vec::new();
                let ghost e: Seq<DynObjectView> = empty.deep_view();
                self.buf = empty;
                proof {
                    assert(e =~= Seq::<DynObjectView>::empty());
                }
                None
            },
            WatchNotification::InitPage(o) => {
                if self.buffering {
                    let ghost before: Seq<DynObjectView> = self.buf.deep_view();
                    let ghost ov: DynObjectView = o@;
                    self.buf.push(o);
                    proof {
                        assert(self.buf.deep_view() =~= before.push(ov));
                    }
                }
                None
            },
            WatchNotification::InitDone => {
                if self.buffering {
                    self.buffering = false;
                    let mut set: Vec<DynObject> = Vec::new();
                    core::mem::swap(&mut self.buf, &mut set);
                    proof {
                        assert(self.buf.deep_view() =~= Seq::<DynObjectView>::empty());
                    }
                    Some(RawEvent::Resynced(set))
                } else {
                    None
                }
            },
        }
    }
}

} // verus!
