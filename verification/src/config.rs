use vstd::prelude::*;

use crate::obj::{GroupVersionKind, GvkView};

verus! {

/// Normalization instructions for one tracked resource type: the
/// descriptor of the type and the field paths to remove from every
/// observed object before it is recorded.
#[derive(Clone, Debug, PartialEq)]
pub struct TrackedResourceConfig {
    pub gvk: GroupVersionKind,
    pub strip_paths: Vec<Vec<String>>,
}

/// Mathematical model of a [`TrackedResourceConfig`].
pub struct TrackedResourceConfigView {
    pub gvk: GvkView,
    pub strip_paths: Seq<Seq<Seq<char>>>,
}

impl View for TrackedResourceConfig {
    type V = TrackedResourceConfigView;

    open spec fn view(&self) -> TrackedResourceConfigView {
        TrackedResourceConfigView {
            gvk: self.gvk@,
            strip_paths: self.strip_paths.deep_view(),
        }
    }
}

impl DeepView for TrackedResourceConfig {
    type V = TrackedResourceConfigView;

    open spec fn deep_view(&self) -> TrackedResourceConfigView {
        self.view()
    }
}

/// The whole configuration consumed at watcher construction: which
/// resource types to track, and what to strip from each. Read once,
/// immutable thereafter.
#[derive(Clone, Debug, PartialEq)]
pub struct TracerConfig {
    pub tracked_objects: Vec<TrackedResourceConfig>,
}

impl View for TracerConfig {
    type V = Seq<TrackedResourceConfigView>;

    open spec fn view(&self) -> Seq<TrackedResourceConfigView> {
        self.tracked_objects.deep_view()
    }
}

} // verus!
