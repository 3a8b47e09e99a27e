use sk_watch::clock::Clock;
use sk_watch::config::TrackedResourceConfig;
use sk_watch::event::{BuildError, ChangeEvent, RawEvent, ResyncBuffer, StreamError, WatchNotification};
use sk_watch::obj::{DynObject, Field, GroupVersionKind, NormalizedObject, TypeMeta};
use sk_watch::stream::{build_stream_for, select_all, EventStream};
use sk_watch::tracer::{TraceAction, Tracer};
use sk_watch::watch::Watcher;

fn s(x: &str) -> String {
    x.to_string()
}

fn path(segs: &[&str]) -> Vec<String> {
    segs.iter().map(|p| s(p)).collect()
}

fn field(segs: &[&str], value: &str) -> Field {
    Field { path: path(segs), value: s(value) }
}

fn pod_meta() -> TypeMeta {
    TypeMeta { api_version: s("v1"), kind: s("Pod") }
}

fn pod(name: &str) -> NormalizedObject {
    NormalizedObject { types: pod_meta(), fields: vec![field(&["metadata", "name"], name)] }
}

fn stream(items: Vec<Result<ChangeEvent, StreamError>>) -> EventStream {
    EventStream { items }
}

#[test]
fn fixed_clock_returns_its_instant() {
    let c = Clock::Fixed(42);
    assert_eq!(c.now(), 42);
    assert_eq!(c.now(), 42);
}

#[test]
fn utc_clock_yields_some_instant() {
    let c = Clock::Utc;
    let _ts = c.now();
}

#[test]
fn resync_is_recorded_as_full_replace() {
    let objs = vec![pod("a"), pod("b")];
    let w = stream(vec![Ok(ChangeEvent::Resynced(objs.clone()))]);
    let mut watcher = Watcher::new_from_parts(w, Tracer::new(), Clock::Fixed(5));
    watcher.start();
    assert_eq!(watcher.t.events.len(), 1);
    assert_eq!(watcher.t.events[0].ts, 5);
    match &watcher.t.events[0].action {
        TraceAction::ReplaceAll(recorded) => assert_eq!(recorded, &objs),
        other => panic!("resync was recorded as {:?}", other),
    }
}

#[test]
fn two_streams_each_one_event_dispatch_twice() {
    let a = stream(vec![Ok(ChangeEvent::Applied(pod("a")))]);
    let b = stream(vec![Ok(ChangeEvent::Applied(pod("b")))]);
    let merged = select_all(vec![a, b]);
    let mut watcher = Watcher::new_from_parts(merged, Tracer::new(), Clock::Fixed(0));
    watcher.start();
    assert_eq!(watcher.t.events.len(), 2);
    let mut names: Vec<String> = watcher
        .t
        .events
        .iter()
        .map(|e| match &e.action {
            TraceAction::Create(o) => o.fields[0].value.clone(),
            other => panic!("expected a create, got {:?}", other),
        })
        .collect();
    names.sort();
    assert_eq!(names, vec![s("a"), s("b")]);
}

#[test]
fn stream_error_mid_run_does_not_stop_dispatch() {
    let w = stream(vec![
        Ok(ChangeEvent::Applied(pod("before"))),
        Err(StreamError { msg: s("connection reset") }),
        Ok(ChangeEvent::Deleted(pod("after"))),
    ]);
    let mut watcher = Watcher::new_from_parts(w, Tracer::new(), Clock::Fixed(9));
    watcher.start();
    assert_eq!(watcher.t.events.len(), 2);
    assert_eq!(watcher.t.events[0].action, TraceAction::Create(pod("before")));
    assert_eq!(watcher.t.events[1].action, TraceAction::Delete(pod("after")));
}

#[test]
fn fixed_clock_stamps_every_dispatch() {
    let w = stream(vec![
        Ok(ChangeEvent::Applied(pod("a"))),
        Ok(ChangeEvent::Deleted(pod("a"))),
        Ok(ChangeEvent::Resynced(vec![])),
    ]);
    let mut watcher = Watcher::new_from_parts(w, Tracer::new(), Clock::Fixed(777));
    watcher.start();
    assert_eq!(watcher.t.events.len(), 3);
    for e in &watcher.t.events {
        assert_eq!(e.ts, 777);
    }
}

#[test]
fn events_of_one_stream_keep_their_order() {
    let w = stream(vec![
        Ok(ChangeEvent::Applied(pod("a"))),
        Ok(ChangeEvent::Applied(pod("b"))),
        Ok(ChangeEvent::Deleted(pod("a"))),
    ]);
    let mut watcher = Watcher::new_from_parts(w, Tracer::new(), Clock::Fixed(1));
    watcher.start();
    let actions: Vec<&TraceAction> = watcher.t.events.iter().map(|e| &e.action).collect();
    assert_eq!(
        actions,
        vec![
            &TraceAction::Create(pod("a")),
            &TraceAction::Create(pod("b")),
            &TraceAction::Delete(pod("a")),
        ]
    );
}

#[test]
fn select_all_interleaves_in_rounds() {
    let a = stream(vec![
        Ok(ChangeEvent::Applied(pod("a1"))),
        Ok(ChangeEvent::Applied(pod("a2"))),
    ]);
    let b = stream(vec![Ok(ChangeEvent::Applied(pod("b1")))]);
    let merged = select_all(vec![a, b]);
    let names: Vec<String> = merged
        .items
        .iter()
        .map(|it| match it {
            Ok(ChangeEvent::Applied(o)) => o.fields[0].value.clone(),
            other => panic!("unexpected item {:?}", other),
        })
        .collect();
    assert_eq!(names, vec![s("a1"), s("b1"), s("a2")]);
}

#[test]
fn construction_is_all_or_nothing() {
    let ok = stream(vec![Ok(ChangeEvent::Applied(pod("a")))]);
    let bad = BuildError {
        gvk: GroupVersionKind { group: s("acme.io"), version: s("v2"), kind: s("Gadget") },
        msg: s("no endpoint for resource type"),
    };
    let r = Watcher::new(vec![Ok(ok), Err(bad.clone())], Tracer::new());
    match r {
        Err(e) => assert_eq!(e, bad),
        Ok(_) => panic!("construction succeeded with a failed stream build"),
    }
}

#[test]
fn construction_succeeds_when_every_stream_builds() {
    let a = stream(vec![Ok(ChangeEvent::Applied(pod("a")))]);
    let b = stream(vec![Ok(ChangeEvent::Applied(pod("b")))]);
    let r = Watcher::new(vec![Ok(a), Ok(b)], Tracer::new());
    let mut watcher = r.expect("all streams built, construction must succeed");
    watcher.start();
    assert_eq!(watcher.t.events.len(), 2);
}

#[test]
fn build_stream_passes_errors_through() {
    let cfg = TrackedResourceConfig {
        gvk: GroupVersionKind { group: s(""), version: s("v1"), kind: s("Pod") },
        strip_paths: vec![],
    };
    let built = build_stream_for(
        &cfg,
        vec![Err(StreamError { msg: s("decode failure") })],
    );
    assert_eq!(built.items.len(), 1);
    assert_eq!(built.items[0], Err(StreamError { msg: s("decode failure") }));
}

#[test]
fn resync_buffer_reassembles_streamed_pages() {
    let raw = |name: &str| DynObject {
        types: None,
        fields: vec![field(&["metadata", "name"], name)],
    };
    let mut rb = ResyncBuffer::new();
    assert_eq!(
        rb.observe(WatchNotification::Apply(raw("a"))),
        Some(RawEvent::Applied(raw("a")))
    );
    assert_eq!(rb.observe(WatchNotification::InitStart), None);
    assert_eq!(rb.observe(WatchNotification::InitPage(raw("x"))), None);
    assert_eq!(rb.observe(WatchNotification::InitPage(raw("y"))), None);
    assert_eq!(
        rb.observe(WatchNotification::InitDone),
        Some(RawEvent::Resynced(vec![raw("x"), raw("y")]))
    );
    assert_eq!(
        rb.observe(WatchNotification::Delete(raw("a"))),
        Some(RawEvent::Deleted(raw("a")))
    );
    assert_eq!(rb.observe(WatchNotification::InitPage(raw("z"))), None);
    assert_eq!(rb.observe(WatchNotification::InitDone), None);
}

#[test]
fn end_to_end_strip_stamp_and_timestamp() {
    let cfg = TrackedResourceConfig {
        gvk: GroupVersionKind { group: s("apps"), version: s("v1"), kind: s("Deployment") },
        strip_paths: vec![path(&["spec", "template"])],
    };
    let raw = RawEvent::Applied(DynObject {
        types: Some(TypeMeta { api_version: s("v0"), kind: s("Mystery") }),
        fields: vec![
            field(&["metadata", "name"], "web"),
            field(&["spec", "template", "spec"], "heavy payload"),
            field(&["spec", "replicas"], "3"),
        ],
    });
    let built = build_stream_for(&cfg, vec![Ok(raw)]);
    let mut watcher = Watcher::new_from_parts(built, Tracer::new(), Clock::Fixed(1234));
    watcher.start();
    assert_eq!(watcher.t.events.len(), 1);
    let e = &watcher.t.events[0];
    assert_eq!(e.ts, 1234);
    match &e.action {
        TraceAction::Create(o) => {
            assert_eq!(o.types, TypeMeta { api_version: s("apps/v1"), kind: s("Deployment") });
            assert_eq!(
                o.fields,
                vec![field(&["metadata", "name"], "web"), field(&["spec", "replicas"], "3")]
            );
        },
        other => panic!("expected one create, got {:?}", other),
    }
}
