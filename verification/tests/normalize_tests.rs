use sk_watch::config::TrackedResourceConfig;
use sk_watch::normalize::{normalize, path_covered_by_strips, path_has_prefix, strip_obj};
use sk_watch::obj::{DynObject, Field, GroupVersionKind, TypeMeta};

fn s(x: &str) -> String {
    x.to_string()
}

fn path(segs: &[&str]) -> Vec<String> {
    segs.iter().map(|p| s(p)).collect()
}

fn field(segs: &[&str], value: &str) -> Field {
    Field { path: path(segs), value: s(value) }
}

fn deployment_cfg() -> TrackedResourceConfig {
    TrackedResourceConfig {
        gvk: GroupVersionKind { group: s("apps"), version: s("v1"), kind: s("Deployment") },
        strip_paths: vec![path(&["spec", "template"])],
    }
}

#[test]
fn strip_removes_configured_path() {
    let obj = DynObject {
        types: None,
        fields: vec![
            field(&["metadata", "name"], "web"),
            field(&["spec", "template", "spec", "containers"], "nginx"),
            field(&["spec", "replicas"], "3"),
        ],
    };
    let cfg = deployment_cfg();
    let normalized = normalize(obj, &cfg);
    assert_eq!(
        normalized.fields,
        vec![field(&["metadata", "name"], "web"), field(&["spec", "replicas"], "3")]
    );
    for f in &normalized.fields {
        assert!(!(f.path.len() >= 2 && f.path[0] == "spec" && f.path[1] == "template"));
    }
}

#[test]
fn strip_absent_path_is_no_error() {
    let obj = DynObject {
        types: None,
        fields: vec![field(&["metadata", "name"], "db"), field(&["spec", "replicas"], "1")],
    };
    let cfg = deployment_cfg();
    let normalized = normalize(obj, &cfg);
    assert_eq!(
        normalized.fields,
        vec![field(&["metadata", "name"], "db"), field(&["spec", "replicas"], "1")]
    );
}

#[test]
fn strip_is_idempotent() {
    let cfg = deployment_cfg();
    let once = normalize(
        DynObject {
            types: None,
            fields: vec![
                field(&["spec", "template", "x"], "gone"),
                field(&["spec", "replicas"], "2"),
            ],
        },
        &cfg,
    );
    let twice = normalize(DynObject { types: None, fields: once.fields.clone() }, &cfg);
    assert_eq!(once.fields, twice.fields);
}

#[test]
fn strip_obj_keeps_reported_types() {
    let mut obj = DynObject {
        types: Some(TypeMeta { api_version: s("v1"), kind: s("Pod") }),
        fields: vec![field(&["spec", "template", "x"], "gone"), field(&["status"], "ok")],
    };
    strip_obj(&mut obj, &vec![path(&["spec", "template"])]);
    assert_eq!(obj.types, Some(TypeMeta { api_version: s("v1"), kind: s("Pod") }));
    assert_eq!(obj.fields, vec![field(&["status"], "ok")]);
}

#[test]
fn identity_overwritten_even_if_source_disagrees() {
    let cfg = deployment_cfg();
    let lying = DynObject {
        types: Some(TypeMeta { api_version: s("wrong/v9"), kind: s("Gadget") }),
        fields: vec![],
    };
    let silent = DynObject { types: None, fields: vec![] };
    let a = normalize(lying, &cfg);
    let b = normalize(silent, &cfg);
    let want = TypeMeta { api_version: s("apps/v1"), kind: s("Deployment") };
    assert_eq!(a.types, want);
    assert_eq!(b.types, want);
}

#[test]
fn api_version_joins_group_and_version() {
    let g = GroupVersionKind { group: s("apps"), version: s("v1"), kind: s("Deployment") };
    assert_eq!(g.api_version(), s("apps/v1"));
}

#[test]
fn api_version_of_core_group_is_bare_version() {
    let g = GroupVersionKind { group: s(""), version: s("v1"), kind: s("Pod") };
    assert_eq!(g.api_version(), s("v1"));
}

#[test]
fn prefix_check_is_exact_on_segments() {
    assert!(path_has_prefix(&path(&["spec"]), &path(&["spec", "template"])));
    assert!(path_has_prefix(&path(&["spec", "template"]), &path(&["spec", "template"])));
    assert!(!path_has_prefix(&path(&["spec", "template"]), &path(&["spec"])));
    assert!(!path_has_prefix(&path(&["spec", "tem"]), &path(&["spec", "template"])));
}

#[test]
fn strip_cover_checks_every_configured_path() {
    let strips = vec![path(&["spec", "template"]), path(&["status"])];
    assert!(path_covered_by_strips(&path(&["status", "phase"]), &strips));
    assert!(path_covered_by_strips(&path(&["spec", "template"]), &strips));
    assert!(!path_covered_by_strips(&path(&["spec", "replicas"]), &strips));
}
