use vstd::prelude::*;

use crate::config::{TrackedResourceConfig, TrackedResourceConfigView};
use crate::obj::{DynObject, DynObjectView, Field, FieldView, NormalizedObject, NormalizedObjectView, TypeMeta, TypeMetaView};

verus! {

/// `pre` is a leading run of `path`'s segments: a field at `path` lies
/// inside the subtree that a strip-path `pre` names.
pub open spec fn is_prefix_of(pre: Seq<Seq<char>>, path: Seq<Seq<char>>) -> bool {
    pre.len() <= path.len() && pre == path.subrange(0, pre.len() as int)
}

/// Some configured strip-path covers `path`.
pub open spec fn path_is_stripped(path: Seq<Seq<char>>, strips: Seq<Seq<Seq<char>>>) -> bool {
    exists|i: int| 0 <= i < strips.len() && is_prefix_of(strips[i], path)
}

/// A field survives normalization exactly when no strip-path covers it.
pub open spec fn field_kept(f: FieldView, strips: Seq<Seq<Seq<char>>>) -> bool {
    !path_is_stripped(f.path, strips)
}

/// The fields left after removing every field that a strip-path covers,
/// in their original order.
pub open spec fn strip_fields(fields: Seq<FieldView>, strips: Seq<Seq<Seq<char>>>) -> Seq<FieldView>
    decreases fields.len(),
{
    if fields.len() == 0 {
        Seq::empty()
    } else if field_kept(fields.last(), strips) {
        strip_fields(fields.drop_last(), strips).push(fields.last())
    } else {
        strip_fields(fields.drop_last(), strips)
    }
}

/// What normalization makes of one observed object: the stripped fields,
/// and the type identity overwritten with the descriptor's canonical
/// values, whatever the source object reported.
pub open spec fn normalize_obj(obj: DynObjectView, cfg: TrackedResourceConfigView) -> NormalizedObjectView {
    NormalizedObjectView {
        types: TypeMetaView::of_gvk(cfg.gvk),
        fields: strip_fields(obj.fields, cfg.strip_paths),
    }
}

/// Whether `pre`'s segments are a leading run of `path`'s.
pub fn path_has_prefix(pre: &Vec<String>, path: &Vec<String>) -> (r: bool)
    ensures
        r == is_prefix_of(pre.deep_view(), path.deep_view()),
{
    if pre.len() > path.len() {
        return false;
    }
    let mut i: usize = 0;
    while i < pre.len()
        invariant
            pre.len() <= path.len(),
            i <= pre.len(),
            forall|j: int| 0 <= j < i ==> pre.deep_view()[j] == path.deep_view()[j],
        decreases pre.len() - i,
    {
        if !(pre[i] == path[i]) {
            proof {
                assert(pre.deep_view()[i as int] != path.deep_view()[i as int]);
                if is_prefix_of(pre.deep_view(), path.deep_view()) {
                    assert(pre.deep_view()[i as int] == path.deep_view().subrange(
                        0,
                        pre.deep_view().len() as int,
                    )[i as int]);
                }
            }
            return false;
        }
        i += 1;
    }
    proof {
        assert(pre.deep_view() =~= path.deep_view().subrange(0, pre.deep_view().len() as int));
    }
    true
}

/// Whether any of the configured strip-paths covers `path`.
pub fn path_covered_by_strips(path: &Vec<String>, strip_paths: &Vec<Vec<String>>) -> (r: bool)
    ensures
        r == path_is_stripped(path.deep_view(), strip_paths.deep_view()),
{
    let mut i: usize = 0;
    while i < strip_paths.len()
        invariant
            i <= strip_paths.len(),
            forall|j: int| 0 <= j < i ==> !is_prefix_of(
                strip_paths.deep_view()[j],
                path.deep_view(),
            ),
        decreases strip_paths.len() - i,
    {
        if path_has_prefix(&strip_paths[i], path) {
            proof {
                assert(is_prefix_of(strip_paths.deep_view()[i as int], path.deep_view()));
            }
            return true;
        }
        i += 1;
    }
    false
}

/// The fields of one object with everything under a strip-path removed.
fn strip_field_vec(fields: Vec<Field>, strip_paths: &Vec<Vec<String>>) -> (r: Vec<Field>)
    ensures
        r.deep_view() == strip_fields(fields.deep_view(), strip_paths.deep_view()),
{
    let ghost orig: Seq<FieldView> = fields.deep_view();
    let mut rest = fields;
    let mut kept: Vec<Field> = Vec::new();
    while rest.len() > 0
        invariant
            rest.len() <= orig.len(),
            rest.deep_view() == orig.subrange(
                orig.len() - rest.len(),
                orig.len() as int,
            ),
            kept.deep_view() == strip_fields(
                orig.subrange(0, orig.len() - rest.len()),
                strip_paths.deep_view(),
            ),
        decreases rest.len(),
    {
        let ghost k: int = orig.len() - rest.len();
        let ghost rest_before: Seq<FieldView> = rest.deep_view();
        let ghost kept_before: Seq<FieldView> = kept.deep_view();
        let f = rest.remove(0);
        proof {
            assert(f.deep_view() == rest_before[0]);
            assert(f.deep_view() == orig[k]);
            assert(rest.deep_view() =~= rest_before.remove(0));
            assert(rest.deep_view() =~= orig.subrange(k + 1, orig.len() as int));
        }
        let covered = path_covered_by_strips(&f.path, strip_paths);
        if !covered {
            kept.push(f);
            proof {
                assert(kept.deep_view() =~= kept_before.push(orig[k]));
            }
        }
        proof {
            let sub = orig.subrange(0, k + 1);
            assert(sub.drop_last() =~= orig.subrange(0, k));
            assert(sub.last() == orig[k]);
            assert(field_kept(orig[k], strip_paths.deep_view()) == !path_is_stripped(
                orig[k].path,
                strip_paths.deep_view(),
            ));
            assert(f.deep_view().path == f.path.deep_view());
        }
    }
    proof {
        assert(orig.subrange(0, orig.len() as int) =~= orig);
    }
    kept
}

/// Removes every configured strip-path from the object's fields, in
/// place. Absent paths are no error: stripping is idempotent. The
/// object's reported type identity is left alone here; stamping it is
/// normalization's other half.
pub fn strip_obj(obj: &mut DynObject, strip_paths: &Vec<Vec<String>>)
    ensures
        final(obj).fields.deep_view() == strip_fields(
            old(obj).fields.deep_view(),
            strip_paths.deep_view(),
        ),
        final(obj).types == old(obj).types,
{
    let mut taken: Vec<Field> = Vec::new();
    core::mem::swap(&mut obj.fields, &mut taken);
    let kept = strip_field_vec(taken, strip_paths);
    obj.fields = kept;
}

/// The object normalizer: removes each configured path if present and
/// overwrites the type identity with the descriptor's canonical values,
/// regardless of what the source reported. Every object the recorder
/// sees has passed through here.
pub fn normalize(obj: DynObject, cfg: &TrackedResourceConfig) -> (r: NormalizedObject)
    ensures
        r@ == normalize_obj(obj@, cfg@),
{
    let DynObject { types: _, fields } = obj;
    NormalizedObject {
        types: TypeMeta::from_gvk(&cfg.gvk),
        fields: strip_field_vec(fields, &cfg.strip_paths),
    }
}

/// No field that survives stripping is covered by a strip-path: the
/// recorder never sees a configured path, whether or not the source
/// object had it.
pub proof fn lemma_strip_fields_complete(fields: Seq<FieldView>, strips: Seq<Seq<Seq<char>>>)
    ensures
        forall|i: int| 0 <= i < strip_fields(fields, strips).len() ==> field_kept(
            #[trigger] strip_fields(fields, strips)[i],
            strips,
        ),
    decreases fields.len(),
{
    if fields.len() > 0 {
        lemma_strip_fields_complete(fields.drop_last(), strips);
        let pruned = strip_fields(fields.drop_last(), strips);
        assert forall|i: int| 0 <= i < strip_fields(fields, strips).len() implies field_kept(
            #[trigger] strip_fields(fields, strips)[i],
            strips,
        ) by {
            if i < pruned.len() {
                assert(strip_fields(fields, strips)[i] == pruned[i]);
            } else {
                assert(strip_fields(fields, strips)[i] == fields.last());
            }
        }
    }
}

/// Every field that survives stripping stood in the source object, at
/// the same place relative to the other survivors: stripping only ever
/// removes, it never invents or reorders.
pub proof fn lemma_strip_fields_subset(fields: Seq<FieldView>, strips: Seq<Seq<Seq<char>>>)
    ensures
        forall|i: int| 0 <= i < strip_fields(fields, strips).len() ==> fields.contains(
            #[trigger] strip_fields(fields, strips)[i],
        ),
    decreases fields.len(),
{
    if fields.len() > 0 {
        lemma_strip_fields_subset(fields.drop_last(), strips);
        assert forall|i: int| 0 <= i < strip_fields(fields, strips).len() implies fields.contains(
            #[trigger] strip_fields(fields, strips)[i],
        ) by {
            let pruned = strip_fields(fields.drop_last(), strips);
            if i < pruned.len() {
                assert(fields.drop_last().contains(pruned[i]));
                let j = choose|j: int|
                    0 <= j < fields.drop_last().len() && fields.drop_last()[j] == pruned[i];
                assert(fields[j] == pruned[i]);
            } else {
                assert(strip_fields(fields, strips)[i] == fields.last());
            }
        }
    }
}

/// Stripping is idempotent: a second pass with the same strip-paths
/// changes nothing.
pub proof fn lemma_strip_fields_idempotent(fields: Seq<FieldView>, strips: Seq<Seq<Seq<char>>>)
    ensures
        strip_fields(strip_fields(fields, strips), strips) == strip_fields(fields, strips),
    decreases fields.len(),
{
    if fields.len() == 0 {
        assert(strip_fields(fields, strips) =~= Seq::<FieldView>::empty());
    } else {
        lemma_strip_fields_idempotent(fields.drop_last(), strips);
        let pruned = strip_fields(fields.drop_last(), strips);
        if field_kept(fields.last(), strips) {
            let grown = pruned.push(fields.last());
            assert(grown.drop_last() =~= pruned);
            assert(grown.last() == fields.last());
        }
    }
}

/// Normalization frees an object of every configured strip-path.
pub proof fn lemma_normalized_free_of_strip_paths(obj: DynObjectView, cfg: TrackedResourceConfigView)
    ensures
        forall|i: int| 0 <= i < normalize_obj(obj, cfg).fields.len() ==> !path_is_stripped(
            (#[trigger] normalize_obj(obj, cfg).fields[i]).path,
            cfg.strip_paths,
        ),
{
    lemma_strip_fields_complete(obj.fields, cfg.strip_paths);
}

/// The type identity of a normalized object is the configured
/// descriptor's, whatever the source object reported: two sources that
/// differ only in their claimed identity normalize to the same identity.
pub proof fn lemma_identity_overwritten(
    a: DynObjectView,
    b: DynObjectView,
    cfg: TrackedResourceConfigView,
)
    ensures
        normalize_obj(a, cfg).types == TypeMetaView::of_gvk(cfg.gvk),
        normalize_obj(a, cfg).types == normalize_obj(b, cfg).types,
{
}

} // verus!
