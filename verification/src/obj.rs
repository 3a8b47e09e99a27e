use vstd::prelude::*;
use vstd::string::StringExecFns;

verus! {

/// One field of a cluster object: the path of segments that leads to it
/// from the object's root (for example `spec`, then `template`) and the
/// payload found there.
#[derive(Clone, Debug, PartialEq)]
pub struct Field {
    pub path: Vec<String>,
    pub value: String,
}

/// Mathematical model of a [`Field`].
pub struct FieldView {
    pub path: Seq<Seq<char>>,
    pub value: Seq<char>,
}

impl View for Field {
    type V = FieldView;

    open spec fn view(&self) -> FieldView {
        FieldView { path: self.path.deep_view(), value: self.value@ }
    }
}

impl DeepView for Field {
    type V = FieldView;

    open spec fn deep_view(&self) -> FieldView {
        self.view()
    }
}

/// Identifies one cluster resource kind by group, version and kind.
/// Immutable, supplied by configuration; one per tracked type.
#[derive(Clone, Debug, PartialEq)]
pub struct GroupVersionKind {
    pub group: String,
    pub version: String,
    pub kind: String,
}

/// Mathematical model of a [`GroupVersionKind`].
pub struct GvkView {
    pub group: Seq<char>,
    pub version: Seq<char>,
    pub kind: Seq<char>,
}

impl GvkView {
    /// The canonical `apiVersion` string of this descriptor: `group/version`,
    /// or just `version` for the core group, whose name is empty.
    pub open spec fn api_version(self) -> Seq<char> {
        if self.group.len() == 0 {
            self.version
        } else {
            self.group + seq!['/'] + self.version
        }
    }

    /// A descriptor that actually names a resource kind: version and kind
    /// are both non-empty (the group alone may be empty, for the core group).
    pub open spec fn non_empty(self) -> bool {
        self.version.len() > 0 && self.kind.len() > 0
    }
}

impl View for GroupVersionKind {
    type V = GvkView;

    open spec fn view(&self) -> GvkView {
        GvkView { group: self.group@, version: self.version@, kind: self.kind@ }
    }
}

impl DeepView for GroupVersionKind {
    type V = GvkView;

    open spec fn deep_view(&self) -> GvkView {
        self.view()
    }
}

impl GroupVersionKind {
    /// The canonical `apiVersion` string of this descriptor.
    pub fn api_version(&self) -> (r: String)
        ensures
            r@ == self@.api_version(),
    {
        proof {
            reveal_strlit("/");
        }
        if self.group.as_str().is_empty() {
            self.version.clone()
        } else {
            let mut s = self.group.clone();
            s.append("/");
            s.append(self.version.as_str());
            proof {
                assert(s@ =~= self@.group + seq!['/'] + self@.version);
            }
            s
        }
    }
}

/// The stamped type identity carried by an object: the `apiVersion` string
/// and the kind, as the object reports them.
#[derive(Clone, Debug, PartialEq)]
pub struct TypeMeta {
    pub api_version: String,
    pub kind: String,
}

/// Mathematical model of a [`TypeMeta`].
pub struct TypeMetaView {
    pub api_version: Seq<char>,
    pub kind: Seq<char>,
}

impl TypeMetaView {
    /// The identity that a descriptor stamps on every object of its type.
    pub open spec fn of_gvk(gvk: GvkView) -> TypeMetaView {
        TypeMetaView { api_version: gvk.api_version(), kind: gvk.kind }
    }

    /// An identity that names a type at all: neither part is empty.
    pub open spec fn non_empty(self) -> bool {
        self.api_version.len() > 0 && self.kind.len() > 0
    }
}

impl View for TypeMeta {
    type V = TypeMetaView;

    open spec fn view(&self) -> TypeMetaView {
        TypeMetaView { api_version: self.api_version@, kind: self.kind@ }
    }
}

impl DeepView for TypeMeta {
    type V = TypeMetaView;

    open spec fn deep_view(&self) -> TypeMetaView {
        self.view()
    }
}

impl TypeMeta {
    /// The identity stamped from a descriptor's canonical group/version/kind.
    pub fn from_gvk(gvk: &GroupVersionKind) -> (r: TypeMeta)
        ensures
            r@ == TypeMetaView::of_gvk(gvk@),
    {
        TypeMeta { api_version: gvk.api_version(), kind: gvk.kind.clone() }
    }
}

/// A descriptor whose version and kind are non-empty always stamps a
/// non-empty identity.
pub proof fn lemma_stamped_identity_non_empty(gvk: GvkView)
    requires
        gvk.non_empty(),
    ensures
        TypeMetaView::of_gvk(gvk).non_empty(),
{
}

/// A type-erased cluster object as a watch stream reports it: the type
/// identity it claims for itself, which may be missing or wrong, and its
/// fields.
#[derive(Clone, Debug, PartialEq)]
pub struct DynObject {
    pub types: Option<TypeMeta>,
    pub fields: Vec<Field>,
}

/// Mathematical model of a [`DynObject`].
pub struct DynObjectView {
    pub types: Option<TypeMetaView>,
    pub fields: Seq<FieldView>,
}

impl View for DynObject {
    type V = DynObjectView;

    open spec fn view(&self) -> DynObjectView {
        DynObjectView { types: self.types.deep_view(), fields: self.fields.deep_view() }
    }
}

impl DeepView for DynObject {
    type V = DynObjectView;

    open spec fn deep_view(&self) -> DynObjectView {
        self.view()
    }
}

/// One cluster object after normalization: the configured strip-paths are
/// gone from its fields, and it carries an explicit type identity, so a
/// type-erased object stays self-describing downstream.
#[derive(Clone, Debug, PartialEq)]
pub struct NormalizedObject {
    pub types: TypeMeta,
    pub fields: Vec<Field>,
}

/// Mathematical model of a [`NormalizedObject`].
pub struct NormalizedObjectView {
    pub types: TypeMetaView,
    pub fields: Seq<FieldView>,
}

impl View for NormalizedObject {
    type V = NormalizedObjectView;

    open spec fn view(&self) -> NormalizedObjectView {
        NormalizedObjectView { types: self.types@, fields: self.fields.deep_view() }
    }
}

impl DeepView for NormalizedObject {
    type V = NormalizedObjectView;

    open spec fn deep_view(&self) -> NormalizedObjectView {
        self.view()
    }
}

} // verus!
