//! The type-family generator: walks the resolved tree with a threaded
//! context and emits, for every node, the Path / Prefix / Key / Params
//! family together with the SubPrefix / SubKey child selectors, each in a
//! lightweight (borrowing) and an owned representation, plus the schema
//! marker and the top-level accessors at the root.

use vstd::prelude::*;

use crate::ir::{Children, ChildrenView, KindView, NamesView, Node, NodeView, Settings};
use crate::output::{
    child_module_views, module_view, ChildModule, ChildModuleView, EnumDecl, EnumDeclView, Field,
    FieldDeco, FieldView, ModuleOutput, ModuleView, StructDecl, StructDeclView, TyRef, TyView,
    Variant, VariantView,
};

verus! {

/// The state threaded through the traversal: how deep the current node
/// stands, and how many further parameter levels must be bound before the
/// next named level of the current subtree is reached.
#[derive(Clone, Copy)]
pub struct Context {
    pub depth: usize,
    pub remaining_param_count: usize,
}

impl Context {
    /// Whether the traversal stands at the schema root.
    pub fn is_root(&self) -> (r: bool)
        ensures
            r == (self.depth == 0),
    {
        self.depth == 0
    }

    /// Whether further parameter levels must be bound before the next
    /// named level.
    pub fn has_remaining_params(&self) -> (r: bool)
        ensures
            r == (self.remaining_param_count > 0),
    {
        self.remaining_param_count > 0
    }
}

/// What the generator may be pointed at: every node below this one carries
/// a name, a parameter-binding node carries its own name, and the root is
/// an unpruned branching node.
pub open spec fn generable(n: NodeView, root: bool) -> bool {
    &&& crate::ir::descendants_named(n)
    &&& if root {
        n.children is Below && n.kind is Static
    } else {
        n.mod_name is Some
    }
}

/// The marker field of a zero-parameter lightweight `Params` struct.
pub open spec fn phantom_field() -> FieldView {
    FieldView { name: "__"@, ty: TyView::PhantomLifetime, deco: FieldDeco::Plain }
}

/// The `Params` pair for a node: a single named-and-typed field for a
/// parameter-binding node, an empty marker otherwise. This is the only
/// place a concrete value type appears directly.
pub open spec fn spec_params(n: NodeView, names: NamesView, clap: bool) -> (
    StructDeclView,
    StructDeclView,
) {
    match n.kind {
        KindView::Var(ty) => (
            StructDeclView {
                name: names.Params,
                lifetime: true,
                fields: seq![
                    FieldView {
                        name: n.mod_name->0.text,
                        ty: TyView::BorrowedValue(ty),
                        deco: FieldDeco::Plain,
                    },
                ],
                clap_args: false,
            },
            StructDeclView {
                name: names.OwnedParams,
                lifetime: false,
                fields: seq![
                    FieldView {
                        name: n.mod_name->0.text,
                        ty: TyView::Value(ty),
                        deco: if clap {
                            FieldDeco::ClapLong
                        } else {
                            FieldDeco::Plain
                        },
                    },
                ],
                clap_args: clap,
            },
        ),
        KindView::Static { .. } => (
            StructDeclView {
                name: names.Params,
                lifetime: true,
                fields: seq![phantom_field()],
                clap_args: false,
            },
            StructDeclView {
                name: names.OwnedParams,
                lifetime: false,
                fields: Seq::empty(),
                clap_args: false,
            },
        ),
    }
}

/// The `Path` pair for a node: the parameters bound at this level plus a
/// back-reference to the immediate ancestor's own `Path`; the schema marker
/// stands in for the root's ancestor.
pub open spec fn spec_path(root: bool, names: NamesView) -> (StructDeclView, StructDeclView) {
    (
        StructDeclView {
            name: names.Path,
            lifetime: true,
            fields: seq![
                FieldView {
                    name: "params"@,
                    ty: TyView::SelfRole(names.Params),
                    deco: FieldDeco::Plain,
                },
                FieldView {
                    name: "parent"@,
                    ty: if root {
                        TyView::SchemaMarker(names.Schema)
                    } else {
                        TyView::SuperRole(names.Path)
                    },
                    deco: FieldDeco::Plain,
                },
            ],
            clap_args: false,
        },
        StructDeclView {
            name: names.OwnedPath,
            lifetime: false,
            fields: seq![
                FieldView {
                    name: "params"@,
                    ty: TyView::SelfRole(names.OwnedParams),
                    deco: FieldDeco::Plain,
                },
                FieldView {
                    name: "parent"@,
                    ty: if root {
                        TyView::SchemaMarker(names.Schema)
                    } else {
                        TyView::SuperRole(names.OwnedPath)
                    },
                    deco: FieldDeco::Plain,
                },
            ],
            clap_args: false,
        },
    )
}

/// The `Prefix` pair for a node: parameters plus an optional continuation
/// into exactly one child's own `Prefix`. Leaves and pruned nodes get none.
pub open spec fn spec_prefix(n: NodeView, names: NamesView) -> Option<
    (StructDeclView, StructDeclView),
> {
    if n.spec_is_leaf() {
        None
    } else {
        Some(
            (
                StructDeclView {
                    name: names.Prefix,
                    lifetime: true,
                    fields: seq![
                        FieldView {
                            name: "params"@,
                            ty: TyView::SelfRole(names.Params),
                            deco: FieldDeco::Plain,
                        },
                        FieldView {
                            name: "child"@,
                            ty: TyView::OptionalSelfRole(names.SubPrefix),
                            deco: FieldDeco::Plain,
                        },
                    ],
                    clap_args: false,
                },
                StructDeclView {
                    name: names.OwnedPrefix,
                    lifetime: false,
                    fields: seq![
                        FieldView {
                            name: "params"@,
                            ty: TyView::SelfRole(names.OwnedParams),
                            deco: FieldDeco::Plain,
                        },
                        FieldView {
                            name: "child"@,
                            ty: TyView::OptionalSelfRole(names.OwnedSubPrefix),
                            deco: FieldDeco::Plain,
                        },
                    ],
                    clap_args: false,
                },
            ),
        )
    }
}

/// The `Key` pair for a node: parameters plus a mandatory selection. For a
/// branching or pruned node the selection goes through the `SubKey` union;
/// a leaf's key is identified with the leaf's associated value type
/// instead.
pub open spec fn spec_key(n: NodeView, names: NamesView, clap: bool) -> (
    StructDeclView,
    StructDeclView,
) {
    let (child_ty, owned_child_ty) = match n.children {
        ChildrenView::Leaf(ty) => (TyView::BorrowedValue(ty), TyView::Value(ty)),
        _ => (TyView::SelfRole(names.SubKey), TyView::SelfRole(names.OwnedSubKey)),
    };
    (
        StructDeclView {
            name: names.Key,
            lifetime: true,
            fields: seq![
                FieldView {
                    name: "params"@,
                    ty: TyView::SelfRole(names.Params),
                    deco: FieldDeco::Plain,
                },
                FieldView { name: "child"@, ty: child_ty, deco: FieldDeco::Plain },
            ],
            clap_args: false,
        },
        StructDeclView {
            name: names.OwnedKey,
            lifetime: false,
            fields: seq![
                FieldView {
                    name: "params"@,
                    ty: TyView::SelfRole(names.OwnedParams),
                    deco: if clap {
                        FieldDeco::ClapFlatten
                    } else {
                        FieldDeco::Plain
                    },
                },
                FieldView {
                    name: "child"@,
                    ty: owned_child_ty,
                    deco: if clap {
                        FieldDeco::ClapSubcommand
                    } else {
                        FieldDeco::Plain
                    },
                },
            ],
            clap_args: clap,
        },
    )
}

/// The variant names of a node's child-selector unions: one per child in
/// declaration order for a branching node, none at all for a leaf, and an
/// empty list for a pruned node.
pub open spec fn union_variant_names(n: NodeView) -> Option<Seq<Seq<char>>> {
    match n.children {
        ChildrenView::Below(cs) => Some(Seq::new(cs.len(), |i: int| cs[i].mod_name->0.text)),
        ChildrenView::Leaf(_) => None,
        ChildrenView::Pruned => Some(Seq::empty()),
    }
}

/// A child-selector union over the given variant names, each variant
/// wrapping the named child's own role type.
pub open spec fn spec_union(
    ts: Seq<Seq<char>>,
    union_name: Seq<char>,
    child_role: Seq<char>,
    lifetime: bool,
    clap_subcommand: bool,
) -> EnumDeclView {
    EnumDeclView {
        name: union_name,
        lifetime,
        variants: Seq::new(
            ts.len(),
            |i: int| VariantView { name: ts[i], ty: TyView::ChildRole { child: ts[i], role: child_role } },
        ),
        clap_subcommand,
    }
}

/// The `SubPrefix` pair for a node, when it gets one.
pub open spec fn spec_sub_prefix(n: NodeView, names: NamesView, clap: bool) -> Option<
    (EnumDeclView, EnumDeclView),
> {
    match union_variant_names(n) {
        Some(ts) => Some(
            (
                spec_union(ts, names.SubPrefix, names.Prefix, true, false),
                spec_union(ts, names.OwnedSubPrefix, names.OwnedPrefix, false, clap),
            ),
        ),
        None => None,
    }
}

/// The `SubKey` pair for a node, when it gets one.
pub open spec fn spec_sub_key(n: NodeView, names: NamesView, clap: bool) -> Option<
    (EnumDeclView, EnumDeclView),
> {
    match union_variant_names(n) {
        Some(ts) => Some(
            (
                spec_union(ts, names.SubKey, names.Key, true, false),
                spec_union(ts, names.OwnedSubKey, names.OwnedKey, false, clap),
            ),
        ),
        None => None,
    }
}

/// The top-level accessor names: one per root child, root only.
pub open spec fn spec_root_fns(n: NodeView, root: bool) -> Seq<Seq<char>> {
    if root {
        match n.children {
            ChildrenView::Below(cs) => Seq::new(cs.len(), |i: int| cs[i].mod_name->0.text),
            _ => Seq::empty(),
        }
    } else {
        Seq::empty()
    }
}

/// Everything the generator emits for one node and its subtree.
pub open spec fn spec_module(n: NodeView, root: bool, names: NamesView, clap: bool) -> ModuleView
    decreases n,
{
    let (path, owned_path) = spec_path(root, names);
    let (key, owned_key) = spec_key(n, names, clap);
    let (params, owned_params) = spec_params(n, names, clap);
    ModuleView {
        schema: if root {
            Some(names.Schema)
        } else {
            None
        },
        root_fns: spec_root_fns(n, root),
        path,
        owned_path,
        prefix: match spec_prefix(n, names) {
            Some(p) => Some(p.0),
            None => None,
        },
        owned_prefix: match spec_prefix(n, names) {
            Some(p) => Some(p.1),
            None => None,
        },
        key,
        owned_key,
        params,
        owned_params,
        sub_prefix: match spec_sub_prefix(n, names, clap) {
            Some(p) => Some(p.0),
            None => None,
        },
        owned_sub_prefix: match spec_sub_prefix(n, names, clap) {
            Some(p) => Some(p.1),
            None => None,
        },
        sub_key: match spec_sub_key(n, names, clap) {
            Some(p) => Some(p.0),
            None => None,
        },
        owned_sub_key: match spec_sub_key(n, names, clap) {
            Some(p) => Some(p.1),
            None => None,
        },
        children: match n.children {
            ChildrenView::Below(cs) => spec_child_modules(cs, names, clap),
            _ => Seq::empty(),
        },
    }
}

/// The nested namespaces of a branching node's children.
pub open spec fn spec_child_modules(cs: Seq<NodeView>, names: NamesView, clap: bool) -> Seq<
    ChildModuleView,
>
    decreases cs,
{
    if cs.len() == 0 {
        Seq::empty()
    } else {
        spec_child_modules(cs.subrange(0, cs.len() - 1), names, clap).push(
            ChildModuleView {
                name: cs[cs.len() - 1].mod_name->0.text,
                output: spec_module(cs[cs.len() - 1], false, names, clap),
            },
        )
    }
}

/// `spec_child_modules` is the element-wise image of `spec_module`.
pub proof fn lemma_spec_child_modules(cs: Seq<NodeView>, names: NamesView, clap: bool)
    ensures
        spec_child_modules(cs, names, clap).len() == cs.len(),
        forall|i: int|
            0 <= i < cs.len() ==> #[trigger] spec_child_modules(cs, names, clap)[i]
                == (ChildModuleView {
                name: cs[i].mod_name->0.text,
                output: spec_module(cs[i], false, names, clap),
            }),
    decreases cs.len(),
{
    if cs.len() > 0 {
        lemma_spec_child_modules(cs.subrange(0, cs.len() - 1), names, clap);
        assert(forall|i: int|
            0 <= i < cs.len() - 1 ==> cs.subrange(0, cs.len() - 1)[i] == #[trigger] cs[i]);
    }
}

/// One node of the resolved tree together with the traversal context and
/// the settings side-channel: everything one generation step reads.
pub struct NodeInContextWithSettings<'a> {
    pub node: &'a Node,
    pub context: Context,
    pub settings: &'a Settings,
}

/// Builds a field from plain parts.
fn field(name: &str, ty: TyRef, deco: FieldDeco) -> (f: Field)
    ensures
        f@ == (FieldView { name: name@, ty: ty@, deco }),
{
    Field { name: name.to_owned(), ty, deco }
}

impl<'a> NodeInContextWithSettings<'a> {
    /// The schema marker, at the root only.
    fn root_schema(&self) -> (r: Option<String>)
        ensures
            match r {
                Some(s) => self.context.depth == 0 && s@ == self.settings.names@.Schema,
                None => self.context.depth != 0,
            },
    {
        if self.context.is_root() {
            Some(self.settings.names.Schema.clone())
        } else {
            None
        }
    }

    /// The top-level accessor names, at the root only: one per root child.
    fn root_schema_fns(&self) -> (r: Vec<String>)
        requires
            self.context.depth == 0 ==> self.node@.children is Below,
            crate::ir::descendants_named(self.node@),
        ensures
            Seq::new(r@.len(), |i: int| r@[i]@) == spec_root_fns(
                self.node@,
                self.context.depth == 0,
            ),
    {
        let mut out: Vec<String> = Vec::new();
        if !self.context.is_root() {
            proof {
                assert(Seq::new(out@.len(), |i: int| out@[i]@) =~= spec_root_fns(
                    self.node@,
                    false,
                ));
            }
            return out;
        }
        match &self.node.children {
            Ok(Children::Below(cs)) => {
                let ghost csv = crate::ir::node_views(cs@);
                proof {
                    crate::ir::lemma_node_views(cs@);
                }
                let mut i: usize = 0;
                while i < cs.len()
                    invariant
                        i <= cs.len(),
                        out@.len() == i,
                        csv == crate::ir::node_views(cs@),
                        csv.len() == cs@.len(),
                        forall|j: int|
                            0 <= j < cs@.len() ==> #[trigger] csv[j] == crate::ir::node_view(
                                cs@[j],
                            ),
                        forall|j: int|
                            0 <= j < csv.len() ==> (#[trigger] csv[j]).mod_name is Some,
                        forall|j: int| 0 <= j < i ==> (#[trigger] out@[j])@ == csv[j].mod_name->0.text,
                    decreases cs.len() - i,
                {
                    let name = match &cs[i].header.mod_name {
                        Some(m) => m.text.clone(),
                        None => {
                            proof {
                                assert(csv[i as int].mod_name is Some);
                                assert(csv[i as int] == crate::ir::node_view(cs@[i as int]));
                            }
                            unreached()
                        },
                    };
                    out.push(name);
                    i = i + 1;
                }
                proof {
                    assert(Seq::new(out@.len(), |i: int| out@[i]@) =~= spec_root_fns(
                        self.node@,
                        true,
                    ));
                }
                out
            },
            _ => unreached(),
        }
    }

    /// The `Path` pair.
    fn path_structs(&self) -> (r: (StructDecl, StructDecl))
        ensures
            (r.0@, r.1@) == spec_path(self.context.depth == 0, self.settings.names@),
    {
        let names = &self.settings.names;
        let root = self.context.is_root();
        let mut fields: Vec<Field> = Vec::new();
        fields.push(field("params", TyRef::SelfRole(names.Params.clone()), FieldDeco::Plain));
        fields.push(
            field(
                "parent",
                if root {
                    TyRef::SchemaMarker(names.Schema.clone())
                } else {
                    TyRef::SuperRole(names.Path.clone())
                },
                FieldDeco::Plain,
            ),
        );
        let light = StructDecl { name: names.Path.clone(), lifetime: true, fields, clap_args: false };
        let mut fields: Vec<Field> = Vec::new();
        fields.push(field("params", TyRef::SelfRole(names.OwnedParams.clone()), FieldDeco::Plain));
        fields.push(
            field(
                "parent",
                if root {
                    TyRef::SchemaMarker(names.Schema.clone())
                } else {
                    TyRef::SuperRole(names.OwnedPath.clone())
                },
                FieldDeco::Plain,
            ),
        );
        let owned = StructDecl {
            name: names.OwnedPath.clone(),
            lifetime: false,
            fields,
            clap_args: false,
        };
        proof {
            assert(light@ =~~= spec_path(root, names@).0);
            assert(owned@ =~~= spec_path(root, names@).1);
        }
        (light, owned)
    }

    /// The `Prefix` pair; none for leaves and pruned nodes.
    fn prefix_structs(&self) -> (r: Option<(StructDecl, StructDecl)>)
        ensures
            match r {
                Some(p) => spec_prefix(self.node@, self.settings.names@) == Some((p.0@, p.1@)),
                None => spec_prefix(self.node@, self.settings.names@) is None,
            },
    {
        if self.node.is_leaf() {
            return None;
        }
        let names = &self.settings.names;
        let mut fields: Vec<Field> = Vec::new();
        fields.push(field("params", TyRef::SelfRole(names.Params.clone()), FieldDeco::Plain));
        fields.push(
            field("child", TyRef::OptionalSelfRole(names.SubPrefix.clone()), FieldDeco::Plain),
        );
        let light = StructDecl {
            name: names.Prefix.clone(),
            lifetime: true,
            fields,
            clap_args: false,
        };
        let mut fields: Vec<Field> = Vec::new();
        fields.push(field("params", TyRef::SelfRole(names.OwnedParams.clone()), FieldDeco::Plain));
        fields.push(
            field(
                "child",
                TyRef::OptionalSelfRole(names.OwnedSubPrefix.clone()),
                FieldDeco::Plain,
            ),
        );
        let owned = StructDecl {
            name: names.OwnedPrefix.clone(),
            lifetime: false,
            fields,
            clap_args: false,
        };
        proof {
            assert(light@ =~~= (spec_prefix(self.node@, names@)->0).0);
            assert(owned@ =~~= (spec_prefix(self.node@, names@)->0).1);
        }
        Some((light, owned))
    }

    /// The `Key` pair.
    fn key_structs(&self) -> (r: (StructDecl, StructDecl))
        ensures
            (r.0@, r.1@) == spec_key(
                self.node@,
                self.settings.names@,
                self.settings.extensions.clap,
            ),
    {
        let names = &self.settings.names;
        let clap = self.settings.extensions.clap;
        let (child_ty, owned_child_ty) = match &self.node.children {
            Ok(Children::Leaf(ty)) => (TyRef::BorrowedValue(ty.clone()), TyRef::Value(ty.clone())),
            _ => (
                TyRef::SelfRole(names.SubKey.clone()),
                TyRef::SelfRole(names.OwnedSubKey.clone()),
            ),
        };
        let mut fields: Vec<Field> = Vec::new();
        fields.push(field("params", TyRef::SelfRole(names.Params.clone()), FieldDeco::Plain));
        fields.push(field("child", child_ty, FieldDeco::Plain));
        let light = StructDecl { name: names.Key.clone(), lifetime: true, fields, clap_args: false };
        let mut fields: Vec<Field> = Vec::new();
        fields.push(
            field(
                "params",
                TyRef::SelfRole(names.OwnedParams.clone()),
                if clap {
                    FieldDeco::ClapFlatten
                } else {
                    FieldDeco::Plain
                },
            ),
        );
        fields.push(
            field(
                "child",
                owned_child_ty,
                if clap {
                    FieldDeco::ClapSubcommand
                } else {
                    FieldDeco::Plain
                },
            ),
        );
        let owned = StructDecl {
            name: names.OwnedKey.clone(),
            lifetime: false,
            fields,
            clap_args: clap,
        };
        proof {
            assert(light@ =~~= spec_key(self.node@, names@, clap).0);
            assert(owned@ =~~= spec_key(self.node@, names@, clap).1);
        }
        (light, owned)
    }

    /// The `Params` pair: the one place a concrete value type appears.
    fn params_structs(&self) -> (r: (StructDecl, StructDecl))
        requires
            self.node@.kind is Var ==> self.node@.mod_name is Some,
        ensures
            (r.0@, r.1@) == spec_params(
                self.node@,
                self.settings.names@,
                self.settings.extensions.clap,
            ),
    {
        let names = &self.settings.names;
        let clap = self.settings.extensions.clap;
        match &self.node.header.kind {
            crate::ir::Kind::Var(ty) => {
                let fname = match &self.node.header.mod_name {
                    Some(m) => &m.text,
                    None => unreached(),
                };
                let mut fields: Vec<Field> = Vec::new();
                fields.push(
                    Field {
                        name: fname.clone(),
                        ty: TyRef::BorrowedValue(ty.clone()),
                        deco: FieldDeco::Plain,
                    },
                );
                let light = StructDecl {
                    name: names.Params.clone(),
                    lifetime: true,
                    fields,
                    clap_args: false,
                };
                let mut fields: Vec<Field> = Vec::new();
                fields.push(
                    Field {
                        name: fname.clone(),
                        ty: TyRef::Value(ty.clone()),
                        deco: if clap {
                            FieldDeco::ClapLong
                        } else {
                            FieldDeco::Plain
                        },
                    },
                );
                let owned = StructDecl {
                    name: names.OwnedParams.clone(),
                    lifetime: false,
                    fields,
                    clap_args: clap,
                };
                proof {
                    assert(light@ =~~= spec_params(self.node@, names@, clap).0);
                    assert(owned@ =~~= spec_params(self.node@, names@, clap).1);
                }
                (light, owned)
            },
            crate::ir::Kind::Static { .. } => {
                let mut fields: Vec<Field> = Vec::new();
                fields.push(field("__", TyRef::PhantomLifetime, FieldDeco::Plain));
                let light = StructDecl {
                    name: names.Params.clone(),
                    lifetime: true,
                    fields,
                    clap_args: false,
                };
                let owned = StructDecl {
                    name: names.OwnedParams.clone(),
                    lifetime: false,
                    fields: Vec::new(),
                    clap_args: false,
                };
                proof {
                    assert(light@ =~~= spec_params(self.node@, names@, clap).0);
                    assert(owned@ =~~= spec_params(self.node@, names@, clap).1);
                }
                (light, owned)
            },
        }
    }

    /// The variant names of the child-selector unions, when the node gets
    /// any: one per child for a branching node, an empty list for a pruned
    /// one.
    fn union_names(&self) -> (r: Option<Vec<String>>)
        requires
            crate::ir::descendants_named(self.node@),
        ensures
            match r {
                Some(v) => union_variant_names(self.node@) == Some(
                    Seq::new(v@.len(), |i: int| v@[i]@),
                ),
                None => union_variant_names(self.node@) is None,
            },
    {
        match &self.node.children {
            Ok(Children::Leaf(_)) => None,
            Err(_) => {
                let out: Vec<String> = Vec::new();
                proof {
                    assert(Seq::new(out@.len(), |i: int| out@[i]@) =~= Seq::<Seq<char>>::empty());
                }
                Some(out)
            },
            Ok(Children::Below(cs)) => {
                let ghost csv = crate::ir::node_views(cs@);
                proof {
                    crate::ir::lemma_node_views(cs@);
                }
                let mut out: Vec<String> = Vec::new();
                let mut i: usize = 0;
                while i < cs.len()
                    invariant
                        i <= cs.len(),
                        out@.len() == i,
                        csv == crate::ir::node_views(cs@),
                        csv.len() == cs@.len(),
                        forall|j: int|
                            0 <= j < cs@.len() ==> #[trigger] csv[j] == crate::ir::node_view(
                                cs@[j],
                            ),
                        forall|j: int|
                            0 <= j < csv.len() ==> (#[trigger] csv[j]).mod_name is Some,
                        forall|j: int| 0 <= j < i ==> (#[trigger] out@[j])@ == csv[j].mod_name->0.text,
                    decreases cs.len() - i,
                {
                    let name = match &cs[i].header.mod_name {
                        Some(m) => m.text.clone(),
                        None => {
                            proof {
                                assert(csv[i as int].mod_name is Some);
                                assert(csv[i as int] == crate::ir::node_view(cs@[i as int]));
                            }
                            unreached()
                        },
                    };
                    out.push(name);
                    i = i + 1;
                }
                proof {
                    assert(union_variant_names(self.node@)->0 =~= Seq::new(
                        out@.len(),
                        |i: int| out@[i]@,
                    ));
                }
                Some(out)
            },
        }
    }

    /// Builds one child-selector union over the given variant names.
    fn union_decl(
        ts: &Vec<String>,
        union_name: &String,
        child_role: &String,
        lifetime: bool,
        clap_subcommand: bool,
    ) -> (r: EnumDecl)
        ensures
            r@ == spec_union(
                Seq::new(ts@.len(), |i: int| ts@[i]@),
                union_name@,
                child_role@,
                lifetime,
                clap_subcommand,
            ),
    {
        let mut variants: Vec<Variant> = Vec::new();
        let mut i: usize = 0;
        while i < ts.len()
            invariant
                i <= ts.len(),
                variants@.len() == i,
                forall|j: int|
                    0 <= j < i ==> (#[trigger] variants@[j])@ == (VariantView {
                        name: ts@[j]@,
                        ty: TyView::ChildRole { child: ts@[j]@, role: child_role@ },
                    }),
            decreases ts.len() - i,
        {
            variants.push(
                Variant {
                    name: ts[i].clone(),
                    ty: TyRef::ChildRole { child: ts[i].clone(), role: child_role.clone() },
                },
            );
            i = i + 1;
        }
        let r = EnumDecl { name: union_name.clone(), lifetime, variants, clap_subcommand };
        proof {
            assert(r@ =~~= spec_union(
                Seq::new(ts@.len(), |i: int| ts@[i]@),
                union_name@,
                child_role@,
                lifetime,
                clap_subcommand,
            ));
        }
        r
    }

    /// The `SubPrefix` pair, when the node gets one.
    fn sub_prefix_structs(&self, ts: &Option<Vec<String>>) -> (r: Option<(EnumDecl, EnumDecl)>)
        requires
            match ts {
                Some(v) => union_variant_names(self.node@) == Some(
                    Seq::new(v@.len(), |i: int| v@[i]@),
                ),
                None => union_variant_names(self.node@) is None,
            },
        ensures
            match r {
                Some(p) => spec_sub_prefix(
                    self.node@,
                    self.settings.names@,
                    self.settings.extensions.clap,
                ) == Some((p.0@, p.1@)),
                None => spec_sub_prefix(
                    self.node@,
                    self.settings.names@,
                    self.settings.extensions.clap,
                ) is None,
            },
    {
        let names = &self.settings.names;
        let clap = self.settings.extensions.clap;
        match ts {
            Some(v) => {
                let light = Self::union_decl(v, &names.SubPrefix, &names.Prefix, true, false);
                let owned = Self::union_decl(
                    v,
                    &names.OwnedSubPrefix,
                    &names.OwnedPrefix,
                    false,
                    clap,
                );
                Some((light, owned))
            },
            None => None,
        }
    }

    /// The `SubKey` pair, when the node gets one.
    fn sub_key_structs(&self, ts: &Option<Vec<String>>) -> (r: Option<(EnumDecl, EnumDecl)>)
        requires
            match ts {
                Some(v) => union_variant_names(self.node@) == Some(
                    Seq::new(v@.len(), |i: int| v@[i]@),
                ),
                None => union_variant_names(self.node@) is None,
            },
        ensures
            match r {
                Some(p) => spec_sub_key(
                    self.node@,
                    self.settings.names@,
                    self.settings.extensions.clap,
                ) == Some((p.0@, p.1@)),
                None => spec_sub_key(
                    self.node@,
                    self.settings.names@,
                    self.settings.extensions.clap,
                ) is None,
            },
    {
        let names = &self.settings.names;
        let clap = self.settings.extensions.clap;
        match ts {
            Some(v) => {
                let light = Self::union_decl(v, &names.SubKey, &names.Key, true, false);
                let owned = Self::union_decl(v, &names.OwnedSubKey, &names.OwnedKey, false, clap);
                Some((light, owned))
            },
            None => None,
        }
    }
}

impl<'a> NodeInContextWithSettings<'a> {
    /// Emits the whole family for this node and recurses into its children
    /// with the stepped context.
    ///
    /// The remaining-parameter counter is bookkeeping with no effect on the
    /// emitted declarations; it is stepped without wrapping so that the
    /// traversal never fails, and on trees the builder produces it never
    /// reaches zero at a parameter-binding level.
    #[verifier::rlimit(50)]
    #[verifier::spinoff_prover]
    #[verifier::loop_isolation(false)]
    pub fn generate(&self) -> (out: ModuleOutput)
        requires
            generable(self.node@, self.context.depth == 0),
        ensures
            out@ == spec_module(
                self.node@,
                self.context.depth == 0,
                self.settings.names@,
                self.settings.extensions.clap,
            ),
        decreases *self.node,
    {
        let ghost nv = self.node@;
        let ghost names = self.settings.names@;
        let ghost clap = self.settings.extensions.clap;
        let ghost root = self.context.depth == 0;

        let schema = self.root_schema();
        let root_fns = self.root_schema_fns();
        let (path, owned_path) = self.path_structs();
        let (key, owned_key) = self.key_structs();
        proof {
            if nv.kind is Var {
                assert(nv.mod_name is Some);
            }
        }
        let (params, owned_params) = self.params_structs();
        let prefix_pair = self.prefix_structs();
        let union_names = self.union_names();
        let sub_prefix_pair = self.sub_prefix_structs(&union_names);
        let sub_key_pair = self.sub_key_structs(&union_names);

        let mut children_out: Vec<ChildModule> = Vec::new();
        match &self.node.children {
            Ok(Children::Below(cs)) => {
                let ghost csv = crate::ir::node_views(cs@);
                proof {
                    crate::ir::lemma_node_views(cs@);
                    lemma_spec_child_modules(csv, names, clap);
                }
                // The context for every child of this node: one level
                // deeper; the counter resets to a named node's declared
                // count and steps down through a parameter level.
                let depth = if self.context.depth == usize::MAX {
                    usize::MAX
                } else {
                    self.context.depth + 1
                };
                let remaining_param_count = match &self.node.header.kind {
                    crate::ir::Kind::Var(_) => {
                        if self.context.remaining_param_count > 0 {
                            self.context.remaining_param_count - 1
                        } else {
                            0
                        }
                    },
                    crate::ir::Kind::Static { param_count, .. } => *param_count,
                };
                let child_context = Context { depth, remaining_param_count };
                let mut i: usize = 0;
                while i < cs.len()
                    invariant
                        i <= cs.len(),
                        children_out@.len() == i,
                        child_context.depth != 0,
                        forall|j: int|
                            0 <= j < i ==> #[trigger] child_module_views(children_out@)[j]
                                == spec_child_modules(csv, names, clap)[j],
                    decreases cs.len() - i,
                {
                    proof {
                        assert(decreases_to!(*self.node => self.node.children));
                        assert(decreases_to!(self.node.children => self.node.children->Ok_0));
                        assert(decreases_to!(
                            self.node.children->Ok_0 => self.node.children->Ok_0->Below_0));
                        assert(self.node.children->Ok_0->Below_0 == *cs);
                        assert(decreases_to!(*cs => cs@));
                        assert(decreases_to!(cs@ => cs@[i as int]));
                        assert(csv[i as int].mod_name is Some);
                        assert(crate::ir::descendants_named(csv[i as int]));
                    }
                    let name = match &cs[i].header.mod_name {
                        Some(m) => m.text.clone(),
                        None => {
                            proof {
                                assert(csv[i as int].mod_name is Some);
                                assert(csv[i as int] == crate::ir::node_view(cs@[i as int]));
                            }
                            unreached()
                        },
                    };
                    let sub = NodeInContextWithSettings {
                        node: &cs[i],
                        context: child_context,
                        settings: self.settings,
                    };
                    let output = sub.generate();
                    proof {
                        crate::output::lemma_child_module_views(children_out@);
                        assert(csv[i as int] == crate::ir::node_view(cs@[i as int]));
                        assert(name@ == csv[i as int].mod_name->0.text);
                        assert(output@ == spec_module(csv[i as int], false, names, clap));
                    }
                    let ghost prev = children_out@;
                    children_out.push(ChildModule { name, output });
                    proof {
                        crate::output::lemma_child_module_views(children_out@);
                        assert forall|j: int|
                            0 <= j < i + 1 implies #[trigger] child_module_views(children_out@)[j]
                            == spec_child_modules(csv, names, clap)[j] by {
                            if j < i {
                                assert(child_module_views(prev)[j] == spec_child_modules(
                                    csv,
                                    names,
                                    clap,
                                )[j]);
                                assert(children_out@[j] == prev[j]);
                            } else {
                                assert(children_out@[j].name@ == csv[j].mod_name->0.text);
                                assert(children_out@[j].output@ == spec_module(
                                    csv[j],
                                    false,
                                    names,
                                    clap,
                                ));
                            }
                        }
                    }
                    i = i + 1;
                }
                proof {
                    crate::output::lemma_child_module_views(children_out@);
                    assert(child_module_views(children_out@) =~= spec_child_modules(
                        csv,
                        names,
                        clap,
                    ));
                }
            },
            _ => {
                proof {
                    assert(child_module_views(children_out@) =~= Seq::<ChildModuleView>::empty());
                }
            },
        }

        let (prefix, owned_prefix) = match prefix_pair {
            Some((a, b)) => (Some(a), Some(b)),
            None => (None, None),
        };
        let (sub_prefix, owned_sub_prefix) = match sub_prefix_pair {
            Some((a, b)) => (Some(a), Some(b)),
            None => (None, None),
        };
        let (sub_key, owned_sub_key) = match sub_key_pair {
            Some((a, b)) => (Some(a), Some(b)),
            None => (None, None),
        };
        let out = ModuleOutput {
            schema,
            root_fns,
            path,
            owned_path,
            prefix,
            owned_prefix,
            key,
            owned_key,
            params,
            owned_params,
            sub_prefix,
            owned_sub_prefix,
            sub_key,
            owned_sub_key,
            children: children_out,
        };
        proof {
            assert(Seq::new(out.root_fns@.len(), |i: int| out.root_fns@[i]@) == spec_root_fns(
                nv,
                root,
            ));
            assert(module_view(out) =~~= spec_module(nv, root, names, clap));
        }
        out
    }
}

impl crate::ir::Ir {
    /// Generates the full API surface for a resolved tree.
    pub fn generate(&self) -> (out: ModuleOutput)
        requires
            generable(self.root@, true),
        ensures
            out@ == spec_module(
                self.root@,
                true,
                self.settings.names@,
                self.settings.extensions.clap,
            ),
    {
        NodeInContextWithSettings {
            node: &self.root,
            context: Context { depth: 0, remaining_param_count: 0 },
            settings: &self.settings,
        }.generate()
    }
}

} // verus!

verus! {

/// The names of a declaration's data-carrying fields, in order. The
/// zero-parameter lightweight `Params` marker field stores no data (it
/// only pins the external lifetime), so it does not count.
pub open spec fn data_field_names(fields: Seq<FieldView>) -> Seq<Seq<char>>
    decreases fields.len(),
{
    if fields.len() == 0 {
        Seq::empty()
    } else {
        let rest = data_field_names(fields.subrange(1, fields.len() as int));
        if fields[0].ty is PhantomLifetime {
            rest
        } else {
            seq![fields[0].name] + rest
        }
    }
}

/// The variant names of a child-selector union, in order.
pub open spec fn variant_names(d: EnumDeclView) -> Seq<Seq<char>> {
    Seq::new(d.variants.len(), |i: int| d.variants[i].name)
}

/// The two representations of one module mirror each other: every role is
/// present in one exactly when it is present in the other, with the same
/// data field names and the same variant names, and the same holds below.
pub open spec fn representations_match(m: ModuleView) -> bool
    decreases m, 1int,
{
    &&& data_field_names(m.path.fields) == data_field_names(m.owned_path.fields)
    &&& (m.prefix is Some <==> m.owned_prefix is Some)
    &&& (m.prefix is Some ==> data_field_names(m.prefix->0.fields) == data_field_names(
        m.owned_prefix->0.fields,
    ))
    &&& data_field_names(m.key.fields) == data_field_names(m.owned_key.fields)
    &&& data_field_names(m.params.fields) == data_field_names(m.owned_params.fields)
    &&& (m.sub_prefix is Some <==> m.owned_sub_prefix is Some)
    &&& (m.sub_prefix is Some ==> variant_names(m.sub_prefix->0) == variant_names(
        m.owned_sub_prefix->0,
    ))
    &&& (m.sub_key is Some <==> m.owned_sub_key is Some)
    &&& (m.sub_key is Some ==> variant_names(m.sub_key->0) == variant_names(m.owned_sub_key->0))
    &&& children_representations_match(m.children)
}

/// The mirror property over a list of child namespaces.
pub open spec fn children_representations_match(ms: Seq<ChildModuleView>) -> bool
    decreases ms, 0int,
{
    forall|i: int|
        0 <= i < ms.len() ==> representations_match((#[trigger] ms[i]).output)
}

/// A two-field declaration's data field names, spelled out.
proof fn lemma_two_data_fields(fields: Seq<FieldView>)
    requires
        fields.len() == 2,
        !(fields[0].ty is PhantomLifetime),
        !(fields[1].ty is PhantomLifetime),
    ensures
        data_field_names(fields) == seq![fields[0].name, fields[1].name],
{
    let tail = fields.subrange(1, fields.len() as int);
    assert(tail.len() == 1 && tail[0] == fields[1]);
    let tail2 = tail.subrange(1, tail.len() as int);
    assert(tail2 =~= Seq::<FieldView>::empty());
    assert(data_field_names(tail2) == Seq::<Seq<char>>::empty());
    assert(data_field_names(tail) =~= seq![fields[1].name]);
    assert(data_field_names(fields) =~= seq![fields[0].name, fields[1].name]);
}

/// A one-field declaration's data field names, spelled out.
proof fn lemma_one_data_field(fields: Seq<FieldView>)
    requires
        fields.len() == 1,
    ensures
        !(fields[0].ty is PhantomLifetime) ==> data_field_names(fields) == seq![fields[0].name],
        fields[0].ty is PhantomLifetime ==> data_field_names(fields) == Seq::<Seq<char>>::empty(),
{
    let tail = fields.subrange(1, fields.len() as int);
    assert(tail =~= Seq::<FieldView>::empty());
    assert(data_field_names(tail) == Seq::<Seq<char>>::empty());
    if !(fields[0].ty is PhantomLifetime) {
        assert(data_field_names(fields) =~= seq![fields[0].name]);
    } else {
        assert(data_field_names(fields) =~= Seq::<Seq<char>>::empty());
    }
}

/// Round trip between the representations: at every node the generator
/// emits, the lightweight and the owned family carry matching role sets,
/// matching data field names, and matching union variant names.
pub proof fn lemma_representations_match(n: NodeView, root: bool, names: NamesView, clap: bool)
    ensures
        representations_match(spec_module(n, root, names, clap)),
    decreases n,
{
    let m = spec_module(n, root, names, clap);
    lemma_two_data_fields(m.path.fields);
    lemma_two_data_fields(m.owned_path.fields);
    lemma_two_data_fields(m.key.fields);
    lemma_two_data_fields(m.owned_key.fields);
    if m.prefix is Some {
        lemma_two_data_fields(m.prefix->0.fields);
        lemma_two_data_fields(m.owned_prefix->0.fields);
    }
    match n.kind {
        KindView::Var(_) => {
            lemma_one_data_field(m.params.fields);
            lemma_one_data_field(m.owned_params.fields);
        },
        KindView::Static { .. } => {
            lemma_one_data_field(m.params.fields);
            assert(data_field_names(m.owned_params.fields) == Seq::<Seq<char>>::empty());
        },
    }
    if m.sub_prefix is Some {
        assert(variant_names(m.sub_prefix->0) =~= variant_names(m.owned_sub_prefix->0));
    }
    if m.sub_key is Some {
        assert(variant_names(m.sub_key->0) =~= variant_names(m.owned_sub_key->0));
    }
    match n.children {
        ChildrenView::Below(cs) => {
            lemma_spec_child_modules(cs, names, clap);
            assert forall|i: int| 0 <= i < m.children.len() implies representations_match(
                (#[trigger] m.children[i]).output,
            ) by {
                lemma_representations_match(cs[i], false, names, clap);
            }
        },
        _ => {},
    }
}

/// What each node shape emits: a leaf never produces `Prefix`, `SubPrefix`
/// or `SubKey`; a pruned node keeps its `Path`, `Key` and `Params` but
/// produces empty-variant selector unions and no nested namespaces; a
/// branching node's unions carry one variant per child, pruned children
/// included, in declaration order under the children's structural names.
pub proof fn lemma_emission_shape(n: NodeView, root: bool, names: NamesView, clap: bool)
    ensures
        n.children is Leaf ==> {
            let m = spec_module(n, root, names, clap);
            &&& m.prefix is None
            &&& m.owned_prefix is None
            &&& m.sub_prefix is None
            &&& m.owned_sub_prefix is None
            &&& m.sub_key is None
            &&& m.owned_sub_key is None
            &&& m.children.len() == 0
        },
        n.children is Pruned ==> {
            let m = spec_module(n, root, names, clap);
            &&& m.prefix is None
            &&& m.sub_prefix matches Some(d) && d.variants.len() == 0
            &&& m.owned_sub_prefix matches Some(d) && d.variants.len() == 0
            &&& m.sub_key matches Some(d) && d.variants.len() == 0
            &&& m.owned_sub_key matches Some(d) && d.variants.len() == 0
            &&& m.children.len() == 0
        },
        n.children matches ChildrenView::Below(cs) ==> {
            let m = spec_module(n, root, names, clap);
            &&& m.prefix is Some
            &&& m.sub_prefix matches Some(d) && d.variants.len() == cs.len() && (forall|i: int|
                0 <= i < cs.len() ==> (#[trigger] d.variants[i]).name == cs[i].mod_name->0.text)
            &&& m.sub_key matches Some(d) && d.variants.len() == cs.len() && (forall|i: int|
                0 <= i < cs.len() ==> (#[trigger] d.variants[i]).name == cs[i].mod_name->0.text)
            &&& m.children.len() == cs.len()
        },
{
    match n.children {
        ChildrenView::Below(cs) => {
            lemma_spec_child_modules(cs, names, clap);
        },
        _ => {},
    }
}

} // verus!
