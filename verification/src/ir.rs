//! The semantic tree: the validated intermediate form between the raw
//! syntax and the generated type families.
//!
//! A [`Node`] is a header (documentation, an optional structural name, and a
//! [`Kind`]) together with a children result that is either real children or
//! the [`Duplicate`] tombstone left behind by the duplicate resolver.

use vstd::prelude::*;

use vstd::string::StringExecFns;

use crate::syntax::{Name, NameView};

verus! {

/// The whole intermediate form: the settings side-channel plus the root node.
pub struct Ir {
    pub settings: Settings,
    pub root: Node,
}

/// The configuration side-channel: name overrides for every generated type
/// role, and the switch for the optional argument-binding decoration.
pub struct Settings {
    pub names: Names,
    pub extensions: Extensions,
}

/// The identifier chosen for each generated type role.
#[allow(non_snake_case)]
pub struct Names {
    pub Schema: String,
    pub Path: String,
    pub OwnedPath: String,
    pub Prefix: String,
    pub OwnedPrefix: String,
    pub Key: String,
    pub OwnedKey: String,
    pub Params: String,
    pub OwnedParams: String,
    pub SubPrefix: String,
    pub OwnedSubPrefix: String,
    pub SubKey: String,
    pub OwnedSubKey: String,
}

/// The mathematical value of [`Names`].
#[allow(non_snake_case)]
#[verifier::ext_equal]
pub struct NamesView {
    pub Schema: Seq<char>,
    pub Path: Seq<char>,
    pub OwnedPath: Seq<char>,
    pub Prefix: Seq<char>,
    pub OwnedPrefix: Seq<char>,
    pub Key: Seq<char>,
    pub OwnedKey: Seq<char>,
    pub Params: Seq<char>,
    pub OwnedParams: Seq<char>,
    pub SubPrefix: Seq<char>,
    pub OwnedSubPrefix: Seq<char>,
    pub SubKey: Seq<char>,
    pub OwnedSubKey: Seq<char>,
}

impl View for Names {
    type V = NamesView;

    open spec fn view(&self) -> NamesView {
        NamesView {
            Schema: self.Schema@,
            Path: self.Path@,
            OwnedPath: self.OwnedPath@,
            Prefix: self.Prefix@,
            OwnedPrefix: self.OwnedPrefix@,
            Key: self.Key@,
            OwnedKey: self.OwnedKey@,
            Params: self.Params@,
            OwnedParams: self.OwnedParams@,
            SubPrefix: self.SubPrefix@,
            OwnedSubPrefix: self.OwnedSubPrefix@,
            SubKey: self.SubKey@,
            OwnedSubKey: self.OwnedSubKey@,
        }
    }
}

/// The default spelling of every generated type role.
pub open spec fn default_names() -> NamesView {
    NamesView {
        Schema: "Schema"@,
        Path: "Path"@,
        OwnedPath: "OwnedPath"@,
        Prefix: "Prefix"@,
        OwnedPrefix: "OwnedPrefix"@,
        Key: "Key"@,
        OwnedKey: "OwnedKey"@,
        Params: "Params"@,
        OwnedParams: "OwnedParams"@,
        SubPrefix: "SubPrefix"@,
        OwnedSubPrefix: "OwnedSubPrefix"@,
        SubKey: "SubKey"@,
        OwnedSubKey: "OwnedSubKey"@,
    }
}

impl Default for Names {
    /// Every role under its conventional name.
    fn default() -> (r: Names)
        ensures
            r@ == default_names(),
    {
        Names {
            Schema: "Schema".to_owned(),
            Path: "Path".to_owned(),
            OwnedPath: "OwnedPath".to_owned(),
            Prefix: "Prefix".to_owned(),
            OwnedPrefix: "OwnedPrefix".to_owned(),
            Key: "Key".to_owned(),
            OwnedKey: "OwnedKey".to_owned(),
            Params: "Params".to_owned(),
            OwnedParams: "OwnedParams".to_owned(),
            SubPrefix: "SubPrefix".to_owned(),
            OwnedSubPrefix: "OwnedSubPrefix".to_owned(),
            SubKey: "SubKey".to_owned(),
            OwnedSubKey: "OwnedSubKey".to_owned(),
        }
    }
}

/// The switches for optional decorations of the generated owned types.
pub struct Extensions {
    pub clap: bool,
}

impl Default for Extensions {
    /// Every decoration is off unless asked for.
    fn default() -> (r: Extensions)
        ensures
            r.clap == false,
    {
        Extensions { clap: false }
    }
}

impl Default for Settings {
    /// Default role names and no decorations.
    fn default() -> (r: Settings)
        ensures
            r.names@ == default_names(),
            r.extensions.clap == false,
    {
        Settings { names: Names::default(), extensions: Extensions::default() }
    }
}

/// The tombstone put in place of a node's children when a sibling name
/// collision prunes its subtree. The node itself stays in its sibling slot,
/// so sibling order and count are preserved, but nothing is generated below
/// it.
pub struct Duplicate;

/// One node of the semantic tree.
pub struct Node {
    pub header: Header,
    pub children: Result<Children, Duplicate>,
}

/// The part of a node that survives pruning: documentation, the structural
/// name (absent only at the tree root), and the node kind.
pub struct Header {
    pub docs: Vec<String>,
    pub mod_name: Option<Name>,
    pub kind: Kind,
}

/// What a node is for.
pub enum Kind {
    /// The node exists purely to bind one parameter of the given value type
    /// and passes through to a single child.
    Var(String),
    /// The node is a named path segment. `renamed` is the externally visible
    /// name when it differs from the structural one; `param_count` records
    /// how many parameters the original segment declared, which resets the
    /// remaining-parameter counter for the subtree during generation.
    Static { renamed: Option<Name>, param_count: usize },
}

/// The children of a node that has not been pruned.
pub enum Children {
    /// The node branches into further named children.
    Below(Vec<Node>),
    /// The node terminates the path with the given value type.
    Leaf(String),
}

/// The mathematical value of a node's [`Kind`].
#[verifier::ext_equal]
pub enum KindView {
    Var(Seq<char>),
    Static { renamed: Option<NameView>, param_count: nat },
}

/// The mathematical value of a node's children result, with the pruning
/// tombstone folded in as its own case.
#[verifier::ext_equal]
pub enum ChildrenView {
    Below(Seq<NodeView>),
    Leaf(Seq<char>),
    Pruned,
}

/// The mathematical value of a [`Node`].
#[verifier::ext_equal]
pub struct NodeView {
    pub docs: Seq<Seq<char>>,
    pub mod_name: Option<NameView>,
    pub kind: KindView,
    pub children: ChildrenView,
}

/// The view of a node's kind.
pub open spec fn kind_view(k: Kind) -> KindView {
    match k {
        Kind::Var(ty) => KindView::Var(ty@),
        Kind::Static { renamed, param_count } => KindView::Static {
            renamed: match renamed {
                Some(n) => Some(n@),
                None => None,
            },
            param_count: param_count as nat,
        },
    }
}

/// The view of a node, written as a free function so that it can carry its
/// own termination measure.
pub open spec fn node_view(n: Node) -> NodeView
    decreases n,
{
    NodeView {
        docs: Seq::new(n.header.docs@.len(), |i: int| n.header.docs@[i]@),
        mod_name: match n.header.mod_name {
            Some(name) => Some(name@),
            None => None,
        },
        kind: kind_view(n.header.kind),
        children: children_result_view(n.children),
    }
}

/// The view of a node's children result.
pub open spec fn children_result_view(c: Result<Children, Duplicate>) -> ChildrenView
    decreases c,
{
    match c {
        Ok(Children::Below(cs)) => ChildrenView::Below(node_views(cs@)),
        Ok(Children::Leaf(ty)) => ChildrenView::Leaf(ty@),
        Err(_) => ChildrenView::Pruned,
    }
}

/// The views of a sequence of nodes, element for element.
pub open spec fn node_views(ns: Seq<Node>) -> Seq<NodeView>
    decreases ns,
{
    if ns.len() == 0 {
        Seq::empty()
    } else {
        node_views(ns.subrange(0, ns.len() - 1)).push(node_view(ns[ns.len() - 1]))
    }
}

/// `node_views` is the element-wise image of `node_view`.
pub proof fn lemma_node_views(ns: Seq<Node>)
    ensures
        node_views(ns).len() == ns.len(),
        forall|i: int| 0 <= i < ns.len() ==> #[trigger] node_views(ns)[i] == node_view(ns[i]),
    decreases ns.len(),
{
    if ns.len() > 0 {
        lemma_node_views(ns.subrange(0, ns.len() - 1));
        assert(forall|i: int|
            0 <= i < ns.len() - 1 ==> ns.subrange(0, ns.len() - 1)[i] == #[trigger] ns[i]);
    }
}

impl View for Node {
    type V = NodeView;

    open spec fn view(&self) -> NodeView {
        node_view(*self)
    }
}

impl NodeView {
    /// The externally visible name of a node: the rename when one is
    /// declared, otherwise the structural name.
    pub open spec fn visible_name(self) -> Option<NameView> {
        match self.kind {
            KindView::Static { renamed: Some(r), .. } => Some(r),
            _ => self.mod_name,
        }
    }

    /// Whether the node terminates generation: a leaf, or a pruned subtree.
    pub open spec fn spec_is_leaf(self) -> bool {
        !(self.children is Below)
    }
}

/// Every node below the given one carries a structural name; only the tree
/// root itself may go without one. The builder establishes this and the
/// duplicate resolver preserves it.
pub open spec fn descendants_named(n: NodeView) -> bool
    decreases n, 1int,
{
    children_named(n.children)
}

/// Every node of a children value carries a structural name, recursively.
pub open spec fn children_named(ch: ChildrenView) -> bool
    decreases ch, 0int,
{
    match ch {
        ChildrenView::Below(cs) => forall|i: int|
            0 <= i < cs.len() ==> (#[trigger] cs[i]).mod_name is Some && descendants_named(cs[i]),
        _ => true,
    }
}

impl Node {
    /// Whether generation stops at this node: true for a value-typed leaf
    /// and for a subtree pruned to [`Duplicate`].
    pub fn is_leaf(&self) -> (r: bool)
        ensures
            r == self@.spec_is_leaf(),
    {
        match &self.children {
            Err(_) => true,
            Ok(children) => match children {
                Children::Leaf(_) => true,
                Children::Below(_) => false,
            },
        }
    }
}

/// A duplicate-name report from the duplicate resolver: the offending
/// externally visible name, where the later occurrence stands, and where the
/// name first appeared. The guidance to the user is always the same: rename
/// one of the two segments, or merge them.
pub struct Diagnostic {
    pub name: String,
    pub span: u64,
    pub first_span: u64,
}

/// The mathematical value of a [`Diagnostic`].
#[verifier::ext_equal]
pub struct DiagnosticView {
    pub name: Seq<char>,
    pub span: u64,
    pub first_span: u64,
}

impl View for Diagnostic {
    type V = DiagnosticView;

    open spec fn view(&self) -> DiagnosticView {
        DiagnosticView { name: self.name@, span: self.span, first_span: self.first_span }
    }
}

impl Diagnostic {
    /// The user-facing wording of the report; the remedy is always to
    /// rename one of the two segments or merge them.
    pub fn message(&self) -> (r: String)
        ensures
            r@ == "duplicate path segment: \""@ + self.name@ + "\""@,
    {
        let mut s = "duplicate path segment: \"".to_owned();
        s.append(self.name.as_str());
        s.append("\"");
        s
    }
}

/// The views of a diagnostics list, element for element.
pub open spec fn diagnostic_views(ds: Seq<Diagnostic>) -> Seq<DiagnosticView> {
    Seq::new(ds.len(), |i: int| ds[i]@)
}

} // verus!
