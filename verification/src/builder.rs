//! The semantic tree builder: turns the raw syntax tree into the [`Node`]
//! tree, decomposing every declared parameter list into a chain of
//! single-parameter [`Kind::Var`] wrapper nodes between the named
//! [`Kind::Static`] node and its original children.

use vstd::prelude::*;

use crate::ir::{
    children_result_view, descendants_named, node_view, node_views, Children, ChildrenView,
    Diagnostic, Header, Ir, Kind, KindView, Node, NodeView, Settings,
};
use crate::syntax::{child_view, children_views, Child, ChildView, Input, ParameterView};

verus! {

/// The parameter chain: each parameter, first declared outermost, becomes a
/// single-child `Var` level above the original children.
pub open spec fn wrapped_params(params: Seq<ParameterView>, inner: ChildrenView) -> ChildrenView
    decreases params.len(),
{
    if params.len() == 0 {
        inner
    } else {
        ChildrenView::Below(
            seq![
                NodeView {
                    docs: Seq::empty(),
                    mod_name: Some(params[0].name),
                    kind: KindView::Var(params[0].ty),
                    children: wrapped_params(params.subrange(1, params.len() as int), inner),
                },
            ],
        )
    }
}

/// What the builder makes of one syntax child: a `Static` node named after
/// the segment, recording its declared parameter count, whose children are
/// the parameter chain wrapped around the converted original children.
pub open spec fn built_node(c: ChildView) -> NodeView
    decreases c,
{
    let base = match c {
        ChildView::Leaf { ty, .. } => ChildrenView::Leaf(ty),
        ChildView::Internal { children, .. } => ChildrenView::Below(built_nodes(children)),
    };
    NodeView {
        docs: Seq::empty(),
        mod_name: Some(c.segment().name),
        kind: KindView::Static {
            renamed: c.segment().renamed,
            param_count: c.segment().params.len(),
        },
        children: wrapped_params(c.segment().params, base),
    }
}

/// What the builder makes of a sequence of syntax children, element for
/// element.
pub open spec fn built_nodes(cs: Seq<ChildView>) -> Seq<NodeView>
    decreases cs,
{
    if cs.len() == 0 {
        Seq::empty()
    } else {
        built_nodes(cs.subrange(0, cs.len() - 1)).push(built_node(cs[cs.len() - 1]))
    }
}

/// `built_nodes` is the element-wise image of `built_node`.
pub proof fn lemma_built_nodes(cs: Seq<ChildView>)
    ensures
        built_nodes(cs).len() == cs.len(),
        forall|i: int| 0 <= i < cs.len() ==> #[trigger] built_nodes(cs)[i] == built_node(cs[i]),
    decreases cs.len(),
{
    if cs.len() > 0 {
        lemma_built_nodes(cs.subrange(0, cs.len() - 1));
        assert(forall|i: int|
            0 <= i < cs.len() - 1 ==> cs.subrange(0, cs.len() - 1)[i] == #[trigger] cs[i]);
    }
}

/// What the builder makes of a whole schema: the root is always a `Static`
/// node with no name, no rename and no parameters, branching into the built
/// top-level children.
pub open spec fn built_root(input: Seq<ChildView>) -> NodeView {
    NodeView {
        docs: Seq::empty(),
        mod_name: None,
        kind: KindView::Static { renamed: None, param_count: 0 },
        children: ChildrenView::Below(built_nodes(input)),
    }
}

impl Node {
    /// Builds the semantic node for one syntax child.
    pub fn from_child(c: &Child) -> (n: Node)
        ensures
            n@ == built_node(c@),
        decreases *c,
    {
        let (segment, children) = match c {
            Child::Leaf { segment, ty } => (segment, Ok(Children::Leaf(ty.clone()))),
            Child::Internal { segment, children } => {
                let mut built: Vec<Node> = Vec::new();
                let mut i: usize = 0;
                proof {
                    crate::syntax::lemma_children_views(children@);
                }
                while i < children.len()
                    invariant
                        *c is Internal,
                        c->Internal_children == *children,
                        i <= children.len(),
                        built@.len() == i,
                        forall|j: int|
                            0 <= j < i ==> node_view(#[trigger] built@[j]) == built_node(
                                child_view(children@[j]),
                            ),
                    decreases children.len() - i,
                {
                    proof {
                        assert(decreases_to!(*c => c->Internal_children));
                        assert(c->Internal_children == *children);
                        assert(decreases_to!(*children => children@));
                        assert(decreases_to!(children@ => children@[i as int]));
                    }
                    let node = Node::from_child(&children[i]);
                    built.push(node);
                    i = i + 1;
                }
                proof {
                    crate::syntax::lemma_children_views(children@);
                    lemma_built_nodes(children_views(children@));
                    crate::ir::lemma_node_views(built@);
                    assert(node_views(built@) =~= built_nodes(children_views(children@)));
                }
                (segment, Ok(Children::Below(built)))
            },
        };
        let ghost base = children_result_view(children);

        // Layer the declared parameters, last one innermost, on top of the
        // converted children.
        let mut wrapped = children;
        let param_count: usize = match &segment.params {
            Some(p) => p.params.len(),
            None => 0,
        };
        if let Some(ps) = &segment.params {
            let ghost pv = ps@;
            let mut k: usize = ps.params.len();
            while k > 0
                invariant
                    k <= ps.params.len(),
                    pv == ps@,
                    pv.len() == ps.params.len(),
                    children_result_view(wrapped) == wrapped_params(
                        pv.subrange(k as int, pv.len() as int),
                        base,
                    ),
                decreases k,
            {
                k = k - 1;
                let p = &ps.params[k];
                let header = Header {
                    docs: Vec::new(),
                    mod_name: Some(p.name.duplicate()),
                    kind: Kind::Var(p.ty.clone()),
                };
                let node = Node { header, children: wrapped };
                let ghost nv = node_view(node);
                let mut level: Vec<Node> = Vec::new();
                level.push(node);
                wrapped = Ok(Children::Below(level));
                proof {
                    assert(nv.docs =~= Seq::<Seq<char>>::empty());
                    assert(node_views(level@) =~= seq![nv]);
                    assert(pv.subrange(k as int, pv.len() as int).subrange(
                        1,
                        pv.len() - k as int,
                    ) =~= pv.subrange(k + 1 as int, pv.len() as int));
                    assert(children_result_view(wrapped) == wrapped_params(
                        pv.subrange(k as int, pv.len() as int),
                        base,
                    ));
                }
            }
            proof {
                assert(pv.subrange(0, pv.len() as int) =~= pv);
            }
        }

        let renamed = match &segment.renamed {
            Some(n) => Some(n.duplicate()),
            None => None,
        };
        let header = Header {
            docs: Vec::new(),
            mod_name: Some(segment.name.duplicate()),
            kind: Kind::Static { renamed, param_count },
        };
        let result = Node { header, children: wrapped };
        proof {
            assert(node_view(result).docs =~= Seq::<Seq<char>>::empty());
            assert(node_view(result) =~~= built_node(c@));
        }
        result
    }
}

/// Every level the parameter chain adds carries a name, and keeps the
/// wrapped children well-named.
pub proof fn lemma_wrapped_named(params: Seq<ParameterView>, inner: ChildrenView)
    requires
        crate::ir::children_named(inner),
    ensures
        crate::ir::children_named(wrapped_params(params, inner)),
    decreases params.len(),
{
    if params.len() > 0 {
        lemma_wrapped_named(params.subrange(1, params.len() as int), inner);
    }
}

/// Every node the builder makes carries a structural name, and so do all
/// of its descendants.
pub proof fn lemma_built_named(c: ChildView)
    ensures
        built_node(c).mod_name is Some,
        descendants_named(built_node(c)),
    decreases c,
{
    let base = match c {
        ChildView::Leaf { ty, .. } => ChildrenView::Leaf(ty),
        ChildView::Internal { children, .. } => ChildrenView::Below(built_nodes(children)),
    };
    match c {
        ChildView::Leaf { .. } => {},
        ChildView::Internal { children, .. } => {
            lemma_built_nodes(children);
            assert forall|i: int| 0 <= i < built_nodes(children).len() implies (
            #[trigger] built_nodes(children)[i]).mod_name is Some && descendants_named(
                built_nodes(children)[i],
            ) by {
                lemma_built_named(children[i]);
            }
        },
    }
    lemma_wrapped_named(c.segment().params, base);
}

/// The built root is a well-named branching `Static` node.
pub proof fn lemma_built_root_named(input: Seq<ChildView>)
    ensures
        descendants_named(built_root(input)),
        built_root(input).children is Below,
        built_root(input).kind is Static,
{
    lemma_built_nodes(input);
    assert forall|i: int| 0 <= i < built_nodes(input).len() implies (#[trigger] built_nodes(
        input,
    )[i]).mod_name is Some && descendants_named(built_nodes(input)[i]) by {
        lemma_built_named(input[i]);
    }
}

impl Ir {
    /// Builds the full intermediate form for a schema and resolves
    /// duplicate sibling names in it, handing back the collision reports.
    pub fn from_input(input: &Input, settings: Settings) -> (r: (Ir, Vec<Diagnostic>))
        ensures
            r.0.root@ == crate::resolve::pruned_node(built_root(input@)),
            r.0.settings == settings,
            crate::ir::diagnostic_views(r.1@) == crate::resolve::pruned_diags(
                built_root(input@),
            ),
    {
        let mut built: Vec<Node> = Vec::new();
        let mut i: usize = 0;
        while i < input.children.len()
            invariant
                i <= input.children.len(),
                built@.len() == i,
                forall|j: int|
                    0 <= j < i ==> node_view(#[trigger] built@[j]) == built_node(
                        child_view(input.children@[j]),
                    ),
            decreases input.children.len() - i,
        {
            let node = Node::from_child(&input.children[i]);
            built.push(node);
            i = i + 1;
        }
        proof {
            crate::syntax::lemma_children_views(input.children@);
            lemma_built_nodes(children_views(input.children@));
            crate::ir::lemma_node_views(built@);
            assert(node_views(built@) =~= built_nodes(children_views(input.children@)));
        }
        let header = Header {
            docs: Vec::new(),
            mod_name: None,
            kind: Kind::Static { renamed: None, param_count: 0 },
        };
        let mut root = Node { header, children: Ok(Children::Below(built)) };
        proof {
            assert(node_view(root).docs =~= Seq::<Seq<char>>::empty());
            assert(node_view(root) =~~= built_root(input@));
        }

        // We never generate beneath duplicated names, so detect and prune
        // them now.
        let diags = root.prune_duplicates();
        (Ir { settings, root }, diags)
    }
}

} // verus!

verus! {

/// The sibling group standing `k` single-child levels below the given
/// children: each step walks into the only child's own children.
pub open spec fn descend_levels(ch: ChildrenView, k: int) -> ChildrenView
    decreases k,
{
    if k <= 0 {
        ch
    } else {
        match ch {
            ChildrenView::Below(cs) => if cs.len() == 1 {
                descend_levels(cs[0].children, k - 1)
            } else {
                ch
            },
            _ => ch,
        }
    }
}

/// Walking `k` levels into a parameter chain leaves the chain of the
/// remaining parameters.
pub proof fn lemma_wrapped_descend(params: Seq<ParameterView>, inner: ChildrenView, k: int)
    requires
        0 <= k <= params.len(),
    ensures
        descend_levels(wrapped_params(params, inner), k) == wrapped_params(
            params.subrange(k, params.len() as int),
            inner,
        ),
    decreases k,
{
    if k == 0 {
        assert(params.subrange(0, params.len() as int) =~= params);
    } else {
        let rest = params.subrange(1, params.len() as int);
        lemma_wrapped_descend(rest, inner, k - 1);
        assert(rest.subrange(k - 1, rest.len() as int) =~= params.subrange(
            k,
            params.len() as int,
        ));
    }
}

/// The parameter decomposition: a segment declaring parameters
/// `p1, …, pN` builds exactly `N` single-child parameter-binding levels
/// between its named node and the conversion of its original children, in
/// declaration order with the first parameter outermost.
pub proof fn lemma_parameter_decomposition(c: ChildView)
    ensures
        built_node(c).kind == (KindView::Static {
            renamed: c.segment().renamed,
            param_count: c.segment().params.len(),
        }),
        forall|k: int|
            0 <= k < c.segment().params.len() ==> {
                let level = #[trigger] descend_levels(built_node(c).children, k);
                &&& level is Below
                &&& level->Below_0.len() == 1
                &&& level->Below_0[0].kind == KindView::Var(c.segment().params[k].ty)
                &&& level->Below_0[0].mod_name == Some(c.segment().params[k].name)
            },
        descend_levels(built_node(c).children, c.segment().params.len() as int) == (match c {
            ChildView::Leaf { ty, .. } => ChildrenView::Leaf(ty),
            ChildView::Internal { children, .. } => ChildrenView::Below(built_nodes(children)),
        }),
{
    let params = c.segment().params;
    let base = match c {
        ChildView::Leaf { ty, .. } => ChildrenView::Leaf(ty),
        ChildView::Internal { children, .. } => ChildrenView::Below(built_nodes(children)),
    };
    assert forall|k: int| 0 <= k < params.len() implies {
        let level = #[trigger] descend_levels(built_node(c).children, k);
        &&& level is Below
        &&& level->Below_0.len() == 1
        &&& level->Below_0[0].kind == KindView::Var(params[k].ty)
        &&& level->Below_0[0].mod_name == Some(params[k].name)
    } by {
        lemma_wrapped_descend(params, base, k);
        let tail = params.subrange(k, params.len() as int);
        assert(tail[0] == params[k]);
    }
    lemma_wrapped_descend(params, base, params.len() as int);
    assert(params.subrange(params.len() as int, params.len() as int) =~= Seq::<
        ParameterView,
    >::empty());
}

} // verus!
