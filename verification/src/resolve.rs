//! The duplicate resolver: walks the semantic tree in place and, per
//! sibling group, prunes nodes whose structural or externally visible name
//! repeats an earlier sibling's.
//!
//! A repeated structural name is pruned silently: the emitted declarations
//! would collide anyway, and the consumer of the generated code rejects the
//! duplicate identifier. A repeated externally visible name is pruned and,
//! unless the repeat is already a structural one, reported: nothing
//! downstream would notice it, because the two names only collide as
//! strings.

use vstd::prelude::*;

use crate::ir::{
    diagnostic_views, node_view, node_views, Children, ChildrenView, Diagnostic, DiagnosticView,
    Duplicate, Header, Kind, Node, NodeView,
};
use crate::syntax::Name;

verus! {

/// Whether sibling `i` repeats the structural name of an earlier sibling.
pub open spec fn structural_collision(cs: Seq<NodeView>, i: int) -> bool {
    &&& cs[i].mod_name is Some
    &&& exists|j: int|
        0 <= j < i && (#[trigger] cs[j]).mod_name is Some && cs[j].mod_name->0.text
            == cs[i].mod_name->0.text
}

/// Whether sibling `i` repeats the externally visible name of an earlier
/// sibling. The two checks are independent: a node can collide under both.
pub open spec fn visible_collision(cs: Seq<NodeView>, i: int) -> bool {
    &&& cs[i].visible_name() is Some
    &&& exists|j: int|
        0 <= j < i && (#[trigger] cs[j]).visible_name() is Some && cs[j].visible_name()->0.text
            == cs[i].visible_name()->0.text
}

/// What resolution makes of sibling `i`: a tombstone if either name check
/// fires, otherwise the recursively resolved node.
pub open spec fn sibling_entry(cs: Seq<NodeView>, i: int) -> NodeView
    decreases cs, 0int,
    when 0 <= i < cs.len()
{
    if structural_collision(cs, i) || visible_collision(cs, i) {
        NodeView { children: ChildrenView::Pruned, ..cs[i] }
    } else {
        pruned_node(cs[i])
    }
}

/// The first `m` entries of a resolved sibling group.
pub open spec fn pruned_prefix(cs: Seq<NodeView>, m: int) -> Seq<NodeView>
    decreases cs, m,
    when m <= cs.len()
{
    if m <= 0 {
        Seq::empty()
    } else {
        pruned_prefix(cs, m - 1).push(sibling_entry(cs, m - 1))
    }
}

/// A whole resolved sibling group.
pub open spec fn pruned_siblings(cs: Seq<NodeView>) -> Seq<NodeView>
    decreases cs, cs.len() + 1,
{
    pruned_prefix(cs, cs.len() as int)
}

/// What the duplicate resolver makes of a node: its sibling groups resolved
/// recursively, everything else unchanged.
pub open spec fn pruned_node(n: NodeView) -> NodeView
    decreases n, 0int,
{
    match n.children {
        ChildrenView::Below(cs) => NodeView { children: ChildrenView::Below(pruned_siblings(cs)), ..n },
        _ => n,
    }
}

/// The index of the first sibling whose visible name reads `t`; meaningful
/// only when one exists.
pub open spec fn first_visible_index(cs: Seq<NodeView>, t: Seq<char>) -> int
    decreases cs.len(),
{
    if cs.len() == 0 {
        0
    } else if cs[0].visible_name() is Some && cs[0].visible_name()->0.text == t {
        0
    } else {
        1 + first_visible_index(cs.subrange(1, cs.len() as int), t)
    }
}

/// The report for a visible-name collision at sibling `i`: the repeated
/// name, where it stands, and where it first appeared.
pub open spec fn collision_diag(cs: Seq<NodeView>, i: int) -> DiagnosticView {
    let name = cs[i].visible_name()->0;
    let first = cs[first_visible_index(cs, name.text)].visible_name()->0;
    DiagnosticView { name: name.text, span: name.span, first_span: first.span }
}

/// The diagnostics from resolving the first `m` siblings, in traversal
/// order: each sibling's own subtree first, then its collision report.
pub open spec fn sibling_diags(cs: Seq<NodeView>, m: int) -> Seq<DiagnosticView>
    decreases cs, m,
    when m <= cs.len()
{
    if m <= 0 {
        Seq::empty()
    } else {
        sibling_diags(cs, m - 1) + pruned_diags(cs[m - 1]) + if visible_collision(cs, m - 1)
            && !structural_collision(cs, m - 1) {
            seq![collision_diag(cs, m - 1)]
        } else {
            Seq::empty()
        }
    }
}

/// All diagnostics from resolving a node's subtree.
pub open spec fn pruned_diags(n: NodeView) -> Seq<DiagnosticView>
    decreases n, 1int,
{
    match n.children {
        ChildrenView::Below(cs) => sibling_diags(cs, cs.len() as int),
        _ => Seq::empty(),
    }
}

/// Each entry of a resolved sibling group is the entry for its index.
pub proof fn lemma_pruned_prefix(cs: Seq<NodeView>, m: int)
    requires
        0 <= m <= cs.len(),
    ensures
        pruned_prefix(cs, m).len() == m,
        forall|i: int| 0 <= i < m ==> #[trigger] pruned_prefix(cs, m)[i] == sibling_entry(cs, i),
    decreases m,
{
    if m > 0 {
        lemma_pruned_prefix(cs, m - 1);
    }
}

/// Scans a seen-so-far list front to back for a text; the result is the
/// span stored with the first entry that carries it.
pub open spec fn spec_lookup(seen: Seq<crate::syntax::NameView>, t: Seq<char>) -> Option<u64>
    decreases seen.len(),
{
    if seen.len() == 0 {
        None
    } else if seen[0].text == t {
        Some(seen[0].span)
    } else {
        spec_lookup(seen.subrange(1, seen.len() as int), t)
    }
}

/// The structural names recorded after walking the first `i` siblings:
/// one entry per distinct name, first occurrence first.
pub open spec fn structural_seen(cs: Seq<NodeView>, i: int) -> Seq<crate::syntax::NameView>
    decreases i,
{
    if i <= 0 {
        Seq::empty()
    } else {
        let prev = structural_seen(cs, i - 1);
        match cs[i - 1].mod_name {
            Some(n) => if spec_lookup(prev, n.text) is Some {
                prev
            } else {
                prev.push(n)
            },
            None => prev,
        }
    }
}

/// The externally visible names recorded after walking the first `i`
/// siblings, in the same manner.
pub open spec fn visible_seen(cs: Seq<NodeView>, i: int) -> Seq<crate::syntax::NameView>
    decreases i,
{
    if i <= 0 {
        Seq::empty()
    } else {
        let prev = visible_seen(cs, i - 1);
        match cs[i - 1].visible_name() {
            Some(n) => if spec_lookup(prev, n.text) is Some {
                prev
            } else {
                prev.push(n)
            },
            None => prev,
        }
    }
}

/// The views of a list of names, element for element.
pub open spec fn name_views(ns: Seq<Name>) -> Seq<crate::syntax::NameView> {
    Seq::new(ns.len(), |i: int| ns[i]@)
}

/// Diagnostic views distribute over concatenation.
pub proof fn lemma_diagnostic_views_concat(a: Seq<Diagnostic>, b: Seq<Diagnostic>)
    ensures
        diagnostic_views(a + b) == diagnostic_views(a) + diagnostic_views(b),
{
    assert(diagnostic_views(a + b) =~= diagnostic_views(a) + diagnostic_views(b));
}

/// Appending an entry changes a lookup only for a text not found before.
pub proof fn lemma_lookup_push(
    seen: Seq<crate::syntax::NameView>,
    n: crate::syntax::NameView,
    t: Seq<char>,
)
    ensures
        spec_lookup(seen.push(n), t) == (match spec_lookup(seen, t) {
            Some(s) => Some(s),
            None => if n.text == t {
                Some(n.span)
            } else {
                None::<u64>
            },
        }),
    decreases seen.len(),
{
    assert(seen.push(n)[0] == if seen.len() == 0 { n } else { seen[0] });
    if seen.len() == 0 {
        assert(seen.push(n).subrange(1, 1) =~= Seq::<crate::syntax::NameView>::empty());
        assert(spec_lookup(seen, t) is None);
        if n.text == t {
            assert(spec_lookup(seen.push(n), t) == Some(n.span));
        } else {
            assert(spec_lookup(seen.push(n), t) == spec_lookup(seen.push(n).subrange(1, 1), t));
            assert(spec_lookup(seen.push(n), t) is None);
        }
    } else {
        let sub = seen.subrange(1, seen.len() as int);
        assert(seen.push(n).subrange(1, seen.len() as int + 1) =~= sub.push(n));
        lemma_lookup_push(sub, n, t);
        if seen[0].text == t {
            assert(spec_lookup(seen.push(n), t) == Some(seen[0].span));
            assert(spec_lookup(seen, t) == Some(seen[0].span));
        } else {
            assert(spec_lookup(seen.push(n), t) == spec_lookup(sub.push(n), t));
            assert(spec_lookup(seen, t) == spec_lookup(sub, t));
        }
    }
}

/// What a hit in the structural seen list means: the text occurs among the
/// first `i` siblings' structural names.
pub proof fn lemma_structural_seen(cs: Seq<NodeView>, i: int, t: Seq<char>)
    requires
        0 <= i <= cs.len(),
    ensures
        spec_lookup(structural_seen(cs, i), t) is Some <==> exists|j: int|
            0 <= j < i && (#[trigger] cs[j]).mod_name is Some && cs[j].mod_name->0.text == t,
    decreases i,
{
    if i > 0 {
        lemma_structural_seen(cs, i - 1, t);
        let prev = structural_seen(cs, i - 1);
        match cs[i - 1].mod_name {
            Some(n) => {
                if spec_lookup(prev, n.text) is Some {
                } else {
                    lemma_lookup_push(prev, n, t);
                }
            },
            None => {},
        }
        if spec_lookup(structural_seen(cs, i), t) is Some {
        } else {
            assert forall|j: int|
                0 <= j < i && (#[trigger] cs[j]).mod_name is Some implies cs[j].mod_name->0.text
                != t by {}
        }
    }
}

/// What a hit in the visible seen list means: the text occurs among the
/// first `i` siblings' visible names, and the stored span belongs to its
/// first occurrence.
pub proof fn lemma_visible_seen(cs: Seq<NodeView>, i: int, t: Seq<char>)
    requires
        0 <= i <= cs.len(),
    ensures
        spec_lookup(visible_seen(cs, i), t) is Some <==> exists|j: int|
            0 <= j < i && (#[trigger] cs[j]).visible_name() is Some
                && cs[j].visible_name()->0.text == t,
        spec_lookup(visible_seen(cs, i), t) matches Some(s) ==> {
            let f = first_visible_index(cs, t);
            &&& 0 <= f < i
            &&& cs[f].visible_name() is Some
            &&& cs[f].visible_name()->0.text == t
            &&& s == cs[f].visible_name()->0.span
        },
    decreases i,
{
    if i > 0 {
        lemma_visible_seen(cs, i - 1, t);
        let prev = visible_seen(cs, i - 1);
        match cs[i - 1].visible_name() {
            Some(n) => {
                if spec_lookup(prev, n.text) is Some {
                } else {
                    lemma_lookup_push(prev, n, t);
                    if n.text == t {
                        assert forall|j: int|
                            0 <= j < i - 1 implies !((#[trigger] cs[j]).visible_name() is Some
                            && cs[j].visible_name()->0.text == t) by {}
                        lemma_first_visible_index(cs, t, i - 1);
                    }
                }
            },
            None => {},
        }
        if spec_lookup(visible_seen(cs, i), t) is Some {
        } else {
            assert forall|j: int|
                0 <= j < i && (#[trigger] cs[j]).visible_name() is Some implies cs[
                j
            ].visible_name()->0.text != t by {}
        }
    }
}

/// Looks a name up in a seen-so-far list; on a hit, hands back the span
/// stored with the first entry that carries the text.
fn find_span(seen: &Vec<Name>, text: &String) -> (r: Option<u64>)
    ensures
        r == spec_lookup(name_views(seen@), text@),
{
    let ghost full = name_views(seen@);
    proof {
        assert(full.subrange(0, full.len() as int) =~= full);
    }
    let mut idx: usize = 0;
    while idx < seen.len()
        invariant
            idx <= seen.len(),
            full == name_views(seen@),
            full.len() == seen@.len(),
            spec_lookup(full, text@) == spec_lookup(
                full.subrange(idx as int, full.len() as int),
                text@,
            ),
        decreases seen.len() - idx,
    {
        let hit = seen[idx].text == *text;
        proof {
            let suffix = full.subrange(idx as int, full.len() as int);
            assert(suffix[0] == full[idx as int]);
            assert(full[idx as int] == seen@[idx as int]@);
            if !hit {
                assert(suffix.subrange(1, suffix.len() as int) =~= full.subrange(
                    idx + 1,
                    full.len() as int,
                ));
            }
        }
        if hit {
            return Some(seen[idx].span);
        }
        idx = idx + 1;
    }
    proof {
        assert(full.subrange(seen@.len() as int, full.len() as int) =~= Seq::<
            crate::syntax::NameView,
        >::empty());
    }
    None
}

/// Runs the structural-name check for sibling `i`: reports whether the name
/// repeats an earlier sibling's, and otherwise records it as seen.
fn check_structural(
    name: &Option<Name>,
    seen: &mut Vec<Name>,
    Ghost(cs): Ghost<Seq<NodeView>>,
    Ghost(i): Ghost<int>,
) -> (hit: bool)
    requires
        0 <= i < cs.len(),
        name_views(old(seen)@) == structural_seen(cs, i),
        match name {
            Some(n) => cs[i].mod_name == Some(n@),
            None => cs[i].mod_name is None,
        },
    ensures
        hit == structural_collision(cs, i),
        name_views(final (seen)@) == structural_seen(cs, i + 1),
{
    match name {
        Some(name) => {
            let found = find_span(seen, &name.text);
            proof {
                lemma_structural_seen(cs, i, name.text@);
            }
            match found {
                Some(_) => true,
                None => {
                    seen.push(name.duplicate());
                    proof {
                        assert(name_views(seen@) =~= structural_seen(cs, i).push(name@));
                    }
                    false
                },
            }
        },
        None => false,
    }
}

/// Runs the visible-name check for sibling `i`: on a repeat, hands back the
/// span of the name's first occurrence; otherwise records the name as seen.
fn check_visible(
    name: &Option<Name>,
    seen: &mut Vec<Name>,
    Ghost(cs): Ghost<Seq<NodeView>>,
    Ghost(i): Ghost<int>,
) -> (r: Option<u64>)
    requires
        0 <= i < cs.len(),
        name_views(old(seen)@) == visible_seen(cs, i),
        match name {
            Some(n) => cs[i].visible_name() == Some(n@),
            None => cs[i].visible_name() is None,
        },
    ensures
        r is Some <==> visible_collision(cs, i),
        r matches Some(s) ==> s == collision_diag(cs, i).first_span,
        name_views(final (seen)@) == visible_seen(cs, i + 1),
{
    match name {
        Some(vn) => {
            let found = find_span(seen, &vn.text);
            proof {
                lemma_visible_seen(cs, i, vn.text@);
            }
            match found {
                Some(first_span) => Some(first_span),
                None => {
                    seen.push(vn.duplicate());
                    proof {
                        assert(name_views(seen@) =~= visible_seen(cs, i).push(vn@));
                    }
                    None
                },
            }
        },
        None => None,
    }
}

impl Node {
    /// Resolves one sibling: its own subtree first, then both name checks
    /// against the siblings already processed.
    #[verifier::rlimit(50)]
    #[verifier::spinoff_prover]
    fn process_sibling(
        node: Node,
        seen_struct: &mut Vec<Name>,
        seen_visible: &mut Vec<Name>,
        Ghost(cs): Ghost<Seq<NodeView>>,
        Ghost(i): Ghost<int>,
    ) -> (r: (Node, Vec<Diagnostic>))
        requires
            0 <= i < cs.len(),
            node@ == cs[i],
            name_views(old(seen_struct)@) == structural_seen(cs, i),
            name_views(old(seen_visible)@) == visible_seen(cs, i),
        ensures
            r.0@ == sibling_entry(cs, i),
            diagnostic_views(r.1@) == pruned_diags(cs[i]) + if visible_collision(cs, i)
                && !structural_collision(cs, i) {
                seq![collision_diag(cs, i)]
            } else {
                Seq::<DiagnosticView>::empty()
            },
            name_views(final (seen_struct)@) == structural_seen(cs, i + 1),
            name_views(final (seen_visible)@) == visible_seen(cs, i + 1),
        decreases node, 1int,
    {
        let (mut node1, mut diags) = Node::prune_rec(node);
        proof {
            assert(node1@ == pruned_node(cs[i]));
            assert(node_view(node1).mod_name == cs[i].mod_name);
            assert(node_view(node1).kind == cs[i].kind);
            assert(node_view(node1).docs == cs[i].docs);
        }

        // The structural-name check: prune silently on a repeat.
        let struct_name: Option<Name> = match &node1.header.mod_name {
            Some(m) => Some(m.duplicate()),
            None => None,
        };
        proof {
            assert(match struct_name {
                Some(ref n) => cs[i].mod_name == Some(n@),
                None => cs[i].mod_name is None,
            });
        }
        let structural_hit = check_structural(&struct_name, seen_struct, Ghost(cs), Ghost(i));
        if structural_hit {
            node1.children = Err(Duplicate);
        }

        // The externally visible name check: prune and report on a repeat.
        // It runs whether or not the structural check already pruned this
        // node.
        let visible: Option<Name> = match &node1.header.kind {
            Kind::Static { renamed: Some(r), .. } => Some(r.duplicate()),
            _ => match &node1.header.mod_name {
                Some(m) => Some(m.duplicate()),
                None => None,
            },
        };
        proof {
            assert(match visible {
                Some(ref v) => cs[i].visible_name() == Some(v@),
                None => cs[i].visible_name() is None,
            });
        }
        let mut visible_hit = false;
        match check_visible(&visible, seen_visible, Ghost(cs), Ghost(i)) {
            Some(first_span) => {
                visible_hit = true;
                node1.children = Err(Duplicate);
                // A repeat that is already structural is left to the
                // downstream consumer; only a purely visible repeat would
                // go unnoticed there.
                if !structural_hit {
                    let vn = match &visible {
                        Some(v) => v.duplicate(),
                        None => unreached(),
                    };
                    diags.push(Diagnostic { name: vn.text, span: vn.span, first_span });
                    proof {
                        assert(diags@.last()@ == collision_diag(cs, i));
                    }
                }
            },
            None => {},
        }
        proof {
            assert(diagnostic_views(diags@) =~= pruned_diags(cs[i]) + if visible_collision(cs, i)
                && !structural_collision(cs, i) {
                seq![collision_diag(cs, i)]
            } else {
                Seq::<DiagnosticView>::empty()
            });
            if structural_hit || visible_hit {
                assert(node_view(node1) =~~= NodeView { children: ChildrenView::Pruned, ..cs[i] });
            }
            assert(node_view(node1) == sibling_entry(cs, i));
        }
        (node1, diags)
    }

    /// Resolves one node's subtree, consuming and rebuilding it.
    #[verifier::rlimit(50)]
    #[verifier::spinoff_prover]
    #[verifier::loop_isolation(false)]
    fn prune_rec(node: Node) -> (r: (Node, Vec<Diagnostic>))
        ensures
            r.0@ == pruned_node(node@),
            diagnostic_views(r.1@) == pruned_diags(node@),
        decreases node, 0int,
    {
        let ghost n0 = node;
        let Node { header, children } = node;
        match children {
            Ok(Children::Below(mut work)) => {
                let ghost v0s: Seq<Node> = work@;
                let ghost cs0: Seq<NodeView> = node_views(v0s);
                proof {
                    crate::ir::lemma_node_views(v0s);
                }
                let total: usize = work.len();
                let mut out: Vec<Node> = Vec::new();
                let mut diags: Vec<Diagnostic> = Vec::new();
                let mut seen_struct: Vec<Name> = Vec::new();
                let mut seen_visible: Vec<Name> = Vec::new();
                let mut i: usize = 0;
                proof {
                    assert(name_views(seen_struct@) =~= structural_seen(cs0, 0));
                    assert(name_views(seen_visible@) =~= visible_seen(cs0, 0));
                }
                while i < total
                    invariant
                        i <= total,
                        work@ == v0s.subrange(i as int, total as int),
                        out@.len() == i,
                        forall|j: int|
                            0 <= j < i ==> node_view(#[trigger] out@[j]) == sibling_entry(cs0, j),
                        diagnostic_views(diags@) == sibling_diags(cs0, i as int),
                        name_views(seen_struct@) == structural_seen(cs0, i as int),
                        name_views(seen_visible@) == visible_seen(cs0, i as int),
                    decreases total - i,
                {
                    let ghost si = i as int;
                    proof {
                        assert(decreases_to!(n0 => n0.children));
                        assert(decreases_to!(n0.children => n0.children->Ok_0));
                        assert(decreases_to!(n0.children->Ok_0 => n0.children->Ok_0->Below_0));
                        assert(decreases_to!(n0.children->Ok_0->Below_0 => v0s));
                        assert(decreases_to!(v0s => v0s[si]));
                        assert(work@[0] == v0s[si]);
                    }
                    let taken = work.remove(0);
                    proof {
                        assert(taken == v0s[si]);
                        assert(decreases_to!(n0 => taken));
                    }
                    let (node1, mut d) = Node::process_sibling(
                        taken,
                        &mut seen_struct,
                        &mut seen_visible,
                        Ghost(cs0),
                        Ghost(si),
                    );
                    let ghost dv_old = diags@;
                    let ghost dv_new = d@;
                    diags.append(&mut d);
                    proof {
                        assert(diags@ == dv_old + dv_new);
                        lemma_diagnostic_views_concat(dv_old, dv_new);
                        assert(diagnostic_views(diags@) =~= sibling_diags(cs0, si + 1));
                    }
                    out.push(node1);
                    i = i + 1;
                    proof {
                        assert(work@ =~= v0s.subrange(i as int, total as int));
                    }
                }
                let result = Node { header, children: Ok(Children::Below(out)) };
                proof {
                    lemma_pruned_prefix(cs0, total as int);
                    crate::ir::lemma_node_views(out@);
                    assert(node_views(out@) =~= pruned_siblings(cs0));
                    assert(node_view(result) =~~= pruned_node(n0@));
                }
                (result, diags)
            },
            Ok(Children::Leaf(ty)) => {
                let result = Node { header, children: Ok(Children::Leaf(ty)) };
                proof {
                    assert(node_view(result) =~~= pruned_node(n0@));
                    assert(diagnostic_views(Seq::<Diagnostic>::empty()) =~= pruned_diags(n0@));
                }
                (result, Vec::new())
            },
            Err(d) => {
                let result = Node { header, children: Err(d) };
                proof {
                    assert(node_view(result) =~~= pruned_node(n0@));
                    assert(diagnostic_views(Seq::<Diagnostic>::empty()) =~= pruned_diags(n0@));
                }
                (result, Vec::new())
            },
        }
    }

    /// Resolves duplicate sibling names in place: prunes each repeat and
    /// reports every collision of externally visible names that the
    /// emitted declarations would not already expose.
    pub fn prune_duplicates(&mut self) -> (diags: Vec<Diagnostic>)
        ensures
            final (self)@ == pruned_node(old(self)@),
            diagnostic_views(diags@) == pruned_diags(old(self)@),
    {
        let mut taken = Node {
            header: Header {
                docs: Vec::new(),
                mod_name: None,
                kind: Kind::Static { renamed: None, param_count: 0 },
            },
            children: Err(Duplicate),
        };
        core::mem::swap(self, &mut taken);
        let (resolved, diags) = Node::prune_rec(taken);
        *self = resolved;
        diags
    }
}

/// Resolution preserves well-namedness: pruning only removes subtrees.
pub proof fn lemma_pruned_named(n: NodeView)
    requires
        crate::ir::descendants_named(n),
    ensures
        crate::ir::descendants_named(pruned_node(n)),
    decreases n,
{
    match n.children {
        ChildrenView::Below(cs) => {
            lemma_pruned_prefix(cs, cs.len() as int);
            assert forall|i: int| 0 <= i < pruned_siblings(cs).len() implies (
            #[trigger] pruned_siblings(cs)[i]).mod_name is Some && crate::ir::descendants_named(
                pruned_siblings(cs)[i],
            ) by {
                assert(cs[i].mod_name is Some && crate::ir::descendants_named(cs[i]));
                if !(structural_collision(cs, i) || visible_collision(cs, i)) {
                    lemma_pruned_named(cs[i]);
                }
            }
        },
        _ => {},
    }
}

/// The span of a name that first occurs at `k` is found by
/// `first_visible_index`.
pub proof fn lemma_first_visible_index(cs: Seq<NodeView>, t: Seq<char>, k: int)
    requires
        0 <= k < cs.len(),
        cs[k].visible_name() is Some,
        cs[k].visible_name()->0.text == t,
        forall|j: int|
            0 <= j < k ==> !((#[trigger] cs[j]).visible_name() is Some
                && cs[j].visible_name()->0.text == t),
    ensures
        first_visible_index(cs, t) == k,
    decreases cs.len(),
{
    if cs.len() > 0 {
        if k == 0 {
        } else {
            let tail = cs.subrange(1, cs.len() as int);
            assert(forall|j: int| 0 <= j < tail.len() ==> #[trigger] tail[j] == cs[j + 1]);
            lemma_first_visible_index(tail, t, k - 1);
        }
    }
}

} // verus!

verus! {

/// Resolution never changes a node's header: only the children of a
/// colliding sibling are replaced.
pub proof fn lemma_entry_header(cs: Seq<NodeView>, i: int)
    requires
        0 <= i < cs.len(),
    ensures
        sibling_entry(cs, i).mod_name == cs[i].mod_name,
        sibling_entry(cs, i).kind == cs[i].kind,
        sibling_entry(cs, i).visible_name() == cs[i].visible_name(),
{
}

/// After resolution, the surviving nodes of a sibling group carry pairwise
/// distinct structural names and pairwise distinct externally visible
/// names: a repeated name always leaves its later bearer pruned.
pub proof fn lemma_resolved_siblings_distinct(cs: Seq<NodeView>, i: int, j: int)
    requires
        0 <= i < j < cs.len(),
        !(pruned_siblings(cs)[i].children is Pruned),
        !(pruned_siblings(cs)[j].children is Pruned),
    ensures
        pruned_siblings(cs)[i].mod_name is Some && pruned_siblings(cs)[j].mod_name is Some
            ==> pruned_siblings(cs)[i].mod_name->0.text != pruned_siblings(cs)[j].mod_name->0.text,
        pruned_siblings(cs)[i].visible_name() is Some && pruned_siblings(cs)[j].visible_name()
            is Some ==> pruned_siblings(cs)[i].visible_name()->0.text != pruned_siblings(
            cs,
        )[j].visible_name()->0.text,
{
    lemma_pruned_prefix(cs, cs.len() as int);
    lemma_entry_header(cs, i);
    lemma_entry_header(cs, j);
    assert(!(structural_collision(cs, j) || visible_collision(cs, j)));
    if cs[i].mod_name is Some && cs[j].mod_name is Some && cs[i].mod_name->0.text == cs[
        j
    ].mod_name->0.text {
        assert(structural_collision(cs, j));
    }
    if cs[i].visible_name() is Some && cs[j].visible_name() is Some && cs[
        i
    ].visible_name()->0.text == cs[j].visible_name()->0.text {
        assert(visible_collision(cs, j));
    }
}

/// Resolution never adds or removes a sibling slot: pruned nodes stay in
/// place, so indexing and counts are stable.
pub proof fn lemma_resolution_preserves_sibling_count(cs: Seq<NodeView>)
    ensures
        pruned_siblings(cs).len() == cs.len(),
{
    lemma_pruned_prefix(cs, cs.len() as int);
}

/// Resolution is idempotent: running the duplicate resolver on an already
/// resolved tree changes nothing.
pub proof fn lemma_resolution_idempotent(n: NodeView)
    ensures
        pruned_node(pruned_node(n)) == pruned_node(n),
    decreases n,
{
    match n.children {
        ChildrenView::Below(cs) => {
            let ps = pruned_siblings(cs);
            lemma_pruned_prefix(cs, cs.len() as int);
            lemma_pruned_prefix(ps, ps.len() as int);
            assert forall|k: int| 0 <= k < cs.len() implies #[trigger] sibling_entry(ps, k)
                == ps[k] by {
                lemma_entry_header(cs, k);
                assert forall|j: int| 0 <= j < cs.len() implies #[trigger] ps[j].mod_name == cs[
                    j
                ].mod_name && ps[j].visible_name() == cs[j].visible_name() by {
                    lemma_entry_header(cs, j);
                }
                assert(structural_collision(ps, k) == structural_collision(cs, k)) by {
                    if structural_collision(cs, k) {
                        let j = choose|j: int|
                            0 <= j < k && (#[trigger] cs[j]).mod_name is Some && cs[
                            j
                            ].mod_name->0.text == cs[k].mod_name->0.text;
                        assert(ps[j].mod_name is Some && ps[j].mod_name->0.text == ps[
                            k
                        ].mod_name->0.text);
                    }
                    if structural_collision(ps, k) {
                        let j = choose|j: int|
                            0 <= j < k && (#[trigger] ps[j]).mod_name is Some && ps[
                            j
                            ].mod_name->0.text == ps[k].mod_name->0.text;
                        assert(cs[j].mod_name is Some && cs[j].mod_name->0.text == cs[
                            k
                        ].mod_name->0.text);
                    }
                }
                assert(visible_collision(ps, k) == visible_collision(cs, k)) by {
                    if visible_collision(cs, k) {
                        let j = choose|j: int|
                            0 <= j < k && (#[trigger] cs[j]).visible_name() is Some && cs[
                            j
                            ].visible_name()->0.text == cs[k].visible_name()->0.text;
                        assert(ps[j].visible_name() is Some && ps[j].visible_name()->0.text == ps[
                            k
                        ].visible_name()->0.text);
                    }
                    if visible_collision(ps, k) {
                        let j = choose|j: int|
                            0 <= j < k && (#[trigger] ps[j]).visible_name() is Some && ps[
                            j
                            ].visible_name()->0.text == ps[k].visible_name()->0.text;
                        assert(cs[j].visible_name() is Some && cs[j].visible_name()->0.text == cs[
                            k
                        ].visible_name()->0.text);
                    }
                }
                if structural_collision(cs, k) || visible_collision(cs, k) {
                    assert(ps[k] == NodeView { children: ChildrenView::Pruned, ..cs[k] });
                    assert(sibling_entry(ps, k) =~~= ps[k]);
                } else {
                    lemma_resolution_idempotent(cs[k]);
                    assert(sibling_entry(ps, k) == pruned_node(pruned_node(cs[k])));
                }
            }
            assert(pruned_siblings(ps) =~= ps);
            assert(pruned_node(pruned_node(n)) =~~= pruned_node(n));
        },
        _ => {},
    }
}

} // verus!
