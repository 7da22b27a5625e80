//! The raw syntax tree handed over by the front-end parser.
//!
//! The front end resolves source text into plain values before the verified
//! pipeline runs: every identifier or string literal arrives as its text
//! together with a numeric span token that the caller can map back to a
//! source location when rendering diagnostics.

use vstd::prelude::*;

verus! {

/// An identifier or literal name, carried as plain text plus a span token.
///
/// The span token is opaque to this crate: it is produced by the front end,
/// threaded through duplicate diagnostics unchanged, and resolved back to a
/// source location by the caller.
pub struct Name {
    pub text: String,
    pub span: u64,
}

/// The mathematical value of a [`Name`].
#[verifier::ext_equal]
pub struct NameView {
    pub text: Seq<char>,
    pub span: u64,
}

impl View for Name {
    type V = NameView;

    open spec fn view(&self) -> NameView {
        NameView { text: self.text@, span: self.span }
    }
}

impl Name {
    /// An explicit copy whose contract keeps the text and span.
    pub fn duplicate(&self) -> (r: Name)
        ensures
            r@ == self@,
    {
        Name { text: self.text.clone(), span: self.span }
    }
}

/// One declared parameter of a segment: a name and the text of its value type.
pub struct Parameter {
    pub name: Name,
    pub ty: String,
}

/// The mathematical value of a [`Parameter`].
#[verifier::ext_equal]
pub struct ParameterView {
    pub name: NameView,
    pub ty: Seq<char>,
}

impl View for Parameter {
    type V = ParameterView;

    open spec fn view(&self) -> ParameterView {
        ParameterView { name: self.name@, ty: self.ty@ }
    }
}

/// The parenthesized parameter list of a segment.
pub struct Parameters {
    pub params: Vec<Parameter>,
}

impl View for Parameters {
    type V = Seq<ParameterView>;

    open spec fn view(&self) -> Seq<ParameterView> {
        Seq::new(self.params@.len(), |i: int| self.params@[i]@)
    }
}

/// One named step of the schema: its name, an optional externally visible
/// rename, and the parameters it declares.
pub struct Segment {
    pub name: Name,
    pub renamed: Option<Name>,
    pub params: Option<Parameters>,
}

/// The mathematical value of a [`Segment`]. An absent parameter list and an
/// empty one are the same schema, so the view keeps only the sequence.
#[verifier::ext_equal]
pub struct SegmentView {
    pub name: NameView,
    pub renamed: Option<NameView>,
    pub params: Seq<ParameterView>,
}

impl View for Segment {
    type V = SegmentView;

    open spec fn view(&self) -> SegmentView {
        SegmentView {
            name: self.name@,
            renamed: match self.renamed {
                Some(ref n) => Some(n@),
                None => None,
            },
            params: match self.params {
                Some(ref p) => p@,
                None => Seq::empty(),
            },
        }
    }
}

/// One child of a segment (or of the schema root): either a leaf that
/// terminates in a value type, or an internal segment with further children.
pub enum Child {
    Leaf { segment: Segment, ty: String },
    Internal { segment: Segment, children: Vec<Child> },
}

/// The mathematical value of a [`Child`].
#[verifier::ext_equal]
pub enum ChildView {
    Leaf { segment: SegmentView, ty: Seq<char> },
    Internal { segment: SegmentView, children: Seq<ChildView> },
}

/// The view of a syntax child, written as a free function so that it can
/// carry its own termination measure.
pub open spec fn child_view(c: Child) -> ChildView
    decreases c,
{
    match c {
        Child::Leaf { segment, ty } => ChildView::Leaf { segment: segment@, ty: ty@ },
        Child::Internal { segment, children } => ChildView::Internal {
            segment: segment@,
            children: children_views(children@),
        },
    }
}

/// The views of a sequence of syntax children, element for element.
pub open spec fn children_views(cs: Seq<Child>) -> Seq<ChildView>
    decreases cs,
{
    if cs.len() == 0 {
        Seq::empty()
    } else {
        children_views(cs.subrange(0, cs.len() - 1)).push(child_view(cs[cs.len() - 1]))
    }
}

/// `children_views` is the element-wise image of `child_view`.
pub proof fn lemma_children_views(cs: Seq<Child>)
    ensures
        children_views(cs).len() == cs.len(),
        forall|i: int|
            0 <= i < cs.len() ==> #[trigger] children_views(cs)[i] == child_view(cs[i]),
    decreases cs.len(),
{
    if cs.len() > 0 {
        lemma_children_views(cs.subrange(0, cs.len() - 1));
        assert(forall|i: int|
            0 <= i < cs.len() - 1 ==> cs.subrange(0, cs.len() - 1)[i] == #[trigger] cs[i]);
    }
}

impl View for Child {
    type V = ChildView;

    open spec fn view(&self) -> ChildView {
        child_view(*self)
    }
}

impl ChildView {
    /// The segment common to both shapes of a child.
    pub open spec fn segment(self) -> SegmentView {
        match self {
            ChildView::Leaf { segment, .. } => segment,
            ChildView::Internal { segment, .. } => segment,
        }
    }
}

/// A whole schema as parsed: the ordered children of the root.
pub struct Input {
    pub children: Vec<Child>,
}

impl View for Input {
    type V = Seq<ChildView>;

    open spec fn view(&self) -> Seq<ChildView> {
        children_views(self.children@)
    }
}

} // verus!
