use vstd::prelude::*;
use crate::ids::NodeId;
use crate::span::Span;
use crate::syntax::kind::SyntaxKind;

verus! {

/// A node of the syntax tree: its identifier, kind, span and children.
#[derive(Debug, Clone, PartialEq, Eq)]
pub struct SyntaxNode {
    id: NodeId,
    kind: SyntaxKind,
    span: Span,
    children: Vec<NodeId>,
}

impl SyntaxNode {
    pub closed spec fn id_view(self) -> NodeId {
        self.id
    }

    pub closed spec fn kind_view(self) -> SyntaxKind {
        self.kind
    }

    pub closed spec fn span_view(self) -> Span {
        self.span
    }

    pub closed spec fn children_view(self) -> Seq<NodeId> {
        self.children@
    }

    /// A node without children.
    pub fn new(id: NodeId, kind: SyntaxKind, span: Span) -> (r: SyntaxNode)
        ensures
            r.id_view() == id,
            r.kind_view() == kind,
            r.span_view() == span,
            r.children_view() == Seq::<NodeId>::empty(),
    {
        SyntaxNode { id, kind, span, children: Vec::new() }
    }

    pub fn id(&self) -> (r: NodeId)
        ensures
            r == self.id_view(),
    {
        self.id
    }

    pub fn kind(&self) -> (r: SyntaxKind)
        ensures
            r == self.kind_view(),
    {
        self.kind
    }

    pub fn span(&self) -> (r: Span)
        ensures
            r == self.span_view(),
    {
        self.span
    }

    pub fn children(&self) -> (r: &[NodeId])
        ensures
            r@ == self.children_view(),
    {
        self.children.as_slice()
    }

    /// Appends `child` after the existing children.
    pub fn add_child(&mut self, child: NodeId)
        ensures
            final(self).id_view() == old(self).id_view(),
            final(self).kind_view() == old(self).kind_view(),
            final(self).span_view() == old(self).span_view(),
            final(self).children_view() == old(self).children_view().push(child),
    {
        self.children.push(child);
    }
}

/// Equal nodes have the same identifier, kind, span and children. (The
/// converse is not stated: vstd gives `Vec` no extensional equality, so equal
/// child sequences do not make the vectors equal values.)
pub proof fn law_equal_nodes_agree(a: SyntaxNode, b: SyntaxNode)
    requires
        a == b,
    ensures
        a.id_view() == b.id_view(),
        a.kind_view() == b.kind_view(),
        a.span_view() == b.span_view(),
        a.children_view() == b.children_view(),
{
}

} // verus!
