use vstd::prelude::*;
use crate::arena::{arena_lookup, Arena};
use crate::ids::{law_ids_equal_iff_same_index, NodeId};
use crate::span::Span;
use crate::syntax::kind::SyntaxKind;
use crate::syntax::node::SyntaxNode;

verus! {

/// A syntax tree: nodes stored in an arena, and an optional root.
#[derive(Debug)]
pub struct SyntaxTree {
    nodes: Arena<SyntaxNode>,
    root: Option<NodeId>,
}

impl Default for SyntaxTree {
    fn default() -> (r: SyntaxTree)
        ensures
            r.nodes_view() == Seq::<SyntaxNode>::empty(),
            r.root_view() == None::<NodeId>,
    {
        Self::new()
    }
}

impl SyntaxTree {
    /// The nodes, indexed by their identifiers.
    pub closed spec fn nodes_view(self) -> Seq<SyntaxNode> {
        self.nodes@
    }

    pub closed spec fn root_view(self) -> Option<NodeId> {
        self.root
    }

    /// The root, when set, names a node of the tree. Every operation keeps
    /// this true.
    pub open spec fn root_is_node(self) -> bool {
        self.root_view() matches Some(r) ==> arena_lookup(self.nodes_view(), r.id_view() as int) is Some
    }

    pub fn new() -> (r: SyntaxTree)
        ensures
            r.nodes_view() == Seq::<SyntaxNode>::empty(),
            r.root_view() == None::<NodeId>,
            r.root_is_node(),
    {
        SyntaxTree { nodes: Arena::new(), root: None }
    }

    /// Adds a childless node of `kind` covering `span`; its identifier is
    /// the number of nodes created before it.
    pub fn create_node(&mut self, kind: SyntaxKind, span: Span) -> (id: NodeId)
        requires
            old(self).nodes_view().len() <= u32::MAX,
        ensures
            id.id_view() == old(self).nodes_view().len(),
            final(self).nodes_view().len() == old(self).nodes_view().len() + 1,
            forall|i: int|
                0 <= i < old(self).nodes_view().len() ==> final(self).nodes_view()[i]
                    == old(self).nodes_view()[i],
            final(self).nodes_view().last().id_view() == id,
            final(self).nodes_view().last().kind_view() == kind,
            final(self).nodes_view().last().span_view() == span,
            final(self).nodes_view().last().children_view() == Seq::<NodeId>::empty(),
            final(self).root_view() == old(self).root_view(),
            old(self).root_is_node() ==> final(self).root_is_node(),
    {
        let expected_id = NodeId::new(self.nodes.len() as u32);
        let node = SyntaxNode::new(expected_id, kind, span);
        let id = self.nodes.insert(node);
        proof {
            law_ids_equal_iff_same_index(id, expected_id);
        }
        id
    }

    /// Makes `root`, an existing node, the root of the tree.
    pub fn set_root(&mut self, root: NodeId)
        requires
            arena_lookup(old(self).nodes_view(), root.id_view() as int) is Some,
        ensures
            final(self).root_view() == Some(root),
            final(self).nodes_view() == old(self).nodes_view(),
            final(self).root_is_node(),
    {
        self.root = Some(root);
    }

    pub fn root(&self) -> (r: Option<NodeId>)
        ensures
            r == self.root_view(),
    {
        self.root
    }

    pub fn node(&self, id: NodeId) -> (r: Option<&SyntaxNode>)
        ensures
            r is Some <==> arena_lookup(self.nodes_view(), id.id_view() as int) is Some,
            r matches Some(n) ==> arena_lookup(self.nodes_view(), id.id_view() as int) == Some(*n),
    {
        self.nodes.get(id)
    }

    pub fn node_mut(&mut self, id: NodeId) -> (r: Option<&mut SyntaxNode>)
        ensures
            r is Some <==> arena_lookup(old(self).nodes_view(), id.id_view() as int) is Some,
            final(self).root_view() == old(self).root_view(),
            old(self).root_is_node() ==> final(self).root_is_node(),
            r is None ==> final(self).nodes_view() == old(self).nodes_view(),
            r is Some ==> arena_lookup(old(self).nodes_view(), id.id_view() as int) == Some(
                *r.unwrap(),
            ) && final(self).nodes_view() == old(self).nodes_view().update(
                id.id_view() as int,
                *final(r.unwrap()),
            ),
    {
        self.nodes.get_mut(id)
    }

    pub fn len(&self) -> (r: usize)
        ensures
            r == self.nodes_view().len(),
    {
        self.nodes.len()
    }

    pub fn is_empty(&self) -> (r: bool)
        ensures
            r == (self.nodes_view().len() == 0),
    {
        self.nodes.is_empty()
    }
}

} // verus!
