use vstd::prelude::*;

verus! {

/// Identifier of a node stored in an [`crate::Arena`]: the index at which
/// the node was inserted.
#[derive(Debug, Clone, Copy, PartialEq, Eq, PartialOrd, Ord, Hash, Structural)]
pub struct NodeId(u32);

impl NodeId {
    /// The identifier of the first node ever inserted (index 0).
    pub fn root() -> (id: NodeId)
        ensures
            id.id_view() == 0,
    {
        NodeId(0)
    }

    pub closed spec fn id_view(self) -> u32 {
        self.0
    }

    pub fn new(value: u32) -> (id: NodeId)
        ensures
            id.id_view() == value,
    {
        NodeId(value)
    }

    pub fn index(self) -> (value: u32)
        ensures
            value == self.id_view(),
    {
        self.0
    }
}

/// Identifiers are plain values: two are equal exactly when their indices are.
pub proof fn law_ids_equal_iff_same_index(a: NodeId, b: NodeId)
    ensures
        (a == b) <==> (a.id_view() == b.id_view()),
{
}

} // verus!
