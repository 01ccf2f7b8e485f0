use vstd::prelude::*;
use crate::ids::NodeId;

verus! {

/// The value stored under index `index`, if there is one.
pub open spec fn arena_lookup<T>(items: Seq<T>, index: int) -> Option<T> {
    if 0 <= index < items.len() {
        Some(items[index])
    } else {
        None
    }
}

/// Values stored in insertion order; a value's identifier is the index at
/// which it was inserted.
#[derive(Debug)]
pub struct Arena<T> {
    items: Vec<T>,
}

impl<T> View for Arena<T> {
    type V = Seq<T>;

    closed spec fn view(&self) -> Seq<T> {
        self.items@
    }
}

impl<T> Default for Arena<T> {
    fn default() -> (r: Arena<T>)
        ensures
            r@ == Seq::<T>::empty(),
    {
        Self::new()
    }
}

impl<T> Arena<T> {
    pub fn new() -> (r: Arena<T>)
        ensures
            r@ == Seq::<T>::empty(),
    {
        Arena { items: Vec::new() }
    }

    /// Stores `value` and returns its identifier, the number of values
    /// stored before it. Identifiers are `u32`, so an arena holds at most
    /// `u32::MAX + 1` values.
    pub fn insert(&mut self, value: T) -> (id: NodeId)
        requires
            old(self)@.len() <= u32::MAX,
        ensures
            id.id_view() == old(self)@.len(),
            final(self)@ == old(self)@.push(value),
    {
        let index = self.items.len();
        let index = index as u32;
        self.items.push(value);
        NodeId::new(index)
    }

    pub fn get(&self, id: NodeId) -> (r: Option<&T>)
        ensures
            r is Some <==> arena_lookup(self@, id.id_view() as int) is Some,
            r matches Some(v) ==> arena_lookup(self@, id.id_view() as int) == Some(*v),
    {
        let index = id.index() as usize;
        if index < self.items.len() {
            Some(&self.items[index])
        } else {
            None
        }
    }

    /// Mutable access to the value stored under `id`, if there is one.
    pub fn get_mut(&mut self, id: NodeId) -> (r: Option<&mut T>)
        ensures
            r is Some <==> arena_lookup(old(self)@, id.id_view() as int) is Some,
            r is None ==> final(self)@ == old(self)@,
            r is Some ==> arena_lookup(old(self)@, id.id_view() as int) == Some(*r.unwrap())
                && final(self)@ == old(self)@.update(id.id_view() as int, *final(r.unwrap())),
    {
        let index = id.index() as usize;
        if index < self.items.len() {
            Some(&mut self.items[index])
        } else {
            None
        }
    }

    pub fn len(&self) -> (r: usize)
        ensures
            r == self@.len(),
    {
        self.items.len()
    }

    pub fn is_empty(&self) -> (r: bool)
        ensures
            r == (self@.len() == 0),
    {
        self.items.is_empty()
    }

    /// True when a value is stored under `id`.
    pub fn contains(&self, id: NodeId) -> (r: bool)
        ensures
            r == arena_lookup(self@, id.id_view() as int) is Some,
    {
        (id.index() as usize) < self.items.len()
    }
}

/// A value read back under the identifier that `insert` returned is the
/// value inserted, and inserting leaves every earlier value in place.
pub proof fn law_get_after_insert<T>(before: Seq<T>, value: T, index: int)
    ensures
        arena_lookup(before.push(value), before.len() as int) == Some(value),
        index != before.len() ==> arena_lookup(before.push(value), index) == arena_lookup(
            before,
            index,
        ),
{
}

/// Writing through `get_mut` changes the value under that identifier only.
pub proof fn law_get_after_update<T>(before: Seq<T>, index: int, value: T, other: int)
    requires
        0 <= index < before.len(),
    ensures
        arena_lookup(before.update(index, value), index) == Some(value),
        other != index ==> arena_lookup(before.update(index, value), other) == arena_lookup(
            before,
            other,
        ),
{
}

} // verus!
