use bevy_ecs::component::Component;
use bevy_ecs::component::TableStorage;
use bevy_ecs::world::FromWorld;
use bevy_ecs::world::World;
use crate::ordered::ascending;
use crate::ordered::listing;
use crate::ordered::lists;
use std::collections::BTreeSet;
use std::ops::Deref;
use std::ops::DerefMut;
use vstd::prelude::*;
use vstd::std_specs::btree::spec_btree_keys_iter;

verus! {

/// The direct children of the node that carries this component, ordered by
/// identifier.
///
/// The operations of this crate never leave the component on a node once its
/// last member is gone.
#[derive(Debug)]
pub struct Children(pub(crate) BTreeSet<u64>);

impl Component for Children {
    type Storage = TableStorage;
}

impl View for Children {
    type V = Set<u64>;

    closed spec fn view(&self) -> Set<u64> {
        self.0@
    }
}

impl FromWorld for Children {
    /// A component without members, as a value that a registry can start
    /// from. The operations of this crate never leave one on a node.
    fn from_world(_world: &mut World) -> (r: Self)
        ensures
            r@ == Set::<u64>::empty(),
            *final(_world) == *old(_world),
    {
        Children(BTreeSet::new())
    }
}

impl Deref for Children {
    type Target = BTreeSet<u64>;

    fn deref(&self) -> (r: &BTreeSet<u64>)
        ensures
            r == self.inner(),
            r@ == self@,
    {
        &self.0
    }
}

impl DerefMut for Children {
    fn deref_mut(&mut self) -> (r: &mut BTreeSet<u64>)
        ensures
            r@ == old(self)@,
            final(self)@ == final(r)@,
    {
        &mut self.0
    }
}

impl<'a> IntoIterator for &'a Children {
    type Item = &'a u64;

    type IntoIter = std::collections::btree_set::Iter<'a, u64>;

    fn into_iter(self) -> (r: std::collections::btree_set::Iter<'a, u64>)
        ensures
            r == spec_btree_keys_iter(self.inner()),
    {
        self.0.iter()
    }
}

impl Children {
    /// The ordered set that holds the members.
    pub closed spec fn inner(&self) -> &BTreeSet<u64> {
        &self.0
    }

    /// A component that holds exactly `entities`.
    pub(crate) fn new(entities: BTreeSet<u64>) -> (r: Self)
        ensures
            r@ == entities@,
    {
        Children(entities)
    }

    /// The members in ascending order.
    pub fn to_vec(&self) -> (r: Vec<u64>)
        ensures
            r@ == ascending(self@),
            lists(r@, self@),
    {
        listing(&self.0)
    }

    /// The members as an ordered set.
    pub(crate) fn as_set(&self) -> (r: &BTreeSet<u64>)
        ensures
            r == self.inner(),
            r@ == self@,
    {
        &self.0
    }

    /// Adds `id`; the result says whether it was new.
    pub(crate) fn gain(&mut self, id: u64) -> (r: bool)
        ensures
            final(self)@ == old(self)@.insert(id),
            r == !old(self)@.contains(id),
    {
        self.0.insert(id)
    }

    /// Takes `id` out; the result says whether it was a member.
    pub(crate) fn lose(&mut self, id: u64) -> (r: bool)
        ensures
            final(self)@ == old(self)@.remove(id),
            r == old(self)@.contains(id),
    {
        self.0.remove(&id)
    }
}

} // verus!
