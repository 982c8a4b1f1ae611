//! How a world stands for a hierarchy, and when it does so consistently.
use bevy_ecs::world::World;
use crate::hierarchy::Hierarchy;
use crate::store::world_children;
use crate::store::world_events;
use crate::store::world_listening;
use crate::store::world_nodes;
use crate::store::world_parents;
use vstd::prelude::*;

verus! {

/// The set has a member.
#[verifier::opaque]
pub open spec fn inhabited(s: Set<u64>) -> bool {
    exists|x: u64| s.contains(x)
}

/// A set with a member is inhabited.
pub proof fn lemma_member_inhabits(s: Set<u64>, x: u64)
    requires
        s.contains(x),
    ensures
        inhabited(s),
{
    reveal(inhabited);
}

/// An inhabited set has a member.
pub proof fn lemma_inhabitant(s: Set<u64>) -> (x: u64)
    requires
        inhabited(s),
    ensures
        s.contains(x),
{
    reveal(inhabited);
    choose|x: u64| s.contains(x)
}

/// A set is inhabited exactly if it is not empty.
pub proof fn lemma_inhabited_or_empty(s: Set<u64>)
    ensures
        inhabited(s) <==> !s.is_empty(),
        !inhabited(s) ==> s == Set::<u64>::empty(),
{
    reveal(inhabited);
}

/// The members of the set that `sets` has for `node`; none where it has no
/// set for it.
pub open spec fn members(sets: Map<u64, Set<u64>>, node: u64) -> Set<u64> {
    if sets.contains_key(node) {
        sets[node]
    } else {
        Set::empty()
    }
}

/// `sets` after `id` joined the set of `node`.
pub open spec fn with_member(sets: Map<u64, Set<u64>>, node: u64, id: u64) -> Map<u64, Set<u64>> {
    sets.insert(node, members(sets, node).insert(id))
}

/// `sets` after `id` left the set of `node`. A set that loses its last member
/// is gone with it.
pub open spec fn without_member(sets: Map<u64, Set<u64>>, node: u64, id: u64) -> Map<
    u64,
    Set<u64>,
> {
    if !sets.contains_key(node) {
        sets
    } else if !inhabited(sets[node].remove(id)) {
        sets.remove(node)
    } else {
        sets.insert(node, sets[node].remove(id))
    }
}

/// The edges that a family of child sets describes.
pub open spec fn links(children: Map<u64, Set<u64>>) -> Set<(u64, u64)> {
    Set::new(|e: (u64, u64)| children.contains_key(e.0) && children[e.0].contains(e.1))
}

/// The edges that the `Children` components of a world describe.
pub open spec fn edges_of(w: World) -> Set<(u64, u64)> {
    links(world_children(w))
}

/// The hierarchy that a world holds.
pub open spec fn hierarchy(w: World) -> Hierarchy {
    Hierarchy {
        nodes: world_nodes(w),
        edges: edges_of(w),
        events: world_events(w),
        listening: world_listening(w),
    }
}

/// Child sets and parent sets that belong together: each set sits on a node
/// that exists and has a member, and a node is among the children of another
/// exactly if that one is among its parents.
pub open spec fn coherent(
    nodes: Set<u64>,
    children: Map<u64, Set<u64>>,
    parents: Map<u64, Set<u64>>,
) -> bool {
    &&& nodes.finite()
    &&& forall|p: u64| #[trigger]
        children.contains_key(p) ==> nodes.contains(p) && inhabited(children[p])
    &&& forall|c: u64| #[trigger]
        parents.contains_key(c) ==> nodes.contains(c) && inhabited(parents[c])
    &&& forall|p: u64, c: u64|
        children.contains_key(p) && #[trigger] children[p].contains(c) ==> parents.contains_key(c)
            && parents[c].contains(p)
    &&& forall|p: u64, c: u64|
        parents.contains_key(c) && #[trigger] parents[c].contains(p) ==> children.contains_key(p)
            && children[p].contains(c)
}

/// The invariant of a world that holds a hierarchy: its components sit on
/// live entities only, none of them is empty, and the `Children` and the
/// `Parents` describe the same edges.
pub open spec fn consistent(w: World) -> bool {
    coherent(world_nodes(w), world_children(w), world_parents(w))
}

/// Adding an edge to both sides keeps them coherent.
pub proof fn lemma_link(
    nodes: Set<u64>,
    children: Map<u64, Set<u64>>,
    parents: Map<u64, Set<u64>>,
    parent: u64,
    child: u64,
)
    requires
        coherent(nodes, children, parents),
        nodes.contains(parent),
        nodes.contains(child),
    ensures
        coherent(
            nodes,
            with_member(children, parent, child),
            with_member(parents, child, parent),
        ),
        links(with_member(children, parent, child)) == links(children).insert((parent, child)),
        links(children).contains((parent, child)) == members(children, parent).contains(child),
{
    lemma_member_inhabits(with_member(children, parent, child)[parent], child);
    lemma_member_inhabits(with_member(parents, child, parent)[child], parent);
}

/// Taking an edge from both sides keeps them coherent.
pub proof fn lemma_unlink(
    nodes: Set<u64>,
    children: Map<u64, Set<u64>>,
    parents: Map<u64, Set<u64>>,
    parent: u64,
    child: u64,
)
    requires
        coherent(nodes, children, parents),
    ensures
        coherent(
            nodes,
            without_member(children, parent, child),
            without_member(parents, child, parent),
        ),
        links(without_member(children, parent, child)) == links(children).remove((parent, child)),
        links(children).contains((parent, child)) == members(children, parent).contains(child),
{
    let ch = without_member(children, parent, child);
    let pa = without_member(parents, child, parent);
    assert forall|p: u64, c: u64| ch.contains_key(p) && #[trigger] ch[p].contains(c) implies pa.contains_key(
        c,
    ) && pa[c].contains(p) by {
        if c == child {
            lemma_member_inhabits(parents[child].remove(parent), p);
        }
    }
    assert forall|p: u64, c: u64| pa.contains_key(c) && #[trigger] pa[c].contains(p) implies ch.contains_key(
        p,
    ) && ch[p].contains(c) by {
        if p == parent {
            lemma_member_inhabits(children[parent].remove(child), c);
        }
    }
    assert forall|e: (u64, u64)| links(ch).contains(e) == links(children).remove(
        (parent, child),
    ).contains(e) by {
        if e.0 == parent && e.1 != child && links(children).contains(e) {
            lemma_member_inhabits(children[parent].remove(child), e.1);
        }
    }
}

/// In a consistent world the components of a node hold its children and its
/// parents in the hierarchy, and all of them are alive.
pub proof fn lemma_sets_agree(w: World, node: u64)
    requires
        consistent(w),
    ensures
        hierarchy(w).children_of(node) == members(world_children(w), node),
        hierarchy(w).parents_of(node) == members(world_parents(w), node),
        forall|x: u64| #[trigger]
            hierarchy(w).children_of(node).contains(x) ==> world_nodes(w).contains(x),
        forall|x: u64| #[trigger]
            hierarchy(w).parents_of(node).contains(x) ==> world_nodes(w).contains(x),
        hierarchy(w).well_formed(),
{
}

} // verus!
