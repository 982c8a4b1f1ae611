//! The operations that change the hierarchy of a world.
//!
//! The four functions at the top change one side of a relationship only and
//! leave the world inconsistent on their own. `link` and `unlink` pair them,
//! and everything else is built from these two, so that every operation
//! takes a consistent world to a consistent world.
use bevy_ecs::world::World;
use crate::HierarchyEvent;
use crate::components::children::Children;
use crate::components::parents::Parents;
use crate::consistency::consistent;
use crate::consistency::edges_of;
use crate::consistency::hierarchy;
use crate::consistency::lemma_inhabitant;
use crate::consistency::lemma_inhabited_or_empty;
use crate::consistency::lemma_link;
use crate::consistency::lemma_sets_agree;
use crate::consistency::lemma_unlink;
use crate::consistency::members;
use crate::consistency::with_member;
use crate::consistency::without_member;
use crate::hierarchy::Hierarchy;
use crate::hierarchy::added;
use crate::hierarchy::all_among;
use crate::hierarchy::fan;
use crate::hierarchy::first_hits;
use crate::hierarchy::funnel;
use crate::hierarchy::lemma_first_hits_step;
use crate::hierarchy::lemma_take_step;
use crate::hierarchy::removed;
use crate::ordered::ascending;
use crate::ordered::collect;
use crate::ordered::lemma_ascending_empty;
use crate::ordered::listing_without;
use crate::ordered::lists;
use crate::store::despawn_node;
use crate::store::drop_children;
use crate::store::drop_parents;
use crate::store::edit_children;
use crate::store::edit_parents;
use crate::store::has_event_channel;
use crate::store::no_node_exists;
use crate::store::node_exists;
use crate::store::only_children_differ;
use crate::store::only_events_differ;
use crate::store::only_parents_differ;
use crate::store::put_children;
use crate::store::put_parents;
use crate::store::read_children;
use crate::store::read_parents;
use crate::store::send_events;
use crate::store::world_children;
use crate::store::world_events;
use crate::store::world_listening;
use crate::store::world_nodes;
use crate::store::world_parents;
use std::collections::BTreeSet;
use vstd::prelude::*;

verus! {

/// Adds `child` to the `Children` of `parent`, and gives `parent` the
/// component where it has none. The `Parents` of `child` are not touched.
/// The result says whether `child` was new there.
fn insert_child_unidirectional(world: &mut World, child: u64, parent: u64) -> (new: bool)
    requires
        world_nodes(*old(world)).contains(parent),
    ensures
        world_children(*final(world)) == with_member(world_children(*old(world)), parent, child),
        only_children_differ(*old(world), *final(world)),
        new == !members(world_children(*old(world)), parent).contains(child),
{
    match edit_children(world, parent) {
        Some(set) => set.gain(child),
        None => {
            let mut set = Children::new(BTreeSet::new());
            set.gain(child);
            put_children(world, parent, set);
            true
        },
    }
}

/// Takes `child` out of the `Children` of `parent`, and the component off
/// `parent` where that was its last member. The `Parents` of `child` are not
/// touched. The result says whether `child` was there.
fn remove_child_unidirectional(world: &mut World, child: u64, parent: u64) -> (was: bool)
    requires
        world_nodes(*old(world)).contains(parent),
    ensures
        world_children(*final(world)) == without_member(
            world_children(*old(world)),
            parent,
            child,
        ),
        only_children_differ(*old(world), *final(world)),
        was == members(world_children(*old(world)), parent).contains(child),
{
    let (was, emptied) = match edit_children(world, parent) {
        Some(set) => {
            let was = set.lose(child);
            (was, set.as_set().is_empty())
        },
        None => (false, false),
    };
    if emptied {
        drop_children(world, parent);
    }
    proof {
        if world_children(*old(world)).contains_key(parent) {
            lemma_inhabited_or_empty(world_children(*old(world))[parent].remove(child));
        }
    }
    was
}

/// Adds `parent` to the `Parents` of `child`, and gives `child` the component
/// where it has none. The `Children` of `parent` are not touched.
fn insert_parent_unidirectional(world: &mut World, child: u64, parent: u64)
    requires
        world_nodes(*old(world)).contains(child),
    ensures
        world_parents(*final(world)) == with_member(world_parents(*old(world)), child, parent),
        only_parents_differ(*old(world), *final(world)),
{
    match edit_parents(world, child) {
        Some(set) => {
            set.gain(parent);
        },
        None => {
            let mut set = Parents::new(BTreeSet::new());
            set.gain(parent);
            put_parents(world, child, set);
        },
    }
}

/// Takes `parent` out of the `Parents` of `child`, and the component off
/// `child` where that was its last member. The `Children` of `parent` are
/// not touched.
fn remove_parent_unidirectional(world: &mut World, child: u64, parent: u64)
    requires
        world_nodes(*old(world)).contains(child),
    ensures
        world_parents(*final(world)) == without_member(world_parents(*old(world)), child, parent),
        only_parents_differ(*old(world), *final(world)),
{
    let emptied = match edit_parents(world, child) {
        Some(set) => {
            set.lose(parent);
            set.as_set().is_empty()
        },
        None => false,
    };
    if emptied {
        drop_parents(world, child);
    }
    proof {
        if world_parents(*old(world)).contains_key(child) {
            lemma_inhabited_or_empty(world_parents(*old(world))[child].remove(parent));
        }
    }
}

/// Makes `child` a child of `parent` on both sides, without an event. The
/// result says whether it was not one before.
fn link(world: &mut World, parent: u64, child: u64) -> (new: bool)
    requires
        consistent(*old(world)),
        world_nodes(*old(world)).contains(parent),
        world_nodes(*old(world)).contains(child),
    ensures
        consistent(*final(world)),
        hierarchy(*final(world)) == hierarchy(*old(world)).link(parent, child),
        new == !hierarchy(*old(world)).edges.contains((parent, child)),
{
    let new = insert_child_unidirectional(world, child, parent);
    insert_parent_unidirectional(world, child, parent);
    proof {
        lemma_link(
            world_nodes(*old(world)),
            world_children(*old(world)),
            world_parents(*old(world)),
            parent,
            child,
        );
    }
    new
}

/// Ends the relationship between `parent` and `child` on both sides, without
/// an event. The result says whether there was one.
fn unlink(world: &mut World, parent: u64, child: u64) -> (was: bool)
    requires
        consistent(*old(world)),
        world_nodes(*old(world)).contains(parent),
        world_nodes(*old(world)).contains(child),
    ensures
        consistent(*final(world)),
        hierarchy(*final(world)) == hierarchy(*old(world)).unlink(parent, child),
        was == hierarchy(*old(world)).edges.contains((parent, child)),
{
    let was = remove_child_unidirectional(world, child, parent);
    remove_parent_unidirectional(world, child, parent);
    proof {
        lemma_unlink(
            world_nodes(*old(world)),
            world_children(*old(world)),
            world_parents(*old(world)),
            parent,
            child,
        );
    }
    was
}

/// Sends `events` to the channel of the world. Without a channel they are
/// dropped.
fn push_events(world: &mut World, events: Vec<HierarchyEvent>)
    ensures
        only_events_differ(*old(world), *final(world)),
        hierarchy(*final(world)) == hierarchy(*old(world)).emit(events@),
{
    if has_event_channel(world) {
        send_events(world, events);
    }
}

/// Makes `child` a child of `parent`.
pub fn add_child(world: &mut World, parent: u64, child: u64)
    requires
        consistent(*old(world)),
        world_nodes(*old(world)).contains(parent),
        world_nodes(*old(world)).contains(child),
    ensures
        consistent(*final(world)),
        hierarchy(*final(world)) == hierarchy(*old(world)).attach(parent, child),
{
    if link(world, parent, child) {
        let mut events: Vec<HierarchyEvent> = Vec::new();
        events.push(HierarchyEvent::ChildAdded { child, parent });
        proof {
            assert(events@ =~= added(seq![child], parent));
        }
        push_events(world, events);
    } else {
        proof {
            assert(edges_of(*world) =~= edges_of(*old(world)));
        }
    }
}

/// Ends the relationship between `child` and `parent`.
pub fn remove_parent(world: &mut World, child: u64, parent: u64)
    requires
        consistent(*old(world)),
        world_nodes(*old(world)).contains(parent),
        world_nodes(*old(world)).contains(child),
    ensures
        consistent(*final(world)),
        hierarchy(*final(world)) == hierarchy(*old(world)).detach(parent, child),
{
    if unlink(world, parent, child) {
        let mut events: Vec<HierarchyEvent> = Vec::new();
        events.push(HierarchyEvent::ChildRemoved { child, parent });
        proof {
            assert(events@ =~= removed(seq![child], parent));
        }
        push_events(world, events);
    } else {
        proof {
            assert(edges_of(*world) =~= edges_of(*old(world)));
        }
    }
}

/// Makes each of `children` a child of `parent`, and sends the events of
/// those that were none in one batch.
pub fn push_children(world: &mut World, parent: u64, children: &[u64])
    requires
        consistent(*old(world)),
        world_nodes(*old(world)).contains(parent),
        all_among(children@, world_nodes(*old(world))),
    ensures
        consistent(*final(world)),
        hierarchy(*final(world)) == hierarchy(*old(world)).attach_all(parent, children@),
{
    let ghost start = hierarchy(*old(world));
    let mut events: Vec<HierarchyEvent> = Vec::new();
    let mut i: usize = 0;
    while i < children.len()
        invariant
            i <= children.len(),
            consistent(*world),
            world_nodes(*world) == start.nodes,
            world_events(*world) == start.events,
            world_listening(*world) == start.listening,
            start == hierarchy(*old(world)),
            start.nodes.contains(parent),
            all_among(children@, start.nodes),
            edges_of(*world) == start.edges.union(fan(parent, children@.take(i as int).to_set())),
            events@ == added(
                first_hits(children@.take(i as int), start.children_of(parent), false),
                parent,
            ),
        decreases children.len() - i,
    {
        let child = children[i];
        let new = link(world, parent, child);
        proof {
            lemma_take_step(children@, i as int);
            lemma_first_hits_step(children@, i as int, start.children_of(parent), false);
        }
        if new {
            events.push(HierarchyEvent::ChildAdded { child, parent });
        }
        i += 1;
    }
    proof {
        assert(children@.take(i as int) =~= children@);
    }
    push_events(world, events);
}

/// Ends the relationship between `parent` and each of `children` without
/// sending anything, and returns the events of those that were children.
fn detach_each(world: &mut World, parent: u64, children: &[u64]) -> (events: Vec<HierarchyEvent>)
    requires
        consistent(*old(world)),
        world_nodes(*old(world)).contains(parent),
        all_among(children@, world_nodes(*old(world))),
    ensures
        consistent(*final(world)),
        hierarchy(*final(world)) == (Hierarchy {
            edges: hierarchy(*old(world)).edges.difference(fan(parent, children@.to_set())),
            ..hierarchy(*old(world))
        }),
        events@ == removed(
            first_hits(children@, hierarchy(*old(world)).children_of(parent), true),
            parent,
        ),
{
    let ghost start = hierarchy(*old(world));
    let mut events: Vec<HierarchyEvent> = Vec::new();
    let mut i: usize = 0;
    while i < children.len()
        invariant
            i <= children.len(),
            consistent(*world),
            world_nodes(*world) == start.nodes,
            world_events(*world) == start.events,
            world_listening(*world) == start.listening,
            start == hierarchy(*old(world)),
            start.nodes.contains(parent),
            all_among(children@, start.nodes),
            edges_of(*world) == start.edges.difference(
                fan(parent, children@.take(i as int).to_set()),
            ),
            events@ == removed(
                first_hits(children@.take(i as int), start.children_of(parent), true),
                parent,
            ),
        decreases children.len() - i,
    {
        let child = children[i];
        let was = unlink(world, parent, child);
        proof {
            lemma_take_step(children@, i as int);
            lemma_first_hits_step(children@, i as int, start.children_of(parent), true);
        }
        if was {
            events.push(HierarchyEvent::ChildRemoved { child, parent });
        }
        i += 1;
    }
    proof {
        assert(children@.take(i as int) =~= children@);
    }
    events
}

/// Ends the relationship between `parent` and each of `children`, and sends
/// the events of those that were children in one batch.
pub fn remove_children(parent: u64, children: &[u64], world: &mut World)
    requires
        consistent(*old(world)),
        world_nodes(*old(world)).contains(parent),
        all_among(children@, world_nodes(*old(world))),
    ensures
        consistent(*final(world)),
        hierarchy(*final(world)) == hierarchy(*old(world)).detach_all(parent, children@),
{
    let events = detach_each(world, parent, children);
    push_events(world, events);
}

/// The children of `node`, smallest first.
fn children_of(world: &World, node: u64) -> (r: Vec<u64>)
    requires
        consistent(*world),
    ensures
        r@ == ascending(hierarchy(*world).children_of(node)),
        lists(r@, hierarchy(*world).children_of(node)),
        all_among(r@, world_nodes(*world)),
{
    proof {
        lemma_sets_agree(*world, node);
    }
    let r = match read_children(world, node) {
        Some(set) => set.to_vec(),
        None => {
            proof {
                lemma_ascending_empty();
                assert(Seq::<u64>::empty().to_set() =~= Set::<u64>::empty());
            }
            Vec::new()
        },
    };
    proof {
        assert forall|i: int| 0 <= i < r@.len() implies world_nodes(*world).contains(r@[i]) by {
            assert(r@.to_set().contains(r@[i]));
        }
    }
    r
}

/// The parents of `node`, smallest first.
fn parents_of(world: &World, node: u64) -> (r: Vec<u64>)
    requires
        consistent(*world),
    ensures
        r@ == ascending(hierarchy(*world).parents_of(node)),
        lists(r@, hierarchy(*world).parents_of(node)),
        all_among(r@, world_nodes(*world)),
{
    proof {
        lemma_sets_agree(*world, node);
    }
    let r = match read_parents(world, node) {
        Some(set) => set.to_vec(),
        None => {
            proof {
                lemma_ascending_empty();
                assert(Seq::<u64>::empty().to_set() =~= Set::<u64>::empty());
            }
            Vec::new()
        },
    };
    proof {
        assert forall|i: int| 0 <= i < r@.len() implies world_nodes(*world).contains(r@[i]) by {
            assert(r@.to_set().contains(r@[i]));
        }
    }
    r
}

/// Takes all children from `parent`, and sends their events in one batch,
/// in ascending order of the children.
pub fn clear_children(world: &mut World, parent: u64)
    requires
        consistent(*old(world)),
        world_nodes(*old(world)).contains(parent),
    ensures
        consistent(*final(world)),
        hierarchy(*final(world)) == hierarchy(*old(world)).clear_children(parent),
{
    let children = children_of(world, parent);
    remove_children(parent, children.as_slice(), world);
}

/// Makes the children of `parent` exactly `children`: those that it has and
/// that are not among them leave, those that it lacks join, and the others
/// are left alone.
pub fn replace_children(world: &mut World, parent: u64, children: &[u64])
    requires
        consistent(*old(world)),
        world_nodes(*old(world)).contains(parent),
        all_among(children@, world_nodes(*old(world))),
    ensures
        consistent(*final(world)),
        hierarchy(*final(world)) == hierarchy(*old(world)).replace_children(parent, children@),
{
    let replace = collect(children);
    proof {
        lemma_sets_agree(*world, parent);
    }
    let (remove_different, insert_different) = match read_children(world, parent) {
        Some(current) => (
            listing_without(current.as_set(), &replace),
            listing_without(&replace, current.as_set()),
        ),
        None => {
            let empty: BTreeSet<u64> = BTreeSet::new();
            (listing_without(&empty, &replace), listing_without(&replace, &empty))
        },
    };
    proof {
        assert forall|i: int| 0 <= i < remove_different@.len() implies world_nodes(
            *world,
        ).contains(remove_different@[i]) by {
            assert(remove_different@.to_set().contains(remove_different@[i]));
        }
        assert forall|i: int| 0 <= i < insert_different@.len() implies world_nodes(
            *world,
        ).contains(insert_different@[i]) by {
            assert(insert_different@.to_set().contains(insert_different@[i]));
        }
    }
    remove_children(parent, remove_different.as_slice(), world);
    push_children(world, parent, insert_different.as_slice());
}

/// Moves `child` from `parent` to `new_parent`, without an event.
pub fn move_child(world: &mut World, parent: u64, new_parent: u64, child: u64)
    requires
        consistent(*old(world)),
        world_nodes(*old(world)).contains(parent),
        world_nodes(*old(world)).contains(new_parent),
        world_nodes(*old(world)).contains(child),
    ensures
        consistent(*final(world)),
        hierarchy(*final(world)) == hierarchy(*old(world)).move_child(parent, new_parent, child),
{
    unlink(world, parent, child);
    link(world, new_parent, child);
}

/// Moves each of `children` from `parent` to `new_parent`, without an event.
pub fn move_children(world: &mut World, parent: u64, new_parent: u64, children: &[u64])
    requires
        consistent(*old(world)),
        world_nodes(*old(world)).contains(parent),
        world_nodes(*old(world)).contains(new_parent),
        all_among(children@, world_nodes(*old(world))),
    ensures
        consistent(*final(world)),
        hierarchy(*final(world)) == hierarchy(*old(world)).move_children(
            parent,
            new_parent,
            children@,
        ),
{
    let ghost start = hierarchy(*old(world));
    let mut i: usize = 0;
    while i < children.len()
        invariant
            i <= children.len(),
            consistent(*world),
            world_nodes(*world) == start.nodes,
            world_events(*world) == start.events,
            world_listening(*world) == start.listening,
            start.nodes.contains(parent),
            start.nodes.contains(new_parent),
            all_among(children@, start.nodes),
            edges_of(*world) == start.edges.difference(
                fan(parent, children@.take(i as int).to_set()),
            ).union(fan(new_parent, children@.take(i as int).to_set())),
        decreases children.len() - i,
    {
        let child = children[i];
        unlink(world, parent, child);
        link(world, new_parent, child);
        proof {
            lemma_take_step(children@, i as int);
        }
        i += 1;
    }
    proof {
        assert(children@.take(i as int) =~= children@);
    }
}

/// Ends the relationship between `child` and each of `parents`, without an
/// event.
fn detach_from_each(world: &mut World, child: u64, parents: &[u64])
    requires
        consistent(*old(world)),
        world_nodes(*old(world)).contains(child),
        all_among(parents@, world_nodes(*old(world))),
    ensures
        consistent(*final(world)),
        hierarchy(*final(world)) == (Hierarchy {
            edges: hierarchy(*old(world)).edges.difference(funnel(parents@.to_set(), child)),
            ..hierarchy(*old(world))
        }),
{
    let ghost start = hierarchy(*old(world));
    let mut i: usize = 0;
    while i < parents.len()
        invariant
            i <= parents.len(),
            consistent(*world),
            world_nodes(*world) == start.nodes,
            world_events(*world) == start.events,
            world_listening(*world) == start.listening,
            start.nodes.contains(child),
            all_among(parents@, start.nodes),
            edges_of(*world) == start.edges.difference(
                funnel(parents@.take(i as int).to_set(), child),
            ),
        decreases parents.len() - i,
    {
        unlink(world, parents[i], child);
        proof {
            lemma_take_step(parents@, i as int);
        }
        i += 1;
    }
    proof {
        assert(parents@.take(i as int) =~= parents@);
    }
}

/// Takes all children from each of `nodes`, without an event.
pub fn clear_children_relation(nodes: &[u64], world: &mut World)
    requires
        consistent(*old(world)),
        all_among(nodes@, world_nodes(*old(world))),
    ensures
        consistent(*final(world)),
        hierarchy(*final(world)) == hierarchy(*old(world)).without_children_of(nodes@.to_set()),
{
    let ghost start = hierarchy(*old(world));
    let mut i: usize = 0;
    while i < nodes.len()
        invariant
            i <= nodes.len(),
            consistent(*world),
            world_nodes(*world) == start.nodes,
            world_events(*world) == start.events,
            world_listening(*world) == start.listening,
            all_among(nodes@, start.nodes),
            edges_of(*world) == start.without_children_of(nodes@.take(i as int).to_set()).edges,
        decreases nodes.len() - i,
    {
        let node = nodes[i];
        let children = children_of(world, node);
        detach_each(world, node, children.as_slice());
        proof {
            lemma_take_step(nodes@, i as int);
            assert(edges_of(*world) =~= start.without_children_of(
                nodes@.take(i + 1).to_set(),
            ).edges) by {
                assert forall|e: (u64, u64)|
                    edges_of(*world).contains(e) == start.without_children_of(
                        nodes@.take(i + 1).to_set(),
                    ).edges.contains(e) by {
                }
            }
        }
        i += 1;
    }
    proof {
        assert(nodes@.take(i as int) =~= nodes@);
    }
}

/// Takes all parents from each of `nodes`, without an event.
pub fn clear_parents_relation(nodes: &[u64], world: &mut World)
    requires
        consistent(*old(world)),
        all_among(nodes@, world_nodes(*old(world))),
    ensures
        consistent(*final(world)),
        hierarchy(*final(world)) == hierarchy(*old(world)).without_parents_of(nodes@.to_set()),
{
    let ghost start = hierarchy(*old(world));
    let mut i: usize = 0;
    while i < nodes.len()
        invariant
            i <= nodes.len(),
            consistent(*world),
            world_nodes(*world) == start.nodes,
            world_events(*world) == start.events,
            world_listening(*world) == start.listening,
            all_among(nodes@, start.nodes),
            edges_of(*world) == start.without_parents_of(nodes@.take(i as int).to_set()).edges,
        decreases nodes.len() - i,
    {
        let node = nodes[i];
        let parents = parents_of(world, node);
        detach_from_each(world, node, parents.as_slice());
        proof {
            lemma_take_step(nodes@, i as int);
            assert(edges_of(*world) =~= start.without_parents_of(
                nodes@.take(i + 1).to_set(),
            ).edges) by {
                assert forall|e: (u64, u64)|
                    edges_of(*world).contains(e) == start.without_parents_of(
                        nodes@.take(i + 1).to_set(),
                    ).edges.contains(e) by {
                }
            }
        }
        i += 1;
    }
    proof {
        assert(nodes@.take(i as int) =~= nodes@);
    }
}

/// Takes `node` out of the hierarchy and out of the world: it loses its
/// children and its parents first, without an event, and is despawned then.
pub fn dispose(world: &mut World, node: u64)
    requires
        consistent(*old(world)),
        world_nodes(*old(world)).contains(node),
    ensures
        consistent(*final(world)),
        hierarchy(*final(world)) == (Hierarchy {
            nodes: world_nodes(*final(world)),
            ..hierarchy(*old(world)).isolate(node)
        }),
        !world_nodes(*final(world)).contains(node),
        world_nodes(*old(world)).remove(node).subset_of(world_nodes(*final(world))),
{
    let mut nodes: Vec<u64> = Vec::new();
    nodes.push(node);
    proof {
        assert(nodes@[0] == node);
    }
    clear_children_relation(nodes.as_slice(), world);
    clear_parents_relation(nodes.as_slice(), world);
    let ghost bare = *world;
    proof {
        assert(edges_of(bare) =~= hierarchy(*old(world)).isolate(node).edges);
        if world_children(bare).contains_key(node) {
            let c = lemma_inhabitant(world_children(bare)[node]);
            assert(edges_of(bare).contains((node, c)));
        }
        if world_parents(bare).contains_key(node) {
            let p = lemma_inhabitant(world_parents(bare)[node]);
            assert(edges_of(bare).contains((p, node)));
        }
    }
    despawn_node(world, node);
    proof {
        assert(world_children(*world) =~= world_children(bare));
    }
}

/// Whether `node` is alive in the world.
pub fn is_alive(world: &World, node: u64) -> (r: bool)
    ensures
        r == world_nodes(*world).contains(node),
{
    node_exists(world, node)
}

/// Whether every one of `nodes` is alive in the world.
pub fn all_alive(world: &World, nodes: &[u64]) -> (r: bool)
    ensures
        r == all_among(nodes@, world_nodes(*world)),
{
    let mut i: usize = 0;
    while i < nodes.len()
        invariant
            i <= nodes.len(),
            forall|k: int| 0 <= k < i ==> world_nodes(*world).contains(#[trigger] nodes@[k]),
        decreases nodes.len() - i,
    {
        if !node_exists(world, nodes[i]) {
            return false;
        }
        i += 1;
    }
    true
}

/// Whether the world is bare: no entity is alive in it. A bare world is
/// consistent, and its hierarchy has neither a node nor an edge.
pub fn is_bare(world: &World) -> (r: bool)
    ensures
        r == world_nodes(*world).is_empty(),
        r ==> consistent(*world),
        r ==> hierarchy(*world).edges == Set::<(u64, u64)>::empty(),
{
    let r = no_node_exists(world);
    proof {
        if r {
            assert(hierarchy(*world).edges =~= Set::<(u64, u64)>::empty());
        }
    }
    r
}

/// Spawns an entity without components: a new node without relationships.
/// The hierarchy keeps its edges and its events; entities that were
/// reserved may have come to life with the new one.
pub fn spawn_node(world: &mut World) -> (r: u64)
    ensures
        !world_nodes(*old(world)).contains(r),
        world_nodes(*old(world)).insert(r).subset_of(world_nodes(*final(world))),
        hierarchy(*final(world)) == (Hierarchy {
            nodes: world_nodes(*final(world)),
            ..hierarchy(*old(world))
        }),
        consistent(*old(world)) ==> consistent(*final(world)),
{
    crate::store::spawn_node(world)
}

/// Makes `child` a child of `parent`, where every node that is named is alive; does nothing and
/// says `false` where one is not.
pub fn try_add_child(world: &mut World, parent: u64, child: u64) -> (done: bool)
    requires
        consistent(*old(world)),
    ensures
        done == (world_nodes(*old(world)).contains(parent) && world_nodes(*old(world)).contains(child)),
        done ==> consistent(*final(world)) && hierarchy(*final(world)) == hierarchy(*old(world)).attach(parent, child),
        !done ==> *final(world) == *old(world),
{
    if node_exists(world, parent) && node_exists(world, child) {
        add_child(world, parent, child);
        true
    } else {
        false
    }
}

/// Ends the relationship between `child` and `parent`, where every node that is named is alive; does nothing and
/// says `false` where one is not.
pub fn try_remove_parent(world: &mut World, child: u64, parent: u64) -> (done: bool)
    requires
        consistent(*old(world)),
    ensures
        done == (world_nodes(*old(world)).contains(parent) && world_nodes(*old(world)).contains(child)),
        done ==> consistent(*final(world)) && hierarchy(*final(world)) == hierarchy(*old(world)).detach(parent, child),
        !done ==> *final(world) == *old(world),
{
    if node_exists(world, parent) && node_exists(world, child) {
        remove_parent(world, child, parent);
        true
    } else {
        false
    }
}

/// Makes each of `children` a child of `parent`, where every node that is named is alive; does nothing and
/// says `false` where one is not.
pub fn try_push_children(world: &mut World, parent: u64, children: &[u64]) -> (done: bool)
    requires
        consistent(*old(world)),
    ensures
        done == (world_nodes(*old(world)).contains(parent) && all_among(children@, world_nodes(*old(world)))),
        done ==> consistent(*final(world)) && hierarchy(*final(world)) == hierarchy(*old(world)).attach_all(parent, children@),
        !done ==> *final(world) == *old(world),
{
    if node_exists(world, parent) && all_alive(world, children) {
        push_children(world, parent, children);
        true
    } else {
        false
    }
}

/// Ends the relationship between `parent` and each of `children`, where every node that is named is alive; does nothing and
/// says `false` where one is not.
pub fn try_remove_children(world: &mut World, parent: u64, children: &[u64]) -> (done: bool)
    requires
        consistent(*old(world)),
    ensures
        done == (world_nodes(*old(world)).contains(parent) && all_among(children@, world_nodes(*old(world)))),
        done ==> consistent(*final(world)) && hierarchy(*final(world)) == hierarchy(*old(world)).detach_all(parent, children@),
        !done ==> *final(world) == *old(world),
{
    if node_exists(world, parent) && all_alive(world, children) {
        remove_children(parent, children, world);
        true
    } else {
        false
    }
}

/// Takes all children from `parent`, where every node that is named is alive; does nothing and
/// says `false` where one is not.
pub fn try_clear_children(world: &mut World, parent: u64) -> (done: bool)
    requires
        consistent(*old(world)),
    ensures
        done == (world_nodes(*old(world)).contains(parent)),
        done ==> consistent(*final(world)) && hierarchy(*final(world)) == hierarchy(*old(world)).clear_children(parent),
        !done ==> *final(world) == *old(world),
{
    if node_exists(world, parent) {
        clear_children(world, parent);
        true
    } else {
        false
    }
}

/// Makes the children of `parent` exactly `children`, where every node that is named is alive; does nothing and
/// says `false` where one is not.
pub fn try_replace_children(world: &mut World, parent: u64, children: &[u64]) -> (done: bool)
    requires
        consistent(*old(world)),
    ensures
        done == (world_nodes(*old(world)).contains(parent) && all_among(children@, world_nodes(*old(world)))),
        done ==> consistent(*final(world)) && hierarchy(*final(world)) == hierarchy(*old(world)).replace_children(parent, children@),
        !done ==> *final(world) == *old(world),
{
    if node_exists(world, parent) && all_alive(world, children) {
        replace_children(world, parent, children);
        true
    } else {
        false
    }
}

/// Moves `child` from `parent` to `new_parent`, where every node that is named is alive; does nothing and
/// says `false` where one is not.
pub fn try_move_child(world: &mut World, parent: u64, new_parent: u64, child: u64) -> (done: bool)
    requires
        consistent(*old(world)),
    ensures
        done == (world_nodes(*old(world)).contains(parent) && world_nodes(*old(world)).contains(new_parent)
            && world_nodes(*old(world)).contains(child)),
        done ==> consistent(*final(world)) && hierarchy(*final(world)) == hierarchy(*old(world)).move_child(parent, new_parent, child),
        !done ==> *final(world) == *old(world),
{
    if node_exists(world, parent) && node_exists(world, new_parent) && node_exists(world, child) {
        move_child(world, parent, new_parent, child);
        true
    } else {
        false
    }
}

/// Moves each of `children` from `parent` to `new_parent`, where every node that is named is alive; does nothing and
/// says `false` where one is not.
pub fn try_move_children(world: &mut World, parent: u64, new_parent: u64, children: &[u64]) -> (done: bool)
    requires
        consistent(*old(world)),
    ensures
        done == (world_nodes(*old(world)).contains(parent) && world_nodes(*old(world)).contains(new_parent)
            && all_among(children@, world_nodes(*old(world)))),
        done ==> consistent(*final(world)) && hierarchy(*final(world)) == hierarchy(*old(world)).move_children(parent, new_parent, children@),
        !done ==> *final(world) == *old(world),
{
    if node_exists(world, parent) && node_exists(world, new_parent) && all_alive(world, children) {
        move_children(world, parent, new_parent, children);
        true
    } else {
        false
    }
}

/// Takes all children from each of `nodes`, where every node that is named is alive; does nothing and
/// says `false` where one is not.
pub fn try_clear_children_relation(world: &mut World, nodes: &[u64]) -> (done: bool)
    requires
        consistent(*old(world)),
    ensures
        done == (all_among(nodes@, world_nodes(*old(world)))),
        done ==> consistent(*final(world)) && hierarchy(*final(world)) == hierarchy(*old(world)).without_children_of(nodes@.to_set()),
        !done ==> *final(world) == *old(world),
{
    if all_alive(world, nodes) {
        clear_children_relation(nodes, world);
        true
    } else {
        false
    }
}

/// Takes all parents from each of `nodes`, where every node that is named is alive; does nothing and
/// says `false` where one is not.
pub fn try_clear_parents_relation(world: &mut World, nodes: &[u64]) -> (done: bool)
    requires
        consistent(*old(world)),
    ensures
        done == (all_among(nodes@, world_nodes(*old(world)))),
        done ==> consistent(*final(world)) && hierarchy(*final(world)) == hierarchy(*old(world)).without_parents_of(nodes@.to_set()),
        !done ==> *final(world) == *old(world),
{
    if all_alive(world, nodes) {
        clear_parents_relation(nodes, world);
        true
    } else {
        false
    }
}

/// Takes `node` out of the hierarchy and out of the world, where it is
/// alive; does nothing and says `false` where it is not.
pub fn try_dispose(world: &mut World, node: u64) -> (done: bool)
    requires
        consistent(*old(world)),
    ensures
        done == world_nodes(*old(world)).contains(node),
        done ==> consistent(*final(world)) && hierarchy(*final(world)) == (Hierarchy {
            nodes: world_nodes(*final(world)),
            ..hierarchy(*old(world)).isolate(node)
        }) && !world_nodes(*final(world)).contains(node) && world_nodes(*old(world)).remove(
            node,
        ).subset_of(world_nodes(*final(world))),
        !done ==> *final(world) == *old(world),
{
    if node_exists(world, node) {
        dispose(world, node);
        true
    } else {
        false
    }
}

} // verus!
