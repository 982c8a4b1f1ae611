//! What holds of the hierarchy whatever operations are made on it.
use bevy_ecs::world::World;
use crate::HierarchyEvent;
use crate::consistency::consistent;
use crate::consistency::hierarchy;
use crate::consistency::lemma_inhabited_or_empty;
use crate::consistency::lemma_sets_agree;
use crate::consistency::members;
use crate::hierarchy::Hierarchy;
use crate::hierarchy::Operation;
use crate::hierarchy::added;
use crate::hierarchy::all_among;
use crate::hierarchy::fan;
use crate::hierarchy::first_hits;
use crate::hierarchy::removed;
use crate::hierarchy::run;
use crate::ordered::ascending;
use crate::ordered::ascends;
use crate::ordered::lemma_listing_exists;
use crate::query_extension::is_path;
use crate::query_extension::reaches;
use crate::store::world_children;
use crate::store::world_nodes;
use crate::store::world_parents;
use vstd::prelude::*;

verus! {

/// Symmetry: in a consistent world `child` is among the children of `parent`
/// exactly if `parent` is among the parents of `child`. Every operation of
/// this crate takes a consistent world to a consistent world.
pub proof fn law_symmetry(w: World, parent: u64, child: u64)
    requires
        consistent(w),
    ensures
        members(world_children(w), parent).contains(child) <==> members(
            world_parents(w),
            child,
        ).contains(parent),
        hierarchy(w).children_of(parent).contains(child) <==> hierarchy(w).parents_of(
            child,
        ).contains(parent),
{
    lemma_sets_agree(w, parent);
    lemma_sets_agree(w, child);
}

/// Where it starts: a world in which no entity carries a `Children` or a
/// `Parents` component is consistent, and its hierarchy has no edge.
pub proof fn law_bare_world_is_consistent(w: World)
    requires
        world_nodes(w).finite(),
        world_children(w) == Map::<u64, Set<u64>>::empty(),
        world_parents(w) == Map::<u64, Set<u64>>::empty(),
    ensures
        consistent(w),
        hierarchy(w).edges == Set::<(u64, u64)>::empty(),
{
    assert(hierarchy(w).edges =~= Set::<(u64, u64)>::empty());
}

/// No empty component: in a consistent world a node carries a `Children`
/// component exactly if it has a child, and a `Parents` component exactly if
/// it has a parent.
pub proof fn law_no_empty_component(w: World, node: u64)
    requires
        consistent(w),
    ensures
        world_children(w).contains_key(node) <==> !hierarchy(w).children_of(node).is_empty(),
        world_parents(w).contains_key(node) <==> !hierarchy(w).parents_of(node).is_empty(),
{
    lemma_sets_agree(w, node);
    if world_children(w).contains_key(node) {
        lemma_inhabited_or_empty(world_children(w)[node]);
    }
    if world_parents(w).contains_key(node) {
        lemma_inhabited_or_empty(world_parents(w)[node]);
    }
}

/// Removing the last member removes the component: where `child` was the
/// only child of `parent` and an operation has detached it, `parent` carries
/// no `Children` component; where `parent` was the only parent of `child`,
/// `child` carries no `Parents` component.
pub proof fn law_last_member_leaves_no_component(before: World, after: World, parent: u64, child: u64)
    requires
        consistent(before),
        consistent(after),
        hierarchy(after) == hierarchy(before).detach(parent, child),
    ensures
        hierarchy(before).children_of(parent) == set![child] ==> !world_children(
            after,
        ).contains_key(parent),
        hierarchy(before).parents_of(child) == set![parent] ==> !world_parents(after).contains_key(
            child,
        ),
{
    law_no_empty_component(after, parent);
    law_no_empty_component(after, child);
    if hierarchy(before).children_of(parent) == set![child] {
        assert forall|c: u64| !hierarchy(after).children_of(parent).contains(c) by {
            if c != child && hierarchy(before).edges.contains((parent, c)) {
                assert(hierarchy(before).children_of(parent).contains(c));
            }
        }
    }
    if hierarchy(before).parents_of(child) == set![parent] {
        assert forall|p: u64| !hierarchy(after).parents_of(child).contains(p) by {
            if p != parent && hierarchy(before).edges.contains((p, child)) {
                assert(hierarchy(before).parents_of(child).contains(p));
            }
        }
    }
}

/// Idempotence of attaching: to attach a child a second time changes
/// nothing. The two calls together add the child once and, where there is a
/// channel and the child was new, send one `ChildAdded` event.
pub proof fn law_attach_idempotent(h: Hierarchy, parent: u64, child: u64)
    ensures
        h.attach(parent, child).attach(parent, child) == h.attach(parent, child),
        h.attach(parent, child).children_of(parent) == h.children_of(parent).insert(child),
        h.attach(parent, child).attach(parent, child).events == if h.listening
            && !h.children_of(parent).contains(child) {
            h.events.push(HierarchyEvent::ChildAdded { child, parent })
        } else {
            h.events
        },
{
}

/// Idempotence of detaching: to detach a child a second time changes
/// nothing, and to detach what is no child changes nothing at all.
pub proof fn law_detach_idempotent(h: Hierarchy, parent: u64, child: u64)
    ensures
        h.detach(parent, child).detach(parent, child) == h.detach(parent, child),
        !h.children_of(parent).contains(child) ==> h.detach(parent, child) == h,
        h.detach(parent, child).children_of(parent) == h.children_of(parent).remove(child),
{
}

/// The children and the parents of a node in a well-formed hierarchy are
/// finite sets, so each has its ascending listing.
pub proof fn lemma_relatives_finite(h: Hierarchy, node: u64)
    requires
        h.well_formed(),
    ensures
        h.children_of(node).finite(),
        h.parents_of(node).finite(),
{
    vstd::set_lib::lemma_set_subset_finite(h.nodes, h.children_of(node));
    vstd::set_lib::lemma_set_subset_finite(h.nodes, h.parents_of(node));
}

/// Of an ascending sequence whose members `held` all has (`inside`) or all
/// lacks (`!inside`), `first_hits` keeps everything.
pub proof fn lemma_first_hits_all(ids: Seq<u64>, held: Set<u64>, inside: bool)
    requires
        ascends(ids),
        forall|i: int| 0 <= i < ids.len() ==> held.contains(#[trigger] ids[i]) == inside,
    ensures
        first_hits(ids, held, inside) == ids,
    decreases ids.len(),
{
    if ids.len() > 0 {
        let shorter = ids.drop_last();
        lemma_first_hits_all(shorter, held, inside);
        assert(!shorter.contains(ids.last()));
    }
}

/// Precision of replacing: afterwards the children of `parent` are exactly
/// `children`. A child that was one and stays one is not touched: no event
/// names it and the edge stays. One that is not wanted any more loses
/// `parent`, one that is new gains it, and no other edge changes. The events
/// are those of the children that left, in ascending order, and then those of
/// the children that joined, in ascending order.
pub proof fn law_replace_precision(h: Hierarchy, parent: u64, children: Seq<u64>)
    requires
        h.well_formed(),
    ensures
        h.replace_children(parent, children).children_of(parent) == children.to_set(),
        forall|p: u64, c: u64|
            p != parent ==> (#[trigger] h.replace_children(parent, children).edges.contains((p, c))
                <==> h.edges.contains((p, c))),
        forall|c: u64| #[trigger]
            children.to_set().contains(c) ==> h.replace_children(parent, children).parents_of(c)
                == h.parents_of(c).insert(parent),
        forall|c: u64|
            !children.to_set().contains(c) ==> #[trigger] h.replace_children(
                parent,
                children,
            ).parents_of(c) == h.parents_of(c).remove(parent),
        h.replace_children(parent, children).nodes == h.nodes,
        h.replace_children(parent, children).listening == h.listening,
        h.replace_children(parent, children).events == if h.listening {
            h.events + removed(
                ascending(h.children_of(parent).difference(children.to_set())),
                parent,
            ) + added(ascending(children.to_set().difference(h.children_of(parent))), parent)
        } else {
            h.events
        },
{
    let held = h.children_of(parent);
    let wanted = children.to_set();
    let gone = held.difference(wanted);
    let come = wanted.difference(held);
    lemma_relatives_finite(h, parent);
    vstd::seq_lib::seq_to_set_is_finite(children);
    lemma_listing_exists(gone);
    lemma_listing_exists(come);
    let leaving = ascending(gone);
    let joining = ascending(come);
    let mid = h.detach_all(parent, leaving);
    let r = h.replace_children(parent, children);
    assert forall|i: int| 0 <= i < leaving.len() implies held.contains(#[trigger] leaving[i]) by {
        assert(leaving.to_set().contains(leaving[i]));
    }
    lemma_first_hits_all(leaving, held, true);
    assert forall|i: int| 0 <= i < joining.len() implies !mid.children_of(parent).contains(
        #[trigger] joining[i],
    ) by {
        assert(joining.to_set().contains(joining[i]));
    }
    lemma_first_hits_all(joining, mid.children_of(parent), false);
    assert forall|c: u64| #[trigger] wanted.contains(c) implies r.parents_of(c) == h.parents_of(
        c,
    ).insert(parent) by {
    }
    assert forall|c: u64| !wanted.contains(c) implies #[trigger] r.parents_of(c) == h.parents_of(
        c,
    ).remove(parent) by {
    }
}

/// Clearing clears: afterwards `parent` has no child, each node that was one
/// has lost `parent` and nothing else, no other edge has changed, and the
/// events are those of the children in ascending order.
pub proof fn law_clear_children(h: Hierarchy, parent: u64)
    requires
        h.well_formed(),
    ensures
        h.clear_children(parent).children_of(parent) == Set::<u64>::empty(),
        forall|p: u64, c: u64|
            p != parent ==> (#[trigger] h.clear_children(parent).edges.contains((p, c))
                <==> h.edges.contains((p, c))),
        forall|c: u64| #[trigger]
            h.clear_children(parent).parents_of(c) == h.parents_of(c).remove(parent),
        h.clear_children(parent).nodes == h.nodes,
        h.clear_children(parent).listening == h.listening,
        h.clear_children(parent).events == if h.listening {
            h.events + removed(ascending(h.children_of(parent)), parent)
        } else {
            h.events
        },
{
    let held = h.children_of(parent);
    lemma_relatives_finite(h, parent);
    lemma_listing_exists(held);
    let leaving = ascending(held);
    assert forall|i: int| 0 <= i < leaving.len() implies held.contains(#[trigger] leaving[i]) by {
    }
    lemma_first_hits_all(leaving, held, true);
    let r = h.clear_children(parent);
    assert forall|c: u64| #[trigger] r.parents_of(c) == h.parents_of(c).remove(parent) by {
    }
}

/// The mirror of the walks: in a consistent world `to` can be reached from
/// `from` over `Children` components exactly if `from` can be reached from
/// `to` over `Parents` components. So the descendants of a node are the nodes
/// that have it among their ancestors.
pub proof fn law_ancestor_mirror(w: World, from: u64, to: u64)
    requires
        consistent(w),
    ensures
        reaches(world_children(w), from, to) <==> reaches(world_parents(w), to, from),
{
    if reaches(world_children(w), from, to) {
        let nodes = choose|nodes: Seq<u64>|
            is_path(world_children(w), nodes) && nodes.len() >= 2 && nodes[0] == from
                && #[trigger] nodes.last() == to;
        lemma_reversed_path(w, nodes);
        assert(nodes.reverse().last() == from);
    }
    if reaches(world_parents(w), to, from) {
        let nodes = choose|nodes: Seq<u64>|
            is_path(world_parents(w), nodes) && nodes.len() >= 2 && nodes[0] == to
                && #[trigger] nodes.last() == from;
        lemma_reversed_path(w, nodes);
        assert(nodes.reverse().last() == to);
    }
}

/// A walk down the `Children` components is, read backwards, a walk up the
/// `Parents` components, and the other way round.
proof fn lemma_reversed_path(w: World, nodes: Seq<u64>)
    requires
        consistent(w),
    ensures
        is_path(world_children(w), nodes) <==> is_path(world_parents(w), nodes.reverse()),
{
    let back = nodes.reverse();
    let n = nodes.len() as int;
    if is_path(world_children(w), nodes) {
        assert forall|i: int| 0 <= i < back.len() - 1 implies members(
            world_parents(w),
            #[trigger] back[i],
        ).contains(back[i + 1]) by {
            let j = n - 2 - i;
            law_symmetry(w, nodes[j], nodes[j + 1]);
        }
    }
    if is_path(world_parents(w), back) {
        assert forall|i: int| 0 <= i < nodes.len() - 1 implies members(
            world_children(w),
            #[trigger] nodes[i],
        ).contains(nodes[i + 1]) by {
            let j = n - 2 - i;
            assert(back[j] == nodes[i + 1]);
            law_symmetry(w, nodes[i], nodes[i + 1]);
        }
    }
}

/// After `child` was attached to `parent`, `parent` is an ancestor of
/// `child`, and `child` is an ancestor of each of its descendants.
pub proof fn law_attached_parent_is_ancestor(
    before: World,
    after: World,
    parent: u64,
    child: u64,
    descendant: u64,
)
    requires
        consistent(after),
        hierarchy(after) == hierarchy(before).attach(parent, child),
    ensures
        reaches(world_parents(after), child, parent),
        reaches(world_children(after), child, descendant) ==> reaches(
            world_parents(after),
            descendant,
            child,
        ),
{
    law_symmetry(after, parent, child);
    crate::query_extension::lemma_edge_reaches(world_parents(after), child, parent);
    law_ancestor_mirror(after, child, descendant);
}

/// Every operation keeps the nodes, and takes a well-formed hierarchy to a
/// well-formed one.
pub proof fn law_outcome_well_formed(h: Hierarchy, op: Operation)
    requires
        h.well_formed(),
        op.ready(h),
    ensures
        op.outcome(h).well_formed(),
        op.outcome(h).nodes == h.nodes,
        op.outcome(h).listening == h.listening,
{
    match op {
        Operation::PushChildren { parent, children } => {
            lemma_seq_members_among(children, h.nodes);
        },
        Operation::MoveChildren { parent, children, new_parent } => {
            lemma_seq_members_among(children, h.nodes);
        },
        Operation::ReplaceChildren { parent, children } => {
            lemma_seq_members_among(children, h.nodes);
            law_replace_precision(h, parent, children);
            let r = h.replace_children(parent, children);
            assert forall|p: u64, c: u64| #[trigger] r.edges.contains((p, c)) implies h.nodes.contains(
                p,
            ) && h.nodes.contains(c) by {
            }
        },
        _ => {},
    }
}

/// Symmetry over any number of operations: whatever operations are made one
/// after the other on nodes that exist, the hierarchy stays well formed and
/// keeps its nodes.
pub proof fn law_operations_keep_well_formed(h: Hierarchy, ops: Seq<Operation>)
    requires
        h.well_formed(),
        forall|i: int| 0 <= i < ops.len() ==> (#[trigger] ops[i]).ready(h),
    ensures
        run(h, ops).well_formed(),
        run(h, ops).nodes == h.nodes,
        run(h, ops).listening == h.listening,
    decreases ops.len(),
{
    if ops.len() > 0 {
        let earlier = ops.drop_last();
        assert forall|i: int| 0 <= i < earlier.len() implies (#[trigger] earlier[i]).ready(h) by {
        }
        law_operations_keep_well_formed(h, earlier);
        let op = ops[ops.len() - 1];
        law_outcome_well_formed(run(h, earlier), op);
    }
}

/// A batch is its members in turn: to attach all of `children` at once is to
/// attach them one after the other, in the edges and in the events.
pub proof fn law_attach_all_is_each(h: Hierarchy, parent: u64, children: Seq<u64>)
    ensures
        h.attach_all(parent, children) == h.attach_each(parent, children),
    decreases children.len(),
{
    let held = h.children_of(parent);
    if children.len() == 0 {
        assert(h.edges.union(fan(parent, children.to_set())) =~= h.edges);
    } else {
        let earlier = children.drop_last();
        let child = children.last();
        law_attach_all_is_each(h, parent, earlier);
        let mid = h.attach_all(parent, earlier);
        assert(children =~= earlier.push(child));
        assert forall|x: u64| children.contains(x) <==> earlier.contains(x) || x == child by {
            vstd::seq_lib::lemma_seq_contains_after_push(earlier, child, x);
        }
        assert(mid.edges.insert((parent, child)) =~= h.edges.union(
            fan(parent, children.to_set()),
        ));
        let before = first_hits(earlier, held, false);
        if !mid.edges.contains((parent, child)) {
            if h.listening {
                assert(h.events + added(before.push(child), parent) =~= (h.events + added(
                    before,
                    parent,
                )) + added(seq![child], parent));
            }
        } else {
            assert(mid.edges.insert((parent, child)) =~= mid.edges);
        }
    }
}

/// A batch is its members in turn: to detach all of `children` at once is to
/// detach them one after the other, in the edges and in the events.
pub proof fn law_detach_all_is_each(h: Hierarchy, parent: u64, children: Seq<u64>)
    ensures
        h.detach_all(parent, children) == h.detach_each(parent, children),
    decreases children.len(),
{
    let held = h.children_of(parent);
    if children.len() == 0 {
        assert(h.edges.difference(fan(parent, children.to_set())) =~= h.edges);
    } else {
        let earlier = children.drop_last();
        let child = children.last();
        law_detach_all_is_each(h, parent, earlier);
        let mid = h.detach_all(parent, earlier);
        assert(children =~= earlier.push(child));
        assert forall|x: u64| children.contains(x) <==> earlier.contains(x) || x == child by {
            vstd::seq_lib::lemma_seq_contains_after_push(earlier, child, x);
        }
        assert(mid.edges.remove((parent, child)) =~= h.edges.difference(
            fan(parent, children.to_set()),
        ));
        let before = first_hits(earlier, held, true);
        if mid.edges.contains((parent, child)) {
            if h.listening {
                assert(h.events + removed(before.push(child), parent) =~= (h.events + removed(
                    before,
                    parent,
                )) + removed(seq![child], parent));
            }
        } else {
            assert(mid.edges.remove((parent, child)) =~= mid.edges);
        }
    }
}

/// The members of the set of a sequence are the elements of the sequence.
proof fn lemma_seq_members_among(ids: Seq<u64>, nodes: Set<u64>)
    requires
        all_among(ids, nodes),
    ensures
        ids.to_set().subset_of(nodes),
{
    assert forall|x: u64| ids.to_set().contains(x) implies nodes.contains(x) by {
    }
}

} // verus!
