//! The hierarchy as a mathematical graph: nodes, edges from parents to
//! children, and the events that changes send. The operations of this crate
//! are stated over this model.
use crate::HierarchyEvent;
use crate::ordered::ascending;
use vstd::prelude::*;

verus! {

/// A hierarchy: the nodes, the edges between them as pairs of a parent and
/// one of its children, and the event channel.
pub struct Hierarchy {
    /// The nodes that exist.
    pub nodes: Set<u64>,
    /// The pairs `(parent, child)` of the relationships that hold.
    pub edges: Set<(u64, u64)>,
    /// What the event channel holds, oldest first.
    pub events: Seq<HierarchyEvent>,
    /// Whether there is an event channel. Without one, events are dropped.
    pub listening: bool,
}

/// The edges from each of `parents` to `child`.
pub open spec fn funnel(parents: Set<u64>, child: u64) -> Set<(u64, u64)> {
    Set::new(|e: (u64, u64)| e.1 == child && parents.contains(e.0))
}

/// The edges from `parent` to each of `children`.
pub open spec fn fan(parent: u64, children: Set<u64>) -> Set<(u64, u64)> {
    Set::new(|e: (u64, u64)| e.0 == parent && children.contains(e.1))
}

/// The members of `ids` that `held` has (`inside`) or lacks (`!inside`), each
/// at its first place in `ids` only, in the order of `ids`.
pub open spec fn first_hits(ids: Seq<u64>, held: Set<u64>, inside: bool) -> Seq<u64>
    decreases ids.len(),
{
    if ids.len() == 0 {
        Seq::empty()
    } else {
        let before = first_hits(ids.drop_last(), held, inside);
        if held.contains(ids.last()) == inside && !ids.drop_last().contains(ids.last()) {
            before.push(ids.last())
        } else {
            before
        }
    }
}

/// One `ChildAdded` event for each of `children`, in their order.
pub open spec fn added(children: Seq<u64>, parent: u64) -> Seq<HierarchyEvent> {
    children.map_values(|child: u64| HierarchyEvent::ChildAdded { child, parent })
}

/// One `ChildRemoved` event for each of `children`, in their order.
pub open spec fn removed(children: Seq<u64>, parent: u64) -> Seq<HierarchyEvent> {
    children.map_values(|child: u64| HierarchyEvent::ChildRemoved { child, parent })
}

impl Hierarchy {
    /// The direct children of `parent`.
    pub open spec fn children_of(self, parent: u64) -> Set<u64> {
        Set::new(|child: u64| self.edges.contains((parent, child)))
    }

    /// The direct parents of `child`.
    pub open spec fn parents_of(self, child: u64) -> Set<u64> {
        Set::new(|parent: u64| self.edges.contains((parent, child)))
    }

    /// Every edge joins two nodes that exist.
    pub open spec fn well_formed(self) -> bool {
        &&& self.nodes.finite()
        &&& forall|p: u64, c: u64| #[trigger]
            self.edges.contains((p, c)) ==> self.nodes.contains(p) && self.nodes.contains(c)
    }

    /// The hierarchy after `events` were sent: they reach the channel where
    /// there is one.
    pub open spec fn emit(self, events: Seq<HierarchyEvent>) -> Hierarchy {
        if self.listening {
            Hierarchy { events: self.events + events, ..self }
        } else {
            self
        }
    }

    /// The hierarchy with the edge from `parent` to `child`, and no event.
    pub open spec fn link(self, parent: u64, child: u64) -> Hierarchy {
        Hierarchy { edges: self.edges.insert((parent, child)), ..self }
    }

    /// The hierarchy without the edge from `parent` to `child`, and no event.
    pub open spec fn unlink(self, parent: u64, child: u64) -> Hierarchy {
        Hierarchy { edges: self.edges.remove((parent, child)), ..self }
    }

    /// `child` becomes a child of `parent`. Where it is one already nothing
    /// changes; else one `ChildAdded` event is sent.
    pub open spec fn attach(self, parent: u64, child: u64) -> Hierarchy {
        if self.edges.contains((parent, child)) {
            self
        } else {
            self.link(parent, child).emit(added(seq![child], parent))
        }
    }

    /// `child` stops being a child of `parent`. Where it is none nothing
    /// changes; else one `ChildRemoved` event is sent.
    pub open spec fn detach(self, parent: u64, child: u64) -> Hierarchy {
        if self.edges.contains((parent, child)) {
            self.unlink(parent, child).emit(removed(seq![child], parent))
        } else {
            self
        }
    }

    /// All of `children` become children of `parent`. One `ChildAdded` event
    /// is sent for each that was none before, in the order of `children`.
    pub open spec fn attach_all(self, parent: u64, children: Seq<u64>) -> Hierarchy {
        Hierarchy { edges: self.edges.union(fan(parent, children.to_set())), ..self }.emit(
            added(first_hits(children, self.children_of(parent), false), parent),
        )
    }

    /// All of `children` stop being children of `parent`. One `ChildRemoved`
    /// event is sent for each that was one, in the order of `children`.
    pub open spec fn detach_all(self, parent: u64, children: Seq<u64>) -> Hierarchy {
        Hierarchy { edges: self.edges.difference(fan(parent, children.to_set())), ..self }.emit(
            removed(first_hits(children, self.children_of(parent), true), parent),
        )
    }

    /// `parent` loses all its children, with one `ChildRemoved` event for
    /// each, in ascending order of the children.
    pub open spec fn clear_children(self, parent: u64) -> Hierarchy {
        self.detach_all(parent, ascending(self.children_of(parent)))
    }

    /// The children of `parent` become exactly `children`. Those that it had
    /// and that are not wanted leave first, in ascending order, then those
    /// that it lacked join, in ascending order; a child that it had and keeps
    /// is not touched.
    pub open spec fn replace_children(self, parent: u64, children: Seq<u64>) -> Hierarchy {
        self.detach_all(
            parent,
            ascending(self.children_of(parent).difference(children.to_set())),
        ).attach_all(parent, ascending(children.to_set().difference(self.children_of(parent))))
    }

    /// `child` leaves `parent` and joins `new_parent`. No event is sent.
    pub open spec fn move_child(self, parent: u64, new_parent: u64, child: u64) -> Hierarchy {
        Hierarchy { edges: self.edges.remove((parent, child)).insert((new_parent, child)), ..self }
    }

    /// All of `children` leave `parent` and join `new_parent`. No event is
    /// sent.
    pub open spec fn move_children(
        self,
        parent: u64,
        new_parent: u64,
        children: Seq<u64>,
    ) -> Hierarchy {
        Hierarchy {
            edges: self.edges.difference(fan(parent, children.to_set())).union(
                fan(new_parent, children.to_set()),
            ),
            ..self
        }
    }

    /// `node` loses all its children and all its parents. No event is sent.
    pub open spec fn isolate(self, node: u64) -> Hierarchy {
        Hierarchy {
            edges: self.edges.filter(|e: (u64, u64)| e.0 != node && e.1 != node),
            ..self
        }
    }

    /// Each of `children` becomes a child of `parent`, one after the other.
    pub open spec fn attach_each(self, parent: u64, children: Seq<u64>) -> Hierarchy
        decreases children.len(),
    {
        if children.len() == 0 {
            self
        } else {
            self.attach_each(parent, children.drop_last()).attach(parent, children.last())
        }
    }

    /// Each of `children` stops being a child of `parent`, one after the
    /// other.
    pub open spec fn detach_each(self, parent: u64, children: Seq<u64>) -> Hierarchy
        decreases children.len(),
    {
        if children.len() == 0 {
            self
        } else {
            self.detach_each(parent, children.drop_last()).detach(parent, children.last())
        }
    }

    /// Each of `nodes` loses all its children. No event is sent.
    pub open spec fn without_children_of(self, nodes: Set<u64>) -> Hierarchy {
        Hierarchy { edges: self.edges.filter(|e: (u64, u64)| !nodes.contains(e.0)), ..self }
    }

    /// Each of `nodes` loses all its parents. No event is sent.
    pub open spec fn without_parents_of(self, nodes: Set<u64>) -> Hierarchy {
        Hierarchy { edges: self.edges.filter(|e: (u64, u64)| !nodes.contains(e.1)), ..self }
    }
}

/// Every one of `ids` is among `nodes`.
pub open spec fn all_among(ids: Seq<u64>, nodes: Set<u64>) -> bool {
    forall|i: int| 0 <= i < ids.len() ==> nodes.contains(#[trigger] ids[i])
}

/// A change of the hierarchy as a value: what a command stands for.
pub enum Operation {
    /// `child` becomes a child of `parent`.
    AddChild { parent: u64, child: u64 },
    /// `child` moves from `parent` to `new_parent`.
    MoveChild { parent: u64, child: u64, new_parent: u64 },
    /// All of `children` become children of `parent`.
    PushChildren { parent: u64, children: Seq<u64> },
    /// All of `children` move from `parent` to `new_parent`.
    MoveChildren { parent: u64, children: Seq<u64>, new_parent: u64 },
    /// All of `children` stop being children of `parent`.
    RemoveChildren { parent: u64, children: Seq<u64> },
    /// `parent` loses all its children.
    ClearChildren { parent: u64 },
    /// The children of `parent` become exactly `children`.
    ReplaceChildren { parent: u64, children: Seq<u64> },
    /// `child` stops being a child of `parent`.
    RemoveParent { child: u64, parent: u64 },
}

impl Operation {
    /// Every node that the operation names exists in `h`.
    pub open spec fn ready(self, h: Hierarchy) -> bool {
        match self {
            Operation::AddChild { parent, child } => h.nodes.contains(parent) && h.nodes.contains(
                child,
            ),
            Operation::MoveChild { parent, child, new_parent } => h.nodes.contains(parent)
                && h.nodes.contains(child) && h.nodes.contains(new_parent),
            Operation::PushChildren { parent, children } => h.nodes.contains(parent) && all_among(
                children,
                h.nodes,
            ),
            Operation::MoveChildren { parent, children, new_parent } => h.nodes.contains(parent)
                && h.nodes.contains(new_parent) && all_among(children, h.nodes),
            Operation::RemoveChildren { parent, children } => h.nodes.contains(parent)
                && all_among(children, h.nodes),
            Operation::ClearChildren { parent } => h.nodes.contains(parent),
            Operation::ReplaceChildren { parent, children } => h.nodes.contains(parent)
                && all_among(children, h.nodes),
            Operation::RemoveParent { child, parent } => h.nodes.contains(parent)
                && h.nodes.contains(child),
        }
    }

    /// The hierarchy that the operation makes of `h`.
    pub open spec fn outcome(self, h: Hierarchy) -> Hierarchy {
        match self {
            Operation::AddChild { parent, child } => h.attach(parent, child),
            Operation::MoveChild { parent, child, new_parent } => h.move_child(
                parent,
                new_parent,
                child,
            ),
            Operation::PushChildren { parent, children } => h.attach_all(parent, children),
            Operation::MoveChildren { parent, children, new_parent } => h.move_children(
                parent,
                new_parent,
                children,
            ),
            Operation::RemoveChildren { parent, children } => h.detach_all(parent, children),
            Operation::ClearChildren { parent } => h.clear_children(parent),
            Operation::ReplaceChildren { parent, children } => h.replace_children(
                parent,
                children,
            ),
            Operation::RemoveParent { child, parent } => h.detach(parent, child),
        }
    }
}

/// The hierarchy that `ops` make of `h`, one after the other.
pub open spec fn run(h: Hierarchy, ops: Seq<Operation>) -> Hierarchy
    decreases ops.len(),
{
    if ops.len() == 0 {
        h
    } else {
        ops.last().outcome(run(h, ops.drop_last()))
    }
}

/// What the first `i + 1` of `ids` are, in terms of the first `i`.
pub proof fn lemma_take_step(ids: Seq<u64>, i: int)
    requires
        0 <= i < ids.len(),
    ensures
        ids.take(i + 1) == ids.take(i).push(ids[i]),
        ids.take(i + 1).drop_last() == ids.take(i),
        ids.take(i + 1).last() == ids[i],
        forall|x: u64| ids.take(i + 1).contains(x) <==> ids.take(i).contains(x) || x == ids[i],
        ids.take(i + 1).to_set() == ids.take(i).to_set().insert(ids[i]),
{
    let shorter = ids.take(i);
    let longer = ids.take(i + 1);
    assert forall|x: u64| longer.contains(x) <==> shorter.contains(x) || x == ids[i] by {
        if x == ids[i] {
            assert(longer[i] == x);
        }
    }
}

/// What `first_hits` makes of the first `i + 1` of `ids`, in terms of the
/// first `i`.
pub proof fn lemma_first_hits_step(ids: Seq<u64>, i: int, held: Set<u64>, inside: bool)
    requires
        0 <= i < ids.len(),
    ensures
        first_hits(ids.take(i + 1), held, inside) == if held.contains(ids[i]) == inside
            && !ids.take(i).contains(ids[i]) {
            first_hits(ids.take(i), held, inside).push(ids[i])
        } else {
            first_hits(ids.take(i), held, inside)
        },
{
    lemma_take_step(ids, i);
}

} // verus!
