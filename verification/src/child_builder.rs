//! The commands that defer the operations on the hierarchy, and the
//! builders and traits through which the operations are reached.
use bevy_ecs::bundle::Bundle;
use bevy_ecs::component::Component;
use bevy_ecs::system::Command;
use bevy_ecs::system::Commands;
use bevy_ecs::system::EntityCommands;
use bevy_ecs::world::EntityMut;
use bevy_ecs::world::World;
use crate::consistency::consistent;
use crate::consistency::hierarchy;
use crate::hierarchy::Hierarchy;
use crate::hierarchy::Operation;
use crate::hierarchy::all_among;
use crate::operations::add_child;
use crate::operations::clear_children;
use crate::operations::dispose;
use crate::operations::move_child;
use crate::operations::move_children;
use crate::operations::push_children;
use crate::operations::remove_children;
use crate::operations::remove_parent;
use crate::operations::replace_children;
use crate::store::buffer;
use crate::store::buffered;
use crate::store::drop_children;
use crate::store::drop_parents;
use crate::store::enqueue;
use crate::store::enqueue_any;
use crate::store::handle_node;
use crate::store::handle_returns;
use crate::store::handle_world;
use crate::store::in_scope_build;
use crate::store::into_world;
use crate::store::node_of;
use crate::store::pending;
use crate::store::queued;
use crate::store::reserve_node;
use crate::store::reserve_node_with;
use crate::store::reserved;
use crate::store::scoped;
use crate::store::spawn_node;
use crate::store::spawn_node_with;
use crate::store::target;
use crate::store::target_of;
use crate::store::world_children;
use crate::store::world_nodes;
use vstd::prelude::*;
use vstd::slice::slice_to_vec;

verus! {

/// Command that makes `child` a child of `parent`.
#[derive(Debug)]
pub struct AddChild {
    /// The node that gains the child.
    pub parent: u64,
    /// The node that becomes a child.
    pub child: u64,
}

impl View for AddChild {
    type V = Operation;

    open spec fn view(&self) -> Operation {
        Operation::AddChild { parent: self.parent, child: self.child }
    }
}

impl Command for AddChild {
    fn apply(self, world: &mut World)
        requires
            consistent(*old(world)),
            self@.ready(hierarchy(*old(world))),
        ensures
            consistent(*final(world)),
            hierarchy(*final(world)) == self@.outcome(hierarchy(*old(world))),
    {
        add_child(world, self.parent, self.child);
    }
}

/// Command that moves `child` from `parent` to `new_parent`.
#[derive(Debug)]
pub struct MoveChild {
    /// The node that loses the child.
    pub parent: u64,
    /// The node that moves.
    pub child: u64,
    /// The node that gains the child.
    pub new_parent: u64,
}

impl View for MoveChild {
    type V = Operation;

    open spec fn view(&self) -> Operation {
        Operation::MoveChild { parent: self.parent, child: self.child, new_parent: self.new_parent }
    }
}

impl Command for MoveChild {
    fn apply(self, world: &mut World)
        requires
            consistent(*old(world)),
            self@.ready(hierarchy(*old(world))),
        ensures
            consistent(*final(world)),
            hierarchy(*final(world)) == self@.outcome(hierarchy(*old(world))),
    {
        move_child(world, self.parent, self.new_parent, self.child);
    }
}

/// Command that makes all of `children` children of `parent`.
#[derive(Debug)]
pub struct PushChildren {
    parent: u64,
    children: Vec<u64>,
}

impl View for PushChildren {
    type V = Operation;

    closed spec fn view(&self) -> Operation {
        Operation::PushChildren { parent: self.parent, children: self.children@ }
    }
}

impl Command for PushChildren {
    fn apply(self, world: &mut World)
        requires
            consistent(*old(world)),
            self@.ready(hierarchy(*old(world))),
        ensures
            consistent(*final(world)),
            hierarchy(*final(world)) == self@.outcome(hierarchy(*old(world))),
    {
        push_children(world, self.parent, self.children.as_slice());
    }
}

/// Command that moves all of `children` from `parent` to `new_parent`.
#[derive(Debug)]
pub struct MoveChildren {
    parent: u64,
    children: Vec<u64>,
    new_parent: u64,
}

impl View for MoveChildren {
    type V = Operation;

    closed spec fn view(&self) -> Operation {
        Operation::MoveChildren {
            parent: self.parent,
            children: self.children@,
            new_parent: self.new_parent,
        }
    }
}

impl Command for MoveChildren {
    fn apply(self, world: &mut World)
        requires
            consistent(*old(world)),
            self@.ready(hierarchy(*old(world))),
        ensures
            consistent(*final(world)),
            hierarchy(*final(world)) == self@.outcome(hierarchy(*old(world))),
    {
        move_children(world, self.parent, self.new_parent, self.children.as_slice());
    }
}

/// Command that ends the relationship between `parent` and all of
/// `children`.
pub struct RemoveChildren {
    parent: u64,
    children: Vec<u64>,
}

impl View for RemoveChildren {
    type V = Operation;

    closed spec fn view(&self) -> Operation {
        Operation::RemoveChildren { parent: self.parent, children: self.children@ }
    }
}

impl Command for RemoveChildren {
    fn apply(self, world: &mut World)
        requires
            consistent(*old(world)),
            self@.ready(hierarchy(*old(world))),
        ensures
            consistent(*final(world)),
            hierarchy(*final(world)) == self@.outcome(hierarchy(*old(world))),
    {
        remove_children(self.parent, self.children.as_slice(), world);
    }
}

/// Command that takes all children from `parent`.
pub struct ClearChildren {
    parent: u64,
}

impl View for ClearChildren {
    type V = Operation;

    closed spec fn view(&self) -> Operation {
        Operation::ClearChildren { parent: self.parent }
    }
}

impl Command for ClearChildren {
    fn apply(self, world: &mut World)
        requires
            consistent(*old(world)),
            self@.ready(hierarchy(*old(world))),
        ensures
            consistent(*final(world)),
            hierarchy(*final(world)) == self@.outcome(hierarchy(*old(world))),
    {
        clear_children(world, self.parent);
    }
}

/// Command that makes the children of `parent` exactly `children`.
pub struct ReplaceChildren {
    parent: u64,
    children: Vec<u64>,
}

impl View for ReplaceChildren {
    type V = Operation;

    closed spec fn view(&self) -> Operation {
        Operation::ReplaceChildren { parent: self.parent, children: self.children@ }
    }
}

impl Command for ReplaceChildren {
    fn apply(self, world: &mut World)
        requires
            consistent(*old(world)),
            self@.ready(hierarchy(*old(world))),
        ensures
            consistent(*final(world)),
            hierarchy(*final(world)) == self@.outcome(hierarchy(*old(world))),
    {
        replace_children(world, self.parent, self.children.as_slice());
    }
}

/// Command that ends the relationship between `child` and `parent`.
pub struct RemoveParent {
    /// The node that loses the parent.
    pub child: u64,
    /// The parent that it loses.
    pub parent: u64,
}

impl View for RemoveParent {
    type V = Operation;

    open spec fn view(&self) -> Operation {
        Operation::RemoveParent { child: self.child, parent: self.parent }
    }
}

impl Command for RemoveParent {
    fn apply(self, world: &mut World)
        requires
            consistent(*old(world)),
            self@.ready(hierarchy(*old(world))),
        ensures
            consistent(*final(world)),
            hierarchy(*final(world)) == self@.outcome(hierarchy(*old(world))),
    {
        remove_parent(world, self.child, self.parent);
    }
}

/// Spawns children of one node through a command buffer. The children are
/// collected in one `PushChildren` command, which is added to the buffer when
/// the builder is done.
pub struct ChildBuilder<'w, 's, 'a> {
    commands: &'a mut Commands<'w, 's>,
    push_children: PushChildren,
}

impl<'w, 's, 'a> ChildBuilder<'w, 's, 'a> {
    /// The node that gets the children.
    pub closed spec fn parent(&self) -> u64 {
        self.push_children.parent
    }

    /// The children spawned so far, in the order of the calls.
    pub closed spec fn children(&self) -> Seq<u64> {
        self.push_children.children@
    }

    /// What the buffer holds of the commands of this crate.
    pub closed spec fn pending(&self) -> Seq<Operation> {
        pending(*self.commands)
    }

    /// How many commands the buffer holds, those of this crate and all
    /// others.
    pub closed spec fn buffered(&self) -> nat {
        buffered(*self.commands)
    }

    /// The identifiers that are reserved for entities to come.
    pub closed spec fn reserved(&self) -> Set<u64> {
        reserved(*self.commands)
    }

    /// Spawns an entity with the components of `bundle` and notes it as a
    /// child. The result is its identifier, which was not reserved before.
    pub fn spawn<B: Bundle>(&mut self, bundle: B) -> (r: u64)
        ensures
            !old(self).reserved().contains(r),
            final(self).reserved() == old(self).reserved().insert(r),
            final(self).children() == old(self).children().push(r),
            final(self).parent() == old(self).parent(),
            final(self).pending() == old(self).pending(),
            final(self).buffered() == old(self).buffered() + 1,
    {
        let e = reserve_node_with(self.commands, bundle);
        self.push_children.children.push(e);
        e
    }

    /// Spawns an entity without components and notes it as a child. The
    /// result is its identifier, which was not reserved before.
    pub fn spawn_empty(&mut self) -> (r: u64)
        ensures
            !old(self).reserved().contains(r),
            final(self).reserved() == old(self).reserved().insert(r),
            final(self).children() == old(self).children().push(r),
            final(self).parent() == old(self).parent(),
            final(self).pending() == old(self).pending(),
            final(self).buffered() == old(self).buffered(),
    {
        let e = reserve_node(self.commands);
        self.push_children.children.push(e);
        e
    }

    /// The node that gets the children.
    pub fn parent_entity(&self) -> (r: u64)
        ensures
            r == self.parent(),
    {
        self.push_children.parent
    }

    /// Adds `command` to the end of the buffer, which holds one command more
    /// then. The commands of this crate that the buffer held stay as they
    /// were; where `command` is one of this crate it comes behind them. The
    /// children noted so far are not touched.
    pub fn add_command<C: Command + 'static>(&mut self, command: C) -> (r: &mut Self)
        ensures
            r.buffered() == old(self).buffered() + 1,
            r.reserved() == old(self).reserved(),
            old(self).pending().is_prefix_of(r.pending()),
            r.pending().len() <= old(self).pending().len() + 1,
            r.children() == old(self).children(),
            r.parent() == old(self).parent(),
            *final(r) == *final(self),
    {
        enqueue_any(self.commands, command);
        self
    }
}

/// The operations on a node through a command buffer. Each adds one command
/// to the buffer, which takes effect when the buffer is applied.
pub trait BuildChildren: Sized {
    /// The node.
    spec fn target(&self) -> u64;

    /// What the buffer holds of the commands of this crate.
    spec fn pending(&self) -> Seq<Operation>;

    /// Makes all of `children` children of this node.
    fn push_children(&mut self, children: &[u64]) -> (r: &mut Self)
        ensures
            r.pending() == old(self).pending().push(
                Operation::PushChildren { parent: old(self).target(), children: children@ },
            ),
            r.target() == old(self).target(),
            *final(r) == *final(self),
    ;

    /// Moves all of `children` from this node to `new_parent`.
    fn move_children(&mut self, new_parent: u64, children: &[u64]) -> (r: &mut Self)
        ensures
            r.pending() == old(self).pending().push(
                Operation::MoveChildren {
                    parent: old(self).target(),
                    children: children@,
                    new_parent,
                },
            ),
            r.target() == old(self).target(),
            *final(r) == *final(self),
    ;

    /// Ends the relationship between this node and all of `children`.
    fn remove_children(&mut self, children: &[u64]) -> (r: &mut Self)
        ensures
            r.pending() == old(self).pending().push(
                Operation::RemoveChildren { parent: old(self).target(), children: children@ },
            ),
            r.target() == old(self).target(),
            *final(r) == *final(self),
    ;

    /// Makes `child` a child of this node.
    fn add_child(&mut self, child: u64) -> (r: &mut Self)
        ensures
            r.pending() == old(self).pending().push(
                Operation::AddChild { parent: old(self).target(), child },
            ),
            r.target() == old(self).target(),
            *final(r) == *final(self),
    ;

    /// Moves `child` from this node to `new_parent`.
    fn move_child(&mut self, new_parent: u64, child: u64) -> (r: &mut Self)
        ensures
            r.pending() == old(self).pending().push(
                Operation::MoveChild { parent: old(self).target(), child, new_parent },
            ),
            r.target() == old(self).target(),
            *final(r) == *final(self),
    ;

    /// Takes all children from this node.
    fn clear_children(&mut self) -> (r: &mut Self)
        ensures
            r.pending() == old(self).pending().push(
                Operation::ClearChildren { parent: old(self).target() },
            ),
            r.target() == old(self).target(),
            *final(r) == *final(self),
    ;

    /// Makes the children of this node exactly `children`.
    fn replace_children(&mut self, children: &[u64]) -> (r: &mut Self)
        ensures
            r.pending() == old(self).pending().push(
                Operation::ReplaceChildren { parent: old(self).target(), children: children@ },
            ),
            r.target() == old(self).target(),
            *final(r) == *final(self),
    ;

    /// Makes this node a child of `parent`. The parents that it has stay.
    fn set_parent(&mut self, parent: u64) -> (r: &mut Self)
        ensures
            r.pending() == old(self).pending().push(
                Operation::AddChild { parent, child: old(self).target() },
            ),
            r.target() == old(self).target(),
            *final(r) == *final(self),
    ;

    /// Ends the relationship between this node and `parent`.
    fn remove_parent(&mut self, parent: u64) -> (r: &mut Self)
        ensures
            r.pending() == old(self).pending().push(
                Operation::RemoveParent { child: old(self).target(), parent },
            ),
            r.target() == old(self).target(),
            *final(r) == *final(self),
    ;

    /// Builds children of this node with a `ChildBuilder`: hands
    /// `spawn_children` a builder for this node that has noted no child yet,
    /// and when that has run adds one `PushChildren` command for the
    /// children that the builder has noted, in the order in which they were
    /// noted. That command is the last in the buffer afterwards.
    fn with_children<F: FnOnce(&mut ChildBuilder)>(&mut self, spawn_children: F) -> (r: &mut Self)
        requires
            forall|b: &mut ChildBuilder|
                b.parent() == old(self).target() && b.children().len() == 0 && b.pending() == old(
                    self,
                ).pending() ==> spawn_children.requires((b,)),
        ensures
            exists|b: &mut ChildBuilder|
                {
                    &&& b.parent() == old(self).target()
                    &&& b.children().len() == 0
                    &&& b.pending() == old(self).pending()
                    &&& #[trigger] spawn_children.ensures((b,), ())
                    &&& r.pending().len() > 0
                    &&& r.pending().last() == (Operation::PushChildren {
                        parent: old(self).target(),
                        children: final(b).children(),
                    })
                },
            r.pending().len() > 0,
            r.pending().last() matches Operation::PushChildren { parent, .. } && parent == old(
                self,
            ).target(),
            r.target() == old(self).target(),
            *final(r) == *final(self),
    ;
}

impl<'w, 's, 'a> BuildChildren for EntityCommands<'w, 's, 'a> {
    open spec fn target(&self) -> u64 {
        target_of(*self)
    }

    open spec fn pending(&self) -> Seq<Operation> {
        queued(*self)
    }

    fn push_children(&mut self, children: &[u64]) -> (r: &mut Self) {
        let parent = target(self);
        enqueue(buffer(self), PushChildren { parent, children: slice_to_vec(children) });
        self
    }

    fn move_children(&mut self, new_parent: u64, children: &[u64]) -> (r: &mut Self) {
        let parent = target(self);
        enqueue(
            buffer(self),
            MoveChildren { parent, children: slice_to_vec(children), new_parent },
        );
        self
    }

    fn remove_children(&mut self, children: &[u64]) -> (r: &mut Self) {
        let parent = target(self);
        enqueue(buffer(self), RemoveChildren { parent, children: slice_to_vec(children) });
        self
    }

    fn add_child(&mut self, child: u64) -> (r: &mut Self) {
        let parent = target(self);
        enqueue(buffer(self), AddChild { parent, child });
        self
    }

    fn move_child(&mut self, new_parent: u64, child: u64) -> (r: &mut Self) {
        let parent = target(self);
        enqueue(buffer(self), MoveChild { parent, child, new_parent });
        self
    }

    fn clear_children(&mut self) -> (r: &mut Self) {
        let parent = target(self);
        enqueue(buffer(self), ClearChildren { parent });
        self
    }

    fn replace_children(&mut self, children: &[u64]) -> (r: &mut Self) {
        let parent = target(self);
        enqueue(buffer(self), ReplaceChildren { parent, children: slice_to_vec(children) });
        self
    }

    fn set_parent(&mut self, parent: u64) -> (r: &mut Self) {
        let child = target(self);
        enqueue(buffer(self), AddChild { parent, child });
        self
    }

    fn remove_parent(&mut self, parent: u64) -> (r: &mut Self) {
        let child = target(self);
        enqueue(buffer(self), RemoveParent { child, parent });
        self
    }

    fn with_children<F: FnOnce(&mut ChildBuilder)>(&mut self, spawn_children: F) -> (r: &mut Self) {
        let parent = target(self);
        let mut builder = ChildBuilder {
            commands: buffer(self),
            push_children: PushChildren { parent, children: Vec::new() },
        };
        assert(builder.parent() == parent);
        assert(builder.children().len() == 0);
        assert(builder.pending() == queued(*old(self)));
        spawn_children(&mut builder);
        let ghost noted = builder.children();
        let children = PushChildren { parent, children: builder.push_children.children };
        enqueue(buffer(self), children);
        proof {
            assert(queued(*self).last() == (Operation::PushChildren { parent, children: noted }));
        }
        self
    }
}

/// Spawns children of one node directly in its world. Each child is attached
/// and announced as soon as it is spawned.
#[derive(Debug)]
pub struct WorldChildBuilder<'w> {
    world: &'w mut World,
    parent: u64,
}

impl<'w> WorldChildBuilder<'w> {
    /// The world that the children are spawned in.
    pub closed spec fn world(&self) -> World {
        *self.world
    }

    /// The node that gets the children.
    pub closed spec fn parent(&self) -> u64 {
        self.parent
    }

    /// Spawns an entity that carries `component` and makes it a child, with
    /// one `ChildAdded` event. Where `component` is itself a `Children` or a
    /// `Parents` it is discarded: the child starts with the one relationship.
    /// The result is its identifier.
    pub fn spawn<C: Component>(&mut self, component: C) -> (r: u64)
        requires
            consistent(old(self).world()),
            world_nodes(old(self).world()).contains(old(self).parent()),
        ensures
            consistent(final(self).world()),
            !world_nodes(old(self).world()).contains(r),
            world_nodes(old(self).world()).insert(r).subset_of(world_nodes(final(self).world())),
            hierarchy(final(self).world()) == (Hierarchy {
                nodes: world_nodes(final(self).world()),
                ..hierarchy(old(self).world()).attach(old(self).parent(), r)
            }),
            final(self).parent() == old(self).parent(),
    {
        let ghost start = *self.world;
        let entity = spawn_node_with(self.world, component);
        drop_children(self.world, entity);
        drop_parents(self.world, entity);
        proof {
            assert(world_children(*self.world) =~= world_children(start));
        }
        add_child(self.world, self.parent, entity);
        entity
    }

    /// Spawns an entity without components and makes it a child, with one
    /// `ChildAdded` event. The result is its identifier.
    pub fn spawn_empty(&mut self) -> (r: u64)
        requires
            consistent(old(self).world()),
            world_nodes(old(self).world()).contains(old(self).parent()),
        ensures
            consistent(final(self).world()),
            !world_nodes(old(self).world()).contains(r),
            world_nodes(old(self).world()).insert(r).subset_of(world_nodes(final(self).world())),
            hierarchy(final(self).world()) == (Hierarchy {
                nodes: world_nodes(final(self).world()),
                ..hierarchy(old(self).world()).attach(old(self).parent(), r)
            }),
            final(self).parent() == old(self).parent(),
    {
        let entity = spawn_node(self.world);
        add_child(self.world, self.parent, entity);
        entity
    }

    /// The node that gets the children.
    pub fn parent_entity(&self) -> (r: u64)
        ensures
            r == self.parent(),
    {
        self.parent
    }
}

/// `spawn_children` was handed `b`, a builder for the children of `parent`
/// over `world`, and has left it as its contract says.
pub open spec fn built_with<F: FnOnce(&mut WorldChildBuilder)>(
    spawn_children: F,
    b: &mut WorldChildBuilder,
    parent: u64,
    world: World,
) -> bool {
    b.parent() == parent && b.world() == world && spawn_children.ensures((b,), ())
}

/// Makes a builder for the children of `parent` over `world`, hands it to
/// `spawn_children` and returns when that has run.
pub(crate) fn build_children<F: FnOnce(&mut WorldChildBuilder)>(
    world: &mut World,
    parent: u64,
    spawn_children: F,
)
    requires
        forall|b: &mut WorldChildBuilder|
            b.parent() == parent && b.world() == *old(world) ==> spawn_children.requires((b,)),
    ensures
        exists|b: &mut WorldChildBuilder| #[trigger]
            built_with(spawn_children, b, parent, *old(world)),
{
    let mut builder = WorldChildBuilder { world, parent };
    assert(builder.parent() == parent);
    spawn_children(&mut builder);
    proof {
        let handed = choose|b: &mut WorldChildBuilder|
            b.parent() == parent && b.world() == *old(world)
                && #[trigger] spawn_children.ensures((b,), ());
        assert(built_with(spawn_children, handed, parent, *old(world)));
    }
}

/// The operations on a node through exclusive access to its world. They take
/// effect at once.
pub trait BuildWorldChildren: Sized {
    /// The world that the node lives in.
    spec fn world(&self) -> World;

    /// The node.
    spec fn node(&self) -> u64;

    /// The world as it is given back when the access to the node ends.
    spec fn given_back(&self) -> World;

    /// Builds children of this node with a `WorldChildBuilder`: hands
    /// `spawn_children` a builder for this node over its world, and returns
    /// when `spawn_children` has run.
    fn with_children<F: FnOnce(&mut WorldChildBuilder)>(&mut self, spawn_children: F) -> (r:
        &mut Self)
        requires
            forall|b: &mut WorldChildBuilder|
                b.parent() == old(self).node() && b.world() == old(self).world()
                    ==> spawn_children.requires((b,)),
        ensures
            exists|b: &mut WorldChildBuilder| #[trigger]
                built_with(spawn_children, b, old(self).node(), old(self).world()),
            r.node() == old(self).node(),
            r.given_back() == old(self).given_back(),
            *final(r) == *final(self),
    ;

    /// Moves `child` from this node to `new_parent`. No event is sent.
    fn move_child(&mut self, new_parent: u64, child: u64) -> (r: &mut Self)
        requires
            consistent(old(self).world()),
            world_nodes(old(self).world()).contains(new_parent),
            world_nodes(old(self).world()).contains(child),
        ensures
            consistent(r.world()),
            hierarchy(r.world()) == hierarchy(old(self).world()).move_child(
                old(self).node(),
                new_parent,
                child,
            ),
            r.node() == old(self).node(),
            r.given_back() == old(self).given_back(),
            *final(r) == *final(self),
    ;

    /// Makes `child` a child of this node.
    fn add_child(&mut self, child: u64) -> (r: &mut Self)
        requires
            consistent(old(self).world()),
            world_nodes(old(self).world()).contains(child),
        ensures
            consistent(r.world()),
            hierarchy(r.world()) == hierarchy(old(self).world()).attach(old(self).node(), child),
            r.node() == old(self).node(),
            r.given_back() == old(self).given_back(),
            *final(r) == *final(self),
    ;

    /// Moves all of `children` from this node to `new_parent`. No event is
    /// sent.
    fn move_children(&mut self, new_parent: u64, children: &[u64]) -> (r: &mut Self)
        requires
            consistent(old(self).world()),
            world_nodes(old(self).world()).contains(new_parent),
            all_among(children@, world_nodes(old(self).world())),
        ensures
            consistent(r.world()),
            hierarchy(r.world()) == hierarchy(old(self).world()).move_children(
                old(self).node(),
                new_parent,
                children@,
            ),
            r.node() == old(self).node(),
            r.given_back() == old(self).given_back(),
            *final(r) == *final(self),
    ;

    /// Makes all of `children` children of this node. Those that are
    /// children already are left alone.
    fn push_children(&mut self, children: &[u64]) -> (r: &mut Self)
        requires
            consistent(old(self).world()),
            all_among(children@, world_nodes(old(self).world())),
        ensures
            consistent(r.world()),
            hierarchy(r.world()) == hierarchy(old(self).world()).attach_all(
                old(self).node(),
                children@,
            ),
            r.node() == old(self).node(),
            r.given_back() == old(self).given_back(),
            *final(r) == *final(self),
    ;

    /// Ends the relationship between this node and all of `children`. Those
    /// that are no children are left alone.
    fn remove_children(&mut self, children: &[u64]) -> (r: &mut Self)
        requires
            consistent(old(self).world()),
            all_among(children@, world_nodes(old(self).world())),
        ensures
            consistent(r.world()),
            hierarchy(r.world()) == hierarchy(old(self).world()).detach_all(
                old(self).node(),
                children@,
            ),
            r.node() == old(self).node(),
            r.given_back() == old(self).given_back(),
            *final(r) == *final(self),
    ;

    /// Makes this node a child of `parent`. The parents that it has stay.
    fn set_parent(&mut self, parent: u64) -> (r: &mut Self)
        requires
            consistent(old(self).world()),
            world_nodes(old(self).world()).contains(parent),
        ensures
            consistent(r.world()),
            hierarchy(r.world()) == hierarchy(old(self).world()).attach(parent, old(self).node()),
            r.node() == old(self).node(),
            r.given_back() == old(self).given_back(),
            *final(r) == *final(self),
    ;

    /// Ends the relationship between this node and `parent`.
    fn remove_parent(&mut self, parent: u64) -> (r: &mut Self)
        requires
            consistent(old(self).world()),
            world_nodes(old(self).world()).contains(parent),
        ensures
            consistent(r.world()),
            hierarchy(r.world()) == hierarchy(old(self).world()).detach(parent, old(self).node()),
            r.node() == old(self).node(),
            r.given_back() == old(self).given_back(),
            *final(r) == *final(self),
    ;

    /// Despawns the node, after it has lost its children and its parents,
    /// without an event. The world that is given back is consistent; the
    /// node is gone from it, with every edge from it and to it, and nothing
    /// else has changed but that entities that were reserved may have come
    /// to life.
    fn clear(self)
        requires
            consistent(self.world()),
        ensures
            consistent(self.given_back()),
            hierarchy(self.given_back()) == (Hierarchy {
                nodes: world_nodes(self.given_back()),
                ..hierarchy(self.world()).isolate(self.node())
            }),
            !world_nodes(self.given_back()).contains(self.node()),
            world_nodes(self.world()).remove(self.node()).subset_of(world_nodes(self.given_back())),
    ;
}

impl<'w> BuildWorldChildren for EntityMut<'w> {
    open spec fn world(&self) -> World {
        handle_world(*self)
    }

    open spec fn node(&self) -> u64 {
        handle_node(*self)
    }

    open spec fn given_back(&self) -> World {
        handle_returns(*self)
    }

    fn with_children<F: FnOnce(&mut WorldChildBuilder)>(&mut self, spawn_children: F) -> (r:
        &mut Self) {
        in_scope_build(self, spawn_children);
        proof {
            let handed = choose|b: &mut WorldChildBuilder| #[trigger]
                built_with(
                    spawn_children,
                    b,
                    handle_node(*old(self)),
                    handle_world(*old(self)),
                );
            assert(built_with(
                spawn_children,
                handed,
                BuildWorldChildren::node(old(self)),
                BuildWorldChildren::world(old(self)),
            ));
        }
        self
    }

    fn move_child(&mut self, new_parent: u64, child: u64) -> (r: &mut Self) {
        let parent = node_of(self);
        let ghost before = handle_world(*self);
        let change = |world: &mut World|
            requires
                *old(world) == before,
            ensures
                consistent(*final(world)),
                hierarchy(*final(world)) == hierarchy(before).move_child(parent, new_parent, child),
            {
                move_child(world, parent, new_parent, child);
            };
        scoped(self, change);
        self
    }

    fn add_child(&mut self, child: u64) -> (r: &mut Self) {
        let parent = node_of(self);
        let ghost before = handle_world(*self);
        let change = |world: &mut World|
            requires
                *old(world) == before,
            ensures
                consistent(*final(world)),
                hierarchy(*final(world)) == hierarchy(before).attach(parent, child),
            {
                add_child(world, parent, child);
            };
        scoped(self, change);
        self
    }

    fn move_children(&mut self, new_parent: u64, children: &[u64]) -> (r: &mut Self) {
        let parent = node_of(self);
        let ghost before = handle_world(*self);
        let change = |world: &mut World|
            requires
                *old(world) == before,
            ensures
                consistent(*final(world)),
                hierarchy(*final(world)) == hierarchy(before).move_children(parent, new_parent, children@),
            {
                move_children(world, parent, new_parent, children);
            };
        scoped(self, change);
        self
    }

    fn push_children(&mut self, children: &[u64]) -> (r: &mut Self) {
        let parent = node_of(self);
        let ghost before = handle_world(*self);
        let change = |world: &mut World|
            requires
                *old(world) == before,
            ensures
                consistent(*final(world)),
                hierarchy(*final(world)) == hierarchy(before).attach_all(parent, children@),
            {
                push_children(world, parent, children);
            };
        scoped(self, change);
        self
    }

    fn remove_children(&mut self, children: &[u64]) -> (r: &mut Self) {
        let parent = node_of(self);
        let ghost before = handle_world(*self);
        let change = |world: &mut World|
            requires
                *old(world) == before,
            ensures
                consistent(*final(world)),
                hierarchy(*final(world)) == hierarchy(before).detach_all(parent, children@),
            {
                remove_children(parent, children, world);
            };
        scoped(self, change);
        self
    }

    fn set_parent(&mut self, parent: u64) -> (r: &mut Self) {
        let child = node_of(self);
        let ghost before = handle_world(*self);
        let change = |world: &mut World|
            requires
                *old(world) == before,
            ensures
                consistent(*final(world)),
                hierarchy(*final(world)) == hierarchy(before).attach(parent, child),
            {
                add_child(world, parent, child);
            };
        scoped(self, change);
        self
    }

    fn remove_parent(&mut self, parent: u64) -> (r: &mut Self) {
        let child = node_of(self);
        let ghost before = handle_world(*self);
        let change = |world: &mut World|
            requires
                *old(world) == before,
            ensures
                consistent(*final(world)),
                hierarchy(*final(world)) == hierarchy(before).detach(parent, child),
            {
                remove_parent(world, child, parent);
            };
        scoped(self, change);
        self
    }

    fn clear(self) {
        let node = node_of(&self);
        let world = into_world(self);
        dispose(world, node);
    }
}

} // verus!
