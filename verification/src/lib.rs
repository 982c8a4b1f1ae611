//! A multi-parent hierarchy over the entities of a `bevy_ecs` world.
//!
//! Every node may have any number of parents and any number of children, so
//! the relationships form a directed graph rather than a tree. Each node
//! carries its direct children in a [`Children`] component and its direct
//! parents in a [`Parents`] component; the operations of this crate keep the
//! two sides in agreement and never leave an empty component behind.
//!
//! Node identifiers are the 64-bit patterns of `bevy_ecs` entities
//! (`Entity::to_bits`), and the sets are ordered by that number.
//!
//! # How to reach the operations
//!
//! - At once, with exclusive access to the world: the methods of
//!   [`BuildWorldChildren`] on an `EntityMut`, or the functions of
//!   [`operations`] on the world itself. Each function there has a twin
//!   whose name begins with `try_`, which tests first that the nodes are
//!   alive and does nothing where one is not.
//! - Later, through a command buffer: the methods of [`BuildChildren`] on
//!   `EntityCommands`, each of which adds one of the commands [`AddChild`],
//!   [`MoveChild`], [`PushChildren`], [`MoveChildren`], [`RemoveChildren`],
//!   [`ClearChildren`], [`ReplaceChildren`] and [`RemoveParent`].
//! - [`HierarchyQueryExt`] walks the descendants and the ancestors of a node.
//!
//! A change is announced by a [`HierarchyEvent`] where the world has an
//! `Events<HierarchyEvent>` resource, and is silent where it has none.
//!
//! # What is proved
//!
//! The crate is verified with Verus. [`hierarchy`] holds the mathematical
//! model, a graph of nodes and edges with the events sent so far, and
//! [`consistency`] says when a world stands for such a graph. The contract
//! of each operation gives the graph after it in terms of the graph before
//! it, and [`laws`] holds what follows for every sequence of operations. An
//! operation asks for a consistent world in which the nodes that it names
//! are alive, and leaves a consistent world.
//!
//! The calls into `bevy_ecs` are gathered in [`store`]; what is assumed of
//! them is stated there. The one other assumption is that of
//! `BTreeSet::pop_first` in [`ordered`].
pub mod child_builder;
pub mod components;
pub mod consistency;
pub mod hierarchy;
pub mod laws;
pub mod operations;
pub mod ordered;
pub mod prelude;
pub mod query_extension;
pub mod store;

pub use child_builder::AddChild;
pub use child_builder::BuildChildren;
pub use child_builder::BuildWorldChildren;
pub use child_builder::ChildBuilder;
pub use child_builder::ClearChildren;
pub use child_builder::MoveChild;
pub use child_builder::MoveChildren;
pub use child_builder::PushChildren;
pub use child_builder::RemoveChildren;
pub use child_builder::RemoveParent;
pub use child_builder::ReplaceChildren;
pub use child_builder::WorldChildBuilder;
pub use components::children::Children;
pub use components::parents::Parents;
pub use query_extension::AncestorIter;
pub use query_extension::DescendantIter;
pub use query_extension::Frontier;
pub use query_extension::HierarchyQueryExt;

use bevy_ecs::event::Event;
use vstd::prelude::*;

verus! {

/// A change of the hierarchy, as it is sent to the world's event channel.
#[derive(Debug, Clone, Copy, PartialEq, Eq, Structural)]
pub enum HierarchyEvent {
    /// `child` became a child of `parent`.
    ChildAdded { child: u64, parent: u64 },
    /// `child` stopped being a child of `parent`.
    ChildRemoved { child: u64, parent: u64 },
    /// `child` left `previous_parent` for `new_parent`.
    ChildMoved { child: u64, previous_parent: u64, new_parent: u64 },
}

impl Event for HierarchyEvent {

}

} // verus!
