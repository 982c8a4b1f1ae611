//! Everything that a user of the hierarchy needs, in one import.
pub use crate::child_builder::AddChild;
pub use crate::child_builder::BuildChildren;
pub use crate::child_builder::BuildWorldChildren;
pub use crate::child_builder::ChildBuilder;
pub use crate::child_builder::ClearChildren;
pub use crate::child_builder::MoveChild;
pub use crate::child_builder::MoveChildren;
pub use crate::child_builder::PushChildren;
pub use crate::child_builder::RemoveChildren;
pub use crate::child_builder::RemoveParent;
pub use crate::child_builder::ReplaceChildren;
pub use crate::child_builder::WorldChildBuilder;
pub use crate::components::children::Children;
pub use crate::components::parents::Parents;
pub use crate::query_extension::AncestorIter;
pub use crate::query_extension::DescendantIter;
pub use crate::query_extension::HierarchyQueryExt;
pub use crate::HierarchyEvent;
