//! The two relationship components that a node can carry.
pub mod children;
pub mod parents;

use bevy_ecs::component::TableStorage;
use vstd::prelude::*;

verus! {

/// `bevy_ecs::component::TableStorage`, the marker that names the storage of
/// both components.
#[verifier::external_type_specification]
#[verifier::external_body]
pub struct ExTableStorage(TableStorage);

} // verus!
