//! The calls into `bevy_ecs`, and what is taken for granted of them.
//!
//! A world, a handle to an entity and a buffer of commands are opaque to the
//! verifier. What they hold is named by functions without a body:
//! `world_nodes`, `world_children`, `world_parents`, `world_events` and
//! `world_listening` for a world; `handle_world`, `handle_node` and
//! `handle_returns` for a handle; `pending`, `buffered` and `reserved` for a
//! buffer; `queued` and `target_of` for the commands of one entity. Every
//! other function of this module makes one call into `bevy_ecs` and states
//! over those names what the call does. These contracts are read off the
//! sources of `bevy_ecs` and are not proved; everything else in this crate
//! is proved from them.
use bevy_ecs::bundle::Bundle;
use bevy_ecs::component::Component;
use bevy_ecs::entity::Entity;
use bevy_ecs::event::Events;
use bevy_ecs::system::Command;
use bevy_ecs::system::Commands;
use bevy_ecs::system::EntityCommands;
use bevy_ecs::world::EntityMut;
use bevy_ecs::world::World;
use crate::HierarchyEvent;
use crate::child_builder::WorldChildBuilder;
use crate::child_builder::build_children;
use crate::child_builder::built_with;
use crate::components::children::Children;
use crate::components::parents::Parents;
use crate::hierarchy::Operation;
use vstd::prelude::*;

verus! {

/// `bevy_ecs::world::World`, taken as it is: nothing of its inside is known
/// here but what the names below give.
#[verifier::external_type_specification]
#[verifier::external_body]
pub struct ExWorld(World);

/// The identifiers of the entities that are alive in the world.
pub uninterp spec fn world_nodes(w: World) -> Set<u64>;

/// For each entity that carries a `Children` component, the members of that
/// component.
pub uninterp spec fn world_children(w: World) -> Map<u64, Set<u64>>;

/// For each entity that carries a `Parents` component, the members of that
/// component.
pub uninterp spec fn world_parents(w: World) -> Map<u64, Set<u64>>;

/// The events that the world's `Events<HierarchyEvent>` resource holds,
/// oldest first.
pub uninterp spec fn world_events(w: World) -> Seq<HierarchyEvent>;

/// Whether the world has an `Events<HierarchyEvent>` resource.
pub uninterp spec fn world_listening(w: World) -> bool;

/// The two worlds agree on everything but their `Children` components.
pub open spec fn only_children_differ(a: World, b: World) -> bool {
    &&& world_nodes(a) == world_nodes(b)
    &&& world_parents(a) == world_parents(b)
    &&& world_events(a) == world_events(b)
    &&& world_listening(a) == world_listening(b)
}

/// The two worlds agree on everything but their `Parents` components.
pub open spec fn only_parents_differ(a: World, b: World) -> bool {
    &&& world_nodes(a) == world_nodes(b)
    &&& world_children(a) == world_children(b)
    &&& world_events(a) == world_events(b)
    &&& world_listening(a) == world_listening(b)
}

/// The two worlds agree on everything but the events that they hold.
pub open spec fn only_events_differ(a: World, b: World) -> bool {
    &&& world_nodes(a) == world_nodes(b)
    &&& world_children(a) == world_children(b)
    &&& world_parents(a) == world_parents(b)
    &&& world_listening(a) == world_listening(b)
}

/// The two worlds agree on everything but the entities that are alive.
pub open spec fn only_nodes_differ(a: World, b: World) -> bool {
    &&& world_children(a) == world_children(b)
    &&& world_parents(a) == world_parents(b)
    &&& world_events(a) == world_events(b)
    &&& world_listening(a) == world_listening(b)
}

/// `World::get_entity`, which is `Some` exactly for an entity that is alive.
#[verifier::external_body]
pub(crate) fn node_exists(world: &World, node: u64) -> (r: bool)
    ensures
        r == world_nodes(*world).contains(node),
{
    world.get_entity(Entity::from_bits(node)).is_some()
}

/// `Entities::is_empty` on `World::entities`: whether no entity is alive.
/// Components sit on entities that are alive, so a world without such
/// holds neither a `Children` nor a `Parents`.
#[verifier::external_body]
pub(crate) fn no_node_exists(world: &World) -> (r: bool)
    ensures
        r == world_nodes(*world).is_empty(),
        r ==> world_children(*world).dom().is_empty(),
        r ==> world_parents(*world).dom().is_empty(),
{
    world.entities().is_empty()
}

/// `World::get::<Children>`: the component of `node`, or `None` where the
/// entity carries none or is not alive.
#[verifier::external_body]
pub(crate) fn read_children(world: &World, node: u64) -> (r: Option<&Children>)
    ensures
        r.is_some() == world_children(*world).contains_key(node),
        r.is_some() ==> r.unwrap()@ == world_children(*world)[node],
{
    world.get::<Children>(Entity::from_bits(node))
}

/// `World::get_mut::<Children>`: the component of `node` for writing in
/// place. Whatever the caller leaves in it is what the world holds for
/// `node` afterwards; nothing else changes.
#[verifier::external_body]
pub(crate) fn edit_children(world: &mut World, node: u64) -> (r: Option<&mut Children>)
    ensures
        r.is_some() == world_children(*old(world)).contains_key(node),
        only_children_differ(*old(world), *final(world)),
        match r {
            Some(set) => {
                &&& set@ == world_children(*old(world))[node]
                &&& world_children(*final(world)) == world_children(*old(world)).insert(
                    node,
                    final(set)@,
                )
            },
            None => world_children(*final(world)) == world_children(*old(world)),
        },
{
    world.get_mut::<Children>(Entity::from_bits(node)).map(|set| set.into_inner())
}

/// `EntityMut::insert` on `World::entity_mut(node)`: gives `node` the
/// component `set`, in place of the one it may have had. `entity_mut` panics
/// for an entity that is not alive.
#[verifier::external_body]
pub(crate) fn put_children(world: &mut World, node: u64, set: Children)
    requires
        world_nodes(*old(world)).contains(node),
    ensures
        world_children(*final(world)) == world_children(*old(world)).insert(node, set@),
        only_children_differ(*old(world), *final(world)),
{
    world.entity_mut(Entity::from_bits(node)).insert(set);
}

/// `EntityMut::remove::<Children>` on `World::entity_mut(node)`: takes the
/// component off `node`, if it has one.
#[verifier::external_body]
pub(crate) fn drop_children(world: &mut World, node: u64)
    requires
        world_nodes(*old(world)).contains(node),
    ensures
        world_children(*final(world)) == world_children(*old(world)).remove(node),
        only_children_differ(*old(world), *final(world)),
{
    world.entity_mut(Entity::from_bits(node)).remove::<Children>();
}

/// `World::get::<Parents>`: the component of `node`, or `None` where the
/// entity carries none or is not alive.
#[verifier::external_body]
pub(crate) fn read_parents(world: &World, node: u64) -> (r: Option<&Parents>)
    ensures
        r.is_some() == world_parents(*world).contains_key(node),
        r.is_some() ==> r.unwrap()@ == world_parents(*world)[node],
{
    world.get::<Parents>(Entity::from_bits(node))
}

/// `World::get_mut::<Parents>`: the component of `node` for writing in
/// place. Whatever the caller leaves in it is what the world holds for
/// `node` afterwards; nothing else changes.
#[verifier::external_body]
pub(crate) fn edit_parents(world: &mut World, node: u64) -> (r: Option<&mut Parents>)
    ensures
        r.is_some() == world_parents(*old(world)).contains_key(node),
        only_parents_differ(*old(world), *final(world)),
        match r {
            Some(set) => {
                &&& set@ == world_parents(*old(world))[node]
                &&& world_parents(*final(world)) == world_parents(*old(world)).insert(
                    node,
                    final(set)@,
                )
            },
            None => world_parents(*final(world)) == world_parents(*old(world)),
        },
{
    world.get_mut::<Parents>(Entity::from_bits(node)).map(|set| set.into_inner())
}

/// `EntityMut::insert` on `World::entity_mut(node)`: gives `node` the
/// component `set`, in place of the one it may have had. `entity_mut` panics
/// for an entity that is not alive.
#[verifier::external_body]
pub(crate) fn put_parents(world: &mut World, node: u64, set: Parents)
    requires
        world_nodes(*old(world)).contains(node),
    ensures
        world_parents(*final(world)) == world_parents(*old(world)).insert(node, set@),
        only_parents_differ(*old(world), *final(world)),
{
    world.entity_mut(Entity::from_bits(node)).insert(set);
}

/// `EntityMut::remove::<Parents>` on `World::entity_mut(node)`: takes the
/// component off `node`, if it has one.
#[verifier::external_body]
pub(crate) fn drop_parents(world: &mut World, node: u64)
    requires
        world_nodes(*old(world)).contains(node),
    ensures
        world_parents(*final(world)) == world_parents(*old(world)).remove(node),
        only_parents_differ(*old(world), *final(world)),
{
    world.entity_mut(Entity::from_bits(node)).remove::<Parents>();
}

/// `World::contains_resource::<Events<HierarchyEvent>>`.
#[verifier::external_body]
pub(crate) fn has_event_channel(world: &World) -> (r: bool)
    ensures
        r == world_listening(*world),
{
    world.contains_resource::<Events<HierarchyEvent>>()
}

/// `Events::extend` on `World::resource_mut`: appends `events`, in their
/// order, to what the channel holds. `resource_mut` panics where the world
/// has no such resource.
#[verifier::external_body]
pub(crate) fn send_events(world: &mut World, events: Vec<HierarchyEvent>)
    requires
        world_listening(*old(world)),
    ensures
        world_events(*final(world)) == world_events(*old(world)) + events@,
        only_events_differ(*old(world), *final(world)),
{
    world.resource_mut::<Events<HierarchyEvent>>().extend(events);
}

/// `World::spawn_empty`: a new entity without components. The call also
/// brings entities to life that were reserved before it, so the world may
/// gain more than the one that is returned.
#[verifier::external_body]
pub(crate) fn spawn_node(world: &mut World) -> (r: u64)
    ensures
        !world_nodes(*old(world)).contains(r),
        world_nodes(*final(world)).contains(r),
        world_nodes(*old(world)).subset_of(world_nodes(*final(world))),
        world_nodes(*old(world)).finite() ==> world_nodes(*final(world)).finite(),
        only_nodes_differ(*old(world), *final(world)),
{
    world.spawn_empty().id().to_bits()
}

/// `World::despawn`: ends the entity `node` with all its components. Every
/// other entity that was alive stays so; reserved ones may come to life.
#[verifier::external_body]
pub(crate) fn despawn_node(world: &mut World, node: u64)
    ensures
        !world_nodes(*final(world)).contains(node),
        world_nodes(*old(world)).remove(node).subset_of(world_nodes(*final(world))),
        world_nodes(*old(world)).finite() ==> world_nodes(*final(world)).finite(),
        world_children(*final(world)) == world_children(*old(world)).remove(node),
        world_parents(*final(world)) == world_parents(*old(world)).remove(node),
        world_events(*final(world)) == world_events(*old(world)),
        world_listening(*final(world)) == world_listening(*old(world)),
{
    world.despawn(Entity::from_bits(node));
}

/// `World::spawn` with one component: a new entity that carries `component`,
/// which may be anything, a `Children` or a `Parents` too. Of the other
/// entities the call changes what `World::spawn_empty` changes. `World::spawn`
/// panics for a bundle that names a component twice; one component cannot.
#[verifier::external_body]
pub(crate) fn spawn_node_with<C: Component>(world: &mut World, component: C) -> (r: u64)
    ensures
        !world_nodes(*old(world)).contains(r),
        world_nodes(*final(world)).contains(r),
        world_nodes(*old(world)).subset_of(world_nodes(*final(world))),
        world_nodes(*old(world)).finite() ==> world_nodes(*final(world)).finite(),
        world_children(*final(world)).remove(r) == world_children(*old(world)).remove(r),
        world_parents(*final(world)).remove(r) == world_parents(*old(world)).remove(r),
        world_events(*final(world)) == world_events(*old(world)),
        world_listening(*final(world)) == world_listening(*old(world)),
{
    world.spawn(component).id().to_bits()
}

/// `bevy_ecs::world::EntityMut`, the handle to one entity that borrows its
/// world for writing.
#[verifier::external_type_specification]
#[verifier::external_body]
pub struct ExEntityMut<'w>(EntityMut<'w>);

/// The world that the handle borrows.
pub uninterp spec fn handle_world(h: EntityMut) -> World;

/// The identifier of the entity that the handle stands for.
pub uninterp spec fn handle_node(h: EntityMut) -> u64;

/// The world as the handle gives it back: what its world holds when the
/// borrow of the handle ends.
pub uninterp spec fn handle_returns(h: EntityMut) -> World;

/// `EntityMut::id`. A handle exists only for an entity that is alive in its
/// world.
#[verifier::external_body]
pub(crate) fn node_of(handle: &EntityMut<'_>) -> (r: u64)
    ensures
        r == handle_node(*handle),
        world_nodes(handle_world(*handle)).contains(r),
{
    handle.id().to_bits()
}

/// `f` was handed `w`, which held `before`, and has left it as its contract
/// says.
pub open spec fn ran_in<F: FnOnce(&mut World)>(f: F, w: &mut World, before: World) -> bool {
    *w == before && f.ensures((w,), ())
}

/// `EntityMut::world_scope`: calls `f` once, on the world of the handle. The
/// world of the handle afterwards is the world as `f` has left it, and the
/// handle stands for the same entity. `world_scope` looks that entity up
/// again afterwards and panics where it is gone; so `f` must be one that
/// leaves it alive.
#[verifier::external_body]
pub(crate) fn scoped<F: FnOnce(&mut World)>(handle: &mut EntityMut<'_>, f: F)
    requires
        forall|w: &mut World| *w == handle_world(*old(handle)) ==> f.requires((w,)),
        forall|w: &mut World|
            *w == handle_world(*old(handle)) && f.ensures((w,), ()) ==> world_nodes(
                *final(w),
            ).contains(handle_node(*old(handle))),
    ensures
        handle_node(*final(handle)) == handle_node(*old(handle)),
        handle_returns(*final(handle)) == handle_returns(*old(handle)),
        exists|w: &mut World|
            #[trigger] ran_in(f, w, handle_world(*old(handle))) && *final(w) == handle_world(
                *final(handle),
            ),
{
    handle.world_scope(f);
}

/// `EntityMut::world_scope`: calls its closure once, on the world of the
/// handle, and the handle stands for the same entity afterwards. The closure
/// here is `build_children` of this crate, of which it is proved that it
/// hands `spawn_children` a `WorldChildBuilder` for the entity over that
/// world; so the contract says that `spawn_children` has run on such a
/// builder. What the world holds afterwards is up to `spawn_children`.
/// `world_scope` looks the entity of the handle up again afterwards and
/// panics where it is gone; the builder offers nothing that despawns an
/// entity.
#[verifier::external_body]
pub(crate) fn in_scope_build<F: FnOnce(&mut WorldChildBuilder)>(
    handle: &mut EntityMut<'_>,
    spawn_children: F,
)
    requires
        forall|b: &mut WorldChildBuilder|
            b.parent() == handle_node(*old(handle)) && b.world() == handle_world(*old(handle))
                ==> spawn_children.requires((b,)),
    ensures
        handle_node(*final(handle)) == handle_node(*old(handle)),
        handle_returns(*final(handle)) == handle_returns(*old(handle)),
        exists|b: &mut WorldChildBuilder| #[trigger]
            built_with(
                spawn_children,
                b,
                handle_node(*old(handle)),
                handle_world(*old(handle)),
            ),
{
    let parent = handle.id().to_bits();
    handle.world_scope(|world| build_children(world, parent, spawn_children));
}

/// `EntityMut::into_world_mut`: gives the handle up for the world that it
/// borrowed. The result is the borrow that the handle held, so what it holds
/// when it ends is what the handle gives back.
#[verifier::external_body]
pub(crate) fn into_world<'w>(handle: EntityMut<'w>) -> (r: &'w mut World)
    ensures
        *r == handle_world(handle),
        *final(r) == handle_returns(handle),
{
    handle.into_world_mut()
}

/// `bevy_ecs::system::Commands`, the buffer of commands that are applied to
/// a world later.
#[verifier::external_type_specification]
#[verifier::external_body]
pub struct ExCommands<'w, 's>(Commands<'w, 's>);

/// `bevy_ecs::system::EntityCommands`, a buffer of commands together with
/// the entity that they are for.
#[verifier::external_type_specification]
#[verifier::external_body]
pub struct ExEntityCommands<'w, 's, 'a>(EntityCommands<'w, 's, 'a>);

/// The commands of this crate that the buffer holds, in the order in which
/// they were added, which is the order in which the buffer applies them.
pub uninterp spec fn pending(c: Commands) -> Seq<Operation>;

/// The number of commands that the buffer holds, those of this crate and
/// all others.
pub uninterp spec fn buffered(c: Commands) -> nat;

/// The identifiers that are reserved, in the entities that the buffer draws
/// from, for entities that come to life when the buffer is applied.
pub uninterp spec fn reserved(c: Commands) -> Set<u64>;

/// The commands of this crate that the buffer of the entity commands holds,
/// in the order in which they were added.
pub uninterp spec fn queued(ec: EntityCommands) -> Seq<Operation>;

/// The identifier of the entity that the entity commands are for.
pub uninterp spec fn target_of(ec: EntityCommands) -> u64;

/// `Commands::spawn_empty`: reserves an identifier for an entity that comes
/// to life when the buffer is applied. `Entities::reserve_entity` gives an
/// identifier that was not reserved before. It adds no command.
#[verifier::external_body]
pub(crate) fn reserve_node(commands: &mut Commands<'_, '_>) -> (r: u64)
    ensures
        !reserved(*old(commands)).contains(r),
        reserved(*final(commands)) == reserved(*old(commands)).insert(r),
        pending(*final(commands)) == pending(*old(commands)),
        buffered(*final(commands)) == buffered(*old(commands)),
{
    commands.spawn_empty().id().to_bits()
}

/// `Commands::spawn`: reserves an identifier as `Commands::spawn_empty` does
/// and adds one command, the one that gives the entity the components of
/// `bundle`, which is no command of this crate.
#[verifier::external_body]
pub(crate) fn reserve_node_with<B: Bundle>(commands: &mut Commands<'_, '_>, bundle: B) -> (r: u64)
    ensures
        !reserved(*old(commands)).contains(r),
        reserved(*final(commands)) == reserved(*old(commands)).insert(r),
        pending(*final(commands)) == pending(*old(commands)),
        buffered(*final(commands)) == buffered(*old(commands)) + 1,
{
    commands.spawn(bundle).id().to_bits()
}

/// `Commands::add` with a command of this crate: it goes to the end of the
/// buffer.
#[verifier::external_body]
pub(crate) fn enqueue<C: Command + View<V = Operation>>(commands: &mut Commands<'_, '_>, op: C)
    ensures
        pending(*final(commands)) == pending(*old(commands)).push(op@),
        buffered(*final(commands)) == buffered(*old(commands)) + 1,
        reserved(*final(commands)) == reserved(*old(commands)),
{
    commands.add(op);
}

/// `Commands::add` with any command: it goes to the end of the buffer, which
/// holds one command more then. Whether it is a command of this crate is not
/// known here: the commands of this crate that the buffer held stay as they
/// were, in their order, and at most one has come behind them.
#[verifier::external_body]
pub(crate) fn enqueue_any<C: Command>(commands: &mut Commands<'_, '_>, command: C)
    ensures
        buffered(*final(commands)) == buffered(*old(commands)) + 1,
        pending(*old(commands)).is_prefix_of(pending(*final(commands))),
        pending(*final(commands)).len() <= pending(*old(commands)).len() + 1,
        reserved(*final(commands)) == reserved(*old(commands)),
{
    commands.add(command);
}

/// `EntityCommands::id`.
#[verifier::external_body]
pub(crate) fn target(ec: &EntityCommands<'_, '_, '_>) -> (r: u64)
    ensures
        r == target_of(*ec),
{
    ec.id().to_bits()
}

/// `EntityCommands::commands`: the buffer of the entity commands, for adding
/// to it.
#[verifier::external_body]
pub(crate) fn buffer<'w, 's, 'b>(ec: &'b mut EntityCommands<'w, 's, '_>) -> (r: &'b mut Commands<
    'w,
    's,
>)
    ensures
        pending(*r) == queued(*old(ec)),
        queued(*final(ec)) == pending(*final(r)),
        target_of(*final(ec)) == target_of(*old(ec)),
{
    ec.commands()
}

} // verus!
