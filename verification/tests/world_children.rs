use bevy_ecs::entity::Entity;
use bevy_ecs::event::Events;
use bevy_ecs::world::World;
use bevy_parents_childs::BuildWorldChildren;
use bevy_parents_childs::Children;
use bevy_parents_childs::HierarchyEvent;
use bevy_parents_childs::HierarchyEvent::ChildAdded;
use bevy_parents_childs::HierarchyEvent::ChildRemoved;
use bevy_parents_childs::Parents;

fn ids(entities: &[Entity]) -> Vec<u64> {
    entities.iter().map(|e| e.to_bits()).collect()
}

/// Assert the (non)existence and state of the child's `Parents` component.
fn assert_parents(world: &mut World, child: Entity, parent: &[Entity]) {
    assert_eq!(
        world.get::<Parents>(child).map(|p| p.to_vec()).unwrap_or_default(),
        ids(parent)
    );
}

/// Assert the existence and state of the parent's `Children` component.
fn assert_children(world: &mut World, parent: Entity, children: &[Entity]) {
    assert_eq!(world.get::<Children>(parent).unwrap().to_vec(), ids(children));
}

/// Used to omit a number of events that are not relevant to a particular test.
fn omit_events(world: &mut World, number: usize) {
    let mut events_resource = world.resource_mut::<Events<HierarchyEvent>>();
    let mut events: Vec<_> = events_resource.drain().collect();
    events_resource.extend(events.drain(number..));
}

fn assert_events(world: &mut World, expected_events: &[HierarchyEvent]) {
    let events: Vec<_> = world.resource_mut::<Events<HierarchyEvent>>().drain().collect();
    assert_eq!(events, expected_events);
}

#[test]
fn add_child() {
    let world = &mut World::new();
    world.insert_resource(Events::<HierarchyEvent>::default());

    let [a, b, c] = std::array::from_fn(|_| world.spawn_empty().id());

    world.entity_mut(a).add_child(b.to_bits());

    assert_parents(world, b, &[a]);
    assert_children(world, a, &[b]);
    assert_events(world, &[ChildAdded { child: b.to_bits(), parent: a.to_bits() }]);

    world.entity_mut(a).add_child(c.to_bits());

    assert_children(world, a, &[b, c]);
    assert_parents(world, c, &[a]);
    assert_events(world, &[ChildAdded { child: c.to_bits(), parent: a.to_bits() }]);
    // Children component should be removed when it's empty.
    world.entity_mut(a).remove_children(&ids(&[b, c]));
    assert!(world.get::<Children>(a).is_none());
}

#[test]
fn set_parent() {
    let world = &mut World::new();
    world.insert_resource(Events::<HierarchyEvent>::default());

    let [a, b, c] = std::array::from_fn(|_| world.spawn_empty().id());

    world.entity_mut(a).set_parent(b.to_bits());

    assert_parents(world, a, &[b]);
    assert_children(world, b, &[a]);
    assert_events(world, &[ChildAdded { child: a.to_bits(), parent: b.to_bits() }]);

    world.entity_mut(a).set_parent(c.to_bits());

    assert_parents(world, a, &[b, c]);
    assert_children(world, b, &[a]);
    assert_children(world, c, &[a]);
    assert_events(world, &[ChildAdded { child: a.to_bits(), parent: c.to_bits() }]);
}

#[test]
fn set_parent_of_orphan() {
    let world = &mut World::new();

    let [a, b, c] = std::array::from_fn(|_| world.spawn_empty().id());
    world.entity_mut(a).set_parent(b.to_bits());
    assert_parents(world, a, &[b]);
    assert_children(world, b, &[a]);

    world.entity_mut(b).clear();

    world.entity_mut(a).set_parent(c.to_bits());

    assert_parents(world, a, &[c]);
    assert_children(world, c, &[a]);
}

#[test]
fn remove_parent() {
    let world = &mut World::new();
    world.insert_resource(Events::<HierarchyEvent>::default());

    let [a, b, c] = std::array::from_fn(|_| world.spawn_empty().id());

    world.entity_mut(a).push_children(&ids(&[b, c]));
    world.entity_mut(b).remove_parent(a.to_bits());

    assert!(world.get::<Parents>(b).is_none());

    assert_parents(world, c, &[a]);
    assert_children(world, a, &[c]);
    omit_events(world, 2);
    // Omit ChildAdded events.
    assert_events(world, &[ChildRemoved { child: b.to_bits(), parent: a.to_bits() }]);

    world.entity_mut(c).remove_parent(a.to_bits());
    assert!(world.get::<Parents>(c).is_none());
    assert!(world.get::<Children>(a).is_none());
    assert_events(world, &[ChildRemoved { child: c.to_bits(), parent: a.to_bits() }]);
}
