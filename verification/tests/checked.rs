use bevy_ecs::entity::Entity;
use bevy_ecs::event::Events;
use bevy_ecs::system::CommandQueue;
use bevy_ecs::system::Commands;
use bevy_ecs::world::World;
use bevy_parents_childs::operations;
use bevy_parents_childs::BuildChildren;
use bevy_parents_childs::BuildWorldChildren;
use bevy_parents_childs::Children;
use bevy_parents_childs::HierarchyEvent;
use bevy_parents_childs::HierarchyEvent::ChildAdded;
use bevy_parents_childs::Parents;

fn children(world: &World, node: u64) -> Option<Vec<u64>> {
    world.get::<Children>(Entity::from_bits(node)).map(|set| set.to_vec())
}

fn parents(world: &World, node: u64) -> Option<Vec<u64>> {
    world.get::<Parents>(Entity::from_bits(node)).map(|set| set.to_vec())
}

fn drain_events(world: &mut World) -> Vec<HierarchyEvent> {
    world.resource_mut::<Events<HierarchyEvent>>().drain().collect()
}

#[test]
fn a_world_is_bare_until_an_entity_lives_in_it() {
    let mut world = World::new();
    assert!(operations::is_bare(&world));
    let a = operations::spawn_node(&mut world);
    assert!(!operations::is_bare(&world));
    assert!(world.get_entity(Entity::from_bits(a)).is_some());
    assert_eq!(children(&world, a), None);
    assert_eq!(parents(&world, a), None);
    let b = operations::spawn_node(&mut world);
    assert!(a != b);
    world.despawn(Entity::from_bits(a));
    world.despawn(Entity::from_bits(b));
    assert!(operations::is_bare(&world));
}

#[test]
fn liveness_is_told_by_identifier() {
    let mut world = World::new();
    let a = operations::spawn_node(&mut world);
    let b = operations::spawn_node(&mut world);
    let gone = operations::spawn_node(&mut world);
    world.despawn(Entity::from_bits(gone));

    assert!(operations::is_alive(&world, a));
    assert!(operations::is_alive(&world, b));
    assert!(!operations::is_alive(&world, gone));
    assert!(!operations::is_alive(&world, a + (1 << 32)));
    assert!(operations::all_alive(&world, &[]));
    assert!(operations::all_alive(&world, &[a, b, a]));
    assert!(!operations::all_alive(&world, &[a, gone, b]));
    assert!(!operations::all_alive(&world, &[gone]));
}

#[test]
fn a_reserved_identifier_is_not_alive_before_the_buffer_is_applied() {
    let mut world = World::new();
    let parent = world.spawn_empty().id();
    let mut queue = CommandQueue::default();
    let mut spawned = Vec::new();
    {
        let mut commands = Commands::new(&mut queue, &world);
        commands.entity(parent).with_children(|builder| {
            spawned.push(builder.spawn_empty());
            spawned.push(builder.spawn_empty());
            spawned.push(builder.spawn_empty());
        });
    }
    assert!(spawned[0] != spawned[1] && spawned[1] != spawned[2] && spawned[0] != spawned[2]);
    assert!(!operations::all_alive(&world, &spawned));
    assert!(!operations::is_alive(&world, spawned[0]));
    queue.apply(&mut world);
    assert!(operations::all_alive(&world, &spawned));
    let mut sorted = spawned.clone();
    sorted.sort();
    assert_eq!(children(&world, parent.to_bits()), Some(sorted));
}

#[test]
fn a_checked_operation_does_its_work_where_the_nodes_are_alive() {
    let mut world = World::new();
    world.insert_resource(Events::<HierarchyEvent>::default());
    let [p, q, a, b] = std::array::from_fn(|_| operations::spawn_node(&mut world));

    assert!(operations::try_add_child(&mut world, p, a));
    assert!(operations::try_push_children(&mut world, p, &[b, a]));
    assert_eq!(children(&world, p), Some(vec![a, b]));
    assert_eq!(
        drain_events(&mut world),
        vec![ChildAdded { child: a, parent: p }, ChildAdded { child: b, parent: p }]
    );
    assert!(operations::try_move_child(&mut world, p, q, a));
    assert!(operations::try_move_children(&mut world, p, q, &[b]));
    assert_eq!(children(&world, p), None);
    assert_eq!(children(&world, q), Some(vec![a, b]));
    assert!(operations::try_replace_children(&mut world, q, &[a, p]));
    assert_eq!(children(&world, q), Some(vec![p, a]));
    assert!(operations::try_remove_parent(&mut world, a, q));
    assert!(operations::try_remove_children(&mut world, q, &[b, p]));
    assert_eq!(children(&world, q), None);
    assert!(operations::try_push_children(&mut world, q, &[a, b]));
    assert!(operations::try_clear_children(&mut world, q));
    assert_eq!(children(&world, q), None);
    assert!(operations::try_push_children(&mut world, q, &[a, b]));
    assert!(operations::try_clear_parents_relation(&mut world, &[a]));
    assert_eq!(children(&world, q), Some(vec![b]));
    assert!(operations::try_clear_children_relation(&mut world, &[q]));
    assert_eq!(parents(&world, b), None);
    assert!(operations::try_add_child(&mut world, q, b));
    assert!(operations::try_dispose(&mut world, b));
    assert!(!operations::is_alive(&world, b));
    assert_eq!(children(&world, q), None);
}

#[test]
fn a_checked_operation_leaves_the_world_alone_where_a_node_is_gone() {
    let mut world = World::new();
    world.insert_resource(Events::<HierarchyEvent>::default());
    let [p, c, gone] = std::array::from_fn(|_| operations::spawn_node(&mut world));
    world.entity_mut(Entity::from_bits(p)).add_child(c);
    world.despawn(Entity::from_bits(gone));
    drain_events(&mut world);

    assert!(!operations::try_add_child(&mut world, p, gone));
    assert!(!operations::try_add_child(&mut world, gone, c));
    assert!(!operations::try_remove_parent(&mut world, c, gone));
    assert!(!operations::try_push_children(&mut world, p, &[c, gone]));
    assert!(!operations::try_remove_children(&mut world, p, &[c, gone]));
    assert!(!operations::try_clear_children(&mut world, gone));
    assert!(!operations::try_replace_children(&mut world, p, &[gone]));
    assert!(!operations::try_move_child(&mut world, p, gone, c));
    assert!(!operations::try_move_children(&mut world, p, gone, &[c]));
    assert!(!operations::try_clear_children_relation(&mut world, &[p, gone]));
    assert!(!operations::try_clear_parents_relation(&mut world, &[c, gone]));
    assert!(!operations::try_dispose(&mut world, gone));

    assert_eq!(children(&world, p), Some(vec![c]));
    assert_eq!(parents(&world, c), Some(vec![p]));
    assert_eq!(drain_events(&mut world), vec![]);
}
