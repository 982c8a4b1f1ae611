use bevy_ecs::component::Component;
use bevy_ecs::component::TableStorage;
use bevy_ecs::entity::Entity;
use bevy_ecs::event::Events;
use bevy_ecs::system::CommandQueue;
use bevy_ecs::system::Commands;
use bevy_ecs::world::FromWorld;
use bevy_ecs::world::World;
use bevy_parents_childs::BuildChildren;
use bevy_parents_childs::BuildWorldChildren;
use bevy_parents_childs::Children;
use bevy_parents_childs::HierarchyEvent;
use bevy_parents_childs::HierarchyEvent::ChildAdded;
use bevy_parents_childs::Parents;
use bevy_parents_childs::RemoveParent;

#[derive(PartialEq, Debug)]
struct Tag(u32);

impl Component for Tag {
    type Storage = TableStorage;
}

fn children(world: &World, node: u64) -> Option<Vec<u64>> {
    world.get::<Children>(Entity::from_bits(node)).map(|set| set.to_vec())
}

fn parents(world: &World, node: u64) -> Option<Vec<u64>> {
    world.get::<Parents>(Entity::from_bits(node)).map(|set| set.to_vec())
}

fn drain_events(world: &mut World) -> Vec<HierarchyEvent> {
    world.resource_mut::<Events<HierarchyEvent>>().drain().collect()
}

#[test]
fn the_world_builder_attaches_and_announces_each_child_at_once() {
    let mut world = World::new();
    world.insert_resource(Events::<HierarchyEvent>::default());
    let parent = world.spawn_empty().id();
    let p = parent.to_bits();

    let mut spawned = Vec::new();
    let mut seen_parent = 0;
    world.entity_mut(parent).with_children(|builder| {
        seen_parent = builder.parent_entity();
        spawned.push(builder.spawn(Tag(7)));
        spawned.push(builder.spawn_empty());
    });

    assert_eq!(seen_parent, p);
    assert_eq!(spawned.len(), 2);
    assert!(spawned[0] != spawned[1] && spawned[0] != p && spawned[1] != p);
    assert_eq!(world.get::<Tag>(Entity::from_bits(spawned[0])), Some(&Tag(7)));
    assert_eq!(world.get::<Tag>(Entity::from_bits(spawned[1])), None);
    let mut sorted = spawned.clone();
    sorted.sort();
    assert_eq!(children(&world, p), Some(sorted));
    assert_eq!(parents(&world, spawned[0]), Some(vec![p]));
    assert_eq!(parents(&world, spawned[1]), Some(vec![p]));
    assert_eq!(
        drain_events(&mut world),
        vec![
            ChildAdded { child: spawned[0], parent: p },
            ChildAdded { child: spawned[1], parent: p }
        ]
    );
}

#[test]
fn a_spawned_child_starts_with_the_one_relationship() {
    let mut world = World::new();
    let parent = world.spawn_empty().id();
    let stray_children = Children::from_world(&mut world);
    let stray_parents = Parents::from_world(&mut world);

    let mut spawned = Vec::new();
    world.entity_mut(parent).with_children(|builder| {
        spawned.push(builder.spawn(stray_children));
        spawned.push(builder.spawn(stray_parents));
    });

    assert_eq!(children(&world, spawned[0]), None);
    assert_eq!(parents(&world, spawned[0]), Some(vec![parent.to_bits()]));
    assert_eq!(children(&world, spawned[1]), None);
    assert_eq!(parents(&world, spawned[1]), Some(vec![parent.to_bits()]));
    assert_eq!(children(&world, parent.to_bits()).map(|c| c.len()), Some(2));
}

#[test]
fn the_command_builder_attaches_its_children_in_one_batch() {
    let mut world = World::new();
    world.insert_resource(Events::<HierarchyEvent>::default());
    let parent = world.spawn_empty().id();
    let p = parent.to_bits();
    let mut queue = CommandQueue::default();

    let mut spawned = Vec::new();
    let mut seen_parent = 0;
    {
        let mut commands = Commands::new(&mut queue, &world);
        commands.entity(parent).with_children(|builder| {
            seen_parent = builder.parent_entity();
            spawned.push(builder.spawn_empty());
            spawned.push(builder.spawn(Tag(3)));
            spawned.push(builder.spawn_empty());
        });
    }
    // nothing has happened yet
    assert_eq!(seen_parent, p);
    assert_eq!(children(&world, p), None);
    assert_eq!(drain_events(&mut world), vec![]);

    queue.apply(&mut world);

    assert_eq!(spawned.len(), 3);
    let mut sorted = spawned.clone();
    sorted.sort();
    sorted.dedup();
    assert_eq!(sorted.len(), 3);
    assert_eq!(children(&world, p), Some(sorted));
    assert_eq!(world.get::<Tag>(Entity::from_bits(spawned[1])), Some(&Tag(3)));
    for &child in &spawned {
        assert_eq!(parents(&world, child), Some(vec![p]));
    }
    assert_eq!(
        drain_events(&mut world),
        vec![
            ChildAdded { child: spawned[0], parent: p },
            ChildAdded { child: spawned[1], parent: p },
            ChildAdded { child: spawned[2], parent: p }
        ]
    );
}

#[test]
fn a_builder_passes_other_commands_on() {
    let mut world = World::new();
    let [parent, other, child] = std::array::from_fn(|_| world.spawn_empty().id());
    world.entity_mut(other).add_child(child.to_bits());
    let mut queue = CommandQueue::default();
    {
        let mut commands = Commands::new(&mut queue, &world);
        commands.entity(parent).with_children(|builder| {
            builder
                .add_command(RemoveParent { child: child.to_bits(), parent: other.to_bits() })
                .spawn_empty();
        });
    }
    queue.apply(&mut world);

    assert_eq!(children(&world, other.to_bits()), None);
    assert_eq!(children(&world, parent.to_bits()).map(|c| c.len()), Some(1));
}

#[test]
fn commands_take_effect_in_the_order_in_which_they_were_added() {
    let mut world = World::new();
    world.insert_resource(Events::<HierarchyEvent>::default());
    let [p, q, c] = std::array::from_fn(|_| world.spawn_empty().id().to_bits());
    let mut queue = CommandQueue::default();
    {
        let mut commands = Commands::new(&mut queue, &world);
        commands.entity(Entity::from_bits(p)).add_child(c);
        commands.entity(Entity::from_bits(c)).set_parent(q);
        commands.entity(Entity::from_bits(c)).remove_parent(p);
        commands.entity(Entity::from_bits(q)).move_children(p, &[c]);
    }
    assert_eq!(children(&world, p), None);
    queue.apply(&mut world);

    assert_eq!(children(&world, p), Some(vec![c]));
    assert_eq!(children(&world, q), None);
    assert_eq!(parents(&world, c), Some(vec![p]));
    assert_eq!(
        drain_events(&mut world),
        vec![
            ChildAdded { child: c, parent: p },
            ChildAdded { child: c, parent: q },
            HierarchyEvent::ChildRemoved { child: c, parent: p }
        ]
    );
}
