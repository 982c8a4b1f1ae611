use bevy_ecs::component::Component;
use bevy_ecs::component::TableStorage;
use bevy_ecs::entity::Entity;
use bevy_ecs::system::CommandQueue;
use bevy_ecs::system::Commands;
use bevy_ecs::world::World;
use bevy_parents_childs::BuildChildren;
use bevy_parents_childs::BuildWorldChildren;
use bevy_parents_childs::Children;
use bevy_parents_childs::Parents;

struct C(u32);

impl Component for C {
    type Storage = TableStorage;
}

fn bits(entities: &[Entity]) -> Vec<u64> {
    entities.iter().map(|e| e.to_bits()).collect()
}

#[test]
fn build_children() {
    let mut world = World::default();
    let mut queue = CommandQueue::default();
    let mut commands = Commands::new(&mut queue, &world);

    let parent = commands.spawn(C(1)).id();
    let mut children = Vec::new();
    commands.entity(parent).with_children(|parent| {
        children.extend([parent.spawn(C(2)), parent.spawn(C(3)), parent.spawn(C(4))]);
    });

    queue.apply(&mut world);
    assert_eq!(world.get::<Children>(parent).unwrap().to_vec(), children,);
    assert_eq!(
        *world.get::<Parents>(Entity::from_bits(children[0])).unwrap().first().unwrap(),
        parent.to_bits()
    );
    assert_eq!(
        *world.get::<Parents>(Entity::from_bits(children[1])).unwrap().first().unwrap(),
        parent.to_bits()
    );

    assert_eq!(
        *world.get::<Parents>(Entity::from_bits(children[0])).unwrap().first().unwrap(),
        parent.to_bits()
    );
    assert_eq!(
        *world.get::<Parents>(Entity::from_bits(children[1])).unwrap().first().unwrap(),
        parent.to_bits()
    );
}

#[test]
fn push_and_insert_and_remove_children_commands() {
    let mut world = World::default();
    let entities = world.spawn_batch(vec![C(1), C(2), C(3), C(4), C(5)]).collect::<Vec<Entity>>();

    let mut queue = CommandQueue::default();
    {
        let mut commands = Commands::new(&mut queue, &world);
        commands.entity(entities[0]).push_children(&bits(&entities[1..3]));
    }
    queue.apply(&mut world);

    let parent = entities[0];
    let child1 = entities[1];
    let child2 = entities[2];
    let child3 = entities[3];
    let child4 = entities[4];

    let expected_children: Vec<u64> = bits(&[child1, child2]);
    assert_eq!(world.get::<Children>(parent).unwrap().to_vec(), expected_children);
    assert_eq!(*world.get::<Parents>(child1).unwrap().first().unwrap(), parent.to_bits());
    assert_eq!(*world.get::<Parents>(child2).unwrap().first().unwrap(), parent.to_bits());
    assert_eq!(*world.get::<Parents>(child1).unwrap().first().unwrap(), parent.to_bits());
    assert_eq!(*world.get::<Parents>(child2).unwrap().first().unwrap(), parent.to_bits());

    {
        let mut commands = Commands::new(&mut queue, &world);
        commands.entity(parent).push_children(&bits(&entities[3..]));
    }
    queue.apply(&mut world);

    let expected_children: Vec<u64> = bits(&[child1, child2, child3, child4]);
    assert_eq!(world.get::<Children>(parent).unwrap().to_vec(), expected_children);
    assert_eq!(world.get::<Parents>(child3).unwrap().to_vec(), bits(&[parent]));
    assert_eq!(world.get::<Parents>(child4).unwrap().to_vec(), bits(&[parent]));

    let remove_children = bits(&[child1, child4]);
    {
        let mut commands = Commands::new(&mut queue, &world);
        commands.entity(parent).remove_children(&remove_children);
    }
    queue.apply(&mut world);

    let expected_children: Vec<u64> = bits(&[child2, child3]);
    assert_eq!(world.get::<Children>(parent).unwrap().to_vec(), expected_children);
    assert!(world.get::<Parents>(child1).is_none());
    assert!(world.get::<Parents>(child4).is_none());
}

#[test]
fn push_and_clear_children_commands() {
    let mut world = World::default();
    let entities =
        world.spawn_batch(vec![(C(1),), (C(2),), (C(3),), (C(4),), (C(5),)]).collect::<Vec<Entity>>();

    let mut queue = CommandQueue::default();
    {
        let mut commands = Commands::new(&mut queue, &world);
        commands.entity(entities[0]).push_children(&bits(&entities[1..3]));
    }
    queue.apply(&mut world);

    let parent = entities[0];
    let child1 = entities[1];
    let child2 = entities[2];

    let expected_children: Vec<u64> = bits(&[child1, child2]);
    assert_eq!(world.get::<Children>(parent).unwrap().to_vec(), expected_children);
    assert_eq!(world.get::<Parents>(child1).unwrap().to_vec(), bits(&[parent]));
    assert_eq!(world.get::<Parents>(child2).unwrap().to_vec(), bits(&[parent]));

    {
        let mut commands = Commands::new(&mut queue, &world);
        commands.entity(parent).clear_children();
    }
    queue.apply(&mut world);

    assert!(world.get::<Children>(parent).is_none());
    assert!(world.get::<Parents>(child1).is_none());
    assert!(world.get::<Parents>(child2).is_none());
}

#[test]
fn push_and_replace_children_commands() {
    let mut world = World::default();
    let entities =
        world.spawn_batch(vec![(C(1),), (C(2),), (C(3),), (C(4),), (C(5),)]).collect::<Vec<Entity>>();

    let mut queue = CommandQueue::default();
    {
        let mut commands = Commands::new(&mut queue, &world);
        commands.entity(entities[0]).push_children(&bits(&entities[1..3]));
    }
    queue.apply(&mut world);

    let parent = entities[0];
    let child1 = entities[1];
    let child2 = entities[2];
    let child4 = entities[4];

    let expected_children: Vec<u64> = bits(&[child1, child2]);
    assert_eq!(world.get::<Children>(parent).unwrap().to_vec(), expected_children);
    assert_eq!(world.get::<Parents>(child1).unwrap().to_vec(), bits(&[parent]));
    assert_eq!(world.get::<Parents>(child2).unwrap().to_vec(), bits(&[parent]));

    let replace_children = bits(&[child1, child4]);
    {
        let mut commands = Commands::new(&mut queue, &world);
        commands.entity(parent).replace_children(&replace_children);
    }
    queue.apply(&mut world);

    let expected_children: Vec<u64> = bits(&[child1, child4]);
    assert_eq!(world.get::<Children>(parent).unwrap().to_vec(), expected_children);
    assert_eq!(world.get::<Parents>(child1).unwrap().to_vec(), bits(&[parent]));
    assert_eq!(world.get::<Parents>(child4).unwrap().to_vec(), bits(&[parent]));
    assert!(world.get::<Parents>(child2).is_none());
}

#[test]
fn push_and_insert_and_remove_children_world() {
    let mut world = World::default();
    let entities = world.spawn_batch(vec![C(1), C(2), C(3), C(4), C(5)]).collect::<Vec<Entity>>();

    world.entity_mut(entities[0]).push_children(&bits(&entities[1..3]));

    let parent = entities[0];
    let child1 = entities[1];
    let child2 = entities[2];
    let child3 = entities[3];
    let child4 = entities[4];

    let expected_children: Vec<u64> = bits(&[child1, child2]);
    assert_eq!(world.get::<Children>(parent).unwrap().to_vec(), expected_children);
    assert_eq!(world.get::<Parents>(child1).unwrap().to_vec(), bits(&[parent]));
    assert_eq!(world.get::<Parents>(child2).unwrap().to_vec(), bits(&[parent]));

    world.entity_mut(parent).push_children(&bits(&entities[3..]));
    let expected_children: Vec<u64> = bits(&[child1, child2, child3, child4]);
    assert_eq!(world.get::<Children>(parent).unwrap().to_vec(), expected_children);
    assert_eq!(world.get::<Parents>(child3).unwrap().to_vec(), bits(&[parent]));
    assert_eq!(world.get::<Parents>(child4).unwrap().to_vec(), bits(&[parent]));

    let remove_children = bits(&[child1, child4]);
    world.entity_mut(parent).remove_children(&remove_children);
    let expected_children: Vec<u64> = bits(&[child2, child3]);
    assert_eq!(world.get::<Children>(parent).unwrap().to_vec(), expected_children);
    assert!(world.get::<Parents>(child1).is_none());
    assert!(world.get::<Parents>(child4).is_none());
}

/// Tests what happens when all children are removed from a parent using world functions
#[test]
fn children_removed_when_empty_world() {
    let mut world = World::default();
    let entities = world.spawn_batch(vec![C(1), C(2), C(3)]).collect::<Vec<Entity>>();

    let parent1 = entities[0];
    let parent2 = entities[1];
    let child = entities[2];

    // push child into parent1
    world.entity_mut(parent1).push_children(&bits(&[child]));
    assert_eq!(world.get::<Children>(parent1).unwrap().to_vec().as_slice(), &bits(&[child]));

    // move only child from parent1 with `move_children`
    world.entity_mut(parent1).move_children(parent2.to_bits(), &bits(&[child]));
    assert!(world.get::<Children>(parent1).is_none());

    // move only child from parent2 with `move_children`
    world.entity_mut(parent2).move_children(parent1.to_bits(), &bits(&[child]));
    assert!(world.get::<Children>(parent2).is_none());

    // remove only child from parent1 with `remove_children`
    world.entity_mut(parent1).remove_children(&bits(&[child]));
    assert!(world.get::<Children>(parent1).is_none());
}

/// Tests what happens when all children are removed form a parent using commands
#[test]
fn children_removed_when_empty_commands() {
    let mut world = World::default();
    let entities = world.spawn_batch(vec![C(1), C(2), C(3)]).collect::<Vec<Entity>>();

    let parent1 = entities[0];
    let parent2 = entities[1];
    let child = entities[2];

    let mut queue = CommandQueue::default();

    // push child into parent1
    {
        let mut commands = Commands::new(&mut queue, &world);
        commands.entity(parent1).push_children(&bits(&[child]));
        queue.apply(&mut world);
    }
    assert_eq!(world.get::<Children>(parent1).unwrap().to_vec().as_slice(), &bits(&[child]));

    // push the child into parent2 as well
    {
        let mut commands = Commands::new(&mut queue, &world);
        commands.entity(parent2).push_children(&bits(&[child]));
        queue.apply(&mut world);
    }
    assert!(world.get::<Children>(parent1).is_some());

    // push it into parent1 once more
    {
        let mut commands = Commands::new(&mut queue, &world);
        commands.entity(parent1).push_children(&bits(&[child]));
        queue.apply(&mut world);
    }
    assert_eq!(world.get::<Children>(parent2).unwrap().to_vec(), bits(&[child]));

    // move only child from parent1 with `move_child`
    {
        let mut commands = Commands::new(&mut queue, &world);
        commands.entity(parent1).move_child(parent2.to_bits(), child.to_bits());
        queue.apply(&mut world);
    }
    assert!(world.get::<Children>(parent1).is_none());

    // remove only child from parent2 with `remove_children`
    {
        let mut commands = Commands::new(&mut queue, &world);
        commands.entity(parent2).remove_children(&bits(&[child]));
        queue.apply(&mut world);
    }
    assert!(world.get::<Children>(parent2).is_none());
}

#[test]
fn regression_push_children_same_archetype() {
    let mut world = World::new();
    let child = world.spawn_empty().id();
    world.spawn_empty().push_children(&[child.to_bits()]);
}

#[test]
fn push_children_idempotent() {
    let mut world = World::new();
    let child = world.spawn_empty().id();
    let parent =
        world.spawn_empty().push_children(&[child.to_bits()]).push_children(&[child.to_bits()]).id();

    let mut query = world.query::<&Children>();
    let children = query.get(&world, parent).unwrap();
    assert_eq!(children.to_vec(), vec![child.to_bits()]);
}
