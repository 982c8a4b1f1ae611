use bevy_ecs::component::Component;
use bevy_ecs::component::TableStorage;
use bevy_ecs::entity::Entity;
use bevy_ecs::world::World;
use bevy_parents_childs::AncestorIter;
use bevy_parents_childs::BuildWorldChildren;
use bevy_parents_childs::DescendantIter;
use bevy_parents_childs::HierarchyQueryExt;

#[derive(PartialEq, Debug)]
struct A(usize);

impl Component for A {
    type Storage = TableStorage;
}

fn values<'a>(world: &'a World, ids: &[u64]) -> Vec<&'a A> {
    ids.iter().map(|id| world.get::<A>(Entity::from_bits(*id)).unwrap()).collect()
}

#[test]
fn descendant_iter() {
    let world = &mut World::new();

    let [a, b, c, d] = std::array::from_fn(|i| world.spawn(A(i)).id());

    world.entity_mut(a).push_children(&[b.to_bits(), c.to_bits()]);
    world.entity_mut(c).push_children(&[d.to_bits()]);

    let descendants = world.iter_descendants(a.to_bits()).drain();
    let result: Vec<_> = values(world, &descendants);

    assert_eq!([&A(1), &A(2), &A(3)], result.as_slice());
}

#[test]
fn ancestor_iter() {
    let world = &mut World::new();

    let [a, b, c] = std::array::from_fn(|i| world.spawn(A(i)).id());

    world.entity_mut(a).push_children(&[b.to_bits()]);
    world.entity_mut(b).push_children(&[c.to_bits()]);

    let ancestors = world.iter_ancestors(c.to_bits()).drain();
    let result: Vec<_> = values(world, &ancestors);

    assert_eq!([&A(1), &A(0)], result.as_slice());
}

#[test]
fn descendants_of_a_diamond_come_once_each() {
    let world = &mut World::new();
    let [a, b, c, d] = std::array::from_fn(|_| world.spawn_empty().id().to_bits());

    world.entity_mut(Entity::from_bits(a)).push_children(&[b, c]);
    world.entity_mut(Entity::from_bits(b)).add_child(d);
    world.entity_mut(Entity::from_bits(c)).add_child(d);

    let mut walk = DescendantIter::new(world, a);
    assert_eq!(walk.next(), Some(b));
    assert_eq!(walk.next(), Some(c));
    assert_eq!(walk.next(), Some(d));
    assert_eq!(walk.next(), None);
    assert_eq!(walk.next(), None);

    assert_eq!(world.iter_descendants(a).drain(), vec![b, c, d]);
    assert_eq!(world.iter_descendants(d).drain(), Vec::<u64>::new());
}

#[test]
fn ancestors_of_a_diamond_come_once_each() {
    let world = &mut World::new();
    let [a, b, c, d] = std::array::from_fn(|_| world.spawn_empty().id().to_bits());

    world.entity_mut(Entity::from_bits(a)).push_children(&[b, c]);
    world.entity_mut(Entity::from_bits(b)).add_child(d);
    world.entity_mut(Entity::from_bits(c)).add_child(d);

    // frontier {b, c} -> b; {a, c} -> a; {c} -> c
    let mut walk = AncestorIter::new(world, d);
    assert_eq!(walk.next(), Some(b));
    assert_eq!(walk.next(), Some(a));
    assert_eq!(walk.next(), Some(c));
    assert_eq!(walk.next(), None);

    assert_eq!(world.iter_ancestors(b).drain(), vec![a]);
    assert_eq!(world.iter_ancestors(a).drain(), Vec::<u64>::new());
}

#[test]
fn the_frontier_yields_its_smallest_node_first() {
    let world = &mut World::new();
    let [a, b, c, d, e] = std::array::from_fn(|_| world.spawn_empty().id().to_bits());

    // a -> e, a -> c; e -> b; c -> d
    world.entity_mut(Entity::from_bits(a)).push_children(&[e, c]);
    world.entity_mut(Entity::from_bits(e)).add_child(b);
    world.entity_mut(Entity::from_bits(c)).add_child(d);

    // frontier {c, e} -> c; {d, e} -> d; {e} -> e; {b} -> b
    assert_eq!(world.iter_descendants(a).drain(), vec![c, d, e, b]);
}

#[test]
fn a_walk_ends_on_a_circle() {
    let world = &mut World::new();
    let [a, b] = std::array::from_fn(|_| world.spawn_empty().id().to_bits());

    world.entity_mut(Entity::from_bits(a)).add_child(b);
    world.entity_mut(Entity::from_bits(b)).add_child(a);

    assert_eq!(world.iter_descendants(a).drain(), vec![b, a]);
    assert_eq!(world.iter_ancestors(a).drain(), vec![b, a]);
}

#[test]
fn a_node_without_relations_has_an_empty_walk() {
    let world = &mut World::new();
    let a = world.spawn_empty().id().to_bits();
    let mut walk = world.iter_descendants(a);
    assert_eq!(walk.next(), None);
    assert_eq!(world.iter_ancestors(a).drain(), Vec::<u64>::new());
    // a node that does not exist has none either
    assert_eq!(world.iter_descendants(a + 1000).drain(), Vec::<u64>::new());
}
