use bevy_ecs::entity::Entity;
use bevy_ecs::event::Events;
use bevy_ecs::system::CommandQueue;
use bevy_ecs::system::Commands;
use bevy_ecs::world::World;
use bevy_parents_childs::operations;
use bevy_parents_childs::BuildChildren;
use bevy_parents_childs::BuildWorldChildren;
use bevy_parents_childs::Children;
use bevy_parents_childs::HierarchyEvent;
use bevy_parents_childs::HierarchyEvent::ChildAdded;
use bevy_parents_childs::HierarchyEvent::ChildRemoved;
use bevy_parents_childs::HierarchyQueryExt;
use bevy_parents_childs::Parents;
use std::collections::BTreeSet;

/// A graph as plain sets, to hold the world against.
struct Model {
    nodes: Vec<u64>,
    edges: BTreeSet<(u64, u64)>,
    events: Vec<HierarchyEvent>,
}

impl Model {
    fn children_of(&self, parent: u64) -> Vec<u64> {
        self.edges.iter().filter(|e| e.0 == parent).map(|e| e.1).collect()
    }

    fn parents_of(&self, child: u64) -> Vec<u64> {
        self.edges.iter().filter(|e| e.1 == child).map(|e| e.0).collect()
    }

    fn attach(&mut self, parent: u64, child: u64) {
        if self.edges.insert((parent, child)) {
            self.events.push(ChildAdded { child, parent });
        }
    }

    fn detach(&mut self, parent: u64, child: u64) {
        if self.edges.remove(&(parent, child)) {
            self.events.push(ChildRemoved { child, parent });
        }
    }

    fn replace(&mut self, parent: u64, children: &[u64]) {
        let wanted: BTreeSet<u64> = children.iter().copied().collect();
        for child in self.children_of(parent) {
            if !wanted.contains(&child) {
                self.detach(parent, child);
            }
        }
        for child in wanted {
            self.attach(parent, child);
        }
    }

    fn move_child(&mut self, parent: u64, new_parent: u64, child: u64) {
        self.edges.remove(&(parent, child));
        self.edges.insert((new_parent, child));
    }

    fn isolate(&mut self, node: u64) {
        self.edges.retain(|e| e.0 != node && e.1 != node);
    }

    fn reachable(&self, from: u64, up: bool) -> BTreeSet<u64> {
        let mut seen = BTreeSet::new();
        let mut todo = vec![from];
        while let Some(node) = todo.pop() {
            let next = if up { self.parents_of(node) } else { self.children_of(node) };
            for n in next {
                if seen.insert(n) {
                    todo.push(n);
                }
            }
        }
        seen
    }
}

struct Dice(u64);

impl Dice {
    fn roll(&mut self, sides: usize) -> usize {
        self.0 = self.0.wrapping_mul(6364136223846793005).wrapping_add(1442695040888963407);
        ((self.0 >> 33) as usize) % sides
    }

    fn node(&mut self, model: &Model) -> u64 {
        let at = self.roll(model.nodes.len());
        model.nodes[at]
    }

    fn nodes(&mut self, model: &Model) -> Vec<u64> {
        let count = self.roll(4);
        (0..count).map(|_| self.node(model)).collect()
    }
}

fn compare(world: &mut World, model: &mut Model) {
    for &node in &model.nodes {
        let children = world.get::<Children>(Entity::from_bits(node)).map(|set| set.to_vec());
        let parents = world.get::<Parents>(Entity::from_bits(node)).map(|set| set.to_vec());
        let expected_children = model.children_of(node);
        let expected_parents = model.parents_of(node);
        assert_eq!(children, if expected_children.is_empty() { None } else { Some(expected_children) });
        assert_eq!(parents, if expected_parents.is_empty() { None } else { Some(expected_parents) });
    }
    let events: Vec<HierarchyEvent> =
        world.resource_mut::<Events<HierarchyEvent>>().drain().collect();
    assert_eq!(events, model.events);
    model.events.clear();
}

fn apply_later(world: &mut World, node: u64, add: impl FnOnce(&mut bevy_ecs::system::EntityCommands)) {
    let mut queue = CommandQueue::default();
    {
        let mut commands = Commands::new(&mut queue, world);
        add(&mut commands.entity(Entity::from_bits(node)));
    }
    queue.apply(world);
}

#[test]
fn the_world_follows_the_graph_through_two_thousand_operations() {
    let mut world = World::new();
    world.insert_resource(Events::<HierarchyEvent>::default());
    let mut model = Model { nodes: Vec::new(), edges: BTreeSet::new(), events: Vec::new() };
    for _ in 0..7 {
        model.nodes.push(world.spawn_empty().id().to_bits());
    }
    let mut dice = Dice(2024);

    for _ in 0..2000 {
        let p = dice.node(&model);
        let q = dice.node(&model);
        let c = dice.node(&model);
        let cs = dice.nodes(&model);
        let way = dice.roll(3);
        match dice.roll(11) {
            0 => {
                match way {
                    0 => {
                        world.entity_mut(Entity::from_bits(p)).add_child(c);
                    }
                    1 => apply_later(&mut world, p, |e| {
                        e.add_child(c);
                    }),
                    _ => operations::add_child(&mut world, p, c),
                }
                model.attach(p, c);
            }
            1 => {
                match way {
                    0 => {
                        world.entity_mut(Entity::from_bits(c)).set_parent(p);
                    }
                    1 => apply_later(&mut world, c, |e| {
                        e.set_parent(p);
                    }),
                    _ => operations::add_child(&mut world, p, c),
                }
                model.attach(p, c);
            }
            2 => {
                match way {
                    0 => {
                        world.entity_mut(Entity::from_bits(c)).remove_parent(p);
                    }
                    1 => apply_later(&mut world, c, |e| {
                        e.remove_parent(p);
                    }),
                    _ => operations::remove_parent(&mut world, c, p),
                }
                model.detach(p, c);
            }
            3 => {
                match way {
                    0 => {
                        world.entity_mut(Entity::from_bits(p)).push_children(&cs);
                    }
                    1 => apply_later(&mut world, p, |e| {
                        e.push_children(&cs);
                    }),
                    _ => operations::push_children(&mut world, p, &cs),
                }
                for &child in &cs {
                    model.attach(p, child);
                }
            }
            4 => {
                match way {
                    0 => {
                        world.entity_mut(Entity::from_bits(p)).remove_children(&cs);
                    }
                    1 => apply_later(&mut world, p, |e| {
                        e.remove_children(&cs);
                    }),
                    _ => operations::remove_children(p, &cs, &mut world),
                }
                for &child in &cs {
                    model.detach(p, child);
                }
            }
            5 => {
                match way {
                    0 => operations::clear_children(&mut world, p),
                    _ => apply_later(&mut world, p, |e| {
                        e.clear_children();
                    }),
                }
                model.replace(p, &[]);
            }
            6 => {
                match way {
                    0 => operations::replace_children(&mut world, p, &cs),
                    _ => apply_later(&mut world, p, |e| {
                        e.replace_children(&cs);
                    }),
                }
                model.replace(p, &cs);
            }
            7 => {
                match way {
                    0 => {
                        world.entity_mut(Entity::from_bits(p)).move_child(q, c);
                    }
                    1 => apply_later(&mut world, p, |e| {
                        e.move_child(q, c);
                    }),
                    _ => operations::move_child(&mut world, p, q, c),
                }
                model.move_child(p, q, c);
            }
            8 => {
                match way {
                    0 => {
                        world.entity_mut(Entity::from_bits(p)).move_children(q, &cs);
                    }
                    1 => apply_later(&mut world, p, |e| {
                        e.move_children(q, &cs);
                    }),
                    _ => operations::move_children(&mut world, p, q, &cs),
                }
                for &child in &cs {
                    model.move_child(p, q, child);
                }
            }
            9 => {
                // a node goes, and a child of `q` is spawned to take its place
                match way {
                    0 => world.entity_mut(Entity::from_bits(p)).clear(),
                    _ => operations::dispose(&mut world, p),
                }
                model.isolate(p);
                model.nodes.retain(|&n| n != p);
                assert!(world.get_entity(Entity::from_bits(p)).is_none());
                let parent = if q == p { dice.node(&model) } else { q };
                let mut born = 0;
                if way == 1 {
                    apply_later(&mut world, parent, |e| {
                        e.with_children(|builder| born = builder.spawn_empty());
                    });
                } else {
                    world.entity_mut(Entity::from_bits(parent)).with_children(|builder| {
                        born = builder.spawn_empty();
                    });
                }
                assert!(!model.nodes.contains(&born));
                model.nodes.push(born);
                model.attach(parent, born);
            }
            _ => {
                let down: BTreeSet<u64> = world.iter_descendants(p).drain().into_iter().collect();
                let up: BTreeSet<u64> = world.iter_ancestors(p).drain().into_iter().collect();
                assert_eq!(down, model.reachable(p, false));
                assert_eq!(up, model.reachable(p, true));
                assert_eq!(world.iter_descendants(p).drain().len(), down.len());
                assert_eq!(world.iter_ancestors(p).drain().len(), up.len());
            }
        }
        compare(&mut world, &mut model);
    }
}
