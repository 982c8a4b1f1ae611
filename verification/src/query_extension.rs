//! Walks over the descendants and the ancestors of a node.
//!
//! A walk keeps the nodes that it has yielded and a frontier of nodes that it
//! has seen but not yielded. Each step yields the smallest node of the
//! frontier and adds to the frontier the neighbours of that node that were
//! not yielded before. So no node is yielded twice, and the walk ends on any
//! graph, also where paths meet again or run in a circle.
use bevy_ecs::world::World;
use crate::consistency::consistent;
use crate::consistency::members;
use crate::ordered::lemma_keys_ascend;
use crate::ordered::pop_first;
use crate::store::read_children;
use crate::store::read_parents;
use crate::store::world_children;
use crate::store::world_nodes;
use crate::store::world_parents;
use std::collections::BTreeSet;
use vstd::prelude::*;
use vstd::std_specs::btree::spec_btree_keys_iter;
use vstd::std_specs::iter::IteratorSpec;

verus! {

/// `nodes` is a walk along the edges of `sets`: each node but the first is a
/// member of the set of the one before it.
pub open spec fn is_path(sets: Map<u64, Set<u64>>, nodes: Seq<u64>) -> bool {
    forall|i: int| 0 <= i < nodes.len() - 1 ==> members(sets, #[trigger] nodes[i]).contains(nodes[i + 1])
}

/// There is a walk of one edge or more from `from` to `to`.
pub open spec fn reaches(sets: Map<u64, Set<u64>>, from: u64, to: u64) -> bool {
    exists|nodes: Seq<u64>|
        is_path(sets, nodes) && nodes.len() >= 2 && nodes[0] == from && #[trigger] nodes.last()
            == to
}

/// The nodes that a walk of one edge or more from `from` ends in.
pub open spec fn reachable(sets: Map<u64, Set<u64>>, from: u64) -> Set<u64> {
    Set::new(|to: u64| reaches(sets, from, to))
}

/// The invariant of a walk from `root`: no node is both yielded and in the
/// frontier, every node of either is reachable, and every neighbour of the
/// root and of a yielded node is yielded or in the frontier.
#[verifier::opaque]
pub open spec fn covers(
    sets: Map<u64, Set<u64>>,
    root: u64,
    visited: Set<u64>,
    waiting: Set<u64>,
) -> bool {
    &&& forall|n: u64| !(visited.contains(n) && waiting.contains(n))
    &&& forall|n: u64| visited.contains(n) || waiting.contains(n) ==> reaches(sets, root, n)
    &&& forall|n: u64| #[trigger]
        members(sets, root).contains(n) ==> visited.contains(n) || waiting.contains(n)
    &&& forall|v: u64, n: u64|
        visited.contains(v) && #[trigger] members(sets, v).contains(n) ==> visited.contains(n)
            || waiting.contains(n)
}

/// The frontier after `node` was yielded: `node` has left it, and those of
/// its neighbours have joined that are not yielded by then.
pub open spec fn advance(
    sets: Map<u64, Set<u64>>,
    visited: Set<u64>,
    waiting: Set<u64>,
    node: u64,
) -> Set<u64> {
    waiting.remove(node).union(members(sets, node).difference(visited.insert(node)))
}

/// The smallest member of a set that has one.
pub open spec fn least(s: Set<u64>) -> u64 {
    choose|m: u64| s.contains(m) && forall|x: u64| s.contains(x) ==> m <= x
}

/// A member that no member is smaller than is the smallest one.
pub proof fn lemma_least_is(s: Set<u64>, m: u64)
    requires
        s.contains(m),
        forall|x: u64| s.contains(x) ==> m <= x,
    ensures
        least(s) == m,
{
}

/// Where a walk stands: what it has yielded, as a set and in order, and its
/// frontier.
pub struct Walk {
    /// The nodes yielded so far.
    pub visited: Set<u64>,
    /// The frontier: the nodes seen and not yielded.
    pub waiting: Set<u64>,
    /// The nodes yielded since the count began, in the order in which they
    /// came.
    pub yielded: Seq<u64>,
}

/// Where a walk over `sets` stands after `steps` steps from `visited` and
/// `waiting`, each of which yields the smallest node of the frontier.
pub open spec fn walk(
    sets: Map<u64, Set<u64>>,
    visited: Set<u64>,
    waiting: Set<u64>,
    steps: nat,
) -> Walk
    decreases steps,
{
    if steps == 0 {
        Walk { visited, waiting, yielded: Seq::empty() }
    } else {
        let before = walk(sets, visited, waiting, (steps - 1) as nat);
        let node = least(before.waiting);
        Walk {
            visited: before.visited.insert(node),
            waiting: advance(sets, before.visited, before.waiting, node),
            yielded: before.yielded.push(node),
        }
    }
}

/// A neighbour is reachable.
pub proof fn lemma_edge_reaches(sets: Map<u64, Set<u64>>, from: u64, to: u64)
    requires
        members(sets, from).contains(to),
    ensures
        reaches(sets, from, to),
{
    let nodes = seq![from, to];
    assert(nodes.last() == to);
}

/// A neighbour of a reachable node is reachable.
pub proof fn lemma_reaches_on(sets: Map<u64, Set<u64>>, from: u64, via: u64, to: u64)
    requires
        reaches(sets, from, via),
        members(sets, via).contains(to),
    ensures
        reaches(sets, from, to),
{
    let nodes = choose|nodes: Seq<u64>|
        is_path(sets, nodes) && nodes.len() >= 2 && nodes[0] == from && #[trigger] nodes.last()
            == via;
    let longer = nodes.push(to);
    assert forall|i: int| 0 <= i < longer.len() - 1 implies members(
        sets,
        #[trigger] longer[i],
    ).contains(longer[i + 1]) by {
    }
    assert(longer.last() == to);
}

/// A walk starts with nothing yielded and the neighbours of the root in the
/// frontier.
pub proof fn lemma_covers_start(sets: Map<u64, Set<u64>>, root: u64)
    ensures
        covers(sets, root, Set::<u64>::empty(), members(sets, root)),
{
    reveal(covers);
    assert forall|n: u64| members(sets, root).contains(n) implies reaches(sets, root, n) by {
        lemma_edge_reaches(sets, root, n);
    }
}

/// A step of a walk keeps its invariant.
pub proof fn lemma_covers_step(
    sets: Map<u64, Set<u64>>,
    root: u64,
    visited: Set<u64>,
    waiting: Set<u64>,
    node: u64,
)
    requires
        covers(sets, root, visited, waiting),
        waiting.contains(node),
    ensures
        covers(sets, root, visited.insert(node), advance(sets, visited, waiting, node)),
        !visited.contains(node),
        reaches(sets, root, node),
{
    reveal(covers);
    let seen = visited.insert(node);
    let next = advance(sets, visited, waiting, node);
    assert forall|n: u64| seen.contains(n) || next.contains(n) implies reaches(sets, root, n) by {
        if !(visited.contains(n) || waiting.contains(n)) {
            lemma_reaches_on(sets, root, node, n);
        }
    }
    assert forall|v: u64, n: u64|
        seen.contains(v) && #[trigger] members(sets, v).contains(n) implies seen.contains(n)
        || next.contains(n) by {
    }
}

/// Every node on a walk from the root lies among the yielded ones once the
/// frontier is empty.
proof fn lemma_walk_within(
    sets: Map<u64, Set<u64>>,
    root: u64,
    visited: Set<u64>,
    nodes: Seq<u64>,
    k: int,
)
    requires
        covers(sets, root, visited, Set::<u64>::empty()),
        is_path(sets, nodes),
        nodes.len() >= 2,
        nodes[0] == root,
        1 <= k < nodes.len(),
    ensures
        visited.contains(nodes[k]),
    decreases k,
{
    reveal(covers);
    if k == 1 {
    } else {
        lemma_walk_within(sets, root, visited, nodes, k - 1);
    }
}

/// A walk whose frontier is empty has yielded exactly the nodes that are
/// reachable from its root.
pub proof fn lemma_covers_done(sets: Map<u64, Set<u64>>, root: u64, visited: Set<u64>)
    requires
        covers(sets, root, visited, Set::<u64>::empty()),
    ensures
        visited == reachable(sets, root),
{
    reveal(covers);
    assert forall|n: u64| reachable(sets, root).contains(n) implies visited.contains(n) by {
        let nodes = choose|nodes: Seq<u64>|
            is_path(sets, nodes) && nodes.len() >= 2 && nodes[0] == root
                && #[trigger] nodes.last() == n;
        lemma_walk_within(sets, root, visited, nodes, nodes.len() - 1);
    }
}

/// The state of a walk: the nodes yielded so far and the frontier.
pub struct Frontier {
    visited: BTreeSet<u64>,
    nexts: BTreeSet<u64>,
}

impl Frontier {
    /// The nodes yielded so far.
    pub closed spec fn visited(&self) -> Set<u64> {
        self.visited@
    }

    /// The frontier: the nodes seen and not yielded.
    pub closed spec fn waiting(&self) -> Set<u64> {
        self.nexts@
    }

    /// A walk that has seen nothing.
    pub fn new() -> (r: Self)
        ensures
            r.visited() == Set::<u64>::empty(),
            r.waiting() == Set::<u64>::empty(),
    {
        Frontier { visited: BTreeSet::new(), nexts: BTreeSet::new() }
    }

    /// Adds to the frontier the members of `found` that were not yielded.
    pub fn expand(&mut self, found: &BTreeSet<u64>)
        ensures
            final(self).visited() == old(self).visited(),
            final(self).waiting() == old(self).waiting().union(
                found@.difference(old(self).visited()),
            ),
    {
        let ghost keys = spec_btree_keys_iter(found).remaining();
        proof {
            lemma_keys_ascend(found);
        }
        let iter = found.iter();
        for node in it: iter
            invariant
                it.seq() == keys,
                keys.unref().to_set() == found@,
                self.visited@ == old(self).visited@,
                forall|x: u64|
                    self.nexts@.contains(x) <==> old(self).nexts@.contains(x) || (exists|k: int|
                        0 <= k < it.index() && *keys[k] == x && !self.visited@.contains(x)),
        {
            let ghost before = self.nexts@;
            let ghost at = it.index();
            if !self.visited.contains(node) {
                self.nexts.insert(*node);
            }
            proof {
                assert forall|x: u64|
                    self.nexts@.contains(x) <==> old(self).nexts@.contains(x) || (exists|k: int|
                        0 <= k < at + 1 && *keys[k] == x && !self.visited@.contains(x)) by {
                    if self.nexts@.contains(x) && !old(self).nexts@.contains(x) {
                        if before.contains(x) {
                            let k = choose|k: int|
                                0 <= k < at && *keys[k] == x && !self.visited@.contains(x);
                        }
                    }
                    if exists|k: int|
                        0 <= k < at + 1 && *keys[k] == x && !self.visited@.contains(x) {
                        let k = choose|k: int|
                            0 <= k < at + 1 && *keys[k] == x && !self.visited@.contains(x);
                    }
                }
            }
        }
        proof {
            assert forall|x: u64|
                self.nexts@.contains(x) <==> old(self).nexts@.contains(x) || (found@.contains(x)
                    && !old(self).visited@.contains(x)) by {
                if found@.contains(x) {
                    let k = choose|k: int| 0 <= k < keys.unref().len() && keys.unref()[k] == x;
                }
                if exists|k: int| 0 <= k < keys.len() && *keys[k] == x {
                    let k = choose|k: int| 0 <= k < keys.len() && *keys[k] == x;
                    assert(keys.unref()[k] == x);
                }
            }
        }
    }

    /// Takes the smallest node out of the frontier and notes it as yielded;
    /// `None` where the frontier is empty.
    pub fn pop(&mut self) -> (r: Option<u64>)
        ensures
            match r {
                Some(node) => {
                    &&& old(self).waiting().contains(node)
                    &&& forall|x: u64| old(self).waiting().contains(x) ==> node <= x
                    &&& final(self).waiting() == old(self).waiting().remove(node)
                    &&& final(self).visited() == old(self).visited().insert(node)
                },
                None => {
                    &&& old(self).waiting().is_empty()
                    &&& final(self).waiting() == old(self).waiting()
                    &&& final(self).visited() == old(self).visited()
                },
            },
    {
        match pop_first(&mut self.nexts) {
            Some(node) => {
                self.visited.insert(node);
                Some(node)
            },
            None => None,
        }
    }
}

/// Which way a walk goes.
#[derive(Clone, Copy)]
enum Direction {
    /// From a node to its children.
    Down,
    /// From a node to its parents.
    Up,
}

/// The edges that a walk in `direction` follows: the `Children` or the
/// `Parents` components of the world.
spec fn edges_along(w: World, direction: Direction) -> Map<u64, Set<u64>> {
    match direction {
        Direction::Down => world_children(w),
        Direction::Up => world_parents(w),
    }
}

/// In a consistent world every node that is reachable over components is
/// alive.
proof fn lemma_reached_alive(w: World, direction: Direction, root: u64, node: u64)
    requires
        consistent(w),
        reaches(edges_along(w, direction), root, node),
    ensures
        world_nodes(w).contains(node),
{
    let sets = edges_along(w, direction);
    let nodes = choose|nodes: Seq<u64>|
        is_path(sets, nodes) && nodes.len() >= 2 && nodes[0] == root && #[trigger] nodes.last()
            == node;
    let k = nodes.len() - 2;
    assert(members(sets, nodes[k]).contains(nodes[k + 1]));
}

/// A walk in either direction. The direction is handed to each call, so
/// that the walk itself need not remember it.
struct Walker<'w> {
    world: &'w World,
    root: Ghost<u64>,
    frontier: Frontier,
}

impl<'w> Walker<'w> {
    spec fn world(&self) -> World {
        *self.world
    }

    spec fn root(&self) -> u64 {
        self.root@
    }

    spec fn visited(&self) -> Set<u64> {
        self.frontier.visited()
    }

    spec fn waiting(&self) -> Set<u64> {
        self.frontier.waiting()
    }

    spec fn wf(&self, direction: Direction) -> bool {
        covers(edges_along(self.world(), direction), self.root(), self.visited(), self.waiting())
    }

    /// The neighbours of `node` in `direction`, where it has any.
    fn neighbours(world: &'w World, direction: Direction, node: u64) -> (r: Option<
        &'w BTreeSet<u64>,
    >)
        ensures
            r.is_some() == edges_along(*world, direction).contains_key(node),
            r.is_some() ==> r.unwrap()@ == edges_along(*world, direction)[node],
    {
        match direction {
            Direction::Down => match read_children(world, node) {
                Some(set) => Some(set.as_set()),
                None => None,
            },
            Direction::Up => match read_parents(world, node) {
                Some(set) => Some(set.as_set()),
                None => None,
            },
        }
    }

    fn new(world: &'w World, direction: Direction, entity: u64) -> (r: Self)
        ensures
            r.world() == *world,
            r.root() == entity,
            r.visited() == Set::<u64>::empty(),
            r.waiting() == members(edges_along(*world, direction), entity),
            r.wf(direction),
    {
        let mut frontier = Frontier::new();
        match Self::neighbours(world, direction, entity) {
            Some(set) => {
                frontier.expand(set);
            },
            None => {},
        }
        proof {
            lemma_covers_start(edges_along(*world, direction), entity);
        }
        Walker { world, root: Ghost(entity), frontier }
    }

    fn next(&mut self, direction: Direction) -> (r: Option<u64>)
        ensures
            final(self).world() == old(self).world(),
            final(self).root() == old(self).root(),
            match r {
                Some(node) => {
                    &&& old(self).waiting().contains(node)
                    &&& forall|x: u64| old(self).waiting().contains(x) ==> node <= x
                    &&& final(self).visited() == old(self).visited().insert(node)
                    &&& final(self).waiting() == advance(
                        edges_along(old(self).world(), direction),
                        old(self).visited(),
                        old(self).waiting(),
                        node,
                    )
                },
                None => {
                    &&& old(self).waiting().is_empty()
                    &&& final(self).visited() == old(self).visited()
                    &&& final(self).waiting() == old(self).waiting()
                },
            },
            old(self).wf(direction) ==> final(self).wf(direction),
            old(self).wf(direction) ==> match r {
                Some(node) => !old(self).visited().contains(node),
                None => final(self).visited() == reachable(
                    edges_along(old(self).world(), direction),
                    old(self).root(),
                ),
            },
    {
        let ghost sets = edges_along(self.world(), direction);
        match self.frontier.pop() {
            Some(entity) => {
                match Self::neighbours(self.world, direction, entity) {
                    Some(set) => {
                        self.frontier.expand(set);
                    },
                    None => {},
                }
                proof {
                    assert(self.frontier.waiting() =~= advance(
                        sets,
                        old(self).visited(),
                        old(self).waiting(),
                        entity,
                    ));
                    if old(self).wf(direction) {
                        lemma_covers_step(
                            sets,
                            old(self).root(),
                            old(self).visited(),
                            old(self).waiting(),
                            entity,
                        );
                    }
                }
                Some(entity)
            },
            None => {
                proof {
                    if old(self).wf(direction) {
                        lemma_covers_done(sets, old(self).root(), old(self).visited());
                    }
                }
                None
            },
        }
    }

    fn drain(&mut self, direction: Direction) -> (r: Vec<u64>)
        requires
            old(self).wf(direction),
            consistent(old(self).world()),
        ensures
            final(self).wf(direction),
            final(self).world() == old(self).world(),
            final(self).root() == old(self).root(),
            final(self).waiting().is_empty(),
            final(self).visited() == reachable(
                edges_along(old(self).world(), direction),
                old(self).root(),
            ),
            r@.no_duplicates(),
            r@.to_set() == reachable(
                edges_along(old(self).world(), direction),
                old(self).root(),
            ).difference(old(self).visited()),
            r@ == walk(
                edges_along(old(self).world(), direction),
                old(self).visited(),
                old(self).waiting(),
                r@.len(),
            ).yielded,
            walk(
                edges_along(old(self).world(), direction),
                old(self).visited(),
                old(self).waiting(),
                r@.len(),
            ).waiting.is_empty(),
            forall|k: nat|
                k < r@.len() ==> !(#[trigger] walk(
                    edges_along(old(self).world(), direction),
                    old(self).visited(),
                    old(self).waiting(),
                    k,
                )).waiting.is_empty(),
    {
        let mut out: Vec<u64> = Vec::new();
        let ghost sets = edges_along(self.world(), direction);
        let ghost start = old(self).visited();
        let ghost front = old(self).waiting();
        loop
            invariant_except_break
                self.wf(direction),
                consistent(self.world()),
                self.world() == old(self).world(),
                self.root() == old(self).root(),
                sets == edges_along(self.world(), direction),
                start == old(self).visited(),
                front == old(self).waiting(),
                start.subset_of(self.visited()),
                out@.no_duplicates(),
                out@.to_set() == self.visited().difference(start),
                walk(sets, start, front, out@.len()) == (Walk {
                    visited: self.visited(),
                    waiting: self.waiting(),
                    yielded: out@,
                }),
                forall|k: nat|
                    k < out@.len() ==> !(#[trigger] walk(sets, start, front, k)).waiting.is_empty(),
            ensures
                self.wf(direction),
                self.world() == old(self).world(),
                self.root() == old(self).root(),
                self.waiting().is_empty(),
                self.visited() == reachable(sets, old(self).root()),
                out@.no_duplicates(),
                out@.to_set() == self.visited().difference(start),
                out@ == walk(sets, start, front, out@.len()).yielded,
                walk(sets, start, front, out@.len()).waiting.is_empty(),
                forall|k: nat|
                    k < out@.len() ==> !(#[trigger] walk(sets, start, front, k)).waiting.is_empty(),
            decreases world_nodes(self.world()).difference(self.visited()).len(),
        {
            let ghost before = self.visited();
            let ghost waiting = self.waiting();
            let ghost prior = out@;
            match self.next(direction) {
                Some(node) => {
                    out.push(node);
                    proof {
                        lemma_covers_step(sets, self.root(), before, waiting, node);
                        lemma_reached_alive(self.world(), direction, self.root(), node);
                        let rest = world_nodes(self.world()).difference(before);
                        assert(world_nodes(self.world()).difference(self.visited()) =~= rest.remove(
                            node,
                        ));
                        assert(!prior.to_set().contains(node));
                        assert forall|x: u64| out@.contains(x) <==> prior.contains(x) || x
                            == node by {
                            vstd::seq_lib::lemma_seq_contains_after_push(prior, node, x);
                        }
                        assert forall|x: u64|
                            out@.to_set().contains(x) <==> self.visited().difference(
                                start,
                            ).contains(x) by {
                            assert(prior.to_set().contains(x) <==> prior.contains(x));
                        }
                        lemma_least_is(waiting, node);
                        assert forall|k: nat| k < out@.len() implies !(#[trigger] walk(
                            sets,
                            start,
                            front,
                            k,
                        )).waiting.is_empty() by {
                        }
                        assert forall|i: int, j: int|
                            0 <= i < out@.len() && 0 <= j < out@.len() && i != j implies out@[i]
                            != out@[j] by {
                        }
                    }
                },
                None => {
                    break ;
                },
            }
        }
        out
    }
}

/// A walk over the descendants of a node: every node that can be reached
/// from it over one `Children` component or more, each once, the smallest
/// of the frontier first.
pub struct DescendantIter<'w> {
    walker: Walker<'w>,
}

impl<'w> DescendantIter<'w> {
    /// The world that is walked.
    pub closed spec fn world(&self) -> World {
        self.walker.world()
    }

    /// The node whose descendants are walked.
    pub closed spec fn root(&self) -> u64 {
        self.walker.root()
    }

    /// The nodes yielded so far.
    pub closed spec fn visited(&self) -> Set<u64> {
        self.walker.visited()
    }

    /// The frontier: the nodes seen and not yielded.
    pub closed spec fn waiting(&self) -> Set<u64> {
        self.walker.waiting()
    }

    /// The edges that are walked: the `Children` components of the world.
    pub open spec fn sets(&self) -> Map<u64, Set<u64>> {
        world_children(self.world())
    }

    /// The invariant of the walk.
    pub open spec fn wf(&self) -> bool {
        covers(self.sets(), self.root(), self.visited(), self.waiting())
    }

    /// A walk over the descendants of `entity` that has yielded nothing yet.
    pub fn new(world: &'w World, entity: u64) -> (r: Self)
        ensures
            r.world() == *world,
            r.root() == entity,
            r.visited() == Set::<u64>::empty(),
            r.waiting() == members(world_children(*world), entity),
            r.wf(),
    {
        DescendantIter { walker: Walker::new(world, Direction::Down, entity) }
    }

    /// Yields the smallest node of the frontier, and puts those of its
    /// children into the frontier that were not yielded. `None` where the
    /// frontier is empty: the walk has then yielded every node that is
    /// reachable.
    pub fn next(&mut self) -> (r: Option<u64>)
        ensures
            final(self).world() == old(self).world(),
            final(self).root() == old(self).root(),
            match r {
                Some(node) => {
                    &&& old(self).waiting().contains(node)
                    &&& forall|x: u64| old(self).waiting().contains(x) ==> node <= x
                    &&& final(self).visited() == old(self).visited().insert(node)
                    &&& final(self).waiting() == advance(
                        old(self).sets(),
                        old(self).visited(),
                        old(self).waiting(),
                        node,
                    )
                },
                None => {
                    &&& old(self).waiting().is_empty()
                    &&& final(self).visited() == old(self).visited()
                    &&& final(self).waiting() == old(self).waiting()
                },
            },
            old(self).wf() ==> final(self).wf(),
            old(self).wf() ==> match r {
                Some(node) => !old(self).visited().contains(node),
                None => final(self).visited() == reachable(old(self).sets(), old(self).root()),
            },
    {
        self.walker.next(Direction::Down)
    }

    /// Runs the walk to its end and returns the nodes in the order in which
    /// they were yielded. On a walk that has yielded nothing yet these are
    /// the descendants of the root, each once.
    pub fn drain(&mut self) -> (r: Vec<u64>)
        requires
            old(self).wf(),
            consistent(old(self).world()),
        ensures
            final(self).wf(),
            final(self).world() == old(self).world(),
            final(self).root() == old(self).root(),
            final(self).waiting().is_empty(),
            final(self).visited() == reachable(old(self).sets(), old(self).root()),
            r@.no_duplicates(),
            r@.to_set() == reachable(old(self).sets(), old(self).root()).difference(
                old(self).visited(),
            ),
            r@ == walk(
                old(self).sets(),
                old(self).visited(),
                old(self).waiting(),
                r@.len(),
            ).yielded,
            walk(
                old(self).sets(),
                old(self).visited(),
                old(self).waiting(),
                r@.len(),
            ).waiting.is_empty(),
            forall|k: nat|
                k < r@.len() ==> !(#[trigger] walk(
                    old(self).sets(),
                    old(self).visited(),
                    old(self).waiting(),
                    k,
                )).waiting.is_empty(),
    {
        self.walker.drain(Direction::Down)
    }
}

/// A walk over the ancestors of a node: every node that can be reached from
/// it over one `Parents` component or more, each once, the smallest of the
/// frontier first.
pub struct AncestorIter<'w> {
    walker: Walker<'w>,
}

impl<'w> AncestorIter<'w> {
    /// The world that is walked.
    pub closed spec fn world(&self) -> World {
        self.walker.world()
    }

    /// The node whose ancestors are walked.
    pub closed spec fn root(&self) -> u64 {
        self.walker.root()
    }

    /// The nodes yielded so far.
    pub closed spec fn visited(&self) -> Set<u64> {
        self.walker.visited()
    }

    /// The frontier: the nodes seen and not yielded.
    pub closed spec fn waiting(&self) -> Set<u64> {
        self.walker.waiting()
    }

    /// The edges that are walked: the `Parents` components of the world.
    pub open spec fn sets(&self) -> Map<u64, Set<u64>> {
        world_parents(self.world())
    }

    /// The invariant of the walk.
    pub open spec fn wf(&self) -> bool {
        covers(self.sets(), self.root(), self.visited(), self.waiting())
    }

    /// A walk over the ancestors of `entity` that has yielded nothing yet.
    pub fn new(world: &'w World, entity: u64) -> (r: Self)
        ensures
            r.world() == *world,
            r.root() == entity,
            r.visited() == Set::<u64>::empty(),
            r.waiting() == members(world_parents(*world), entity),
            r.wf(),
    {
        AncestorIter { walker: Walker::new(world, Direction::Up, entity) }
    }

    /// Yields the smallest node of the frontier, and puts those of its
    /// parents into the frontier that were not yielded. `None` where the
    /// frontier is empty: the walk has then yielded every node that is
    /// reachable.
    pub fn next(&mut self) -> (r: Option<u64>)
        ensures
            final(self).world() == old(self).world(),
            final(self).root() == old(self).root(),
            match r {
                Some(node) => {
                    &&& old(self).waiting().contains(node)
                    &&& forall|x: u64| old(self).waiting().contains(x) ==> node <= x
                    &&& final(self).visited() == old(self).visited().insert(node)
                    &&& final(self).waiting() == advance(
                        old(self).sets(),
                        old(self).visited(),
                        old(self).waiting(),
                        node,
                    )
                },
                None => {
                    &&& old(self).waiting().is_empty()
                    &&& final(self).visited() == old(self).visited()
                    &&& final(self).waiting() == old(self).waiting()
                },
            },
            old(self).wf() ==> final(self).wf(),
            old(self).wf() ==> match r {
                Some(node) => !old(self).visited().contains(node),
                None => final(self).visited() == reachable(old(self).sets(), old(self).root()),
            },
    {
        self.walker.next(Direction::Up)
    }

    /// Runs the walk to its end and returns the nodes in the order in which
    /// they were yielded. On a walk that has yielded nothing yet these are
    /// the ancestors of the root, each once.
    pub fn drain(&mut self) -> (r: Vec<u64>)
        requires
            old(self).wf(),
            consistent(old(self).world()),
        ensures
            final(self).wf(),
            final(self).world() == old(self).world(),
            final(self).root() == old(self).root(),
            final(self).waiting().is_empty(),
            final(self).visited() == reachable(old(self).sets(), old(self).root()),
            r@.no_duplicates(),
            r@.to_set() == reachable(old(self).sets(), old(self).root()).difference(
                old(self).visited(),
            ),
            r@ == walk(
                old(self).sets(),
                old(self).visited(),
                old(self).waiting(),
                r@.len(),
            ).yielded,
            walk(
                old(self).sets(),
                old(self).visited(),
                old(self).waiting(),
                r@.len(),
            ).waiting.is_empty(),
            forall|k: nat|
                k < r@.len() ==> !(#[trigger] walk(
                    old(self).sets(),
                    old(self).visited(),
                    old(self).waiting(),
                    k,
                )).waiting.is_empty(),
    {
        self.walker.drain(Direction::Up)
    }
}

/// Walks over a hierarchy, for anything that gives read access to it.
pub trait HierarchyQueryExt<'w> {
    /// The world that is read.
    spec fn store(&self) -> World;

    /// A walk over the descendants of `entity`.
    fn iter_descendants(&'w self, entity: u64) -> (r: DescendantIter<'w>)
        ensures
            r.world() == self.store(),
            r.root() == entity,
            r.visited() == Set::<u64>::empty(),
            r.waiting() == members(world_children(self.store()), entity),
            r.wf(),
    ;

    /// A walk over the ancestors of `entity`.
    fn iter_ancestors(&'w self, entity: u64) -> (r: AncestorIter<'w>)
        ensures
            r.world() == self.store(),
            r.root() == entity,
            r.visited() == Set::<u64>::empty(),
            r.waiting() == members(world_parents(self.store()), entity),
            r.wf(),
    ;
}

impl<'w> HierarchyQueryExt<'w> for World {
    open spec fn store(&self) -> World {
        *self
    }

    fn iter_descendants(&'w self, entity: u64) -> (r: DescendantIter<'w>) {
        DescendantIter::new(self, entity)
    }

    fn iter_ancestors(&'w self, entity: u64) -> (r: AncestorIter<'w>) {
        AncestorIter::new(self, entity)
    }
}

} // verus!
