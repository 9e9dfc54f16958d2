use vstd::prelude::*;

use crate::time::{max_span_nanos, TimeSpan};

verus! {

/// The outline a node is drawn with.
#[derive(Clone, Copy, Debug, PartialEq, Eq, Structural)]
pub enum Shape {
    Circle,
    Square,
    Rectangle,
    Oval,
    Pentagon,
}

/// A point in world coordinates.
#[derive(Clone, Copy, Debug, PartialEq, Eq, Structural)]
pub struct Position {
    pub x: i32,
    pub y: i32,
    pub z: i32,
}

/// The presence-only tags a node can carry.
#[derive(Clone, Copy, Debug, PartialEq, Eq, Structural)]
pub enum Marker {
    Favorite,
    Lovely,
}

/// How long a node has existed, as summed over the ticks it has seen.
#[derive(Clone, Copy, Debug)]
pub struct ExistenceTime {
    pub elapsed: TimeSpan,
}

impl View for ExistenceTime {
    type V = nat;

    open spec fn view(&self) -> nat {
        self.elapsed@
    }
}

impl ExistenceTime {
    /// A counter that has seen no time yet.
    pub fn new() -> (r: ExistenceTime)
        ensures
            r@ == 0,
    {
        ExistenceTime { elapsed: TimeSpan::zero() }
    }

    /// Adds one tick's elapsed time to the counter.
    pub fn tick(&mut self, delta: &TimeSpan)
        requires
            old(self)@ + delta@ <= max_span_nanos(),
        ensures
            final(self)@ == old(self)@ + delta@,
    {
        self.elapsed = self.elapsed.add(delta);
    }
}

/// The components of one node: a display name, and each optional component
/// either present or absent.
#[derive(Debug)]
pub struct Node {
    pub name: String,
    pub shape: Option<Shape>,
    pub favorite: bool,
    pub lovely: bool,
    pub description: Option<String>,
    pub existence: Option<ExistenceTime>,
    pub position: Option<Position>,
}

/// The mathematical content of a `Node`.
pub ghost struct NodeView {
    pub name: Seq<char>,
    pub shape: Option<Shape>,
    pub favorite: bool,
    pub lovely: bool,
    pub description: Option<Seq<char>>,
    pub existence: Option<nat>,
    pub position: Option<Position>,
}

impl View for Node {
    type V = NodeView;

    open spec fn view(&self) -> NodeView {
        NodeView {
            name: self.name@,
            shape: self.shape,
            favorite: self.favorite,
            lovely: self.lovely,
            description: match self.description {
                Some(d) => Some(d@),
                None => None,
            },
            existence: match self.existence {
                Some(e) => Some(e@),
                None => None,
            },
            position: self.position,
        }
    }
}

/// Whether a node carries the given marker.
pub open spec fn has_marker(n: NodeView, m: Marker) -> bool {
    match m {
        Marker::Favorite => n.favorite,
        Marker::Lovely => n.lovely,
    }
}

impl Node {
    /// Whether this node carries the given marker.
    pub fn has(&self, m: Marker) -> (r: bool)
        ensures
            r == has_marker(self@, m),
    {
        match m {
            Marker::Favorite => self.favorite,
            Marker::Lovely => self.lovely,
        }
    }
}

/// One node of the store together with the id of the node it is grouped
/// under, if any.
pub ghost struct EntityView {
    pub node: NodeView,
    pub parent: Option<nat>,
}

struct Entity {
    node: Node,
    parent: Option<usize>,
}

impl View for Entity {
    type V = EntityView;

    closed spec fn view(&self) -> EntityView {
        EntityView {
            node: self.node@,
            parent: match self.parent {
                Some(p) => Some(p as nat),
                None => None,
            },
        }
    }
}

/// Every parent id names a node spawned earlier, so grouping never forms a
/// cycle.
pub open spec fn parents_precede(s: Seq<EntityView>) -> bool {
    forall|i: int| 0 <= i < s.len() ==> (#[trigger] s[i].parent matches Some(p) ==> p < i)
}

/// The ids, in increasing order, of the entities of `s` that satisfy `f`.
pub open spec fn matching_ids(s: Seq<EntityView>, f: spec_fn(EntityView) -> bool) -> Seq<nat>
    decreases s.len(),
{
    if s.len() == 0 {
        Seq::empty()
    } else {
        let earlier = matching_ids(s.drop_last(), f);
        if f(s.last()) {
            earlier.push((s.len() - 1) as nat)
        } else {
            earlier
        }
    }
}

/// The ids of the nodes grouped directly under `parent`, in spawn order.
pub open spec fn children_of(s: Seq<EntityView>, parent: nat) -> Seq<nat> {
    matching_ids(s, |e: EntityView| e.parent == Some(parent))
}

/// The ids of the nodes that carry marker `m`, in spawn order.
pub open spec fn marked_with(s: Seq<EntityView>, m: Marker) -> Seq<nat> {
    matching_ids(s, |e: EntityView| has_marker(e.node, m))
}

/// One entity after a tick of `delta` nanoseconds: its existence counter, if
/// it has one, grows by `delta`; nothing else changes.
pub open spec fn ticked_entity(e: EntityView, delta: nat) -> EntityView {
    match e.node.existence {
        Some(t) => EntityView { node: NodeView { existence: Some(t + delta), ..e.node }, ..e },
        None => e,
    }
}

/// The whole store after a tick of `delta` nanoseconds.
pub open spec fn ticked(s: Seq<EntityView>, delta: nat) -> Seq<EntityView> {
    s.map_values(|e: EntityView| ticked_entity(e, delta))
}

/// Whether every existence counter of `s` can take `delta` more nanoseconds.
pub open spec fn can_tick(s: Seq<EntityView>, delta: nat) -> bool {
    forall|i: int|
        0 <= i < s.len() ==> (#[trigger] s[i].node.existence matches Some(t) ==> t + delta
            <= max_span_nanos())
}

/// The initial scene, for a store that already holds `base` nodes: a top-level
/// parent followed by its two children.
pub open spec fn seed_scene(base: nat) -> Seq<EntityView> {
    seq![
        EntityView {
            node: NodeView {
                name: "Parent Node"@,
                shape: Some(Shape::Circle),
                favorite: true,
                lovely: false,
                description: None,
                existence: None,
                position: Some(Position { x: 0, y: 0, z: 0 }),
            },
            parent: None,
        },
        EntityView {
            node: NodeView {
                name: "Child Node 1"@,
                shape: Some(Shape::Pentagon),
                favorite: false,
                lovely: true,
                description: None,
                existence: None,
                position: Some(Position { x: 2, y: 2, z: 2 }),
            },
            parent: Some(base),
        },
        EntityView {
            node: NodeView {
                name: "Child Node 2"@,
                shape: Some(Shape::Square),
                favorite: false,
                lovely: false,
                description: Some("This node has parent"@),
                existence: None,
                position: Some(Position { x: -2i32, y: -2i32, z: -2i32 }),
            },
            parent: Some(base),
        },
    ]
}

/// The store of nodes. Ids are positions in spawn order; nodes are never
/// removed.
pub struct World {
    entities: Vec<Entity>,
}

impl View for World {
    type V = Seq<EntityView>;

    closed spec fn view(&self) -> Seq<EntityView> {
        self.entities@.map_values(|e: Entity| e@)
    }
}

impl World {
    /// An empty store.
    pub fn new() -> (r: World)
        ensures
            r@ == Seq::<EntityView>::empty(),
    {
        let r = World { entities: Vec::new() };
        assert(r@ =~= Seq::<EntityView>::empty());
        r
    }

    /// The number of nodes.
    pub fn len(&self) -> (r: usize)
        ensures
            r == self@.len(),
    {
        self.entities.len()
    }

    /// The node with id `id`.
    pub fn node(&self, id: usize) -> (r: &Node)
        requires
            id < self@.len(),
        ensures
            r@ == self@[id as int].node,
    {
        &self.entities[id].node
    }

    /// The id of the node that `id` is grouped under, if any.
    pub fn parent(&self, id: usize) -> (r: Option<usize>)
        requires
            id < self@.len(),
        ensures
            r matches Some(p) ==> self@[id as int].parent == Some(p as nat),
            r is None ==> self@[id as int].parent is None,
    {
        self.entities[id].parent
    }

    /// Adds a node at top level and returns its id.
    pub fn spawn(&mut self, node: Node) -> (id: usize)
        requires
            old(self)@.len() < usize::MAX,
        ensures
            id == old(self)@.len(),
            final(self)@ == old(self)@.push(EntityView { node: node@, parent: None }),
    {
        let ghost n = node@;
        let id = self.entities.len();
        self.entities.push(Entity { node, parent: None });
        assert(self@ =~= old(self)@.push(EntityView { node: n, parent: None }));
        id
    }

    /// Adds a node grouped under `parent` and returns its id.
    pub fn with_child(&mut self, parent: usize, node: Node) -> (id: usize)
        requires
            parent < old(self)@.len() < usize::MAX,
        ensures
            id == old(self)@.len(),
            final(self)@ == old(self)@.push(EntityView { node: node@, parent: Some(parent as nat) }),
    {
        let ghost n = node@;
        let id = self.entities.len();
        self.entities.push(Entity { node, parent: Some(parent) });
        assert(self@ =~= old(self)@.push(EntityView { node: n, parent: Some(parent as nat) }));
        id
    }

    /// The ids of the nodes grouped directly under `parent`, in spawn order.
    pub fn children(&self, parent: usize) -> (r: Vec<usize>)
        ensures
            r@.map_values(|i: usize| i as nat) == children_of(self@, parent as nat),
    {
        let ghost f = |e: EntityView| e.parent == Some(parent as nat);
        let mut r: Vec<usize> = Vec::new();
        let mut i: usize = 0;
        while i < self.entities.len()
            invariant
                i <= self@.len(),
                self@.len() == self.entities@.len(),
                r@.map_values(|k: usize| k as nat) == matching_ids(self@.take(i as int), f),
                f == (|e: EntityView| e.parent == Some(parent as nat)),
            decreases self@.len() - i,
        {
            proof {
                lemma_matching_ids_step(self@, f, i as int);
            }
            let ghost before = r@;
            assert(self@[i as int] == self.entities@[i as int]@);
            let is_child = match self.entities[i].parent {
                Some(p) => p == parent,
                None => false,
            };
            assert(is_child == f(self@[i as int]));
            if is_child {
                r.push(i);
                assert(r@.map_values(|k: usize| k as nat) =~= before.map_values(|k: usize| k as nat).push(
                    i as nat,
                ));
            }
            i = i + 1;
        }
        assert(self@.take(self@.len() as int) =~= self@);
        r
    }

    /// The ids of the nodes that carry marker `m`, in spawn order.
    pub fn query_marker(&self, m: Marker) -> (r: Vec<usize>)
        ensures
            r@.map_values(|i: usize| i as nat) == marked_with(self@, m),
    {
        let ghost f = |e: EntityView| has_marker(e.node, m);
        let mut r: Vec<usize> = Vec::new();
        let mut i: usize = 0;
        while i < self.entities.len()
            invariant
                i <= self@.len(),
                self@.len() == self.entities@.len(),
                r@.map_values(|k: usize| k as nat) == matching_ids(self@.take(i as int), f),
                f == (|e: EntityView| has_marker(e.node, m)),
            decreases self@.len() - i,
        {
            proof {
                lemma_matching_ids_step(self@, f, i as int);
            }
            let ghost before = r@;
            assert(self@[i as int] == self.entities@[i as int]@);
            let marked = self.entities[i].node.has(m);
            assert(marked == f(self@[i as int]));
            if marked {
                r.push(i);
                assert(r@.map_values(|k: usize| k as nat) =~= before.map_values(|k: usize| k as nat).push(
                    i as nat,
                ));
            }
            i = i + 1;
        }
        assert(self@.take(self@.len() as int) =~= self@);
        r
    }

    /// Attaches an existence counter to node `id`, replacing any it had.
    pub fn insert_existence_time(&mut self, id: usize, t: ExistenceTime)
        requires
            id < old(self)@.len(),
        ensures
            final(self)@ == old(self)@.update(
                id as int,
                EntityView {
                    node: NodeView { existence: Some(t@), ..old(self)@[id as int].node },
                    ..old(self)@[id as int]
                },
            ),
    {
        self.entities[id].node.existence = Some(t);
        assert(self@ =~= old(self)@.update(
            id as int,
            EntityView {
                node: NodeView { existence: Some(t@), ..old(self)@[id as int].node },
                ..old(self)@[id as int]
            },
        ));
    }

    /// Adds `delta` to the existence counter of every node that has one.
    pub fn tick(&mut self, delta: &TimeSpan)
        requires
            can_tick(old(self)@, delta@),
        ensures
            final(self)@ == ticked(old(self)@, delta@),
    {
        let mut i: usize = 0;
        while i < self.entities.len()
            invariant
                i <= self@.len(),
                self@.len() == old(self)@.len() == self.entities@.len(),
                can_tick(old(self)@, delta@),
                forall|j: int|
                    0 <= j < i ==> #[trigger] self.entities@[j]@ == ticked_entity(
                        old(self).entities@[j]@,
                        delta@,
                    ),
                forall|j: int|
                    i <= j < self@.len() ==> #[trigger] self.entities@[j] == old(self).entities@[j],
            decreases self@.len() - i,
        {
            assert(old(self)@[i as int] == old(self).entities@[i as int]@);
            if let Some(mut t) = self.entities[i].node.existence {
                assert(old(self)@[i as int].node.existence == Some(t@));
                t.tick(delta);
                self.entities[i].node.existence = Some(t);
            }
            i = i + 1;
        }
        assert forall|j: int| 0 <= j < self@.len() implies #[trigger] self@[j] == ticked(
            old(self)@,
            delta@,
        )[j] by {
            assert(self@[j] == self.entities@[j]@);
            assert(old(self)@[j] == old(self).entities@[j]@);
        }
        assert(self@ =~= ticked(old(self)@, delta@));
    }
}

/// Taking one more entity adds its id to the matching ids exactly when it
/// matches.
proof fn lemma_matching_ids_step(s: Seq<EntityView>, f: spec_fn(EntityView) -> bool, i: int)
    requires
        0 <= i < s.len(),
    ensures
        matching_ids(s.take(i + 1), f) == if f(s[i]) {
            matching_ids(s.take(i), f).push(i as nat)
        } else {
            matching_ids(s.take(i), f)
        },
{
    assert(s.take(i + 1).drop_last() =~= s.take(i));
}

/// Seeds the store with the initial scene: a favourite circle at the origin
/// and, grouped under it, a lovely pentagon at (2, 2, 2) and a described
/// square at (-2, -2, -2).
pub fn setup(world: &mut World)
    requires
        old(world)@.len() + 3 <= usize::MAX,
    ensures
        final(world)@ == old(world)@ + seed_scene(old(world)@.len()),
{
    proof {
        reveal_strlit("Parent Node");
        reveal_strlit("Child Node 1");
        reveal_strlit("Child Node 2");
        reveal_strlit("This node has parent");
    }
    let parent = world.spawn(
        Node {
            name: "Parent Node".to_owned(),
            shape: Some(Shape::Circle),
            favorite: true,
            lovely: false,
            description: None,
            existence: None,
            position: Some(Position { x: 0, y: 0, z: 0 }),
        },
    );
    world.with_child(
        parent,
        Node {
            name: "Child Node 1".to_owned(),
            shape: Some(Shape::Pentagon),
            favorite: false,
            lovely: true,
            description: None,
            existence: None,
            position: Some(Position { x: 2, y: 2, z: 2 }),
        },
    );
    world.with_child(
        parent,
        Node {
            name: "Child Node 2".to_owned(),
            shape: Some(Shape::Square),
            favorite: false,
            lovely: false,
            description: Some("This node has parent".to_owned()),
            existence: None,
            position: Some(Position { x: -2, y: -2, z: -2 }),
        },
    );
    assert(world@ =~= old(world)@ + seed_scene(old(world)@.len()));
}

/// Adds one tick's elapsed time to every existence counter of the store.
pub fn update_time(world: &mut World, delta: &TimeSpan)
    requires
        can_tick(old(world)@, delta@),
    ensures
        final(world)@ == ticked(old(world)@, delta@),
{
    world.tick(delta);
}

} // verus!
