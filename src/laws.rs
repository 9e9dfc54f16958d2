use vstd::prelude::*;

use crate::scene::{
    children_of, marked_with, seed_scene, ticked, ticked_entity, EntityView, Marker, NodeView,
    Position, Shape,
};

verus! {

/// The total of a sequence of tick lengths.
pub open spec fn total(deltas: Seq<nat>) -> nat
    decreases deltas.len(),
{
    if deltas.len() == 0 {
        0
    } else {
        total(deltas.drop_last()) + deltas.last()
    }
}

/// `states` is a run of ticks: each state is the one before it after a tick of
/// the matching length in `deltas`.
pub open spec fn is_tick_run(states: Seq<Seq<EntityView>>, deltas: Seq<nat>) -> bool {
    &&& states.len() == deltas.len() + 1
    &&& forall|k: int| 0 <= k < deltas.len() ==> #[trigger] states[k + 1] == ticked(states[k], deltas[k])
}

/// Seeding an empty store yields exactly three nodes: "Parent Node", a
/// favourite circle at the origin; "Child Node 1", a lovely pentagon at
/// (2, 2, 2); "Child Node 2", a square at (-2, -2, -2) described as "This node
/// has parent". None of them carries an existence counter yet.
pub proof fn lemma_seeded_nodes(s: Seq<EntityView>)
    requires
        s == Seq::<EntityView>::empty() + seed_scene(0),
    ensures
        s.len() == 3,
        s[0].node == (NodeView {
            name: "Parent Node"@,
            shape: Some(Shape::Circle),
            favorite: true,
            lovely: false,
            description: None,
            existence: None,
            position: Some(Position { x: 0, y: 0, z: 0 }),
        }),
        s[1].node == (NodeView {
            name: "Child Node 1"@,
            shape: Some(Shape::Pentagon),
            favorite: false,
            lovely: true,
            description: None,
            existence: None,
            position: Some(Position { x: 2, y: 2, z: 2 }),
        }),
        s[2].node == (NodeView {
            name: "Child Node 2"@,
            shape: Some(Shape::Square),
            favorite: false,
            lovely: false,
            description: Some("This node has parent"@),
            existence: None,
            position: Some(Position { x: -2i32, y: -2i32, z: -2i32 }),
        }),
        forall|i: int| 0 <= i < s.len() ==> #[trigger] s[i].node.existence is None,
{
}

/// In a freshly seeded store the second and third nodes, and only they, are
/// grouped under the first, and the first is grouped under nothing.
pub proof fn lemma_seeded_grouping(s: Seq<EntityView>)
    requires
        s == Seq::<EntityView>::empty() + seed_scene(0),
    ensures
        s[0].parent is None,
        children_of(s, 0) == seq![1nat, 2nat],
{
    reveal_with_fuel(crate::scene::matching_ids, 4);
    assert(s.drop_last().drop_last().drop_last() =~= Seq::<EntityView>::empty());
    assert(children_of(s, 0) =~= seq![1nat, 2nat]);
}

/// In a freshly seeded store the only favourite node is the parent.
pub proof fn lemma_seeded_favorite(s: Seq<EntityView>)
    requires
        s == Seq::<EntityView>::empty() + seed_scene(0),
    ensures
        marked_with(s, Marker::Favorite) == seq![0nat],
{
    reveal_with_fuel(crate::scene::matching_ids, 4);
    assert(s.drop_last().drop_last().drop_last() =~= Seq::<EntityView>::empty());
    assert(marked_with(s, Marker::Favorite) =~= seq![0nat]);
}

/// After a run of ticks every existence counter has grown by the total of the
/// tick lengths, counters are neither added nor removed, and nothing else
/// about any node changes.
pub proof fn lemma_ticks_accumulate(states: Seq<Seq<EntityView>>, deltas: Seq<nat>)
    requires
        is_tick_run(states, deltas),
    ensures
        states.last() == ticked(states[0], total(deltas)),
        forall|i: int|
            0 <= i < states[0].len() && states[0][i].node.existence == Some(0nat)
                ==> #[trigger] states.last()[i].node.existence == Some(total(deltas)),
    decreases deltas.len(),
{
    lemma_ticks_accumulate_run(states, deltas);
    assert forall|i: int|
        0 <= i < states[0].len() && states[0][i].node.existence == Some(0nat)
            implies #[trigger] states.last()[i].node.existence == Some(total(deltas)) by {
        assert(ticked(states[0], total(deltas))[i] == ticked_entity(states[0][i], total(deltas)));
    }
}

/// The run of ticks ends where one tick of the total length would.
proof fn lemma_ticks_accumulate_run(states: Seq<Seq<EntityView>>, deltas: Seq<nat>)
    requires
        is_tick_run(states, deltas),
    ensures
        states.last() == ticked(states[0], total(deltas)),
    decreases deltas.len(),
{
    if deltas.len() == 0 {
        lemma_tick_zero(states[0]);
    } else {
        let n = deltas.len() - 1;
        lemma_ticks_accumulate_run(states.drop_last(), deltas.drop_last());
        assert(states.drop_last().last() == states[n]);
        assert(states.last() == ticked(states[n], deltas[n]));
        lemma_tick_merge(states[0], total(deltas.drop_last()), deltas[n]);
    }
}

/// Two ticks in a row equal one tick of their summed length, so the order of
/// the ticks does not matter.
pub proof fn lemma_tick_merge(s: Seq<EntityView>, d1: nat, d2: nat)
    ensures
        ticked(ticked(s, d1), d2) == ticked(s, d1 + d2),
        ticked(ticked(s, d1), d2) == ticked(ticked(s, d2), d1),
{
    assert forall|i: int| 0 <= i < s.len() implies #[trigger] ticked(ticked(s, d1), d2)[i]
        == ticked(s, d1 + d2)[i] && ticked(ticked(s, d2), d1)[i] == ticked(s, d1 + d2)[i] by {
        let e = s[i];
        assert(ticked(s, d1)[i] == ticked_entity(e, d1));
        assert(ticked(s, d2)[i] == ticked_entity(e, d2));
    }
    assert(ticked(ticked(s, d1), d2) =~= ticked(s, d1 + d2));
    assert(ticked(ticked(s, d2), d1) =~= ticked(s, d1 + d2));
}

/// A tick of zero length changes nothing.
pub proof fn lemma_tick_zero(s: Seq<EntityView>)
    ensures
        ticked(s, 0) == s,
{
    assert(ticked(s, 0) =~= s);
}

} // verus!
