//! What a replay of moves does to the node map: it changes nothing but
//! where nodes are placed, and where no move of it is skipped it places
//! every object where its latest move put it. Replicas that stand so to one
//! history show one document.
use crate::crdt::document::{DocModel, Nodes};
use crate::crdt::moves::{
    forms_cycle, history_with, integrated, moved, move_target, redone, redone_from, rewind_start,
    undone, undone_back,
};
use crate::crdt::moves_laws::lemma_rewind_start;
use crate::crdt::node::{record_placed, MoveModel, RecordModel};
use crate::crdt::tree::rendered;
use crate::crdt::tree_laws::lemma_rendered_unique;
use crate::crdt::uw_map::{is_live, lookup, snapshot, writable};
use crate::element::ObjectModel;
use vstd::prelude::*;

verus! {

/// Whether two records hold the same object and were placed at the same
/// times; where they were placed may differ.
pub open spec fn same_but_placement(a: RecordModel, b: RecordModel) -> bool {
    &&& a.object == b.object
    &&& a.parent_id.time == b.parent_id.time
    &&& a.index.time == b.index.time
}

/// Whether two node maps hold the same nodes with the same version vectors
/// and differ at most in where nodes are placed.
pub open spec fn same_but_placements(a: Nodes, b: Nodes) -> bool {
    &&& a.updated == b.updated
    &&& a.removed == b.removed
    &&& a.kv.dom() == b.kv.dom()
    &&& forall|o: Seq<char>|
        a.kv.contains_key(o) ==> same_but_placement(#[trigger] a.kv[o], b.kv[o])
}

/// The place in `h` of the last move of `o` from place `k` on; below zero
/// where there is none.
pub open spec fn last_move(h: Seq<MoveModel>, o: Seq<char>, k: int) -> int
    decreases h.len() - k,
{
    if k < 0 || k >= h.len() {
        -1
    } else {
        let rest = last_move(h, o, k + 1);
        if rest >= 0 {
            rest
        } else if h[k].object_id == o {
            k
        } else {
            -1
        }
    }
}

/// Whether no move of `h` from place `k` on is skipped when they are made
/// again in order: none would close a cycle in the state in which it is
/// made.
pub open spec fn clean(nodes: Nodes, h: Seq<MoveModel>, k: int) -> bool
    decreases h.len() - k,
{
    if 0 <= k < h.len() {
        &&& !(lookup(nodes, h[k].object_id) is Some && forms_cycle(
            nodes,
            h[k].object_id,
            h[k].new_group_id,
        ))
        &&& clean(redone(nodes, h[k]), h, k + 1)
    } else {
        true
    }
}

/// Whether every live node that was ever moved stands where its last move
/// in `h` put it.
pub open spec fn follows(nodes: Nodes, h: Seq<MoveModel>) -> bool {
    forall|o: Seq<char>|
        lookup(nodes, o) is Some && #[trigger] last_move(h, o, 0) >= 0 ==> nodes.kv[o].parent_id.val
            == h[last_move(h, o, 0)].new_group_id && nodes.kv[o].index.val == h[last_move(
            h,
            o,
            0,
        )].index
}

/// What `last_move` finds: a move of `o` with no move of `o` after it, or
/// that there is no move of `o` from `k` on.
pub proof fn lemma_last_move(h: Seq<MoveModel>, o: Seq<char>, k: int)
    requires
        0 <= k <= h.len(),
    ensures
        last_move(h, o, k) >= 0 ==> k <= last_move(h, o, k) < h.len() && h[last_move(
            h,
            o,
            k,
        )].object_id == o && forall|j: int|
            last_move(h, o, k) < j < h.len() ==> (#[trigger] h[j]).object_id != o,
        last_move(h, o, k) < 0 ==> last_move(h, o, k) == -1 && forall|j: int|
            k <= j < h.len() ==> (#[trigger] h[j]).object_id != o,
    decreases h.len() - k,
{
    if k < h.len() {
        lemma_last_move(h, o, k + 1);
    }
}

/// The last move of `o` is found from any place up to it.
pub proof fn lemma_last_move_from_earlier(h: Seq<MoveModel>, o: Seq<char>, k: int, j: int)
    requires
        0 <= k <= j < h.len(),
        h[j].object_id == o,
        forall|i: int| j < i < h.len() ==> (#[trigger] h[i]).object_id != o,
    ensures
        last_move(h, o, k) == j,
    decreases h.len() - k,
{
    lemma_last_move(h, o, k);
    let found = last_move(h, o, k);
    if found < 0 {
        assert(h[j].object_id != o);
    } else if found < j {
        assert(h[j].object_id != o);
    } else if found > j {
        assert(h[found].object_id != o);
    }
}

/// Making or taking back one move changes nothing but where its object is
/// placed, and only if the object is live.
pub proof fn lemma_one_move_keeps_the_rest(nodes: Nodes, m: MoveModel)
    ensures
        same_but_placements(nodes, redone(nodes, m)),
        same_but_placements(nodes, undone(nodes, m)),
        forall|o: Seq<char>|
            (o != m.object_id || lookup(nodes, o) is None) && nodes.kv.contains_key(o)
                ==> #[trigger] redone(nodes, m).kv[o] == nodes.kv[o] && undone(nodes, m).kv[o]
                == nodes.kv[o],
        forall|o: Seq<char>| #[trigger] lookup(redone(nodes, m), o) is Some <==> lookup(nodes, o) is Some,
        forall|o: Seq<char>| #[trigger] lookup(undone(nodes, m), o) is Some <==> lookup(nodes, o) is Some,
{
    let r = redone(nodes, m);
    let u = undone(nodes, m);
    assert(r.kv.dom() =~= nodes.kv.dom());
    assert(u.kv.dom() =~= nodes.kv.dom());
}

/// Being the same but for placements carries over.
pub proof fn lemma_same_but_placements_carries(a: Nodes, b: Nodes, c: Nodes)
    requires
        same_but_placements(a, b),
        same_but_placements(b, c),
    ensures
        same_but_placements(a, c),
        same_but_placements(b, a),
        forall|o: Seq<char>| #[trigger] lookup(a, o) is Some <==> lookup(b, o) is Some,
{
    assert forall|o: Seq<char>| a.kv.contains_key(o) implies same_but_placement(
        #[trigger] a.kv[o],
        c.kv[o],
    ) by {
        assert(same_but_placement(a.kv[o], b.kv[o]));
        assert(same_but_placement(b.kv[o], c.kv[o]));
    }
    assert forall|o: Seq<char>| b.kv.contains_key(o) implies same_but_placement(
        #[trigger] b.kv[o],
        a.kv[o],
    ) by {
        assert(same_but_placement(a.kv[o], b.kv[o]));
    }
}

/// Taking moves back changes nothing but where their objects are placed.
pub proof fn lemma_rewind_keeps_the_rest(nodes: Nodes, h: Seq<MoveModel>, k: int)
    requires
        0 <= k <= h.len(),
    ensures
        same_but_placements(nodes, undone_back(nodes, h, k)),
        forall|o: Seq<char>|
            nodes.kv.contains_key(o) && (forall|j: int|
                k <= j < h.len() ==> (#[trigger] h[j]).object_id != o) ==> #[trigger] undone_back(
                nodes,
                h,
                k,
            ).kv[o] == nodes.kv[o],
        forall|o: Seq<char>|
            nodes.kv.contains_key(o) && lookup(nodes, o) is None ==> #[trigger] undone_back(
                nodes,
                h,
                k,
            ).kv[o] == nodes.kv[o],
    decreases h.len(),
{
    if h.len() > k {
        let step = undone(nodes, h.last());
        lemma_one_move_keeps_the_rest(nodes, h.last());
        lemma_rewind_keeps_the_rest(step, h.drop_last(), k);
        let out = undone_back(step, h.drop_last(), k);
        lemma_same_but_placements_carries(nodes, step, out);
        assert forall|o: Seq<char>|
            nodes.kv.contains_key(o) && (forall|j: int|
                k <= j < h.len() ==> (#[trigger] h[j]).object_id != o) implies #[trigger] out.kv[o]
            == nodes.kv[o] by {
            assert(h[h.len() - 1].object_id != o);
            assert forall|j: int| k <= j < h.drop_last().len() implies (#[trigger] h.drop_last()[j]).object_id
                != o by {
                assert(h.drop_last()[j] == h[j]);
            }
            assert(step.kv.contains_key(o));
        }
        assert forall|o: Seq<char>|
            nodes.kv.contains_key(o) && lookup(nodes, o) is None implies #[trigger] out.kv[o]
            == nodes.kv[o] by {
            assert(step.kv.contains_key(o));
            assert(lookup(step, o) is Some <==> lookup(nodes, o) is Some);
        }
    }
}

/// Where no move is skipped, making the moves from `k` on again places
/// every live object that has a move among them where the last of its moves
/// put it, and changes nothing else.
pub proof fn lemma_replay_places(nodes: Nodes, h: Seq<MoveModel>, k: int)
    requires
        0 <= k <= h.len(),
        clean(nodes, h, k),
    ensures
        same_but_placements(nodes, redone_from(nodes, h, k)),
        forall|o: Seq<char>|
            nodes.kv.contains_key(o) ==> #[trigger] redone_from(nodes, h, k).kv[o] == if last_move(
                h,
                o,
                k,
            ) >= 0 && lookup(nodes, o) is Some {
                record_placed(
                    nodes.kv[o],
                    h[last_move(h, o, k)].new_group_id,
                    h[last_move(h, o, k)].index,
                )
            } else {
                nodes.kv[o]
            },
    decreases h.len() - k,
{
    if k < h.len() {
        let m = h[k];
        let step = redone(nodes, m);
        lemma_one_move_keeps_the_rest(nodes, m);
        lemma_replay_places(step, h, k + 1);
        let out = redone_from(step, h, k + 1);
        lemma_same_but_placements_carries(nodes, step, out);
        assert forall|o: Seq<char>| nodes.kv.contains_key(o) implies #[trigger] out.kv[o]
            == if last_move(h, o, k) >= 0 && lookup(nodes, o) is Some {
            record_placed(
                nodes.kv[o],
                h[last_move(h, o, k)].new_group_id,
                h[last_move(h, o, k)].index,
            )
        } else {
            nodes.kv[o]
        } by {
            assert(step.kv.contains_key(o));
            assert(lookup(step, o) is Some <==> lookup(nodes, o) is Some);
            assert(same_but_placement(nodes.kv[o], step.kv[o]));
            lemma_last_move(h, o, k + 1);
        }
    } else {
        assert(nodes.kv.dom() =~= redone_from(nodes, h, k).kv.dom());
    }
}

/// What the arrival of a move does to the node map, where no move of the
/// replay is skipped: every live object that has a move in the replayed part
/// of the history stands where the last of its moves put it, and nothing
/// else is changed.
pub proof fn lemma_integration_places(doc: DocModel, log: MoveModel)
    requires
        clean(
            undone_back(
                doc.node_map,
                doc.move_history,
                rewind_start(doc.move_history, log.timestamp),
            ),
            history_with(doc.move_history, log),
            rewind_start(doc.move_history, log.timestamp),
        ),
    ensures
        same_but_placements(doc.node_map, integrated(doc, log).node_map),
        ({
            let k = rewind_start(doc.move_history, log.timestamp);
            let after = integrated(doc, log);
            forall|o: Seq<char>|
                doc.node_map.kv.contains_key(o) ==> #[trigger] after.node_map.kv[o]
                    == if last_move(after.move_history, o, k) >= 0 && lookup(doc.node_map, o) is Some {
                    record_placed(
                        doc.node_map.kv[o],
                        after.move_history[last_move(after.move_history, o, k)].new_group_id,
                        after.move_history[last_move(after.move_history, o, k)].index,
                    )
                } else {
                    doc.node_map.kv[o]
                }
        }),
{
    let h = doc.move_history;
    let k = rewind_start(h, log.timestamp);
    lemma_rewind_start(h, log.timestamp);
    let rewound = undone_back(doc.node_map, h, k);
    let h2 = history_with(h, log);
    let after = integrated(doc, log);
    lemma_rewind_keeps_the_rest(doc.node_map, h, k);
    lemma_replay_places(rewound, h2, k);
    lemma_same_but_placements_carries(doc.node_map, rewound, after.node_map);
    assert forall|o: Seq<char>| doc.node_map.kv.contains_key(o) implies #[trigger] after.node_map.kv[o]
        == if last_move(h2, o, k) >= 0 && lookup(doc.node_map, o) is Some {
        record_placed(
            doc.node_map.kv[o],
            h2[last_move(h2, o, k)].new_group_id,
            h2[last_move(h2, o, k)].index,
        )
    } else {
        doc.node_map.kv[o]
    } by {
        assert(rewound.kv.contains_key(o));
        assert(same_but_placement(doc.node_map.kv[o], rewound.kv[o]));
        lemma_last_move(h2, o, k);
        if last_move(h2, o, k) < 0 {
            assert forall|j: int| k <= j < h.len() implies (#[trigger] h[j]).object_id != o by {
                if h2.len() == h.len() {
                    assert(h2[j] == h[j]);
                } else {
                    assert(h2[j + 1] == h[j]);
                }
            }
        }
    }
}

/// Whether every live node that the replay from place `k` of `h` leaves
/// alone, and that was ever moved, stands where its last move in `h` put it.
pub open spec fn follows_before(nodes: Nodes, h: Seq<MoveModel>, k: int) -> bool {
    forall|o: Seq<char>|
        lookup(nodes, o) is Some && last_move(h, o, k) < 0 && #[trigger] last_move(h, o, 0) >= 0
            ==> nodes.kv[o].parent_id.val == h[last_move(h, o, 0)].new_group_id
            && nodes.kv[o].index.val == h[last_move(h, o, 0)].index
}

/// After a move has arrived, the replica stands as its history says, where
/// no move of the replay is skipped and the nodes that the replay leaves
/// alone stood so before. This is so too where the node map has just taken
/// in placements from another replica whose moves are yet to arrive: the
/// replay puts those nodes where the history says.
pub proof fn lemma_integration_settles(doc: DocModel, log: MoveModel)
    requires
        follows_before(
            doc.node_map,
            history_with(doc.move_history, log),
            rewind_start(doc.move_history, log.timestamp),
        ),
        clean(
            undone_back(
                doc.node_map,
                doc.move_history,
                rewind_start(doc.move_history, log.timestamp),
            ),
            history_with(doc.move_history, log),
            rewind_start(doc.move_history, log.timestamp),
        ),
    ensures
        follows(integrated(doc, log).node_map, integrated(doc, log).move_history),
{
    let h = doc.move_history;
    let k = rewind_start(h, log.timestamp);
    lemma_rewind_start(h, log.timestamp);
    let after = integrated(doc, log);
    let h2 = after.move_history;
    lemma_integration_places(doc, log);
    lemma_same_but_placements_carries(doc.node_map, after.node_map, doc.node_map);
    assert forall|o: Seq<char>|
        lookup(after.node_map, o) is Some && #[trigger] last_move(h2, o, 0)
            >= 0 implies after.node_map.kv[o].parent_id.val == h2[last_move(h2, o, 0)].new_group_id
        && after.node_map.kv[o].index.val == h2[last_move(h2, o, 0)].index by {
        assert(lookup(doc.node_map, o) is Some);
        lemma_last_move(h2, o, 0);
        lemma_last_move(h2, o, k);
        if last_move(h2, o, k) >= 0 {
            lemma_last_move_from_earlier(h2, o, 0, last_move(h2, o, k));
        }
    }
}

/// A replica that stands as its history says still does so after a move
/// has arrived, where no move of the replay is skipped.
pub proof fn lemma_integration_follows(doc: DocModel, log: MoveModel)
    requires
        follows(doc.node_map, doc.move_history),
        clean(
            undone_back(
                doc.node_map,
                doc.move_history,
                rewind_start(doc.move_history, log.timestamp),
            ),
            history_with(doc.move_history, log),
            rewind_start(doc.move_history, log.timestamp),
        ),
    ensures
        follows(integrated(doc, log).node_map, integrated(doc, log).move_history),
{
    let h = doc.move_history;
    let k = rewind_start(h, log.timestamp);
    lemma_rewind_start(h, log.timestamp);
    let h2 = history_with(h, log);
    assert forall|o: Seq<char>|
        lookup(doc.node_map, o) is Some && last_move(h2, o, k) < 0 && #[trigger] last_move(h2, o, 0)
            >= 0 implies doc.node_map.kv[o].parent_id.val == h2[last_move(h2, o, 0)].new_group_id
        && doc.node_map.kv[o].index.val == h2[last_move(h2, o, 0)].index by {
        lemma_last_move(h2, o, 0);
        lemma_last_move(h2, o, k);
        let j = last_move(h2, o, 0);
        // the last move of `o` lies before the cut, where nothing changed
        assert(j < k) by {
            if j >= k {
                assert(h2[j].object_id != o);
            }
        }
        assert(h2[j] == h[j]);
        assert forall|i: int| j < i < h.len() implies (#[trigger] h[i]).object_id != o by {
            if i < k {
                assert(h2[i] == h[i]);
            } else if h2.len() == h.len() {
                assert(h2[i] == h[i]);
            } else {
                assert(h2[i + 1] == h[i]);
            }
        }
        lemma_last_move_from_earlier(h, o, 0, j);
    }
    lemma_integration_settles(doc, log);
}

/// A replica that stands as its history says still does so after a move of
/// its own.
pub proof fn lemma_local_move_follows(
    doc: DocModel,
    parent: Option<Seq<char>>,
    id: Seq<char>,
    slot: Option<usize>,
    time: u128,
)
    requires
        follows(doc.node_map, doc.move_history),
    ensures
        follows(
            moved(doc, parent, id, slot, time).node_map,
            moved(doc, parent, id, slot, time).move_history,
        ),
{
    let after = moved(doc, parent, id, slot, time);
    if move_target(doc.node_map, parent, id, slot) is Some && writable(
        doc.node_map,
        doc.replica_id,
        id,
    ) {
        let h = doc.move_history;
        let h2 = after.move_history;
        let last = h.len() as int;
        assert(h2[last].object_id == id);
        assert forall|o: Seq<char>|
            lookup(after.node_map, o) is Some && #[trigger] last_move(h2, o, 0)
                >= 0 implies after.node_map.kv[o].parent_id.val == h2[last_move(
            h2,
            o,
            0,
        )].new_group_id && after.node_map.kv[o].index.val == h2[last_move(h2, o, 0)].index by {
            lemma_last_move(h2, o, 0);
            let j = last_move(h2, o, 0);
            if o == id {
                lemma_last_move_from_earlier(h2, o, 0, last);
            } else {
                assert(j < last);
                assert(h2[j] == h[j]);
                assert forall|i: int| j < i < h.len() implies (#[trigger] h[i]).object_id != o by {
                    assert(h2[i] == h[i]);
                }
                lemma_last_move_from_earlier(h, o, 0, j);
                assert(lookup(doc.node_map, o) is Some);
            }
        }
    }
}

/// Two replicas that stand as one history says, and hold the same nodes but
/// for where they are placed, show the same live nodes in the same places,
/// provided that every live node was moved at least once; and so they show
/// the same document.
pub proof fn lemma_same_history_same_document(
    a: Nodes,
    b: Nodes,
    h: Seq<MoveModel>,
    shown_by_a: Seq<ObjectModel>,
    shown_by_b: Seq<ObjectModel>,
)
    requires
        follows(a, h),
        follows(b, h),
        same_but_placements(a, b),
        forall|o: Seq<char>| lookup(a, o) is Some ==> #[trigger] last_move(h, o, 0) >= 0,
        rendered(snapshot(a), None, shown_by_a),
        rendered(snapshot(b), None, shown_by_b),
    ensures
        snapshot(a) == snapshot(b),
        shown_by_a == shown_by_b,
{
    lemma_same_but_placements_carries(a, b, a);
    assert forall|o: Seq<char>| snapshot(a).contains_key(o) implies snapshot(b).contains_key(o)
        && snapshot(a)[o] == snapshot(b)[o] by {
        assert(lookup(a, o) is Some);
        assert(lookup(b, o) is Some);
        assert(last_move(h, o, 0) >= 0);
        assert(same_but_placement(a.kv[o], b.kv[o]));
    }
    assert forall|o: Seq<char>| snapshot(b).contains_key(o) implies snapshot(a).contains_key(o) by {
        assert(lookup(b, o) is Some);
        assert(lookup(a, o) is Some);
    }
    assert(snapshot(a) =~= snapshot(b));
    lemma_rendered_unique(snapshot(a), None, shown_by_a, shown_by_b);
}

} // verus!
