//! What holds of the history of moves: it stays sorted, it does not depend
//! on the order in which moves arrive, and the latest move is made last.
use crate::crdt::document::{
    circle_edit, group_edit, object_removed, path_edit, point_added, point_removed,
    point_replaced, rectangle_edit, DocModel, Nodes, PointChangeModel,
};
use crate::crdt::lex::lex_lt;
use crate::crdt::moves::{lands, listed, move_target, moved, positions_in_order, slot_meant};
use crate::crdt::node::{record_moved, RecordModel};
use crate::crdt::order::{
    children_in_order, is_child, key_lt, lemma_listing_is_children_in_order, lists_children,
    rising, sort_key, Live,
};
use crate::crdt::uw_map::{lemma_snapshot_follows, snapshot, writable};
use crate::element::circle::PartialSVGCircle;
use crate::element::group::PartialSVGGroup;
use crate::element::path::{PartialSVGPath, SVGPathCommandType};
use crate::element::rectangle::PartialSVGRectangle;
use crate::utility::Vec2;
use crate::crdt::moves::{
    already_there, forms_cycle, history_with, integrated, redone, redone_from, rewind_start,
    undone_back,
};
use crate::crdt::node::{record_placed, MoveModel};
use crate::crdt::uw_map::{is_live, lookup};
use vstd::prelude::*;

verus! {

/// Whether the moves stand in the order in which they were made, no two at
/// one time.
pub open spec fn sorted_by_time(h: Seq<MoveModel>) -> bool {
    forall|i: int, j: int| 0 <= i < j < h.len() ==> h[i].timestamp < h[j].timestamp
}

/// The cut lies inside the history, every move after it was made after
/// `time`, and the move just before it was not.
pub proof fn lemma_rewind_start(h: Seq<MoveModel>, time: u128)
    ensures
        0 <= rewind_start(h, time) <= h.len(),
        forall|i: int| rewind_start(h, time) <= i < h.len() ==> (#[trigger] h[i]).timestamp > time,
        rewind_start(h, time) > 0 ==> h[rewind_start(h, time) - 1].timestamp <= time,
    decreases h.len(),
{
    if h.len() > 0 && h.last().timestamp > time {
        lemma_rewind_start(h.drop_last(), time);
        let k = rewind_start(h.drop_last(), time);
        assert forall|i: int| k <= i < h.len() implies (#[trigger] h[i]).timestamp > time by {
            if i < h.len() - 1 {
                assert(h.drop_last()[i] == h[i]);
            }
        }
        if k > 0 {
            assert(h.drop_last()[k - 1] == h[k - 1]);
        }
    }
}

/// In a sorted history the cut is the one place that parts the moves made
/// up to `time` from those made after it.
pub proof fn lemma_rewind_unique(h: Seq<MoveModel>, time: u128, k: int)
    requires
        0 <= k <= h.len(),
        forall|i: int| k <= i < h.len() ==> (#[trigger] h[i]).timestamp > time,
        forall|i: int| 0 <= i < k ==> (#[trigger] h[i]).timestamp <= time,
    ensures
        k == rewind_start(h, time),
{
    lemma_rewind_start(h, time);
    let r = rewind_start(h, time);
    if r < k {
        assert(h[r].timestamp > time);
    }
    if k < r {
        assert(h[r - 1].timestamp <= time);
    }
}

/// A sorted history stays sorted when a move is worked in, and then holds a
/// move of that time.
pub proof fn lemma_history_stays_sorted(h: Seq<MoveModel>, log: MoveModel)
    requires
        sorted_by_time(h),
    ensures
        sorted_by_time(history_with(h, log)),
        exists|i: int|
            0 <= i < history_with(h, log).len() && (#[trigger] history_with(h, log)[i]).timestamp
                == log.timestamp,
        !already_there(h, log.timestamp) ==> history_with(h, log).contains(log),
        already_there(h, log.timestamp) <==> exists|i: int|
            0 <= i < h.len() && (#[trigger] h[i]).timestamp == log.timestamp,
{
    lemma_rewind_start(h, log.timestamp);
    let k = rewind_start(h, log.timestamp);
    let out = history_with(h, log);
    if already_there(h, log.timestamp) {
        assert(out[k - 1].timestamp == log.timestamp);
    } else {
        assert(out[k] == log);
        assert forall|i: int, j: int| 0 <= i < j < out.len() implies out[i].timestamp
            < out[j].timestamp by {
            if k > 0 {
                assert(h[k - 1].timestamp < log.timestamp);
            }
            if i < k && j == k {
                if i < k - 1 {
                    assert(h[i].timestamp < h[k - 1].timestamp);
                }
            } else if i == k {
                assert(out[j] == h[j - 1]);
            } else if i < k && j > k {
                assert(out[j] == h[j - 1]);
            } else if i > k {
                assert(out[i] == h[i - 1]);
                assert(out[j] == h[j - 1]);
            }
        }
        if exists|i: int| 0 <= i < h.len() && (#[trigger] h[i]).timestamp == log.timestamp {
            let i = choose|i: int| 0 <= i < h.len() && (#[trigger] h[i]).timestamp == log.timestamp;
            if i < k - 1 {
                assert(h[i].timestamp < h[k - 1].timestamp);
            }
        }
    }
}

/// In a sorted history every move before the cut was made up to `time`.
proof fn lemma_cut_parts(h: Seq<MoveModel>, time: u128)
    requires
        sorted_by_time(h),
    ensures
        forall|i: int| 0 <= i < rewind_start(h, time) ==> (#[trigger] h[i]).timestamp <= time,
{
    lemma_rewind_start(h, time);
    let k = rewind_start(h, time);
    assert forall|i: int| 0 <= i < k implies (#[trigger] h[i]).timestamp <= time by {
        if i < k - 1 {
            assert(h[i].timestamp < h[k - 1].timestamp);
        }
    }
}

/// The cut for a later time is not before the cut for an earlier time.
proof fn lemma_cut_is_monotone(h: Seq<MoveModel>, ta: u128, tb: u128)
    requires
        sorted_by_time(h),
        ta < tb,
    ensures
        rewind_start(h, ta) <= rewind_start(h, tb),
{
    lemma_rewind_start(h, ta);
    lemma_rewind_start(h, tb);
    lemma_cut_parts(h, ta);
    let ka = rewind_start(h, ta);
    let kb = rewind_start(h, tb);
    if kb < ka {
        assert(h[kb].timestamp > tb);
        assert(h[kb].timestamp <= ta);
    }
}

/// Working in an earlier move shifts the cut for a later time by one place.
proof fn lemma_cut_after_earlier(h: Seq<MoveModel>, a: MoveModel, tb: u128)
    requires
        sorted_by_time(h),
        a.timestamp < tb,
        !already_there(h, a.timestamp),
    ensures
        rewind_start(h.insert(rewind_start(h, a.timestamp), a), tb) == rewind_start(h, tb) + 1,
        already_there(h.insert(rewind_start(h, a.timestamp), a), tb) == already_there(h, tb),
{
    let ta = a.timestamp;
    lemma_rewind_start(h, ta);
    lemma_rewind_start(h, tb);
    lemma_cut_parts(h, ta);
    lemma_cut_parts(h, tb);
    lemma_cut_is_monotone(h, ta, tb);
    let ka = rewind_start(h, ta);
    let kb = rewind_start(h, tb);
    let ha = h.insert(ka, a);
    assert forall|i: int| kb + 1 <= i < ha.len() implies (#[trigger] ha[i]).timestamp > tb by {
        assert(ha[i] == h[i - 1]);
    }
    assert forall|i: int| 0 <= i < kb + 1 implies (#[trigger] ha[i]).timestamp <= tb by {
        if i < ka {
            assert(ha[i] == h[i]);
        } else if i > ka {
            assert(ha[i] == h[i - 1]);
        }
    }
    lemma_rewind_unique(ha, tb, kb + 1);
    if kb > ka {
        assert(ha[kb] == h[kb - 1]);
    } else {
        assert(ha[kb] == a);
        if kb > 0 {
            assert(h[kb - 1].timestamp <= ta);
        }
    }
}

/// Working in a later move leaves the cut for an earlier time where it is.
proof fn lemma_cut_after_later(h: Seq<MoveModel>, b: MoveModel, ta: u128)
    requires
        sorted_by_time(h),
        ta < b.timestamp,
        !already_there(h, b.timestamp),
    ensures
        rewind_start(h.insert(rewind_start(h, b.timestamp), b), ta) == rewind_start(h, ta),
        already_there(h.insert(rewind_start(h, b.timestamp), b), ta) == already_there(h, ta),
{
    let tb = b.timestamp;
    lemma_rewind_start(h, ta);
    lemma_rewind_start(h, tb);
    lemma_cut_parts(h, ta);
    lemma_cut_is_monotone(h, ta, tb);
    let ka = rewind_start(h, ta);
    let kb = rewind_start(h, tb);
    let hb = h.insert(kb, b);
    assert forall|i: int| ka <= i < hb.len() implies (#[trigger] hb[i]).timestamp > ta by {
        if i < kb {
            assert(hb[i] == h[i]);
        } else if i > kb {
            assert(hb[i] == h[i - 1]);
        }
    }
    assert forall|i: int| 0 <= i < ka implies (#[trigger] hb[i]).timestamp <= ta by {
        assert(hb[i] == h[i]);
    }
    lemma_rewind_unique(hb, ta, ka);
    if ka > 0 {
        assert(hb[ka - 1] == h[ka - 1]);
    }
}

proof fn lemma_history_order_independent_one_way(h: Seq<MoveModel>, a: MoveModel, b: MoveModel)
    requires
        sorted_by_time(h),
        a.timestamp < b.timestamp,
    ensures
        history_with(history_with(h, a), b) == history_with(history_with(h, b), a),
{
    let ta = a.timestamp;
    let tb = b.timestamp;
    let ka = rewind_start(h, ta);
    let kb = rewind_start(h, tb);
    lemma_rewind_start(h, ta);
    lemma_rewind_start(h, tb);
    lemma_cut_is_monotone(h, ta, tb);
    if already_there(h, ta) {
        if !already_there(h, tb) {
            lemma_cut_after_later(h, b, ta);
        }
    } else if already_there(h, tb) {
        lemma_cut_after_earlier(h, a, tb);
    } else {
        lemma_cut_after_earlier(h, a, tb);
        lemma_cut_after_later(h, b, ta);
        assert(h.insert(ka, a).insert(kb + 1, b) =~= h.insert(kb, b).insert(ka, a));
    }
}

/// The history does not depend on the order in which two moves arrive: it
/// holds the same moves in the same places either way. Two different moves
/// made at one time are the exception: the first to arrive stays.
pub proof fn lemma_history_order_independent(h: Seq<MoveModel>, a: MoveModel, b: MoveModel)
    requires
        sorted_by_time(h),
        a.timestamp != b.timestamp || a == b,
    ensures
        history_with(history_with(h, a), b) == history_with(history_with(h, b), a),
{
    if a.timestamp < b.timestamp {
        lemma_history_order_independent_one_way(h, a, b);
    } else if b.timestamp < a.timestamp {
        lemma_history_order_independent_one_way(h, b, a);
    }
}

/// A move that arrives twice is worked in once.
pub proof fn lemma_history_idempotent(h: Seq<MoveModel>, a: MoveModel)
    requires
        sorted_by_time(h),
    ensures
        history_with(history_with(h, a), a) == history_with(h, a),
{
    lemma_history_stays_sorted(h, a);
    lemma_history_stays_sorted(history_with(h, a), a);
}

/// Making the moves from `k` on again ends with the last of them.
pub proof fn lemma_redone_ends_with_last(nodes: Nodes, h: Seq<MoveModel>, k: int)
    requires
        0 <= k < h.len(),
    ensures
        redone_from(nodes, h, k) == redone(redone_from(nodes, h.drop_last(), k), h.last()),
    decreases h.len() - k,
{
    let short = h.drop_last();
    if k == h.len() - 1 {
        assert(redone_from(redone(nodes, h[k]), h, k + 1) == redone(nodes, h[k]));
    } else {
        assert(short[k] == h[k]);
        lemma_redone_ends_with_last(redone(nodes, h[k]), h, k + 1);
    }
}

/// Whenever a move arrives, the move that is made last is the one at the end
/// of the history, which in a sorted history is the latest: where that move
/// can be made, the object stands where it put it, whatever arrived in
/// between and in whatever order.
pub proof fn lemma_latest_move_is_made_last(doc: DocModel, log: MoveModel)
    requires
        sorted_by_time(doc.move_history),
        rewind_start(doc.move_history, log.timestamp) < integrated(doc, log).move_history.len(),
    ensures
        ({
            let after = integrated(doc, log);
            let last = after.move_history.last();
            &&& sorted_by_time(after.move_history)
            &&& exists|before: Nodes| #[trigger] redone(before, last) == after.node_map && (lookup(
                before,
                last.object_id,
            ) is Some && !forms_cycle(before, last.object_id, last.new_group_id) ==> lookup(
                after.node_map,
                last.object_id,
            ) == Some(
                record_placed(
                    lookup(before, last.object_id)->0,
                    last.new_group_id,
                    last.index,
                ),
            ))
        }),
{
    let after = integrated(doc, log);
    let k = rewind_start(doc.move_history, log.timestamp);
    let rewound = undone_back(doc.node_map, doc.move_history, k);
    lemma_rewind_start(doc.move_history, log.timestamp);
    lemma_history_stays_sorted(doc.move_history, log);
    lemma_redone_ends_with_last(rewound, after.move_history, k);
    let before = redone_from(rewound, after.move_history.drop_last(), k);
    assert(redone(before, after.move_history.last()) == after.node_map);
}

/// A move that is later than every move of the history is made on top of the
/// state as it is: nothing is taken back.
pub proof fn lemma_latest_arrival(doc: DocModel, log: MoveModel)
    requires
        forall|i: int|
            0 <= i < doc.move_history.len() ==> (#[trigger] doc.move_history[i]).timestamp
                < log.timestamp,
    ensures
        integrated(doc, log) == (DocModel {
            node_map: redone(doc.node_map, log),
            move_history: doc.move_history.push(log),
            ..doc
        }),
{
    let h = doc.move_history;
    lemma_rewind_start(h, log.timestamp);
    let k = rewind_start(h, log.timestamp);
    if k < h.len() {
        assert(h[k].timestamp > log.timestamp);
    }
    assert(k == h.len());
    if k > 0 {
        assert(h[k - 1].timestamp < log.timestamp);
    }
    let h2 = history_with(h, log);
    assert(h2 =~= h.push(log));
    assert(redone_from(redone(doc.node_map, h2[k]), h2, k + 1) == redone(doc.node_map, h2[k]));
}

/// A move puts the object at the slot that was asked for: the children of
/// the new parent are those it had without the object, with the object put
/// in at the slot.
pub proof fn lemma_move_lands_at_slot(
    live: Live,
    parent: Option<Seq<char>>,
    id: Seq<char>,
    slot: Option<usize>,
    placed: RecordModel,
)
    requires
        lands(live, parent, id, slot, placed.index.val),
        placed.parent_id.val == parent,
    ensures
        listed(live.insert(id, placed), parent),
        children_in_order(live.insert(id, placed), parent) == children_in_order(
            live.remove(id),
            parent,
        ).insert(slot_meant(children_in_order(live.remove(id), parent).len(), slot), id),
{
    let rest = live.remove(id);
    let after = live.insert(id, placed);
    let others = children_in_order(rest, parent);
    let sib = positions_in_order(live, parent, Some(id));
    let s = slot_meant(others.len(), slot);
    let all = others.insert(s, id);
    let x = placed.index.val;
    assert forall|i: int| 0 <= i < others.len() implies others[i] != id && after[others[i]]
        == live[others[i]] && rest[others[i]] == live[others[i]] by {
        assert(is_child(rest, parent, others[i]));
    }
    assert forall|i: int| 0 <= i < all.len() implies is_child(after, parent, #[trigger] all[i]) by {
        if i < s {
            assert(all[i] == others[i]);
            assert(is_child(rest, parent, others[i]));
        } else if i > s {
            assert(all[i] == others[i - 1]);
            assert(is_child(rest, parent, others[i - 1]));
        }
    }
    assert forall|c: Seq<char>| #[trigger] is_child(after, parent, c) implies all.contains(c) by {
        if c == id {
            assert(all[s] == id);
        } else {
            assert(is_child(rest, parent, c));
            assert(others.contains(c));
            let i = others.index_of(c);
            if i < s {
                assert(all[i] == c);
            } else {
                assert(all[i + 1] == c);
            }
        }
    }
    let key = |c: Seq<char>| sort_key(after, c);
    let old_key = |c: Seq<char>| sort_key(rest, c);
    assert(rising(all, key)) by {
        assert forall|i: int, j: int| 0 <= i < j < all.len() implies key_lt(
            key(all[i]),
            key(all[j]),
        ) by {
            let oi = if i < s {
                i
            } else {
                i - 1
            };
            let oj = if j < s {
                j
            } else {
                j - 1
            };
            if i == s {
                assert(all[j] == others[oj]);
                assert(sib[oj] == live[others[oj]].index.val);
                assert(lex_lt(x, sib[oj]));
            } else if j == s {
                assert(all[i] == others[oi]);
                assert(sib[oi] == live[others[oi]].index.val);
                assert(lex_lt(sib[oi], x));
            } else {
                assert(all[i] == others[oi]);
                assert(all[j] == others[oj]);
                assert(key_lt(old_key(others[oi]), old_key(others[oj])));
            }
        }
    }
    assert(lists_children(after, parent, all));
    lemma_listing_is_children_in_order(after, parent, all);
}

/// Moving an object to the slot it has leaves the order of the children as
/// it is.
pub proof fn lemma_move_to_own_slot_keeps_order(
    live: Live,
    parent: Option<Seq<char>>,
    id: Seq<char>,
    slot: Option<usize>,
    placed: RecordModel,
)
    requires
        lands(live, parent, id, slot, placed.index.val),
        placed.parent_id.val == parent,
        children_in_order(live, parent) == children_in_order(live.remove(id), parent).insert(
            slot_meant(children_in_order(live.remove(id), parent).len(), slot),
            id,
        ),
    ensures
        children_in_order(live.insert(id, placed), parent) == children_in_order(live, parent),
{
    lemma_move_lands_at_slot(live, parent, id, slot, placed);
}

/// What a move shows: where the move is made, the object stands at the slot
/// that was asked for among the children of its new parent.
pub proof fn lemma_moved_object_is_shown_at_slot(
    doc: DocModel,
    parent: Option<Seq<char>>,
    id: Seq<char>,
    slot: Option<usize>,
    time: u128,
)
    requires
        move_target(doc.node_map, parent, id, slot) is Some,
        writable(doc.node_map, doc.replica_id, id),
        lands(
            snapshot(doc.node_map),
            parent,
            id,
            slot,
            move_target(doc.node_map, parent, id, slot)->0,
        ),
    ensures
        ({
            let live = snapshot(doc.node_map);
            let others = children_in_order(live.remove(id), parent);
            children_in_order(snapshot(moved(doc, parent, id, slot, time).node_map), parent)
                == others.insert(slot_meant(others.len(), slot), id)
        }),
{
    let x = move_target(doc.node_map, parent, id, slot)->0;
    let r = lookup(doc.node_map, id)->0;
    let placed = record_moved(r, parent, x, time);
    lemma_snapshot_follows(doc.node_map, doc.replica_id, id, placed);
    lemma_move_lands_at_slot(snapshot(doc.node_map), parent, id, slot, placed);
}

/// An object that this replica has removed is no longer live.
pub proof fn lemma_removed_is_gone(doc: DocModel, id: Seq<char>)
    requires
        writable(doc.node_map, doc.replica_id, id),
    ensures
        lookup(object_removed(doc, id).node_map, id) is None,
        !is_live(object_removed(doc, id).node_map, id),
{
}

/// Editing or moving an object that is not live changes nothing: the object
/// is not revived, and no version vector is raised.
pub proof fn lemma_edit_of_removed_is_noop(
    doc: DocModel,
    id: Seq<char>,
    circle: PartialSVGCircle,
    group: PartialSVGGroup,
    rectangle: PartialSVGRectangle,
    path: PartialSVGPath,
    names: Seq<Seq<char>>,
    kind: SVGPathCommandType,
    pos: Vec2,
    point: Seq<char>,
    change: PointChangeModel,
    parent: Option<Seq<char>>,
    slot: Option<usize>,
    time: u128,
)
    requires
        lookup(doc.node_map, id) is None,
    ensures
        circle_edit(doc, id, circle, time) == doc,
        group_edit(doc, id, group, time) == doc,
        rectangle_edit(doc, id, rectangle, time) == doc,
        path_edit(doc, id, path, names, time) == doc,
        point_added(doc, id, kind, pos, point, time) == doc,
        point_replaced(doc, id, point, change, time) == doc,
        point_removed(doc, id, point, time) == doc,
        moved(doc, parent, id, slot, time) == doc,
{
}

} // verus!
