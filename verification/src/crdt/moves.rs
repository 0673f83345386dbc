//! Moves: where an object goes among the children of its parent, how a
//! local move is made, and how the moves of other replicas are worked into
//! the history.
use crate::crdt::document::{
    is_ancestor, is_group, written, DocModel, Nodes, SVGDocCrdt2,
};
use crate::crdt::frac_index::{
    after_of, before_of, between_defined, between_of, FracIndex, TERMINATOR,
};
use crate::crdt::lex::{lemma_lex_transitive, lex_le, lex_lt};
use crate::crdt::lww_reg::LWWReg;
use crate::crdt::node::{
    record_moved, record_placed, record_stamped, LWWNodeMapItem, MoveLog, MoveModel, NodeMapItem,
    NodeModel,
};
use crate::crdt::order::{
    children_in_order, is_child, is_sorted_order, key_at, lemma_listing_is_children_in_order,
    lists_children, sort_key, sorted_order, Live,
};
use crate::crdt::uw_map::{
    after_insert, after_rewrite, lookup, merged_model, snapshot, writable, UWMap,
};
use crate::element::circle::{circle_applied, default_circle, PartialSVGCircle, SVGCircle};
use crate::element::group::{default_group, group_applied, PartialSVGGroup, SVGGroup};
use crate::element::path::{default_path, fresh_names, path_applied, PartialSVGPath, SVGPath};
use crate::element::rectangle::{
    default_rectangle, rectangle_applied, PartialSVGRectangle, SVGRectangle,
};
use crate::element::{lemma_group_as_object, ObjectModel, SVGObject};
use crate::utility::{
    epoch_now_nanos, gen_str_id, HashableItem, NodeID, UWMapItem, UnixEpochTimeNanos, ID_LEN,
};
use vstd::prelude::*;

verus! {

/// The parent that a node has between its creation and its first move. It
/// is longer than a fresh name, so no node that was added under a fresh name
/// goes by it, and a node that stays there is not shown.
pub open spec fn new_node_root() -> Seq<char> {
    "NEW_NODES_ROOT_ID"@
}

/// The parent that a node has between its creation and its first move.
pub fn new_node_root_id() -> (id: NodeID)
    ensures
        id@ == new_node_root(),
{
    "NEW_NODES_ROOT_ID".to_owned()
}

/// Whether two parents are the same.
pub fn same_parent(a: &Option<NodeID>, b: &Option<NodeID>) -> (r: bool)
    ensures
        r == (a.deep_view() == b.deep_view()),
{
    match (a, b) {
        (Some(x), Some(y)) => x.same(y),
        (None, None) => true,
        _ => false,
    }
}

/// The live records without the node `skip`, if one is named.
pub open spec fn without(live: Live, skip: Option<Seq<char>>) -> Live {
    match skip {
        Some(x) => live.remove(x),
        None => live,
    }
}

/// The names in a list of siblings.
pub open spec fn sibling_names(v: Seq<(FracIndex, NodeID)>) -> Seq<Seq<char>> {
    Seq::new(v.len(), |i: int| v[i].1@)
}

/// The positions in a list of siblings.
pub open spec fn sibling_positions(v: Seq<(FracIndex, NodeID)>) -> Seq<Seq<u8>> {
    Seq::new(v.len(), |i: int| v[i].0@)
}

/// The positions of the children of `parent` in order, the node `skip` left
/// out.
pub open spec fn positions_in_order(
    live: Live,
    parent: Option<Seq<char>>,
    skip: Option<Seq<char>>,
) -> Seq<Seq<u8>> {
    let ids = children_in_order(without(live, skip), parent);
    Seq::new(ids.len(), |i: int| live[ids[i]].index.val)
}

/// Whether no position comes before the one that stands before it.
pub open spec fn never_falling(sib: Seq<Seq<u8>>) -> bool {
    forall|i: int, j: int| 0 <= i < j < sib.len() ==> lex_le(sib[i], sib[j])
}

/// The slot that is meant: the number of siblings where none is given or the
/// one given is past the end.
pub open spec fn slot_meant(count: nat, slot: Option<usize>) -> int {
    if slot is None || slot->0 >= count {
        count as int
    } else {
        slot->0 as int
    }
}

/// Whether the position `x` puts an object at the slot that is meant: after
/// every sibling before the slot, before every sibling from the slot on.
pub open spec fn fits(sib: Seq<Seq<u8>>, slot: Option<usize>, x: Seq<u8>) -> bool {
    forall|j: int|
        0 <= j < sib.len() ==> if j < slot_meant(sib.len(), slot) {
            lex_lt(#[trigger] sib[j], x)
        } else {
            lex_lt(x, sib[j])
        }
}

/// Whether the children of `parent` can be listed in order. Of the live
/// records of a document they can: `get_children` lists them.
pub open spec fn listed(live: Live, parent: Option<Seq<char>>) -> bool {
    lists_children(live, parent, children_in_order(live, parent))
}

/// Whether `parent` can hold children: it is the root or a live group.
pub open spec fn can_hold(nodes: Nodes, parent: Option<Seq<char>>) -> bool {
    parent matches Some(g) ==> is_group(nodes, g)
}

/// The position for slot `slot` among siblings at the positions `sib`: the
/// default where there are none; after the last where no slot is given or
/// the slot is past the end; before the first for slot zero; else between
/// the two neighbours, where there is room.
pub open spec fn slot_position(sib: Seq<Seq<u8>>, slot: Option<usize>) -> Option<Seq<u8>> {
    if sib.len() == 0 {
        Some(seq![TERMINATOR])
    } else if slot is None || slot->0 >= sib.len() {
        Some(after_of(sib[sib.len() - 1]))
    } else if slot->0 == 0 {
        Some(before_of(sib[0]))
    } else {
        let lo = sib[slot->0 - 1];
        let hi = sib[slot->0 as int];
        if lex_lt(lo, hi) && between_defined(lo, hi) {
            between_of(lo, hi)
        } else {
            None
        }
    }
}

/// Whether the position `x` puts `id` at slot `slot` among the children of
/// `parent`, which can be listed without it.
pub open spec fn lands(
    live: Live,
    parent: Option<Seq<char>>,
    id: Seq<char>,
    slot: Option<usize>,
    x: Seq<u8>,
) -> bool {
    &&& listed(without(live, Some(id)), parent)
    &&& fits(positions_in_order(live, parent, Some(id)), slot, x)
}

/// Whether moving `id` under `parent` would close a cycle: `parent` is `id`
/// or lies below it.
pub open spec fn forms_cycle(nodes: Nodes, id: Seq<char>, parent: Option<Seq<char>>) -> bool {
    parent matches Some(g) && (g == id || is_ancestor(nodes, id, g))
}

/// The position that a move of `id` to slot `slot` under `parent` gives it,
/// if the move can be made.
pub open spec fn move_target(
    nodes: Nodes,
    parent: Option<Seq<char>>,
    id: Seq<char>,
    slot: Option<usize>,
) -> Option<Seq<u8>> {
    if lookup(nodes, id) is None || forms_cycle(nodes, id, parent) || !can_hold(nodes, parent) {
        None
    } else {
        slot_position(positions_in_order(snapshot(nodes), parent, Some(id)), slot)
    }
}

/// The document after a move of `id` to slot `slot` under `parent` at
/// `time`. Nothing happens where `id` is not live, the move would close a
/// cycle, `parent` cannot hold children, no position can be made, or the
/// replica's counter for `id` is used up.
pub open spec fn moved(
    doc: DocModel,
    parent: Option<Seq<char>>,
    id: Seq<char>,
    slot: Option<usize>,
    time: u128,
) -> DocModel {
    match move_target(doc.node_map, parent, id, slot) {
        Some(x) => if writable(doc.node_map, doc.replica_id, id) {
            let r = lookup(doc.node_map, id)->0;
            let log = MoveModel {
                old_group_id: r.parent_id.val,
                new_group_id: parent,
                object_id: id,
                index: x,
                timestamp: time,
            };
            DocModel {
                replica_id: doc.replica_id,
                node_map: after_insert(
                    doc.node_map,
                    doc.replica_id,
                    id,
                    record_moved(r, parent, x, time),
                ),
                move_history: doc.move_history.push(log),
                send_buffer: doc.send_buffer.push(log),
            }
        } else {
            doc
        },
        None => doc,
    }
}

/// The document after `object` has been added under `parent` at `time`: the
/// node is written under the name `id` with the parent of new nodes, and
/// then moved to the end of the children of `parent`. Nothing happens where
/// `parent` cannot hold children.
pub open spec fn added(
    doc: DocModel,
    parent: Option<Seq<char>>,
    id: Seq<char>,
    object: ObjectModel,
    time: u128,
) -> DocModel {
    if can_hold(doc.node_map, parent) {
        let node = NodeModel {
            object,
            parent_id: Some(new_node_root()),
            index: seq![TERMINATOR],
        };
        moved(written(doc, id, record_stamped(node, time)), parent, id, None, time)
    } else {
        doc
    }
}

/// The node map with the move `m` taken back: the object is placed under the
/// parent it came from, at the default position.
pub open spec fn undone(nodes: Nodes, m: MoveModel) -> Nodes {
    match lookup(nodes, m.object_id) {
        Some(r) => after_rewrite(
            nodes,
            m.object_id,
            record_placed(r, m.old_group_id, seq![TERMINATOR]),
        ),
        None => nodes,
    }
}

/// The node map with the move `m` made again: the object is placed where the
/// move put it, unless that would close a cycle.
pub open spec fn redone(nodes: Nodes, m: MoveModel) -> Nodes {
    match lookup(nodes, m.object_id) {
        Some(r) => if forms_cycle(nodes, m.object_id, m.new_group_id) {
            nodes
        } else {
            after_rewrite(nodes, m.object_id, record_placed(r, m.new_group_id, m.index))
        },
        None => nodes,
    }
}

/// Where the history is cut to work in a move made at `time`: the start of
/// the longest tail of moves that were all made after `time`.
pub open spec fn rewind_start(history: Seq<MoveModel>, time: u128) -> int
    decreases history.len(),
{
    if history.len() > 0 && history.last().timestamp > time {
        rewind_start(history.drop_last(), time)
    } else {
        history.len() as int
    }
}

/// The node map with the moves of `history` from place `k` on taken back,
/// the last first.
pub open spec fn undone_back(nodes: Nodes, history: Seq<MoveModel>, k: int) -> Nodes
    decreases history.len(),
{
    if history.len() > k && history.len() > 0 {
        undone_back(undone(nodes, history.last()), history.drop_last(), k)
    } else {
        nodes
    }
}

/// The node map with the moves of `history` from place `k` on made again, in
/// order.
pub open spec fn redone_from(nodes: Nodes, history: Seq<MoveModel>, k: int) -> Nodes
    decreases history.len() - k,
{
    if 0 <= k < history.len() {
        redone_from(redone(nodes, history[k]), history, k + 1)
    } else {
        nodes
    }
}

/// Whether the history holds a move made at `time` just before the cut.
pub open spec fn already_there(history: Seq<MoveModel>, time: u128) -> bool {
    let k = rewind_start(history, time);
    k > 0 && history[k - 1].timestamp == time
}

/// The history with `log` worked in at the cut; as it was where it holds a
/// move of the same time.
pub open spec fn history_with(history: Seq<MoveModel>, log: MoveModel) -> Seq<MoveModel> {
    if already_there(history, log.timestamp) {
        history
    } else {
        history.insert(rewind_start(history, log.timestamp), log)
    }
}

/// The document after the move `log` has arrived: the moves made after it
/// are taken back, `log` takes its place in the history unless a move of its
/// time is there, and the moves from there on are made again.
pub open spec fn integrated(doc: DocModel, log: MoveModel) -> DocModel {
    let k = rewind_start(doc.move_history, log.timestamp);
    let rewound = undone_back(doc.node_map, doc.move_history, k);
    let history = history_with(doc.move_history, log);
    DocModel {
        node_map: redone_from(rewound, history, k),
        move_history: history,
        ..doc
    }
}

/// The document after the moves `logs` have arrived one after the other.
pub open spec fn integrated_all(doc: DocModel, logs: Seq<MoveModel>) -> DocModel
    decreases logs.len(),
{
    if logs.len() == 0 {
        doc
    } else {
        integrated_all(integrated(doc, logs[0]), logs.drop_first())
    }
}

/// The document after the state of another replica has arrived: the node
/// maps are merged, then the moves are worked in.
pub open spec fn merged_doc(doc: DocModel, other: Nodes, logs: Seq<MoveModel>) -> DocModel {
    integrated_all(
        DocModel { node_map: merged_model::<Seq<char>, LWWNodeMapItem>(doc.node_map, other), ..doc },
        logs,
    )
}

/// The empty document of the same replica.
pub open spec fn cleared(doc: DocModel) -> DocModel {
    DocModel {
        replica_id: doc.replica_id,
        node_map: crate::crdt::uw_map::empty_model(),
        move_history: Seq::empty(),
        send_buffer: Seq::empty(),
    }
}

/// A position after the last sibling is after every sibling.
proof fn lemma_after_last_fits(sib: Seq<Seq<u8>>, slot: Option<usize>, x: Seq<u8>)
    requires
        never_falling(sib),
        sib.len() > 0,
        slot is None || slot->0 >= sib.len(),
        lex_lt(sib[sib.len() - 1], x),
    ensures
        fits(sib, slot, x),
{
    assert forall|j: int| 0 <= j < sib.len() implies lex_lt(#[trigger] sib[j], x) by {
        if j < sib.len() - 1 {
            assert(lex_le(sib[j], sib[sib.len() - 1]));
            if sib[j] != sib[sib.len() - 1] {
                lemma_lex_transitive(sib[j], sib[sib.len() - 1], x);
            }
        }
    }
}

/// A position before the first sibling is before every sibling.
proof fn lemma_before_first_fits(sib: Seq<Seq<u8>>, slot: Option<usize>, x: Seq<u8>)
    requires
        never_falling(sib),
        sib.len() > 0,
        slot == Some(0usize),
        lex_lt(x, sib[0]),
    ensures
        fits(sib, slot, x),
{
    assert forall|j: int| 0 <= j < sib.len() implies lex_lt(x, #[trigger] sib[j]) by {
        if j > 0 {
            assert(lex_le(sib[0], sib[j]));
            if sib[0] != sib[j] {
                lemma_lex_transitive(x, sib[0], sib[j]);
            }
        }
    }
}

/// A position between two neighbours is after every sibling up to the first
/// of them and before every sibling from the second on.
proof fn lemma_between_fits(sib: Seq<Seq<u8>>, slot: Option<usize>, x: Seq<u8>)
    requires
        never_falling(sib),
        slot matches Some(s) && 0 < s < sib.len() && lex_lt(sib[s - 1], x) && lex_lt(
            x,
            sib[s as int],
        ),
    ensures
        fits(sib, slot, x),
{
    let s = slot->0 as int;
    assert forall|j: int| 0 <= j < sib.len() implies if j < s {
        lex_lt(#[trigger] sib[j], x)
    } else {
        lex_lt(x, sib[j])
    } by {
        if j < s - 1 {
            assert(lex_le(sib[j], sib[s - 1]));
            if sib[j] != sib[s - 1] {
                lemma_lex_transitive(sib[j], sib[s - 1], x);
            }
        } else if j > s {
            assert(lex_le(sib[s], sib[j]));
            if sib[s] != sib[j] {
                lemma_lex_transitive(x, sib[s], sib[j]);
            }
        }
    }
}

impl SVGDocCrdt2 {
    /// The children of `parent` in order, each with its position, the node
    /// `skip` left out.
    fn list_children(&self, parent: &Option<NodeID>, skip: &Option<NodeID>) -> (res: Vec<
        (FracIndex, NodeID),
    >)
        ensures
            lists_children(
                without(snapshot(self@.node_map), skip.deep_view()),
                parent.deep_view(),
                sibling_names(res@),
            ),
            forall|i: int|
                0 <= i < res.len() ==> (#[trigger] res[i]).0@ == snapshot(
                    self@.node_map,
                )[res[i].1@].index.val,
            never_falling(sibling_positions(res@)),
    {
        let live = self.node_map.value();
        let order = sorted_order(&live);
        let n = live.len();
        let ghost all = snapshot(self@.node_map);
        let ghost kept = without(all, skip.deep_view());
        let ghost p = parent.deep_view();
        let mut res: Vec<(FracIndex, NodeID)> = Vec::new();
        let ghost mut src: Seq<int> = Seq::empty();
        let mut pos: usize = 0;
        while pos < n
            invariant
                pos <= n,
                n == live.keys().len(),
                n == live.values().len(),
                live.keys().no_duplicates(),
                live.deep_view() == all,
                kept == without(all, skip.deep_view()),
                p == parent.deep_view(),
                is_sorted_order(&live, order@),
                src.len() == res.len(),
                forall|i: int| 0 <= i < src.len() ==> 0 <= #[trigger] src[i] < pos,
                forall|i: int, j: int| 0 <= i < j < src.len() ==> src[i] < src[j],
                forall|i: int|
                    0 <= i < res.len() ==> (#[trigger] res[i]).1@ == live.keys()[order[src[i]] as int]
                        && res[i].0@ == live.values()[order[src[i]] as int].index.val
                        && is_child(kept, p, res[i].1@),
                forall|k: int|
                    0 <= k < pos && is_child(kept, p, live.keys()[#[trigger] order[k] as int])
                        ==> sibling_names(res@).contains(live.keys()[order[k] as int]),
            decreases n - pos,
        {
            let x = order[pos];
            let key = live.key_at(x);
            let rec = live.value_at(x);
            let skipped = match skip {
                Some(s) => s.same(key),
                None => false,
            };
            let ghost names0 = sibling_names(res@);
            if !skipped && same_parent(rec.parent_id.value(), parent) {
                res.push((rec.index.value().replicate(), key.clone()));
                proof {
                    src = src.push(pos as int);
                    assert(sibling_names(res@) =~= names0.push(key@));
                    assert(sibling_names(res@)[res.len() - 1] == key@);
                }
            }
            proof {
                let names = sibling_names(res@);
                assert forall|k: int|
                    0 <= k < pos + 1 && is_child(
                        kept,
                        p,
                        live.keys()[#[trigger] order[k] as int],
                    ) implies names.contains(live.keys()[order[k] as int]) by {
                    if k < pos {
                        let w = names0.index_of(live.keys()[order[k] as int]);
                        assert(names0.contains(live.keys()[order[k] as int]));
                        assert(names[w] == names0[w]);
                    } else {
                        assert(names[res.len() - 1] == key@);
                    }
                }
            }
            pos += 1;
        }
        proof {
            let names = sibling_names(res@);
            assert forall|id: Seq<char>| #[trigger] is_child(kept, p, id) implies names.contains(
                id,
            ) by {
                assert(all.contains_key(id));
                assert(live.keys().contains(id));
                let x = live.keys().index_of(id);
                assert(order@.contains(x as usize));
                let k = order@.index_of(x as usize);
                assert(order[k] == x);
                assert(is_child(kept, p, live.keys()[order[k] as int]));
            }
            assert forall|i: int, j: int| 0 <= i < j < names.len() implies key_lt_names(
                kept,
                names[i],
                names[j],
            ) by {
                let a = order[src[i]] as int;
                let b = order[src[j]] as int;
                crate::crdt::assoc::lemma_pair_map_at(live.keys(), live.values(), a);
                crate::crdt::assoc::lemma_pair_map_at(live.keys(), live.values(), b);
                assert(sort_key(kept, names[i]) == key_at(&live, a));
                assert(sort_key(kept, names[j]) == key_at(&live, b));
            }
            assert forall|i: int| 0 <= i < res.len() implies (#[trigger] res[i]).0@
                == all[res[i].1@].index.val by {
                let a = order[src[i]] as int;
                crate::crdt::assoc::lemma_pair_map_at(live.keys(), live.values(), a);
            }
            assert forall|i: int| 0 <= i < names.len() implies is_child(
                kept,
                p,
                #[trigger] names[i],
            ) by {
                assert(names[i] == res[i].1@);
            }
            let key = |id: Seq<char>| sort_key(kept, id);
            assert(crate::crdt::order::rising(names, key)) by {
                assert forall|i: int, j: int| 0 <= i < j < names.len() implies crate::crdt::order::key_lt(
                    key(names[i]),
                    key(names[j]),
                ) by {
                    assert(key_lt_names(kept, names[i], names[j]));
                }
            }
            assert(lists_children(kept, p, names));
            let sib = sibling_positions(res@);
            assert forall|i: int, j: int| 0 <= i < j < sib.len() implies lex_le(sib[i], sib[j]) by {
                let a = order[src[i]] as int;
                let b = order[src[j]] as int;
                assert(sib[i] == res[i].0@);
                assert(sib[j] == res[j].0@);
                assert(crate::crdt::order::key_lt(key_at(&live, a), key_at(&live, b)));
            }
        }
        res
    }

    /// The children of the root or of the group `object_id`, in order, each
    /// with its position. There are none to give where `object_id` names no
    /// live group.
    pub fn get_children(&self, object_id: &Option<NodeID>) -> (res: Option<
        Vec<(FracIndex, NodeID)>,
    >)
        ensures
            res is Some <==> can_hold(self@.node_map, object_id.deep_view()),
            res is Some ==> listed(snapshot(self@.node_map), object_id.deep_view()),
            res matches Some(v) ==> sibling_names(v@) == children_in_order(
                snapshot(self@.node_map),
                object_id.deep_view(),
            ) && forall|i: int|
                0 <= i < v.len() ==> (#[trigger] v[i]).0@ == snapshot(
                    self@.node_map,
                )[v[i].1@].index.val,
    {
        if let Some(group_id) = object_id {
            if !self.is_group(group_id) {
                return None;
            }
        }
        let res = self.list_children(object_id, &None);
        proof {
            lemma_listing_is_children_in_order(
                snapshot(self@.node_map),
                object_id.deep_view(),
                sibling_names(res@),
            );
        }
        Some(res)
    }

    /// The position for slot `index` among the children of `parent_id`, the
    /// node `object_id` itself not counted.
    pub fn get_fractional_index_insert_at(
        &self,
        parent_id: &Option<NodeID>,
        object_id: &NodeID,
        index: Option<usize>,
    ) -> (at: Option<FracIndex>)
        ensures
            at.deep_view() == if can_hold(self@.node_map, parent_id.deep_view()) {
                slot_position(
                    positions_in_order(
                        snapshot(self@.node_map),
                        parent_id.deep_view(),
                        Some(object_id@),
                    ),
                    index,
                )
            } else {
                None
            },
            at matches Some(x) ==> fits(
                positions_in_order(
                    snapshot(self@.node_map),
                    parent_id.deep_view(),
                    Some(object_id@),
                ),
                index,
                x@,
            ),
            can_hold(self@.node_map, parent_id.deep_view()) ==> listed(
                without(snapshot(self@.node_map), Some(object_id@)),
                parent_id.deep_view(),
            ),
    {
        if let Some(group_id) = parent_id {
            if !self.is_group(group_id) {
                return None;
            }
        }
        let children = self.list_children(parent_id, &Some(object_id.clone()));
        proof {
            let live = snapshot(self@.node_map);
            let kept = without(live, Some(object_id@));
            lemma_listing_is_children_in_order(
                kept,
                parent_id.deep_view(),
                sibling_names(children@),
            );
            assert(sibling_positions(children@) =~= positions_in_order(
                live,
                parent_id.deep_view(),
                Some(object_id@),
            ));
        }
        let ghost sib = sibling_positions(children@);
        if children.len() == 0 {
            return Some(FracIndex::default());
        }
        let last = children.len() - 1;
        let ghost slot = index;
        let index = match index {
            Some(index) => index,
            None => {
                assert(sib[last as int] == children[last as int].0@);
                let at = children[last].0.new_after();
                proof {
                    lemma_after_last_fits(sib, slot, at@);
                }
                return Some(at);
            },
        };
        if index >= children.len() {
            assert(sib[last as int] == children[last as int].0@);
            let at = children[last].0.new_after();
            proof {
                lemma_after_last_fits(sib, slot, at@);
            }
            return Some(at);
        }
        if index == 0 {
            assert(sib[0] == children[0].0@);
            let at = children[0].0.new_before();
            proof {
                lemma_before_first_fits(sib, slot, at@);
            }
            return Some(at);
        }
        assert(sib[index - 1] == children[index - 1].0@);
        assert(sib[index as int] == children[index as int].0@);
        let at = FracIndex::new_between(&children[index - 1].0, &children[index].0);
        proof {
            if at is Some {
                lemma_between_fits(sib, slot, at->0@);
            }
        }
        at
    }

    /// Moves `object_id` to slot `index` under `group_id` (none: the root),
    /// at `time`.
    pub fn move_object_at(
        &mut self,
        group_id: Option<NodeID>,
        object_id: NodeID,
        index: Option<usize>,
        time: UnixEpochTimeNanos,
    )
        ensures
            final(self)@ == moved(old(self)@, group_id.deep_view(), object_id@, index, time),
            move_target(old(self)@.node_map, group_id.deep_view(), object_id@, index) matches Some(
                x,
            ) ==> lands(snapshot(old(self)@.node_map), group_id.deep_view(), object_id@, index, x),
    {
        let mut item = match self.node_map.get(&object_id) {
            Some(r) => r.replicate(),
            None => {
                return ;
            },
        };
        let old_group_id = item.parent_id.value().replicate();
        if let Some(g) = &group_id {
            if g.same(&object_id) || self.is_ancestor(&object_id, g) {
                return ;
            }
        }
        let at = match self.get_fractional_index_insert_at(&group_id, &object_id, index) {
            Some(at) => at,
            None => {
                return ;
            },
        };
        if !self.node_map.can_write(&self.replica_id, &object_id) {
            return ;
        }
        item.update_parent_id(group_id.replicate(), time);
        item.update_index(at.replicate(), time);
        self.node_map.insert(self.replica_id.clone(), object_id.clone(), item);
        let move_log = MoveLog {
            new_group_id: group_id,
            old_group_id,
            index: at,
            object_id,
            timestamp: time,
        };
        let ghost history = self.move_history.deep_view();
        let ghost outbox = self.send_buffer.deep_view();
        self.send_buffer.push(move_log.replicate());
        self.move_history.push(move_log);
        assert(self.move_history.deep_view() =~= history.push(move_log@));
        assert(self.send_buffer.deep_view() =~= outbox.push(move_log@));
    }

    /// Moves `object_id` to slot `index` under `group_id` (none: the root),
    /// now.
    pub fn move_object(&mut self, group_id: Option<NodeID>, object_id: String, index: Option<usize>)
        ensures
            exists|time: u128|
                final(self)@ == moved(old(self)@, group_id.deep_view(), object_id@, index, time),
    {
        let time = epoch_now_nanos();
        let ghost parent = group_id.deep_view();
        let ghost id = object_id@;
        self.move_object_at(group_id, object_id, index, time);
        assert(self@ == moved(old(self)@, parent, id, index, time));
    }

    /// Adds `object` under `group_id` at `time`, under the name `id`.
    fn add_object(
        &mut self,
        group_id: Option<NodeID>,
        id: NodeID,
        object: SVGObject,
        time: UnixEpochTimeNanos,
    )
        ensures
            final(self)@ == added(old(self)@, group_id.deep_view(), id@, object@, time),
    {
        if let Some(g) = &group_id {
            if !self.is_group(g) {
                return ;
            }
        }
        let item = NodeMapItem {
            object,
            parent_id: Some(new_node_root_id()),
            index: FracIndex::default(),
        };
        self.write(id.clone(), LWWNodeMapItem::new(item, time));
        self.move_object_at(group_id, id, None, time);
    }

    /// Adds a group under `group_id` at `time`, under the name `new_id`: the
    /// default group with the changes of `partial_group`.
    pub fn add_group_with(
        &mut self,
        group_id: Option<String>,
        partial_group: PartialSVGGroup,
        new_id: NodeID,
        time: UnixEpochTimeNanos,
    )
        ensures
            final(self)@ == added(
                old(self)@,
                group_id.deep_view(),
                new_id@,
                ObjectModel::Group(group_applied(default_group(new_id@), partial_group)),
                time,
            ),
    {
        let mut group = SVGGroup::with_id(new_id.clone());
        group.apply_some(partial_group);
        proof {
            lemma_group_as_object(group);
        }
        self.add_object(group_id, new_id, SVGObject::Group(group), time);
    }

    /// Adds a group under `group_id` now, under a fresh name.
    pub fn add_group(&mut self, group_id: Option<String>, partial_group: PartialSVGGroup)
        ensures
            exists|new_id: Seq<char>, time: u128|
                new_id.len() == ID_LEN && final(self)@ == added(
                    old(self)@,
                    group_id.deep_view(),
                    new_id,
                    ObjectModel::Group(group_applied(default_group(new_id), partial_group)),
                    time,
                ),
    {
        let time = epoch_now_nanos();
        let new_id = gen_str_id();
        let ghost name = new_id@;
        let ghost parent = group_id.deep_view();
        self.add_group_with(group_id, partial_group, new_id, time);
        assert(name.len() == ID_LEN && self@ == added(
            old(self)@,
            parent,
            name,
            ObjectModel::Group(group_applied(default_group(name), partial_group)),
            time,
        ));
    }

    /// Adds a circle under `group_id` at `time`, under the name `new_id`: the
    /// default circle with the changes of `partial_circle`.
    pub fn add_circle_with(
        &mut self,
        group_id: Option<String>,
        partial_circle: PartialSVGCircle,
        new_id: NodeID,
        time: UnixEpochTimeNanos,
    )
        ensures
            final(self)@ == added(
                old(self)@,
                group_id.deep_view(),
                new_id@,
                ObjectModel::Circle(circle_applied(default_circle(new_id@), partial_circle)),
                time,
            ),
    {
        let mut circle = SVGCircle::with_id(new_id.clone());
        circle.apply_some(partial_circle);
        self.add_object(group_id, new_id, SVGObject::Circle(circle), time);
    }

    /// Adds a circle under `group_id` now, under a fresh name.
    pub fn add_circle(&mut self, group_id: Option<String>, partial_circle: PartialSVGCircle)
        ensures
            exists|new_id: Seq<char>, time: u128|
                new_id.len() == ID_LEN && final(self)@ == added(
                    old(self)@,
                    group_id.deep_view(),
                    new_id,
                    ObjectModel::Circle(circle_applied(default_circle(new_id), partial_circle)),
                    time,
                ),
    {
        let time = epoch_now_nanos();
        let new_id = gen_str_id();
        let ghost name = new_id@;
        let ghost parent = group_id.deep_view();
        self.add_circle_with(group_id, partial_circle, new_id, time);
        assert(name.len() == ID_LEN && self@ == added(
            old(self)@,
            parent,
            name,
            ObjectModel::Circle(circle_applied(default_circle(name), partial_circle)),
            time,
        ));
    }

    /// Adds a rectangle under `group_id` at `time`, under the name `new_id`:
    /// the default rectangle with the changes of `partial_rectangle`.
    pub fn add_rectangle_with(
        &mut self,
        group_id: Option<String>,
        partial_rectangle: PartialSVGRectangle,
        new_id: NodeID,
        time: UnixEpochTimeNanos,
    )
        ensures
            final(self)@ == added(
                old(self)@,
                group_id.deep_view(),
                new_id@,
                ObjectModel::Rectangle(
                    rectangle_applied(default_rectangle(new_id@), partial_rectangle),
                ),
                time,
            ),
    {
        let mut rectangle = SVGRectangle::with_id(new_id.clone());
        rectangle.apply_some(partial_rectangle);
        self.add_object(group_id, new_id, SVGObject::Rectangle(rectangle), time);
    }

    /// Adds a rectangle under `group_id` now, under a fresh name.
    pub fn add_rectangle(
        &mut self,
        group_id: Option<String>,
        partial_rectangle: PartialSVGRectangle,
    )
        ensures
            exists|new_id: Seq<char>, time: u128|
                new_id.len() == ID_LEN && final(self)@ == added(
                    old(self)@,
                    group_id.deep_view(),
                    new_id,
                    ObjectModel::Rectangle(
                        rectangle_applied(default_rectangle(new_id), partial_rectangle),
                    ),
                    time,
                ),
    {
        let time = epoch_now_nanos();
        let new_id = gen_str_id();
        let ghost name = new_id@;
        let ghost parent = group_id.deep_view();
        self.add_rectangle_with(group_id, partial_rectangle, new_id, time);
        assert(name.len() == ID_LEN && self@ == added(
            old(self)@,
            parent,
            name,
            ObjectModel::Rectangle(rectangle_applied(default_rectangle(name), partial_rectangle)),
            time,
        ));
    }

    /// Adds a path under `group_id` at `time`, under the name `new_id`: the
    /// default path with the changes of `partial_path`, its points named by
    /// `point_ids`.
    pub fn add_path_with(
        &mut self,
        group_id: Option<NodeID>,
        partial_path: PartialSVGPath,
        new_id: NodeID,
        point_ids: &Vec<String>,
        time: UnixEpochTimeNanos,
    )
        requires
            point_ids.len() >= partial_path.names_needed(),
        ensures
            final(self)@ == added(
                old(self)@,
                group_id.deep_view(),
                new_id@,
                ObjectModel::Path(
                    path_applied(default_path(new_id@), partial_path, point_ids.deep_view()),
                ),
                time,
            ),
    {
        let mut path = SVGPath::with_id(new_id.clone());
        path.apply_some_with(partial_path, point_ids);
        self.add_object(group_id, new_id, SVGObject::Path(path), time);
    }

    /// Adds a path under `group_id` now, under a fresh name, its points under
    /// fresh names.
    pub fn add_path(&mut self, group_id: Option<NodeID>, partial_path: PartialSVGPath)
        ensures
            exists|new_id: Seq<char>, point_ids: Seq<Seq<char>>, time: u128|
                new_id.len() == ID_LEN && point_ids.len() == partial_path.names_needed()
                    && final(self)@ == added(
                    old(self)@,
                    group_id.deep_view(),
                    new_id,
                    ObjectModel::Path(path_applied(default_path(new_id), partial_path, point_ids)),
                    time,
                ),
    {
        let time = epoch_now_nanos();
        let new_id = gen_str_id();
        let point_ids = fresh_names(partial_path.count_names());
        let ghost name = new_id@;
        let ghost names = point_ids.deep_view();
        let ghost parent = group_id.deep_view();
        self.add_path_with(group_id, partial_path, new_id, &point_ids, time);
        assert(name.len() == ID_LEN && names.len() == partial_path.names_needed() && self@ == added(
            old(self)@,
            parent,
            name,
            ObjectModel::Path(path_applied(default_path(name), partial_path, names)),
            time,
        ));
    }
}

impl SVGDocCrdt2 {
    /// Takes the move `log` back.
    pub fn undo_move(&mut self, log: &MoveLog)
        ensures
            final(self)@ == (DocModel {
                node_map: undone(old(self)@.node_map, log@),
                ..old(self)@
            }),
    {
        let item = match self.node_map.get(&log.object_id) {
            Some(r) => LWWNodeMapItem {
                object: r.object.replicate(),
                index: LWWReg::with_time(FracIndex::default(), r.index.time),
                parent_id: LWWReg::with_time(log.old_group_id.replicate(), r.parent_id.time),
            },
            None => {
                return ;
            },
        };
        self.node_map.insert_novtime_update(log.object_id.clone(), item);
    }

    /// Makes the move `log` again, unless it would close a cycle.
    pub fn redo_move(&mut self, log: &MoveLog)
        ensures
            final(self)@ == (DocModel {
                node_map: redone(old(self)@.node_map, log@),
                ..old(self)@
            }),
    {
        let item = match self.node_map.get(&log.object_id) {
            Some(r) => LWWNodeMapItem {
                object: r.object.replicate(),
                parent_id: LWWReg::with_time(log.new_group_id.replicate(), r.parent_id.time),
                index: LWWReg::with_time(log.index.replicate(), r.index.time),
            },
            None => {
                return ;
            },
        };
        if let Some(g) = &log.new_group_id {
            if g.same(&log.object_id) || self.is_ancestor(&log.object_id, g) {
                return ;
            }
        }
        self.node_map.insert_novtime_update(log.object_id.clone(), item);
    }

    /// Where the history is cut to work in a move made at `time`.
    pub fn rewind_start(&self, time: UnixEpochTimeNanos) -> (k: usize)
        ensures
            k == rewind_start(self@.move_history, time),
            k <= self.move_history.len(),
    {
        let ghost history = self@.move_history;
        let mut k = self.move_history.len();
        assert(history.take(k as int) =~= history);
        while k > 0 && self.move_history[k - 1].timestamp > time
            invariant
                k <= self.move_history.len(),
                history == self.move_history.deep_view(),
                rewind_start(history, time) == rewind_start(history.take(k as int), time),
            decreases k,
        {
            assert(history.take(k as int).drop_last() =~= history.take(k - 1));
            k -= 1;
        }
        k
    }

    /// Works the move `move_log` into the history: the moves made after it
    /// are taken back, it takes its place unless a move of its time is there,
    /// and the moves from there on are made again.
    pub fn add_to_move_log(&mut self, move_log: MoveLog)
        ensures
            final(self)@ == integrated(old(self)@, move_log@),
    {
        let k = self.rewind_start(move_log.timestamp);
        let present = k > 0 && self.move_history[k - 1].timestamp == move_log.timestamp;
        let ghost history = self@.move_history;
        let ghost start = self@;
        let mut j = self.move_history.len();
        assert(history.take(j as int) =~= history);
        while j > k
            invariant
                k <= j <= self.move_history.len(),
                self@ == (DocModel { node_map: self@.node_map, ..start }),
                history == start.move_history,
                undone_back(start.node_map, history, k as int) == undone_back(
                    self@.node_map,
                    history.take(j as int),
                    k as int,
                ),
            decreases j,
        {
            let h = self.move_history[j - 1].replicate();
            assert(history.take(j as int).drop_last() =~= history.take(j - 1));
            assert(history.take(j as int).last() == h@);
            self.undo_move(&h);
            j -= 1;
        }
        let ghost log = move_log@;
        if !present {
            self.move_history.insert(k, move_log);
            assert(self.move_history.deep_view() =~= history.insert(k as int, log));
        }
        let ghost rewound = self@.node_map;
        let ghost history2 = self@.move_history;
        let n = self.move_history.len();
        let mut j = k;
        while j < n
            invariant
                k <= j <= n,
                n == self.move_history.len(),
                self@ == (DocModel { node_map: self@.node_map, move_history: history2, ..start }),
                redone_from(rewound, history2, k as int) == redone_from(
                    self@.node_map,
                    history2,
                    j as int,
                ),
            decreases n - j,
        {
            let h = self.move_history[j].replicate();
            self.redo_move(&h);
            j += 1;
        }
    }

    /// Takes in the state of another replica: merges its node map into this
    /// one, then works in its moves one after the other.
    pub fn merge_aux(&mut self, other_node_map: UWMap<NodeID, LWWNodeMapItem>, move_logs: Vec<MoveLog>)
        ensures
            final(self)@ == merged_doc(old(self)@, other_node_map@, move_logs.deep_view()),
    {
        self.node_map = UWMap::merge(&self.node_map, &other_node_map);
        let ghost logs = move_logs.deep_view();
        let ghost goal = merged_doc(old(self)@, other_node_map@, logs);
        let mut i: usize = 0;
        assert(logs.skip(0) =~= logs);
        while i < move_logs.len()
            invariant
                i <= move_logs.len(),
                logs == move_logs.deep_view(),
                goal == integrated_all(self@, logs.skip(i as int)),
            decreases move_logs.len() - i,
        {
            assert(logs.skip(i as int).drop_first() =~= logs.skip(i + 1));
            assert(logs.skip(i as int)[0] == move_logs[i as int]@);
            self.add_to_move_log(move_logs[i].replicate());
            i += 1;
        }
    }

    /// What goes out to the other replicas: a copy of the node map, and the
    /// moves made here since the last time. The moves are handed over: none
    /// is left to send.
    pub fn broadcast_aux(&mut self) -> (out: (UWMap<NodeID, LWWNodeMapItem>, Vec<MoveLog>))
        ensures
            out.0@ == old(self)@.node_map,
            out.1.deep_view() == old(self)@.send_buffer,
            final(self)@ == (DocModel { send_buffer: Seq::empty(), ..old(self)@ }),
    {
        let mut moves: Vec<MoveLog> = Vec::new();
        core::mem::swap(&mut self.send_buffer, &mut moves);
        assert(self.send_buffer.deep_view() =~= Seq::empty());
        (self.node_map.replicate(), moves)
    }

    /// What is kept to restore the document: a copy of the node map, and of
    /// the whole history of moves.
    pub fn save_aux(&self) -> (out: (UWMap<NodeID, LWWNodeMapItem>, Vec<MoveLog>))
        ensures
            out.0@ == self@.node_map,
            out.1.deep_view() == self@.move_history,
    {
        (self.node_map.replicate(), self.move_history.replicate())
    }

    /// Restores the document from what was kept: the document is emptied,
    /// then the node map and the moves are taken in.
    pub fn load_aux(&mut self, node_map: UWMap<NodeID, LWWNodeMapItem>, move_logs: Vec<MoveLog>)
        ensures
            final(self)@ == merged_doc(cleared(old(self)@), node_map@, move_logs.deep_view()),
    {
        self.clear();
        self.merge_aux(node_map, move_logs);
    }
}

/// `a` sorts before `b` among the live records.
pub open spec fn key_lt_names(live: Live, a: Seq<char>, b: Seq<char>) -> bool {
    crate::crdt::order::key_lt(sort_key(live, a), sort_key(live, b))
}

} // verus!
