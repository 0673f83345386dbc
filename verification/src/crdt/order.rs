//! The order of siblings: by position, and by name where two positions are
//! the same, so that every replica lists them alike.
use crate::crdt::assoc::AssocList;
use crate::crdt::lex::{
    bytes_lt, lemma_lex_irreflexive, lemma_lex_total, lemma_lex_transitive, lex_lt,
};
use crate::crdt::node::{LWWNodeMapItem, RecordModel};
use crate::utility::NodeID;
use vstd::prelude::*;
use vstd::utf8::{encode_utf8, encode_utf8_decode_utf8};

verus! {

/// The live records of a document, by name.
pub type Live = Map<Seq<char>, RecordModel>;

/// What a node is sorted by: its position, then the bytes of its name.
pub struct SortKey {
    pub index: Seq<u8>,
    pub name: Seq<u8>,
}

/// The bytes of a name.
pub open spec fn name_bytes(id: Seq<char>) -> Seq<u8> {
    encode_utf8(id)
}

/// `a` sorts before `b`.
pub open spec fn key_lt(a: SortKey, b: SortKey) -> bool {
    lex_lt(a.index, b.index) || (a.index == b.index && lex_lt(a.name, b.name))
}

/// What the live node `id` is sorted by.
pub open spec fn sort_key(live: Live, id: Seq<char>) -> SortKey {
    SortKey { index: live[id].index.val, name: name_bytes(id) }
}

/// Different names have different bytes.
pub proof fn lemma_name_bytes_injective(a: Seq<char>, b: Seq<char>)
    requires
        name_bytes(a) == name_bytes(b),
    ensures
        a == b,
{
    encode_utf8_decode_utf8(a);
    encode_utf8_decode_utf8(b);
}

pub proof fn lemma_key_irreflexive(a: SortKey)
    ensures
        !key_lt(a, a),
{
    lemma_lex_irreflexive(a.index);
    lemma_lex_irreflexive(a.name);
}

pub proof fn lemma_key_transitive(a: SortKey, b: SortKey, c: SortKey)
    requires
        key_lt(a, b),
        key_lt(b, c),
    ensures
        key_lt(a, c),
{
    if lex_lt(a.index, b.index) && lex_lt(b.index, c.index) {
        lemma_lex_transitive(a.index, b.index, c.index);
    } else if a.index == b.index && b.index == c.index {
        lemma_lex_transitive(a.name, b.name, c.name);
    }
}

pub proof fn lemma_key_asymmetric(a: SortKey, b: SortKey)
    requires
        key_lt(a, b),
    ensures
        !key_lt(b, a),
        a != b,
{
    if key_lt(b, a) {
        lemma_key_transitive(a, b, a);
    }
    lemma_key_irreflexive(a);
}

/// Of two keys one sorts first, unless they are the same.
pub proof fn lemma_key_total(a: SortKey, b: SortKey)
    ensures
        key_lt(a, b) || key_lt(b, a) || a == b,
{
    lemma_lex_total(a.index, b.index);
    lemma_lex_total(a.name, b.name);
}

/// Whether the sequence rises strictly by `key`.
pub open spec fn rising<T>(s: Seq<T>, key: spec_fn(T) -> SortKey) -> bool {
    forall|i: int, j: int| 0 <= i < j < s.len() ==> key_lt(key(s[i]), key(s[j]))
}

/// Two strictly rising sequences with the same elements are the same
/// sequence.
pub proof fn lemma_rising_unique<T>(a: Seq<T>, b: Seq<T>, key: spec_fn(T) -> SortKey)
    requires
        rising(a, key),
        rising(b, key),
        forall|x: T| a.contains(x) <==> b.contains(x),
    ensures
        a == b,
    decreases a.len(),
{
    if a.len() == 0 {
        if b.len() > 0 {
            assert(b.contains(b[0]));
        }
        assert(a =~= b);
    } else {
        assert(a.contains(a[0]));
        let j = b.index_of(a[0]);
        assert(b.contains(b[0]));
        let i = a.index_of(b[0]);
        if j > 0 {
            assert(key_lt(key(b[0]), key(b[j])));
            if i > 0 {
                assert(key_lt(key(a[0]), key(a[i])));
                lemma_key_asymmetric(key(a[0]), key(b[0]));
            } else {
                lemma_key_irreflexive(key(a[0]));
            }
        } else if i > 0 {
            assert(key_lt(key(a[0]), key(a[i])));
            lemma_key_irreflexive(key(a[0]));
        }
        assert(a[0] == b[0]);
        let a1 = a.drop_first();
        let b1 = b.drop_first();
        assert forall|x: T| a1.contains(x) <==> b1.contains(x) by {
            if a1.contains(x) {
                let k = a1.index_of(x);
                assert(a[k + 1] == x);
                assert(key_lt(key(a[0]), key(a[k + 1])));
                assert(a.contains(x));
                let m = b.index_of(x);
                if m == 0 {
                    lemma_key_irreflexive(key(a[0]));
                }
                assert(b1[m - 1] == x);
            }
            if b1.contains(x) {
                let k = b1.index_of(x);
                assert(b[k + 1] == x);
                assert(key_lt(key(b[0]), key(b[k + 1])));
                assert(b.contains(x));
                let m = a.index_of(x);
                if m == 0 {
                    lemma_key_irreflexive(key(b[0]));
                }
                assert(a1[m - 1] == x);
            }
        }
        assert(rising(a1, key)) by {
            assert forall|i: int, j: int| 0 <= i < j < a1.len() implies key_lt(
                key(a1[i]),
                key(a1[j]),
            ) by {
                assert(key_lt(key(a[i + 1]), key(a[j + 1])));
            }
        }
        assert(rising(b1, key)) by {
            assert forall|i: int, j: int| 0 <= i < j < b1.len() implies key_lt(
                key(b1[i]),
                key(b1[j]),
            ) by {
                assert(key_lt(key(b[i + 1]), key(b[j + 1])));
            }
        }
        lemma_rising_unique(a1, b1, key);
        assert(a =~= seq![a[0]] + a1);
        assert(b =~= seq![b[0]] + b1);
    }
}

/// Whether `id` is a live node with the parent `parent` (none: the root).
pub open spec fn is_child(live: Live, parent: Option<Seq<char>>, id: Seq<char>) -> bool {
    live.contains_key(id) && live[id].parent_id.val == parent
}

/// Whether `ids` lists the children of `parent`: all of them, nothing else,
/// in rising order.
pub open spec fn lists_children(live: Live, parent: Option<Seq<char>>, ids: Seq<Seq<char>>) -> bool {
    &&& forall|i: int| 0 <= i < ids.len() ==> is_child(live, parent, #[trigger] ids[i])
    &&& forall|id: Seq<char>| #[trigger] is_child(live, parent, id) ==> ids.contains(id)
    &&& rising(ids, |id: Seq<char>| sort_key(live, id))
}

/// There is one way to list the children of a parent.
pub proof fn lemma_listing_unique(
    live: Live,
    parent: Option<Seq<char>>,
    a: Seq<Seq<char>>,
    b: Seq<Seq<char>>,
)
    requires
        lists_children(live, parent, a),
        lists_children(live, parent, b),
    ensures
        a == b,
{
    assert forall|x: Seq<char>| a.contains(x) <==> b.contains(x) by {
        if a.contains(x) {
            let i = a.index_of(x);
            assert(is_child(live, parent, a[i]));
        }
        if b.contains(x) {
            let i = b.index_of(x);
            assert(is_child(live, parent, b[i]));
        }
    }
    lemma_rising_unique(a, b, |id: Seq<char>| sort_key(live, id));
}

/// The children of `parent` in order.
pub open spec fn children_in_order(live: Live, parent: Option<Seq<char>>) -> Seq<Seq<char>> {
    choose|ids: Seq<Seq<char>>| lists_children(live, parent, ids)
}

/// A listing of the children of `parent` is the listing.
pub proof fn lemma_listing_is_children_in_order(
    live: Live,
    parent: Option<Seq<char>>,
    ids: Seq<Seq<char>>,
)
    requires
        lists_children(live, parent, ids),
    ensures
        ids == children_in_order(live, parent),
{
    lemma_listing_unique(live, parent, ids, children_in_order(live, parent));
}

/// What the entry at place `x` of `live` is sorted by.
pub open spec fn key_at(live: &AssocList<NodeID, LWWNodeMapItem>, x: int) -> SortKey {
    SortKey { index: live.values()[x].index.val, name: name_bytes(live.keys()[x]) }
}

/// Whether the entry at place `x` sorts before the entry at place `y`.
pub fn entry_before(live: &AssocList<NodeID, LWWNodeMapItem>, x: usize, y: usize) -> (r: bool)
    requires
        x < live.keys().len(),
        y < live.keys().len(),
    ensures
        r == key_lt(key_at(live, x as int), key_at(live, y as int)),
{
    let ix = live.value_at(x).index.value();
    let iy = live.value_at(y).index.value();
    if ix.lt(iy) {
        true
    } else if ix.same(iy) {
        bytes_lt(live.key_at(x).as_str().as_bytes(), live.key_at(y).as_str().as_bytes())
    } else {
        false
    }
}

/// Different entries have different keys.
pub proof fn lemma_entries_differ(live: &AssocList<NodeID, LWWNodeMapItem>, x: int, y: int)
    requires
        live.keys().no_duplicates(),
        0 <= x < live.keys().len(),
        0 <= y < live.keys().len(),
        x != y,
    ensures
        key_at(live, x) != key_at(live, y),
{
    if name_bytes(live.keys()[x]) == name_bytes(live.keys()[y]) {
        lemma_name_bytes_injective(live.keys()[x], live.keys()[y]);
    }
}

/// Whether `order` names every place of `live` once, in rising order of the
/// entries.
pub open spec fn is_sorted_order(live: &AssocList<NodeID, LWWNodeMapItem>, order: Seq<usize>) -> bool {
    &&& order.len() == live.keys().len()
    &&& forall|i: int| 0 <= i < order.len() ==> (#[trigger] order[i]) < live.keys().len()
    &&& forall|x: usize| x < live.keys().len() ==> #[trigger] order.contains(x)
    &&& forall|i: int, j: int|
        0 <= i < j < order.len() ==> key_lt(
            key_at(live, order[i] as int),
            key_at(live, order[j] as int),
        )
}

/// The places of `live` in rising order of the entries.
pub fn sorted_order(live: &AssocList<NodeID, LWWNodeMapItem>) -> (order: Vec<usize>)
    ensures
        is_sorted_order(live, order@),
{
    let n = live.len();
    let mut order: Vec<usize> = Vec::new();
    let mut x: usize = 0;
    while x < n
        invariant
            x <= n,
            n == live.keys().len(),
            live.keys().no_duplicates(),
            order.len() == x,
            forall|i: int| 0 <= i < order.len() ==> (#[trigger] order[i]) < x,
            forall|y: usize| y < x ==> #[trigger] order@.contains(y),
            forall|i: int, j: int|
                0 <= i < j < order.len() ==> key_lt(
                    key_at(live, order[i] as int),
                    key_at(live, order[j] as int),
                ),
        decreases n - x,
    {
        let mut pos: usize = order.len();
        while pos > 0 && entry_before(live, x, order[pos - 1])
            invariant
                pos <= order.len(),
                x < n,
                n == live.keys().len(),
                forall|i: int| 0 <= i < order.len() ==> (#[trigger] order[i]) < x,
                forall|j: int|
                    pos <= j < order.len() ==> key_lt(
                        key_at(live, x as int),
                        key_at(live, #[trigger] order[j] as int),
                    ),
            decreases pos,
        {
            pos -= 1;
        }
        let ghost before = order@;
        proof {
            assert forall|i: int| 0 <= i < pos implies key_lt(
                key_at(live, #[trigger] before[i] as int),
                key_at(live, x as int),
            ) by {
                let last = before[pos - 1] as int;
                lemma_entries_differ(live, last, x as int);
                lemma_key_total(key_at(live, last), key_at(live, x as int));
                if i < pos - 1 {
                    lemma_key_transitive(
                        key_at(live, before[i] as int),
                        key_at(live, last),
                        key_at(live, x as int),
                    );
                }
            }
        }
        order.insert(pos, x);
        proof {
            assert forall|y: usize| y < x + 1 implies #[trigger] order@.contains(y) by {
                if y < x {
                    assert(before.contains(y));
                    let k = before.index_of(y);
                    if k < pos {
                        assert(order@[k] == y);
                    } else {
                        assert(order@[k + 1] == y);
                    }
                } else {
                    assert(order@[pos as int] == x);
                }
            }
            assert forall|i: int, j: int| 0 <= i < j < order.len() implies key_lt(
                key_at(live, order[i] as int),
                key_at(live, order[j] as int),
            ) by {
                let bi = if i < pos {
                    i
                } else {
                    i - 1
                };
                let bj = if j < pos {
                    j
                } else {
                    j - 1
                };
                if i == pos {
                    assert(order[j] == before[bj]);
                } else if j == pos {
                    assert(order[i] == before[bi]);
                } else {
                    assert(order[i] == before[bi]);
                    assert(order[j] == before[bj]);
                }
            }
        }
        x += 1;
    }
    order
}

} // verus!
