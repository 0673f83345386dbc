//! What holds of every materialized document: it is determined by the live
//! state, and no node is shown twice.
use crate::crdt::order::{
    is_child, key_lt, lemma_key_irreflexive, lemma_listing_unique, sort_key, Live,
};
use crate::crdt::document::DocModel;
use crate::crdt::moves::merged_doc;
use crate::crdt::node::{lemma_replica_merge_commutative, record_distinct_times};
use crate::crdt::tree::{bare, rendered, top_names};
use crate::crdt::uw_map::snapshot;
use crate::element::{object_id, ObjectModel};
use vstd::prelude::*;

verus! {

/// Two documents that show the same live state are the same document: what
/// is shown depends on nothing but the live nodes.
pub proof fn lemma_rendered_unique(
    live: Live,
    parent: Option<Seq<char>>,
    a: Seq<ObjectModel>,
    b: Seq<ObjectModel>,
)
    requires
        rendered(live, parent, a),
        rendered(live, parent, b),
    ensures
        a == b,
    decreases a,
{
    lemma_listing_unique(live, parent, top_names(a), top_names(b));
    assert(a.len() == top_names(a).len());
    assert(b.len() == top_names(b).len());
    assert forall|i: int| 0 <= i < a.len() implies a[i] == b[i] by {
        assert(object_id(a[i]) == top_names(a)[i]);
        assert(object_id(b[i]) == top_names(b)[i]);
        assert(bare(a[i]) == bare(b[i]));
        match a[i] {
            ObjectModel::Group(g1) => {
                let g2 = b[i]->Group_0;
                assert(b[i] is Group);
                lemma_rendered_unique(live, Some(g1.id), g1.children, g2.children);
            },
            _ => {},
        }
    }
    assert(a =~= b);
}

/// Two replicas that take in each other's node map, with no moves to work
/// in on either side, show the same document afterwards. They hold the same
/// node map then, provided that no register of a node that both hold was
/// written twice at one time.
pub proof fn lemma_exchange_without_moves_converges(
    a: DocModel,
    b: DocModel,
    shown_by_a: Seq<ObjectModel>,
    shown_by_b: Seq<ObjectModel>,
)
    requires
        forall|k: Seq<char>|
            a.node_map.kv.contains_key(k) && b.node_map.kv.contains_key(k)
                ==> record_distinct_times(#[trigger] a.node_map.kv[k], b.node_map.kv[k]),
        rendered(
            snapshot(merged_doc(a, b.node_map, Seq::empty()).node_map),
            None,
            shown_by_a,
        ),
        rendered(
            snapshot(merged_doc(b, a.node_map, Seq::empty()).node_map),
            None,
            shown_by_b,
        ),
    ensures
        merged_doc(a, b.node_map, Seq::empty()).node_map == merged_doc(
            b,
            a.node_map,
            Seq::empty(),
        ).node_map,
        shown_by_a == shown_by_b,
{
    lemma_replica_merge_commutative(a.node_map, b.node_map);
    lemma_rendered_unique(
        snapshot(merged_doc(a, b.node_map, Seq::empty()).node_map),
        None,
        shown_by_a,
        shown_by_b,
    );
}

/// The object of `forest` at the end of `path`: the first number picks an
/// object of the forest, each further one a child of the group picked
/// before.
pub open spec fn at_path(forest: Seq<ObjectModel>, path: Seq<int>) -> Option<ObjectModel>
    decreases path.len(),
{
    if path.len() == 0 || !(0 <= path[0] < forest.len()) {
        None
    } else if path.len() == 1 {
        Some(forest[path[0]])
    } else {
        match forest[path[0]] {
            ObjectModel::Group(g) => at_path(g.children, path.drop_first()),
            _ => None,
        }
    }
}

/// Whether `top` is reached from `id` in exactly `n` steps from child to
/// parent through live nodes; `top` may be the root.
pub open spec fn descends(live: Live, id: Seq<char>, top: Option<Seq<char>>, n: nat) -> bool
    decreases n,
{
    if n == 0 {
        false
    } else if n == 1 {
        live.contains_key(id) && live[id].parent_id.val == top
    } else {
        live.contains_key(id) && (live[id].parent_id.val matches Some(q) && descends(
            live,
            q,
            top,
            (n - 1) as nat,
        ))
    }
}

proof fn lemma_descends_compose(
    live: Live,
    id: Seq<char>,
    mid: Seq<char>,
    top: Option<Seq<char>>,
    a: nat,
    b: nat,
)
    requires
        descends(live, id, Some(mid), a),
        descends(live, mid, top, b),
    ensures
        descends(live, id, top, a + b),
    decreases a,
{
    if a > 1 {
        let q = live[id].parent_id.val->0;
        lemma_descends_compose(live, q, mid, top, (a - 1) as nat, b);
    }
}

proof fn lemma_descends_functional(
    live: Live,
    id: Seq<char>,
    t1: Option<Seq<char>>,
    t2: Option<Seq<char>>,
    n: nat,
)
    requires
        descends(live, id, t1, n),
        descends(live, id, t2, n),
    ensures
        t1 == t2,
    decreases n,
{
    if n > 1 {
        let q = live[id].parent_id.val->0;
        lemma_descends_functional(live, q, t1, t2, (n - 1) as nat);
    }
}

proof fn lemma_root_ends_the_way(live: Live, id: Seq<char>, t: Option<Seq<char>>, a: nat, b: nat)
    requires
        descends(live, id, None, a),
        descends(live, id, t, b),
    ensures
        b <= a,
    decreases a,
{
    if a > 1 && b > 1 {
        let q = live[id].parent_id.val->0;
        lemma_root_ends_the_way(live, q, t, (a - 1) as nat, (b - 1) as nat);
    }
}

/// Whether `parent` hangs from the root, `m` steps below it; the root itself
/// is zero steps below.
pub open spec fn anchored(live: Live, parent: Option<Seq<char>>, m: nat) -> bool {
    match parent {
        None => m == 0,
        Some(q) => descends(live, q, None, m),
    }
}

/// An object that is shown below `parent` descends from `parent`, as many
/// steps as its path is long.
proof fn lemma_shown_descends(
    live: Live,
    parent: Option<Seq<char>>,
    forest: Seq<ObjectModel>,
    path: Seq<int>,
)
    requires
        rendered(live, parent, forest),
        at_path(forest, path) is Some,
    ensures
        descends(live, object_id(at_path(forest, path)->0), parent, path.len()),
    decreases path.len(),
{
    let i = path[0];
    assert(top_names(forest)[i] == object_id(forest[i]));
    assert(is_child(live, parent, top_names(forest)[i]));
    if path.len() > 1 {
        let g = forest[i]->Group_0;
        lemma_shown_descends(live, Some(g.id), g.children, path.drop_first());
        let id = object_id(at_path(forest, path)->0);
        lemma_descends_compose(live, id, g.id, parent, (path.len() - 1) as nat, 1);
    }
}

/// The objects at the top of a forest that is shown have different names.
proof fn lemma_top_names_differ(
    live: Live,
    parent: Option<Seq<char>>,
    forest: Seq<ObjectModel>,
    i: int,
    j: int,
)
    requires
        rendered(live, parent, forest),
        0 <= i < forest.len(),
        0 <= j < forest.len(),
        object_id(forest[i]) == object_id(forest[j]),
    ensures
        i == j,
{
    let names = top_names(forest);
    let key = |id: Seq<char>| sort_key(live, id);
    assert(names[i] == object_id(forest[i]));
    assert(names[j] == object_id(forest[j]));
    lemma_key_irreflexive(sort_key(live, names[i]));
    if i < j {
        assert(key_lt(key(names[i]), key(names[j])));
    } else if j < i {
        assert(key_lt(key(names[j]), key(names[i])));
    }
}

/// No node is shown twice: in a forest that shows the nodes below a parent
/// that hangs from the root, two paths that end at objects of one name are
/// one path.
pub proof fn lemma_shown_once(
    live: Live,
    parent: Option<Seq<char>>,
    m: nat,
    forest: Seq<ObjectModel>,
    one: Seq<int>,
    two: Seq<int>,
)
    requires
        rendered(live, parent, forest),
        anchored(live, parent, m),
        at_path(forest, one) is Some,
        at_path(forest, two) is Some,
        object_id(at_path(forest, one)->0) == object_id(at_path(forest, two)->0),
    ensures
        one == two,
    decreases one.len(),
{
    let id = object_id(at_path(forest, one)->0);
    lemma_shown_descends(live, parent, forest, one);
    lemma_shown_descends(live, parent, forest, two);
    match parent {
        None => {
            lemma_root_ends_the_way(live, id, None, one.len(), two.len());
            lemma_root_ends_the_way(live, id, None, two.len(), one.len());
        },
        Some(q) => {
            lemma_descends_compose(live, id, q, None, one.len(), m);
            lemma_descends_compose(live, id, q, None, two.len(), m);
            lemma_root_ends_the_way(live, id, None, one.len() + m, two.len() + m);
            lemma_root_ends_the_way(live, id, None, two.len() + m, one.len() + m);
        },
    }
    assert(one.len() == two.len());
    let i = one[0];
    let j = two[0];
    assert(top_names(forest)[i] == object_id(forest[i]));
    assert(is_child(live, parent, top_names(forest)[i]));
    if one.len() == 1 {
        lemma_top_names_differ(live, parent, forest, i, j);
        assert(one =~= two);
    } else {
        let g1 = forest[i]->Group_0;
        let g2 = forest[j]->Group_0;
        lemma_shown_descends(live, Some(g1.id), g1.children, one.drop_first());
        lemma_shown_descends(live, Some(g2.id), g2.children, two.drop_first());
        lemma_descends_functional(live, id, Some(g1.id), Some(g2.id), (one.len() - 1) as nat);
        lemma_top_names_differ(live, parent, forest, i, j);
        match parent {
            None => {},
            Some(q) => {
                lemma_descends_compose(live, g1.id, q, None, 1, m);
            },
        }
        lemma_shown_once(
            live,
            Some(g1.id),
            m + 1,
            g1.children,
            one.drop_first(),
            two.drop_first(),
        );
        assert(one =~= seq![i] + one.drop_first());
        assert(two =~= seq![j] + two.drop_first());
    }
}

/// In a materialized document no node is shown twice, every object that is
/// shown is a live node, and whatever holds another object is a group.
pub proof fn lemma_document_is_a_tree(live: Live, forest: Seq<ObjectModel>, one: Seq<int>, two: Seq<int>)
    requires
        rendered(live, None, forest),
        at_path(forest, one) is Some,
        at_path(forest, two) is Some,
    ensures
        object_id(at_path(forest, one)->0) == object_id(at_path(forest, two)->0) ==> one == two,
        live.contains_key(object_id(at_path(forest, one)->0)),
        one.len() > 1 ==> at_path(forest, one.drop_last()) is Some && at_path(
            forest,
            one.drop_last(),
        )->0 is Group,
{
    if object_id(at_path(forest, one)->0) == object_id(at_path(forest, two)->0) {
        lemma_shown_once(live, None, 0, forest, one, two);
    }
    lemma_shown_descends(live, None, forest, one);
    if one.len() > 1 {
        lemma_holder_is_group(forest, one);
    }
}

/// What holds another object is a group.
proof fn lemma_holder_is_group(forest: Seq<ObjectModel>, path: Seq<int>)
    requires
        at_path(forest, path) is Some,
        path.len() > 1,
    ensures
        at_path(forest, path.drop_last()) is Some,
        at_path(forest, path.drop_last())->0 is Group,
    decreases path.len(),
{
    let g = forest[path[0]]->Group_0;
    if path.len() == 2 {
        assert(path.drop_last() =~= seq![path[0]]);
    } else {
        lemma_holder_is_group(g.children, path.drop_first());
        assert(path.drop_last().drop_first() =~= path.drop_first().drop_last());
    }
}

} // verus!
