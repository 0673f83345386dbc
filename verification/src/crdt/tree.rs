//! Materialization: the nested document that the flat state of a replica
//! stands for.
use crate::crdt::assoc::{lemma_pair_map_at, AssocList};
use crate::crdt::document::SVGDocCrdt2;
use crate::crdt::moves::same_parent;
use crate::crdt::node::LWWNodeMapItem;
use crate::crdt::order::{
    is_child, is_sorted_order, key_at, key_lt, lists_children, rising, sort_key, sorted_order, Live,
};
use crate::crdt::uw_map::snapshot;
use crate::element::group::{GroupModel, SVGGroup};
use crate::element::lww::object_value;
use crate::element::{
    forest_model, lemma_group_as_object, object_id, ObjectModel, SVGDocTree, SVGObject,
};
use crate::utility::NodeID;
use vstd::prelude::*;

verus! {

/// The object under the name `id`.
pub open spec fn renamed(o: ObjectModel, id: Seq<char>) -> ObjectModel {
    match o {
        ObjectModel::Circle(c) => ObjectModel::Circle(
            crate::element::circle::CircleModel { id, ..c },
        ),
        ObjectModel::Rectangle(r) => ObjectModel::Rectangle(
            crate::element::rectangle::RectangleModel { id, ..r },
        ),
        ObjectModel::Path(p) => ObjectModel::Path(crate::element::path::PathModel { id, ..p }),
        ObjectModel::Group(g) => ObjectModel::Group(GroupModel { id, ..g }),
    }
}

/// The object without children.
pub open spec fn bare(o: ObjectModel) -> ObjectModel {
    match o {
        ObjectModel::Group(g) => ObjectModel::Group(GroupModel { children: Seq::empty(), ..g }),
        other => other,
    }
}

/// The names of the objects of `forest`, in order.
pub open spec fn top_names(forest: Seq<ObjectModel>) -> Seq<Seq<char>> {
    Seq::new(forest.len(), |i: int| object_id(forest[i]))
}

/// Whether `forest` shows the live nodes below `parent` (none: the root):
/// its objects are the children of `parent`, all of them, in rising order,
/// each as its record holds it and under the name of its node; and every
/// group among them shows its own children in the same way. The children of
/// anything but a group are not shown.
pub open spec fn rendered(live: Live, parent: Option<Seq<char>>, forest: Seq<ObjectModel>) -> bool
    decreases forest,
{
    &&& lists_children(live, parent, top_names(forest))
    &&& forall|i: int|
        0 <= i < forest.len() ==> bare(#[trigger] forest[i]) == renamed(
            object_value(live[object_id(forest[i])].object.val),
            object_id(forest[i]),
        )
    &&& forall|i: int|
        0 <= i < forest.len() ==> (#[trigger] forest[i] matches ObjectModel::Group(g)
            ==> rendered(live, Some(g.id), g.children))
}

impl SVGObject {
    /// The object under the name `id`.
    pub fn with_id(self, id: NodeID) -> (o: SVGObject)
        ensures
            o@ == renamed(self@, id@),
    {
        match self {
            SVGObject::Circle(c) => SVGObject::Circle(
                crate::element::circle::SVGCircle { id, ..c },
            ),
            SVGObject::Rectangle(r) => SVGObject::Rectangle(
                crate::element::rectangle::SVGRectangle { id, ..r },
            ),
            SVGObject::Path(p) => SVGObject::Path(crate::element::path::SVGPath { id, ..p }),
            SVGObject::Group(g) => {
                proof {
                    lemma_group_as_object(g);
                }
                let g2 = SVGGroup { id, ..g };
                proof {
                    lemma_group_as_object(g2);
                }
                SVGObject::Group(g2)
            },
        }
    }
}

/// A sequence without repetition, all of whose elements are among `n`
/// distinct ones, has at most `n` elements.
proof fn lemma_path_is_short(path: Seq<Seq<char>>, keys: Seq<Seq<char>>)
    requires
        path.no_duplicates(),
        keys.no_duplicates(),
        forall|i: int| 0 <= i < path.len() ==> keys.contains(#[trigger] path[i]),
    ensures
        path.len() <= keys.len(),
{
    path.unique_seq_to_set();
    keys.unique_seq_to_set();
    vstd::seq_lib::seq_to_set_is_finite(keys);
    assert(path.to_set().subset_of(keys.to_set())) by {
        assert forall|x: Seq<char>| path.to_set().contains(x) implies keys.to_set().contains(x) by {
            let i = path.index_of(x);
            assert(keys.contains(path[i]));
        }
    }
    vstd::set_lib::lemma_len_subset(path.to_set(), keys.to_set());
}

/// Whether `path` leads from the root down to `parent`: each node is a live
/// child of the one before it, the first a child of the root.
pub open spec fn leads_to(live: Live, path: Seq<Seq<char>>, parent: Option<Seq<char>>) -> bool {
    &&& path.no_duplicates()
    &&& forall|i: int| 0 <= i < path.len() ==> live.contains_key(#[trigger] path[i])
    &&& forall|i: int|
        0 <= i < path.len() ==> (#[trigger] live[path[i]]).parent_id.val == if i == 0 {
            None
        } else {
            Some(path[i - 1])
        }
    &&& parent == if path.len() == 0 {
        None
    } else {
        Some(path[path.len() - 1])
    }
}

/// A child of the node at the end of a path is not on the path.
proof fn lemma_path_grows(live: Live, path: Seq<Seq<char>>, parent: Option<Seq<char>>, id: Seq<char>)
    requires
        leads_to(live, path, parent),
        is_child(live, parent, id),
    ensures
        leads_to(live, path.push(id), Some(id)),
{
    let longer = path.push(id);
    if path.contains(id) {
        let i = path.index_of(id);
        assert(live[path[i]].parent_id.val == parent);
        if i > 0 {
            assert(path[i - 1] == path[path.len() - 1]);
        }
    }
    assert(longer.no_duplicates()) by {
        assert forall|i: int, j: int|
            0 <= i < longer.len() && 0 <= j < longer.len() && i != j implies longer[i]
            != longer[j] by {
            if i < path.len() && j < path.len() {
                assert(path[i] != path[j]);
            } else if i < path.len() {
                assert(path.contains(path[i]));
            } else {
                assert(path.contains(path[j]));
            }
        }
    }
    assert forall|i: int| 0 <= i < longer.len() implies (#[trigger] live[longer[i]]).parent_id.val
        == if i == 0 {
        None
    } else {
        Some(longer[i - 1])
    } by {
        if i < path.len() {
            assert(longer[i] == path[i]);
            assert(live[path[i]].parent_id.val == if i == 0 {
                None
            } else {
                Some(path[i - 1])
            });
        }
    }
}

/// The children of `parent` among the entries of `live`, in order, each
/// group with its own children inside.
fn build(
    live: &AssocList<NodeID, LWWNodeMapItem>,
    order: &Vec<usize>,
    parent: &Option<NodeID>,
    Ghost(path): Ghost<Seq<Seq<char>>>,
) -> (out: Vec<SVGObject>)
    requires
        is_sorted_order(live, order@),
        live.keys().no_duplicates(),
        live.keys().len() == live.values().len(),
        leads_to(live.deep_view(), path, parent.deep_view()),
    ensures
        rendered(live.deep_view(), parent.deep_view(), forest_model(out@)),
    decreases live.keys().len() - path.len(),
{
    let n = order.len();
    let ghost all = live.deep_view();
    let ghost p = parent.deep_view();
    let mut out: Vec<SVGObject> = Vec::new();
    let ghost mut src: Seq<int> = Seq::empty();
    let mut pos: usize = 0;
    proof {
        assert forall|i: int| 0 <= i < path.len() implies live.keys().contains(
            #[trigger] path[i],
        ) by {
            assert(all.contains_key(path[i]));
        }
        lemma_path_is_short(path, live.keys());
    }
    while pos < n
        invariant
            pos <= n,
            n == order.len(),
            n == live.keys().len(),
            n == live.values().len(),
            live.keys().no_duplicates(),
            live.deep_view() == all,
            p == parent.deep_view(),
            is_sorted_order(live, order@),
            leads_to(all, path, p),
            path.len() <= n,
            src.len() == out.len(),
            forall|i: int| 0 <= i < src.len() ==> 0 <= #[trigger] src[i] < pos,
            forall|i: int, j: int| 0 <= i < j < src.len() ==> src[i] < src[j],
            forall|i: int|
                0 <= i < out.len() ==> object_id((#[trigger] out[i])@) == live.keys()[order[src[i]] as int]
                    && is_child(all, p, object_id(out[i]@)) && bare(out[i]@) == renamed(
                    object_value(all[object_id(out[i]@)].object.val),
                    object_id(out[i]@),
                ) && (out[i]@ matches ObjectModel::Group(g) ==> rendered(all, Some(g.id), g.children)),
            forall|k: int|
                0 <= k < pos && is_child(all, p, live.keys()[#[trigger] order[k] as int])
                    ==> top_names(forest_model(out@)).contains(live.keys()[order[k] as int]),
        decreases n - pos,
    {
        let x = order[pos];
        let key = live.key_at(x);
        let rec = live.value_at(x);
        let ghost names0 = top_names(forest_model(out@));
        let ghost out0 = out@;
        if same_parent(rec.parent_id.value(), parent) {
            proof {
                lemma_pair_map_at(live.keys(), live.values(), x as int);
            }
            let shape = rec.object.value().value().with_id(key.clone());
            let object = match shape {
                SVGObject::Group(g) => {
                    proof {
                        lemma_group_as_object(g);
                        lemma_path_grows(all, path, p, key@);
                        let longer = path.push(key@);
                        assert forall|i: int| 0 <= i < longer.len() implies live.keys().contains(
                            #[trigger] longer[i],
                        ) by {
                            assert(all.contains_key(longer[i]));
                        }
                        lemma_path_is_short(longer, live.keys());
                    }
                    let children = build(live, order, &Some(key.clone()), Ghost(path.push(key@)));
                    let g2 = SVGGroup { children, ..g };
                    proof {
                        lemma_group_as_object(g2);
                        assert(bare(ObjectModel::Group(g2@)) == bare(ObjectModel::Group(g@))) by {
                            assert(g@.children =~= Seq::empty());
                        }
                    }
                    SVGObject::Group(g2)
                },
                other => other,
            };
            out.push(object);
            proof {
                src = src.push(pos as int);
                assert(forest_model(out@) =~= forest_model(out0).push(object@));
                assert(top_names(forest_model(out@)) =~= names0.push(key@));
                assert(top_names(forest_model(out@))[out.len() - 1] == key@);
                assert forall|i: int| 0 <= i < out.len() implies object_id((#[trigger] out[i])@)
                    == live.keys()[order[src[i]] as int] && is_child(all, p, object_id(out[i]@))
                    && bare(out[i]@) == renamed(
                    object_value(all[object_id(out[i]@)].object.val),
                    object_id(out[i]@),
                ) && (out[i]@ matches ObjectModel::Group(g) ==> rendered(
                    all,
                    Some(g.id),
                    g.children,
                )) by {
                    if i < out.len() - 1 {
                        assert(out[i] == out0[i]);
                    }
                }
            }
        }
        proof {
            let names = top_names(forest_model(out@));
            assert forall|k: int|
                0 <= k < pos + 1 && is_child(
                    all,
                    p,
                    live.keys()[#[trigger] order[k] as int],
                ) implies names.contains(live.keys()[order[k] as int]) by {
                if k < pos {
                    assert(names0.contains(live.keys()[order[k] as int]));
                    let w = names0.index_of(live.keys()[order[k] as int]);
                    assert(names[w] == names0[w]);
                } else {
                    assert(names[out.len() - 1] == key@);
                }
            }
        }
        pos += 1;
    }
    proof {
        let forest = forest_model(out@);
        let names = top_names(forest);
        assert forall|i: int| 0 <= i < names.len() implies is_child(all, p, #[trigger] names[i]) by {
            assert(names[i] == object_id(out[i]@));
        }
        assert forall|id: Seq<char>| #[trigger] is_child(all, p, id) implies names.contains(id) by {
            assert(live.keys().contains(id));
            let x = live.keys().index_of(id);
            assert(order@.contains(x as usize));
            let k = order@.index_of(x as usize);
            assert(order[k] == x);
            assert(is_child(all, p, live.keys()[order[k] as int]));
        }
        let key = |id: Seq<char>| sort_key(all, id);
        assert(rising(names, key)) by {
            assert forall|i: int, j: int| 0 <= i < j < names.len() implies key_lt(
                key(names[i]),
                key(names[j]),
            ) by {
                let a = order[src[i]] as int;
                let b = order[src[j]] as int;
                assert(names[i] == object_id(out[i]@));
                assert(names[j] == object_id(out[j]@));
                lemma_pair_map_at(live.keys(), live.values(), a);
                lemma_pair_map_at(live.keys(), live.values(), b);
                assert(sort_key(all, names[i]) == key_at(live, a));
                assert(sort_key(all, names[j]) == key_at(live, b));
            }
        }
        assert(lists_children(all, p, names));
        assert forall|i: int| 0 <= i < forest.len() implies bare(#[trigger] forest[i]) == renamed(
            object_value(all[object_id(forest[i])].object.val),
            object_id(forest[i]),
        ) by {
            assert(forest[i] == out[i]@);
        }
        assert forall|i: int| 0 <= i < forest.len() implies (#[trigger] forest[i] matches ObjectModel::Group(
            g,
        ) ==> rendered(all, Some(g.id), g.children)) by {
            assert(forest[i] == out[i]@);
        }
    }
    out
}

impl SVGDocCrdt2 {
    /// The document as it is shown: the live nodes that hang from the root,
    /// each group with its children inside, siblings in rising order of
    /// position.
    pub fn tree(&self) -> (t: SVGDocTree)
        ensures
            rendered(snapshot(self@.node_map), None, t@),
    {
        let live = self.node_map.value();
        let order = sorted_order(&live);
        let n = live.len();
        let children = build(&live, &order, &None, Ghost(Seq::empty()));
        SVGDocTree { children }
    }
}

} // verus!
