//! The record of a node: its object, its parent and its position among the
//! children of that parent, each in a register of its own. And the entry that
//! a move leaves in the log.
use crate::crdt::frac_index::FracIndex;
use crate::crdt::lww_reg::{later, LWWReg, Stamped};
use crate::crdt::uw_map::{
    lemma_merge_associative, lemma_merge_commutative, lemma_merge_idempotent, merged_model, quiet,
    settled, Mergeable, UWMapModel,
};
use crate::element::circle::PartialSVGCircle;
use crate::element::group::PartialSVGGroup;
use crate::element::lww::circle::{
    circle_distinct_times, circle_edited, circle_merged, lemma_circle_merge_laws,
};
use crate::element::lww::group::{
    group_distinct_times, group_edited, group_merged, lemma_group_merge_laws,
};
use crate::element::lww::path::{
    lemma_path_merge_laws, path_distinct_times, path_edited, path_merged, path_with_points,
};
use crate::element::lww::rectangle::{
    lemma_rectangle_merge_laws, rectangle_distinct_times, rectangle_edited, rectangle_merged,
};
use crate::element::lww::{object_stamped, object_value, LWWSVGObject, LwwObjectModel};
use crate::element::path::{CommandModel, PartialSVGPath, SVGPathCommand};
use crate::element::rectangle::PartialSVGRectangle;
use crate::element::{ObjectModel, SVGObject};
use crate::utility::{NodeID, UWMapItem, UnixEpochTimeNanos};
use vstd::prelude::*;

verus! {

/// One move of an object: from where, to where, to which position, and when.
#[derive(Debug, PartialEq, Eq)]
pub struct MoveLog {
    pub old_group_id: Option<NodeID>,
    pub new_group_id: Option<NodeID>,
    pub object_id: NodeID,
    pub index: FracIndex,
    pub timestamp: UnixEpochTimeNanos,
}

/// What an entry of the log stands for.
pub struct MoveModel {
    pub old_group_id: Option<Seq<char>>,
    pub new_group_id: Option<Seq<char>>,
    pub object_id: Seq<char>,
    pub index: Seq<u8>,
    pub timestamp: u128,
}

impl DeepView for MoveLog {
    type V = MoveModel;

    open spec fn deep_view(&self) -> MoveModel {
        MoveModel {
            old_group_id: self.old_group_id.deep_view(),
            new_group_id: self.new_group_id.deep_view(),
            object_id: self.object_id@,
            index: self.index@,
            timestamp: self.timestamp,
        }
    }
}

impl View for MoveLog {
    type V = MoveModel;

    open spec fn view(&self) -> MoveModel {
        self.deep_view()
    }
}

impl UWMapItem for MoveLog {
    fn replicate(&self) -> (copy: Self) {
        MoveLog {
            old_group_id: self.old_group_id.replicate(),
            new_group_id: self.new_group_id.replicate(),
            object_id: self.object_id.clone(),
            index: self.index.replicate(),
            timestamp: self.timestamp,
        }
    }
}

impl Clone for MoveLog {
    fn clone(&self) -> (copy: Self)
        ensures
            copy@ == self@,
    {
        self.replicate()
    }
}

/// A node as it is read: its object, its parent (none at the root) and its
/// position.
#[derive(Debug, PartialEq, Eq)]
pub struct NodeMapItem {
    pub object: SVGObject,
    pub parent_id: Option<NodeID>,
    pub index: FracIndex,
}

/// What a node stands for.
pub struct NodeModel {
    pub object: ObjectModel,
    pub parent_id: Option<Seq<char>>,
    pub index: Seq<u8>,
}

impl View for NodeMapItem {
    type V = NodeModel;

    open spec fn view(&self) -> NodeModel {
        NodeModel {
            object: self.object@,
            parent_id: self.parent_id.deep_view(),
            index: self.index@,
        }
    }
}

/// The replicated record of a node.
pub struct LWWNodeMapItem {
    pub object: LWWReg<LWWSVGObject>,
    pub parent_id: LWWReg<Option<NodeID>>,
    pub index: LWWReg<FracIndex>,
}

/// What the record of a node stands for.
pub struct RecordModel {
    pub object: Stamped<LwwObjectModel>,
    pub parent_id: Stamped<Option<Seq<char>>>,
    pub index: Stamped<Seq<u8>>,
}

/// The node that a record holds.
pub open spec fn record_value(r: RecordModel) -> NodeModel {
    NodeModel {
        object: object_value(r.object.val),
        parent_id: r.parent_id.val,
        index: r.index.val,
    }
}

/// The record of a node written as a whole at `time`.
pub open spec fn record_stamped(n: NodeModel, time: u128) -> RecordModel {
    RecordModel {
        object: Stamped { val: object_stamped(n.object, time), time },
        parent_id: Stamped { val: n.parent_id, time },
        index: Stamped { val: n.index, time },
    }
}

/// The merge of two object registers. Objects of one kind merge field by
/// field, under the later of the two times. Objects of different kinds do not
/// mix: the later write stands as a whole.
pub open spec fn object_merged(a: Stamped<LwwObjectModel>, b: Stamped<LwwObjectModel>) -> Stamped<
    LwwObjectModel,
> {
    match (a.val, b.val) {
        (LwwObjectModel::Group(g1), LwwObjectModel::Group(g2)) => Stamped {
            val: LwwObjectModel::Group(group_merged(g1, g2)),
            time: later(a, b).time,
        },
        (LwwObjectModel::Circle(c1), LwwObjectModel::Circle(c2)) => Stamped {
            val: LwwObjectModel::Circle(circle_merged(c1, c2)),
            time: later(a, b).time,
        },
        (LwwObjectModel::Path(pa), LwwObjectModel::Path(pb)) => Stamped {
            val: LwwObjectModel::Path(path_merged(pa, pb)),
            time: later(a, b).time,
        },
        (LwwObjectModel::Rectangle(r1), LwwObjectModel::Rectangle(r2)) => Stamped {
            val: LwwObjectModel::Rectangle(rectangle_merged(r1, r2)),
            time: later(a, b).time,
        },
        (_, _) => later(a, b),
    }
}

/// The merge of two records: register by register.
pub open spec fn record_merged(a: RecordModel, b: RecordModel) -> RecordModel {
    RecordModel {
        object: object_merged(a.object, b.object),
        parent_id: later(a.parent_id, b.parent_id),
        index: later(a.index, b.index),
    }
}

/// The record with its object replaced at `time`.
pub open spec fn record_with_object(r: RecordModel, o: ObjectModel, time: u128) -> RecordModel {
    RecordModel { object: Stamped { val: object_stamped(o, time), time }, ..r }
}

/// The record after an edit of its circle at `time`; as it was where it
/// holds no circle.
pub open spec fn record_circle_edited(
    r: RecordModel,
    edits: PartialSVGCircle,
    time: u128,
) -> RecordModel {
    match r.object.val {
        LwwObjectModel::Circle(c) => RecordModel {
            object: Stamped {
                val: LwwObjectModel::Circle(circle_edited(c, edits, time)),
                time: r.object.time,
            },
            ..r
        },
        _ => r,
    }
}

/// The record after an edit of its group at `time`; as it was where it holds
/// no group.
pub open spec fn record_group_edited(
    r: RecordModel,
    edits: PartialSVGGroup,
    time: u128,
) -> RecordModel {
    match r.object.val {
        LwwObjectModel::Group(g) => RecordModel {
            object: Stamped {
                val: LwwObjectModel::Group(group_edited(g, edits, time)),
                time: r.object.time,
            },
            ..r
        },
        _ => r,
    }
}

/// The record after an edit of its rectangle at `time`; as it was where it
/// holds no rectangle.
pub open spec fn record_rectangle_edited(
    r: RecordModel,
    edits: PartialSVGRectangle,
    time: u128,
) -> RecordModel {
    match r.object.val {
        LwwObjectModel::Rectangle(x) => RecordModel {
            object: Stamped {
                val: LwwObjectModel::Rectangle(rectangle_edited(x, edits, time)),
                time: r.object.time,
            },
            ..r
        },
        _ => r,
    }
}

/// The record after an edit of its path at `time`, new points named by
/// `ids`; as it was where it holds no path.
pub open spec fn record_path_edited(
    r: RecordModel,
    edits: PartialSVGPath,
    ids: Seq<Seq<char>>,
    time: u128,
) -> RecordModel {
    match r.object.val {
        LwwObjectModel::Path(p) => RecordModel {
            object: Stamped {
                val: LwwObjectModel::Path(path_edited(p, edits, ids, time)),
                time: r.object.time,
            },
            ..r
        },
        _ => r,
    }
}

/// The record with the points of its path replaced at `time`; as it was
/// where it holds no path.
pub open spec fn record_with_points(
    r: RecordModel,
    points: Seq<CommandModel>,
    time: u128,
) -> RecordModel {
    match r.object.val {
        LwwObjectModel::Path(p) => RecordModel {
            object: Stamped {
                val: LwwObjectModel::Path(path_with_points(p, points, time)),
                time: r.object.time,
            },
            ..r
        },
        _ => r,
    }
}

/// The record moved to `parent` at `index`, the times of its registers left
/// as they are.
pub open spec fn record_placed(
    r: RecordModel,
    parent: Option<Seq<char>>,
    index: Seq<u8>,
) -> RecordModel {
    RecordModel {
        object: r.object,
        parent_id: Stamped { val: parent, time: r.parent_id.time },
        index: Stamped { val: index, time: r.index.time },
    }
}

/// The record moved to `parent` at `index`, both written at `time`.
pub open spec fn record_moved(
    r: RecordModel,
    parent: Option<Seq<char>>,
    index: Seq<u8>,
    time: u128,
) -> RecordModel {
    RecordModel {
        object: r.object,
        parent_id: Stamped { val: parent, time },
        index: Stamped { val: index, time },
    }
}

/// Whether two object registers hold objects of one kind.
pub open spec fn same_kind(a: LwwObjectModel, b: LwwObjectModel) -> bool {
    ||| a is Circle && b is Circle
    ||| a is Rectangle && b is Rectangle
    ||| a is Path && b is Path
    ||| a is Group && b is Group
}

/// No register of `a` carries the time of the same register of `b`, unless
/// the two are the same write. Of objects of one kind this is asked field by
/// field, of objects of different kinds as a whole.
pub open spec fn record_distinct_times(a: RecordModel, b: RecordModel) -> bool {
    &&& a.parent_id.time != b.parent_id.time || a.parent_id == b.parent_id
    &&& a.index.time != b.index.time || a.index == b.index
    &&& match (a.object.val, b.object.val) {
        (LwwObjectModel::Group(g1), LwwObjectModel::Group(g2)) => group_distinct_times(g1, g2),
        (LwwObjectModel::Circle(c1), LwwObjectModel::Circle(c2)) => circle_distinct_times(c1, c2),
        (LwwObjectModel::Path(pa), LwwObjectModel::Path(pb)) => path_distinct_times(pa, pb),
        (LwwObjectModel::Rectangle(r1), LwwObjectModel::Rectangle(r2)) => rectangle_distinct_times(
            r1,
            r2,
        ),
        (_, _) => a.object.time != b.object.time,
    }
}

/// `merge(a, a) == a` for records.
pub proof fn lemma_record_merge_idempotent(a: RecordModel)
    ensures
        record_merged(a, a) == a,
{
    match a.object.val {
        LwwObjectModel::Group(g) => lemma_group_merge_laws(g, g, g),
        LwwObjectModel::Circle(c) => lemma_circle_merge_laws(c, c, c),
        LwwObjectModel::Path(p) => lemma_path_merge_laws(p, p, p),
        LwwObjectModel::Rectangle(r) => lemma_rectangle_merge_laws(r, r, r),
    }
}

/// `merge(a, b) == merge(b, a)` for records, where no register was written
/// twice at one time.
pub proof fn lemma_record_merge_commutative(a: RecordModel, b: RecordModel)
    requires
        record_distinct_times(a, b),
    ensures
        record_merged(a, b) == record_merged(b, a),
{
    match (a.object.val, b.object.val) {
        (LwwObjectModel::Group(g1), LwwObjectModel::Group(g2)) => lemma_group_merge_laws(
            g1,
            g2,
            g1,
        ),
        (LwwObjectModel::Circle(c1), LwwObjectModel::Circle(c2)) => lemma_circle_merge_laws(
            c1,
            c2,
            c1,
        ),
        (LwwObjectModel::Path(pa), LwwObjectModel::Path(pb)) => lemma_path_merge_laws(pa, pb, pa),
        (LwwObjectModel::Rectangle(r1), LwwObjectModel::Rectangle(r2)) => lemma_rectangle_merge_laws(
            r1,
            r2,
            r1,
        ),
        (_, _) => {},
    }
}

/// `merge(merge(a, b), c) == merge(a, merge(b, c))` for records of one kind.
pub proof fn lemma_record_merge_associative(a: RecordModel, b: RecordModel, c: RecordModel)
    requires
        same_kind(a.object.val, b.object.val),
        same_kind(b.object.val, c.object.val),
    ensures
        record_merged(record_merged(a, b), c) == record_merged(a, record_merged(b, c)),
{
    match (a.object.val, b.object.val, c.object.val) {
        (
            LwwObjectModel::Group(g1),
            LwwObjectModel::Group(g2),
            LwwObjectModel::Group(g3),
        ) => lemma_group_merge_laws(g1, g2, g3),
        (
            LwwObjectModel::Circle(c1),
            LwwObjectModel::Circle(c2),
            LwwObjectModel::Circle(c3),
        ) => lemma_circle_merge_laws(c1, c2, c3),
        (
            LwwObjectModel::Path(pa),
            LwwObjectModel::Path(pb),
            LwwObjectModel::Path(pc),
        ) => lemma_path_merge_laws(pa, pb, pc),
        (
            LwwObjectModel::Rectangle(r1),
            LwwObjectModel::Rectangle(r2),
            LwwObjectModel::Rectangle(r3),
        ) => lemma_rectangle_merge_laws(r1, r2, r3),
        (_, _, _) => {},
    }
}

/// The merge of the node maps of two replicas does not depend on which of
/// them merges: `merge(a, b) == merge(b, a)`, where no register of a node
/// that both hold was written twice at one time.
pub proof fn lemma_replica_merge_commutative(
    a: UWMapModel<Seq<char>, RecordModel>,
    b: UWMapModel<Seq<char>, RecordModel>,
)
    requires
        forall|k: Seq<char>|
            a.kv.contains_key(k) && b.kv.contains_key(k) ==> record_distinct_times(
                #[trigger] a.kv[k],
                b.kv[k],
            ),
    ensures
        merged_model::<Seq<char>, LWWNodeMapItem>(a, b) == merged_model::<
            Seq<char>,
            LWWNodeMapItem,
        >(b, a),
{
    assert forall|k: Seq<char>| a.kv.contains_key(k) && b.kv.contains_key(k) implies record_merged(
        a.kv[k],
        b.kv[k],
    ) == record_merged(b.kv[k], a.kv[k]) by {
        lemma_record_merge_commutative(a.kv[k], b.kv[k]);
    }
    lemma_merge_commutative::<Seq<char>, LWWNodeMapItem>(a, b);
}

/// Merging the node map of a replica with itself changes nothing:
/// `merge(a, a) == a`.
pub proof fn lemma_replica_merge_idempotent(a: UWMapModel<Seq<char>, RecordModel>)
    requires
        settled(a),
    ensures
        merged_model::<Seq<char>, LWWNodeMapItem>(a, a) == a,
{
    assert forall|k: Seq<char>| a.kv.contains_key(k) implies record_merged(a.kv[k], a.kv[k])
        == a.kv[k] by {
        lemma_record_merge_idempotent(a.kv[k]);
    }
    lemma_merge_idempotent::<Seq<char>, LWWNodeMapItem>(a);
}

/// The merge of the node maps of three replicas does not depend on the
/// grouping: `merge(merge(a, b), c) == merge(a, merge(b, c))`, where the two
/// inner merges drop nothing and a node that all three hold is of one kind
/// in all three.
pub proof fn lemma_replica_merge_associative(
    a: UWMapModel<Seq<char>, RecordModel>,
    b: UWMapModel<Seq<char>, RecordModel>,
    c: UWMapModel<Seq<char>, RecordModel>,
)
    requires
        quiet(a, b),
        quiet(b, c),
        forall|k: Seq<char>|
            a.kv.contains_key(k) && b.kv.contains_key(k) && c.kv.contains_key(k) ==> same_kind(
                (#[trigger] a.kv[k]).object.val,
                b.kv[k].object.val,
            ) && same_kind(b.kv[k].object.val, c.kv[k].object.val),
    ensures
        merged_model::<Seq<char>, LWWNodeMapItem>(
            merged_model::<Seq<char>, LWWNodeMapItem>(a, b),
            c,
        ) == merged_model::<Seq<char>, LWWNodeMapItem>(
            a,
            merged_model::<Seq<char>, LWWNodeMapItem>(b, c),
        ),
{
    assert forall|k: Seq<char>|
        a.kv.contains_key(k) && b.kv.contains_key(k) && c.kv.contains_key(k) implies record_merged(
        record_merged(a.kv[k], b.kv[k]),
        c.kv[k],
    ) == record_merged(a.kv[k], record_merged(b.kv[k], c.kv[k])) by {
        lemma_record_merge_associative(a.kv[k], b.kv[k], c.kv[k]);
    }
    lemma_merge_associative::<Seq<char>, LWWNodeMapItem>(a, b, c);
}

impl DeepView for LWWNodeMapItem {
    type V = RecordModel;

    open spec fn deep_view(&self) -> RecordModel {
        RecordModel {
            object: self.object.deep_view(),
            parent_id: self.parent_id.deep_view(),
            index: self.index.deep_view(),
        }
    }
}

impl View for LWWNodeMapItem {
    type V = RecordModel;

    open spec fn view(&self) -> RecordModel {
        self.deep_view()
    }
}

impl UWMapItem for LWWNodeMapItem {
    fn replicate(&self) -> (copy: Self) {
        LWWNodeMapItem {
            object: self.object.replicate(),
            parent_id: self.parent_id.replicate(),
            index: self.index.replicate(),
        }
    }
}

impl Clone for LWWNodeMapItem {
    fn clone(&self) -> (copy: Self)
        ensures
            copy@ == self@,
    {
        self.replicate()
    }
}

impl Mergeable for LWWNodeMapItem {
    open spec fn merged(a: RecordModel, b: RecordModel) -> RecordModel {
        record_merged(a, b)
    }

    fn merge(&self, other: &Self) -> (m: Self) {
        let time = if self.object.time < other.object.time {
            other.object.time
        } else {
            self.object.time
        };
        let object = match (self.object.value(), other.object.value()) {
            (LWWSVGObject::Group(g1), LWWSVGObject::Group(g2)) => LWWReg::with_time(
                LWWSVGObject::Group(g1.merge(g2)),
                time,
            ),
            (LWWSVGObject::Circle(c1), LWWSVGObject::Circle(c2)) => LWWReg::with_time(
                LWWSVGObject::Circle(c1.merge(c2)),
                time,
            ),
            (LWWSVGObject::Path(pa), LWWSVGObject::Path(pb)) => LWWReg::with_time(
                LWWSVGObject::Path(pa.merge(pb)),
                time,
            ),
            (LWWSVGObject::Rectangle(r1), LWWSVGObject::Rectangle(r2)) => LWWReg::with_time(
                LWWSVGObject::Rectangle(r1.merge(r2)),
                time,
            ),
            (_, _) => LWWReg::merge(&self.object, &other.object),
        };
        LWWNodeMapItem {
            object,
            parent_id: LWWReg::merge(&self.parent_id, &other.parent_id),
            index: LWWReg::merge(&self.index, &other.index),
        }
    }
}

impl LWWNodeMapItem {
    /// The record of `item`, every register written at `time`.
    pub fn new(item: NodeMapItem, time: UnixEpochTimeNanos) -> (r: Self)
        ensures
            r@ == record_stamped(item@, time),
    {
        LWWNodeMapItem {
            object: LWWReg::with_time(LWWSVGObject::stamped(item.object, time), time),
            parent_id: LWWReg::with_time(item.parent_id, time),
            index: LWWReg::with_time(item.index, time),
        }
    }

    /// Replaces the object as a whole, at `time`.
    pub fn update_object(&mut self, object: SVGObject, time: UnixEpochTimeNanos)
        ensures
            final(self)@ == record_with_object(old(self)@, object@, time),
    {
        self.object.set_at(LWWSVGObject::stamped(object, time), time);
    }

    /// Edits the circle of the record at `time`; a record of another kind is
    /// left as it is.
    pub fn update_circle(&mut self, edits: PartialSVGCircle, time: UnixEpochTimeNanos)
        ensures
            final(self)@ == record_circle_edited(old(self)@, edits, time),
    {
        match &mut self.object.val {
            LWWSVGObject::Circle(circle) => {
                circle.apply_some(edits, time);
            },
            _ => {},
        }
    }

    /// Edits the group of the record at `time`; a record of another kind is
    /// left as it is.
    pub fn update_group(&mut self, edits: PartialSVGGroup, time: UnixEpochTimeNanos)
        ensures
            final(self)@ == record_group_edited(old(self)@, edits, time),
    {
        match &mut self.object.val {
            LWWSVGObject::Group(g) => {
                g.apply_some(edits, time);
            },
            _ => {},
        }
    }

    /// Edits the rectangle of the record at `time`; a record of another kind
    /// is left as it is.
    pub fn update_rectangle(&mut self, edits: PartialSVGRectangle, time: UnixEpochTimeNanos)
        ensures
            final(self)@ == record_rectangle_edited(old(self)@, edits, time),
    {
        match &mut self.object.val {
            LWWSVGObject::Rectangle(rect) => {
                rect.apply_some(edits, time);
            },
            _ => {},
        }
    }

    /// Edits the path of the record at `time`, new points named by `ids`; a
    /// record of another kind is left as it is.
    pub fn update_path(
        &mut self,
        edits: PartialSVGPath,
        ids: &Vec<String>,
        time: UnixEpochTimeNanos,
    )
        requires
            ids.len() >= edits.names_needed(),
        ensures
            final(self)@ == record_path_edited(old(self)@, edits, ids.deep_view(), time),
    {
        match &mut self.object.val {
            LWWSVGObject::Path(path) => {
                path.apply_some(edits, ids, time);
            },
            _ => {},
        }
    }

    /// Replaces the points of the path of the record at `time`; a record of
    /// another kind is left as it is.
    pub fn update_path_points(&mut self, points: Vec<SVGPathCommand>, time: UnixEpochTimeNanos)
        ensures
            final(self)@ == record_with_points(old(self)@, points.deep_view(), time),
    {
        match &mut self.object.val {
            LWWSVGObject::Path(path) => {
                path.set_points(points, time);
            },
            _ => {},
        }
    }

    /// Writes the parent at `time`.
    pub fn update_parent_id(&mut self, parent_id: Option<NodeID>, time: UnixEpochTimeNanos)
        ensures
            final(self)@ == (RecordModel {
                parent_id: Stamped { val: parent_id.deep_view(), time },
                ..old(self)@
            }),
    {
        self.parent_id.set_at(parent_id, time);
    }

    /// Writes the position at `time`.
    pub fn update_index(&mut self, index: FracIndex, time: UnixEpochTimeNanos)
        ensures
            final(self)@ == (RecordModel { index: Stamped { val: index@, time }, ..old(self)@ }),
    {
        self.index.set_at(index, time);
    }

    /// The node that the record holds.
    pub fn value(&self) -> (n: NodeMapItem)
        ensures
            n@ == record_value(self@),
    {
        NodeMapItem {
            object: self.object.value().value(),
            parent_id: self.parent_id.value().replicate(),
            index: self.index.value().replicate(),
        }
    }
}

} // verus!
