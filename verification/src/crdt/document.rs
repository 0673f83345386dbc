//! The document: the replicated state of one replica and the commands that
//! read and edit the objects in it.
use crate::crdt::node::{
    record_circle_edited, record_group_edited, record_path_edited, record_rectangle_edited,
    record_value, record_with_points, LWWNodeMapItem, MoveLog, MoveModel, NodeModel, RecordModel,
};
use crate::crdt::uw_map::{
    after_insert, after_remove, empty_model, lookup, writable, UWMap, UWMapModel,
};
use crate::element::circle::{PartialSVGCircle, SVGCircle};
use crate::element::group::{PartialSVGGroup, SVGGroup};
use crate::element::lww::{LWWSVGObject, LwwObjectModel};
use crate::element::path::{
    command_at, command_with_handle1, command_with_handle2, command_with_pos, find_point,
    fresh_names, point_index, CommandModel, PartialSVGPath, SVGPath, SVGPathCommand,
    SVGPathCommandType,
};
use crate::element::rectangle::{PartialSVGRectangle, SVGRectangle};
use crate::element::{lemma_group_as_object, ObjectModel, SVGObject};
use crate::utility::{
    epoch_now_nanos, gen_str_id, NodeID, ReplicaId, UWMapItem, UnixEpochTimeNanos, Vec2, ID_LEN,
};
use vstd::prelude::*;

verus! {

/// What the node map of a document stands for.
pub type Nodes = UWMapModel<Seq<char>, RecordModel>;

/// The state of one replica.
pub struct SVGDocCrdt2 {
    /// The name under which this replica writes.
    pub replica_id: ReplicaId,
    /// The record of every node, by name.
    pub node_map: UWMap<NodeID, LWWNodeMapItem>,
    /// The moves that were made here or have arrived.
    pub move_history: Vec<MoveLog>,
    /// The moves that were made here and not yet sent.
    pub send_buffer: Vec<MoveLog>,
}

/// What a document stands for.
pub struct DocModel {
    pub replica_id: Seq<char>,
    pub node_map: Nodes,
    pub move_history: Seq<MoveModel>,
    pub send_buffer: Seq<MoveModel>,
}

impl View for SVGDocCrdt2 {
    type V = DocModel;

    open spec fn view(&self) -> DocModel {
        DocModel {
            replica_id: self.replica_id@,
            node_map: self.node_map@,
            move_history: self.move_history.deep_view(),
            send_buffer: self.send_buffer.deep_view(),
        }
    }
}

/// The live node named `id`, as it is read.
pub open spec fn node_of(nodes: Nodes, id: Seq<char>) -> Option<NodeModel> {
    match lookup(nodes, id) {
        Some(r) => Some(record_value(r)),
        None => None,
    }
}

/// Whether `id` names a live group.
pub open spec fn is_group(nodes: Nodes, id: Seq<char>) -> bool {
    lookup(nodes, id) matches Some(r) && r.object.val is Group
}

/// Whether `a` is among the first `fuel` ancestors of `b`, going up from
/// parent to parent through live nodes.
pub open spec fn reaches(nodes: Nodes, a: Seq<char>, b: Seq<char>, fuel: nat) -> bool
    decreases fuel,
{
    if fuel == 0 {
        false
    } else {
        match lookup(nodes, b) {
            Some(r) => match r.parent_id.val {
                Some(p) => p == a || reaches(nodes, a, p, (fuel - 1) as nat),
                None => false,
            },
            None => false,
        }
    }
}

/// Whether `a` is an ancestor of `b`. No chain of distinct nodes is longer
/// than the number of nodes stored, so that many steps are looked at.
pub open spec fn is_ancestor(nodes: Nodes, a: Seq<char>, b: Seq<char>) -> bool {
    reaches(nodes, a, b, nodes.kv.dom().len())
}

/// The document after this replica has written `record` to `id`; as it was
/// where the replica's counter for `id` is used up.
pub open spec fn written(doc: DocModel, id: Seq<char>, record: RecordModel) -> DocModel {
    if writable(doc.node_map, doc.replica_id, id) {
        DocModel { node_map: after_insert(doc.node_map, doc.replica_id, id, record), ..doc }
    } else {
        doc
    }
}

/// The document after an edit of the circle `id` at `time`. Nothing happens
/// where `id` names no live circle.
pub open spec fn circle_edit(
    doc: DocModel,
    id: Seq<char>,
    edits: PartialSVGCircle,
    time: u128,
) -> DocModel {
    match lookup(doc.node_map, id) {
        Some(r) => if r.object.val is Circle {
            written(doc, id, record_circle_edited(r, edits, time))
        } else {
            doc
        },
        None => doc,
    }
}

/// The document after an edit of the group `id` at `time`. Nothing happens
/// where `id` names no live group.
pub open spec fn group_edit(
    doc: DocModel,
    id: Seq<char>,
    edits: PartialSVGGroup,
    time: u128,
) -> DocModel {
    match lookup(doc.node_map, id) {
        Some(r) => if r.object.val is Group {
            written(doc, id, record_group_edited(r, edits, time))
        } else {
            doc
        },
        None => doc,
    }
}

/// The document after an edit of the rectangle `id` at `time`. Nothing
/// happens where `id` names no live rectangle.
pub open spec fn rectangle_edit(
    doc: DocModel,
    id: Seq<char>,
    edits: PartialSVGRectangle,
    time: u128,
) -> DocModel {
    match lookup(doc.node_map, id) {
        Some(r) => if r.object.val is Rectangle {
            written(doc, id, record_rectangle_edited(r, edits, time))
        } else {
            doc
        },
        None => doc,
    }
}

/// The document after an edit of the path `id` at `time`, new points named by
/// `ids`. Nothing happens where `id` names no live path.
pub open spec fn path_edit(
    doc: DocModel,
    id: Seq<char>,
    edits: PartialSVGPath,
    ids: Seq<Seq<char>>,
    time: u128,
) -> DocModel {
    match lookup(doc.node_map, id) {
        Some(r) => if r.object.val is Path {
            written(doc, id, record_path_edited(r, edits, ids, time))
        } else {
            doc
        },
        None => doc,
    }
}

/// The points of the live path `id`.
pub open spec fn points_of(nodes: Nodes, id: Seq<char>) -> Option<Seq<CommandModel>> {
    match lookup(nodes, id) {
        Some(r) => match r.object.val {
            LwwObjectModel::Path(p) => Some(p.points.val),
            _ => None,
        },
        None => None,
    }
}

/// The document after the points of the live path `id` have been replaced at
/// `time`.
pub open spec fn points_rewritten(
    doc: DocModel,
    id: Seq<char>,
    points: Seq<CommandModel>,
    time: u128,
) -> DocModel {
    match lookup(doc.node_map, id) {
        Some(r) => written(doc, id, record_with_points(r, points, time)),
        None => doc,
    }
}

/// The document after a step of kind `kind` that ends at `pos` has been added
/// to the path `id` under the name `point_id`. Nothing happens where `id`
/// names no live path.
pub open spec fn point_added(
    doc: DocModel,
    id: Seq<char>,
    kind: SVGPathCommandType,
    pos: Vec2,
    point_id: Seq<char>,
    time: u128,
) -> DocModel {
    match points_of(doc.node_map, id) {
        Some(points) => points_rewritten(
            doc,
            id,
            points.push(command_at(kind, point_id, pos)),
            time,
        ),
        None => doc,
    }
}

/// The document after the step `point_id` of the path `id` has been replaced
/// by what `change` makes of it. Nothing happens where `id` names no live path or the path
/// has no such step.
pub open spec fn point_replaced(
    doc: DocModel,
    id: Seq<char>,
    point_id: Seq<char>,
    change: PointChangeModel,
    time: u128,
) -> DocModel {
    match points_of(doc.node_map, id) {
        Some(points) => match point_index(points, point_id) {
            Some(i) => points_rewritten(
                doc,
                id,
                points.update(i, change_applied(change, points[i])),
                time,
            ),
            None => doc,
        },
        None => doc,
    }
}

/// The document after the step `point_id` of the path `id` has been taken
/// out.
pub open spec fn point_removed(
    doc: DocModel,
    id: Seq<char>,
    point_id: Seq<char>,
    time: u128,
) -> DocModel {
    match points_of(doc.node_map, id) {
        Some(points) => match point_index(points, point_id) {
            Some(i) => points_rewritten(doc, id, points.remove(i), time),
            None => doc,
        },
        None => doc,
    }
}

/// The document after this replica has removed `id`; as it was where the
/// replica's counter for `id` is used up.
pub open spec fn object_removed(doc: DocModel, id: Seq<char>) -> DocModel {
    if writable(doc.node_map, doc.replica_id, id) {
        DocModel { node_map: after_remove(doc.node_map, doc.replica_id, id), ..doc }
    } else {
        doc
    }
}

impl SVGDocCrdt2 {
    /// The empty document of the replica `replica_id`.
    pub fn new(replica_id: ReplicaId) -> (doc: Self)
        ensures
            doc@ == (DocModel {
                replica_id: replica_id@,
                node_map: empty_model(),
                move_history: Seq::empty(),
                send_buffer: Seq::empty(),
            }),
    {
        let doc = Self {
            replica_id,
            node_map: UWMap::new(),
            move_history: Vec::new(),
            send_buffer: Vec::new(),
        };
        assert(doc@.move_history =~= Seq::empty());
        assert(doc@.send_buffer =~= Seq::empty());
        doc
    }

    /// Forgets every node and every move.
    pub fn clear(&mut self)
        ensures
            final(self)@ == (DocModel {
                replica_id: old(self)@.replica_id,
                node_map: empty_model(),
                move_history: Seq::empty(),
                send_buffer: Seq::empty(),
            }),
    {
        self.node_map = UWMap::new();
        self.move_history = Vec::new();
        self.send_buffer = Vec::new();
        assert(self@.move_history =~= Seq::empty());
        assert(self@.send_buffer =~= Seq::empty());
    }

    /// The live node named `id`, as it is read.
    pub fn get_node(&self, id: &NodeID) -> (n: Option<crate::crdt::node::NodeMapItem>)
        ensures
            match n {
                Some(item) => node_of(self@.node_map, id@) == Some(item@),
                None => node_of(self@.node_map, id@) is None,
            },
    {
        match self.node_map.get(id) {
            Some(r) => Some(r.value()),
            None => None,
        }
    }

    /// Whether `group_id` names a live group.
    pub fn is_group(&self, group_id: &NodeID) -> (b: bool)
        ensures
            b == is_group(self@.node_map, group_id@),
    {
        match self.node_map.get(group_id) {
            Some(r) => match r.object.value() {
                LWWSVGObject::Group(_) => true,
                _ => false,
            },
            None => false,
        }
    }

    /// Whether `object1_id` is an ancestor of `object2_id`.
    pub fn is_ancestor(&self, object1_id: &NodeID, object2_id: &NodeID) -> (b: bool)
        ensures
            b == is_ancestor(self@.node_map, object1_id@, object2_id@),
    {
        let mut fuel = self.node_map.stored();
        let mut cur: NodeID = object2_id.clone();
        while fuel > 0
            invariant
                is_ancestor(self@.node_map, object1_id@, object2_id@) == reaches(
                    self@.node_map,
                    object1_id@,
                    cur@,
                    fuel as nat,
                ),
            decreases fuel,
        {
            let next = match self.node_map.get(&cur) {
                Some(r) => match r.parent_id.value() {
                    Some(p) => p.clone(),
                    None => {
                        return false;
                    },
                },
                None => {
                    return false;
                },
            };
            if next == *object1_id {
                return true;
            }
            cur = next;
            fuel -= 1;
        }
        false
    }

    /// The live group named `group_id`, without its children.
    pub fn get_group(&self, group_id: NodeID) -> (g: Option<SVGGroup>)
        ensures
            match g {
                Some(x) => node_of(self@.node_map, group_id@) matches Some(n) && n.object
                    == ObjectModel::Group(x@),
                None => !(node_of(self@.node_map, group_id@) matches Some(n)
                    && n.object is Group),
            },
    {
        match self.get_node(&group_id) {
            Some(item) => match item.object {
                SVGObject::Group(g) => {
                    proof {
                        lemma_group_as_object(g);
                    }
                    Some(g)
                },
                _ => None,
            },
            None => None,
        }
    }

    /// The live circle named `circle_id`.
    pub fn get_circle(&self, circle_id: NodeID) -> (c: Option<SVGCircle>)
        ensures
            match c {
                Some(x) => node_of(self@.node_map, circle_id@) matches Some(n) && n.object
                    == ObjectModel::Circle(x@),
                None => !(node_of(self@.node_map, circle_id@) matches Some(n)
                    && n.object is Circle),
            },
    {
        match self.get_node(&circle_id) {
            Some(item) => match item.object {
                SVGObject::Circle(circle) => Some(circle),
                _ => None,
            },
            None => None,
        }
    }

    /// The live rectangle named `rectangle_id`.
    pub fn get_rectangle(&self, rectangle_id: NodeID) -> (r: Option<SVGRectangle>)
        ensures
            match r {
                Some(x) => node_of(self@.node_map, rectangle_id@) matches Some(n) && n.object
                    == ObjectModel::Rectangle(x@),
                None => !(node_of(self@.node_map, rectangle_id@) matches Some(n)
                    && n.object is Rectangle),
            },
    {
        match self.get_node(&rectangle_id) {
            Some(item) => match item.object {
                SVGObject::Rectangle(r) => Some(r),
                _ => None,
            },
            None => None,
        }
    }

    /// The live path named `path_id`.
    pub fn get_path(&self, path_id: NodeID) -> (p: Option<SVGPath>)
        ensures
            match p {
                Some(x) => node_of(self@.node_map, path_id@) matches Some(n) && n.object
                    == ObjectModel::Path(x@),
                None => !(node_of(self@.node_map, path_id@) matches Some(n) && n.object is Path),
            },
    {
        match self.get_node(&path_id) {
            Some(item) => match item.object {
                SVGObject::Path(p) => Some(p),
                _ => None,
            },
            None => None,
        }
    }

    /// Writes `record` to `id` in the name of this replica, unless the
    /// replica's counter for `id` is used up.
    pub fn write(&mut self, id: NodeID, record: LWWNodeMapItem)
        ensures
            final(self)@ == written(old(self)@, id@, record@),
    {
        if self.node_map.can_write(&self.replica_id, &id) {
            self.node_map.insert(self.replica_id.clone(), id, record);
        }
    }

    /// Edits the circle `circle_id` at `time`.
    pub fn edit_circle_at(
        &mut self,
        circle_id: NodeID,
        edits: PartialSVGCircle,
        time: UnixEpochTimeNanos,
    )
        ensures
            final(self)@ == circle_edit(old(self)@, circle_id@, edits, time),
    {
        let mut item = match self.node_map.get(&circle_id) {
            Some(r) => r.replicate(),
            None => {
                return ;
            },
        };
        match item.object.value() {
            LWWSVGObject::Circle(_) => {},
            _ => {
                return ;
            },
        }
        item.update_circle(edits, time);
        self.write(circle_id, item);
    }

    /// Edits the circle `circle_id` now.
    pub fn edit_circle(&mut self, circle_id: NodeID, edits: PartialSVGCircle)
        ensures
            exists|time: u128| final(self)@ == circle_edit(old(self)@, circle_id@, edits, time),
    {
        let time = epoch_now_nanos();
        self.edit_circle_at(circle_id, edits, time);
        assert(self@ == circle_edit(old(self)@, circle_id@, edits, time));
    }

    /// Edits the group `group_id` at `time`.
    pub fn edit_group_at(
        &mut self,
        group_id: NodeID,
        edits: PartialSVGGroup,
        time: UnixEpochTimeNanos,
    )
        ensures
            final(self)@ == group_edit(old(self)@, group_id@, edits, time),
    {
        let mut item = match self.node_map.get(&group_id) {
            Some(r) => r.replicate(),
            None => {
                return ;
            },
        };
        match item.object.value() {
            LWWSVGObject::Group(_) => {},
            _ => {
                return ;
            },
        }
        item.update_group(edits, time);
        self.write(group_id, item);
    }

    /// Edits the group `group_id` now.
    pub fn edit_group(&mut self, group_id: NodeID, edits: PartialSVGGroup)
        ensures
            exists|time: u128| final(self)@ == group_edit(old(self)@, group_id@, edits, time),
    {
        let time = epoch_now_nanos();
        self.edit_group_at(group_id, edits, time);
        assert(self@ == group_edit(old(self)@, group_id@, edits, time));
    }

    /// Edits the rectangle `rectangle_id` at `time`.
    pub fn edit_rectangle_at(
        &mut self,
        rectangle_id: NodeID,
        edits: PartialSVGRectangle,
        time: UnixEpochTimeNanos,
    )
        ensures
            final(self)@ == rectangle_edit(old(self)@, rectangle_id@, edits, time),
    {
        let mut item = match self.node_map.get(&rectangle_id) {
            Some(r) => r.replicate(),
            None => {
                return ;
            },
        };
        match item.object.value() {
            LWWSVGObject::Rectangle(_) => {},
            _ => {
                return ;
            },
        }
        item.update_rectangle(edits, time);
        self.write(rectangle_id, item);
    }

    /// Edits the rectangle `rectangle_id` now.
    pub fn edit_rectangle(&mut self, rectangle_id: NodeID, edits: PartialSVGRectangle)
        ensures
            exists|time: u128|
                final(self)@ == rectangle_edit(old(self)@, rectangle_id@, edits, time),
    {
        let time = epoch_now_nanos();
        self.edit_rectangle_at(rectangle_id, edits, time);
        assert(self@ == rectangle_edit(old(self)@, rectangle_id@, edits, time));
    }

    /// Edits the path `path_id` at `time`, new points named by `ids`.
    pub fn edit_path_with(
        &mut self,
        path_id: NodeID,
        edits: PartialSVGPath,
        ids: &Vec<String>,
        time: UnixEpochTimeNanos,
    )
        requires
            ids.len() >= edits.names_needed(),
        ensures
            final(self)@ == path_edit(old(self)@, path_id@, edits, ids.deep_view(), time),
    {
        let mut item = match self.node_map.get(&path_id) {
            Some(r) => r.replicate(),
            None => {
                return ;
            },
        };
        match item.object.value() {
            LWWSVGObject::Path(_) => {},
            _ => {
                return ;
            },
        }
        item.update_path(edits, ids, time);
        self.write(path_id, item);
    }

    /// Edits the path `path_id` now, new points under fresh names.
    pub fn edit_path(&mut self, path_id: NodeID, edits: PartialSVGPath)
        ensures
            exists|ids: Seq<Seq<char>>, time: u128|
                ids.len() == edits.names_needed() && final(self)@ == path_edit(
                    old(self)@,
                    path_id@,
                    edits,
                    ids,
                    time,
                ),
    {
        let time = epoch_now_nanos();
        let ids = fresh_names(edits.count_names());
        let ghost names = ids.deep_view();
        self.edit_path_with(path_id, edits, &ids, time);
        assert(names.len() == edits.names_needed() && self@ == path_edit(
            old(self)@,
            path_id@,
            edits,
            names,
            time,
        ));
    }

    /// The points of the live path `path_id`.
    pub fn path_points(&self, path_id: &NodeID) -> (points: Option<Vec<SVGPathCommand>>)
        ensures
            points.deep_view() == points_of(self@.node_map, path_id@),
    {
        match self.node_map.get(path_id) {
            Some(r) => match r.object.value() {
                LWWSVGObject::Path(p) => Some(p.points.value().replicate()),
                _ => None,
            },
            None => None,
        }
    }

    /// Replaces the points of the live path `path_id` at `time`.
    fn rewrite_points(
        &mut self,
        path_id: NodeID,
        points: Vec<SVGPathCommand>,
        time: UnixEpochTimeNanos,
    )
        ensures
            final(self)@ == points_rewritten(old(self)@, path_id@, points.deep_view(), time),
    {
        let mut item = match self.node_map.get(&path_id) {
            Some(r) => r.replicate(),
            None => {
                return ;
            },
        };
        item.update_path_points(points, time);
        self.write(path_id, item);
    }

    /// Adds a step of kind `command_type` that ends at `pos` to the path
    /// `path_id`, under the name `point_id`, at `time`.
    pub fn add_point_to_path_with(
        &mut self,
        path_id: NodeID,
        command_type: SVGPathCommandType,
        pos: Vec2,
        point_id: String,
        time: UnixEpochTimeNanos,
    )
        ensures
            final(self)@ == point_added(old(self)@, path_id@, command_type, pos, point_id@, time),
    {
        let mut points = match self.path_points(&path_id) {
            Some(points) => points,
            None => {
                return ;
            },
        };
        let ghost before = points.deep_view();
        let command = SVGPathCommand::at(command_type, point_id, pos);
        points.push(command);
        assert(points.deep_view() =~= before.push(command_at(command_type, point_id@, pos)));
        self.rewrite_points(path_id, points, time);
    }

    /// Adds a step of kind `command_type` that ends at `pos` to the path
    /// `path_id`, under a fresh name, now.
    pub fn add_point_to_path(
        &mut self,
        path_id: NodeID,
        command_type: SVGPathCommandType,
        pos: Vec2,
    )
        ensures
            exists|point_id: Seq<char>, time: u128|
                point_id.len() == ID_LEN && final(self)@ == point_added(
                    old(self)@,
                    path_id@,
                    command_type,
                    pos,
                    point_id,
                    time,
                ),
    {
        let time = epoch_now_nanos();
        let point_id = gen_str_id();
        let ghost name = point_id@;
        self.add_point_to_path_with(path_id, command_type, pos, point_id, time);
        assert(name.len() == ID_LEN && self@ == point_added(
            old(self)@,
            path_id@,
            command_type,
            pos,
            name,
            time,
        ));
    }

    /// Replaces the step `point_id` of the path `path_id` by what `change`
    /// makes of it, at `time`.
    fn replace_point(
        &mut self,
        path_id: NodeID,
        point_id: &NodeID,
        change: PointChange,
        time: UnixEpochTimeNanos,
    )
        ensures
            final(self)@ == point_replaced(
                old(self)@,
                path_id@,
                point_id@,
                change.deep_view(),
                time,
            ),
    {
        let mut points = match self.path_points(&path_id) {
            Some(points) => points,
            None => {
                return ;
            },
        };
        let idx = match find_point(&points, point_id.as_str()) {
            Some(idx) => idx,
            None => {
                return ;
            },
        };
        let ghost before = points.deep_view();
        let old_point = points.remove(idx);
        assert(old_point.deep_view() == before[idx as int]);
        let new_point = change.apply(old_point);
        points.insert(idx, new_point);
        assert(points.deep_view() =~= before.update(
            idx as int,
            change_applied(change.deep_view(), before[idx as int]),
        ));
        self.rewrite_points(path_id, points, time);
    }

    /// Turns the step `point_id` of the path `path_id` into a fresh step of
    /// kind `command_type` under the name `new_id`, at `time`. The fresh step
    /// ends at the origin.
    pub fn edit_path_point_type_with(
        &mut self,
        path_id: NodeID,
        point_id: NodeID,
        command_type: SVGPathCommandType,
        new_id: String,
        time: UnixEpochTimeNanos,
    )
        ensures
            final(self)@ == point_replaced(
                old(self)@,
                path_id@,
                point_id@,
                PointChangeModel::Kind { kind: command_type, id: new_id@ },
                time,
            ),
    {
        self.replace_point(
            path_id,
            &point_id,
            PointChange::Kind { kind: command_type, id: new_id },
            time,
        );
    }

    /// Turns the step `point_id` of the path `path_id` into a fresh step of
    /// kind `command_type`, under a fresh name, now.
    pub fn edit_path_point_type(
        &mut self,
        path_id: NodeID,
        point_id: NodeID,
        command_type: SVGPathCommandType,
    )
        ensures
            exists|new_id: Seq<char>, time: u128|
                new_id.len() == ID_LEN && final(self)@ == point_replaced(
                    old(self)@,
                    path_id@,
                    point_id@,
                    PointChangeModel::Kind { kind: command_type, id: new_id },
                    time,
                ),
    {
        let time = epoch_now_nanos();
        let new_id = gen_str_id();
        let ghost name = new_id@;
        self.edit_path_point_type_with(path_id, point_id, command_type, new_id, time);
        assert(name.len() == ID_LEN && self@ == point_replaced(
            old(self)@,
            path_id@,
            point_id@,
            PointChangeModel::Kind { kind: command_type, id: name },
            time,
        ));
    }

    /// Moves the end of the step `point_id` of the path `path_id` to
    /// `new_pos`, at `time`.
    pub fn edit_path_point_pos_at(
        &mut self,
        path_id: NodeID,
        point_id: NodeID,
        new_pos: Vec2,
        time: UnixEpochTimeNanos,
    )
        ensures
            final(self)@ == point_replaced(
                old(self)@,
                path_id@,
                point_id@,
                PointChangeModel::Pos { pos: new_pos },
                time,
            ),
    {
        self.replace_point(path_id, &point_id, PointChange::Pos { pos: new_pos }, time);
    }

    /// Moves the end of the step `point_id` of the path `path_id` to
    /// `new_pos`, now.
    pub fn edit_path_point_pos(&mut self, path_id: NodeID, point_id: NodeID, new_pos: Vec2)
        ensures
            exists|time: u128|
                final(self)@ == point_replaced(
                    old(self)@,
                    path_id@,
                    point_id@,
                    PointChangeModel::Pos { pos: new_pos },
                    time,
                ),
    {
        let time = epoch_now_nanos();
        self.edit_path_point_pos_at(path_id, point_id, new_pos, time);
        assert(self@ == point_replaced(
            old(self)@,
            path_id@,
            point_id@,
            PointChangeModel::Pos { pos: new_pos },
            time,
        ));
    }

    /// Moves the first handle of the step `point_id` of the path `path_id` to
    /// `new_handle1`, at `time`. A step without handles is left as it is.
    pub fn edit_path_point_handle1_at(
        &mut self,
        path_id: NodeID,
        point_id: NodeID,
        new_handle1: Vec2,
        time: UnixEpochTimeNanos,
    )
        ensures
            final(self)@ == point_replaced(
                old(self)@,
                path_id@,
                point_id@,
                PointChangeModel::Handle1 { handle: new_handle1 },
                time,
            ),
    {
        self.replace_point(path_id, &point_id, PointChange::Handle1 { handle: new_handle1 }, time);
    }

    /// Moves the first handle of the step `point_id` of the path `path_id` to
    /// `new_handle1`, now.
    pub fn edit_path_point_handle1(
        &mut self,
        path_id: NodeID,
        point_id: NodeID,
        new_handle1: Vec2,
    )
        ensures
            exists|time: u128|
                final(self)@ == point_replaced(
                    old(self)@,
                    path_id@,
                    point_id@,
                    PointChangeModel::Handle1 { handle: new_handle1 },
                    time,
                ),
    {
        let time = epoch_now_nanos();
        self.edit_path_point_handle1_at(path_id, point_id, new_handle1, time);
        assert(self@ == point_replaced(
            old(self)@,
            path_id@,
            point_id@,
            PointChangeModel::Handle1 { handle: new_handle1 },
            time,
        ));
    }

    /// Moves the second handle of the step `point_id` of the path `path_id`
    /// to `new_handle2`, at `time`. Only a cubic curve has one.
    pub fn edit_path_point_handle2_at(
        &mut self,
        path_id: NodeID,
        point_id: NodeID,
        new_handle2: Vec2,
        time: UnixEpochTimeNanos,
    )
        ensures
            final(self)@ == point_replaced(
                old(self)@,
                path_id@,
                point_id@,
                PointChangeModel::Handle2 { handle: new_handle2 },
                time,
            ),
    {
        self.replace_point(path_id, &point_id, PointChange::Handle2 { handle: new_handle2 }, time);
    }

    /// Moves the second handle of the step `point_id` of the path `path_id`
    /// to `new_handle2`, now.
    pub fn edit_path_point_handle2(
        &mut self,
        path_id: NodeID,
        point_id: NodeID,
        new_handle2: Vec2,
    )
        ensures
            exists|time: u128|
                final(self)@ == point_replaced(
                    old(self)@,
                    path_id@,
                    point_id@,
                    PointChangeModel::Handle2 { handle: new_handle2 },
                    time,
                ),
    {
        let time = epoch_now_nanos();
        self.edit_path_point_handle2_at(path_id, point_id, new_handle2, time);
        assert(self@ == point_replaced(
            old(self)@,
            path_id@,
            point_id@,
            PointChangeModel::Handle2 { handle: new_handle2 },
            time,
        ));
    }

    /// Removes the object `node_id`. Its children stay in the map and are no
    /// longer shown.
    pub fn remove_object(&mut self, node_id: NodeID)
        ensures
            final(self)@ == object_removed(old(self)@, node_id@),
    {
        if self.node_map.can_write(&self.replica_id, &node_id) {
            self.node_map.remove(self.replica_id.clone(), node_id);
        }
    }

    /// Takes the step `point_id` out of the path `path_id`, at `time`.
    pub fn remove_path_point_at(
        &mut self,
        path_id: NodeID,
        point_id: NodeID,
        time: UnixEpochTimeNanos,
    )
        ensures
            final(self)@ == point_removed(old(self)@, path_id@, point_id@, time),
    {
        let mut points = match self.path_points(&path_id) {
            Some(points) => points,
            None => {
                return ;
            },
        };
        let index = match find_point(&points, point_id.as_str()) {
            Some(index) => index,
            None => {
                return ;
            },
        };
        let ghost before = points.deep_view();
        let _ = points.remove(index);
        assert(points.deep_view() =~= before.remove(index as int));
        self.rewrite_points(path_id, points, time);
    }

    /// Takes the step `point_id` out of the path `path_id`, now.
    pub fn remove_path_point(&mut self, path_id: NodeID, point_id: NodeID)
        ensures
            exists|time: u128|
                final(self)@ == point_removed(old(self)@, path_id@, point_id@, time),
    {
        let time = epoch_now_nanos();
        self.remove_path_point_at(path_id, point_id, time);
        assert(self@ == point_removed(old(self)@, path_id@, point_id@, time));
    }
}

/// A change to one step of a path.
pub enum PointChange {
    /// A fresh step of another kind under a new name, ending at the origin.
    Kind { kind: SVGPathCommandType, id: String },
    /// A new end point.
    Pos { pos: Vec2 },
    /// A new first handle.
    Handle1 { handle: Vec2 },
    /// A new second handle.
    Handle2 { handle: Vec2 },
}

/// What a change to a step stands for.
pub enum PointChangeModel {
    Kind { kind: SVGPathCommandType, id: Seq<char> },
    Pos { pos: Vec2 },
    Handle1 { handle: Vec2 },
    Handle2 { handle: Vec2 },
}

/// The step after the change. A change that does not fit the step leaves it
/// as it is.
pub open spec fn change_applied(change: PointChangeModel, c: CommandModel) -> CommandModel {
    match change {
        PointChangeModel::Kind { kind, id } => command_at(kind, id, Vec2 { x: 0, y: 0 }),
        PointChangeModel::Pos { pos } => command_with_pos(c, pos),
        PointChangeModel::Handle1 { handle } => command_with_handle1(c, handle),
        PointChangeModel::Handle2 { handle } => command_with_handle2(c, handle),
    }
}

impl DeepView for PointChange {
    type V = PointChangeModel;

    open spec fn deep_view(&self) -> PointChangeModel {
        match self {
            PointChange::Kind { kind, id } => PointChangeModel::Kind { kind: *kind, id: id@ },
            PointChange::Pos { pos } => PointChangeModel::Pos { pos: *pos },
            PointChange::Handle1 { handle } => PointChangeModel::Handle1 { handle: *handle },
            PointChange::Handle2 { handle } => PointChangeModel::Handle2 { handle: *handle },
        }
    }
}

impl PointChange {
    /// The step after the change.
    pub fn apply(self, point: SVGPathCommand) -> (c: SVGPathCommand)
        ensures
            c@ == change_applied(self.deep_view(), point@),
    {
        match self {
            PointChange::Kind { kind, id } => SVGPathCommand::at(kind, id, Vec2 { x: 0, y: 0 }),
            PointChange::Pos { pos } => point.with_pos(pos),
            PointChange::Handle1 { handle } => point.with_handle1(handle),
            PointChange::Handle2 { handle } => point.with_handle2(handle),
        }
    }
}

} // verus!
