//! The replicated form of a path.
use crate::crdt::lww_reg::{later, LWWReg, Stamped};
use crate::crdt::uw_map::Mergeable;
use crate::element::lww::restamped;
use crate::element::path::{
    commands_from_partial, name_commands, path_applied, CommandModel, PartialSVGPath, PathModel,
    SVGPath, SVGPathCommand,
};
use crate::utility::{Color, NodeID, Scalar, UWMapItem, UnixEpochTimeNanos};
use vstd::prelude::*;

verus! {

/// The replicated form of a path: every field in a register of its own, the
/// points as a whole in one.
pub struct LWWSVGPath {
    pub id: LWWReg<NodeID>,
    pub fill: LWWReg<Color>,
    pub stroke_width: LWWReg<i32>,
    pub stroke: LWWReg<Color>,
    pub points: LWWReg<Vec<SVGPathCommand>>,
    pub opacity: LWWReg<Scalar>,
}

/// What the registers of a path stand for.
pub struct LwwPathModel {
    pub id: Stamped<Seq<char>>,
    pub fill: Stamped<Color>,
    pub stroke_width: Stamped<i32>,
    pub stroke: Stamped<Color>,
    pub points: Stamped<Seq<CommandModel>>,
    pub opacity: Stamped<Scalar>,
}

/// The path that the registers hold.
pub open spec fn path_value(m: LwwPathModel) -> PathModel {
    PathModel {
        id: m.id.val,
        fill: m.fill.val,
        stroke_width: m.stroke_width.val,
        stroke: m.stroke.val,
        points: m.points.val,
        opacity: m.opacity.val,
    }
}

/// The registers of a path written as a whole at `time`.
pub open spec fn path_stamped(v: PathModel, time: u128) -> LwwPathModel {
    LwwPathModel {
        id: Stamped { val: v.id, time },
        fill: Stamped { val: v.fill, time },
        stroke_width: Stamped { val: v.stroke_width, time },
        stroke: Stamped { val: v.stroke, time },
        points: Stamped { val: v.points, time },
        opacity: Stamped { val: v.opacity, time },
    }
}

/// Field by field, the later write.
pub open spec fn path_merged(a: LwwPathModel, b: LwwPathModel) -> LwwPathModel {
    LwwPathModel {
        id: later(a.id, b.id),
        fill: later(a.fill, b.fill),
        stroke_width: later(a.stroke_width, b.stroke_width),
        stroke: later(a.stroke, b.stroke),
        points: later(a.points, b.points),
        opacity: later(a.opacity, b.opacity),
    }
}

/// The registers after the changes of `p`, written at `time`, new points
/// named by `ids`.
pub open spec fn path_edited(
    m: LwwPathModel,
    p: PartialSVGPath,
    ids: Seq<Seq<char>>,
    time: u128,
) -> LwwPathModel {
    LwwPathModel {
        id: m.id,
        fill: restamped(m.fill, p.fill, time),
        stroke_width: restamped(m.stroke_width, p.stroke_width, time),
        stroke: restamped(m.stroke, p.stroke, time),
        points: match p.points {
            Some(commands) => Stamped { val: commands_from_partial(commands@, ids), time },
            None => m.points,
        },
        opacity: restamped(m.opacity, p.opacity, time),
    }
}

/// The registers with the points replaced at `time`.
pub open spec fn path_with_points(
    m: LwwPathModel,
    points: Seq<CommandModel>,
    time: u128,
) -> LwwPathModel {
    LwwPathModel { points: Stamped { val: points, time }, ..m }
}

/// An edit of the registers is the edit of the path they hold.
pub proof fn lemma_path_edit_is_applied(
    m: LwwPathModel,
    p: PartialSVGPath,
    ids: Seq<Seq<char>>,
    time: u128,
)
    ensures
        path_value(path_edited(m, p, ids, time)) == path_applied(path_value(m), p, ids),
{
}

/// No field of `a` carries the time of the same field of `b`, unless the two
/// fields are the same write.
pub open spec fn path_distinct_times(a: LwwPathModel, b: LwwPathModel) -> bool {
    &&& (a.id.time != b.id.time || a.id == b.id)
    &&& (a.fill.time != b.fill.time || a.fill == b.fill)
    &&& (a.stroke_width.time != b.stroke_width.time || a.stroke_width == b.stroke_width)
    &&& (a.stroke.time != b.stroke.time || a.stroke == b.stroke)
    &&& (a.points.time != b.points.time || a.points == b.points)
    &&& (a.opacity.time != b.opacity.time || a.opacity == b.opacity)
}

/// The merge of the registers of a path is idempotent and associative, and
/// commutative where no field was written twice at one time.
pub proof fn lemma_path_merge_laws(a: LwwPathModel, b: LwwPathModel, c: LwwPathModel)
    ensures
        path_merged(a, a) == a,
        path_merged(path_merged(a, b), c) == path_merged(a, path_merged(b, c)),
        path_distinct_times(a, b) ==> path_merged(a, b) == path_merged(b, a),
{
}

impl DeepView for LWWSVGPath {
    type V = LwwPathModel;

    open spec fn deep_view(&self) -> LwwPathModel {
        LwwPathModel {
            id: self.id.deep_view(),
            fill: self.fill.deep_view(),
            stroke_width: self.stroke_width.deep_view(),
            stroke: self.stroke.deep_view(),
            points: self.points.deep_view(),
            opacity: self.opacity.deep_view(),
        }
    }
}

impl View for LWWSVGPath {
    type V = LwwPathModel;

    open spec fn view(&self) -> LwwPathModel {
        self.deep_view()
    }
}

impl UWMapItem for LWWSVGPath {
    fn replicate(&self) -> (copy: Self) {
        LWWSVGPath {
            id: self.id.replicate(),
            fill: self.fill.replicate(),
            stroke_width: self.stroke_width.replicate(),
            stroke: self.stroke.replicate(),
            points: self.points.replicate(),
            opacity: self.opacity.replicate(),
        }
    }
}

impl Clone for LWWSVGPath {
    fn clone(&self) -> (copy: Self)
        ensures
            copy@ == self@,
    {
        self.replicate()
    }
}

impl Mergeable for LWWSVGPath {
    open spec fn merged(a: LwwPathModel, b: LwwPathModel) -> LwwPathModel {
        path_merged(a, b)
    }

    fn merge(&self, other: &Self) -> (m: Self) {
        LWWSVGPath {
            id: LWWReg::merge(&self.id, &other.id),
            fill: LWWReg::merge(&self.fill, &other.fill),
            stroke_width: LWWReg::merge(&self.stroke_width, &other.stroke_width),
            stroke: LWWReg::merge(&self.stroke, &other.stroke),
            points: LWWReg::merge(&self.points, &other.points),
            opacity: LWWReg::merge(&self.opacity, &other.opacity),
        }
    }
}

impl LWWSVGPath {
    /// The path that the registers hold.
    pub fn value(&self) -> (v: SVGPath)
        ensures
            v@ == path_value(self@),
    {
        SVGPath {
            id: self.id.value().clone(),
            fill: *self.fill.value(),
            stroke_width: *self.stroke_width.value(),
            stroke: *self.stroke.value(),
            points: self.points.value().replicate(),
            opacity: *self.opacity.value(),
        }
    }

    /// Registers that hold `value`, every field written at `time`.
    pub fn stamped(value: SVGPath, time: UnixEpochTimeNanos) -> (r: Self)
        ensures
            r@ == path_stamped(value@, time),
    {
        LWWSVGPath {
            id: LWWReg::with_time(value.id, time),
            fill: LWWReg::with_time(value.fill, time),
            stroke_width: LWWReg::with_time(value.stroke_width, time),
            stroke: LWWReg::with_time(value.stroke, time),
            points: LWWReg::with_time(value.points, time),
            opacity: LWWReg::with_time(value.opacity, time),
        }
    }

    /// Replaces the points as a whole, at `time`.
    pub fn set_points(&mut self, points: Vec<SVGPathCommand>, time: UnixEpochTimeNanos)
        ensures
            final(self)@ == path_with_points(old(self)@, points.deep_view(), time),
    {
        self.points.set_at(points, time);
    }

    /// Whether any field is given.
    pub open spec fn touched_by(partial: &PartialSVGPath) -> bool {
        partial.fill.is_some() || partial.stroke_width.is_some() || partial.stroke.is_some()
            || partial.opacity.is_some() || partial.points.is_some()
    }

    /// Writes the fields that are given at `time`, new points named by `ids`,
    /// and says whether any was given.
    pub fn apply_some(
        &mut self,
        partial: PartialSVGPath,
        ids: &Vec<String>,
        time: UnixEpochTimeNanos,
    ) -> (any: bool)
        requires
            ids.len() >= partial.names_needed(),
        ensures
            final(self)@ == path_edited(old(self)@, partial, ids.deep_view(), time),
            any == Self::touched_by(&partial),
    {
        let will_apply_some = partial.fill.is_some() || partial.stroke_width.is_some()
            || partial.stroke.is_some() || partial.opacity.is_some() || partial.points.is_some();
        if let Some(fill) = partial.fill {
            self.fill.set_at(fill, time);
        }
        if let Some(stroke_width) = partial.stroke_width {
            self.stroke_width.set_at(stroke_width, time);
        }
        if let Some(stroke) = partial.stroke {
            self.stroke.set_at(stroke, time);
        }
        if let Some(opacity) = partial.opacity {
            self.opacity.set_at(opacity, time);
        }
        if let Some(commands) = &partial.points {
            self.points.set_at(name_commands(commands, ids), time);
        }
        will_apply_some
    }
}

} // verus!
