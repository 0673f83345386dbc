//! The replicated form of a circle.
use crate::crdt::lww_reg::{later, LWWReg, Stamped};
use crate::crdt::uw_map::Mergeable;
use crate::element::circle::{CircleModel, PartialSVGCircle, SVGCircle};
use crate::element::lww::restamped;
use crate::utility::{Color, NodeID, Scalar, UWMapItem, UnixEpochTimeNanos, Vec2};
use vstd::prelude::*;

verus! {

/// The replicated form of a circle: every field in a register of its own.
pub struct LWWSVGCircle {
    pub id: LWWReg<NodeID>,
    pub pos: LWWReg<Vec2>,
    pub radius: LWWReg<i32>,
    pub fill: LWWReg<Color>,
    pub stroke_width: LWWReg<i32>,
    pub stroke: LWWReg<Color>,
    pub opacity: LWWReg<Scalar>,
}

/// What the registers of a circle stand for.
pub struct LwwCircleModel {
    pub id: Stamped<Seq<char>>,
    pub pos: Stamped<Vec2>,
    pub radius: Stamped<i32>,
    pub fill: Stamped<Color>,
    pub stroke_width: Stamped<i32>,
    pub stroke: Stamped<Color>,
    pub opacity: Stamped<Scalar>,
}

/// The circle that the registers hold.
pub open spec fn circle_value(m: LwwCircleModel) -> CircleModel {
    CircleModel {
        id: m.id.val,
        pos: m.pos.val,
        radius: m.radius.val,
        fill: m.fill.val,
        stroke_width: m.stroke_width.val,
        stroke: m.stroke.val,
        opacity: m.opacity.val,
    }
}

/// The registers of a circle written as a whole at `time`.
pub open spec fn circle_stamped(v: CircleModel, time: u128) -> LwwCircleModel {
    LwwCircleModel {
        id: Stamped { val: v.id, time },
        pos: Stamped { val: v.pos, time },
        radius: Stamped { val: v.radius, time },
        fill: Stamped { val: v.fill, time },
        stroke_width: Stamped { val: v.stroke_width, time },
        stroke: Stamped { val: v.stroke, time },
        opacity: Stamped { val: v.opacity, time },
    }
}

/// Field by field, the later write.
pub open spec fn circle_merged(a: LwwCircleModel, b: LwwCircleModel) -> LwwCircleModel {
    LwwCircleModel {
        id: later(a.id, b.id),
        pos: later(a.pos, b.pos),
        radius: later(a.radius, b.radius),
        fill: later(a.fill, b.fill),
        stroke_width: later(a.stroke_width, b.stroke_width),
        stroke: later(a.stroke, b.stroke),
        opacity: later(a.opacity, b.opacity),
    }
}

/// The registers after the changes of `p`, written at `time`. A field that
/// is not given keeps its value and its time.
pub open spec fn circle_edited(m: LwwCircleModel, p: PartialSVGCircle, time: u128) -> LwwCircleModel {
    LwwCircleModel {
        id: m.id,
        pos: restamped(m.pos, p.pos, time),
        radius: restamped(m.radius, p.radius, time),
        fill: restamped(m.fill, p.fill, time),
        stroke_width: restamped(m.stroke_width, p.stroke_width, time),
        stroke: restamped(m.stroke, p.stroke, time),
        opacity: restamped(m.opacity, p.opacity, time),
    }
}

/// An edit of the registers is the edit of the circle they hold.
pub proof fn lemma_circle_edit_is_applied(m: LwwCircleModel, p: PartialSVGCircle, time: u128)
    ensures
        circle_value(circle_edited(m, p, time)) == crate::element::circle::circle_applied(
            circle_value(m),
            p,
        ),
{
}

/// The merge of the registers of a circle is idempotent and associative, and
/// commutative where no field was written twice at one time.
pub proof fn lemma_circle_merge_laws(a: LwwCircleModel, b: LwwCircleModel, c: LwwCircleModel)
    ensures
        circle_merged(a, a) == a,
        circle_merged(circle_merged(a, b), c) == circle_merged(a, circle_merged(b, c)),
        circle_distinct_times(a, b) ==> circle_merged(a, b) == circle_merged(b, a),
{
}

/// No field of `a` carries the time of the same field of `b`, unless the two
/// fields are the same write.
pub open spec fn circle_distinct_times(a: LwwCircleModel, b: LwwCircleModel) -> bool {
    &&& (a.id.time != b.id.time || a.id == b.id)
    &&& (a.pos.time != b.pos.time || a.pos == b.pos)
    &&& (a.radius.time != b.radius.time || a.radius == b.radius)
    &&& (a.fill.time != b.fill.time || a.fill == b.fill)
    &&& (a.stroke_width.time != b.stroke_width.time || a.stroke_width == b.stroke_width)
    &&& (a.stroke.time != b.stroke.time || a.stroke == b.stroke)
    &&& (a.opacity.time != b.opacity.time || a.opacity == b.opacity)
}

impl DeepView for LWWSVGCircle {
    type V = LwwCircleModel;

    open spec fn deep_view(&self) -> LwwCircleModel {
        LwwCircleModel {
            id: self.id.deep_view(),
            pos: self.pos.deep_view(),
            radius: self.radius.deep_view(),
            fill: self.fill.deep_view(),
            stroke_width: self.stroke_width.deep_view(),
            stroke: self.stroke.deep_view(),
            opacity: self.opacity.deep_view(),
        }
    }
}

impl View for LWWSVGCircle {
    type V = LwwCircleModel;

    open spec fn view(&self) -> LwwCircleModel {
        self.deep_view()
    }
}

impl UWMapItem for LWWSVGCircle {
    fn replicate(&self) -> (copy: Self) {
        LWWSVGCircle {
            id: self.id.replicate(),
            pos: self.pos.replicate(),
            radius: self.radius.replicate(),
            fill: self.fill.replicate(),
            stroke_width: self.stroke_width.replicate(),
            stroke: self.stroke.replicate(),
            opacity: self.opacity.replicate(),
        }
    }
}

impl Clone for LWWSVGCircle {
    fn clone(&self) -> (copy: Self)
        ensures
            copy@ == self@,
    {
        self.replicate()
    }
}

impl Mergeable for LWWSVGCircle {
    open spec fn merged(a: LwwCircleModel, b: LwwCircleModel) -> LwwCircleModel {
        circle_merged(a, b)
    }

    fn merge(&self, other: &Self) -> (m: Self) {
        LWWSVGCircle {
            id: LWWReg::merge(&self.id, &other.id),
            pos: LWWReg::merge(&self.pos, &other.pos),
            radius: LWWReg::merge(&self.radius, &other.radius),
            fill: LWWReg::merge(&self.fill, &other.fill),
            stroke_width: LWWReg::merge(&self.stroke_width, &other.stroke_width),
            stroke: LWWReg::merge(&self.stroke, &other.stroke),
            opacity: LWWReg::merge(&self.opacity, &other.opacity),
        }
    }
}

impl LWWSVGCircle {
    /// The circle that the registers hold.
    pub fn value(&self) -> (v: SVGCircle)
        ensures
            v@ == circle_value(self@),
    {
        SVGCircle {
            id: self.id.value().clone(),
            pos: *self.pos.value(),
            radius: *self.radius.value(),
            fill: *self.fill.value(),
            stroke_width: *self.stroke_width.value(),
            stroke: *self.stroke.value(),
            opacity: *self.opacity.value(),
        }
    }

    /// Registers that hold `value`, every field written at `time`.
    pub fn stamped(value: SVGCircle, time: UnixEpochTimeNanos) -> (r: Self)
        ensures
            r@ == circle_stamped(value@, time),
    {
        LWWSVGCircle {
            id: LWWReg::with_time(value.id, time),
            pos: LWWReg::with_time(value.pos, time),
            radius: LWWReg::with_time(value.radius, time),
            fill: LWWReg::with_time(value.fill, time),
            stroke_width: LWWReg::with_time(value.stroke_width, time),
            stroke: LWWReg::with_time(value.stroke, time),
            opacity: LWWReg::with_time(value.opacity, time),
        }
    }

    /// Writes the fields that are given at `time`, and says whether any was.
    pub fn apply_some(&mut self, partial: PartialSVGCircle, time: UnixEpochTimeNanos) -> (any: bool)
        ensures
            final(self)@ == circle_edited(old(self)@, partial, time),
            any == partial.touches(),
    {
        let will_apply_some = partial.pos.is_some() || partial.radius.is_some() || partial.fill.is_some() || partial.stroke_width.is_some() || partial.stroke.is_some() || partial.opacity.is_some();
        if let Some(pos) = partial.pos {
            self.pos.set_at(pos, time);
        }
        if let Some(radius) = partial.radius {
            self.radius.set_at(radius, time);
        }
        if let Some(fill) = partial.fill {
            self.fill.set_at(fill, time);
        }
        if let Some(stroke_width) = partial.stroke_width {
            self.stroke_width.set_at(stroke_width, time);
        }
        if let Some(stroke) = partial.stroke {
            self.stroke.set_at(stroke, time);
        }
        if let Some(opacity) = partial.opacity {
            self.opacity.set_at(opacity, time);
        }
        will_apply_some
    }
}

} // verus!
