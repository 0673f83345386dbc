//! The replicated form of a rectangle.
use crate::crdt::lww_reg::{later, LWWReg, Stamped};
use crate::crdt::uw_map::Mergeable;
use crate::element::rectangle::{RectangleModel, PartialSVGRectangle, SVGRectangle};
use crate::element::lww::restamped;
use crate::utility::{Color, NodeID, Scalar, UWMapItem, UnixEpochTimeNanos, Vec2};
use vstd::prelude::*;

verus! {

/// The replicated form of a rectangle: every field in a register of its own.
pub struct LWWSVGRectangle {
    pub id: LWWReg<NodeID>,
    pub pos: LWWReg<Vec2>,
    pub height: LWWReg<i32>,
    pub width: LWWReg<i32>,
    pub fill: LWWReg<Color>,
    pub stroke_width: LWWReg<i32>,
    pub stroke: LWWReg<Color>,
    pub opacity: LWWReg<Scalar>,
}

/// What the registers of a rectangle stand for.
pub struct LwwRectangleModel {
    pub id: Stamped<Seq<char>>,
    pub pos: Stamped<Vec2>,
    pub height: Stamped<i32>,
    pub width: Stamped<i32>,
    pub fill: Stamped<Color>,
    pub stroke_width: Stamped<i32>,
    pub stroke: Stamped<Color>,
    pub opacity: Stamped<Scalar>,
}

/// The rectangle that the registers hold.
pub open spec fn rectangle_value(m: LwwRectangleModel) -> RectangleModel {
    RectangleModel {
        id: m.id.val,
        pos: m.pos.val,
        height: m.height.val,
        width: m.width.val,
        fill: m.fill.val,
        stroke_width: m.stroke_width.val,
        stroke: m.stroke.val,
        opacity: m.opacity.val,
    }
}

/// The registers of a rectangle written as a whole at `time`.
pub open spec fn rectangle_stamped(v: RectangleModel, time: u128) -> LwwRectangleModel {
    LwwRectangleModel {
        id: Stamped { val: v.id, time },
        pos: Stamped { val: v.pos, time },
        height: Stamped { val: v.height, time },
        width: Stamped { val: v.width, time },
        fill: Stamped { val: v.fill, time },
        stroke_width: Stamped { val: v.stroke_width, time },
        stroke: Stamped { val: v.stroke, time },
        opacity: Stamped { val: v.opacity, time },
    }
}

/// Field by field, the later write.
pub open spec fn rectangle_merged(a: LwwRectangleModel, b: LwwRectangleModel) -> LwwRectangleModel {
    LwwRectangleModel {
        id: later(a.id, b.id),
        pos: later(a.pos, b.pos),
        height: later(a.height, b.height),
        width: later(a.width, b.width),
        fill: later(a.fill, b.fill),
        stroke_width: later(a.stroke_width, b.stroke_width),
        stroke: later(a.stroke, b.stroke),
        opacity: later(a.opacity, b.opacity),
    }
}

/// The registers after the changes of `p`, written at `time`. A field that
/// is not given keeps its value and its time.
pub open spec fn rectangle_edited(m: LwwRectangleModel, p: PartialSVGRectangle, time: u128) -> LwwRectangleModel {
    LwwRectangleModel {
        id: m.id,
        pos: restamped(m.pos, p.pos, time),
        height: restamped(m.height, p.height, time),
        width: restamped(m.width, p.width, time),
        fill: restamped(m.fill, p.fill, time),
        stroke_width: restamped(m.stroke_width, p.stroke_width, time),
        stroke: restamped(m.stroke, p.stroke, time),
        opacity: restamped(m.opacity, p.opacity, time),
    }
}

/// An edit of the registers is the edit of the rectangle they hold.
pub proof fn lemma_rectangle_edit_is_applied(m: LwwRectangleModel, p: PartialSVGRectangle, time: u128)
    ensures
        rectangle_value(rectangle_edited(m, p, time)) == crate::element::rectangle::rectangle_applied(
            rectangle_value(m),
            p,
        ),
{
}

/// The merge of the registers of a rectangle is idempotent and associative, and
/// commutative where no field was written twice at one time.
pub proof fn lemma_rectangle_merge_laws(a: LwwRectangleModel, b: LwwRectangleModel, c: LwwRectangleModel)
    ensures
        rectangle_merged(a, a) == a,
        rectangle_merged(rectangle_merged(a, b), c) == rectangle_merged(a, rectangle_merged(b, c)),
        rectangle_distinct_times(a, b) ==> rectangle_merged(a, b) == rectangle_merged(b, a),
{
}

/// No field of `a` carries the time of the same field of `b`, unless the two
/// fields are the same write.
pub open spec fn rectangle_distinct_times(a: LwwRectangleModel, b: LwwRectangleModel) -> bool {
    &&& (a.id.time != b.id.time || a.id == b.id)
    &&& (a.pos.time != b.pos.time || a.pos == b.pos)
    &&& (a.height.time != b.height.time || a.height == b.height)
    &&& (a.width.time != b.width.time || a.width == b.width)
    &&& (a.fill.time != b.fill.time || a.fill == b.fill)
    &&& (a.stroke_width.time != b.stroke_width.time || a.stroke_width == b.stroke_width)
    &&& (a.stroke.time != b.stroke.time || a.stroke == b.stroke)
    &&& (a.opacity.time != b.opacity.time || a.opacity == b.opacity)
}

impl DeepView for LWWSVGRectangle {
    type V = LwwRectangleModel;

    open spec fn deep_view(&self) -> LwwRectangleModel {
        LwwRectangleModel {
            id: self.id.deep_view(),
            pos: self.pos.deep_view(),
            height: self.height.deep_view(),
            width: self.width.deep_view(),
            fill: self.fill.deep_view(),
            stroke_width: self.stroke_width.deep_view(),
            stroke: self.stroke.deep_view(),
            opacity: self.opacity.deep_view(),
        }
    }
}

impl View for LWWSVGRectangle {
    type V = LwwRectangleModel;

    open spec fn view(&self) -> LwwRectangleModel {
        self.deep_view()
    }
}

impl UWMapItem for LWWSVGRectangle {
    fn replicate(&self) -> (copy: Self) {
        LWWSVGRectangle {
            id: self.id.replicate(),
            pos: self.pos.replicate(),
            height: self.height.replicate(),
            width: self.width.replicate(),
            fill: self.fill.replicate(),
            stroke_width: self.stroke_width.replicate(),
            stroke: self.stroke.replicate(),
            opacity: self.opacity.replicate(),
        }
    }
}

impl Clone for LWWSVGRectangle {
    fn clone(&self) -> (copy: Self)
        ensures
            copy@ == self@,
    {
        self.replicate()
    }
}

impl Mergeable for LWWSVGRectangle {
    open spec fn merged(a: LwwRectangleModel, b: LwwRectangleModel) -> LwwRectangleModel {
        rectangle_merged(a, b)
    }

    fn merge(&self, other: &Self) -> (m: Self) {
        LWWSVGRectangle {
            id: LWWReg::merge(&self.id, &other.id),
            pos: LWWReg::merge(&self.pos, &other.pos),
            height: LWWReg::merge(&self.height, &other.height),
            width: LWWReg::merge(&self.width, &other.width),
            fill: LWWReg::merge(&self.fill, &other.fill),
            stroke_width: LWWReg::merge(&self.stroke_width, &other.stroke_width),
            stroke: LWWReg::merge(&self.stroke, &other.stroke),
            opacity: LWWReg::merge(&self.opacity, &other.opacity),
        }
    }
}

impl LWWSVGRectangle {
    /// The rectangle that the registers hold.
    pub fn value(&self) -> (v: SVGRectangle)
        ensures
            v@ == rectangle_value(self@),
    {
        SVGRectangle {
            id: self.id.value().clone(),
            pos: *self.pos.value(),
            height: *self.height.value(),
            width: *self.width.value(),
            fill: *self.fill.value(),
            stroke_width: *self.stroke_width.value(),
            stroke: *self.stroke.value(),
            opacity: *self.opacity.value(),
        }
    }

    /// Registers that hold `value`, every field written at `time`.
    pub fn stamped(value: SVGRectangle, time: UnixEpochTimeNanos) -> (r: Self)
        ensures
            r@ == rectangle_stamped(value@, time),
    {
        LWWSVGRectangle {
            id: LWWReg::with_time(value.id, time),
            pos: LWWReg::with_time(value.pos, time),
            height: LWWReg::with_time(value.height, time),
            width: LWWReg::with_time(value.width, time),
            fill: LWWReg::with_time(value.fill, time),
            stroke_width: LWWReg::with_time(value.stroke_width, time),
            stroke: LWWReg::with_time(value.stroke, time),
            opacity: LWWReg::with_time(value.opacity, time),
        }
    }

    /// Writes the fields that are given at `time`, and says whether any was.
    pub fn apply_some(&mut self, partial: PartialSVGRectangle, time: UnixEpochTimeNanos) -> (any: bool)
        ensures
            final(self)@ == rectangle_edited(old(self)@, partial, time),
            any == partial.touches(),
    {
        let will_apply_some = partial.pos.is_some() || partial.height.is_some() || partial.width.is_some() || partial.fill.is_some() || partial.stroke_width.is_some() || partial.stroke.is_some() || partial.opacity.is_some();
        if let Some(pos) = partial.pos {
            self.pos.set_at(pos, time);
        }
        if let Some(height) = partial.height {
            self.height.set_at(height, time);
        }
        if let Some(width) = partial.width {
            self.width.set_at(width, time);
        }
        if let Some(fill) = partial.fill {
            self.fill.set_at(fill, time);
        }
        if let Some(stroke_width) = partial.stroke_width {
            self.stroke_width.set_at(stroke_width, time);
        }
        if let Some(stroke) = partial.stroke {
            self.stroke.set_at(stroke, time);
        }
        if let Some(opacity) = partial.opacity {
            self.opacity.set_at(opacity, time);
        }
        will_apply_some
    }
}

} // verus!
