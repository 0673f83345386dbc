//! The replicated form of a group.
use crate::crdt::lww_reg::{later, LWWReg, Stamped};
use crate::crdt::uw_map::Mergeable;
use crate::element::group::{
    group_applied, GroupModel, JSNullable, PartialSVGGroup, SVGGroup,
};
use crate::utility::{Color, NodeID, Scalar, UWMapItem, UnixEpochTimeNanos};
use vstd::prelude::*;

verus! {

/// The replicated form of a group: every field in a register of its own. The
/// children are not among them: where an object belongs is said by the
/// object's own record.
pub struct LWWSVGGroup {
    pub id: LWWReg<NodeID>,
    pub fill: LWWReg<Option<Color>>,
    pub stroke: LWWReg<Option<Color>>,
    pub stroke_width: LWWReg<Option<i32>>,
    pub opacity: LWWReg<Option<Scalar>>,
}

/// What the registers of a group stand for.
pub struct LwwGroupModel {
    pub id: Stamped<Seq<char>>,
    pub fill: Stamped<Option<Color>>,
    pub stroke: Stamped<Option<Color>>,
    pub stroke_width: Stamped<Option<i32>>,
    pub opacity: Stamped<Option<Scalar>>,
}

/// The group that the registers hold, without children.
pub open spec fn group_value(m: LwwGroupModel) -> GroupModel {
    GroupModel {
        id: m.id.val,
        fill: m.fill.val,
        stroke: m.stroke.val,
        stroke_width: m.stroke_width.val,
        opacity: m.opacity.val,
        children: Seq::empty(),
    }
}

/// The registers of a group written as a whole at `time`.
pub open spec fn group_stamped(v: GroupModel, time: u128) -> LwwGroupModel {
    LwwGroupModel {
        id: Stamped { val: v.id, time },
        fill: Stamped { val: v.fill, time },
        stroke: Stamped { val: v.stroke, time },
        stroke_width: Stamped { val: v.stroke_width, time },
        opacity: Stamped { val: v.opacity, time },
    }
}

/// Field by field, the later write.
pub open spec fn group_merged(a: LwwGroupModel, b: LwwGroupModel) -> LwwGroupModel {
    LwwGroupModel {
        id: later(a.id, b.id),
        fill: later(a.fill, b.fill),
        stroke: later(a.stroke, b.stroke),
        stroke_width: later(a.stroke_width, b.stroke_width),
        opacity: later(a.opacity, b.opacity),
    }
}

/// The register after a change that may empty it, written at `time`; as it
/// was where no change is given.
pub open spec fn nullable_restamped<A>(
    old: Stamped<Option<A>>,
    change: Option<JSNullable<A>>,
    time: u128,
) -> Stamped<Option<A>> {
    match change {
        Some(c) => Stamped { val: c.as_option(), time },
        None => old,
    }
}

/// The registers after the changes of `p`, written at `time`.
pub open spec fn group_edited(m: LwwGroupModel, p: PartialSVGGroup, time: u128) -> LwwGroupModel {
    LwwGroupModel {
        id: m.id,
        fill: nullable_restamped(m.fill, p.fill, time),
        stroke: nullable_restamped(m.stroke, p.stroke, time),
        stroke_width: nullable_restamped(m.stroke_width, p.stroke_width, time),
        opacity: nullable_restamped(m.opacity, p.opacity, time),
    }
}

/// An edit of the registers is the edit of the group they hold.
pub proof fn lemma_group_edit_is_applied(m: LwwGroupModel, p: PartialSVGGroup, time: u128)
    ensures
        group_value(group_edited(m, p, time)) == group_applied(group_value(m), p),
{
}

/// No field of `a` carries the time of the same field of `b`, unless the two
/// fields are the same write.
pub open spec fn group_distinct_times(a: LwwGroupModel, b: LwwGroupModel) -> bool {
    &&& (a.id.time != b.id.time || a.id == b.id)
    &&& (a.fill.time != b.fill.time || a.fill == b.fill)
    &&& (a.stroke.time != b.stroke.time || a.stroke == b.stroke)
    &&& (a.stroke_width.time != b.stroke_width.time || a.stroke_width == b.stroke_width)
    &&& (a.opacity.time != b.opacity.time || a.opacity == b.opacity)
}

/// The merge of the registers of a group is idempotent and associative, and
/// commutative where no field was written twice at one time.
pub proof fn lemma_group_merge_laws(a: LwwGroupModel, b: LwwGroupModel, c: LwwGroupModel)
    ensures
        group_merged(a, a) == a,
        group_merged(group_merged(a, b), c) == group_merged(a, group_merged(b, c)),
        group_distinct_times(a, b) ==> group_merged(a, b) == group_merged(b, a),
{
}

impl DeepView for LWWSVGGroup {
    type V = LwwGroupModel;

    open spec fn deep_view(&self) -> LwwGroupModel {
        LwwGroupModel {
            id: self.id.deep_view(),
            fill: self.fill.deep_view(),
            stroke: self.stroke.deep_view(),
            stroke_width: self.stroke_width.deep_view(),
            opacity: self.opacity.deep_view(),
        }
    }
}

impl View for LWWSVGGroup {
    type V = LwwGroupModel;

    open spec fn view(&self) -> LwwGroupModel {
        self.deep_view()
    }
}

impl UWMapItem for LWWSVGGroup {
    fn replicate(&self) -> (copy: Self) {
        LWWSVGGroup {
            id: self.id.replicate(),
            fill: self.fill.replicate(),
            stroke: self.stroke.replicate(),
            stroke_width: self.stroke_width.replicate(),
            opacity: self.opacity.replicate(),
        }
    }
}

impl Clone for LWWSVGGroup {
    fn clone(&self) -> (copy: Self)
        ensures
            copy@ == self@,
    {
        self.replicate()
    }
}

impl Mergeable for LWWSVGGroup {
    open spec fn merged(a: LwwGroupModel, b: LwwGroupModel) -> LwwGroupModel {
        group_merged(a, b)
    }

    fn merge(&self, other: &Self) -> (m: Self) {
        LWWSVGGroup {
            id: LWWReg::merge(&self.id, &other.id),
            fill: LWWReg::merge(&self.fill, &other.fill),
            stroke: LWWReg::merge(&self.stroke, &other.stroke),
            stroke_width: LWWReg::merge(&self.stroke_width, &other.stroke_width),
            opacity: LWWReg::merge(&self.opacity, &other.opacity),
        }
    }
}

impl LWWSVGGroup {
    /// The group that the registers hold, without children.
    pub fn value(&self) -> (v: SVGGroup)
        ensures
            v@ == group_value(self@),
            v.children@.len() == 0,
    {
        let v = SVGGroup {
            id: self.id.value().clone(),
            fill: *self.fill.value(),
            stroke: *self.stroke.value(),
            stroke_width: *self.stroke_width.value(),
            opacity: *self.opacity.value(),
            children: Vec::new(),
        };
        assert(v@.children =~= Seq::empty());
        v
    }

    /// Registers that hold the fields of `value`, every one written at `time`.
    /// The children of `value` are not kept.
    pub fn stamped(value: SVGGroup, time: UnixEpochTimeNanos) -> (r: Self)
        ensures
            r@ == group_stamped(value@, time),
    {
        LWWSVGGroup {
            id: LWWReg::with_time(value.id, time),
            fill: LWWReg::with_time(value.fill, time),
            stroke: LWWReg::with_time(value.stroke, time),
            stroke_width: LWWReg::with_time(value.stroke_width, time),
            opacity: LWWReg::with_time(value.opacity, time),
        }
    }

    /// Whether any field is given.
    pub open spec fn touched_by(partial: PartialSVGGroup) -> bool {
        partial.fill.is_some() || partial.stroke.is_some() || partial.stroke_width.is_some()
            || partial.opacity.is_some()
    }

    /// Writes the fields that are given at `time`, and says whether any was.
    pub fn apply_some(&mut self, partial: PartialSVGGroup, time: UnixEpochTimeNanos) -> (any:
        bool)
        ensures
            final(self)@ == group_edited(old(self)@, partial, time),
            any == Self::touched_by(partial),
    {
        let will_apply_some = partial.fill.is_some() || partial.stroke.is_some()
            || partial.stroke_width.is_some() || partial.opacity.is_some();
        if let Some(fill) = partial.fill {
            self.fill.set_at(fill.into_option(), time);
        }
        if let Some(stroke) = partial.stroke {
            self.stroke.set_at(stroke.into_option(), time);
        }
        if let Some(stroke_width) = partial.stroke_width {
            self.stroke_width.set_at(stroke_width.into_option(), time);
        }
        if let Some(opacity) = partial.opacity {
            self.opacity.set_at(opacity.into_option(), time);
        }
        will_apply_some
    }
}

} // verus!
