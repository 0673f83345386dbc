//! The replicated forms of the objects: the same fields, each in a
//! last-writer-wins register.
pub mod circle;
pub mod group;
pub mod path;
pub mod rectangle;

use crate::crdt::lww_reg::Stamped;
use crate::element::lww::circle::{circle_stamped, circle_value, LWWSVGCircle, LwwCircleModel};
use crate::element::lww::group::{group_stamped, group_value, LWWSVGGroup, LwwGroupModel};
use crate::element::lww::path::{path_stamped, path_value, LWWSVGPath, LwwPathModel};
use crate::element::lww::rectangle::{
    rectangle_stamped, rectangle_value, LWWSVGRectangle, LwwRectangleModel,
};
use crate::element::{ObjectModel, SVGObject};
use crate::utility::{UWMapItem, UnixEpochTimeNanos};
use vstd::prelude::*;

verus! {

/// The register after a change written at `time`; as it was where no change
/// is given.
pub open spec fn restamped<A>(old: Stamped<A>, change: Option<A>, time: u128) -> Stamped<A> {
    match change {
        Some(x) => Stamped { val: x, time },
        None => old,
    }
}

/// The replicated form of an object.
pub enum LWWSVGObject {
    Circle(LWWSVGCircle),
    Rectangle(LWWSVGRectangle),
    Path(LWWSVGPath),
    Group(LWWSVGGroup),
}

/// What the replicated form of an object stands for.
pub enum LwwObjectModel {
    Circle(LwwCircleModel),
    Rectangle(LwwRectangleModel),
    Path(LwwPathModel),
    Group(LwwGroupModel),
}

/// The object that the registers hold; a group comes without children.
pub open spec fn object_value(m: LwwObjectModel) -> ObjectModel {
    match m {
        LwwObjectModel::Circle(c) => ObjectModel::Circle(circle_value(c)),
        LwwObjectModel::Rectangle(r) => ObjectModel::Rectangle(rectangle_value(r)),
        LwwObjectModel::Path(p) => ObjectModel::Path(path_value(p)),
        LwwObjectModel::Group(g) => ObjectModel::Group(group_value(g)),
    }
}

/// The registers of an object written as a whole at `time`; the children of
/// a group are not kept.
pub open spec fn object_stamped(o: ObjectModel, time: u128) -> LwwObjectModel {
    match o {
        ObjectModel::Circle(c) => LwwObjectModel::Circle(circle_stamped(c, time)),
        ObjectModel::Rectangle(r) => LwwObjectModel::Rectangle(rectangle_stamped(r, time)),
        ObjectModel::Path(p) => LwwObjectModel::Path(path_stamped(p, time)),
        ObjectModel::Group(g) => LwwObjectModel::Group(group_stamped(g, time)),
    }
}

impl DeepView for LWWSVGObject {
    type V = LwwObjectModel;

    open spec fn deep_view(&self) -> LwwObjectModel {
        match self {
            LWWSVGObject::Circle(c) => LwwObjectModel::Circle(c.deep_view()),
            LWWSVGObject::Rectangle(r) => LwwObjectModel::Rectangle(r.deep_view()),
            LWWSVGObject::Path(p) => LwwObjectModel::Path(p.deep_view()),
            LWWSVGObject::Group(g) => LwwObjectModel::Group(g.deep_view()),
        }
    }
}

impl View for LWWSVGObject {
    type V = LwwObjectModel;

    open spec fn view(&self) -> LwwObjectModel {
        self.deep_view()
    }
}

impl UWMapItem for LWWSVGObject {
    fn replicate(&self) -> (copy: Self) {
        match self {
            LWWSVGObject::Circle(c) => LWWSVGObject::Circle(c.replicate()),
            LWWSVGObject::Rectangle(r) => LWWSVGObject::Rectangle(r.replicate()),
            LWWSVGObject::Path(p) => LWWSVGObject::Path(p.replicate()),
            LWWSVGObject::Group(g) => LWWSVGObject::Group(g.replicate()),
        }
    }
}

impl Clone for LWWSVGObject {
    fn clone(&self) -> (copy: Self)
        ensures
            copy@ == self@,
    {
        self.replicate()
    }
}

impl LWWSVGObject {
    /// The object that the registers hold; a group comes without children.
    pub fn value(&self) -> (o: SVGObject)
        ensures
            o@ == object_value(self@),
    {
        match self {
            LWWSVGObject::Circle(circle) => SVGObject::Circle(circle.value()),
            LWWSVGObject::Rectangle(rectangle) => SVGObject::Rectangle(rectangle.value()),
            LWWSVGObject::Group(group) => {
                let g = group.value();
                assert(g@.children =~= Seq::empty());
                let o = SVGObject::Group(g);
                assert(o@ == object_value(self@)) by {
                    assert(o@->Group_0.children =~= Seq::empty());
                }
                o
            },
            LWWSVGObject::Path(path) => SVGObject::Path(path.value()),
        }
    }

    /// Registers that hold `value`, every field written at `time`.
    pub fn stamped(value: SVGObject, time: UnixEpochTimeNanos) -> (r: Self)
        ensures
            r@ == object_stamped(value@, time),
    {
        match value {
            SVGObject::Circle(circle) => LWWSVGObject::Circle(LWWSVGCircle::stamped(circle, time)),
            SVGObject::Group(group) => LWWSVGObject::Group(LWWSVGGroup::stamped(group, time)),
            SVGObject::Path(path) => LWWSVGObject::Path(LWWSVGPath::stamped(path, time)),
            SVGObject::Rectangle(rectangle) => LWWSVGObject::Rectangle(
                LWWSVGRectangle::stamped(rectangle, time),
            ),
        }
    }
}

} // verus!
