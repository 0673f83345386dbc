//! The graphical objects of a document.
pub mod circle;
pub mod group;
pub mod lww;
pub mod path;
pub mod rectangle;

use crate::element::circle::{CircleModel, SVGCircle};
use crate::element::group::{GroupModel, SVGGroup};
use crate::element::path::{PathModel, SVGPath};
use crate::element::rectangle::{RectangleModel, SVGRectangle};
use vstd::prelude::*;

verus! {

/// An object of the document.
#[derive(Debug, PartialEq, Eq)]
pub enum SVGObject {
    Circle(SVGCircle),
    Rectangle(SVGRectangle),
    Path(SVGPath),
    Group(SVGGroup),
}

/// What an object stands for.
pub enum ObjectModel {
    Circle(CircleModel),
    Rectangle(RectangleModel),
    Path(PathModel),
    Group(GroupModel),
}

/// What `o` stands for, children and all.
pub open spec fn object_model(o: SVGObject) -> ObjectModel
    decreases o,
{
    match o {
        SVGObject::Circle(c) => ObjectModel::Circle(c.deep_view()),
        SVGObject::Rectangle(r) => ObjectModel::Rectangle(r.deep_view()),
        SVGObject::Path(p) => ObjectModel::Path(p.deep_view()),
        SVGObject::Group(g) => ObjectModel::Group(
            GroupModel {
                id: g.id@,
                fill: g.fill,
                stroke: g.stroke,
                stroke_width: g.stroke_width,
                opacity: g.opacity,
                children: Seq::new(
                    g.children@.len(),
                    |i: int|
                        if 0 <= i < g.children@.len() {
                            object_model(g.children@[i])
                        } else {
                            arbitrary()
                        },
                ),
            },
        ),
    }
}

/// What a sequence of objects stands for.
pub open spec fn forest_model(objects: Seq<SVGObject>) -> Seq<ObjectModel> {
    Seq::new(objects.len(), |i: int| object_model(objects[i]))
}

/// What `g` stands for, children and all.
pub open spec fn group_model(g: SVGGroup) -> GroupModel {
    GroupModel {
        id: g.id@,
        fill: g.fill,
        stroke: g.stroke,
        stroke_width: g.stroke_width,
        opacity: g.opacity,
        children: forest_model(g.children@),
    }
}

/// A group as an object stands for the group.
pub proof fn lemma_group_as_object(g: SVGGroup)
    ensures
        object_model(SVGObject::Group(g)) == ObjectModel::Group(group_model(g)),
{
    assert(object_model(SVGObject::Group(g))->Group_0.children =~= forest_model(g.children@));
}

impl View for SVGObject {
    type V = ObjectModel;

    open spec fn view(&self) -> ObjectModel {
        object_model(*self)
    }
}

/// The name of an object.
pub open spec fn object_id(o: ObjectModel) -> Seq<char> {
    match o {
        ObjectModel::Circle(c) => c.id,
        ObjectModel::Rectangle(r) => r.id,
        ObjectModel::Path(p) => p.id,
        ObjectModel::Group(g) => g.id,
    }
}

impl SVGObject {
    /// The name of the object.
    pub fn get_id(&self) -> (id: &str)
        ensures
            id@ == object_id(self@),
    {
        match self {
            Self::Circle(circle) => circle.id.as_str(),
            Self::Rectangle(rect) => rect.id.as_str(),
            Self::Group(grp) => grp.id.as_str(),
            Self::Path(pth) => pth.id.as_str(),
        }
    }
}

/// A materialized document: its top-level objects in order, each group with
/// its children inside.
#[derive(Debug, PartialEq, Eq)]
pub struct SVGDocTree {
    pub children: Vec<SVGObject>,
}

impl View for SVGDocTree {
    type V = Seq<ObjectModel>;

    open spec fn view(&self) -> Seq<ObjectModel> {
        forest_model(self.children@)
    }
}

impl SVGDocTree {
    /// The document without objects.
    pub fn new() -> (t: Self)
        ensures
            t@ == Seq::<ObjectModel>::empty(),
            t.children@.len() == 0,
    {
        let t = SVGDocTree { children: Vec::new() };
        assert(t@ =~= Seq::<ObjectModel>::empty());
        t
    }
}

} // verus!
