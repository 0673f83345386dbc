//! Groups: the objects that hold other objects.
use crate::element::{group_model, ObjectModel, SVGObject};
use crate::utility::{gen_str_id, Color, NodeID, Scalar, ID_LEN};
use vstd::prelude::*;

verus! {

/// A change to a field that may be empty: a new value, or no value.
#[derive(Debug, PartialEq, Eq)]
pub enum JSNullable<T> {
    Value { item: T },
    Null,
}

impl<T: Copy> Clone for JSNullable<T> {
    fn clone(&self) -> (copy: Self)
        ensures
            copy == *self,
    {
        *self
    }
}

impl<T: Copy> Copy for JSNullable<T> {

}

impl<T> JSNullable<T> {
    /// The field after the change.
    pub open spec fn as_option(self) -> Option<T> {
        match self {
            JSNullable::Value { item } => Some(item),
            JSNullable::Null => None,
        }
    }

    /// The field after the change.
    pub fn into_option(self) -> (o: Option<T>)
        ensures
            o == self.as_option(),
    {
        match self {
            JSNullable::Value { item } => Some(item),
            JSNullable::Null => None,
        }
    }
}

/// `old` where no change is given, else the field after the change.
pub open spec fn nullable_changed<A>(old: Option<A>, change: Option<JSNullable<A>>) -> Option<A> {
    match change {
        Some(c) => c.as_option(),
        None => old,
    }
}

/// A group. Its children are not part of the replicated state: they are
/// filled in when the document is materialized.
#[derive(Debug, PartialEq, Eq)]
pub struct SVGGroup {
    pub id: NodeID,
    pub fill: Option<Color>,
    pub stroke: Option<Color>,
    pub stroke_width: Option<i32>,
    pub opacity: Option<Scalar>,
    pub children: Vec<SVGObject>,
}

/// What a group stands for.
pub struct GroupModel {
    pub id: Seq<char>,
    pub fill: Option<Color>,
    pub stroke: Option<Color>,
    pub stroke_width: Option<i32>,
    pub opacity: Option<Scalar>,
    pub children: Seq<ObjectModel>,
}

/// Changes to a group; an absent field is left as it is.
#[derive(Clone, Copy, Debug, PartialEq, Eq)]
pub struct PartialSVGGroup {
    pub fill: Option<JSNullable<Color>>,
    pub stroke: Option<JSNullable<Color>>,
    pub stroke_width: Option<JSNullable<i32>>,
    pub opacity: Option<JSNullable<Scalar>>,
}

/// The group that a fresh node starts from.
pub open spec fn default_group(id: Seq<char>) -> GroupModel {
    GroupModel {
        id,
        fill: None,
        stroke: None,
        stroke_width: None,
        opacity: None,
        children: Seq::empty(),
    }
}

/// The group after the changes of `p`.
pub open spec fn group_applied(g: GroupModel, p: PartialSVGGroup) -> GroupModel {
    GroupModel {
        id: g.id,
        fill: nullable_changed(g.fill, p.fill),
        stroke: nullable_changed(g.stroke, p.stroke),
        stroke_width: nullable_changed(g.stroke_width, p.stroke_width),
        opacity: nullable_changed(g.opacity, p.opacity),
        children: g.children,
    }
}

impl PartialSVGGroup {
    /// The changes that change nothing.
    pub fn empty() -> (p: Self)
        ensures
            p == (PartialSVGGroup { fill: None, stroke: None, stroke_width: None, opacity: None }),
    {
        PartialSVGGroup { fill: None, stroke: None, stroke_width: None, opacity: None }
    }
}

impl View for SVGGroup {
    type V = GroupModel;

    open spec fn view(&self) -> GroupModel {
        group_model(*self)
    }
}

impl SVGGroup {
    /// The default group under the name `id`.
    pub fn with_id(id: String) -> (g: Self)
        ensures
            g@ == default_group(id@),
            g.children@.len() == 0,
    {
        let g = SVGGroup {
            id,
            fill: None,
            stroke: None,
            stroke_width: None,
            opacity: None,
            children: Vec::new(),
        };
        assert(g@.children =~= Seq::empty());
        g
    }

    /// The default group under a fresh name.
    pub fn default() -> (g: Self)
        ensures
            g@ == default_group(g.id@),
            g.id@.len() == ID_LEN,
    {
        SVGGroup::with_id(gen_str_id())
    }

    /// Whether the fill, the stroke or the stroke width is given.
    pub open spec fn touched_by(partial: PartialSVGGroup) -> bool {
        partial.fill.is_some() || partial.stroke.is_some() || partial.stroke_width.is_some()
    }

    /// Applies the changes that are given and says whether any but the opacity
    /// was given.
    pub fn apply_some(&mut self, partial: PartialSVGGroup) -> (any: bool)
        ensures
            final(self)@ == group_applied(old(self)@, partial),
            final(self).children == old(self).children,
            any == Self::touched_by(partial),
    {
        let will_apply_some = partial.fill.is_some() || partial.stroke.is_some()
            || partial.stroke_width.is_some();
        if let Some(fill) = partial.fill {
            self.fill = fill.into_option();
        }
        if let Some(stroke) = partial.stroke {
            self.stroke = stroke.into_option();
        }
        if let Some(stroke_width) = partial.stroke_width {
            self.stroke_width = stroke_width.into_option();
        }
        if let Some(opacity) = partial.opacity {
            self.opacity = opacity.into_option();
        }
        will_apply_some
    }

    pub fn set_fill(&mut self, red: i32, green: i32, blue: i32, opacity: Scalar)
        ensures
            *final(self) == (SVGGroup {
                fill: Some(Color(red, green, blue, opacity)),
                ..*old(self)
            }),
    {
        self.fill = Some(Color(red, green, blue, opacity));
    }

    pub fn set_stroke(&mut self, red: i32, green: i32, blue: i32, opacity: Scalar)
        ensures
            *final(self) == (SVGGroup {
                stroke: Some(Color(red, green, blue, opacity)),
                ..*old(self)
            }),
    {
        self.stroke = Some(Color(red, green, blue, opacity));
    }

    pub fn set_stroke_width(&mut self, width: i32)
        ensures
            *final(self) == (SVGGroup { stroke_width: Some(width), ..*old(self) }),
    {
        self.stroke_width = Some(width);
    }
}

} // verus!
