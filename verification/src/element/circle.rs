//! Circles.
use crate::utility::{gen_str_id, Color, Scalar, UWMapItem, Vec2, ID_LEN, ONE_BITS};
use vstd::prelude::*;

verus! {

/// A circle.
#[derive(Debug, PartialEq, Eq)]
pub struct SVGCircle {
    pub id: String,
    pub pos: Vec2,
    pub radius: i32,
    pub fill: Color,
    pub stroke_width: i32,
    pub stroke: Color,
    pub opacity: Scalar,
}

/// What a circle stands for.
pub struct CircleModel {
    pub id: Seq<char>,
    pub pos: Vec2,
    pub radius: i32,
    pub fill: Color,
    pub stroke_width: i32,
    pub stroke: Color,
    pub opacity: Scalar,
}

/// Changes to a circle; an absent field is left as it is.
#[derive(Clone, Copy, Debug, PartialEq, Eq)]
pub struct PartialSVGCircle {
    pub pos: Option<Vec2>,
    pub radius: Option<i32>,
    pub fill: Option<Color>,
    pub stroke_width: Option<i32>,
    pub stroke: Option<Color>,
    pub opacity: Option<Scalar>,
}

/// `x` where a change is given, else `old`.
pub open spec fn changed<A>(old: A, change: Option<A>) -> A {
    match change {
        Some(x) => x,
        None => old,
    }
}

/// The circle that a fresh node starts from.
pub open spec fn default_circle(id: Seq<char>) -> CircleModel {
    CircleModel {
        id,
        pos: Vec2 { x: 0, y: 0 },
        radius: 10,
        fill: Color(255, 255, 255, Scalar { bits: ONE_BITS }),
        stroke_width: 2,
        stroke: Color(0, 0, 0, Scalar { bits: ONE_BITS }),
        opacity: Scalar { bits: ONE_BITS },
    }
}

/// The circle after the changes of `p`.
pub open spec fn circle_applied(c: CircleModel, p: PartialSVGCircle) -> CircleModel {
    CircleModel {
        id: c.id,
        pos: changed(c.pos, p.pos),
        radius: changed(c.radius, p.radius),
        fill: changed(c.fill, p.fill),
        stroke_width: changed(c.stroke_width, p.stroke_width),
        stroke: changed(c.stroke, p.stroke),
        opacity: changed(c.opacity, p.opacity),
    }
}

impl PartialSVGCircle {
    /// The changes that change nothing.
    pub fn empty() -> (p: Self)
        ensures
            p == (PartialSVGCircle {
                pos: None,
                radius: None,
                fill: None,
                stroke_width: None,
                stroke: None,
                opacity: None,
            }),
            !p.touches(),
    {
        PartialSVGCircle {
            pos: None,
            radius: None,
            fill: None,
            stroke_width: None,
            stroke: None,
            opacity: None,
        }
    }

    /// Whether any field is given.
    pub open spec fn touches(&self) -> bool {
        self.pos.is_some() || self.radius.is_some() || self.fill.is_some()
            || self.stroke_width.is_some() || self.stroke.is_some() || self.opacity.is_some()
    }
}

impl DeepView for SVGCircle {
    type V = CircleModel;

    open spec fn deep_view(&self) -> CircleModel {
        CircleModel {
            id: self.id@,
            pos: self.pos,
            radius: self.radius,
            fill: self.fill,
            stroke_width: self.stroke_width,
            stroke: self.stroke,
            opacity: self.opacity,
        }
    }
}

impl View for SVGCircle {
    type V = CircleModel;

    open spec fn view(&self) -> CircleModel {
        self.deep_view()
    }
}

impl UWMapItem for SVGCircle {
    fn replicate(&self) -> (copy: Self) {
        SVGCircle {
            id: self.id.clone(),
            pos: self.pos,
            radius: self.radius,
            fill: self.fill,
            stroke_width: self.stroke_width,
            stroke: self.stroke,
            opacity: self.opacity,
        }
    }
}

impl Clone for SVGCircle {
    fn clone(&self) -> (copy: Self)
        ensures
            copy@ == self@,
    {
        self.replicate()
    }
}

impl SVGCircle {
    /// The default circle under the name `id`.
    pub fn with_id(id: String) -> (c: Self)
        ensures
            c@ == default_circle(id@),
    {
        SVGCircle {
            id,
            pos: Vec2 { x: 0, y: 0 },
            radius: 10,
            fill: Color::white(),
            stroke_width: 2,
            stroke: Color::black(),
            opacity: Scalar::one(),
        }
    }

    /// The default circle under a fresh name.
    pub fn default() -> (c: Self)
        ensures
            c@ == default_circle(c.id@),
            c.id@.len() == ID_LEN,
    {
        SVGCircle::with_id(gen_str_id())
    }

    /// Applies the changes that are given and says whether any was.
    pub fn apply_some(&mut self, partial: PartialSVGCircle) -> (any: bool)
        ensures
            final(self)@ == circle_applied(old(self)@, partial),
            any == partial.touches(),
    {
        let will_apply_some = partial.pos.is_some() || partial.radius.is_some()
            || partial.fill.is_some() || partial.stroke_width.is_some() || partial.stroke.is_some()
            || partial.opacity.is_some();
        if let Some(pos) = partial.pos {
            self.pos = pos;
        }
        if let Some(radius) = partial.radius {
            self.radius = radius;
        }
        if let Some(fill) = partial.fill {
            self.fill = fill;
        }
        if let Some(stroke_width) = partial.stroke_width {
            self.stroke_width = stroke_width;
        }
        if let Some(stroke) = partial.stroke {
            self.stroke = stroke;
        }
        if let Some(opacity) = partial.opacity {
            self.opacity = opacity;
        }
        will_apply_some
    }

    pub fn set_pos(&mut self, x: i32, y: i32)
        ensures
            *final(self) == (SVGCircle { pos: Vec2 { x, y }, ..*old(self) }),
    {
        self.pos = Vec2 { x, y };
    }

    pub fn set_radius(&mut self, radius: i32)
        ensures
            *final(self) == (SVGCircle { radius, ..*old(self) }),
    {
        self.radius = radius;
    }

    pub fn set_fill(&mut self, fill: Color)
        ensures
            *final(self) == (SVGCircle { fill, ..*old(self) }),
    {
        self.fill = fill;
    }

    pub fn set_stroke_width(&mut self, stroke_width: i32)
        ensures
            *final(self) == (SVGCircle { stroke_width, ..*old(self) }),
    {
        self.stroke_width = stroke_width;
    }

    pub fn set_stroke(&mut self, stroke: Color)
        ensures
            *final(self) == (SVGCircle { stroke, ..*old(self) }),
    {
        self.stroke = stroke;
    }
}

} // verus!
