//! Rectangles.
use crate::element::circle::changed;
use crate::utility::{gen_str_id, Color, Scalar, UWMapItem, Vec2, ID_LEN, ONE_BITS};
use vstd::prelude::*;

verus! {

/// A rectangle.
#[derive(Debug, PartialEq, Eq)]
pub struct SVGRectangle {
    pub id: String,
    pub pos: Vec2,
    pub height: i32,
    pub width: i32,
    pub fill: Color,
    pub stroke_width: i32,
    pub stroke: Color,
    pub opacity: Scalar,
}

/// What a rectangle stands for.
pub struct RectangleModel {
    pub id: Seq<char>,
    pub pos: Vec2,
    pub height: i32,
    pub width: i32,
    pub fill: Color,
    pub stroke_width: i32,
    pub stroke: Color,
    pub opacity: Scalar,
}

/// Changes to a rectangle; an absent field is left as it is.
#[derive(Clone, Copy, Debug, PartialEq, Eq)]
pub struct PartialSVGRectangle {
    pub pos: Option<Vec2>,
    pub height: Option<i32>,
    pub width: Option<i32>,
    pub fill: Option<Color>,
    pub stroke_width: Option<i32>,
    pub stroke: Option<Color>,
    pub opacity: Option<Scalar>,
}

/// The rectangle that a fresh node starts from.
pub open spec fn default_rectangle(id: Seq<char>) -> RectangleModel {
    RectangleModel {
        id,
        pos: Vec2 { x: 0, y: 0 },
        height: 5,
        width: 10,
        fill: Color(255, 255, 255, Scalar { bits: ONE_BITS }),
        stroke_width: 2,
        stroke: Color(0, 0, 0, Scalar { bits: ONE_BITS }),
        opacity: Scalar { bits: ONE_BITS },
    }
}

/// The rectangle after the changes of `p`.
pub open spec fn rectangle_applied(r: RectangleModel, p: PartialSVGRectangle) -> RectangleModel {
    RectangleModel {
        id: r.id,
        pos: changed(r.pos, p.pos),
        height: changed(r.height, p.height),
        width: changed(r.width, p.width),
        fill: changed(r.fill, p.fill),
        stroke_width: changed(r.stroke_width, p.stroke_width),
        stroke: changed(r.stroke, p.stroke),
        opacity: changed(r.opacity, p.opacity),
    }
}

impl PartialSVGRectangle {
    /// The changes that change nothing.
    pub fn empty() -> (p: Self)
        ensures
            p == (PartialSVGRectangle {
                pos: None,
                height: None,
                width: None,
                fill: None,
                stroke_width: None,
                stroke: None,
                opacity: None,
            }),
            !p.touches(),
    {
        PartialSVGRectangle {
            pos: None,
            height: None,
            width: None,
            fill: None,
            stroke_width: None,
            stroke: None,
            opacity: None,
        }
    }

    /// Whether any field is given.
    pub open spec fn touches(&self) -> bool {
        self.pos.is_some() || self.height.is_some() || self.width.is_some()
            || self.fill.is_some() || self.stroke_width.is_some() || self.stroke.is_some()
            || self.opacity.is_some()
    }
}

impl DeepView for SVGRectangle {
    type V = RectangleModel;

    open spec fn deep_view(&self) -> RectangleModel {
        RectangleModel {
            id: self.id@,
            pos: self.pos,
            height: self.height,
            width: self.width,
            fill: self.fill,
            stroke_width: self.stroke_width,
            stroke: self.stroke,
            opacity: self.opacity,
        }
    }
}

impl View for SVGRectangle {
    type V = RectangleModel;

    open spec fn view(&self) -> RectangleModel {
        self.deep_view()
    }
}

impl UWMapItem for SVGRectangle {
    fn replicate(&self) -> (copy: Self) {
        SVGRectangle {
            id: self.id.clone(),
            pos: self.pos,
            height: self.height,
            width: self.width,
            fill: self.fill,
            stroke_width: self.stroke_width,
            stroke: self.stroke,
            opacity: self.opacity,
        }
    }
}

impl Clone for SVGRectangle {
    fn clone(&self) -> (copy: Self)
        ensures
            copy@ == self@,
    {
        self.replicate()
    }
}

impl SVGRectangle {
    /// The default rectangle under the name `id`.
    pub fn with_id(id: String) -> (r: Self)
        ensures
            r@ == default_rectangle(id@),
    {
        SVGRectangle {
            id,
            pos: Vec2 { x: 0, y: 0 },
            height: 5,
            width: 10,
            fill: Color::white(),
            stroke_width: 2,
            stroke: Color::black(),
            opacity: Scalar::one(),
        }
    }

    /// The default rectangle under a fresh name.
    pub fn default() -> (r: Self)
        ensures
            r@ == default_rectangle(r.id@),
            r.id@.len() == ID_LEN,
    {
        SVGRectangle::with_id(gen_str_id())
    }

    /// Applies the changes that are given and says whether any was.
    pub fn apply_some(&mut self, partial: PartialSVGRectangle) -> (any: bool)
        ensures
            final(self)@ == rectangle_applied(old(self)@, partial),
            any == partial.touches(),
    {
        let will_apply_some = partial.pos.is_some() || partial.height.is_some()
            || partial.width.is_some() || partial.fill.is_some() || partial.stroke_width.is_some()
            || partial.stroke.is_some() || partial.opacity.is_some();
        if let Some(pos) = partial.pos {
            self.pos = pos;
        }
        if let Some(height) = partial.height {
            self.height = height;
        }
        if let Some(width) = partial.width {
            self.width = width;
        }
        if let Some(fill) = partial.fill {
            self.fill = fill;
        }
        if let Some(stroke_width) = partial.stroke_width {
            self.stroke_width = stroke_width;
        }
        if let Some(stroke) = partial.stroke {
            self.stroke = stroke;
        }
        if let Some(opacity) = partial.opacity {
            self.opacity = opacity;
        }
        will_apply_some
    }

    pub fn set_pos(&mut self, x: i32, y: i32)
        ensures
            *final(self) == (SVGRectangle { pos: Vec2 { x, y }, ..*old(self) }),
    {
        self.pos = Vec2 { x, y };
    }

    pub fn set_height(&mut self, height: i32)
        ensures
            *final(self) == (SVGRectangle { height, ..*old(self) }),
    {
        self.height = height;
    }

    pub fn set_width(&mut self, width: i32)
        ensures
            *final(self) == (SVGRectangle { width, ..*old(self) }),
    {
        self.width = width;
    }

    pub fn set_fill(&mut self, red: i32, green: i32, blue: i32, opacity: Scalar)
        ensures
            *final(self) == (SVGRectangle { fill: Color(red, green, blue, opacity), ..*old(self) }),
    {
        self.fill = Color(red, green, blue, opacity);
    }

    pub fn set_stroke_width(&mut self, stroke_width: i32)
        ensures
            *final(self) == (SVGRectangle { stroke_width, ..*old(self) }),
    {
        self.stroke_width = stroke_width;
    }

    pub fn set_stroke(&mut self, red: i32, green: i32, blue: i32, opacity: Scalar)
        ensures
            *final(self) == (SVGRectangle {
                stroke: Color(red, green, blue, opacity),
                ..*old(self)
            }),
    {
        self.stroke = Color(red, green, blue, opacity);
    }
}

} // verus!
