//! Paths and the commands they are drawn with.
use crate::element::circle::changed;
use crate::utility::{gen_str_id, Color, NodeID, Scalar, UWMapItem, Vec2, ID_LEN, ONE_BITS};
use vstd::prelude::*;

verus! {

/// One step of a path. Each step has a name of its own inside its path.
#[derive(Debug, PartialEq, Eq)]
pub enum SVGPathCommand {
    Start { id: String, pos: Vec2 },
    Line { id: String, pos: Vec2 },
    Close { id: String },
    Bezier { id: String, handle1: Vec2, handle2: Vec2, pos: Vec2 },
    BezierQuad { id: String, handle: Vec2, pos: Vec2 },
}

/// What a step of a path stands for.
pub enum CommandModel {
    Start { id: Seq<char>, pos: Vec2 },
    Line { id: Seq<char>, pos: Vec2 },
    Close { id: Seq<char> },
    Bezier { id: Seq<char>, handle1: Vec2, handle2: Vec2, pos: Vec2 },
    BezierQuad { id: Seq<char>, handle: Vec2, pos: Vec2 },
}

/// A step of a path that is still to be named; absent parts take defaults.
#[derive(Clone, Copy, Debug, PartialEq, Eq)]
pub enum PartialSVGPathCommand {
    Start { pos: Option<Vec2> },
    Line { pos: Option<Vec2> },
    Close {  },
    Bezier { handle1: Option<Vec2>, handle2: Option<Vec2>, pos: Option<Vec2> },
    BezierQuad { handle: Option<Vec2>, pos: Option<Vec2> },
}

/// The kinds of steps.
#[derive(Clone, Copy, Debug, PartialEq, Eq)]
pub enum SVGPathCommandType {
    START,
    LINE,
    CLOSE,
    BEZIER,
    BEZIER_QUAD,
}

/// The name of a step.
pub open spec fn command_id(c: CommandModel) -> Seq<char> {
    match c {
        CommandModel::Start { id, .. } => id,
        CommandModel::Line { id, .. } => id,
        CommandModel::Close { id } => id,
        CommandModel::Bezier { id, .. } => id,
        CommandModel::BezierQuad { id, .. } => id,
    }
}

/// The step that `command` describes, under the name `id`.
pub open spec fn command_from_partial(command: PartialSVGPathCommand, id: Seq<char>) -> CommandModel {
    match command {
        PartialSVGPathCommand::Start { pos } => CommandModel::Start {
            id,
            pos: changed(Vec2 { x: 0, y: 0 }, pos),
        },
        PartialSVGPathCommand::Line { pos } => CommandModel::Line {
            id,
            pos: changed(Vec2 { x: 0, y: 0 }, pos),
        },
        PartialSVGPathCommand::Close {  } => CommandModel::Close { id },
        PartialSVGPathCommand::Bezier { handle1, handle2, pos } => CommandModel::Bezier {
            id,
            handle1: changed(Vec2 { x: 5, y: 5 }, handle1),
            handle2: changed(Vec2 { x: 5, y: -5i32 }, handle2),
            pos: changed(Vec2 { x: 0, y: 0 }, pos),
        },
        PartialSVGPathCommand::BezierQuad { handle, pos } => CommandModel::BezierQuad {
            id,
            handle: changed(Vec2 { x: 5, y: 5 }, handle),
            pos: changed(Vec2 { x: 0, y: 0 }, pos),
        },
    }
}

/// `a + b`, kept inside the range of the coordinates.
pub open spec fn shifted(a: i32, b: i32) -> i32 {
    if a + b > i32::MAX {
        i32::MAX
    } else if a + b < i32::MIN {
        i32::MIN
    } else {
        (a + b) as i32
    }
}

/// A fresh step of kind `kind` that ends at `pos`, under the name `id`. The
/// handles of a curve start at fixed offsets from `pos`.
pub open spec fn command_at(kind: SVGPathCommandType, id: Seq<char>, pos: Vec2) -> CommandModel {
    match kind {
        SVGPathCommandType::START => CommandModel::Start { id, pos },
        SVGPathCommandType::LINE => CommandModel::Line { id, pos },
        SVGPathCommandType::CLOSE => CommandModel::Close { id },
        SVGPathCommandType::BEZIER => CommandModel::Bezier {
            id,
            handle1: Vec2 { x: shifted(pos.x, 20), y: shifted(pos.y, 20) },
            handle2: Vec2 { x: shifted(pos.x, 20), y: shifted(pos.y, -20i32) },
            pos,
        },
        SVGPathCommandType::BEZIER_QUAD => CommandModel::BezierQuad {
            id,
            handle: Vec2 { x: pos.x, y: shifted(pos.y, 20) },
            pos,
        },
    }
}

/// The step with its end point moved to `pos`; a closing step has none.
pub open spec fn command_with_pos(c: CommandModel, pos: Vec2) -> CommandModel {
    match c {
        CommandModel::Start { id, .. } => CommandModel::Start { id, pos },
        CommandModel::Line { id, .. } => CommandModel::Line { id, pos },
        CommandModel::Close { id } => CommandModel::Close { id },
        CommandModel::Bezier { id, handle1, handle2, .. } => CommandModel::Bezier {
            id,
            handle1,
            handle2,
            pos,
        },
        CommandModel::BezierQuad { id, handle, .. } => CommandModel::BezierQuad { id, handle, pos },
    }
}

/// The step with its first handle moved to `h`; only curves have one.
pub open spec fn command_with_handle1(c: CommandModel, h: Vec2) -> CommandModel {
    match c {
        CommandModel::Bezier { id, handle2, pos, .. } => CommandModel::Bezier {
            id,
            handle1: h,
            handle2,
            pos,
        },
        CommandModel::BezierQuad { id, pos, .. } => CommandModel::BezierQuad { id, handle: h, pos },
        other => other,
    }
}

/// The step with its second handle moved to `h`; only cubic curves have one.
pub open spec fn command_with_handle2(c: CommandModel, h: Vec2) -> CommandModel {
    match c {
        CommandModel::Bezier { id, handle1, pos, .. } => CommandModel::Bezier {
            id,
            handle1,
            handle2: h,
            pos,
        },
        other => other,
    }
}

impl DeepView for SVGPathCommand {
    type V = CommandModel;

    open spec fn deep_view(&self) -> CommandModel {
        match self {
            SVGPathCommand::Start { id, pos } => CommandModel::Start { id: id@, pos: *pos },
            SVGPathCommand::Line { id, pos } => CommandModel::Line { id: id@, pos: *pos },
            SVGPathCommand::Close { id } => CommandModel::Close { id: id@ },
            SVGPathCommand::Bezier { id, handle1, handle2, pos } => CommandModel::Bezier {
                id: id@,
                handle1: *handle1,
                handle2: *handle2,
                pos: *pos,
            },
            SVGPathCommand::BezierQuad { id, handle, pos } => CommandModel::BezierQuad {
                id: id@,
                handle: *handle,
                pos: *pos,
            },
        }
    }
}

impl View for SVGPathCommand {
    type V = CommandModel;

    open spec fn view(&self) -> CommandModel {
        self.deep_view()
    }
}

impl UWMapItem for SVGPathCommand {
    fn replicate(&self) -> (copy: Self) {
        match self {
            SVGPathCommand::Start { id, pos } => SVGPathCommand::Start {
                id: id.clone(),
                pos: *pos,
            },
            SVGPathCommand::Line { id, pos } => SVGPathCommand::Line { id: id.clone(), pos: *pos },
            SVGPathCommand::Close { id } => SVGPathCommand::Close { id: id.clone() },
            SVGPathCommand::Bezier { id, handle1, handle2, pos } => SVGPathCommand::Bezier {
                id: id.clone(),
                handle1: *handle1,
                handle2: *handle2,
                pos: *pos,
            },
            SVGPathCommand::BezierQuad { id, handle, pos } => SVGPathCommand::BezierQuad {
                id: id.clone(),
                handle: *handle,
                pos: *pos,
            },
        }
    }
}

impl Clone for SVGPathCommand {
    fn clone(&self) -> (copy: Self)
        ensures
            copy@ == self@,
    {
        self.replicate()
    }
}

/// `a + b`, kept inside the range of the coordinates.
fn shift(a: i32, b: i32) -> (c: i32)
    ensures
        c == shifted(a, b),
{
    let sum: i64 = a as i64 + b as i64;
    if sum > i32::MAX as i64 {
        i32::MAX
    } else if sum < i32::MIN as i64 {
        i32::MIN
    } else {
        sum as i32
    }
}

impl SVGPathCommand {
    /// The name of the step.
    pub fn get_id<'a>(&'a self) -> (id: &'a str)
        ensures
            id@ == command_id(self@),
    {
        match self {
            Self::Start { id, .. } => id.as_str(),
            Self::Line { id, .. } => id.as_str(),
            Self::Close { id } => id.as_str(),
            Self::Bezier { id, .. } => id.as_str(),
            Self::BezierQuad { id, .. } => id.as_str(),
        }
    }

    /// The step that `command` describes, under the name `id`.
    pub fn from_partial_with_id(command: PartialSVGPathCommand, id: String) -> (c: SVGPathCommand)
        ensures
            c@ == command_from_partial(command, id@),
    {
        match command {
            PartialSVGPathCommand::Start { pos } => SVGPathCommand::Start {
                id,
                pos: pos.unwrap_or(Vec2 { x: 0, y: 0 }),
            },
            PartialSVGPathCommand::Line { pos } => SVGPathCommand::Line {
                id,
                pos: pos.unwrap_or(Vec2 { x: 0, y: 0 }),
            },
            PartialSVGPathCommand::Close {  } => SVGPathCommand::Close { id },
            PartialSVGPathCommand::Bezier { handle1, handle2, pos } => SVGPathCommand::Bezier {
                id,
                handle1: handle1.unwrap_or(Vec2 { x: 5, y: 5 }),
                handle2: handle2.unwrap_or(Vec2 { x: 5, y: -5 }),
                pos: pos.unwrap_or(Vec2 { x: 0, y: 0 }),
            },
            PartialSVGPathCommand::BezierQuad { handle, pos } => SVGPathCommand::BezierQuad {
                id,
                handle: handle.unwrap_or(Vec2 { x: 5, y: 5 }),
                pos: pos.unwrap_or(Vec2 { x: 0, y: 0 }),
            },
        }
    }

    /// The step that `command` describes, under a fresh name.
    pub fn from_partial(command: PartialSVGPathCommand) -> (c: SVGPathCommand)
        ensures
            c@ == command_from_partial(command, command_id(c@)),
            command_id(c@).len() == ID_LEN,
    {
        SVGPathCommand::from_partial_with_id(command, gen_str_id())
    }

    /// A fresh step of kind `kind` that ends at `pos`, under the name `id`.
    pub fn at(kind: SVGPathCommandType, id: String, pos: Vec2) -> (c: SVGPathCommand)
        ensures
            c@ == command_at(kind, id@, pos),
    {
        match kind {
            SVGPathCommandType::START => SVGPathCommand::Start { id, pos },
            SVGPathCommandType::LINE => SVGPathCommand::Line { id, pos },
            SVGPathCommandType::CLOSE => SVGPathCommand::Close { id },
            SVGPathCommandType::BEZIER => {
                let handle1 = Vec2 { x: shift(pos.x, 20), y: shift(pos.y, 20) };
                let handle2 = Vec2 { x: shift(pos.x, 20), y: shift(pos.y, -20) };
                SVGPathCommand::Bezier { id, handle1, handle2, pos }
            },
            SVGPathCommandType::BEZIER_QUAD => {
                let handle = Vec2 { x: pos.x, y: shift(pos.y, 20) };
                SVGPathCommand::BezierQuad { id, handle, pos }
            },
        }
    }

    /// Moves the end point of the step; a closing step is left as it is.
    pub fn with_pos(self, new_pos: Vec2) -> (c: SVGPathCommand)
        ensures
            c@ == command_with_pos(self@, new_pos),
    {
        match self {
            SVGPathCommand::Start { id, .. } => SVGPathCommand::Start { id, pos: new_pos },
            SVGPathCommand::Line { id, .. } => SVGPathCommand::Line { id, pos: new_pos },
            SVGPathCommand::Close { id } => SVGPathCommand::Close { id },
            SVGPathCommand::Bezier { id, handle1, handle2, .. } => SVGPathCommand::Bezier {
                id,
                handle1,
                handle2,
                pos: new_pos,
            },
            SVGPathCommand::BezierQuad { id, handle, .. } => SVGPathCommand::BezierQuad {
                id,
                handle,
                pos: new_pos,
            },
        }
    }

    /// Moves the first handle of a curve; any other step is left as it is.
    pub fn with_handle1(self, new_handle1: Vec2) -> (c: SVGPathCommand)
        ensures
            c@ == command_with_handle1(self@, new_handle1),
    {
        match self {
            SVGPathCommand::Bezier { id, handle2, pos, .. } => SVGPathCommand::Bezier {
                id,
                handle1: new_handle1,
                handle2,
                pos,
            },
            SVGPathCommand::BezierQuad { id, pos, .. } => SVGPathCommand::BezierQuad {
                id,
                handle: new_handle1,
                pos,
            },
            other => other,
        }
    }

    /// Moves the second handle of a cubic curve; any other step is left as it
    /// is.
    pub fn with_handle2(self, new_handle2: Vec2) -> (c: SVGPathCommand)
        ensures
            c@ == command_with_handle2(self@, new_handle2),
    {
        match self {
            SVGPathCommand::Bezier { id, handle1, pos, .. } => SVGPathCommand::Bezier {
                id,
                handle1,
                handle2: new_handle2,
                pos,
            },
            other => other,
        }
    }
}

/// A path.
#[derive(Debug, PartialEq, Eq)]
pub struct SVGPath {
    pub id: NodeID,
    pub fill: Color,
    pub stroke_width: i32,
    pub stroke: Color,
    pub points: Vec<SVGPathCommand>,
    pub opacity: Scalar,
}

/// What a path stands for.
pub struct PathModel {
    pub id: Seq<char>,
    pub fill: Color,
    pub stroke_width: i32,
    pub stroke: Color,
    pub points: Seq<CommandModel>,
    pub opacity: Scalar,
}

/// Changes to a path; an absent field is left as it is. Points that are given
/// take the place of all the points there were.
#[derive(Debug, PartialEq, Eq)]
pub struct PartialSVGPath {
    pub fill: Option<Color>,
    pub stroke_width: Option<i32>,
    pub stroke: Option<Color>,
    pub opacity: Option<Scalar>,
    pub points: Option<Vec<PartialSVGPathCommand>>,
}

/// The path that a fresh node starts from.
pub open spec fn default_path(id: Seq<char>) -> PathModel {
    PathModel {
        id,
        fill: Color(255, 255, 255, Scalar { bits: ONE_BITS }),
        stroke_width: 2,
        stroke: Color(0, 0, 0, Scalar { bits: ONE_BITS }),
        points: Seq::empty(),
        opacity: Scalar { bits: ONE_BITS },
    }
}

/// The steps that `commands` describe, the `i`-th under the name `ids[i]`.
pub open spec fn commands_from_partial(
    commands: Seq<PartialSVGPathCommand>,
    ids: Seq<Seq<char>>,
) -> Seq<CommandModel> {
    Seq::new(commands.len(), |i: int| command_from_partial(commands[i], ids[i]))
}

/// The path after the changes of `p`, new points named by `ids`.
pub open spec fn path_applied(p: PathModel, partial: PartialSVGPath, ids: Seq<Seq<char>>) -> PathModel {
    PathModel {
        id: p.id,
        fill: changed(p.fill, partial.fill),
        stroke_width: changed(p.stroke_width, partial.stroke_width),
        stroke: changed(p.stroke, partial.stroke),
        points: match partial.points {
            Some(commands) => commands_from_partial(commands@, ids),
            None => p.points,
        },
        opacity: changed(p.opacity, partial.opacity),
    }
}

impl PartialSVGPath {
    /// The changes that change nothing.
    pub fn empty() -> (p: Self)
        ensures
            p.fill is None,
            p.stroke_width is None,
            p.stroke is None,
            p.opacity is None,
            p.points is None,
    {
        Self { fill: None, stroke_width: None, stroke: None, opacity: None, points: None }
    }

    /// How many fresh names the changes need: one for each new point.
    pub open spec fn names_needed(&self) -> nat {
        match self.points {
            Some(commands) => commands@.len(),
            None => 0,
        }
    }

    /// How many fresh names the changes need.
    pub fn count_names(&self) -> (n: usize)
        ensures
            n == self.names_needed(),
    {
        match &self.points {
            Some(commands) => commands.len(),
            None => 0,
        }
    }
}

impl Clone for PartialSVGPath {
    fn clone(&self) -> (copy: Self)
        ensures
            copy.fill == self.fill,
            copy.stroke_width == self.stroke_width,
            copy.stroke == self.stroke,
            copy.opacity == self.opacity,
            copy.points is Some == self.points is Some,
            copy.points is Some ==> copy.points->0@ == self.points->0@,
    {
        let points = match &self.points {
            Some(commands) => {
                let mut out: Vec<PartialSVGPathCommand> = Vec::new();
                let mut i: usize = 0;
                while i < commands.len()
                    invariant
                        i <= commands.len(),
                        out@ == commands@.take(i as int),
                    decreases commands.len() - i,
                {
                    out.push(commands[i]);
                    assert(commands@.take(i + 1) =~= commands@.take(i as int).push(commands[i as int]));
                    i += 1;
                }
                assert(commands@.take(commands.len() as int) =~= commands@);
                Some(out)
            },
            None => None,
        };
        PartialSVGPath {
            fill: self.fill,
            stroke_width: self.stroke_width,
            stroke: self.stroke,
            opacity: self.opacity,
            points,
        }
    }
}

/// Draws `n` fresh names.
pub fn fresh_names(n: usize) -> (ids: Vec<String>)
    ensures
        ids.len() == n,
        forall|i: int| 0 <= i < ids.len() ==> (#[trigger] ids[i])@.len() == ID_LEN,
{
    let mut ids: Vec<String> = Vec::new();
    let mut i: usize = 0;
    while i < n
        invariant
            i <= n,
            ids.len() == i,
            forall|j: int| 0 <= j < ids.len() ==> (#[trigger] ids[j])@.len() == ID_LEN,
        decreases n - i,
    {
        ids.push(gen_str_id());
        i += 1;
    }
    ids
}

/// Names the steps that `commands` describe, the `i`-th by `ids[i]`.
pub fn name_commands(commands: &Vec<PartialSVGPathCommand>, ids: &Vec<String>) -> (points: Vec<
    SVGPathCommand,
>)
    requires
        ids.len() >= commands.len(),
    ensures
        points.deep_view() == commands_from_partial(commands@, ids.deep_view()),
{
    let mut points: Vec<SVGPathCommand> = Vec::new();
    let mut i: usize = 0;
    while i < commands.len()
        invariant
            i <= commands.len(),
            ids.len() >= commands.len(),
            points.len() == i,
            forall|j: int|
                0 <= j < i ==> (#[trigger] points[j]).deep_view() == command_from_partial(
                    commands[j],
                    ids[j]@,
                ),
        decreases commands.len() - i,
    {
        points.push(SVGPathCommand::from_partial_with_id(commands[i], ids[i].clone()));
        i += 1;
    }
    assert(points.deep_view() =~= commands_from_partial(commands@, ids.deep_view()));
    points
}

impl DeepView for SVGPath {
    type V = PathModel;

    open spec fn deep_view(&self) -> PathModel {
        PathModel {
            id: self.id@,
            fill: self.fill,
            stroke_width: self.stroke_width,
            stroke: self.stroke,
            points: self.points.deep_view(),
            opacity: self.opacity,
        }
    }
}

impl View for SVGPath {
    type V = PathModel;

    open spec fn view(&self) -> PathModel {
        self.deep_view()
    }
}

impl UWMapItem for SVGPath {
    fn replicate(&self) -> (copy: Self) {
        SVGPath {
            id: self.id.clone(),
            fill: self.fill,
            stroke_width: self.stroke_width,
            stroke: self.stroke,
            points: self.points.replicate(),
            opacity: self.opacity,
        }
    }
}

impl Clone for SVGPath {
    fn clone(&self) -> (copy: Self)
        ensures
            copy@ == self@,
    {
        self.replicate()
    }
}

/// The place of the first step named `id`, if there is one.
pub open spec fn point_index(points: Seq<CommandModel>, id: Seq<char>) -> Option<int> {
    if exists|i: int| 0 <= i < points.len() && command_id(points[i]) == id {
        Some(
            choose|i: int|
                0 <= i < points.len() && command_id(points[i]) == id && forall|j: int|
                    0 <= j < i ==> command_id(#[trigger] points[j]) != id,
        )
    } else {
        None
    }
}

/// The place of the first step named `point_id`, if there is one.
pub fn find_point(points: &Vec<SVGPathCommand>, point_id: &str) -> (at: Option<usize>)
    ensures
        match at {
            Some(i) => point_index(points.deep_view(), point_id@) == Some(i as int) && i
                < points.len(),
            None => point_index(points.deep_view(), point_id@) is None,
        },
{
    let target: String = point_id.to_owned();
    let mut i: usize = 0;
    while i < points.len()
        invariant
            i <= points.len(),
            target@ == point_id@,
            forall|j: int|
                0 <= j < i ==> command_id(#[trigger] points.deep_view()[j]) != point_id@,
        decreases points.len() - i,
    {
        let id: String = points[i].get_id().to_owned();
        if id == target {
            let ghost m = points.deep_view();
            assert(command_id(m[i as int]) == point_id@);
            let ghost w = choose|k: int|
                0 <= k < m.len() && command_id(m[k]) == point_id@ && forall|j: int|
                    0 <= j < k ==> command_id(#[trigger] m[j]) != point_id@;
            assert(w == i) by {
                if w < i {
                    assert(command_id(m[w]) != point_id@);
                }
                if i < w {
                    assert(command_id(m[i as int]) != point_id@);
                }
            }
            return Some(i);
        }
        i += 1;
    }
    None
}

impl SVGPath {
    /// The default path under the name `id`.
    pub fn with_id(id: String) -> (p: Self)
        ensures
            p@ == default_path(id@),
    {
        let p = SVGPath {
            id,
            fill: Color::white(),
            stroke_width: 2,
            stroke: Color::black(),
            points: Vec::new(),
            opacity: Scalar::one(),
        };
        assert(p.points.deep_view() =~= Seq::empty());
        p
    }

    /// The default path under a fresh name.
    pub fn default() -> (p: Self)
        ensures
            p@ == default_path(p.id@),
            p.id@.len() == ID_LEN,
    {
        SVGPath::with_id(gen_str_id())
    }

    /// Whether any field but the opacity is given.
    pub open spec fn touched_by(partial: &PartialSVGPath) -> bool {
        partial.fill.is_some() || partial.stroke_width.is_some() || partial.stroke.is_some()
            || partial.points.is_some()
    }

    /// Applies the changes that are given, new points named by `ids`, and says
    /// whether any but the opacity was given.
    pub fn apply_some_with(&mut self, partial: PartialSVGPath, ids: &Vec<String>) -> (any: bool)
        requires
            ids.len() >= partial.names_needed(),
        ensures
            final(self)@ == path_applied(old(self)@, partial, ids.deep_view()),
            any == Self::touched_by(&partial),
    {
        let will_apply_some = partial.fill.is_some() || partial.stroke_width.is_some()
            || partial.stroke.is_some() || partial.points.is_some();
        if let Some(fill) = partial.fill {
            self.fill = fill;
        }
        if let Some(stroke_width) = partial.stroke_width {
            self.stroke_width = stroke_width;
        }
        if let Some(stroke) = partial.stroke {
            self.stroke = stroke;
        }
        if let Some(opacity) = partial.opacity {
            self.opacity = opacity;
        }
        if let Some(commands) = &partial.points {
            self.points = name_commands(commands, ids);
        }
        will_apply_some
    }

    /// Applies the changes that are given, new points under fresh names.
    pub fn apply_some(&mut self, partial: PartialSVGPath) -> (any: bool)
        ensures
            exists|ids: Seq<Seq<char>>|
                ids.len() == partial.names_needed() && final(self)@ == path_applied(
                    old(self)@,
                    partial,
                    ids,
                ),
            any == Self::touched_by(&partial),
    {
        let ids = fresh_names(partial.count_names());
        let ghost names = ids.deep_view();
        let any = self.apply_some_with(partial, &ids);
        assert(names.len() == partial.names_needed() && self@ == path_applied(
            old(self)@,
            partial,
            names,
        ));
        any
    }
}

} // verus!
