//! Vector paths: the description that goes to the tessellator, the
//! outlines of the plain shapes, and the mesh that comes back.

use vstd::prelude::*;
use crate::fixed::Fixed;
use crate::geometry::{make_vertex, vertex_at, Color, Vertex};

verus! {

/// One step of a path, in logical coordinates.
#[derive(Clone, Copy, Debug, PartialEq, Eq)]
pub enum PathCommand {
    /// Starts a sub-path at a point.
    MoveTo { x: Fixed, y: Fixed },
    /// Draws a straight line from the current point.
    LineTo { x: Fixed, y: Fixed },
    /// Ends the sub-path with a line back to where it started.
    Close,
    /// Ends the sub-path where it stands, and leaves it open.
    End,
}

/// A path: sub-paths one after the other.
#[derive(Debug, PartialEq, Eq)]
pub struct Path {
    pub commands: Vec<PathCommand>,
}

/// How a path is turned into triangles.
#[derive(Clone, Copy, Debug, PartialEq, Eq)]
pub enum TessellationMode {
    /// The inside of the path, by the even-odd rule.
    Fill,
    /// A line of width one along the path, with mitred joins.
    Stroke,
}

/// A path that waits to be tessellated and drawn in one colour.
#[derive(Debug, PartialEq, Eq)]
pub struct PathJob {
    pub mode: TessellationMode,
    pub path: Path,
    pub color: Color,
}

/// Why a path gave no triangles.
#[derive(Clone, Copy, Debug, PartialEq, Eq)]
pub enum PathError {
    /// The commands do not form sub-paths.
    Malformed,
    /// The tessellator does not support what was asked of it.
    UnsupportedParameter,
    /// The tessellator met a vertex that is not a number.
    InvalidVertex,
    /// The path has more vertices than an index can count.
    TooManyVertices,
    /// The tessellator failed on the path.
    Internal,
}

/// A point in logical coordinates.
#[derive(Clone, Copy, Debug, PartialEq, Eq)]
pub struct Point {
    pub x: Fixed,
    pub y: Fixed,
}

/// The triangles of a tessellated path: points, and indices into them.
#[derive(Debug, PartialEq, Eq)]
pub struct Mesh {
    pub positions: Vec<Point>,
    pub indices: Vec<u32>,
}

/// Whether a sub-path is in progress after `commands`, and nothing where
/// they are out of order: a sub-path starts with `MoveTo` and lasts up to
/// the next `Close` or `End`, and `LineTo`, `Close` and `End` stand inside
/// one only.
pub open spec fn open_after(commands: Seq<PathCommand>) -> Option<bool>
    decreases commands.len(),
{
    if commands.len() == 0 {
        Some(false)
    } else {
        match open_after(commands.drop_last()) {
            None => None,
            Some(open) => match commands.last() {
                PathCommand::MoveTo { .. } => if open {
                    None
                } else {
                    Some(true)
                },
                PathCommand::LineTo { .. } => if open {
                    Some(true)
                } else {
                    None
                },
                PathCommand::Close | PathCommand::End => if open {
                    Some(false)
                } else {
                    None
                },
            },
        }
    }
}

/// Whether `commands` form sub-paths, one after the other, each of them
/// ended.
pub open spec fn well_formed(commands: Seq<PathCommand>) -> bool {
    open_after(commands) == Some(false)
}

impl Path {
    /// Tells whether the commands form sub-paths, each of them ended.
    pub fn is_well_formed(&self) -> (ok: bool)
        ensures
            ok == well_formed(self.commands@),
    {
        let n: usize = self.commands.len();
        let mut open: bool = false;
        let mut i: usize = 0;
        assert(self.commands@.take(0) =~= Seq::<PathCommand>::empty());
        while i < n
            invariant
                i <= n,
                n == self.commands@.len(),
                open_after(self.commands@.take(i as int)) == Some(open),
            decreases n - i,
        {
            let command: PathCommand = self.commands[i];
            proof {
                let next = self.commands@.take(i + 1);
                assert(next.drop_last() =~= self.commands@.take(i as int));
                assert(next.last() == command);
                if open_after(next) is None {
                    lemma_open_after_sticks(self.commands@, i + 1);
                }
            }
            match command {
                PathCommand::MoveTo { .. } => {
                    if open {
                        return false;
                    }
                    open = true;
                },
                PathCommand::LineTo { .. } => {
                    if !open {
                        return false;
                    }
                },
                PathCommand::Close | PathCommand::End => {
                    if !open {
                        return false;
                    }
                    open = false;
                },
            }
            i += 1;
        }
        assert(self.commands@.take(n as int) =~= self.commands@);
        !open
    }
}

/// Commands that are out of order stay so whatever follows them.
pub proof fn lemma_open_after_sticks(commands: Seq<PathCommand>, i: int)
    requires
        0 <= i <= commands.len(),
        open_after(commands.take(i)) is None,
    ensures
        open_after(commands) is None,
    decreases commands.len() - i,
{
    if i < commands.len() {
        assert(commands.take(i + 1).drop_last() =~= commands.take(i));
        lemma_open_after_sticks(commands, i + 1);
    } else {
        assert(commands.take(i) =~= commands);
    }
}

/// The outline of the segment from `(x1, y1)` to `(x2, y2)`.
pub open spec fn line_commands(x1: Fixed, y1: Fixed, x2: Fixed, y2: Fixed) -> Seq<PathCommand> {
    seq![
        PathCommand::MoveTo { x: x1, y: y1 },
        PathCommand::LineTo { x: x2, y: y2 },
        PathCommand::Close,
    ]
}

/// The outline of the rectangle with the corners `(x1, y1)` and
/// `(x2, y2)`: from the first corner along the `x` axis first.
pub open spec fn rect_commands(x1: Fixed, y1: Fixed, x2: Fixed, y2: Fixed) -> Seq<PathCommand> {
    seq![
        PathCommand::MoveTo { x: x1, y: y1 },
        PathCommand::LineTo { x: x2, y: y1 },
        PathCommand::LineTo { x: x2, y: y2 },
        PathCommand::LineTo { x: x1, y: y2 },
        PathCommand::Close,
    ]
}

/// The outline of the triangle with the three corners given, drawn back to
/// the first corner before it is closed.
pub open spec fn tri_commands(
    x1: Fixed,
    y1: Fixed,
    x2: Fixed,
    y2: Fixed,
    x3: Fixed,
    y3: Fixed,
) -> Seq<PathCommand> {
    seq![
        PathCommand::MoveTo { x: x1, y: y1 },
        PathCommand::LineTo { x: x2, y: y2 },
        PathCommand::LineTo { x: x3, y: y3 },
        PathCommand::LineTo { x: x1, y: y1 },
        PathCommand::Close,
    ]
}

/// The outlines of the plain shapes form sub-paths.
pub proof fn lemma_outlines_well_formed(
    x1: Fixed,
    y1: Fixed,
    x2: Fixed,
    y2: Fixed,
    x3: Fixed,
    y3: Fixed,
)
    ensures
        well_formed(line_commands(x1, y1, x2, y2)),
        well_formed(rect_commands(x1, y1, x2, y2)),
        well_formed(tri_commands(x1, y1, x2, y2, x3, y3)),
{
    reveal_with_fuel(open_after, 6);
    let line = line_commands(x1, y1, x2, y2);
    assert(line.drop_last() =~= seq![line[0], line[1]]);
    assert(line.drop_last().drop_last() =~= seq![line[0]]);
    assert(line.drop_last().drop_last().drop_last() =~= Seq::<PathCommand>::empty());
    lemma_five_well_formed(rect_commands(x1, y1, x2, y2));
    lemma_five_well_formed(tri_commands(x1, y1, x2, y2, x3, y3));
}

proof fn lemma_five_well_formed(commands: Seq<PathCommand>)
    requires
        commands.len() == 5,
        commands[0] is MoveTo,
        commands[1] is LineTo,
        commands[2] is LineTo,
        commands[3] is LineTo,
        commands[4] is Close,
    ensures
        well_formed(commands),
{
    reveal_with_fuel(open_after, 7);
    let c4 = commands.drop_last();
    let c3 = c4.drop_last();
    let c2 = c3.drop_last();
    let c1 = c2.drop_last();
    let c0 = c1.drop_last();
    assert(c0.len() == 0);
    assert(open_after(c0) == Some(false));
    assert(c1.last() == commands[0]);
    assert(open_after(c1) == Some(true));
    assert(c2.last() == commands[1]);
    assert(open_after(c2) == Some(true));
    assert(c3.last() == commands[2]);
    assert(open_after(c3) == Some(true));
    assert(c4.last() == commands[3]);
    assert(open_after(c4) == Some(true));
}

/// The path that outlines a line segment.
pub fn line_outline(x1: Fixed, y1: Fixed, x2: Fixed, y2: Fixed) -> (path: Path)
    ensures
        path.commands@ == line_commands(x1, y1, x2, y2),
{
    let mut commands: Vec<PathCommand> = Vec::new();
    commands.push(PathCommand::MoveTo { x: x1, y: y1 });
    commands.push(PathCommand::LineTo { x: x2, y: y2 });
    commands.push(PathCommand::Close);
    assert(commands@ =~= line_commands(x1, y1, x2, y2));
    Path { commands }
}

/// The path that outlines a rectangle.
pub fn rect_outline(x1: Fixed, y1: Fixed, x2: Fixed, y2: Fixed) -> (path: Path)
    ensures
        path.commands@ == rect_commands(x1, y1, x2, y2),
{
    let mut commands: Vec<PathCommand> = Vec::new();
    commands.push(PathCommand::MoveTo { x: x1, y: y1 });
    commands.push(PathCommand::LineTo { x: x2, y: y1 });
    commands.push(PathCommand::LineTo { x: x2, y: y2 });
    commands.push(PathCommand::LineTo { x: x1, y: y2 });
    commands.push(PathCommand::Close);
    assert(commands@ =~= rect_commands(x1, y1, x2, y2));
    Path { commands }
}

/// The path that outlines a triangle.
pub fn tri_outline(x1: Fixed, y1: Fixed, x2: Fixed, y2: Fixed, x3: Fixed, y3: Fixed) -> (path:
    Path)
    ensures
        path.commands@ == tri_commands(x1, y1, x2, y2, x3, y3),
{
    let mut commands: Vec<PathCommand> = Vec::new();
    commands.push(PathCommand::MoveTo { x: x1, y: y1 });
    commands.push(PathCommand::LineTo { x: x2, y: y2 });
    commands.push(PathCommand::LineTo { x: x3, y: y3 });
    commands.push(PathCommand::LineTo { x: x1, y: y1 });
    commands.push(PathCommand::Close);
    assert(commands@ =~= tri_commands(x1, y1, x2, y2, x3, y3));
    Path { commands }
}

/// The vertices of a mesh: each point in `color`, sampling the blank texel
/// at the origin of the atlas.
pub open spec fn colored(positions: Seq<Point>, color: Color) -> Seq<Vertex> {
    Seq::new(
        positions.len(),
        |i: int| vertex_at(positions[i].x as int, positions[i].y as int, 0, 0, color),
    )
}

/// Gives each point of a mesh the colour `color` and the blank texel.
pub fn color_points(positions: &[Point], color: &Color) -> (vertices: Vec<Vertex>)
    ensures
        vertices@ == colored(positions@, *color),
{
    let n: usize = positions.len();
    let mut vertices: Vec<Vertex> = Vec::new();
    let mut i: usize = 0;
    while i < n
        invariant
            i <= n,
            n == positions@.len(),
            vertices@ == colored(positions@, *color).take(i as int),
        decreases n - i,
    {
        let point: Point = positions[i];
        vertices.push(make_vertex(point.x, point.y, 0, 0, color));
        assert(vertices@ =~= colored(positions@, *color).take(i + 1));
        i += 1;
    }
    assert(colored(positions@, *color).take(n as int) =~= colored(positions@, *color));
    vertices
}

} // verus!
