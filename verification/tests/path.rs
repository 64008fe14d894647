use diode::batch::BatchError;
use diode::fixed::ONE;
use diode::geometry::{Color, Vertex};
use diode::graphics::{DrawError, Graphics};
use diode::path::{
    color_points, line_outline, rect_outline, tri_outline, Mesh, Path, PathCommand, PathError,
    PathJob, Point, TessellationMode,
};

fn move_to(x: i32, y: i32) -> PathCommand {
    PathCommand::MoveTo { x, y }
}

fn line_to(x: i32, y: i32) -> PathCommand {
    PathCommand::LineTo { x, y }
}

fn path(commands: &[PathCommand]) -> Path {
    Path { commands: commands.to_vec() }
}

fn black() -> Color {
    Color::rgb(0, 0, 0)
}

#[test]
fn outlines_are_closed_sub_paths() {
    assert_eq!(line_outline(1, 2, 3, 4).commands, vec![move_to(1, 2), line_to(3, 4), PathCommand::Close]);
    assert_eq!(
        rect_outline(1, 2, 3, 4).commands,
        vec![move_to(1, 2), line_to(3, 2), line_to(3, 4), line_to(1, 4), PathCommand::Close]
    );
    assert_eq!(
        tri_outline(1, 2, 3, 4, 5, 6).commands,
        vec![move_to(1, 2), line_to(3, 4), line_to(5, 6), line_to(1, 2), PathCommand::Close]
    );
    assert!(line_outline(1, 2, 3, 4).is_well_formed());
    assert!(rect_outline(1, 2, 3, 4).is_well_formed());
    assert!(tri_outline(1, 2, 3, 4, 5, 6).is_well_formed());
}

#[test]
fn outlined_shapes_ask_for_a_stroke() {
    let color = Color::rgba(ONE, ONE, ONE, ONE / 10);
    assert_eq!(
        Graphics::draw_line(50 * ONE, 70 * ONE, 200 * ONE, 300 * ONE, &color),
        PathJob {
            mode: TessellationMode::Stroke,
            path: line_outline(50 * ONE, 70 * ONE, 200 * ONE, 300 * ONE),
            color,
        }
    );
    assert_eq!(
        Graphics::draw_rect(50 * ONE, 70 * ONE, 200 * ONE, 300 * ONE, &color),
        PathJob {
            mode: TessellationMode::Stroke,
            path: rect_outline(50 * ONE, 70 * ONE, 200 * ONE, 300 * ONE),
            color,
        }
    );
    assert_eq!(
        Graphics::draw_tri(0, 0, ONE, 0, 0, ONE, &color),
        PathJob { mode: TessellationMode::Stroke, path: tri_outline(0, 0, ONE, 0, 0, ONE), color }
    );
}

#[test]
fn paths_of_closed_sub_paths_are_well_formed() {
    assert!(path(&[]).is_well_formed());
    assert!(path(&[move_to(0, 0), PathCommand::Close]).is_well_formed());
    assert!(path(&[
        move_to(0, 0),
        line_to(1, 0),
        PathCommand::Close,
        move_to(5, 5),
        line_to(6, 5),
        line_to(6, 6),
        PathCommand::Close,
    ])
    .is_well_formed());
}

#[test]
fn a_sub_path_may_end_open() {
    assert!(path(&[move_to(0, 0), line_to(1, 0), PathCommand::End]).is_well_formed());
    assert!(path(&[move_to(0, 0), PathCommand::End, move_to(1, 1), PathCommand::Close])
        .is_well_formed());
    assert!(!path(&[PathCommand::End]).is_well_formed());
    assert!(!path(&[move_to(0, 0), PathCommand::End, PathCommand::End]).is_well_formed());
    assert!(!path(&[move_to(0, 0), PathCommand::End, line_to(1, 1)]).is_well_formed());
}

#[test]
fn commands_out_of_order_are_malformed() {
    assert!(!path(&[line_to(1, 0)]).is_well_formed());
    assert!(!path(&[PathCommand::Close]).is_well_formed());
    assert!(!path(&[move_to(0, 0)]).is_well_formed());
    assert!(!path(&[move_to(0, 0), line_to(1, 1)]).is_well_formed());
    assert!(!path(&[move_to(0, 0), move_to(1, 1), PathCommand::Close]).is_well_formed());
    assert!(!path(&[move_to(0, 0), PathCommand::Close, PathCommand::Close]).is_well_formed());
    assert!(!path(&[move_to(0, 0), PathCommand::Close, line_to(1, 1)]).is_well_formed());
    assert!(!path(&[line_to(1, 1), move_to(0, 0), PathCommand::Close]).is_well_formed());
}

#[test]
fn draw_path_asks_for_a_stroke_and_fill_path_for_a_filling() {
    let commands = [move_to(0, 0), line_to(ONE, 0), line_to(ONE, ONE), PathCommand::Close];
    assert_eq!(
        Graphics::draw_path(path(&commands), &black()),
        Ok(PathJob { mode: TessellationMode::Stroke, path: path(&commands), color: black() })
    );
    assert_eq!(
        Graphics::fill_path(path(&commands), &black()),
        Ok(PathJob { mode: TessellationMode::Fill, path: path(&commands), color: black() })
    );
}

#[test]
fn a_malformed_path_is_refused() {
    let commands = [move_to(0, 0), line_to(ONE, 0)];
    assert_eq!(Graphics::draw_path(path(&commands), &black()), Err(PathError::Malformed));
    assert_eq!(Graphics::fill_path(path(&commands), &black()), Err(PathError::Malformed));
}

#[test]
fn a_mesh_is_drawn_in_one_colour_on_the_blank_texel() {
    let mut gfx = Graphics::init(800, 600, ONE);
    let red = Color::rgba(ONE, 0, 0, ONE);
    gfx.fill_tri(0, 0, 1, 0, 0, 1, &black()).unwrap();
    let mesh = Mesh {
        positions: vec![
            Point { x: 10, y: 20 },
            Point { x: 30, y: 20 },
            Point { x: 30, y: 40 },
            Point { x: 10, y: 40 },
        ],
        indices: vec![0, 1, 2, 0, 2, 3],
    };
    assert_eq!(gfx.add_mesh(&Ok(mesh), &red), Ok(()));
    let frame = gfx.commit_geom();
    assert_eq!(frame.indices, vec![0, 1, 2, 3, 4, 5, 3, 5, 6]);
    assert_eq!(frame.vertices.len(), 7);
    assert_eq!(frame.vertices[3], Vertex { pos: [10, 20], uv: [0, 0], color: [ONE, 0, 0, ONE] });
    assert_eq!(frame.vertices[6], Vertex { pos: [10, 40], uv: [0, 0], color: [ONE, 0, 0, ONE] });
    assert_eq!(
        color_points(&[Point { x: 1, y: 2 }], &red),
        vec![Vertex { pos: [1, 2], uv: [0, 0], color: [ONE, 0, 0, ONE] }]
    );
}

#[test]
fn a_failed_tessellation_is_passed_on_and_the_frame_stays() {
    let mut gfx = Graphics::init(800, 600, ONE);
    gfx.fill_tri(0, 0, 1, 0, 0, 1, &black()).unwrap();
    for error in [
        PathError::Malformed,
        PathError::UnsupportedParameter,
        PathError::InvalidVertex,
        PathError::TooManyVertices,
        PathError::Internal,
    ] {
        assert_eq!(gfx.add_mesh(&Err(error), &black()), Err(DrawError::Tessellation(error)));
    }
    let frame = gfx.commit_geom();
    assert_eq!(frame.vertices.len(), 3);
    assert_eq!(frame.indices, vec![0, 1, 2]);
}

#[test]
fn a_mesh_with_a_stray_index_is_refused() {
    let mut gfx = Graphics::init(800, 600, ONE);
    let mesh = Mesh { positions: vec![Point { x: 0, y: 0 }; 3], indices: vec![0, 1, 3] };
    assert_eq!(
        gfx.add_mesh(&Ok(mesh), &black()),
        Err(DrawError::Geometry(BatchError::IndexOutOfRange))
    );
    assert!(gfx.commit_geom().vertices.is_empty());
}

#[test]
fn a_mesh_beyond_the_capacity_is_refused() {
    let mut gfx = Graphics::init(800, 600, ONE);
    let mesh = Mesh { positions: vec![Point { x: 0, y: 0 }; 100001], indices: vec![] };
    assert_eq!(
        gfx.add_mesh(&Ok(mesh), &black()),
        Err(DrawError::Geometry(BatchError::CapacityExceeded))
    );
    let mesh = Mesh { positions: vec![Point { x: 0, y: 0 }; 100000], indices: vec![99999; 100000] };
    assert_eq!(gfx.add_mesh(&Ok(mesh), &black()), Ok(()));
    assert_eq!(gfx.fill_tri(0, 0, 1, 0, 0, 1, &black()), Err(BatchError::CapacityExceeded));
}
