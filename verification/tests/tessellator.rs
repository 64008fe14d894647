use diode::fixed::ONE;
use diode::geometry::Color;
use diode::graphics::Graphics;
use diode::path::{Mesh, PathCommand, PathError, PathJob, Point, TessellationMode};
use lyon::math::point;
use lyon::path::Path;
use lyon::tessellation::{
    BuffersBuilder, FillOptions, FillTessellator, FillVertex, StrokeOptions, StrokeTessellator,
    StrokeVertex, VertexBuffers,
};

fn to_float(value: i32) -> f32 {
    value as f32 / ONE as f32
}

fn to_fixed(value: f32) -> i32 {
    (value * ONE as f32).round() as i32
}

fn tessellate(job: &PathJob) -> Result<Mesh, PathError> {
    let mut builder = Path::builder();
    for command in &job.path.commands {
        match *command {
            PathCommand::MoveTo { x, y } => {
                builder.begin(point(to_float(x), to_float(y)));
            }
            PathCommand::LineTo { x, y } => {
                builder.line_to(point(to_float(x), to_float(y)));
            }
            PathCommand::Close => builder.end(true),
            PathCommand::End => builder.end(false),
        }
    }
    let path = builder.build();
    let mut geometry: VertexBuffers<Point, u32> = VertexBuffers::new();
    let done = match job.mode {
        TessellationMode::Stroke => StrokeTessellator::new().tessellate_path(
            &path,
            &StrokeOptions::default(),
            &mut BuffersBuilder::new(&mut geometry, |vertex: StrokeVertex| Point {
                x: to_fixed(vertex.position().x),
                y: to_fixed(vertex.position().y),
            }),
        ),
        TessellationMode::Fill => FillTessellator::new().tessellate_path(
            &path,
            &FillOptions::default(),
            &mut BuffersBuilder::new(&mut geometry, |vertex: FillVertex| Point {
                x: to_fixed(vertex.position().x),
                y: to_fixed(vertex.position().y),
            }),
        ),
    };
    match done {
        Ok(()) => Ok(Mesh { positions: geometry.vertices, indices: geometry.indices }),
        Err(_) => Err(PathError::Internal),
    }
}

#[test]
fn a_stroked_rectangle_goes_through_the_tessellator_into_the_frame() {
    let mut gfx = Graphics::init(800, 600, ONE);
    let color = Color::rgba(ONE, ONE, ONE, ONE / 10);
    let job = Graphics::draw_rect(50 * ONE, 70 * ONE, 200 * ONE, 300 * ONE, &color);
    let mesh = tessellate(&job);
    assert!(mesh.is_ok());
    assert_eq!(gfx.add_mesh(&mesh, &job.color), Ok(()));
    let frame = gfx.commit_geom();
    assert!(frame.indices.len() >= 24);
    assert_eq!(frame.indices.len() % 3, 0);
    assert!(frame.indices.iter().all(|&i| (i as usize) < frame.vertices.len()));
    for vertex in &frame.vertices {
        // a line of width one around the rectangle
        assert!(49 * ONE <= vertex.pos[0] && vertex.pos[0] <= 201 * ONE);
        assert!(69 * ONE <= vertex.pos[1] && vertex.pos[1] <= 301 * ONE);
        assert_eq!(vertex.uv, [0, 0]);
        assert_eq!(vertex.color, [ONE, ONE, ONE, ONE / 10]);
    }
}

#[test]
fn an_open_line_is_stroked_as_one_quad() {
    let mut gfx = Graphics::init(800, 600, ONE);
    let black = Color::rgb(0, 0, 0);
    let path = diode::path::Path {
        commands: vec![
            PathCommand::MoveTo { x: 10 * ONE, y: 20 * ONE },
            PathCommand::LineTo { x: 110 * ONE, y: 20 * ONE },
            PathCommand::End,
        ],
    };
    let job = Graphics::draw_path(path, &black).unwrap();
    assert_eq!(gfx.add_mesh(&tessellate(&job), &job.color), Ok(()));
    let frame = gfx.commit_geom();
    assert_eq!(frame.vertices.len(), 4);
    assert_eq!(frame.indices.len(), 6);
    let mut corners: Vec<[i32; 2]> = frame.vertices.iter().map(|v| v.pos).collect();
    corners.sort();
    // a line of width one, half of it on each side
    assert_eq!(
        corners,
        vec![
            [10 * ONE, 20 * ONE - ONE / 2],
            [10 * ONE, 20 * ONE + ONE / 2],
            [110 * ONE, 20 * ONE - ONE / 2],
            [110 * ONE, 20 * ONE + ONE / 2],
        ]
    );
}

#[test]
fn a_filled_triangle_goes_through_the_tessellator_into_the_frame() {
    let mut gfx = Graphics::init(800, 600, ONE);
    let cyan = Color::rgba(0, ONE, ONE, ONE);
    let path = diode::path::Path {
        commands: vec![
            PathCommand::MoveTo { x: 100 * ONE, y: 100 * ONE },
            PathCommand::LineTo { x: 200 * ONE, y: 200 * ONE },
            PathCommand::LineTo { x: 300 * ONE, y: 50 * ONE },
            PathCommand::Close,
        ],
    };
    let job = Graphics::fill_path(path, &cyan).unwrap();
    gfx.fill_rect(0, 0, ONE, ONE, &cyan).unwrap();
    assert_eq!(gfx.add_mesh(&tessellate(&job), &job.color), Ok(()));
    let frame = gfx.commit_geom();
    assert_eq!(frame.vertices.len(), 7);
    assert_eq!(frame.indices.len(), 9);
    assert!(frame.indices[6..].iter().all(|&i| 4 <= i && i < 7));
    let mut corners: Vec<[i32; 2]> = frame.vertices[4..].iter().map(|v| v.pos).collect();
    corners.sort();
    assert_eq!(
        corners,
        vec![[100 * ONE, 100 * ONE], [200 * ONE, 200 * ONE], [300 * ONE, 50 * ONE]]
    );
}
