use diode::batch::{BatchError, DrawCall, GeometryBuffer, MAX_N_INDICES, MAX_N_VERTICES};
use diode::fixed::ONE;
use diode::geometry::{make_vertex, Color, Rect, Vertex};
use diode::graphics::Graphics;

fn white() -> Color {
    Color::rgb(ONE, ONE, ONE)
}

fn corner(x: i32, y: i32) -> Vertex {
    make_vertex(x, y, 0, 0, &white())
}

#[test]
fn fill_rect_commit_render_draws_six_indices_over_four_vertices() {
    let mut gfx = Graphics::init(800, 600, ONE);
    assert_eq!(gfx.fill_rect(0, 0, 10 * ONE, 10 * ONE, &white()), Ok(()));
    let frame = gfx.commit_geom();
    assert_eq!(frame.vertices.len(), 4);
    assert_eq!(frame.indices, vec![0, 1, 2, 0, 2, 3]);
    for vertex in &frame.vertices {
        assert!(0 <= vertex.pos[0] && vertex.pos[0] <= 10 * ONE);
        assert!(0 <= vertex.pos[1] && vertex.pos[1] <= 10 * ONE);
        assert_eq!(vertex.uv, [0, 0]);
        assert_eq!(vertex.color, [ONE, ONE, ONE, ONE]);
    }
    assert_eq!(frame.vertices[0].pos, [0, 0]);
    assert_eq!(frame.vertices[1].pos, [0, 10 * ONE]);
    assert_eq!(frame.vertices[2].pos, [10 * ONE, 10 * ONE]);
    assert_eq!(frame.vertices[3].pos, [10 * ONE, 0]);
    let pass = gfx.render();
    assert_eq!(pass.draw, Some(DrawCall { first_index: 0, index_count: 6 }));
    assert_eq!(pass.clear, Color::rgba(0, 0, 0, 0));
    assert_eq!(pass.viewport, [800 * ONE, 600 * ONE]);
}

#[test]
fn render_without_geometry_clears_and_draws_nothing() {
    let mut gfx = Graphics::init(800, 600, ONE);
    assert_eq!(gfx.render().draw, None);
    gfx.commit_geom();
    let pass = gfx.render();
    assert_eq!(pass.draw, None);
    assert_eq!(pass.clear, Color::rgba(0, 0, 0, 0));
}

#[test]
fn commit_empties_the_frame_and_keeps_the_count() {
    let mut gfx = Graphics::init(800, 600, ONE);
    gfx.fill_tri(0, 0, ONE, 0, 0, ONE, &white()).unwrap();
    gfx.fill_rect(0, 0, ONE, ONE, &white()).unwrap();
    let frame = gfx.commit_geom();
    assert_eq!(frame.vertices.len(), 7);
    assert_eq!(frame.indices, vec![0, 1, 2, 3, 4, 5, 3, 5, 6]);
    assert_eq!(gfx.render().draw, Some(DrawCall { first_index: 0, index_count: 9 }));
    let next = gfx.commit_geom();
    assert!(next.vertices.is_empty());
    assert!(next.indices.is_empty());
    assert_eq!(gfx.render().draw, None);
}

#[test]
fn add_geom_moves_indices_up_by_the_vertex_count() {
    let mut buffer = GeometryBuffer::new(100, 100);
    let first = [corner(0, 0), corner(1, 0), corner(0, 1)];
    let second = [corner(5, 5), corner(6, 5), corner(5, 6), corner(6, 6)];
    assert_eq!(buffer.add_geom(&first, &[0, 1, 2]), Ok(()));
    assert_eq!(buffer.add_geom(&second, &[0, 1, 2, 1, 3, 2]), Ok(()));
    assert_eq!(buffer.vertex_count(), 7);
    assert_eq!(buffer.index_count(), 9);
    let indices: Vec<u32> = (0..9).map(|i| buffer.index(i).unwrap()).collect();
    assert_eq!(indices, vec![0, 1, 2, 3, 4, 5, 4, 6, 5]);
    assert_eq!(buffer.vertex(3), Some(corner(5, 5)));
    assert_eq!(buffer.vertex(7), None);
    assert_eq!(buffer.index(9), None);
    for i in 0..9 {
        assert!((buffer.index(i).unwrap() as usize) < buffer.vertex_count());
    }
}

#[test]
fn add_geom_refuses_an_index_without_a_vertex() {
    let mut buffer = GeometryBuffer::new(100, 100);
    let triangle = [corner(0, 0), corner(1, 0), corner(0, 1)];
    assert_eq!(buffer.add_geom(&triangle, &[0, 1, 3]), Err(BatchError::IndexOutOfRange));
    assert_eq!(buffer.vertex_count(), 0);
    assert_eq!(buffer.index_count(), 0);
    assert_eq!(buffer.add_geom(&[], &[0]), Err(BatchError::IndexOutOfRange));
    assert_eq!(buffer.add_geom(&[], &[]), Ok(()));
}

#[test]
fn add_geom_refuses_geometry_beyond_capacity() {
    let mut buffer = GeometryBuffer::new(4, 6);
    let triangle = [corner(0, 0), corner(1, 0), corner(0, 1)];
    assert_eq!(buffer.add_geom(&triangle, &[0, 1, 2]), Ok(()));
    assert_eq!(buffer.add_geom(&triangle, &[0, 1, 2]), Err(BatchError::CapacityExceeded));
    assert_eq!(buffer.vertex_count(), 3);
    assert_eq!(buffer.index_count(), 3);
    assert_eq!(buffer.add_geom(&[corner(2, 2)], &[0, 0, 0]), Ok(()));
    assert_eq!(buffer.add_geom(&[], &[]), Ok(()));
    assert_eq!(buffer.add_geom(&[], &[]), Ok(()));
    assert_eq!(buffer.vertex_count(), 4);
    assert_eq!(buffer.index_count(), 6);
    let mut narrow = GeometryBuffer::new(10, 2);
    assert_eq!(narrow.add_geom(&triangle, &[0, 1, 2]), Err(BatchError::CapacityExceeded));
    // an index out of range is reported before the capacity
    assert_eq!(narrow.add_geom(&triangle, &[0, 1, 7]), Err(BatchError::IndexOutOfRange));
}

#[test]
fn frame_holds_one_hundred_thousand_vertices_and_no_more() {
    let mut gfx = Graphics::init(800, 600, ONE);
    assert_eq!(MAX_N_VERTICES, 100000);
    assert_eq!(MAX_N_INDICES, 100000);
    // 16666 rectangles come to 99996 indices and 66664 vertices
    for _ in 0..16666 {
        assert_eq!(gfx.fill_rect(0, 0, ONE, ONE, &white()), Ok(()));
    }
    assert_eq!(gfx.fill_rect(0, 0, ONE, ONE, &white()), Err(BatchError::CapacityExceeded));
    assert_eq!(gfx.fill_tri(0, 0, ONE, 0, 0, ONE, &white()), Ok(()));
    assert_eq!(gfx.fill_tri(0, 0, ONE, 0, 0, ONE, &white()), Err(BatchError::CapacityExceeded));
    let frame = gfx.commit_geom();
    assert_eq!(frame.vertices.len(), 66667);
    assert_eq!(frame.indices.len(), 99999);
    assert!(frame.indices.iter().all(|&i| (i as usize) < frame.vertices.len()));
    assert_eq!(gfx.render().draw, Some(DrawCall { first_index: 0, index_count: 99999 }));
}

#[test]
fn fill_tri_draws_three_vertices() {
    let mut gfx = Graphics::init(800, 600, ONE);
    let red = Color::rgba(ONE, 0, 0, ONE / 2);
    assert_eq!(gfx.fill_tri(ONE, 2 * ONE, 3 * ONE, 4 * ONE, 5 * ONE, 6 * ONE, &red), Ok(()));
    let frame = gfx.commit_geom();
    assert_eq!(frame.indices, vec![0, 1, 2]);
    assert_eq!(
        frame.vertices,
        vec![
            Vertex { pos: [ONE, 2 * ONE], uv: [0, 0], color: [ONE, 0, 0, ONE / 2] },
            Vertex { pos: [3 * ONE, 4 * ONE], uv: [0, 0], color: [ONE, 0, 0, ONE / 2] },
            Vertex { pos: [5 * ONE, 6 * ONE], uv: [0, 0], color: [ONE, 0, 0, ONE / 2] },
        ]
    );
}

#[test]
fn colors_and_rects_are_built_from_their_parts() {
    assert_eq!(Color::rgb(1, 2, 3), Color { r: 1, g: 2, b: 3, a: ONE });
    assert_eq!(Color::rgba(1, 2, 3, 4), Color { r: 1, g: 2, b: 3, a: 4 });
    assert_eq!(Rect::new(1, 2, 3, 4), Rect { x1: 1, y1: 2, x2: 3, y2: 4 });
    assert_eq!(Rect::zero(), Rect { x1: 0, y1: 0, x2: 0, y2: 0 });
}

#[test]
fn capacity_beyond_a_32_bit_index_is_cut_down() {
    let buffer = GeometryBuffer::new(usize::MAX, 5);
    assert_eq!(buffer.vertex_capacity(), u32::MAX as usize);
    assert_eq!(buffer.index_capacity(), 5);
    assert_eq!(buffer.committed_index_count(), 0);
}
