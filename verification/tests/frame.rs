use diode::batch::GeometryBuffer;
use diode::fixed::ONE;
use diode::geometry::{Color, Rect};
use diode::graphics::Graphics;
use diode::ui::UI;

#[test]
fn index_bytes_are_four_for_each_index_in_machine_order() {
    let mut gfx = Graphics::init(800, 600, ONE);
    let white = Color::rgb(ONE, ONE, ONE);
    gfx.fill_rect(0, 0, ONE, ONE, &white).unwrap();
    gfx.fill_tri(0, 0, ONE, 0, 0, ONE, &white).unwrap();
    let frame = gfx.commit_geom();
    let expected: Vec<u8> = frame.indices.iter().flat_map(|index| index.to_ne_bytes()).collect();
    assert_eq!(frame.index_bytes, expected);
    assert_eq!(frame.index_bytes.len(), 36);
}

#[test]
fn index_bytes_keep_every_byte_of_an_index() {
    let mut buffer = GeometryBuffer::new(100000, 10);
    let corner = diode::geometry::make_vertex(0, 0, 0, 0, &Color::rgb(0, 0, 0));
    buffer.add_geom(&vec![corner; 70000], &[0x0000_0201, 0x0001_0000, 0]).unwrap();
    let frame = buffer.commit_geom();
    let low_first = vec![1, 2, 0, 0, 0, 0, 1, 0, 0, 0, 0, 0];
    let high_first = vec![0, 0, 2, 1, 0, 1, 0, 0, 0, 0, 0, 0];
    assert!(frame.index_bytes == low_first || frame.index_bytes == high_first);
    let empty = buffer.commit_geom();
    assert!(empty.index_bytes.is_empty());
}

#[test]
fn a_window_is_made_when_it_is_first_shown() {
    let mut ui = UI::new();
    assert_eq!(ui.bounds(7), None);
    assert!(ui.window("first", 300 * ONE, 200 * ONE, 7));
    assert_eq!(
        ui.bounds(7),
        Some(Rect { x1: 100 * ONE, y1: 100 * ONE, x2: 300 * ONE, y2: 200 * ONE })
    );
    assert!(!ui.window("again", 10 * ONE, 10 * ONE, 7));
    assert_eq!(
        ui.bounds(7),
        Some(Rect { x1: 100 * ONE, y1: 100 * ONE, x2: 300 * ONE, y2: 200 * ONE })
    );
    assert!(ui.window("second", 10 * ONE, 20 * ONE, 8));
    assert_eq!(ui.bounds(8), Some(Rect::new(100 * ONE, 100 * ONE, 10 * ONE, 20 * ONE)));
    assert_eq!(ui.bounds(9), None);
}
