use diode::atlas::PixelRect;
use diode::context::Context;
use diode::fixed::ONE;
use diode::geometry::Color;
use diode::glyphs::{Coverage, Glyph, GlyphKey};
use diode::graphics::Graphics;
use diode::path::{Path, PathCommand, PathError, TessellationMode};
use diode::renderer::Renderer;
use diode::settings::AppSettings;
use diode::typeset::TextReport;

fn glyph(parent: char, x: i32) -> Glyph {
    Glyph {
        key: GlyphKey { font: 0, glyph_index: parent as u16, px: 40 * ONE },
        parent,
        x,
        y: 0,
        width: 3,
        height: 4,
    }
}

fn coverage(of: &Glyph) -> Coverage {
    Coverage { key: of.key, width: of.width, height: of.height, data: vec![200; 12] }
}

#[test]
fn the_renderer_caches_its_own_glyphs() {
    let mut ctx = Context { gfx: Graphics::init(800, 600, ONE), renderer: Renderer::new() };
    let color = Color::rgb(ONE, 0, ONE);
    let glyphs = vec![glyph('h', 0), glyph('i', 4), glyph('h', 8)];
    let wanted = ctx.renderer.glyphs_to_rasterize(&ctx.gfx, &glyphs);
    assert_eq!(wanted, glyphs[0..2].to_vec());
    let bitmaps: Vec<Coverage> = wanted.iter().map(coverage).collect();
    assert_eq!(
        ctx.renderer.draw_text(&mut ctx.gfx, &glyphs, &bitmaps, 100 * ONE, 100 * ONE, &color),
        Ok(TextReport { drawn: 3, missing: 0 })
    );
    assert!(ctx.renderer.glyphs_to_rasterize(&ctx.gfx, &glyphs).is_empty());
    // the cache of the graphics knows none of them
    assert_eq!(ctx.gfx.glyphs_to_rasterize(&glyphs, None), glyphs[0..2].to_vec());
    let uploads = ctx.gfx.take_uploads();
    assert_eq!(uploads.len(), 3);
    assert_eq!(uploads[2].rect, PixelRect { x: 4, y: 0, width: 3, height: 4 });
    let frame = ctx.gfx.commit_geom();
    assert_eq!(frame.vertices.len(), 12);
    assert_eq!(frame.vertices[0].pos, [100 * ONE, 100 * ONE]);
    assert_eq!(frame.vertices[8].pos, [108 * ONE, 100 * ONE]);
    assert_eq!(frame.vertices[0].uv, frame.vertices[8].uv);
    assert_eq!(frame.vertices[0].color, [ONE, 0, ONE, ONE]);
}

#[test]
fn the_renderer_fills_rectangles_in_the_frame_of_the_graphics() {
    let mut gfx = Graphics::init(800, 600, ONE);
    let mut renderer = Renderer::new();
    let red = Color::rgba(ONE, 0, 0, ONE / 2);
    assert_eq!(renderer.fill_rect(&mut gfx, 50 * ONE, 70 * ONE, 200 * ONE, 300 * ONE, &red), Ok(()));
    let frame = gfx.commit_geom();
    assert_eq!(frame.indices, vec![0, 1, 2, 0, 2, 3]);
    assert_eq!(frame.vertices[1].pos, [50 * ONE, 300 * ONE]);
    assert_eq!(frame.vertices[3].pos, [200 * ONE, 70 * ONE]);
}

#[test]
fn the_renderer_asks_for_strokes_and_fillings() {
    let renderer = Renderer::new();
    let color = Color::rgb(0, 0, 0);
    let commands = vec![
        PathCommand::MoveTo { x: 0, y: 0 },
        PathCommand::LineTo { x: ONE, y: ONE },
        PathCommand::Close,
    ];
    let job = renderer.stroke_path(Path { commands: commands.clone() }, &color).unwrap();
    assert_eq!(job.mode, TessellationMode::Stroke);
    assert_eq!(job.path.commands, commands);
    assert_eq!(job.color, color);
    let job = renderer.fill_path(Path { commands: commands.clone() }, &color).unwrap();
    assert_eq!(job.mode, TessellationMode::Fill);
    let open = Path { commands: commands[0..2].to_vec() };
    assert_eq!(renderer.stroke_path(open, &color), Err(PathError::Malformed));
    let open = Path { commands: commands[1..].to_vec() };
    assert_eq!(renderer.fill_path(open, &color), Err(PathError::Malformed));
}

#[test]
fn default_settings_are_a_window_of_800_by_600() {
    let settings = AppSettings::default();
    assert_eq!(settings.title, "App");
    assert_eq!(settings.width, 800);
    assert_eq!(settings.height, 600);
}
