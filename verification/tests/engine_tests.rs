use catpicture::RenderError;
use catpicture::color::quantize;
use catpicture::dims::calculate_target_dimension;
use catpicture::glyphs::GlyphSet;
use catpicture::img::Image;
use catpicture::outside::load_image;
use catpicture::render::{render, DrawMode, RenderConfig};
use catpicture::select::{find_best_character, line_char};

fn text(v: Vec<char>) -> String {
    v.into_iter().collect()
}

fn solid(width: u32, height: u32, rgb: (u8, u8, u8)) -> Image {
    let mut pixels = Vec::new();
    for _ in 0..width * height {
        pixels.push(rgb.0);
        pixels.push(rgb.1);
        pixels.push(rgb.2);
    }
    Image { width, height, pixels }
}

/// A 94-glyph strip, one pixel per glyph, glyph `i` a grey ramp step.
fn ramp_glyphs() -> GlyphSet {
    let mut pixels = Vec::new();
    for i in 0..94u32 {
        let v = (i * 255 / 93) as u8;
        pixels.push(v);
        pixels.push(v);
        pixels.push(v);
    }
    let strip = Image { width: 94, height: 1, pixels };
    GlyphSet::load(&strip).unwrap()
}

fn config(mode: DrawMode, width: Option<u32>, height: Option<u32>) -> RenderConfig {
    RenderConfig {
        output_width: width,
        output_height: height,
        region: None,
        use_full_colors: false,
        force_grey: false,
        draw_mode: mode,
    }
}

#[test]
fn resolve_default_dims() {
    assert_eq!(calculate_target_dimension(None, None, 160, 90), Ok((80, 45)));
}

#[test]
fn resolve_width_only() {
    // 40 * 90 / 160 truncates from 22.5 to 22
    assert_eq!(calculate_target_dimension(Some(40), None, 160, 90), Ok((40, 22)));
}

#[test]
fn resolve_height_only() {
    assert_eq!(calculate_target_dimension(None, Some(45), 160, 90), Ok((80, 45)));
}

#[test]
fn resolve_both_given() {
    assert_eq!(calculate_target_dimension(Some(7), Some(9), 100, 100), Ok((7, 9)));
}

#[test]
fn resolve_zero_source_fails() {
    assert_eq!(
        calculate_target_dimension(None, None, 160, 0),
        Err(RenderError::InvalidImage)
    );
    assert_eq!(
        calculate_target_dimension(Some(1), Some(1), 0, 5),
        Err(RenderError::InvalidImage)
    );
}

#[test]
fn quantize_palette_extremes() {
    let out = quantize(Some((0, 0, 0)), Some((255, 255, 255)), 'x', false);
    assert_eq!(text(out), "\u{1B}[30m\u{1B}[47mx\u{1B}[0m");
}

#[test]
fn quantize_palette_exact_entries() {
    let palette: [(u8, u8, u8); 8] = [
        (0, 0, 0),
        (255, 0, 0),
        (0, 255, 0),
        (255, 255, 0),
        (0, 0, 255),
        (255, 0, 255),
        (0, 255, 255),
        (255, 255, 255),
    ];
    for (i, rgb) in palette.iter().enumerate() {
        let out = text(quantize(Some(*rgb), None, '#', false));
        let expected = format!("\u{1B}[{}m\u{1B}[49m#\u{1B}[0m", 30 + i);
        assert_eq!(out, expected);
    }
}

#[test]
fn quantize_truecolor_roundtrip() {
    let out = text(quantize(Some((12, 200, 7)), Some((9, 9, 9)), 'Z', true));
    assert_eq!(out, "\u{1B}[38;2;12;200;7mZ\u{1B}[0m");
}

#[test]
fn quantize_default_codes() {
    let out = text(quantize(None, None, 'q', false));
    assert_eq!(out, "\u{1B}[39m\u{1B}[49mq\u{1B}[0m");
}

#[test]
fn quantize_truecolor_no_foreground() {
    let out = text(quantize(None, Some((1, 2, 3)), 'b', true));
    assert_eq!(out, "b\u{1B}[0m");
}

#[test]
fn line_flat_dark_patch() {
    let img = solid(5, 5, (0, 0, 0));
    assert_eq!(line_char(&img, 0, 0, 1, 1), '.');
}

#[test]
fn line_horizontal_change() {
    // columns alternate black and white: horizontal luma change only
    let mut pixels = Vec::new();
    for _row in 0..5 {
        for col in 0..5 {
            let v = if col % 2 == 0 { 0u8 } else { 255u8 };
            pixels.push(v);
            pixels.push(v);
            pixels.push(v);
        }
    }
    let img = Image { width: 5, height: 5, pixels };
    assert_eq!(line_char(&img, 0, 0, 1, 1), '|');
}

#[test]
fn line_vertical_change() {
    let mut pixels = Vec::new();
    for row in 0..5 {
        for _col in 0..5 {
            let v = if row % 2 == 0 { 0u8 } else { 255u8 };
            pixels.push(v);
            pixels.push(v);
            pixels.push(v);
        }
    }
    let img = Image { width: 5, height: 5, pixels };
    assert_eq!(line_char(&img, 0, 0, 1, 1), '-');
}

#[test]
fn line_boundary_blank() {
    let img = solid(4, 4, (200, 200, 200));
    assert_eq!(line_char(&img, 0, 0, 1, 1), ' ');
}

#[test]
fn art_exact_duplicate_wins() {
    let glyphs = ramp_glyphs();
    // glyph 10 is the grey level 10 * 255 / 93
    let v = (10u32 * 255 / 93) as u8;
    let img = solid(1, 1, (v, v, v));
    let picked = find_best_character(0, 0, 1, 1, &img, &glyphs);
    assert_eq!(picked, char::from_u32(32 + 10).unwrap());
}

#[test]
fn art_selection_deterministic() {
    let glyphs = ramp_glyphs();
    let img = solid(3, 3, (77, 140, 3));
    let first = find_best_character(0, 0, 2, 2, &img, &glyphs);
    let second = find_best_character(0, 0, 2, 2, &img, &glyphs);
    assert_eq!(first, second);
}

#[test]
fn glyphs_malformed_strip() {
    let strip = solid(95, 1, (0, 0, 0));
    assert!(matches!(GlyphSet::load(&strip), Err(RenderError::MalformedGlyphSet)));
    let narrow = solid(47, 2, (0, 0, 0));
    assert!(matches!(GlyphSet::load(&narrow), Err(RenderError::MalformedGlyphSet)));
    let flat = solid(94, 0, (0, 0, 0));
    assert!(matches!(GlyphSet::load(&flat), Err(RenderError::MalformedGlyphSet)));
}

#[test]
fn glyphs_sliced_in_order() {
    let mut pixels = Vec::new();
    for i in 0..188u32 {
        let v = (i % 188) as u8;
        pixels.push(v);
        pixels.push(v);
        pixels.push(v);
    }
    let strip = Image { width: 188, height: 1, pixels };
    let set = GlyphSet::load(&strip).unwrap();
    assert_eq!(set.glyph_width, 2);
    assert_eq!(set.glyph_height, 1);
    assert_eq!(set.glyphs.len(), 94);
    // glyph 3 holds strip pixels 6 and 7
    assert_eq!(set.glyphs[3].pixels, vec![6, 6, 6, 7, 7, 7]);
}

#[test]
fn render_block_red_two_cells() {
    let img = solid(2, 2, (255, 0, 0));
    let glyphs = ramp_glyphs();
    let cfg = config(DrawMode::Block, Some(2), Some(1));
    let out = text(render(&img, &glyphs, &cfg).unwrap());
    assert_eq!(
        out,
        "\u{1B}[39m\u{1B}[41m \u{1B}[0m\u{1B}[39m\u{1B}[41m \u{1B}[0m\n"
    );
}

#[test]
fn render_fixed_char_grey_black() {
    let img = solid(1, 1, (0, 0, 0));
    let glyphs = ramp_glyphs();
    let mut cfg = config(DrawMode::FixedChar('#'), Some(1), Some(1));
    cfg.force_grey = true;
    let out = text(render(&img, &glyphs, &cfg).unwrap());
    assert_eq!(out, "\u{1B}[30m\u{1B}[49m#\u{1B}[0m\n");
}

#[test]
fn render_invalid_region() {
    let img = solid(4, 4, (10, 10, 10));
    let glyphs = ramp_glyphs();
    let mut cfg = config(DrawMode::Block, Some(1), Some(1));
    cfg.region = Some((3, 0, 2, 1));
    assert_eq!(render(&img, &glyphs, &cfg), Err(RenderError::InvalidConfiguration));
    cfg.region = Some((0, 0, 5, 4));
    assert_eq!(render(&img, &glyphs, &cfg), Err(RenderError::InvalidConfiguration));
}

#[test]
fn render_region_cropped() {
    // left half black, right half white; crop to the right half
    let mut pixels = Vec::new();
    for _row in 0..2 {
        for col in 0..2 {
            let v = if col == 0 { 0u8 } else { 255u8 };
            pixels.push(v);
            pixels.push(v);
            pixels.push(v);
        }
    }
    let img = Image { width: 2, height: 2, pixels };
    let glyphs = ramp_glyphs();
    let mut cfg = config(DrawMode::Block, Some(1), Some(1));
    cfg.region = Some((1, 0, 2, 2));
    let out = text(render(&img, &glyphs, &cfg).unwrap());
    assert_eq!(out, "\u{1B}[39m\u{1B}[47m \u{1B}[0m\n");
}

#[test]
fn render_zero_target_dimension() {
    let img = solid(100, 1, (0, 0, 0));
    let glyphs = ramp_glyphs();
    let cfg = config(DrawMode::Block, Some(1), None);
    assert_eq!(render(&img, &glyphs, &cfg), Err(RenderError::InvalidConfiguration));
}

#[test]
fn render_zero_area_image() {
    let img = Image { width: 0, height: 0, pixels: Vec::new() };
    let glyphs = ramp_glyphs();
    let cfg = config(DrawMode::Block, Some(1), Some(1));
    assert_eq!(render(&img, &glyphs, &cfg), Err(RenderError::InvalidImage));
}

#[test]
fn render_resamples_source() {
    // one white pixel followed by two black ones, collapsed to one
    // cell: the mixed color is dark, so the background quantizes to
    // black, not to the white of the leading pixel
    let img = Image {
        width: 3,
        height: 1,
        pixels: vec![255, 255, 255, 0, 0, 0, 0, 0, 0],
    };
    let glyphs = ramp_glyphs();
    let cfg = config(DrawMode::Block, Some(1), Some(1));
    let out = text(render(&img, &glyphs, &cfg).unwrap());
    assert_eq!(out, "\u{1B}[39m\u{1B}[40m \u{1B}[0m\n");
}

#[test]
fn decode_rejects_garbage() {
    let bytes = b"certainly not an image".to_vec();
    assert!(matches!(load_image(&bytes), Err(RenderError::ImageDecodeError)));
}

#[test]
fn decode_ppm_pixels() {
    let mut bytes: Vec<u8> = b"P6\n2 1\n255\n".to_vec();
    bytes.extend_from_slice(&[1, 2, 3, 4, 5, 6]);
    let img = load_image(&bytes).unwrap();
    assert_eq!(img.width, 2);
    assert_eq!(img.height, 1);
    assert_eq!(img.pixels, vec![1, 2, 3, 4, 5, 6]);
}

#[test]
fn art_tie_keeps_first_glyph() {
    // two glyph cells share one bitmap; the lower code point wins
    let mut pixels = Vec::new();
    for i in 0..94u32 {
        let v = if i == 5 || i == 6 { 200u8 } else { (i % 5) as u8 };
        pixels.push(v);
        pixels.push(v);
        pixels.push(v);
    }
    let strip = Image { width: 94, height: 1, pixels };
    let glyphs = GlyphSet::load(&strip).unwrap();
    let img = solid(1, 1, (200, 200, 200));
    let picked = find_best_character(0, 0, 1, 1, &img, &glyphs);
    assert_eq!(picked, char::from_u32(32 + 5).unwrap());
}

#[test]
fn art_collapsed_patch_blank() {
    let glyphs = ramp_glyphs();
    let img = solid(1, 1, (9, 9, 9));
    // a 2x2 cell grid over a single pixel leaves no patch per cell
    assert_eq!(find_best_character(1, 1, 2, 2, &img, &glyphs), ' ');
}

#[test]
fn render_line_mode_dark_dot() {
    let img = solid(5, 5, (0, 0, 0));
    let glyphs = ramp_glyphs();
    let cfg = config(DrawMode::Line, Some(1), Some(1));
    let out = text(render(&img, &glyphs, &cfg).unwrap());
    assert_eq!(out, "\u{1B}[30m\u{1B}[49m.\u{1B}[0m\n");
}

#[test]
fn render_art_mode_nearest_ramp_glyph() {
    let img = solid(5, 5, (100, 100, 100));
    let glyphs = ramp_glyphs();
    let cfg = config(DrawMode::Art, Some(1), Some(1));
    let out = text(render(&img, &glyphs, &cfg).unwrap());
    // ramp glyph 37 has grey level 101, the closest to 100;
    // code point 32 + 37 is 'E'
    assert_eq!(out, "\u{1B}[30m\u{1B}[49mE\u{1B}[0m\n");
}

#[test]
fn glyph_at_returns_slice() {
    let glyphs = ramp_glyphs();
    let g = glyphs.glyph_at(93);
    assert_eq!(g.width, 1);
    assert_eq!(g.height, 1);
    assert_eq!(g.pixels, vec![255, 255, 255]);
}
