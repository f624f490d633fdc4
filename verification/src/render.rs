//! The orchestrator: crops and resamples the source, walks the output
//! cells in raster order, and assembles the escape-coded character
//! grid.

use vstd::prelude::*;

use crate::RenderError;
use crate::color::{cell_escape, quantize_into};
use crate::dims::{calculate_target_dimension, dims_result};
use crate::glyphs::GlyphSet;
use crate::img::{chan_at, crop_seq, crop_image, luma, luma_of, Image};
use crate::outside::{resize_catmull, resize_rgb};
use crate::select::{art_char_spec, find_best_character, line_char, line_char_spec};

verus! {

/// How the character of each output cell is chosen.
#[derive(Clone, Copy, Debug, PartialEq, Eq, Structural)]
pub enum DrawMode {
    /// Every cell is a space; the cell's color is carried by the
    /// background.
    Block,
    /// Every cell is the one given character; the color is carried by
    /// the foreground.
    FixedChar(char),
    /// Each cell is a line glyph chosen from the gradient direction
    /// of its source patch.
    Line,
    /// Each cell is the nearest-neighbor glyph match of its source
    /// patch.
    Art,
}

/// One render run's configuration.
#[derive(Clone, Copy, Debug)]
pub struct RenderConfig {
    /// The requested output width in cells, if any.
    pub output_width: Option<u32>,
    /// The requested output height in cells, if any.
    pub output_height: Option<u32>,
    /// An optional crop rectangle (left, top, right, bottom) in
    /// source pixel coordinates, applied before resampling.
    pub region: Option<(u32, u32, u32, u32)>,
    /// Emit 24-bit color escapes instead of quantizing to the fixed
    /// palette.
    pub use_full_colors: bool,
    /// Desaturate each cell's color to grey by averaging channels.
    pub force_grey: bool,
    /// The character strategy.
    pub draw_mode: DrawMode,
}

/// The grey obtained by averaging a color's channels.
pub open spec fn grey_of(c: (u8, u8, u8)) -> (u8, u8, u8) {
    (
        luma_of(c.0, c.1, c.2) as u8,
        luma_of(c.0, c.1, c.2) as u8,
        luma_of(c.0, c.1, c.2) as u8,
    )
}

/// The color of output cell (`x`, `y`): the resampled image's pixel
/// there, desaturated when `grey` is set.
pub open spec fn cell_color(res: Seq<u8>, tw: int, x: int, y: int, grey: bool) -> (u8, u8, u8) {
    let c = (chan_at(res, tw, x, y, 0), chan_at(res, tw, x, y, 1), chan_at(res, tw, x, y, 2));
    if grey {
        grey_of(c)
    } else {
        c
    }
}

/// The character of output cell (`x`, `y`) under `mode`, sampling the
/// cropped source `src` for the patch-based modes.
pub open spec fn cell_char(
    src: Seq<u8>,
    iw: int,
    ih: int,
    x: int,
    y: int,
    tw: int,
    th: int,
    mode: DrawMode,
    gs: Seq<Seq<u8>>,
    gw: int,
    gh: int,
) -> char {
    match mode {
        DrawMode::Block => ' ',
        DrawMode::FixedChar(c) => c,
        DrawMode::Line => line_char_spec(src, iw, ih, x, y, tw, th),
        DrawMode::Art => art_char_spec(src, iw, ih, x, y, tw, th, gs, gw, gh),
    }
}

/// The full text of output cell (`x`, `y`): in `Block` mode the color
/// rides on the background and the foreground stays the terminal
/// default; in every other mode on the foreground, with the
/// background left default.
pub open spec fn cell_text(
    res: Seq<u8>,
    src: Seq<u8>,
    iw: int,
    ih: int,
    x: int,
    y: int,
    tw: int,
    th: int,
    cfg: RenderConfig,
    gs: Seq<Seq<u8>>,
    gw: int,
    gh: int,
) -> Seq<char> {
    let rgb = cell_color(res, tw, x, y, cfg.force_grey);
    let ch = cell_char(src, iw, ih, x, y, tw, th, cfg.draw_mode, gs, gw, gh);
    match cfg.draw_mode {
        DrawMode::Block => cell_escape(None, Some(rgb), ch, cfg.use_full_colors),
        _ => cell_escape(Some(rgb), None, ch, cfg.use_full_colors),
    }
}

/// The concatenated text of the first `n` cells of row `y`.
pub open spec fn row_text(
    res: Seq<u8>,
    src: Seq<u8>,
    iw: int,
    ih: int,
    y: int,
    tw: int,
    th: int,
    cfg: RenderConfig,
    gs: Seq<Seq<u8>>,
    gw: int,
    gh: int,
    n: int,
) -> Seq<char>
    decreases n,
{
    if n <= 0 {
        Seq::empty()
    } else {
        row_text(res, src, iw, ih, y, tw, th, cfg, gs, gw, gh, n - 1) + cell_text(
            res,
            src,
            iw,
            ih,
            n - 1,
            y,
            tw,
            th,
            cfg,
            gs,
            gw,
            gh,
        )
    }
}

/// The concatenated text of the first `rows` output rows, each ended
/// by one newline.
pub open spec fn grid_text(
    res: Seq<u8>,
    src: Seq<u8>,
    iw: int,
    ih: int,
    tw: int,
    th: int,
    cfg: RenderConfig,
    gs: Seq<Seq<u8>>,
    gw: int,
    gh: int,
    rows: int,
) -> Seq<char>
    decreases rows,
{
    if rows <= 0 {
        Seq::empty()
    } else {
        grid_text(res, src, iw, ih, tw, th, cfg, gs, gw, gh, rows - 1) + row_text(
            res,
            src,
            iw,
            ih,
            rows - 1,
            tw,
            th,
            cfg,
            gs,
            gw,
            gh,
            tw,
        ) + seq!['\n']
    }
}

/// What a run with configuration `cfg` over an `iw` by `ih` source
/// does before any cell is drawn: the crop box (left, top, width,
/// height) and the output size (width, height), or the error.  A
/// zero-area source is `InvalidImage`; an output side that vanishes
/// or overflows, or a crop region that is empty, inverted or outside
/// the source, is `InvalidConfiguration`.
pub open spec fn render_plan(iw: int, ih: int, cfg: RenderConfig) -> Result<
    ((int, int, int, int), (int, int)),
    RenderError,
> {
    match dims_result(cfg.output_width, cfg.output_height, iw, ih) {
        Err(e) => Err(e),
        Ok((tw, th)) => {
            if tw < 1 || th < 1 {
                Err(RenderError::InvalidConfiguration)
            } else {
                match cfg.region {
                    None => Ok(((0, 0, iw, ih), (tw, th))),
                    Some((l, t, rr, b)) => {
                        if l < rr && t < b && rr <= iw && b <= ih {
                            Ok(((l as int, t as int, rr - l, b - t), (tw, th)))
                        } else {
                            Err(RenderError::InvalidConfiguration)
                        }
                    },
                }
            }
        },
    }
}

/// Renders `img` as an escape-coded character grid.
///
/// The output size is resolved from the configuration, the source is
/// cropped to the configured region and resampled to the output size
/// with a smooth filter, and the cells are walked in raster order:
/// each contributes its color escapes and character, and each row
/// ends with one newline.  The patch-based modes sample the cropped,
/// unresampled source.
pub fn render(img: &Image, characters: &GlyphSet, cfg: &RenderConfig) -> (r: Result<
    Vec<char>,
    RenderError,
>)
    requires
        img.wf(),
        characters.wf(),
    ensures
        match render_plan(img.width as int, img.height as int, *cfg) {
            Err(e) => r == Err::<Vec<char>, RenderError>(e),
            Ok((cbox, dims)) => r matches Ok(v) && v@ == grid_text(
                resize_rgb(
                    crop_seq(img.pixels@, img.width as int, cbox.0, cbox.1, cbox.2, cbox.3),
                    cbox.2,
                    cbox.3,
                    dims.0,
                    dims.1,
                ),
                crop_seq(img.pixels@, img.width as int, cbox.0, cbox.1, cbox.2, cbox.3),
                cbox.2,
                cbox.3,
                dims.0,
                dims.1,
                *cfg,
                characters.views(),
                characters.glyph_width as int,
                characters.glyph_height as int,
                dims.1,
            ),
        },
{
    let (tw, th) = match calculate_target_dimension(
        cfg.output_width,
        cfg.output_height,
        img.width,
        img.height,
    ) {
        Ok(p) => p,
        Err(e) => {
            return Err(e);
        },
    };
    if tw < 1 || th < 1 {
        return Err(RenderError::InvalidConfiguration);
    }
    let (left, top, cw, ch) = match cfg.region {
        None => (0u32, 0u32, img.width, img.height),
        Some((l, t, rr, b)) => {
            if !(l < rr && t < b && rr <= img.width && b <= img.height) {
                return Err(RenderError::InvalidConfiguration);
            }
            (l, t, rr - l, b - t)
        },
    };
    let cropped = crop_image(img, left, top, cw, ch);
    let resized = resize_catmull(&cropped, tw, th);
    let ghost res = resized.pixels@;
    let ghost src = cropped.pixels@;
    let ghost gsv = characters.views();
    let ghost gw = characters.glyph_width as int;
    let ghost gh = characters.glyph_height as int;

    let mut out: Vec<char> = Vec::new();
    let mut y: u32 = 0;
    while y < th
        invariant
            img.wf(),
            characters.wf(),
            cropped.wf(),
            cropped.width == cw,
            cropped.height == ch,
            src == cropped.pixels@,
            resized.wf(),
            resized.width == tw,
            resized.height == th,
            res == resized.pixels@,
            gsv == characters.views(),
            gw == characters.glyph_width as int,
            gh == characters.glyph_height as int,
            tw >= 1,
            th >= 1,
            cw >= 1,
            ch >= 1,
            y <= th,
            out@ == grid_text(res, src, cw as int, ch as int, tw as int, th as int, *cfg, gsv, gw, gh, y as int),
        decreases th - y,
    {
        let mut x: u32 = 0;
        while x < tw
            invariant
                img.wf(),
                characters.wf(),
                cropped.wf(),
                cropped.width == cw,
                cropped.height == ch,
                src == cropped.pixels@,
                resized.wf(),
                resized.width == tw,
                resized.height == th,
                res == resized.pixels@,
                gsv == characters.views(),
                gw == characters.glyph_width as int,
                gh == characters.glyph_height as int,
                tw >= 1,
                th >= 1,
                cw >= 1,
                ch >= 1,
                y < th,
                x <= tw,
                out@ == grid_text(res, src, cw as int, ch as int, tw as int, th as int, *cfg, gsv, gw, gh, y as int)
                    + row_text(res, src, cw as int, ch as int, y as int, tw as int, th as int, *cfg, gsv, gw, gh, x as int),
            decreases tw - x,
        {
            let (pr, pg, pb) = resized.get_rgb(x, y);
            let rgb: (u8, u8, u8) = if cfg.force_grey {
                let lm = luma(pr, pg, pb);
                (lm, lm, lm)
            } else {
                (pr, pg, pb)
            };
            proof {
                assert(rgb == cell_color(res, tw as int, x as int, y as int, cfg.force_grey));
            }
            match cfg.draw_mode {
                DrawMode::Block => {
                    quantize_into(&mut out, None, Some(rgb), ' ', cfg.use_full_colors);
                },
                DrawMode::FixedChar(c) => {
                    quantize_into(&mut out, Some(rgb), None, c, cfg.use_full_colors);
                },
                DrawMode::Line => {
                    let lc = line_char(&cropped, x, y, tw, th);
                    quantize_into(&mut out, Some(rgb), None, lc, cfg.use_full_colors);
                },
                DrawMode::Art => {
                    let ac = find_best_character(x, y, tw, th, &cropped, characters);
                    quantize_into(&mut out, Some(rgb), None, ac, cfg.use_full_colors);
                },
            }
            proof {
                let done = grid_text(res, src, cw as int, ch as int, tw as int, th as int, *cfg, gsv, gw, gh, y as int);
                let row_now = row_text(res, src, cw as int, ch as int, y as int, tw as int, th as int, *cfg, gsv, gw, gh, x as int);
                let row_next = row_text(res, src, cw as int, ch as int, y as int, tw as int, th as int, *cfg, gsv, gw, gh, x as int + 1);
                let cell = cell_text(res, src, cw as int, ch as int, x as int, y as int, tw as int, th as int, *cfg, gsv, gw, gh);
                assert(row_next == row_now + cell);
                assert(out@ =~= (done + row_now) + cell);
                assert(out@ =~= done + row_next);
            }
            x = x + 1;
        }
        out.push('\n');
        proof {
            let done = grid_text(res, src, cw as int, ch as int, tw as int, th as int, *cfg, gsv, gw, gh, y as int);
            let row_full = row_text(res, src, cw as int, ch as int, y as int, tw as int, th as int, *cfg, gsv, gw, gh, tw as int);
            let done_next = grid_text(res, src, cw as int, ch as int, tw as int, th as int, *cfg, gsv, gw, gh, y as int + 1);
            assert(done_next == done + row_full + seq!['\n']);
            assert(out@ =~= (done + row_full) + seq!['\n']);
            assert(out@ =~= done_next);
        }
        y = y + 1;
    }
    Ok(out)
}

} // verus!
