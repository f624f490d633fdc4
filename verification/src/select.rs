//! Chooses the character of one output cell: a gradient-direction
//! line glyph, or the nearest-neighbor match against the glyph
//! library.

use vstd::prelude::*;

use vstd::arithmetic::div_mod::lemma_fundamental_div_mod;

use crate::glyphs::GlyphSet;
use crate::img::{crop_seq, crop_image, luma, luma_at, luma_of, Image};
use crate::outside::{resize_catmull, resize_rgb};

verus! {

/// The distance between two numbers.
pub open spec fn abs_diff(a: int, b: int) -> int {
    if a >= b {
        a - b
    } else {
        b - a
    }
}

/// How far apart the two gradient sums may lie, and how weak they may
/// be, before a patch counts as flat.
pub const EDGE_THRESHOLD: u32 = 10;

/// The summed horizontal brightness change of patch row `r`: the
/// absolute luma differences of the first `k` horizontally adjacent
/// pixel pairs of that row.
pub open spec fn xgrad_row(px: Seq<u8>, w: int, ox: int, oy: int, r: int, k: int) -> int
    decreases k,
{
    if k <= 0 {
        0
    } else {
        xgrad_row(px, w, ox, oy, r, k - 1) + abs_diff(
            luma_at(px, w, ox + k, oy + r),
            luma_at(px, w, ox + k - 1, oy + r),
        )
    }
}

/// The summed horizontal brightness change of the first `rows` rows
/// of the 5-wide patch at (`ox`, `oy`).
pub open spec fn xgrad_upto(px: Seq<u8>, w: int, ox: int, oy: int, rows: int) -> int
    decreases rows,
{
    if rows <= 0 {
        0
    } else {
        xgrad_upto(px, w, ox, oy, rows - 1) + xgrad_row(px, w, ox, oy, rows - 1, 4)
    }
}

/// The horizontal gradient of the 5 by 5 patch at (`ox`, `oy`).
pub open spec fn x_grad(px: Seq<u8>, w: int, ox: int, oy: int) -> int {
    xgrad_upto(px, w, ox, oy, 5)
}

/// The summed vertical brightness change within patch row `r`: the
/// absolute luma differences between the first `k` pixels of row `r`
/// and the pixels below them.
pub open spec fn ygrad_row(px: Seq<u8>, w: int, ox: int, oy: int, r: int, k: int) -> int
    decreases k,
{
    if k <= 0 {
        0
    } else {
        ygrad_row(px, w, ox, oy, r, k - 1) + abs_diff(
            luma_at(px, w, ox + k - 1, oy + r + 1),
            luma_at(px, w, ox + k - 1, oy + r),
        )
    }
}

/// The summed vertical brightness change of the first `rows` pair
/// rows of the 5-wide patch at (`ox`, `oy`).
pub open spec fn ygrad_upto(px: Seq<u8>, w: int, ox: int, oy: int, rows: int) -> int
    decreases rows,
{
    if rows <= 0 {
        0
    } else {
        ygrad_upto(px, w, ox, oy, rows - 1) + ygrad_row(px, w, ox, oy, rows - 1, 5)
    }
}

/// The vertical gradient of the 5 by 5 patch at (`ox`, `oy`).
pub open spec fn y_grad(px: Seq<u8>, w: int, ox: int, oy: int) -> int {
    ygrad_upto(px, w, ox, oy, 4)
}

/// The summed luma of the first `k` pixels of patch row `r`.
pub open spec fn lum_row(px: Seq<u8>, w: int, ox: int, oy: int, r: int, k: int) -> int
    decreases k,
{
    if k <= 0 {
        0
    } else {
        lum_row(px, w, ox, oy, r, k - 1) + luma_at(px, w, ox + k - 1, oy + r)
    }
}

/// The summed luma of the first `rows` rows of the 5-wide patch at
/// (`ox`, `oy`).
pub open spec fn lum_upto(px: Seq<u8>, w: int, ox: int, oy: int, rows: int) -> int
    decreases rows,
{
    if rows <= 0 {
        0
    } else {
        lum_upto(px, w, ox, oy, rows - 1) + lum_row(px, w, ox, oy, rows - 1, 5)
    }
}

/// The summed luma of the 5 by 5 patch at (`ox`, `oy`).
pub open spec fn lum_sum(px: Seq<u8>, w: int, ox: int, oy: int) -> int {
    lum_upto(px, w, ox, oy, 5)
}

/// The line-mode decision over the two gradient sums and the summed
/// luma of the patch, in priority order: a flat dark patch (both
/// gradients under the edge threshold, mean luma under half the full
/// scale) is `'.'`; horizontal change dominating is `'|'`; vertical
/// change dominating is `'-'`; equal gradients both over the
/// threshold are `'+'`; anything left is `'#'`.
pub open spec fn line_decision(xg: int, yg: int, ls: int) -> char {
    if xg < EDGE_THRESHOLD && yg < EDGE_THRESHOLD && 2 * ls < 255 * 25 {
        '.'
    } else if xg > yg {
        '|'
    } else if xg < yg {
        '-'
    } else if abs_diff(xg, yg) <= EDGE_THRESHOLD && xg > EDGE_THRESHOLD && yg > EDGE_THRESHOLD {
        '+'
    } else {
        '#'
    }
}

/// The line-mode character of output cell (`x`, `y`): the decision
/// over the fixed 5 by 5 source patch whose top-left pixel is
/// (`x * (w / ow)`, `y * (h / oh)`), or `' '` where that patch would
/// reach past the source edges.
pub open spec fn line_char_spec(
    px: Seq<u8>,
    w: int,
    h: int,
    x: int,
    y: int,
    ow: int,
    oh: int,
) -> char {
    let ox = x * (w / ow);
    let oy = y * (h / oh);
    if ox + 5 > w || oy + 5 > h {
        ' '
    } else {
        line_decision(x_grad(px, w, ox, oy), y_grad(px, w, ox, oy), lum_sum(px, w, ox, oy))
    }
}

/// The brightness of pixel `k` of a raster-order RGB byte sequence.
pub open spec fn luma_flat(s: Seq<u8>, k: int) -> int {
    luma_of(s[3 * k], s[3 * k + 1], s[3 * k + 2])
}

/// The summed absolute luma difference of the first `n` pixels of two
/// equally laid out RGB byte sequences.
pub open spec fn lum_dist(a: Seq<u8>, b: Seq<u8>, n: int) -> int
    decreases n,
{
    if n <= 0 {
        0
    } else {
        lum_dist(a, b, n - 1) + abs_diff(luma_flat(a, n - 1), luma_flat(b, n - 1))
    }
}

pub proof fn lemma_lum_dist_bound(a: Seq<u8>, b: Seq<u8>, n: int)
    requires
        n >= 0,
    ensures
        0 <= lum_dist(a, b, n) <= 255 * n,
    decreases n,
{
    if n > 0 {
        lemma_lum_dist_bound(a, b, n - 1);
    }
}

/// The index of the glyph nearest to `patch` in summed luma distance
/// over `npx` pixels, among the first `n` glyphs; an equally near
/// later glyph never displaces an earlier one.
pub open spec fn best_glyph_upto(patch: Seq<u8>, gs: Seq<Seq<u8>>, npx: int, n: int) -> int
    decreases n,
{
    if n <= 1 {
        0
    } else {
        let b = best_glyph_upto(patch, gs, npx, n - 1);
        if lum_dist(patch, gs[n - 1], npx) < lum_dist(patch, gs[b], npx) {
            n - 1
        } else {
            b
        }
    }
}

/// `best_glyph_upto` is the first index of minimum distance among the
/// first `n` glyphs.
pub proof fn lemma_best_glyph_is_min(patch: Seq<u8>, gs: Seq<Seq<u8>>, npx: int, n: int)
    requires
        1 <= n,
    ensures
        0 <= best_glyph_upto(patch, gs, npx, n) < n,
        forall|j: int|
            0 <= j < n ==> lum_dist(patch, gs[best_glyph_upto(patch, gs, npx, n)], npx)
                <= #[trigger] lum_dist(patch, gs[j], npx),
        forall|j: int|
            0 <= j < best_glyph_upto(patch, gs, npx, n) ==> lum_dist(
                patch,
                gs[best_glyph_upto(patch, gs, npx, n)],
                npx,
            ) < #[trigger] lum_dist(patch, gs[j], npx),
    decreases n,
{
    if n > 1 {
        lemma_best_glyph_is_min(patch, gs, npx, n - 1);
    }
}

/// A glyph set holding an exact duplicate of the sampled patch wins
/// with distance zero: the chosen glyph lies at distance zero from
/// the patch, and no later glyph can have displaced the duplicate.
pub proof fn lemma_exact_glyph_zero_distance(patch: Seq<u8>, gs: Seq<Seq<u8>>, npx: int, j: int)
    requires
        npx >= 0,
        0 <= j < 94,
        lum_dist(patch, gs[j], npx) == 0,
    ensures
        lum_dist(patch, gs[best_glyph_upto(patch, gs, npx, 94)], npx) == 0,
        best_glyph_upto(patch, gs, npx, 94) <= j,
{
    lemma_best_glyph_is_min(patch, gs, npx, 94);
    let b = best_glyph_upto(patch, gs, npx, 94);
    lemma_lum_dist_bound(patch, gs[b], npx);
    if b > j {
        assert(lum_dist(patch, gs[b], npx) < lum_dist(patch, gs[j], npx));
        assert(false);
    }
}

/// The art-mode character of output cell (`x`, `y`): the source patch
/// of cell (`x`, `y`) is resampled to the glyph size and the glyph of
/// least summed luma distance wins, the lowest code point keeping
/// ties; `' '` where the integer patch size collapses to nothing.
pub open spec fn art_char_spec(
    px: Seq<u8>,
    w: int,
    h: int,
    x: int,
    y: int,
    ow: int,
    oh: int,
    gs: Seq<Seq<u8>>,
    gw: int,
    gh: int,
) -> char {
    let pw = w / ow;
    let ph = h / oh;
    if pw <= 0 || ph <= 0 {
        ' '
    } else {
        let patch = resize_rgb(crop_seq(px, w, x * pw, y * ph, pw, ph), pw, ph, gw, gh);
        (32 + best_glyph_upto(patch, gs, gw * gh, 94)) as char
    }
}

/// The first `x + 1` cell patches of width `w / ow` fit side by side
/// within the source width.
pub proof fn lemma_patch_fits(iw: int, ow: int, x: int)
    requires
        1 <= ow,
        0 <= x < ow,
        0 <= iw,
    ensures
        0 <= x * (iw / ow),
        x * (iw / ow) + iw / ow <= iw,
{
    lemma_fundamental_div_mod(iw, ow);
    assert(0 <= x * (iw / ow) && x * (iw / ow) + iw / ow <= ow * (iw / ow)) by (nonlinear_arith)
        requires
            0 <= x < ow,
            iw / ow >= 0,
    ;
    assert(ow * (iw / ow) <= iw);
}

/// The summed absolute luma difference between two images of one
/// size, pixel by pixel.
fn lum_dist_exec(a: &Image, b: &Image) -> (d: usize)
    requires
        a.wf(),
        b.wf(),
        a.width == b.width,
        a.height == b.height,
        255 * (a.width as int) * (a.height as int) <= usize::MAX as int,
    ensures
        d == lum_dist(a.pixels@, b.pixels@, (a.width as int) * (a.height as int)),
{
    let ghost npx_total = (a.width as int) * (a.height as int);
    let count: usize = a.pixels.len() / 3;
    proof {
        assert(3 * npx_total == 3 * (a.width as int) * (a.height as int) && 255 * npx_total == 255
            * (a.width as int) * (a.height as int)) by (nonlinear_arith)
            requires
                npx_total == (a.width as int) * (a.height as int),
        ;
        assert(count == npx_total);
        assert(b.pixels@.len() == 3 * npx_total) by (nonlinear_arith)
            requires
                npx_total == (b.width as int) * (b.height as int),
                b.pixels@.len() == 3 * (b.width as int) * (b.height as int),
        ;
    }
    let mut d: usize = 0;
    let mut k: usize = 0;
    while k < count
        invariant
            a.wf(),
            b.wf(),
            a.width == b.width,
            a.height == b.height,
            npx_total == (a.width as int) * (a.height as int),
            255 * npx_total <= usize::MAX as int,
            a.pixels@.len() == 3 * npx_total,
            b.pixels@.len() == 3 * npx_total,
            count == npx_total,
            k <= count,
            d == lum_dist(a.pixels@, b.pixels@, k as int),
        decreases count - k,
    {
        proof {
            lemma_lum_dist_bound(a.pixels@, b.pixels@, k as int);
        }
        let la: u8 = luma(a.pixels[3 * k], a.pixels[3 * k + 1], a.pixels[3 * k + 2]);
        let lb: u8 = luma(b.pixels[3 * k], b.pixels[3 * k + 1], b.pixels[3 * k + 2]);
        let step: usize = if la >= lb {
            (la - lb) as usize
        } else {
            (lb - la) as usize
        };
        proof {
            assert(255 * (k as int + 1) <= 255 * npx_total) by (nonlinear_arith)
                requires
                    k as int + 1 <= npx_total,
            ;
        }
        d = d + step;
        k = k + 1;
    }
    d
}

/// The index of the glyph whose bitmap lies nearest to `patch` in
/// summed per-pixel luma distance; of equally near glyphs the lowest
/// code point wins.
pub fn best_glyph_index(patch: &Image, glyphs: &GlyphSet) -> (r: usize)
    requires
        patch.wf(),
        glyphs.wf(),
        patch.width == glyphs.glyph_width,
        patch.height == glyphs.glyph_height,
    ensures
        r < 94,
        r as int == best_glyph_upto(
            patch.pixels@,
            glyphs.views(),
            (patch.width as int) * (patch.height as int),
            94,
        ),
{
    let ghost npx = (patch.width as int) * (patch.height as int);
    let mut best: usize = 0;
    let mut best_dist: usize = lum_dist_exec(patch, &glyphs.glyphs[0]);
    let mut i: usize = 1;
    while i < 94
        invariant
            patch.wf(),
            glyphs.wf(),
            patch.width == glyphs.glyph_width,
            patch.height == glyphs.glyph_height,
            npx == (patch.width as int) * (patch.height as int),
            1 <= i <= 94,
            best < i,
            best as int == best_glyph_upto(patch.pixels@, glyphs.views(), npx, i as int),
            best_dist == lum_dist(patch.pixels@, glyphs.views()[best as int], npx),
        decreases 94 - i,
    {
        let d: usize = lum_dist_exec(patch, &glyphs.glyphs[i]);
        if d < best_dist {
            best = i;
            best_dist = d;
        }
        i = i + 1;
    }
    best
}

/// The art-mode character of output cell (`x`, `y`) of a `w` by `h`
/// cell grid over `input_image`: the cell's source patch, resampled
/// to the glyph size, is compared against every glyph and the nearest
/// wins.  A source too small for one integer patch pixel per cell
/// yields `' '` without sampling.  The result is fixed by the inputs
/// alone: two runs over equal inputs pick the same character.
pub fn find_best_character(
    x: u32,
    y: u32,
    w: u32,
    h: u32,
    input_image: &Image,
    characters: &GlyphSet,
) -> (r: char)
    requires
        input_image.wf(),
        characters.wf(),
        1 <= w,
        1 <= h,
        x < w,
        y < h,
    ensures
        r == art_char_spec(
            input_image.pixels@,
            input_image.width as int,
            input_image.height as int,
            x as int,
            y as int,
            w as int,
            h as int,
            characters.views(),
            characters.glyph_width as int,
            characters.glyph_height as int,
        ),
{
    let pw: u32 = input_image.width / w;
    let ph: u32 = input_image.height / h;
    if pw == 0 || ph == 0 {
        return ' ';
    }
    proof {
        lemma_patch_fits(input_image.width as int, w as int, x as int);
        lemma_patch_fits(input_image.height as int, h as int, y as int);
    }
    let patch_src = crop_image(input_image, x * pw, y * ph, pw, ph);
    let patch = resize_catmull(&patch_src, characters.glyph_width, characters.glyph_height);
    let idx = best_glyph_index(&patch, characters);
    let code: u8 = 32 + (idx as u8);
    proof {
        assert(code as int == 32 + best_glyph_upto(
            patch.pixels@,
            characters.views(),
            (characters.glyph_width as int) * (characters.glyph_height as int),
            94,
        ));
    }
    code as char
}

/// The line-mode character of output cell (`x`, `y`) of an `ow` by
/// `oh` cell grid over `img`: the decision over the gradients and
/// brightness of the fixed 5 by 5 source patch of that cell, or `' '`
/// for a patch reaching past the source edges.
pub fn line_char(img: &Image, x: u32, y: u32, ow: u32, oh: u32) -> (r: char)
    requires
        img.wf(),
        1 <= ow,
        1 <= oh,
        x < ow,
        y < oh,
    ensures
        r == line_char_spec(
            img.pixels@,
            img.width as int,
            img.height as int,
            x as int,
            y as int,
            ow as int,
            oh as int,
        ),
{
    let pw: u32 = img.width / ow;
    let ph: u32 = img.height / oh;
    proof {
        lemma_patch_fits(img.width as int, ow as int, x as int);
        lemma_patch_fits(img.height as int, oh as int, y as int);
    }
    let ox: u32 = x * pw;
    let oy: u32 = y * ph;
    if img.width < 5 || img.height < 5 || ox > img.width - 5 || oy > img.height - 5 {
        return ' ';
    }
    let ghost px = img.pixels@;
    let ghost iw = img.width as int;

    let mut xg: u32 = 0;
    let mut r: u32 = 0;
    while r < 5
        invariant
            img.wf(),
            px == img.pixels@,
            iw == img.width as int,
            ox + 5 <= img.width,
            oy + 5 <= img.height,
            r <= 5,
            xg == xgrad_upto(px, iw, ox as int, oy as int, r as int),
            xg <= 1020 * r,
        decreases 5 - r,
    {
        let mut c: u32 = 0;
        let mut row_acc: u32 = 0;
        while c < 4
            invariant
                img.wf(),
                px == img.pixels@,
                iw == img.width as int,
                ox + 5 <= img.width,
                oy + 5 <= img.height,
                r < 5,
                c <= 4,
                row_acc == xgrad_row(px, iw, ox as int, oy as int, r as int, c as int),
                row_acc <= 255 * c,
            decreases 4 - c,
        {
            let (a0, a1, a2) = img.get_rgb(ox + c + 1, oy + r);
            let (b0, b1, b2) = img.get_rgb(ox + c, oy + r);
            let la: u8 = luma(a0, a1, a2);
            let lb: u8 = luma(b0, b1, b2);
            let step: u32 = if la >= lb {
                (la - lb) as u32
            } else {
                (lb - la) as u32
            };
            row_acc = row_acc + step;
            c = c + 1;
        }
        xg = xg + row_acc;
        r = r + 1;
    }

    let mut yg: u32 = 0;
    let mut r2: u32 = 0;
    while r2 < 4
        invariant
            img.wf(),
            px == img.pixels@,
            iw == img.width as int,
            ox + 5 <= img.width,
            oy + 5 <= img.height,
            r2 <= 4,
            yg == ygrad_upto(px, iw, ox as int, oy as int, r2 as int),
            yg <= 1275 * r2,
        decreases 4 - r2,
    {
        let mut c: u32 = 0;
        let mut row_acc: u32 = 0;
        while c < 5
            invariant
                img.wf(),
                px == img.pixels@,
                iw == img.width as int,
                ox + 5 <= img.width,
                oy + 5 <= img.height,
                r2 < 4,
                c <= 5,
                row_acc == ygrad_row(px, iw, ox as int, oy as int, r2 as int, c as int),
                row_acc <= 255 * c,
            decreases 5 - c,
        {
            let (a0, a1, a2) = img.get_rgb(ox + c, oy + r2 + 1);
            let (b0, b1, b2) = img.get_rgb(ox + c, oy + r2);
            let la: u8 = luma(a0, a1, a2);
            let lb: u8 = luma(b0, b1, b2);
            let step: u32 = if la >= lb {
                (la - lb) as u32
            } else {
                (lb - la) as u32
            };
            row_acc = row_acc + step;
            c = c + 1;
        }
        yg = yg + row_acc;
        r2 = r2 + 1;
    }

    let mut ls: u32 = 0;
    let mut r3: u32 = 0;
    while r3 < 5
        invariant
            img.wf(),
            px == img.pixels@,
            iw == img.width as int,
            ox + 5 <= img.width,
            oy + 5 <= img.height,
            r3 <= 5,
            ls == lum_upto(px, iw, ox as int, oy as int, r3 as int),
            ls <= 1275 * r3,
        decreases 5 - r3,
    {
        let mut c: u32 = 0;
        let mut row_acc: u32 = 0;
        while c < 5
            invariant
                img.wf(),
                px == img.pixels@,
                iw == img.width as int,
                ox + 5 <= img.width,
                oy + 5 <= img.height,
                r3 < 5,
                c <= 5,
                row_acc == lum_row(px, iw, ox as int, oy as int, r3 as int, c as int),
                row_acc <= 255 * c,
            decreases 5 - c,
        {
            let (a0, a1, a2) = img.get_rgb(ox + c, oy + r3);
            row_acc = row_acc + luma(a0, a1, a2) as u32;
            c = c + 1;
        }
        ls = ls + row_acc;
        r3 = r3 + 1;
    }

    if xg < EDGE_THRESHOLD && yg < EDGE_THRESHOLD && 2 * ls < 255 * 25 {
        '.'
    } else if xg > yg {
        '|'
    } else if xg < yg {
        '-'
    } else if (if xg >= yg {
        xg - yg
    } else {
        yg - xg
    }) <= EDGE_THRESHOLD && xg > EDGE_THRESHOLD && yg > EDGE_THRESHOLD {
        '+'
    } else {
        '#'
    }
}

} // verus!
