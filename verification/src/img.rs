//! The pixel grid the rendering engine works on: rows of RGB bytes in
//! raster order, three bytes per pixel.

use vstd::prelude::*;

verus! {

/// A decoded raster image: `pixels` holds the rows top to bottom, each
/// pixel as red, green, blue bytes.
pub struct Image {
    pub width: u32,
    pub height: u32,
    pub pixels: Vec<u8>,
}

/// The channel byte of pixel (`x`, `y`) in a raster-order RGB byte
/// sequence of row length `w`; `c` is 0 for red, 1 for green, 2 for
/// blue.
pub open spec fn chan_at(px: Seq<u8>, w: int, x: int, y: int, c: int) -> u8 {
    px[3 * (y * w + x) + c]
}

/// The brightness of one pixel: the plain average of its channels,
/// on the 0..=255 scale, truncated toward zero.
pub open spec fn luma_of(r: u8, g: u8, b: u8) -> int {
    (r + g + b) / 3
}

/// The brightness of pixel (`x`, `y`) of a raster-order RGB byte
/// sequence of row length `w`.
pub open spec fn luma_at(px: Seq<u8>, w: int, x: int, y: int) -> int {
    luma_of(chan_at(px, w, x, y, 0), chan_at(px, w, x, y, 1), chan_at(px, w, x, y, 2))
}

/// One cropped row: the RGB bytes of pixels (`left`, `yy`) up to
/// (`left + n - 1`, `yy`) of a source with row length `w`.
pub open spec fn crop_row(px: Seq<u8>, w: int, left: int, yy: int, n: int) -> Seq<u8>
    decreases n,
{
    if n <= 0 {
        Seq::empty()
    } else {
        crop_row(px, w, left, yy, n - 1) + seq![
            chan_at(px, w, left + n - 1, yy, 0),
            chan_at(px, w, left + n - 1, yy, 1),
            chan_at(px, w, left + n - 1, yy, 2),
        ]
    }
}

/// The raster-order RGB bytes of the `cw` by `nrows` rectangle whose
/// top-left pixel is (`left`, `top`) in a source with row length `w`.
pub open spec fn crop_seq(px: Seq<u8>, w: int, left: int, top: int, cw: int, nrows: int) -> Seq<u8>
    decreases nrows,
{
    if nrows <= 0 {
        Seq::empty()
    } else {
        crop_seq(px, w, left, top, cw, nrows - 1) + crop_row(px, w, left, top + nrows - 1, cw)
    }
}

pub proof fn lemma_crop_row_len(px: Seq<u8>, w: int, left: int, yy: int, n: int)
    requires
        n >= 0,
    ensures
        crop_row(px, w, left, yy, n).len() == 3 * n,
    decreases n,
{
    if n > 0 {
        lemma_crop_row_len(px, w, left, yy, n - 1);
    }
}

pub proof fn lemma_crop_seq_len(px: Seq<u8>, w: int, left: int, top: int, cw: int, nrows: int)
    requires
        cw >= 0,
        nrows >= 0,
    ensures
        crop_seq(px, w, left, top, cw, nrows).len() == 3 * cw * nrows,
    decreases nrows,
{
    if nrows > 0 {
        lemma_crop_seq_len(px, w, left, top, cw, nrows - 1);
        lemma_crop_row_len(px, w, left, top + nrows - 1, cw);
        assert(crop_seq(px, w, left, top, cw, nrows) == crop_seq(px, w, left, top, cw, nrows - 1)
            + crop_row(px, w, left, top + nrows - 1, cw));
        assert(crop_seq(px, w, left, top, cw, nrows).len() == 3 * cw * (nrows - 1) + 3 * cw);
        assert(3 * cw * (nrows - 1) + 3 * cw == 3 * cw * nrows) by (nonlinear_arith);
    } else {
        assert(3 * cw * nrows == 0) by (nonlinear_arith)
            requires
                nrows == 0,
        ;
    }
}

/// Extends one cropped row by the three channel bytes of its next
/// pixel.
pub proof fn lemma_crop_row_unfold(px: Seq<u8>, w: int, left: int, yy: int, n: int)
    requires
        n >= 0,
    ensures
        crop_row(px, w, left, yy, n + 1) == crop_row(px, w, left, yy, n) + seq![
            chan_at(px, w, left + n, yy, 0),
            chan_at(px, w, left + n, yy, 1),
            chan_at(px, w, left + n, yy, 2),
        ],
{
}

/// Pixel (`x`, `y`) lies within a `w` by `h` grid, so its channel
/// bytes lie within the grid's `3 * w * h` bytes.
pub proof fn lemma_pixel_index(w: int, h: int, x: int, y: int)
    requires
        0 <= x < w,
        0 <= y < h,
    ensures
        0 <= 3 * (y * w + x),
        3 * (y * w + x) + 3 <= 3 * w * h,
    decreases 0int,
{
    assert(0 <= 3 * (y * w + x) && 3 * (y * w + x) + 3 <= 3 * w * h) by (nonlinear_arith)
        requires
            0 <= x < w,
            0 <= y < h,
    ;
}

impl Image {
    /// The byte buffer holds exactly the grid's pixels.
    pub open spec fn wf(&self) -> bool {
        self.pixels@.len() == 3 * (self.width as int) * (self.height as int)
    }

    /// The red, green, blue bytes of pixel (`x`, `y`).
    pub fn get_rgb(&self, x: u32, y: u32) -> (r: (u8, u8, u8))
        requires
            self.wf(),
            x < self.width,
            y < self.height,
        ensures
            r.0 == chan_at(self.pixels@, self.width as int, x as int, y as int, 0),
            r.1 == chan_at(self.pixels@, self.width as int, x as int, y as int, 1),
            r.2 == chan_at(self.pixels@, self.width as int, x as int, y as int, 2),
    {
        proof {
            lemma_pixel_index(self.width as int, self.height as int, x as int, y as int);
        }
        // the exec length bounds the byte buffer by the machine word
        let byte_count: usize = self.pixels.len();
        let idx: usize = 3 * ((y as usize) * (self.width as usize) + (x as usize));
        (self.pixels[idx], self.pixels[idx + 1], self.pixels[idx + 2])
    }
}

/// The brightness of the bytes `r`, `g`, `b` taken as one pixel.
pub fn luma(r: u8, g: u8, b: u8) -> (l: u8)
    ensures
        l == luma_of(r, g, b),
{
    ((r as u32 + g as u32 + b as u32) / 3) as u8
}

/// Cuts the `w` by `h` rectangle with top-left pixel (`left`, `top`)
/// out of `img`.
pub fn crop_image(img: &Image, left: u32, top: u32, w: u32, h: u32) -> (out: Image)
    requires
        img.wf(),
        left + w <= img.width,
        top + h <= img.height,
    ensures
        out.wf(),
        out.width == w,
        out.height == h,
        out.pixels@ == crop_seq(
            img.pixels@,
            img.width as int,
            left as int,
            top as int,
            w as int,
            h as int,
        ),
{
    let ghost src = img.pixels@;
    let ghost iw = img.width as int;
    let mut pixels: Vec<u8> = Vec::new();
    let mut y: u32 = 0;
    while y < h
        invariant
            img.wf(),
            src == img.pixels@,
            iw == img.width as int,
            left + w <= img.width,
            top + h <= img.height,
            y <= h,
            pixels@ == crop_seq(src, iw, left as int, top as int, w as int, y as int),
        decreases h - y,
    {
        let mut x: u32 = 0;
        while x < w
            invariant
                img.wf(),
                src == img.pixels@,
                iw == img.width as int,
                left + w <= img.width,
                top + h <= img.height,
                y < h,
                x <= w,
                pixels@ == crop_seq(src, iw, left as int, top as int, w as int, y as int)
                    + crop_row(src, iw, left as int, (top + y) as int, x as int),
            decreases w - x,
        {
            let (r, g, b) = img.get_rgb(left + x, top + y);
            pixels.push(r);
            pixels.push(g);
            pixels.push(b);
            proof {
                let row_now = crop_row(src, iw, left as int, (top + y) as int, x as int);
                let row_next = crop_row(src, iw, left as int, (top + y) as int, x as int + 1);
                let done = crop_seq(src, iw, left as int, top as int, w as int, y as int);
                lemma_crop_row_unfold(src, iw, left as int, (top + y) as int, x as int);
                assert(row_next =~= row_now + seq![r, g, b]);
                assert(pixels@ =~= (done + row_now) + seq![r, g, b]);
                assert(pixels@ =~= done + row_next);
            }
            x = x + 1;
        }
        proof {
            assert(crop_seq(src, iw, left as int, top as int, w as int, y as int + 1)
                == crop_seq(src, iw, left as int, top as int, w as int, y as int)
                    + crop_row(src, iw, left as int, (top + y) as int, w as int));
        }
        y = y + 1;
    }
    proof {
        lemma_crop_seq_len(src, iw, left as int, top as int, w as int, h as int);
    }
    Image { width: w, height: h, pixels }
}

} // verus!
