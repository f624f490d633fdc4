//! The glyph library: the printable-ASCII reference bitmaps that the
//! nearest-neighbor character match compares against.

use vstd::prelude::*;

use crate::RenderError;
use crate::img::{crop_seq, crop_image, Image};

verus! {

/// How many glyphs a reference strip holds: the printable ASCII code
/// points from `' '` up to but not including `'~'`.
pub const GLYPH_COUNT: u32 = 94;

/// The reference bitmaps, one per printable ASCII code point starting
/// at `' '`, each cut from one strip image; all share one size.
pub struct GlyphSet {
    pub glyphs: Vec<Image>,
    pub glyph_width: u32,
    pub glyph_height: u32,
}

/// A strip image can be cut into the glyph cells: its width is a
/// positive multiple of `GLYPH_COUNT` and its height is positive.
pub open spec fn strip_ok(w: int, h: int) -> bool {
    w >= 94 && w % 94 == 0 && h >= 1
}

impl GlyphSet {
    /// Exactly `GLYPH_COUNT` glyph bitmaps of one positive size; the
    /// size is small enough that a summed per-pixel distance fits the
    /// machine.
    pub open spec fn wf(&self) -> bool {
        &&& self.glyphs@.len() == 94
        &&& self.glyph_width >= 1
        &&& self.glyph_height >= 1
        &&& 255 * (self.glyph_width as int) * (self.glyph_height as int) <= usize::MAX as int
        &&& forall|i: int|
            0 <= i < 94 ==> (#[trigger] self.glyphs@[i]).wf() && self.glyphs@[i].width
                == self.glyph_width && self.glyphs@[i].height == self.glyph_height
    }

    /// The glyph bitmaps' byte sequences, in code-point order.
    pub open spec fn views(&self) -> Seq<Seq<u8>> {
        Seq::new(94, |i: int| self.glyphs@[i].pixels@)
    }

    /// The reference bitmap of glyph `index`; glyph 0 belongs to
    /// `' '`.
    pub fn glyph_at(&self, index: usize) -> (g: &Image)
        requires
            self.wf(),
            index < 94,
        ensures
            g == self.glyphs@[index as int],
            g.pixels@ == self.views()[index as int],
    {
        &self.glyphs[index]
    }

    /// Cuts the reference strip into `GLYPH_COUNT` equal-width glyph
    /// bitmaps, left to right in code-point order starting at `' '`.
    /// A strip that cannot be cut evenly is refused with
    /// `MalformedGlyphSet` rather than silently truncated.
    pub fn load(strip: &Image) -> (r: Result<GlyphSet, RenderError>)
        requires
            strip.wf(),
        ensures
            !strip_ok(strip.width as int, strip.height as int) ==> r == Err::<
                GlyphSet,
                RenderError,
            >(RenderError::MalformedGlyphSet),
            strip_ok(strip.width as int, strip.height as int) ==> (r matches Ok(g) && {
                let gw = strip.width as int / 94;
                &&& g.wf()
                &&& g.glyph_width == gw
                &&& g.glyph_height == strip.height
                &&& forall|i: int|
                    0 <= i < 94 ==> #[trigger] g.views()[i] == crop_seq(
                        strip.pixels@,
                        strip.width as int,
                        i * gw,
                        0,
                        gw,
                        strip.height as int,
                    )
            }),
    {
        if strip.width < 94 || strip.width % 94 != 0 || strip.height == 0 {
            return Err(RenderError::MalformedGlyphSet);
        }
        let gw: u32 = strip.width / 94;
        let gh: u32 = strip.height;
        // the exec length bounds the byte buffer by the machine word
        let byte_count: usize = strip.pixels.len();
        proof {
            assert(255 * (gw as int) * (gh as int) <= 3 * (strip.width as int) * (
            strip.height as int)) by (nonlinear_arith)
                requires
                    strip.width as int == 94 * (gw as int),
                    gh == strip.height,
                    gw >= 1,
                    gh >= 1,
            ;
        }
        let mut glyphs: Vec<Image> = Vec::new();
        let mut i: u32 = 0;
        while i < 94
            invariant
                strip.wf(),
                strip.width as int == 94 * (gw as int),
                gh == strip.height,
                gw >= 1,
                gh >= 1,
                i <= 94,
                glyphs@.len() == i,
                forall|j: int|
                    0 <= j < i ==> (#[trigger] glyphs@[j]).wf() && glyphs@[j].width == gw
                        && glyphs@[j].height == gh && glyphs@[j].pixels@ == crop_seq(
                        strip.pixels@,
                        strip.width as int,
                        j * (gw as int),
                        0,
                        gw as int,
                        gh as int,
                    ),
            decreases 94 - i,
        {
            proof {
                assert((i as int) * (gw as int) + gw as int <= 94 * (gw as int))
                    by (nonlinear_arith)
                    requires
                        0 <= i < 94,
                        gw >= 1,
                ;
            }
            let left: u32 = i * gw;
            let glyph = crop_image(strip, left, 0, gw, gh);
            glyphs.push(glyph);
            i = i + 1;
        }
        let out = GlyphSet { glyphs, glyph_width: gw, glyph_height: gh };
        proof {
            assert(forall|i: int|
                0 <= i < 94 ==> #[trigger] out.views()[i] == out.glyphs@[i].pixels@);
        }
        Ok(out)
    }
}

} // verus!
