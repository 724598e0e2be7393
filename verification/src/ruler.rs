//! Text measurement.
//!
//! The bar itself does not know how wide a string draws: that depends on the
//! font the presentation layer loaded. A `TextRuler` carries that knowledge
//! into the layout pass as a pure function of the text height and the
//! characters, so that the measure pass and the render pass of one tree are
//! guaranteed to see the same widths.

use vstd::prelude::*;

verus! {

/// A source of text widths.
///
/// `width_spec` is the mathematical width function of the ruler; the
/// executable `width` must return exactly that value. Keeping the function
/// on the trait (rather than an arbitrary callback) is what makes the
/// measure/render agreement of a whole tree provable.
pub trait TextRuler {
    /// The width, in pixels, of `s` drawn at `text_height`.
    spec fn width_spec(&self, text_height: u32, s: Seq<char>) -> int;

    /// Measures `s` at `text_height`.
    fn width(&self, text_height: u32, s: &str) -> (w: u32)
        ensures
            w as int == self.width_spec(text_height, s@),
    ;
}

/// A fixed-pitch ruler: every character is `char_width` pixels wide,
/// whatever the text height. This models a monospace font well enough for
/// tests and for the text-mode driver; widths clamp at `u32::MAX`.
pub struct FixedRuler {
    pub char_width: u32,
}

impl TextRuler for FixedRuler {
    open spec fn width_spec(&self, text_height: u32, s: Seq<char>) -> int {
        if s.len() * self.char_width > u32::MAX {
            u32::MAX as int
        } else {
            s.len() * self.char_width
        }
    }

    fn width(&self, text_height: u32, s: &str) -> (w: u32) {
        let len = s.unicode_len();
        if self.char_width == 0 {
            assert(len * self.char_width == 0) by (nonlinear_arith)
                requires
                    self.char_width == 0,
            ;
            return 0;
        }
        if len > u32::MAX as usize {
            assert(len as int * self.char_width > u32::MAX) by (nonlinear_arith)
                requires
                    len > u32::MAX,
                    self.char_width >= 1,
            ;
            return u32::MAX;
        }
        assert(len as int * self.char_width <= u32::MAX as int * u32::MAX as int)
            by (nonlinear_arith)
            requires
                len <= u32::MAX,
                self.char_width <= u32::MAX,
        ;
        let wide: u64 = (len as u64) * (self.char_width as u64);
        if wide > u32::MAX as u64 {
            u32::MAX
        } else {
            wide as u32
        }
    }
}

} // verus!
