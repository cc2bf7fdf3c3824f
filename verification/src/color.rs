//! RGBA colours and the per-channel arithmetic used on them.

use vstd::prelude::*;

verus! {

/// An RGBA colour with eight bits per channel.
#[derive(Clone, Copy, Debug, PartialEq, Eq, Structural)]
pub struct Color {
    pub r: u8,
    pub g: u8,
    pub b: u8,
    pub a: u8,
}

/// Alpha below this value makes a sprite texel invisible.
pub const ALPHA_THRESHOLD: u8 = 16;

/// Straight alpha blend of one channel: `over` weighted by `alpha`, `base`
/// by the rest, out of 255, rounded down.
pub open spec fn blend_channel_spec(over: u8, base: u8, alpha: u8) -> int {
    (over as int * alpha as int + base as int * (255 - alpha as int)) / 255
}

/// The colour that results from laying `over` on `base`: each colour channel
/// blended by the alpha of `over`, the result fully opaque.
pub open spec fn blend_spec(over: Color, base: Color) -> Color {
    Color {
        r: blend_channel_spec(over.r, base.r, over.a) as u8,
        g: blend_channel_spec(over.g, base.g, over.a) as u8,
        b: blend_channel_spec(over.b, base.b, over.a) as u8,
        a: 255,
    }
}

/// Whether a sprite texel is left unpainted: its alpha is under the
/// threshold, or it is the opaque magenta colour key.
pub open spec fn is_transparent_spec(c: Color) -> bool {
    c.a < ALPHA_THRESHOLD || (c.r == 152 && c.g == 0 && c.b == 136 && c.a == 255)
}

/// Linear interpolation of one channel between `from` (at `step == 0`) and
/// `to` (at `step == steps`), rounded down. With no steps it is `from`;
/// past the last step it is `to`.
pub open spec fn lerp_channel_spec(from: u8, to: u8, step: int, steps: int) -> int {
    if steps <= 0 {
        from as int
    } else if step >= steps {
        to as int
    } else {
        (from as int * (steps - step) + to as int * step) / steps
    }
}

pub proof fn lemma_blend_channel_in_range(over: u8, base: u8, alpha: u8)
    ensures
        0 <= blend_channel_spec(over, base, alpha) <= 255,
{
    let num = over as int * alpha as int + base as int * (255 - alpha as int);
    assert(0 <= num <= 255 * 255) by (nonlinear_arith)
        requires
            num == over as int * alpha as int + base as int * (255 - alpha as int),
            0 <= over <= 255,
            0 <= base <= 255,
            0 <= alpha <= 255,
    ;
}

pub proof fn lemma_lerp_channel_in_range(from: u8, to: u8, step: int, steps: int)
    requires
        0 <= step,
    ensures
        0 <= lerp_channel_spec(from, to, step, steps) <= 255,
{
    if steps > 0 && step < steps {
        let num = from as int * (steps - step) + to as int * step;
        assert(0 <= num <= 255 * steps) by (nonlinear_arith)
            requires
                num == from as int * (steps - step) + to as int * step,
                0 <= from <= 255,
                0 <= to <= 255,
                0 <= step <= steps,
        ;
        assert(0 <= num / steps <= 255) by (nonlinear_arith)
            requires
                0 <= num <= 255 * steps,
                steps > 0,
        ;
    }
}

impl Color {
    pub fn new(r: u8, g: u8, b: u8, a: u8) -> (c: Color)
        ensures
            c == (Color { r, g, b, a }),
    {
        Color { r, g, b, a }
    }

    pub open spec fn black_spec() -> Color {
        Color { r: 0, g: 0, b: 0, a: 255 }
    }

    pub open spec fn white_spec() -> Color {
        Color { r: 255, g: 255, b: 255, a: 255 }
    }

    /// Opaque black.
    #[verifier::when_used_as_spec(black_spec)]
    pub fn black() -> (c: Color)
        ensures
            c == Color::black_spec(),
    {
        Color { r: 0, g: 0, b: 0, a: 255 }
    }

    /// Opaque white, the colour of a texel that no texture provides.
    #[verifier::when_used_as_spec(white_spec)]
    pub fn white() -> (c: Color)
        ensures
            c == Color::white_spec(),
    {
        Color { r: 255, g: 255, b: 255, a: 255 }
    }

    /// Whether a sprite texel of this colour is skipped when painting.
    pub fn is_transparent(&self) -> (t: bool)
        ensures
            t == is_transparent_spec(*self),
    {
        self.a < ALPHA_THRESHOLD || (self.r == 152 && self.g == 0 && self.b == 136 && self.a
            == 255)
    }
}

/// Blends one channel of an overlay onto a base by the overlay's alpha.
pub fn blend_channel(over: u8, base: u8, alpha: u8) -> (out: u8)
    ensures
        out as int == blend_channel_spec(over, base, alpha),
{
    let inverse: u16 = 255u16 - alpha as u16;
    proof {
        lemma_blend_channel_in_range(over, base, alpha);
        assert(over as int * alpha as int + base as int * (255 - alpha as int) <= 255 * 255)
            by (nonlinear_arith)
            requires
                0 <= over <= 255,
                0 <= base <= 255,
                0 <= alpha <= 255,
        ;
        assert(0 <= over as int * alpha as int <= 255 * 255) by (nonlinear_arith)
            requires
                0 <= over <= 255,
                0 <= alpha <= 255,
        ;
        assert(0 <= base as int * (255 - alpha as int) <= 255 * 255) by (nonlinear_arith)
            requires
                0 <= base <= 255,
                0 <= alpha <= 255,
        ;
    }
    let sum: u16 = over as u16 * alpha as u16 + base as u16 * inverse;
    (sum / 255) as u8
}

/// Lays `over` on `base`; the result is opaque.
pub fn blend(over: Color, base: Color) -> (out: Color)
    ensures
        out == blend_spec(over, base),
{
    Color {
        r: blend_channel(over.r, base.r, over.a),
        g: blend_channel(over.g, base.g, over.a),
        b: blend_channel(over.b, base.b, over.a),
        a: 255,
    }
}

/// Interpolates one channel for row `step` of `steps` rows.
pub fn lerp_channel(from: u8, to: u8, step: u32, steps: u32) -> (out: u8)
    ensures
        out as int == lerp_channel_spec(from, to, step as int, steps as int),
{
    if steps == 0 {
        return from;
    }
    if step >= steps {
        return to;
    }
    proof {
        lemma_lerp_channel_in_range(from, to, step as int, steps as int);
        assert(0 <= from as int * (steps - step) <= 255 * 0xffff_ffff) by (nonlinear_arith)
            requires
                0 <= from <= 255,
                0 <= step <= steps <= 0xffff_ffff,
        ;
        assert(0 <= to as int * step <= 255 * 0xffff_ffff) by (nonlinear_arith)
            requires
                0 <= to <= 255,
                0 <= step <= 0xffff_ffff,
        ;
    }
    let num: u64 = from as u64 * (steps - step) as u64 + to as u64 * step as u64;
    (num / steps as u64) as u8
}

/// A fully opaque base keeps its colour under a fully transparent overlay.
pub proof fn lemma_blend_transparent_over_opaque(over: Color, base: Color)
    requires
        over.a == 0,
        base.a == 255,
    ensures
        blend_spec(over, base) == base,
{
    assert(over.r as int * 0 + base.r as int * 255 == base.r as int * 255);
    assert(over.g as int * 0 + base.g as int * 255 == base.g as int * 255);
    assert(over.b as int * 0 + base.b as int * 255 == base.b as int * 255);
}

} // verus!
