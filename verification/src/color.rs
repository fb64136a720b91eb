use vstd::prelude::*;

verus! {

/// One texel without alpha.
#[derive(Debug, Clone, Copy, PartialEq, Eq, Structural)]
pub struct RGB {
    pub r: u8,
    pub g: u8,
    pub b: u8,
}

/// One texel with alpha.
#[derive(Debug, Clone, Copy, PartialEq, Eq, Structural)]
pub struct RGBA {
    pub r: u8,
    pub g: u8,
    pub b: u8,
    pub a: u8,
}

/// The two colour endpoints of one subset.
#[derive(Debug, Clone, Copy, PartialEq, Eq, Structural)]
pub struct RGBInterval {
    pub min: RGB,
    pub max: RGB,
}

/// The two alpha endpoints of one subset.
#[derive(Debug, Clone, Copy, PartialEq, Eq, Structural)]
pub struct AlphaInterval {
    pub min: u8,
    pub max: u8,
}

/// The smaller of two endpoint components.
pub open spec fn low_of(min: u8, max: u8) -> int {
    if min < max {
        min as int
    } else {
        max as int
    }
}

/// The larger of two endpoint components.
pub open spec fn high_of(min: u8, max: u8) -> int {
    if min < max {
        max as int
    } else {
        min as int
    }
}

/// The sample at weight `t` between two endpoint components: the endpoints
/// are put in order first, and `t` is read on a scale from 0 to 255.
///
/// The index that a block stores for a texel is handed in as `t` unscaled, so
/// a two-bit index reaches at most 3/255 of the way from the lower endpoint
/// to the higher one. The weight tables of the BC7 format (for three bits:
/// 0, 9, 18, 27, 37, 46, 55, 64 out of 64) are not applied.
pub open spec fn interpolate(min: u8, max: u8, t: u8) -> int {
    low_of(min, max) + (high_of(min, max) - low_of(min, max)) * (t as int) / 255
}

/// The interpolated sample lies between the ordered endpoints, whichever of
/// the two was handed in first.
pub proof fn lemma_interpolate_bounds(min: u8, max: u8, t: u8)
    ensures
        low_of(min, max) <= high_of(min, max),
        low_of(min, max) <= interpolate(min, max, t) <= high_of(min, max),
        interpolate(min, max, 0) == low_of(min, max),
        interpolate(min, max, 255) == high_of(min, max),
        interpolate(min, max, t) == interpolate(max, min, t),
{
    let d = high_of(min, max) - low_of(min, max);
    assert(0 <= d * (t as int) <= d * 255) by (nonlinear_arith)
        requires
            0 <= d,
            0 <= t <= 255,
    ;
    assert(d * 255 / 255 == d);
    assert(d * 0 == 0);
}

/// Integer interpolation between two endpoint components.
pub fn interpolate_u8(min: u8, max: u8, t: u8) -> (out: u8)
    ensures
        out == interpolate(min, max, t),
        low_of(min, max) <= out <= high_of(min, max),
{
    let (low, high) = if min < max {
        (min, max)
    } else {
        (max, min)
    };
    proof {
        lemma_interpolate_bounds(min, max, t);
    }
    let span: u16 = (high - low) as u16;
    assert(span * (t as u16) <= 255 * 255) by (nonlinear_arith)
        requires
            span <= 255,
            t <= 255,
    ;
    let step: u16 = span * (t as u16) / 255;
    low + (step as u8)
}

impl RGBInterval {
    /// The colour at weight `t`, channel by channel.
    pub open spec fn lerp_spec(self, t: u8) -> RGB {
        RGB {
            r: interpolate(self.min.r, self.max.r, t) as u8,
            g: interpolate(self.min.g, self.max.g, t) as u8,
            b: interpolate(self.min.b, self.max.b, t) as u8,
        }
    }

    /// Samples the interval at weight `t`.
    pub fn lerp(&self, t: u8) -> (out: RGB)
        ensures
            out == self.lerp_spec(t),
            out.r == interpolate(self.min.r, self.max.r, t),
            out.g == interpolate(self.min.g, self.max.g, t),
            out.b == interpolate(self.min.b, self.max.b, t),
    {
        RGB {
            r: interpolate_u8(self.min.r, self.max.r, t),
            g: interpolate_u8(self.min.g, self.max.g, t),
            b: interpolate_u8(self.min.b, self.max.b, t),
        }
    }
}

impl AlphaInterval {
    /// The alpha at weight `t`.
    pub open spec fn lerp_spec(self, t: u8) -> u8 {
        interpolate(self.min, self.max, t) as u8
    }

    /// Samples the interval at weight `t`.
    pub fn lerp(&self, t: u8) -> (out: u8)
        ensures
            out == self.lerp_spec(t),
            out == interpolate(self.min, self.max, t),
    {
        interpolate_u8(self.min, self.max, t)
    }
}

} // verus!
