//! Colours, with an opacity that a trail can deepen step by step.

use vstd::prelude::*;

verus! {

/// The opacity of a fully opaque colour.
pub const ALPHA_MAX: u8 = 255;

/// How much opacity one more visit adds to a trail cell: a fifth of the
/// scale.
pub const ALPHA_STEP: u8 = 51;

/// A colour by its red, green, blue and opacity channels, each from 0 to 255.
#[derive(Clone, Copy, Debug, PartialEq, Eq, Structural)]
pub struct Colour {
    pub r: u8,
    pub g: u8,
    pub b: u8,
    pub a: u8,
}

/// `v` held between `low` and `high`.
pub open spec fn clamped(v: int, low: int, high: int) -> int {
    if v < low {
        low
    } else if v > high {
        high
    } else {
        v
    }
}

impl Colour {
    /// The same colour one step more opaque: the opacity plus `ALPHA_STEP`,
    /// held between the current opacity and `ALPHA_MAX`.
    pub open spec fn deepened(self) -> Colour {
        Colour {
            r: self.r,
            g: self.g,
            b: self.b,
            a: clamped(self.a + ALPHA_STEP, self.a as int, ALPHA_MAX as int) as u8,
        }
    }

    /// Returns the colour with the given channels.
    pub fn new(r: u8, g: u8, b: u8, a: u8) -> (c: Colour)
        ensures
            c == (Colour { r, g, b, a }),
    {
        Colour { r, g, b, a }
    }

    /// Returns the same colour one step more opaque, and fully opaque where a
    /// whole step no longer fits.
    pub fn deepen(self) -> (c: Colour)
        ensures
            c == self.deepened(),
            c.a >= self.a,
            c.a == ALPHA_MAX || c.a == self.a + ALPHA_STEP,
    {
        let a = if self.a >= ALPHA_MAX - ALPHA_STEP {
            ALPHA_MAX
        } else {
            self.a + ALPHA_STEP
        };
        Colour { r: self.r, g: self.g, b: self.b, a }
    }
}

/// Deepening never lowers the opacity, never takes it past `ALPHA_MAX`, and
/// leaves the other channels alone.
pub proof fn lemma_deepened_bounds(c: Colour)
    ensures
        c.a <= c.deepened().a <= ALPHA_MAX,
        c.deepened().a == if c.a + ALPHA_STEP > ALPHA_MAX {
            ALPHA_MAX as int
        } else {
            c.a + ALPHA_STEP
        },
        c.deepened().r == c.r && c.deepened().g == c.g && c.deepened().b == c.b,
{
}

} // verus!
