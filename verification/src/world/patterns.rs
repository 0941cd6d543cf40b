//! Procedural patterns of two colors.

use crate::units::color::{fits, rgb, QuantColor};
use vstd::prelude::*;

verus! {

/// A pattern and its two colors.
///
/// A pattern divides its space into cells that are one unit wide and numbered
/// by integers. Stripes number them along `x`, rings by the distance from the
/// `y` axis, checkers by the sum of the cell numbers along `x`, `y` and `z`.
/// A gradient runs from the first color to the second along `x` within every
/// cell.
#[derive(Debug, Copy, Clone, PartialEq, Eq, Structural)]
pub enum PatternType {
    Stripe(QuantColor, QuantColor),
    Gradient(QuantColor, QuantColor),
    Ring(QuantColor, QuantColor),
    Checkers(QuantColor, QuantColor),
}

impl PatternType {
    /// The first color of the pattern.
    pub open spec fn first(self) -> QuantColor {
        match self {
            PatternType::Stripe(a, _) => a,
            PatternType::Gradient(a, _) => a,
            PatternType::Ring(a, _) => a,
            PatternType::Checkers(a, _) => a,
        }
    }

    /// The second color of the pattern.
    pub open spec fn second(self) -> QuantColor {
        match self {
            PatternType::Stripe(_, b) => b,
            PatternType::Gradient(_, b) => b,
            PatternType::Ring(_, b) => b,
            PatternType::Checkers(_, b) => b,
        }
    }

    /// The color of the pattern in the cell with number `cell`, for a gradient
    /// at the place where it has moved by `shift` from its first color.
    pub open spec fn color_in(self, cell: int, shift: QuantColor) -> QuantColor {
        match self {
            PatternType::Gradient(a, _) => rgb(a.r + shift.r, a.g + shift.g, a.b + shift.b),
            _ => if cell % 2 == 0 {
                self.first()
            } else {
                self.second()
            },
        }
    }

    /// The way from the first color to the second: the second minus the
    /// first. The differences must fit the channels.
    pub fn distance(&self) -> (d: QuantColor)
        requires
            fits(self.second().r - self.first().r),
            fits(self.second().g - self.first().g),
            fits(self.second().b - self.first().b),
        ensures
            d == rgb(
                self.second().r - self.first().r,
                self.second().g - self.first().g,
                self.second().b - self.first().b,
            ),
    {
        match self {
            PatternType::Stripe(a, b) => *b - *a,
            PatternType::Gradient(a, b) => *b - *a,
            PatternType::Ring(a, b) => *b - *a,
            PatternType::Checkers(a, b) => *b - *a,
        }
    }

    /// The color of the pattern at a point of its space.
    ///
    /// Stripes, rings and checkers show their first color in the cells with
    /// an even number and their second color in the others; `cell` is the
    /// number of the point's cell. A gradient shows its first color moved by
    /// `shift`, which is [`PatternType::distance`] scaled by how far the point
    /// lies into its cell; the sums must fit the channels.
    pub fn color_at(&self, cell: i64, shift: QuantColor) -> (c: QuantColor)
        requires
            self is Gradient ==> fits(self.first().r + shift.r) && fits(self.first().g + shift.g)
                && fits(self.first().b + shift.b),
        ensures
            c == self.color_in(cell as int, shift),
    {
        match self {
            PatternType::Stripe(color_a, color_b) => pick(cell, *color_a, *color_b),
            PatternType::Gradient(color_a, _) => *color_a + shift,
            PatternType::Ring(color_a, color_b) => pick(cell, *color_a, *color_b),
            PatternType::Checkers(color_a, color_b) => pick(cell, *color_a, *color_b),
        }
    }
}

/// The first color in a cell with an even number, the second in the others.
fn pick(cell: i64, color_a: QuantColor, color_b: QuantColor) -> (c: QuantColor)
    ensures
        c == (if cell % 2 == 0 {
            color_a
        } else {
            color_b
        }),
{
    if cell % 2 == 0 {
        color_a
    } else {
        color_b
    }
}

} // verus!
