//! The atomic canvas cell value and its similarity / merge arithmetic.

use vstd::prelude::*;

verus! {

/// One cell of the canvas: either no opinion (`Empty`, a pure "skip" marker
/// that never participates as a draw target) or an 8-bit RGB triple.
#[derive(Debug, Clone, Copy, PartialEq, Eq, Structural)]
pub enum Pixel {
    Empty,
    Rgb(u8, u8, u8),
}

impl Default for Pixel {
    fn default() -> (r: Self)
        ensures
            r == Pixel::Empty,
    {
        Pixel::Empty
    }
}

/// Absolute difference of two channel values.
pub open spec fn abs_diff_spec(a: u8, b: u8) -> int {
    if a >= b {
        a - b
    } else {
        b - a
    }
}

/// Luma-weighted perceptual distance of two pixels: `0` for equal pixels,
/// maximal when exactly one side is `Empty`, else the BT.601-style weighted
/// channel distance `(|dr|*76 + |dg|*150 + |db|*29) / 255`.
pub open spec fn similarity_spec(a: Pixel, b: Pixel) -> u32 {
    if a == b {
        0u32
    } else {
        match (a, b) {
            (Pixel::Rgb(r1, g1, b1), Pixel::Rgb(r2, g2, b2)) => ((abs_diff_spec(r1, r2) * 76
                + abs_diff_spec(g1, g2) * 150 + abs_diff_spec(b1, b2) * 29) / 255) as u32,
            _ => u32::MAX,
        }
    }
}

/// The merge rule: `Empty` never overwrites; a real pixel overwrites only
/// when it differs from the base by strictly more than the threshold.
pub open spec fn combine_spec(base: Pixel, other: Pixel, threshold: u32) -> Pixel {
    if other == Pixel::Empty {
        base
    } else if similarity_spec(base, other) > threshold {
        other
    } else {
        base
    }
}

impl Pixel {
    /// Perceptual distance between two pixels; see [`similarity_spec`].
    pub fn similarity(self, other: Self) -> (r: u32)
        ensures
            r == similarity_spec(self, other),
    {
        if self == other {
            return 0;
        }
        if let Pixel::Rgb(r1, g1, b1) = self {
            if let Pixel::Rgb(r2, g2, b2) = other {
                return (abs_diff(r1, r2) as u32 * 76 + abs_diff(g1, g2) as u32 * 150 + abs_diff(
                    b1,
                    b2,
                ) as u32 * 29) / 255;
            }
        }
        u32::MAX
    }

    /// Merges `other` over `self` under the similarity threshold; see
    /// [`combine_spec`].
    pub fn combine(self, other: Self, similarity: u32) -> (r: Self)
        ensures
            r == combine_spec(self, other, similarity),
    {
        if other == Pixel::Empty {
            self
        } else {
            if self.similarity(other) > similarity {
                other
            } else {
                self
            }
        }
    }

    /// In-place form of [`Pixel::combine`].
    pub fn mut_combine(&mut self, other: Self, similarity: u32)
        ensures
            *final(self) == combine_spec(*old(self), other, similarity),
    {
        *self = self.combine(other, similarity);
    }
}

fn abs_diff(a: u8, b: u8) -> (r: u8)
    ensures
        r == abs_diff_spec(a, b),
{
    if a >= b {
        a - b
    } else {
        b - a
    }
}

/// A pixel is at distance zero from itself; an `Empty` pixel is maximally
/// distant from every real pixel, in either argument order; and the distance
/// is symmetric for all pixels.
pub proof fn lemma_similarity_basic(p: Pixel, q: Pixel, r: u8, g: u8, b: u8)
    ensures
        similarity_spec(p, p) == 0,
        similarity_spec(Pixel::Empty, Pixel::Rgb(r, g, b)) == u32::MAX,
        similarity_spec(Pixel::Rgb(r, g, b), Pixel::Empty) == u32::MAX,
        similarity_spec(p, q) == similarity_spec(q, p),
{
}

/// An `Empty` pixel never overwrites: merging it over any base at any
/// threshold leaves the base unchanged.
pub proof fn lemma_combine_empty(base: Pixel, threshold: u32)
    ensures
        combine_spec(base, Pixel::Empty, threshold) == base,
{
}

/// At threshold zero, a real pixel that differs perceptibly from the base
/// always overwrites it. Pixels whose weighted channel distance rounds down
/// to zero (for example two RGB triples differing by one in red alone) are
/// indistinguishable to the similarity formula and are excluded here.
pub proof fn lemma_combine_zero_threshold(base: Pixel, other: Pixel)
    requires
        base != other,
        other != Pixel::Empty,
        similarity_spec(base, other) > 0,
    ensures
        combine_spec(base, other, 0) == other,
{
}

} // verus!
