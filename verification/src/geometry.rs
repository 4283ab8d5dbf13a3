//! The geometry projector: where a frame stands on the chart, as exact
//! fractions of the chart's width, and how high it sits.

use crate::frames::{Frame, FrameModel};
use vstd::prelude::*;

verus! {

/// A fraction `num / den` with `den > 0`.
#[derive(Clone, Copy, Debug, PartialEq, Eq, Structural)]
pub struct Ratio {
    pub num: u64,
    pub den: u64,
}

impl Ratio {
    /// The denominator is not 0.
    pub open spec fn wf(self) -> bool {
        self.den > 0
    }

    /// `self < other`, as fractions.
    pub open spec fn below(self, other: Ratio) -> bool {
        self.num * other.den < other.num * self.den
    }

    /// Whether `self < other`, as fractions.
    pub fn is_below(&self, other: &Ratio) -> (yes: bool)
        ensures
            yes == self.below(*other),
    {
        assert(self.num * other.den <= 0xffff_ffff_ffff_ffff * 0xffff_ffff_ffff_ffff
            && other.num * self.den <= 0xffff_ffff_ffff_ffff * 0xffff_ffff_ffff_ffff)
            by (nonlinear_arith)
            requires
                0 <= self.num <= 0xffff_ffff_ffff_ffff,
                0 <= self.den <= 0xffff_ffff_ffff_ffff,
                0 <= other.num <= 0xffff_ffff_ffff_ffff,
                0 <= other.den <= 0xffff_ffff_ffff_ffff,
        ;
        (self.num as u128) * (other.den as u128) < (other.num as u128) * (self.den as u128)
    }
}

/// The height of one row of frames, in pixels.
pub const ROW_HEIGHT: u64 = 20;

/// The narrowest width that is still drawn: 8 ten-thousandths of the chart.
pub open spec fn least_width() -> Ratio {
    Ratio { num: 8, den: 10000 }
}

/// The narrowest width that is still drawn: 8 ten-thousandths of the chart.
pub fn min_width() -> (r: Ratio)
    ensures
        r == least_width(),
{
    Ratio { num: 8, den: 10000 }
}

/// Where a frame stands on the chart.
#[derive(Clone, Copy, Debug, PartialEq, Eq, Structural)]
pub struct Projection {
    /// The left edge, as a fraction of the chart's width.
    pub left: Ratio,
    /// The width, as a fraction of the chart's width.
    pub width: Ratio,
    /// The distance of the lower edge from the bottom of the chart.
    pub bottom: u128,
}

/// The projection of a frame onto a chart that shows the samples from
/// `reference_start` on, `reference_total` of them, in rows of `row_height`:
/// the left edge is `(start - reference_start) / reference_total`, the width
/// `duration / reference_total`, and the bottom `depth * row_height`.
pub open spec fn projected(
    f: FrameModel,
    reference_start: nat,
    reference_total: nat,
    row_height: nat,
) -> Projection {
    Projection {
        left: Ratio { num: (f.start - reference_start) as u64, den: reference_total as u64 },
        width: Ratio { num: (f.end - f.start) as u64, den: reference_total as u64 },
        bottom: (f.depth * row_height) as u128,
    }
}

/// The frame's width on the chart reaches `least`, so it is drawn. Narrower
/// frames are left out when the chart is drawn, and only then: they stay
/// among the frames.
pub open spec fn wide_enough(f: FrameModel, reference_total: nat, least: Ratio) -> bool {
    !(Ratio { num: (f.end - f.start) as u64, den: reference_total as u64 }).below(least)
}

/// Projects a frame onto the chart. The chart must show at least one
/// sample, and the frame must not begin before the chart does.
pub fn project(frame: &Frame, reference_start: u64, reference_total: u64, row_height: u64) -> (p:
    Projection)
    requires
        reference_total > 0,
        reference_start <= frame.start <= frame.end,
    ensures
        p == projected(frame@, reference_start as nat, reference_total as nat, row_height as nat),
        p.left.wf(),
        p.width.wf(),
{
    assert(frame.depth * row_height <= 0xffff_ffff_ffff_ffff * 0xffff_ffff_ffff_ffff)
        by (nonlinear_arith)
        requires
            0 <= frame.depth <= 0xffff_ffff_ffff_ffff,
            0 <= row_height <= 0xffff_ffff_ffff_ffff,
    ;
    Projection {
        left: Ratio { num: frame.start - reference_start, den: reference_total },
        width: Ratio { num: frame.end - frame.start, den: reference_total },
        bottom: (frame.depth as u128) * (row_height as u128),
    }
}

/// Whether a frame is wide enough to be drawn on a chart of
/// `reference_total` samples.
pub fn is_wide_enough(frame: &Frame, reference_total: u64, least: &Ratio) -> (yes: bool)
    requires
        frame.start <= frame.end,
    ensures
        yes == wide_enough(frame@, reference_total as nat, *least),
{
    let width = Ratio { num: frame.end - frame.start, den: reference_total };
    !width.is_below(least)
}

} // verus!
