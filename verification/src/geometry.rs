//! Fixed-point numbers, points and the play field.
use vstd::prelude::*;

verus! {

/// The fixed-point image of 1.0. Positions, sizes, velocities and scale
/// factors all count thousandths: a position of `2500` lies two and a half
/// pixels from the origin, a scale of `500` halves a size.
pub const ONE: i32 = 1000;

/// Quotient of `a` by a positive `b`, rounded toward zero.
pub open spec fn trunc_div(a: int, b: int) -> int
    recommends
        b > 0,
{
    if a >= 0 {
        a / b
    } else {
        -((-a) / b)
    }
}

/// Product of two fixed-point numbers, rounded toward zero.
pub open spec fn fx_mul(a: int, b: int) -> int {
    trunc_div(a * b, ONE as int)
}

/// Computes the fixed-point product of `value` and `factor`. It stays
/// far from the limits of `i64`.
pub fn scaled(value: i32, factor: i32) -> (r: i64)
    ensures
        r == fx_mul(value as int, factor as int),
        -0x20_0000_0000_0000 <= r <= 0x20_0000_0000_0000,
{
    assert(-0x4000_0000_0000_0000 <= (value as int) * (factor as int) <= 0x4000_0000_0000_0000)
        by (nonlinear_arith)
        requires
            -0x8000_0000 <= value as int <= 0x7fff_ffff,
            -0x8000_0000 <= factor as int <= 0x7fff_ffff,
    ;
    (value as i64) * (factor as i64) / (ONE as i64)
}

/// A point of the plane, or a pair of per-axis quantities.
#[derive(Clone, Copy, Debug, PartialEq, Eq, Structural)]
pub struct Point {
    pub x: i32,
    pub y: i32,
}

/// Width and height of the window. The origin is its centre.
#[derive(Clone, Copy, Debug, PartialEq, Eq, Structural)]
pub struct WinSize {
    pub w: i32,
    pub h: i32,
}

impl WinSize {
    /// A window has a positive width and height.
    pub open spec fn wf(self) -> bool {
        self.w > 0 && self.h > 0
    }

    /// Distance from the centre to the right edge.
    pub open spec fn half_w(self) -> int {
        trunc_div(self.w as int, 2)
    }

    /// Distance from the centre to the top edge.
    pub open spec fn half_h(self) -> int {
        trunc_div(self.h as int, 2)
    }
}

} // verus!
