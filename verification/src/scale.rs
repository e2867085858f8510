//! Display scale factors and fixed-point surface coordinates.
//!
//! A scale factor is a positive rational with denominator 120 (the wire unit
//! of fractional scaling), a coordinate a rational with denominator 256 (the
//! wire unit of surface-local positions).

use vstd::prelude::*;

verus! {

/// Scale factors are stored in units of 1/120.
pub const SCALE_BASE: u32 = 120;

/// The largest supported scale numerator (scale factors up to 2^20 / 120);
/// keeps all products of coordinates and scales inside `i64`.
pub const SCALE_MAX: u32 = 0x100000;

/// A display scale factor: `base_120 / 120`.
#[derive(Copy, Clone, Debug, PartialEq, Eq, Structural, Hash)]
pub struct Scale {
    pub base_120: u32,
}

/// `n` rounded to the nearest integer, halves away from zero, where `n`
/// stands for the rational `n / d`.
pub open spec fn round_half_away(n: int, d: int) -> int
    recommends
        d > 0,
{
    if n >= 0 {
        (n + d / 2) / d
    } else {
        -((-n + d / 2) / d)
    }
}

/// `v` clamped to the representable range of `i32`, as a cast from a wider
/// number saturates.
pub open spec fn saturate_i32(v: int) -> i32 {
    if v > i32::MAX {
        i32::MAX
    } else if v < i32::MIN {
        i32::MIN
    } else {
        v as i32
    }
}

impl Scale {
    /// Validity: scale factors are positive and bounded.
    pub open spec fn wf(self) -> bool {
        1 <= self.base_120 <= SCALE_MAX
    }

    /// The numerator over the fixed denominator 120.
    pub open spec fn spec_base(self) -> u32 {
        self.base_120
    }

    /// The scale factor `n / 120`.
    pub fn new(base_120: u32) -> (r: Scale)
        requires
            1 <= base_120 <= SCALE_MAX,
        ensures
            r.base_120 == base_120,
            r.wf(),
    {
        Scale { base_120 }
    }

    /// The integer scale factor `n`.
    pub fn from_int(n: u32) -> (r: Scale)
        requires
            1 <= n <= SCALE_MAX as int / 120,
        ensures
            r.base_120 == n * 120,
            r.wf(),
    {
        Scale { base_120: n * SCALE_BASE }
    }

    pub fn base_120(&self) -> (r: u32)
        ensures
            r == self.base_120,
    {
        self.base_120
    }

    /// Whether this is exactly the identity scale.
    pub fn is_one(&self) -> (r: bool)
        ensures
            r == (self.base_120 == 120),
    {
        self.base_120 == SCALE_BASE
    }

    /// The effective pixel size of a logical size under this scale:
    /// `size * scale` rounded to the nearest integer, saturated to `u32`.
    pub open spec fn spec_effective_size(self, size: u32) -> u32 {
        let exact = round_half_away(size * self.base_120, 120);
        if exact > u32::MAX {
            u32::MAX
        } else {
            exact as u32
        }
    }

    /// Computes the effective pixel size of a logical size under this scale.
    pub fn effective_size(&self, size: u32) -> (r: u32)
        requires
            self.wf(),
        ensures
            r == self.spec_effective_size(size),
    {
        proof {
            assert(size as int * self.base_120 as int <= 0x100000000int * 0x100000int)
                by (nonlinear_arith)
                requires
                    size <= 0x100000000int,
                    self.base_120 <= 0x100000int,
            ;
            assert(size as int * self.base_120 as int >= 0) by (nonlinear_arith)
                requires
                    size >= 0,
                    self.base_120 >= 0,
            ;
        }
        let n = size as u64 * self.base_120 as u64;
        let rounded = (n + 60) / 120;
        if rounded > u32::MAX as u64 {
            u32::MAX
        } else {
            rounded as u32
        }
    }
}

/// A surface coordinate in units of 1/256.
#[derive(Copy, Clone, Debug, PartialEq, Eq, Structural)]
pub struct Fixed {
    pub raw: i32,
}

impl Fixed {
    /// The coordinate `raw / 256`.
    pub fn new(raw: i32) -> (r: Fixed)
        ensures
            r.raw == raw,
    {
        Fixed { raw }
    }

    pub open spec fn spec_raw(self) -> i32 {
        self.raw
    }

    pub fn raw(&self) -> (r: i32)
        ensures
            r == self.raw,
    {
        self.raw
    }

    /// The coordinate rounded towards negative infinity.
    pub fn round_down(&self) -> (r: i32)
        ensures
            r == self.raw as int / 256,
    {
        let q = self.raw / 256;
        let rem = self.raw % 256;
        if rem < 0 {
            q - 1
        } else {
            q
        }
    }

    /// The coordinate multiplied by a scale factor and rounded to the nearest
    /// pixel, halves away from zero, as an unbounded integer:
    /// `raw / 256 * base / 120` rounded.
    pub open spec fn spec_scaled_round(self, scale: Scale) -> int {
        round_half_away(self.raw * scale.base_120, 30720)
    }

    /// Computes the pixel position of this coordinate under a scale factor,
    /// saturated to `i32`.
    pub fn scaled_round(&self, scale: Scale) -> (r: i32)
        requires
            scale.wf(),
        ensures
            r == saturate_i32(self.spec_scaled_round(scale)),
    {
        proof {
            assert(-0x80000000int * 0x100000int <= self.raw as int * scale.base_120 as int
                <= 0x80000000int * 0x100000int) by (nonlinear_arith)
                requires
                    -0x80000000int <= self.raw <= 0x80000000int,
                    0 <= scale.base_120 <= 0x100000int,
            ;
        }
        let n = self.raw as i64 * scale.base_120 as i64;
        let d: i64 = 30720;
        let v = if n >= 0 {
            (n + d / 2) / d
        } else {
            -((-n + d / 2) / d)
        };
        if v > i32::MAX as i64 {
            i32::MAX
        } else if v < i32::MIN as i64 {
            i32::MIN
        } else {
            v as i32
        }
    }
}

} // verus!
