//! RGBA colors with fixed-point channels and their packed ARGB form.

use vstd::prelude::*;

verus! {

/// The channel value that stands for full intensity (1.0); 0 stands for none.
///
/// A channel holds `v / CHANNEL_ONE`, so 65535 = 255 * 257 steps lie between
/// 0.0 and 1.0 and every byte level is reached exactly.
pub const CHANNEL_ONE: i32 = 65535;

/// A channel clamped to the unit range `[0, CHANNEL_ONE]`.
pub open spec fn clamp_unit(v: int) -> int {
    if v < 0 {
        0
    } else if v > CHANNEL_ONE {
        CHANNEL_ONE as int
    } else {
        v
    }
}

/// The nearest integer to `n / d`, halves rounded up (`n >= 0`, `d > 0`).
pub open spec fn round_div(n: int, d: int) -> int {
    (2 * n + d) / (2 * d)
}

/// The byte of a channel: `round(clamp(v, 0, 1) * 255)`.
pub open spec fn channel_byte(v: int) -> int {
    round_div(clamp_unit(v) * 255, CHANNEL_ONE as int)
}

/// Four bytes laid out as alpha:red:green:blue, alpha most significant.
pub open spec fn pack_argb(a: int, r: int, g: int, b: int) -> int {
    a * 0x100_0000 + r * 0x1_0000 + g * 0x100 + b
}

/// A color with red, green, blue and alpha channels.
///
/// Channels are fixed-point: `CHANNEL_ONE` is full intensity. Values outside
/// `[0, CHANNEL_ONE]` are allowed and are clamped when the color is packed.
#[derive(Clone, Copy, Debug, PartialEq, Eq, Structural)]
pub struct Vec4 {
    pub r: i32,
    pub g: i32,
    pub b: i32,
    pub a: i32,
}

impl Vec4 {
    /// The packed ARGB value of this color.
    pub open spec fn packed(self) -> int {
        pack_argb(
            channel_byte(self.a as int),
            channel_byte(self.r as int),
            channel_byte(self.g as int),
            channel_byte(self.b as int),
        )
    }

    pub open spec fn spec_black() -> Vec4 {
        Vec4 { r: 0, g: 0, b: 0, a: CHANNEL_ONE }
    }

    pub open spec fn spec_white() -> Vec4 {
        Vec4 { r: CHANNEL_ONE, g: CHANNEL_ONE, b: CHANNEL_ONE, a: CHANNEL_ONE }
    }

    pub open spec fn spec_pink() -> Vec4 {
        Vec4 { r: CHANNEL_ONE, g: 0, b: CHANNEL_ONE, a: CHANNEL_ONE }
    }

    pub open spec fn spec_blue() -> Vec4 {
        Vec4 { r: 0, g: 0, b: CHANNEL_ONE, a: CHANNEL_ONE }
    }

    pub open spec fn spec_green() -> Vec4 {
        Vec4 { r: 0, g: CHANNEL_ONE, b: 0, a: CHANNEL_ONE }
    }

    pub open spec fn spec_yellow() -> Vec4 {
        Vec4 { r: CHANNEL_ONE, g: CHANNEL_ONE, b: 0, a: CHANNEL_ONE }
    }

    pub open spec fn spec_red() -> Vec4 {
        Vec4 { r: CHANNEL_ONE, g: 0, b: 0, a: CHANNEL_ONE }
    }

    pub fn new(r: i32, g: i32, b: i32, a: i32) -> (c: Self)
        ensures
            c == (Vec4 { r, g, b, a }),
    {
        Vec4 { r, g, b, a }
    }

    #[verifier::when_used_as_spec(spec_black)]
    pub fn black() -> (c: Self)
        ensures
            c == (Vec4 { r: 0, g: 0, b: 0, a: CHANNEL_ONE }),
    {
        Self::new(0, 0, 0, CHANNEL_ONE)
    }

    #[verifier::when_used_as_spec(spec_white)]
    pub fn white() -> (c: Self)
        ensures
            c == (Vec4 { r: CHANNEL_ONE, g: CHANNEL_ONE, b: CHANNEL_ONE, a: CHANNEL_ONE }),
    {
        Self::new(CHANNEL_ONE, CHANNEL_ONE, CHANNEL_ONE, CHANNEL_ONE)
    }

    #[verifier::when_used_as_spec(spec_pink)]
    pub fn pink() -> (c: Self)
        ensures
            c == (Vec4 { r: CHANNEL_ONE, g: 0, b: CHANNEL_ONE, a: CHANNEL_ONE }),
    {
        Self::new(CHANNEL_ONE, 0, CHANNEL_ONE, CHANNEL_ONE)
    }

    #[verifier::when_used_as_spec(spec_blue)]
    pub fn blue() -> (c: Self)
        ensures
            c == (Vec4 { r: 0, g: 0, b: CHANNEL_ONE, a: CHANNEL_ONE }),
    {
        Self::new(0, 0, CHANNEL_ONE, CHANNEL_ONE)
    }

    #[verifier::when_used_as_spec(spec_green)]
    pub fn green() -> (c: Self)
        ensures
            c == (Vec4 { r: 0, g: CHANNEL_ONE, b: 0, a: CHANNEL_ONE }),
    {
        Self::new(0, CHANNEL_ONE, 0, CHANNEL_ONE)
    }

    #[verifier::when_used_as_spec(spec_yellow)]
    pub fn yellow() -> (c: Self)
        ensures
            c == (Vec4 { r: CHANNEL_ONE, g: CHANNEL_ONE, b: 0, a: CHANNEL_ONE }),
    {
        Self::new(CHANNEL_ONE, CHANNEL_ONE, 0, CHANNEL_ONE)
    }

    #[verifier::when_used_as_spec(spec_red)]
    pub fn red() -> (c: Self)
        ensures
            c == (Vec4 { r: CHANNEL_ONE, g: 0, b: 0, a: CHANNEL_ONE }),
    {
        Self::new(CHANNEL_ONE, 0, 0, CHANNEL_ONE)
    }

    /// The color packed into 32 bits as alpha:red:green:blue.
    pub fn to_argb(&self) -> (p: u32)
        ensures
            p as int == self.packed(),
    {
        let a = channel_to_byte(self.a);
        let r = channel_to_byte(self.r);
        let g = channel_to_byte(self.g);
        let b = channel_to_byte(self.b);
        a * 0x100_0000 + r * 0x1_0000 + g * 0x100 + b
    }
}

/// The byte level of one channel.
pub fn channel_to_byte(v: i32) -> (byte: u32)
    ensures
        byte as int == channel_byte(v as int),
        byte <= 255,
{
    let c: u64 = if v < 0 {
        0
    } else if v > CHANNEL_ONE {
        CHANNEL_ONE as u64
    } else {
        v as u64
    };
    let n: u64 = 2 * (c * 255) + CHANNEL_ONE as u64;
    let q = n / (2 * (CHANNEL_ONE as u64));
    proof {
        lemma_channel_round_trip(c as int);
    }
    q as u32
}

/// Decoding the packed byte of a unit channel back to `[0, 1]` gives the
/// channel within `1/255`: `|v / 65535 - byte / 255| <= 1/255`.
pub proof fn lemma_channel_round_trip(v: int)
    requires
        0 <= v <= CHANNEL_ONE,
    ensures
        0 <= channel_byte(v) <= 255,
        -(CHANNEL_ONE as int) <= 255 * v - CHANNEL_ONE * channel_byte(v) <= CHANNEL_ONE,
{
    let n = 2 * (v * 255) + 65535;
    let d = 131070int;
    let q = n / d;
    vstd::arithmetic::div_mod::lemma_fundamental_div_mod(n, d);
    let m = n % d;
    assert(0 <= m < d);
    assert(n == d * q + m);
    assert(0 <= q <= 255) by (nonlinear_arith)
        requires
            n == d * q + m,
            0 <= m < d,
            0 <= v <= 65535,
            n == 2 * (v * 255) + 65535,
            d == 131070,
    ;
    assert(-65535 <= 255 * v - 65535 * q <= 65535) by (nonlinear_arith)
        requires
            n == d * q + m,
            0 <= m < d,
            n == 2 * (v * 255) + 65535,
            d == 131070,
    ;
}

} // verus!
