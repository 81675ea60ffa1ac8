//! Colours with fixed-point channels on the scale 0 to 255.
use crate::fixed::Fixed;
use vstd::prelude::*;

verus! {

/// A colour; a channel value of 255 is full intensity.
#[derive(Clone, Copy, Debug, PartialEq, Eq, Structural)]
pub struct Color {
    pub r: Fixed,
    pub g: Fixed,
    pub b: Fixed,
}

/// The byte that displays a channel: its integer part, held within 0 to 255.
pub open spec fn channel_byte_spec(c: Fixed) -> u8 {
    let t = c.trunc_spec();
    if t < 0 {
        0u8
    } else if t > 255 {
        255u8
    } else {
        t as u8
    }
}

/// The byte that displays a channel.
pub fn channel_byte(c: Fixed) -> (r: u8)
    ensures
        r == channel_byte_spec(c),
{
    let t: i64 = c.raw / crate::fixed::ONE_RAW;
    if t < 0 {
        0
    } else if t > 255 {
        255
    } else {
        t as u8
    }
}

impl Color {
    /// Black: no light in any channel.
    pub open spec fn black_spec() -> Color {
        Color { r: Fixed::zero_spec(), g: Fixed::zero_spec(), b: Fixed::zero_spec() }
    }

    /// The colour that the three bytes show.
    pub open spec fn from_bytes_spec(r: u8, g: u8, b: u8) -> Color {
        Color {
            r: Fixed::from_int_spec(r as int),
            g: Fixed::from_int_spec(g as int),
            b: Fixed::from_int_spec(b as int),
        }
    }

    /// Every channel multiplied by `k`.
    pub open spec fn scaled_spec(self, k: Fixed) -> Color {
        Color { r: self.r.mul_spec(k), g: self.g.mul_spec(k), b: self.b.mul_spec(k) }
    }

    /// The sum, channel by channel.
    pub open spec fn plus_spec(self, rhs: Color) -> Color {
        Color { r: self.r.add_spec(rhs.r), g: self.g.add_spec(rhs.g), b: self.b.add_spec(rhs.b) }
    }

    /// The mix `self * (1 - t) + other * t`.
    pub open spec fn blend_spec(self, other: Color, t: Fixed) -> Color {
        self.scaled_spec(Fixed::one_spec().sub_spec(t)).plus_spec(other.scaled_spec(t))
    }

    /// The colour with the given channels.
    pub fn new(r: Fixed, g: Fixed, b: Fixed) -> (c: Color)
        ensures
            c == (Color { r, g, b }),
    {
        Color { r, g, b }
    }

    /// Black: no light in any channel.
    pub fn black() -> (c: Color)
        ensures
            c == Color::black_spec(),
    {
        Color { r: Fixed::zero(), g: Fixed::zero(), b: Fixed::zero() }
    }

    /// The colour that the three bytes show.
    pub fn from_bytes(r: u8, g: u8, b: u8) -> (c: Color)
        ensures
            c == Color::from_bytes_spec(r, g, b),
    {
        Color {
            r: Fixed::from_int(r as i32),
            g: Fixed::from_int(g as i32),
            b: Fixed::from_int(b as i32),
        }
    }

    /// Every channel multiplied by `k`.
    pub fn scaled(&self, k: Fixed) -> (c: Color)
        ensures
            c == self.scaled_spec(k),
    {
        Color { r: self.r.mul(k), g: self.g.mul(k), b: self.b.mul(k) }
    }

    /// The sum, channel by channel.
    pub fn plus(&self, rhs: &Color) -> (c: Color)
        ensures
            c == self.plus_spec(*rhs),
    {
        Color { r: self.r.add(rhs.r), g: self.g.add(rhs.g), b: self.b.add(rhs.b) }
    }

    /// The mix `self * (1 - t) + other * t`.
    pub fn blend(&self, other: &Color, t: Fixed) -> (c: Color)
        ensures
            c == self.blend_spec(*other, t),
    {
        self.scaled(Fixed::one().sub(t)).plus(&other.scaled(t))
    }
}

} // verus!
