//! RGB565 colours as their 16-bit storage value.

use vstd::prelude::*;

use embedded_graphics::pixelcolor::{IntoStorage, Rgb565};

verus! {

/// The storage value of the colour with the given channels: five bits of red,
/// six of green, five of blue, from the most significant bit down. Surplus
/// channel bits are dropped.
pub open spec fn rgb(r: int, g: int, b: int) -> u16 {
    ((r % 32) * 2048 + (g % 64) * 32 + b % 32) as u16
}

pub open spec fn black() -> u16 {
    rgb(0, 0, 0)
}

pub open spec fn red() -> u16 {
    rgb(31, 0, 0)
}

pub open spec fn green() -> u16 {
    rgb(0, 63, 0)
}

pub open spec fn yellow() -> u16 {
    rgb(31, 63, 0)
}

pub open spec fn cyan() -> u16 {
    rgb(0, 63, 31)
}

pub open spec fn magenta() -> u16 {
    rgb(31, 0, 31)
}

pub open spec fn white() -> u16 {
    rgb(31, 63, 31)
}

/// `Rgb565::new` of `embedded-graphics`, followed by `into_storage`: each
/// channel is cut to its width and the three are packed into one value.
#[verifier::external_body]
pub(crate) fn rgb565(r: u8, g: u8, b: u8) -> (color: u16)
    ensures
        color == rgb(r as int, g as int, b as int),
{
    Rgb565::new(r, g, b).into_storage()
}

} // verus!
