//! Contracts for the items of the `gba` crate that the library calls.

use crate::irq::flag;
use gba::video::Color;
use vstd::prelude::*;

verus! {

/// `gba::video::Color`: a 15-bit colour, five bits per channel, in one public
/// `u16` field.
#[verifier::external_type_specification]
pub struct ExColor(Color);

/// `gba::video::Color::from_rgb` keeps the low five bits of each channel and
/// packs red at bit 0, green at bit 5 and blue at bit 10.
pub assume_specification[ Color::from_rgb ](r: u16, g: u16, b: u16) -> (c: Color)
    ensures
        c.0 == (r & 0b11111) | ((g & 0b11111) << 5) | ((b & 0b11111) << 10),
;

/// Calls `gba::interrupts::IrqBits::new`, then `with_vblank`, `with_hblank`,
/// `with_vcounter`, `with_timer0` and `with_timer1`, and reads the value with
/// `to_u16`. The crate puts the five flags at bits 0 to 4 in that order and
/// leaves every other bit clear.
#[verifier::external_body]
pub(crate) fn irq_bits(
    vblank: bool,
    hblank: bool,
    vcount: bool,
    timer0: bool,
    timer1: bool,
) -> (bits: u16)
    ensures
        bits == flag(vblank, 1) + flag(hblank, 2) + flag(vcount, 4) + flag(timer0, 8) + flag(
            timer1,
            16,
        ),
{
    gba::interrupts::IrqBits::new()
        .with_vblank(vblank)
        .with_hblank(hblank)
        .with_vcounter(vcount)
        .with_timer0(timer0)
        .with_timer1(timer1)
        .to_u16()
}

} // verus!
