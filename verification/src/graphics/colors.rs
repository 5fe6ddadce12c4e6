//! Named colours, and colours from hexadecimal text.

use gba::video::Color;
use vstd::prelude::*;
use vstd::string::StringSliceAdditionalSpecFns;

verus! {

/// Red 0, green 0, blue 0, as the value that a `Color` holds.
pub const BLACK: u16 = 0x0000;

/// Red 31, green 31, blue 31, as the value that a `Color` holds.
pub const WHITE: u16 = 0x7FFF;

/// Red 31, green 0, blue 0, as the value that a `Color` holds.
pub const RED: u16 = 0x001F;

/// Red 31, green 15, blue 0, as the value that a `Color` holds.
pub const ORANGE: u16 = 0x01FF;

/// Red 31, green 31, blue 0, as the value that a `Color` holds.
pub const YELLOW: u16 = 0x03FF;

/// Red 15, green 31, blue 0, as the value that a `Color` holds.
pub const LIME: u16 = 0x03EF;

/// Red 0, green 31, blue 0, as the value that a `Color` holds.
pub const GREEN: u16 = 0x03E0;

/// Red 0, green 31, blue 15, as the value that a `Color` holds.
pub const SPRING: u16 = 0x3FE0;

/// Red 0, green 31, blue 31, as the value that a `Color` holds.
pub const CYAN: u16 = 0x7FE0;

/// Red 0, green 15, blue 31, as the value that a `Color` holds.
pub const DODGERBLUE: u16 = 0x7DE0;

/// Red 0, green 0, blue 31, as the value that a `Color` holds.
pub const BLUE: u16 = 0x7C00;

/// Red 15, green 0, blue 31, as the value that a `Color` holds.
pub const VIOLET: u16 = 0x7C0F;

/// Red 31, green 0, blue 31, as the value that a `Color` holds.
pub const MAGENTA: u16 = 0x7C1F;

/// Red 31, green 0, blue 15, as the value that a `Color` holds.
pub const PINK: u16 = 0x3C1F;

/// Whether `h` is the ASCII code of a hexadecimal digit, in either case.
pub open spec fn is_hex_digit(h: u8) -> bool {
    48 <= h <= 57 || 65 <= h <= 70 || 97 <= h <= 102
}

/// The number that the hexadecimal digit with ASCII code `h` stands for.
pub open spec fn hex_digit_value(h: u8) -> int {
    if h <= 57 {
        h - 48
    } else if h <= 70 {
        h - 55
    } else {
        h - 87
    }
}

/// The number that the hexadecimal digit with ASCII code `h` stands for.
pub fn hex_value(h: u8) -> (v: u8)
    requires
        is_hex_digit(h),
    ensures
        v == hex_digit_value(h),
        v < 16,
{
    if h <= 57 {
        h - 48
    } else if h <= 70 {
        h - 55
    } else {
        h - 87
    }
}

/// The byte that two hexadecimal digits spell, the high digit first.
pub fn hex_to_u8(hex0: u8, hex1: u8) -> (v: u8)
    requires
        is_hex_digit(hex0),
        is_hex_digit(hex1),
    ensures
        v == 16 * hex_digit_value(hex0) + hex_digit_value(hex1),
{
    hex_value(hex0) * 16 + hex_value(hex1)
}

/// The 15-bit colour with the given channels, each below 32: red in the low
/// five bits, then green, then blue.
pub open spec fn rgb555(r: int, g: int, b: int) -> int {
    r + 32 * g + 1024 * b
}

/// Each named colour is made of the channels that its name promises.
pub proof fn lemma_named_colors()
    ensures
        BLACK == rgb555(0, 0, 0),
        WHITE == rgb555(31, 31, 31),
        RED == rgb555(31, 0, 0),
        ORANGE == rgb555(31, 15, 0),
        YELLOW == rgb555(31, 31, 0),
        LIME == rgb555(15, 31, 0),
        GREEN == rgb555(0, 31, 0),
        SPRING == rgb555(0, 31, 15),
        CYAN == rgb555(0, 31, 31),
        DODGERBLUE == rgb555(0, 15, 31),
        BLUE == rgb555(0, 0, 31),
        VIOLET == rgb555(15, 0, 31),
        MAGENTA == rgb555(31, 0, 31),
        PINK == rgb555(31, 0, 15),
{
}

/// The five-bit channel that two hexadecimal digits spell: their byte with its
/// low three bits dropped.
pub open spec fn hex_channel(hex0: u8, hex1: u8) -> int {
    (16 * hex_digit_value(hex0) + hex_digit_value(hex1)) / 8
}

/// The colour that six hexadecimal digits spell, two each for red, green and
/// blue. Text after the sixth digit is not read.
pub fn color_from_hex(hex: &'static str) -> (c: Color)
    requires
        hex.spec_bytes().len() >= 6,
        forall|i: int| 0 <= i < 6 ==> is_hex_digit(#[trigger] hex.spec_bytes()[i]),
    ensures
        c.0 == rgb555(
            hex_channel(hex.spec_bytes()[0], hex.spec_bytes()[1]),
            hex_channel(hex.spec_bytes()[2], hex.spec_bytes()[3]),
            hex_channel(hex.spec_bytes()[4], hex.spec_bytes()[5]),
        ),
{
    let bytes = hex.as_bytes();
    let r: u16 = (hex_to_u8(bytes[0], bytes[1]) / 8) as u16;
    let g: u16 = (hex_to_u8(bytes[2], bytes[3]) / 8) as u16;
    let b: u16 = (hex_to_u8(bytes[4], bytes[5]) / 8) as u16;
    assert((r & 0b11111) | ((g & 0b11111) << 5) | ((b & 0b11111) << 10) == r + 32 * g + 1024 * b)
        by (bit_vector)
        requires
            r < 32,
            g < 32,
            b < 32,
    ;
    Color::from_rgb(r, g, b)
}

} // verus!
