//! Display configuration and the pixel cursor of the bitmap mode.

use crate::irq::flag;
use gba::video::Color;
use vstd::prelude::*;

pub mod colors;

verus! {

/// Width of the bitmap screen, in pixels.
pub const WIDTH: usize = 240;

/// Height of the bitmap screen, in pixels.
pub const HEIGHT: usize = 160;

/// Number of pixels of the bitmap screen.
pub const SCREEN_PIXELS: usize = 38_400;

/// A graphic asset, by the form in which its data is laid out.
#[derive(Debug)]
pub enum GraphicAsset {
    /// A bitmap, with its two dimensions.
    Bitmap(usize, usize),
}

/// Settings from which the display state is made.
pub struct GraphicsConfiguration {
    display_mode: u16,
    with_display_bg: [bool; 4],
}

impl GraphicsConfiguration {
    /// The display mode that is asked for.
    pub closed spec fn display_mode(&self) -> u16 {
        self.display_mode
    }

    /// Whether background layer `layer` is shown.
    pub closed spec fn shows_bg(&self, layer: int) -> bool {
        self.with_display_bg[layer]
    }

    /// Bitmap mode 3, with background layer 2 alone shown.
    pub fn default() -> (c: GraphicsConfiguration)
        ensures
            c.display_mode() == 3,
            forall|layer: int| 0 <= layer < 4 ==> c.shows_bg(layer) == (layer == 2),
    {
        GraphicsConfiguration { display_mode: 3, with_display_bg: [false, false, true, false] }
    }
}

/// Value of the display-control register for a configuration: the mode in
/// bits 0 to 2, the four background layers at bits 8 to 11.
pub open spec fn display_control_bits(c: GraphicsConfiguration) -> int {
    c.display_mode() % 8 + flag(c.shows_bg(0), 256) + flag(c.shows_bg(1), 512) + flag(
        c.shows_bg(2),
        1024,
    ) + flag(c.shows_bg(3), 2048)
}

/// Where and what one pixel write puts on the screen.
#[derive(Clone, Copy, Debug)]
pub struct PixelWrite {
    /// Index of the pixel, row by row from the top left.
    pub index: usize,
    pub color: Color,
}

/// The display state: the display-control value and the cursor of the next
/// pixel to write.
pub struct GbaGraphics {
    pixel: usize,
    ctl: u16,
}

impl GbaGraphics {
    #[verifier::type_invariant]
    spec fn cursor_on_screen(self) -> bool {
        self.pixel < SCREEN_PIXELS
    }

    /// Index of the pixel that the next write goes to.
    pub closed spec fn cursor(&self) -> int {
        self.pixel as int
    }

    /// Value of the display-control register.
    pub closed spec fn control(&self) -> u16 {
        self.ctl
    }

    /// The value to write to the display-control register.
    pub fn apply_config(&self) -> (control: u16)
        ensures
            control == self.control(),
    {
        self.ctl
    }

    /// Takes the next pixel for `color` and moves the cursor on by one, back
    /// to the first pixel after the last.
    pub fn write_pixel(&mut self, color: Color) -> (write: PixelWrite)
        ensures
            write.index == old(self).cursor(),
            write.index < SCREEN_PIXELS,
            write.color == color,
            final(self).cursor() == (old(self).cursor() + 1) % (SCREEN_PIXELS as int),
            final(self).control() == old(self).control(),
    {
        proof {
            use_type_invariant(&*self);
        }
        let index: usize = self.pixel;
        if index + 1 == SCREEN_PIXELS {
            self.pixel = 0;
        } else {
            self.pixel = index + 1;
        }
        PixelWrite { index, color }
    }
}

impl From<GraphicsConfiguration> for GbaGraphics {
    /// The display state for a configuration, with the cursor on the first
    /// pixel.
    fn from(c: GraphicsConfiguration) -> (g: GbaGraphics)
        ensures
            g.cursor() == 0,
            g.control() == display_control_bits(c),
    {
        let mut ctl: u16 = c.display_mode % 8;
        if c.with_display_bg[0] {
            ctl = ctl + 256;
        }
        if c.with_display_bg[1] {
            ctl = ctl + 512;
        }
        if c.with_display_bg[2] {
            ctl = ctl + 1024;
        }
        if c.with_display_bg[3] {
            ctl = ctl + 2048;
        }
        GbaGraphics { pixel: 0, ctl }
    }
}

impl vstd::std_specs::convert::FromSpecImpl<GraphicsConfiguration> for GbaGraphics {
    open spec fn obeys_from_spec() -> bool {
        true
    }

    closed spec fn from_spec(c: GraphicsConfiguration) -> GbaGraphics {
        GbaGraphics { pixel: 0, ctl: display_control_bits(c) as u16 }
    }
}

} // verus!
