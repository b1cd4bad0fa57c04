//! The three channels of an RGB LED dimmed by pulse-width modulation.
//!
//! A colour is a 24-bit number, `0xRRGGBB`. Each channel's byte is the
//! brightness of its LED, from 0 (off) to 255 (fully on); the owner of the
//! pins turns it into a duty cycle.

use vstd::prelude::*;

verus! {

/// The red byte of `0xRRGGBB`. Bits above the low 24 are ignored.
pub open spec fn red_of(color: u32) -> u8 {
    ((color & 0xFF0000) >> 16) as u8
}

/// The green byte of `0xRRGGBB`.
pub open spec fn green_of(color: u32) -> u8 {
    ((color & 0x00FF00) >> 8) as u8
}

/// The blue byte of `0xRRGGBB`.
pub open spec fn blue_of(color: u32) -> u8 {
    (color & 0x0000FF) as u8
}

/// The brightness of the three LEDs of an RGB LED.
#[derive(Clone, Copy, Debug, PartialEq, Eq, Structural)]
pub struct RgbPwm {
    red: u8,
    green: u8,
    blue: u8,
}

impl RgbPwm {
    /// The brightness of the red LED.
    pub closed spec fn red_level(&self) -> u8 {
        self.red
    }

    /// The brightness of the green LED.
    pub closed spec fn green_level(&self) -> u8 {
        self.green
    }

    /// The brightness of the blue LED.
    pub closed spec fn blue_level(&self) -> u8 {
        self.blue
    }

    /// All three LEDs off.
    pub fn new() -> (leds: RgbPwm)
        ensures
            leds.red_level() == 0,
            leds.green_level() == 0,
            leds.blue_level() == 0,
    {
        RgbPwm { red: 0, green: 0, blue: 0 }
    }

    /// Sets the three channels from `color`, read as `0xRRGGBB`.
    pub fn set_color(&mut self, color: u32)
        ensures
            final(self).red_level() == red_of(color),
            final(self).green_level() == green_of(color),
            final(self).blue_level() == blue_of(color),
            color <= 0xFFFFFF ==> color == final(self).red_level() * 0x10000
                + final(self).green_level() * 0x100
                + final(self).blue_level(),
    {
        let red: u32 = (color & 0xFF0000) >> 16;
        let green: u32 = (color & 0x00FF00) >> 8;
        let blue: u32 = color & 0x0000FF;
        proof {
            assert(red <= 0xFF) by (bit_vector)
                requires
                    red == (color & 0xFF0000) >> 16,
            ;
            assert(green <= 0xFF) by (bit_vector)
                requires
                    green == (color & 0x00FF00) >> 8,
            ;
            assert(blue <= 0xFF) by (bit_vector)
                requires
                    blue == color & 0x0000FF,
            ;
            assert(color <= 0xFFFFFF ==> color == red * 0x10000 + green * 0x100 + blue)
                by (bit_vector)
                requires
                    red == (color & 0xFF0000) >> 16,
                    green == (color & 0x00FF00) >> 8,
                    blue == color & 0x0000FF,
            ;
        }
        self.red = red as u8;
        self.green = green as u8;
        self.blue = blue as u8;
    }

    /// The brightness of the red LED.
    pub fn red(&self) -> (level: u8)
        ensures
            level == self.red_level(),
    {
        self.red
    }

    /// The brightness of the green LED.
    pub fn green(&self) -> (level: u8)
        ensures
            level == self.green_level(),
    {
        self.green
    }

    /// The brightness of the blue LED.
    pub fn blue(&self) -> (level: u8)
        ensures
            level == self.blue_level(),
    {
        self.blue
    }
}

} // verus!
