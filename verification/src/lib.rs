//! Bit-level protocols over raw digital lines: a bit-banged driver for a
//! serial-in, parallel-out shift register and a decoder for a quadrature
//! rotary encoder, with the small pieces of arithmetic that the other
//! peripherals of the kit need.
//!
//! Nothing here touches hardware. Each component is a state machine that is
//! told what was read from the lines and says what to do on them; the caller
//! that owns the pins does the reading and the driving.
//!
//! - [`signal`]: the three lines of the serial bus and the signals on them.
//! - [`hc595`]: the shift-register driver.
//! - [`chip`]: a chain of shift registers to run the driver's signals on.
//! - [`laws`]: what the driver's signals do to such a chain.
//! - [`encoder`]: the rotary-encoder decoder.
//! - [`rgb`]: the channels of an RGB LED.
//! - [`dice`]: a die for the seven-segment display.

pub mod chip;
pub mod dice;
pub mod encoder;
pub mod hc595;
pub mod laws;
pub mod rgb;
pub mod signal;

pub use chip::ShiftRegister;
pub use dice::Roll;
pub use encoder::{Direction, Phase, QuadratureDecoder};
pub use hc595::{BitOrder, HC595};
pub use rgb::RgbPwm;
pub use signal::{Bus, Line, Signal, PULSE_WIDTH_MICROS};
