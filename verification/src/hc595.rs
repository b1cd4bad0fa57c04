//! Bit-banged driver for a serial-in, parallel-out shift register with an
//! output latch.
//!
//! # Bit order
//!
//! The order in which the bits of a byte leave the driver is fixed when the
//! driver is made and never changes. The first bit shifted ends up on the
//! chip's last output, so under [`BitOrder::MsbFirst`] output `i` shows bit
//! `i` of the byte, and under [`BitOrder::LsbFirst`] output `i` shows bit
//! `7 - i`. A table of patterns is written for one of the two orders; sent
//! through a driver of the other order it comes out mirrored.

use vstd::prelude::*;
use crate::signal::{Bus, Line, Signal, pulse, lemma_bus_after_concat, lemma_bus_after_pulse};

verus! {

/// Which end of a byte is shifted out first.
#[derive(Clone, Copy, Debug, PartialEq, Eq, Structural)]
pub enum BitOrder {
    /// Bit 7 first, bit 0 last.
    MsbFirst,
    /// Bit 0 first, bit 7 last.
    LsbFirst,
}

/// Bit `position` of `byte`; position 0 is the least significant.
pub open spec fn bit_of(byte: u8, position: u8) -> bool {
    (byte >> position) & 1 == 1
}

/// The bit of `byte` that is shifted out in place `k` (0 to 7) under `order`.
pub open spec fn shifted_bit(order: BitOrder, byte: u8, k: int) -> bool {
    match order {
        BitOrder::MsbFirst => bit_of(byte, (7 - k) as u8),
        BitOrder::LsbFirst => bit_of(byte, k as u8),
    }
}

/// The signals that shift one bit in: the data line takes the bit's level,
/// then the shift clock is pulsed.
pub open spec fn bit_signals(high: bool) -> Seq<Signal> {
    seq![
        Signal::Drive { line: Line::Data, high },
        Signal::Drive { line: Line::ShiftClock, high: true },
        Signal::Hold,
        Signal::Drive { line: Line::ShiftClock, high: false },
    ]
}

/// The signals that shift in the first `n` bits of `byte`.
pub open spec fn shift_signals(order: BitOrder, byte: u8, n: nat) -> Seq<Signal>
    decreases n,
{
    if n == 0 {
        Seq::empty()
    } else {
        shift_signals(order, byte, (n - 1) as nat) + bit_signals(
            shifted_bit(order, byte, n - 1),
        )
    }
}

/// The signals of [`HC595::serial_in`]: all eight bits of `byte`.
pub open spec fn serial_in_signals(order: BitOrder, byte: u8) -> Seq<Signal> {
    shift_signals(order, byte, 8)
}

/// The signals of [`HC595::parallel_out`]: one pulse on the latch clock.
pub open spec fn parallel_out_signals() -> Seq<Signal> {
    pulse(Line::LatchClock)
}

/// The signals that bring all three lines to rest.
pub open spec fn rest_signals() -> Seq<Signal> {
    seq![
        Signal::Drive { line: Line::Data, high: false },
        Signal::Drive { line: Line::LatchClock, high: false },
        Signal::Drive { line: Line::ShiftClock, high: false },
    ]
}

/// The signals of [`HC595::teardown`]: a zero byte, a latch pulse, and all
/// lines to rest.
pub open spec fn teardown_signals(order: BitOrder) -> Seq<Signal> {
    serial_in_signals(order, 0) + parallel_out_signals() + rest_signals()
}

/// Driver of the three-wire bus of a shift register.
///
/// Every operation returns the signals to carry out on the lines, in order,
/// and remembers the level each line is left at.
#[derive(Debug)]
pub struct HC595 {
    order: BitOrder,
    bus: Bus,
}

impl HC595 {
    /// The order in which this driver shifts the bits of a byte out.
    pub closed spec fn bit_order(&self) -> BitOrder {
        self.order
    }

    /// The levels the driver has left the lines at.
    pub closed spec fn lines(&self) -> Bus {
        self.bus
    }

    /// Makes a driver for `order`, with the signals that bring the newly
    /// acquired lines to rest.
    pub fn new(order: BitOrder) -> (made: (HC595, Vec<Signal>))
        ensures
            made.0.bit_order() == order,
            made.0.lines().all_low(),
            made.1@ == rest_signals(),
    {
        let mut driver = HC595 { order, bus: Bus::low() };
        let mut signals: Vec<Signal> = Vec::new();
        driver.rest(&mut signals);
        (driver, signals)
    }

    /// The driver's bit order.
    pub fn order(&self) -> (order: BitOrder)
        ensures
            order == self.bit_order(),
    {
        self.order
    }

    /// The levels the driver has left the lines at.
    pub fn bus(&self) -> (bus: Bus)
        ensures
            bus == self.lines(),
    {
        self.bus
    }

    /// Shifts `data` into the register, one bit at a time in the driver's bit
    /// order: the data line takes the bit's level, then the shift clock is
    /// pulsed. Leaves the data line at the level of the last bit.
    pub fn serial_in(&mut self, data: u8) -> (signals: Vec<Signal>)
        ensures
            signals@ == serial_in_signals(old(self).bit_order(), data),
            final(self).bit_order() == old(self).bit_order(),
            final(self).lines() == old(self).lines().after_all(signals@),
            final(self).lines() == (Bus {
                data: shifted_bit(old(self).bit_order(), data, 7),
                shift_clock: false,
                latch_clock: old(self).lines().latch_clock,
            }),
    {
        let mut signals: Vec<Signal> = Vec::new();
        let mut k: u8 = 0;
        while k < 8
            invariant
                k <= 8,
                self.order == old(self).order,
                signals@ == shift_signals(self.order, data, k as nat),
                self.bus == old(self).bus.after_all(signals@),
            decreases 8 - k,
        {
            let position: u8 = match self.order {
                BitOrder::MsbFirst => 7 - k,
                BitOrder::LsbFirst => k,
            };
            let high = (data >> position) & 1 == 1;
            let ghost before = signals@;
            self.emit(&mut signals, Signal::Drive { line: Line::Data, high });
            self.emit(&mut signals, Signal::Drive { line: Line::ShiftClock, high: true });
            self.emit(&mut signals, Signal::Hold);
            self.emit(&mut signals, Signal::Drive { line: Line::ShiftClock, high: false });
            proof {
                assert(signals@ == before + bit_signals(high));
                lemma_bus_after_concat(old(self).bus, before, bit_signals(high));
                lemma_bus_after_bit(old(self).bus.after_all(before), high);
            }
            k += 1;
        }
        proof {
            lemma_bus_after_shift(old(self).bus, self.order, data, 8);
        }
        signals
    }

    /// Makes what was shifted in visible on the outputs: one pulse on the
    /// latch clock.
    pub fn parallel_out(&mut self) -> (signals: Vec<Signal>)
        ensures
            signals@ == parallel_out_signals(),
            final(self).bit_order() == old(self).bit_order(),
            final(self).lines() == old(self).lines().after_all(signals@),
            final(self).lines() == (Bus { latch_clock: false, ..old(self).lines() }),
    {
        let mut signals: Vec<Signal> = Vec::new();
        self.emit(&mut signals, Signal::Drive { line: Line::LatchClock, high: true });
        self.emit(&mut signals, Signal::Hold);
        self.emit(&mut signals, Signal::Drive { line: Line::LatchClock, high: false });
        proof {
            assert(signals@ == parallel_out_signals());
            lemma_bus_after_pulse(old(self).bus, Line::LatchClock);
        }
        signals
    }

    /// Switches the outputs off before the lines are given up: shifts a zero
    /// byte in, latches it, and brings all three lines to rest. From any state
    /// of the lines the result is the same.
    pub fn teardown(&mut self) -> (signals: Vec<Signal>)
        ensures
            signals@ == teardown_signals(old(self).bit_order()),
            final(self).bit_order() == old(self).bit_order(),
            final(self).lines() == old(self).lines().after_all(signals@),
            final(self).lines().all_low(),
    {
        let mut signals = self.serial_in(0);
        let ghost zero = signals@;
        let ghost shifted = self.bus;
        let mut latch = self.parallel_out();
        let ghost latched = self.bus;
        signals.append(&mut latch);
        let ghost rest_from = signals@;
        self.rest(&mut signals);
        proof {
            assert(signals@ == rest_from + rest_signals());
            lemma_bus_after_concat(old(self).bus, zero, parallel_out_signals());
            lemma_bus_after_concat(old(self).bus, rest_from, rest_signals());
            lemma_bus_after_rest(latched);
        }
        signals
    }

    /// Appends one signal and records what it does to the lines.
    fn emit(&mut self, signals: &mut Vec<Signal>, signal: Signal)
        ensures
            final(self).order == old(self).order,
            final(self).bus == old(self).bus.after(signal),
            final(signals)@ == old(signals)@.push(signal),
    {
        self.bus.apply(signal);
        signals.push(signal);
    }

    /// Appends the signals that bring all three lines to rest.
    fn rest(&mut self, signals: &mut Vec<Signal>)
        ensures
            final(self).order == old(self).order,
            final(self).bus.all_low(),
            final(signals)@ == old(signals)@ + rest_signals(),
    {
        self.emit(signals, Signal::Drive { line: Line::Data, high: false });
        self.emit(signals, Signal::Drive { line: Line::LatchClock, high: false });
        self.emit(signals, Signal::Drive { line: Line::ShiftClock, high: false });
        proof {
            assert(signals@ == old(signals)@ + rest_signals());
        }
    }
}

/// Shifting one bit in leaves the bit's level on the data line and the shift
/// clock low.
pub proof fn lemma_bus_after_bit(bus: Bus, high: bool)
    ensures
        bus.after_all(bit_signals(high)) == (Bus { data: high, shift_clock: false, ..bus }),
{
    let s = bit_signals(high);
    assert(s.drop_last().drop_last().drop_last().drop_last().len() == 0);
    reveal_with_fuel(Bus::after_all, 5);
}

/// Shifting `n` bits in leaves the last bit's level on the data line and the
/// shift clock low.
pub proof fn lemma_bus_after_shift(bus: Bus, order: BitOrder, byte: u8, n: nat)
    requires
        n >= 1,
    ensures
        bus.after_all(shift_signals(order, byte, n)) == (Bus {
            data: shifted_bit(order, byte, n - 1),
            shift_clock: false,
            ..bus
        }),
    decreases n,
{
    let earlier = shift_signals(order, byte, (n - 1) as nat);
    let last = bit_signals(shifted_bit(order, byte, n - 1));
    lemma_bus_after_concat(bus, earlier, last);
    lemma_bus_after_bit(bus.after_all(earlier), shifted_bit(order, byte, n - 1));
    if n >= 2 {
        lemma_bus_after_shift(bus, order, byte, (n - 1) as nat);
    }
}

/// The rest signals bring every line low, whatever the lines were at.
pub proof fn lemma_bus_after_rest(bus: Bus)
    ensures
        bus.after_all(rest_signals()).all_low(),
{
    let s = rest_signals();
    assert(s.drop_last().drop_last().drop_last().len() == 0);
    reveal_with_fuel(Bus::after_all, 4);
}

} // verus!
