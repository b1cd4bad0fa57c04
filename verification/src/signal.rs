//! The wires of the serial bus and the signals that travel on them.
//!
//! The driver never touches a pin. It says what has to happen on the three
//! lines as a sequence of [`Signal`]s, and whoever owns the pins carries the
//! sequence out in order. A [`Bus`] records the level each line is left at.

use vstd::prelude::*;

verus! {

/// Shortest time, in microseconds, that a clock line is held high in a pulse.
pub const PULSE_WIDTH_MICROS: u64 = 1;

/// One of the three wires between the driver and the shift register.
#[derive(Clone, Copy, Debug, PartialEq, Eq, Structural)]
pub enum Line {
    /// Serial data input of the chip.
    Data,
    /// Shift-register clock: a rising edge moves every stage one place on.
    ShiftClock,
    /// Storage-register clock: a rising edge copies the stages to the outputs.
    LatchClock,
}

/// One action on the bus.
#[derive(Clone, Copy, Debug, PartialEq, Eq, Structural)]
pub enum Signal {
    /// Drive `line` to logic high (`high == true`) or logic low.
    Drive { line: Line, high: bool },
    /// Leave every line as it is for at least [`PULSE_WIDTH_MICROS`].
    Hold,
}

/// Logic levels of the three lines; `true` is high.
#[derive(Clone, Copy, Debug, PartialEq, Eq, Structural)]
pub struct Bus {
    pub data: bool,
    pub shift_clock: bool,
    pub latch_clock: bool,
}

/// A full pulse on `line`: high, held for the pulse width, low again.
pub open spec fn pulse(line: Line) -> Seq<Signal> {
    seq![
        Signal::Drive { line, high: true },
        Signal::Hold,
        Signal::Drive { line, high: false },
    ]
}

impl Bus {
    /// The level of `line`.
    pub open spec fn level_of(self, line: Line) -> bool {
        match line {
            Line::Data => self.data,
            Line::ShiftClock => self.shift_clock,
            Line::LatchClock => self.latch_clock,
        }
    }

    /// All three lines are low.
    pub open spec fn all_low(self) -> bool {
        !self.data && !self.shift_clock && !self.latch_clock
    }

    /// Both clock lines are low, so that the next pulse starts with a rising
    /// edge.
    pub open spec fn clocks_low(self) -> bool {
        !self.shift_clock && !self.latch_clock
    }

    /// The bus after one signal.
    pub open spec fn after(self, signal: Signal) -> Bus {
        match signal {
            Signal::Drive { line: Line::Data, high } => Bus { data: high, ..self },
            Signal::Drive { line: Line::ShiftClock, high } => Bus { shift_clock: high, ..self },
            Signal::Drive { line: Line::LatchClock, high } => Bus { latch_clock: high, ..self },
            Signal::Hold => self,
        }
    }

    /// The bus after a sequence of signals, carried out from left to right.
    pub open spec fn after_all(self, signals: Seq<Signal>) -> Bus
        decreases signals.len(),
    {
        if signals.len() == 0 {
            self
        } else {
            self.after_all(signals.drop_last()).after(signals.last())
        }
    }

    /// A bus with every line low.
    pub fn low() -> (bus: Bus)
        ensures
            bus == (Bus { data: false, shift_clock: false, latch_clock: false }),
    {
        Bus { data: false, shift_clock: false, latch_clock: false }
    }

    /// Reads the level of `line`.
    pub fn level(&self, line: Line) -> (high: bool)
        ensures
            high == self.level_of(line),
    {
        match line {
            Line::Data => self.data,
            Line::ShiftClock => self.shift_clock,
            Line::LatchClock => self.latch_clock,
        }
    }

    /// Whether all three lines are low.
    pub fn is_low(&self) -> (low: bool)
        ensures
            low == self.all_low(),
    {
        !self.data && !self.shift_clock && !self.latch_clock
    }

    /// Carries out one signal.
    pub fn apply(&mut self, signal: Signal)
        ensures
            *final(self) == old(self).after(signal),
    {
        match signal {
            Signal::Drive { line, high } => {
                match line {
                    Line::Data => {
                        self.data = high;
                    },
                    Line::ShiftClock => {
                        self.shift_clock = high;
                    },
                    Line::LatchClock => {
                        self.latch_clock = high;
                    },
                }
            },
            Signal::Hold => {},
        }
    }

    /// Carries out `signals` from first to last.
    pub fn run(&mut self, signals: &Vec<Signal>)
        ensures
            *final(self) == old(self).after_all(signals@),
    {
        let mut i: usize = 0;
        while i < signals.len()
            invariant
                i <= signals.len(),
                *self == old(self).after_all(signals@.take(i as int)),
            decreases signals.len() - i,
        {
            proof {
                assert(signals@.take(i + 1).drop_last() == signals@.take(i as int));
            }
            self.apply(signals[i]);
            i += 1;
        }
        proof {
            assert(signals@.take(i as int) == signals@);
        }
    }
}

/// Running two sequences one after the other is running their concatenation.
pub proof fn lemma_bus_after_concat(bus: Bus, first: Seq<Signal>, second: Seq<Signal>)
    ensures
        bus.after_all(first + second) == bus.after_all(first).after_all(second),
    decreases second.len(),
{
    if second.len() == 0 {
        assert(first + second == first);
    } else {
        assert((first + second).drop_last() == first + second.drop_last());
        lemma_bus_after_concat(bus, first, second.drop_last());
    }
}

/// After a pulse the pulsed line is low and the other two are as before.
pub proof fn lemma_bus_after_pulse(bus: Bus, line: Line)
    ensures
        bus.after_all(pulse(line)) == bus.after(Signal::Drive { line, high: false }),
{
    let s = pulse(line);
    assert(s.drop_last().drop_last().drop_last().len() == 0);
    reveal_with_fuel(Bus::after_all, 4);
}

} // verus!
