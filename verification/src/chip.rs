//! A chain of shift registers as seen from the bus.
//!
//! The chain is what the driver's signals mean: a rising edge of the shift
//! clock moves every stage one place away from the serial input and takes the
//! level of the data line into stage 0; a rising edge of the latch clock
//! copies the stages to the outputs. [`ChipState`] is the mathematical model,
//! [`ShiftRegister`] the same thing in executable form, for trying a sequence
//! of signals without hardware.

use vstd::prelude::*;
use crate::signal::{Bus, Line, Signal};

verus! {

/// What a chain of shift registers holds: the levels last seen on its three
/// input lines, its stages (stage 0 is nearest the serial input) and its
/// latched outputs (output `i` belongs to stage `i`).
pub struct ChipState {
    pub bus: Bus,
    pub stages: Seq<bool>,
    pub outputs: Seq<bool>,
}

/// The stages after one shift: `bit` enters at stage 0, the last stage falls
/// off the end.
pub open spec fn shift_in(stages: Seq<bool>, bit: bool) -> Seq<bool> {
    if stages.len() == 0 {
        stages
    } else {
        seq![bit] + stages.drop_last()
    }
}

impl ChipState {
    /// `signal` is a rising edge of the shift clock.
    pub open spec fn shifts_on(self, signal: Signal) -> bool {
        signal == (Signal::Drive { line: Line::ShiftClock, high: true }) && !self.bus.shift_clock
    }

    /// `signal` is a rising edge of the latch clock.
    pub open spec fn latches_on(self, signal: Signal) -> bool {
        signal == (Signal::Drive { line: Line::LatchClock, high: true }) && !self.bus.latch_clock
    }

    /// The chain after one signal.
    pub open spec fn after(self, signal: Signal) -> ChipState {
        ChipState {
            bus: self.bus.after(signal),
            stages: if self.shifts_on(signal) {
                shift_in(self.stages, self.bus.data)
            } else {
                self.stages
            },
            outputs: if self.latches_on(signal) {
                self.stages
            } else {
                self.outputs
            },
        }
    }

    /// The chain after a sequence of signals, taken from left to right.
    pub open spec fn after_all(self, signals: Seq<Signal>) -> ChipState
        decreases signals.len(),
    {
        if signals.len() == 0 {
            self
        } else {
            self.after_all(signals.drop_last()).after(signals.last())
        }
    }
}

/// An executable chain of 8-bit shift registers.
#[derive(Debug)]
pub struct ShiftRegister {
    bus: Bus,
    stages: Vec<bool>,
    outputs: Vec<bool>,
}

impl View for ShiftRegister {
    type V = ChipState;

    closed spec fn view(&self) -> ChipState {
        ChipState { bus: self.bus, stages: self.stages@, outputs: self.outputs@ }
    }
}

impl ShiftRegister {
    /// There is one output for each stage.
    pub open spec fn wf(&self) -> bool {
        self@.outputs.len() == self@.stages.len()
    }

    /// A chain of `chips` registers, eight stages each, with every stage,
    /// output and line low.
    pub fn new(chips: usize) -> (chain: ShiftRegister)
        requires
            chips * 8 <= usize::MAX,
        ensures
            chain.wf(),
            chain@.bus.all_low(),
            chain@.stages == Seq::new((chips * 8) as nat, |i: int| false),
            chain@.outputs == chain@.stages,
    {
        let mut stages: Vec<bool> = Vec::new();
        let mut outputs: Vec<bool> = Vec::new();
        let mut n: usize = 0;
        while n < chips * 8
            invariant
                chips * 8 <= usize::MAX,
                n <= chips * 8,
                stages@ == Seq::new(n as nat, |i: int| false),
                outputs@ == stages@,
            decreases chips * 8 - n,
        {
            stages.push(false);
            outputs.push(false);
            n += 1;
        }
        ShiftRegister { bus: Bus::low(), stages, outputs }
    }

    /// The levels last seen on the three input lines.
    pub fn bus(&self) -> (bus: Bus)
        ensures
            bus == self@.bus,
    {
        self.bus
    }

    /// The number of outputs.
    pub fn len(&self) -> (n: usize)
        ensures
            n == self@.outputs.len(),
    {
        self.outputs.len()
    }

    /// The level of output `pin`.
    pub fn output(&self, pin: usize) -> (high: bool)
        requires
            pin < self@.outputs.len(),
        ensures
            high == self@.outputs[pin as int],
    {
        self.outputs[pin]
    }

    /// The levels of all outputs, output 0 first.
    pub fn outputs(&self) -> (levels: Vec<bool>)
        ensures
            levels@ == self@.outputs,
    {
        copy_levels(&self.outputs)
    }

    /// The levels of all stages, stage 0 first.
    pub fn stages(&self) -> (levels: Vec<bool>)
        ensures
            levels@ == self@.stages,
    {
        copy_levels(&self.stages)
    }

    /// Lets the chain see one signal.
    pub fn apply(&mut self, signal: Signal)
        requires
            old(self).wf(),
        ensures
            final(self).wf(),
            final(self)@ == old(self)@.after(signal),
    {
        match signal {
            Signal::Drive { line: Line::ShiftClock, high: true } => {
                if !self.bus.shift_clock && self.stages.len() > 0 {
                    self.stages.pop();
                    self.stages.insert(0, self.bus.data);
                    proof {
                        assert(self.stages@ == shift_in(old(self).stages@, old(self).bus.data));
                    }
                }
            },
            Signal::Drive { line: Line::LatchClock, high: true } => {
                if !self.bus.latch_clock {
                    self.outputs = copy_levels(&self.stages);
                }
            },
            _ => {},
        }
        self.bus.apply(signal);
    }

    /// Lets the chain see `signals` from first to last.
    pub fn run(&mut self, signals: &Vec<Signal>)
        requires
            old(self).wf(),
        ensures
            final(self).wf(),
            final(self)@ == old(self)@.after_all(signals@),
    {
        let mut i: usize = 0;
        while i < signals.len()
            invariant
                i <= signals.len(),
                self.wf(),
                self@ == old(self)@.after_all(signals@.take(i as int)),
            decreases signals.len() - i,
        {
            proof {
                assert(signals@.take(i + 1).drop_last() == signals@.take(i as int));
            }
            self.apply(signals[i]);
            i += 1;
        }
        proof {
            assert(signals@.take(i as int) == signals@);
        }
    }
}

/// A copy of `levels`.
fn copy_levels(levels: &Vec<bool>) -> (copy: Vec<bool>)
    ensures
        copy@ == levels@,
{
    let mut copy: Vec<bool> = Vec::new();
    let mut i: usize = 0;
    while i < levels.len()
        invariant
            i <= levels.len(),
            copy@ == levels@.take(i as int),
        decreases levels.len() - i,
    {
        copy.push(levels[i]);
        proof {
            assert(copy@ == levels@.take(i + 1));
        }
        i += 1;
    }
    proof {
        assert(levels@.take(i as int) == levels@);
    }
    copy
}

} // verus!
