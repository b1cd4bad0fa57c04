//! Decoder for a quadrature rotary encoder with a reset switch.
//!
//! The encoder has two channels, A and B, a quarter of a cycle apart. The
//! decoder is polled with the levels of both. Whenever A differs from the
//! sample before, the shaft has turned: clockwise if B differs from A at that
//! moment, counter-clockwise if B equals A. Each such edge of A moves a signed
//! count by one; a falling edge on the switch line sets the count to zero.
//!
//! The decoder does no locking of its own. Where the reset arrives on another
//! thread than the polling, the owner shares the decoder behind a lock.

use vstd::prelude::*;

verus! {

/// The way the shaft has turned.
#[derive(Clone, Copy, Debug, PartialEq, Eq, Structural)]
pub enum Direction {
    Clockwise,
    CounterClockwise,
}

/// The levels of channel A and channel B at one moment; `true` is high.
#[derive(Clone, Copy, Debug, PartialEq, Eq, Structural)]
pub struct Phase {
    pub a: bool,
    pub b: bool,
}

impl Phase {
    /// The phase a quarter of a cycle further clockwise.
    pub open spec fn clockwise(self) -> Phase {
        if self.a == self.b {
            Phase { a: !self.a, b: self.b }
        } else {
            Phase { a: self.a, b: !self.b }
        }
    }

    /// The phase a quarter of a cycle further counter-clockwise.
    pub open spec fn counter_clockwise(self) -> Phase {
        if self.a == self.b {
            Phase { a: self.a, b: !self.b }
        } else {
            Phase { a: !self.a, b: self.b }
        }
    }
}

/// What a sample says of the shaft, given the level of A in the sample
/// before: nothing while A is unchanged; on an edge of A, clockwise if B
/// differs from A, counter-clockwise otherwise.
pub open spec fn turn_of(last_a: bool, a: bool, b: bool) -> Option<Direction> {
    if a == last_a {
        None
    } else if b != a {
        Some(Direction::Clockwise)
    } else {
        Some(Direction::CounterClockwise)
    }
}

/// The count one higher, wrapping round at the top of the range.
pub open spec fn count_up(count: i32) -> i32 {
    if count == i32::MAX {
        i32::MIN
    } else {
        (count + 1) as i32
    }
}

/// The count one lower, wrapping round at the bottom of the range.
pub open spec fn count_down(count: i32) -> i32 {
    if count == i32::MIN {
        i32::MAX
    } else {
        (count - 1) as i32
    }
}

/// The count after `n` steps up.
pub open spec fn count_up_by(count: i32, n: nat) -> i32
    decreases n,
{
    if n == 0 {
        count
    } else {
        count_up(count_up_by(count, (n - 1) as nat))
    }
}

/// The count after `n` steps down.
pub open spec fn count_down_by(count: i32, n: nat) -> i32
    decreases n,
{
    if n == 0 {
        count
    } else {
        count_down(count_down_by(count, (n - 1) as nat))
    }
}

/// What the decoder remembers: the level of A in the last sample, and the
/// count.
pub struct DecoderState {
    pub last_a: bool,
    pub count: i32,
}

impl DecoderState {
    /// The state after a sample with the levels `a` and `b`.
    pub open spec fn after_sample(self, a: bool, b: bool) -> DecoderState {
        DecoderState {
            last_a: a,
            count: match turn_of(self.last_a, a, b) {
                None => self.count,
                Some(Direction::Clockwise) => count_up(self.count),
                Some(Direction::CounterClockwise) => count_down(self.count),
            },
        }
    }

    /// The state after a falling edge on the switch line.
    pub open spec fn after_reset(self) -> DecoderState {
        DecoderState { last_a: self.last_a, count: 0 }
    }

    /// The state after a train of samples, first sample first.
    pub open spec fn after_samples(self, samples: Seq<Phase>) -> DecoderState
        decreases samples.len(),
    {
        if samples.len() == 0 {
            self
        } else {
            self.after_samples(samples.drop_last()).after_sample(
                samples.last().a,
                samples.last().b,
            )
        }
    }
}

/// The phase that sample `k` of a train follows: the sample before it, or
/// `start` for the first.
pub open spec fn phase_before(start: Phase, samples: Seq<Phase>, k: int) -> Phase {
    if k == 0 {
        start
    } else {
        samples[k - 1]
    }
}

/// From `start` on the shaft only turns clockwise, and no quarter of a cycle
/// is missed: each sample shows the phase before it or the next one clockwise.
pub open spec fn turns_clockwise(start: Phase, samples: Seq<Phase>) -> bool {
    forall|k: int|
        0 <= k < samples.len() ==> {
            let before = phase_before(start, samples, k);
            #[trigger] samples[k] == before || samples[k] == before.clockwise()
        }
}

/// From `start` on the shaft only turns counter-clockwise, and no quarter of
/// a cycle is missed.
pub open spec fn turns_counter_clockwise(start: Phase, samples: Seq<Phase>) -> bool {
    forall|k: int|
        0 <= k < samples.len() ==> {
            let before = phase_before(start, samples, k);
            #[trigger] samples[k] == before || samples[k] == before.counter_clockwise()
        }
}

/// The number of samples of a train in which A differs from the sample
/// before; `start` stands before the first.
pub open spec fn a_edges(start: Phase, samples: Seq<Phase>) -> nat
    decreases samples.len(),
{
    if samples.len() == 0 {
        0
    } else {
        let k = samples.len() - 1;
        let edge: nat = if samples[k].a != phase_before(start, samples, k).a {
            1
        } else {
            0
        };
        a_edges(start, samples.drop_last()) + edge
    }
}

/// Decoder of the two channels of a rotary encoder.
#[derive(Debug)]
pub struct QuadratureDecoder {
    last_a: bool,
    count: i32,
}

impl View for QuadratureDecoder {
    type V = DecoderState;

    closed spec fn view(&self) -> DecoderState {
        DecoderState { last_a: self.last_a, count: self.count }
    }
}

impl QuadratureDecoder {
    /// A decoder with a count of zero. `first_a` is the level of channel A
    /// read when the decoder is made, so that the first poll sees an edge
    /// only if A has moved since.
    pub fn new(first_a: bool) -> (decoder: QuadratureDecoder)
        ensures
            decoder@ == (DecoderState { last_a: first_a, count: 0 }),
    {
        QuadratureDecoder { last_a: first_a, count: 0 }
    }

    /// Takes one sample of the two channels. On an edge of A the count goes
    /// up by one if B differs from A and down by one if B equals A; without
    /// an edge nothing changes. Returns which way the shaft turned, if it
    /// did.
    pub fn poll(&mut self, a: bool, b: bool) -> (turn: Option<Direction>)
        ensures
            turn == turn_of(old(self)@.last_a, a, b),
            final(self)@ == old(self)@.after_sample(a, b),
    {
        let turn = if a == self.last_a {
            None
        } else if b != a {
            self.count = if self.count == i32::MAX {
                i32::MIN
            } else {
                self.count + 1
            };
            Some(Direction::Clockwise)
        } else {
            self.count = if self.count == i32::MIN {
                i32::MAX
            } else {
                self.count - 1
            };
            Some(Direction::CounterClockwise)
        };
        self.last_a = a;
        turn
    }

    /// Handles a falling edge on the switch line: the count becomes zero,
    /// whatever it was. The remembered level of A stays, so the edge is no
    /// turn and hides none.
    pub fn reset(&mut self)
        ensures
            final(self)@ == old(self)@.after_reset(),
            final(self)@.count == 0,
            final(self)@.last_a == old(self)@.last_a,
    {
        self.count = 0;
    }

    /// The count.
    pub fn read_count(&self) -> (count: i32)
        ensures
            count == self@.count,
    {
        self.count
    }

    /// The level of channel A in the last sample.
    pub fn last_a(&self) -> (level: bool)
        ensures
            level == self@.last_a,
    {
        self.last_a
    }
}

/// A train of samples leaves the decoder with the level of A of its last
/// sample.
pub proof fn lemma_last_a_follows(state: DecoderState, start: Phase, samples: Seq<Phase>)
    requires
        state.last_a == start.a,
    ensures
        state.after_samples(samples).last_a == phase_before(
            start,
            samples,
            samples.len() as int,
        ).a,
{
}

/// While the shaft turns clockwise, the count goes up by one for each edge of
/// A and never down.
pub proof fn law_clockwise_counts_up(state: DecoderState, start: Phase, samples: Seq<Phase>)
    requires
        state.last_a == start.a,
        turns_clockwise(start, samples),
    ensures
        state.after_samples(samples).count == count_up_by(state.count, a_edges(start, samples)),
        state.count + a_edges(start, samples) <= i32::MAX ==> state.after_samples(samples).count
            == state.count + a_edges(start, samples),
    decreases samples.len(),
{
    if state.count + a_edges(start, samples) <= i32::MAX {
        lemma_count_up_by_adds(state.count, a_edges(start, samples));
    }
    if samples.len() > 0 {
        let earlier = samples.drop_last();
        let k = samples.len() - 1;
        assert forall|j: int| 0 <= j < earlier.len() implies {
            let before = phase_before(start, earlier, j);
            #[trigger] earlier[j] == before || earlier[j] == before.clockwise()
        } by {
            assert(earlier[j] == samples[j]);
            assert(phase_before(start, earlier, j) == phase_before(start, samples, j));
        }
        law_clockwise_counts_up(state, start, earlier);
        lemma_last_a_follows(state, start, earlier);
        assert(phase_before(start, earlier, earlier.len() as int) == phase_before(
            start,
            samples,
            k,
        ));
        let before = phase_before(start, samples, k);
        assert(samples[k] == before || samples[k] == before.clockwise());
    }
}

/// While the shaft turns counter-clockwise, the count goes down by one for
/// each edge of A and never up.
pub proof fn law_counter_clockwise_counts_down(
    state: DecoderState,
    start: Phase,
    samples: Seq<Phase>,
)
    requires
        state.last_a == start.a,
        turns_counter_clockwise(start, samples),
    ensures
        state.after_samples(samples).count == count_down_by(
            state.count,
            a_edges(start, samples),
        ),
        state.count - a_edges(start, samples) >= i32::MIN ==> state.after_samples(samples).count
            == state.count - a_edges(start, samples),
    decreases samples.len(),
{
    if state.count - a_edges(start, samples) >= i32::MIN {
        lemma_count_down_by_subtracts(state.count, a_edges(start, samples));
    }
    if samples.len() > 0 {
        let earlier = samples.drop_last();
        let k = samples.len() - 1;
        assert forall|j: int| 0 <= j < earlier.len() implies {
            let before = phase_before(start, earlier, j);
            #[trigger] earlier[j] == before || earlier[j] == before.counter_clockwise()
        } by {
            assert(earlier[j] == samples[j]);
            assert(phase_before(start, earlier, j) == phase_before(start, samples, j));
        }
        law_counter_clockwise_counts_down(state, start, earlier);
        lemma_last_a_follows(state, start, earlier);
        assert(phase_before(start, earlier, earlier.len() as int) == phase_before(
            start,
            samples,
            k,
        ));
        let before = phase_before(start, samples, k);
        assert(samples[k] == before || samples[k] == before.counter_clockwise());
    }
}

/// One detent clockwise: a clean clockwise train of samples, however often
/// each phase is sampled, in which A changes once moves the count up by
/// exactly one.
pub proof fn law_detent_clockwise(state: DecoderState, start: Phase, samples: Seq<Phase>)
    requires
        state.last_a == start.a,
        turns_clockwise(start, samples),
        a_edges(start, samples) == 1,
    ensures
        state.after_samples(samples).count == count_up(state.count),
{
    law_clockwise_counts_up(state, start, samples);
    reveal_with_fuel(count_up_by, 2);
}

/// One detent counter-clockwise: the mirrored train moves the count down by
/// exactly one.
pub proof fn law_detent_counter_clockwise(
    state: DecoderState,
    start: Phase,
    samples: Seq<Phase>,
)
    requires
        state.last_a == start.a,
        turns_counter_clockwise(start, samples),
        a_edges(start, samples) == 1,
    ensures
        state.after_samples(samples).count == count_down(state.count),
{
    law_counter_clockwise_counts_down(state, start, samples);
    reveal_with_fuel(count_down_by, 2);
}

/// Away from the ends of the range, `n` steps up add `n`.
pub proof fn lemma_count_up_by_adds(count: i32, n: nat)
    requires
        count + n <= i32::MAX,
    ensures
        count_up_by(count, n) == count + n,
    decreases n,
{
    if n > 0 {
        lemma_count_up_by_adds(count, (n - 1) as nat);
    }
}

/// Away from the ends of the range, `n` steps down take `n` off.
pub proof fn lemma_count_down_by_subtracts(count: i32, n: nat)
    requires
        count - n >= i32::MIN,
    ensures
        count_down_by(count, n) == count - n,
    decreases n,
{
    if n > 0 {
        lemma_count_down_by_subtracts(count, (n - 1) as nat);
    }
}

/// A reset sets the count to zero whatever it was, and is no turn: the sample
/// after it is judged as it would have been without the reset.
pub proof fn law_reset_is_no_turn(state: DecoderState, a: bool, b: bool)
    ensures
        state.after_reset().count == 0,
        state.after_reset().last_a == state.last_a,
        turn_of(state.after_reset().last_a, a, b) == turn_of(state.last_a, a, b),
{
}

} // verus!
