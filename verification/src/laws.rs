//! What the driver's signals do to a chain of shift registers.
//!
//! Each statement here is about the signals that [`HC595`] returns, named by
//! the spec functions of its contracts, and about the chain model
//! [`ChipState`] that [`ShiftRegister`] runs.
//!
//! [`HC595`]: crate::hc595::HC595
//! [`ShiftRegister`]: crate::chip::ShiftRegister

use vstd::prelude::*;
use crate::signal::{Bus, Line, Signal, pulse, lemma_bus_after_concat};
use crate::hc595::{
    BitOrder, bit_of, shifted_bit, bit_signals, shift_signals, serial_in_signals,
    parallel_out_signals, rest_signals, teardown_signals, lemma_bus_after_rest,
};
use crate::chip::{ChipState, shift_in};

verus! {

/// What the first `n` stages hold after the first `n` bits of `byte` were
/// shifted in: the bit shifted last is in stage 0.
pub open spec fn shifted_image(order: BitOrder, byte: u8, n: nat) -> Seq<bool> {
    Seq::new(n, |i: int| shifted_bit(order, byte, n - 1 - i))
}

/// What eight stages hold after `byte` was shifted in.
pub open spec fn byte_image(order: BitOrder, byte: u8) -> Seq<bool> {
    shifted_image(order, byte, 8)
}

/// The signals of one `serial_in` for each of `bytes`, first byte first.
pub open spec fn chain_signals(order: BitOrder, bytes: Seq<u8>) -> Seq<Signal>
    decreases bytes.len(),
{
    if bytes.len() == 0 {
        Seq::empty()
    } else {
        chain_signals(order, bytes.drop_last()) + serial_in_signals(order, bytes.last())
    }
}

/// What the stages hold after `bytes` were shifted in, first byte first: the
/// last byte is nearest the serial input, the first byte is furthest down.
pub open spec fn chain_image(order: BitOrder, bytes: Seq<u8>) -> Seq<bool>
    decreases bytes.len(),
{
    if bytes.len() == 0 {
        Seq::empty()
    } else {
        byte_image(order, bytes.last()) + chain_image(order, bytes.drop_last())
    }
}

/// Running two sequences one after the other is running their concatenation.
pub proof fn lemma_chip_after_concat(chip: ChipState, first: Seq<Signal>, second: Seq<Signal>)
    ensures
        chip.after_all(first + second) == chip.after_all(first).after_all(second),
    decreases second.len(),
{
    if second.len() == 0 {
        assert(first + second == first);
    } else {
        assert((first + second).drop_last() == first + second.drop_last());
        lemma_chip_after_concat(chip, first, second.drop_last());
    }
}

/// The chain sees on its input lines what the signals did to the bus.
pub proof fn lemma_chip_follows_bus(chip: ChipState, signals: Seq<Signal>)
    ensures
        chip.after_all(signals).bus == chip.bus.after_all(signals),
    decreases signals.len(),
{
    if signals.len() > 0 {
        lemma_chip_follows_bus(chip, signals.drop_last());
    }
}

/// With the shift clock low, the signals of one bit shift that bit in and
/// touch nothing else.
pub proof fn lemma_chip_after_bit(chip: ChipState, high: bool)
    requires
        !chip.bus.shift_clock,
    ensures
        chip.after_all(bit_signals(high)) == (ChipState {
            bus: Bus { data: high, shift_clock: false, ..chip.bus },
            stages: shift_in(chip.stages, high),
            outputs: chip.outputs,
        }),
{
    let s = bit_signals(high);
    assert(s.drop_last().drop_last().drop_last().drop_last().len() == 0);
    reveal_with_fuel(ChipState::after_all, 5);
}

/// With the shift clock low, the signals of the first `n` bits of `byte` put
/// those bits into the first stages and push what was there further down.
pub proof fn lemma_chip_after_shift(chip: ChipState, order: BitOrder, byte: u8, n: nat)
    requires
        !chip.bus.shift_clock,
    ensures
        ({
            let then = chip.after_all(shift_signals(order, byte, n));
            &&& then.stages == (shifted_image(order, byte, n) + chip.stages).take(
                chip.stages.len() as int,
            )
            &&& then.outputs == chip.outputs
            &&& !then.bus.shift_clock
            &&& then.bus.latch_clock == chip.bus.latch_clock
            &&& n > 0 ==> then.bus.data == shifted_bit(order, byte, n - 1)
            &&& n == 0 ==> then.bus.data == chip.bus.data
        }),
    decreases n,
{
    if n == 0 {
        assert((shifted_image(order, byte, 0) + chip.stages).take(chip.stages.len() as int)
            == chip.stages);
    } else {
        let earlier = shift_signals(order, byte, (n - 1) as nat);
        let bit = shifted_bit(order, byte, n - 1);
        lemma_chip_after_shift(chip, order, byte, (n - 1) as nat);
        lemma_chip_after_concat(chip, earlier, bit_signals(bit));
        let mid = chip.after_all(earlier);
        lemma_chip_after_bit(mid, bit);
        let len = chip.stages.len() as int;
        let before = shifted_image(order, byte, (n - 1) as nat) + chip.stages;
        let now = shifted_image(order, byte, n) + chip.stages;
        assert(now == seq![bit] + before);
        assert(shift_in(before.take(len), bit) == now.take(len));
    }
}

/// With the latch clock low, the latch pulse copies the stages to the
/// outputs and touches nothing else.
pub proof fn lemma_chip_after_latch(chip: ChipState)
    requires
        !chip.bus.latch_clock,
    ensures
        chip.after_all(parallel_out_signals()) == (ChipState {
            outputs: chip.stages,
            ..chip
        }),
{
    let s = pulse(Line::LatchClock);
    assert(s.drop_last().drop_last().drop_last().len() == 0);
    reveal_with_fuel(ChipState::after_all, 4);
}

/// The rest signals bring every line low and leave stages and outputs as
/// they are: driving a clock low is no rising edge.
pub proof fn lemma_chip_after_rest(chip: ChipState)
    ensures
        chip.after_all(rest_signals()) == (ChipState {
            bus: Bus { data: false, shift_clock: false, latch_clock: false },
            ..chip
        }),
{
    let s = rest_signals();
    assert(s.drop_last().drop_last().drop_last().len() == 0);
    reveal_with_fuel(ChipState::after_all, 4);
}

/// With the shift clock low, shifting `bytes` in one after the other puts
/// their images into the first stages, the last byte first, and pushes what
/// was there further down.
pub proof fn lemma_chip_after_chain(chip: ChipState, order: BitOrder, bytes: Seq<u8>)
    requires
        !chip.bus.shift_clock,
    ensures
        ({
            let then = chip.after_all(chain_signals(order, bytes));
            &&& then.stages == (chain_image(order, bytes) + chip.stages).take(
                chip.stages.len() as int,
            )
            &&& then.outputs == chip.outputs
            &&& !then.bus.shift_clock
            &&& then.bus.latch_clock == chip.bus.latch_clock
        }),
    decreases bytes.len(),
{
    let len = chip.stages.len() as int;
    if bytes.len() == 0 {
        assert((chain_image(order, bytes) + chip.stages).take(len) == chip.stages);
    } else {
        let earlier = bytes.drop_last();
        lemma_chip_after_chain(chip, order, earlier);
        lemma_chip_after_concat(
            chip,
            chain_signals(order, earlier),
            serial_in_signals(order, bytes.last()),
        );
        let mid = chip.after_all(chain_signals(order, earlier));
        lemma_chip_after_shift(mid, order, bytes.last(), 8);
        let older = chain_image(order, earlier) + chip.stages;
        let newest = byte_image(order, bytes.last());
        assert((newest + older.take(len)).take(len) == (newest + older).take(len));
        assert(newest + older == chain_image(order, bytes) + chip.stages);
    }
}

/// In the image of a chain, byte `back` counted from the last one shifted in
/// occupies the eight stages from `8 * back`.
pub proof fn lemma_chain_image_index(order: BitOrder, bytes: Seq<u8>, back: int, pin: int)
    requires
        0 <= back < bytes.len(),
        0 <= pin < 8,
    ensures
        chain_image(order, bytes).len() == 8 * bytes.len(),
        chain_image(order, bytes)[8 * back + pin] == byte_image(
            order,
            bytes[bytes.len() - 1 - back],
        )[pin],
    decreases bytes.len(),
{
    lemma_chain_image_len(order, bytes);
    lemma_chain_image_len(order, bytes.drop_last());
    if back > 0 {
        lemma_chain_image_index(order, bytes.drop_last(), back - 1, pin);
    }
}

/// The image of a chain has eight stages for each byte.
pub proof fn lemma_chain_image_len(order: BitOrder, bytes: Seq<u8>)
    ensures
        chain_image(order, bytes).len() == 8 * bytes.len(),
    decreases bytes.len(),
{
    if bytes.len() > 0 {
        lemma_chain_image_len(order, bytes.drop_last());
    }
}

/// Round trip: after `serial_in(byte)` and `parallel_out()` on one chip at
/// rest, the eight outputs are the eight bits of `byte`. Under
/// [`BitOrder::MsbFirst`] output `i` is bit `i`; under [`BitOrder::LsbFirst`]
/// output `i` is bit `7 - i`.
pub proof fn law_round_trip(chip: ChipState, order: BitOrder, byte: u8)
    requires
        chip.bus.clocks_low(),
        chip.stages.len() == 8,
    ensures
        ({
            let then = chip.after_all(serial_in_signals(order, byte) + parallel_out_signals());
            &&& then.outputs == byte_image(order, byte)
            &&& then.stages == then.outputs
            &&& then.bus.clocks_low()
            &&& forall|i: int|
                0 <= i < 8 ==> #[trigger] then.outputs[i] == match order {
                    BitOrder::MsbFirst => bit_of(byte, i as u8),
                    BitOrder::LsbFirst => bit_of(byte, (7 - i) as u8),
                }
        }),
{
    let shifted = chip.after_all(serial_in_signals(order, byte));
    lemma_chip_after_shift(chip, order, byte, 8);
    lemma_chip_after_concat(chip, serial_in_signals(order, byte), parallel_out_signals());
    lemma_chip_after_latch(shifted);
    assert((byte_image(order, byte) + chip.stages).take(8) == byte_image(order, byte));
}

/// Turning the bit order round mirrors the pattern: what one order puts on
/// output `i`, the other puts on output `7 - i`.
pub proof fn law_reversed_order_mirrors(byte: u8, i: int)
    requires
        0 <= i < 8,
    ensures
        byte_image(BitOrder::LsbFirst, byte)[i] == byte_image(BitOrder::MsbFirst, byte)[7 - i],
{
}

/// Chained shift: after any number of bytes were shifted in and latched once,
/// the outputs show the bytes from the last one back, as far as the chain is
/// long, and behind them what the stages held before.
pub proof fn law_chain(chip: ChipState, order: BitOrder, bytes: Seq<u8>)
    requires
        chip.bus.clocks_low(),
    ensures
        ({
            let then = chip.after_all(chain_signals(order, bytes) + parallel_out_signals());
            &&& then.outputs == (chain_image(order, bytes) + chip.stages).take(
                chip.stages.len() as int,
            )
            &&& then.stages == then.outputs
            &&& then.bus.clocks_low()
        }),
{
    lemma_chip_after_chain(chip, order, bytes);
    lemma_chip_after_concat(chip, chain_signals(order, bytes), parallel_out_signals());
    lemma_chip_after_latch(chip.after_all(chain_signals(order, bytes)));
}

/// Chained shift, output by output: byte `back` counted from the last one
/// shifted in (0 is the last) shows on the eight outputs from `8 * back`,
/// where the chain reaches that far. The older a byte, the further down the
/// chain it stands.
pub proof fn law_chain_output(
    chip: ChipState,
    order: BitOrder,
    bytes: Seq<u8>,
    back: int,
    pin: int,
)
    requires
        chip.bus.clocks_low(),
        0 <= back < bytes.len(),
        0 <= pin < 8,
        8 * back + pin < chip.stages.len(),
    ensures
        chip.after_all(chain_signals(order, bytes) + parallel_out_signals()).outputs[8 * back
            + pin] == byte_image(order, bytes[bytes.len() - 1 - back])[pin],
{
    law_chain(chip, order, bytes);
    lemma_chain_image_index(order, bytes, back, pin);
}

/// Teardown brings the data, shift-clock and latch-clock lines low from every
/// state of the chain and after any signals whatever, so also where a
/// sequence was broken off half way.
pub proof fn law_teardown_rests(chip: ChipState, before: Seq<Signal>, order: BitOrder)
    ensures
        chip.after_all(before + teardown_signals(order)).bus.all_low(),
{
    let entry = chip.after_all(before);
    let work = serial_in_signals(order, 0) + parallel_out_signals();
    lemma_chip_after_concat(chip, before, teardown_signals(order));
    lemma_chip_follows_bus(entry, teardown_signals(order));
    lemma_bus_after_concat(entry.bus, work, rest_signals());
    lemma_bus_after_rest(entry.bus.after_all(work));
}

/// Teardown of a chain whose clock lines are low switches the first eight
/// outputs off; the outputs behind them show what the first stages held.
pub proof fn law_teardown_clears(chip: ChipState, order: BitOrder)
    requires
        chip.bus.clocks_low(),
    ensures
        ({
            let then = chip.after_all(teardown_signals(order));
            &&& then.outputs == (Seq::new(8, |i: int| false) + chip.stages).take(
                chip.stages.len() as int,
            )
            &&& then.stages == then.outputs
        }),
{
    let work = serial_in_signals(order, 0) + parallel_out_signals();
    lemma_chip_after_shift(chip, order, 0, 8);
    lemma_chip_after_concat(chip, serial_in_signals(order, 0), parallel_out_signals());
    lemma_chip_after_latch(chip.after_all(serial_in_signals(order, 0)));
    lemma_chip_after_concat(chip, work, rest_signals());
    lemma_chip_after_rest(chip.after_all(work));
    assert(byte_image(order, 0) == Seq::new(8, |i: int| false)) by {
        assert forall|p: u8| p < 8 implies !bit_of(0, p) by {
            assert((0u8 >> p) & 1 == 0) by (bit_vector);
        }
    }
}

} // verus!
