use superkit_rust_code_for_raspberrypi::{BitOrder, Bus, Line, ShiftRegister, Signal, HC595};

fn drive(line: Line, high: bool) -> Signal {
    Signal::Drive { line, high }
}

/// The outputs of a chain, last output first, as 0 and 1.
fn pins_down(chain: &ShiftRegister) -> Vec<u8> {
    chain.outputs().iter().rev().map(|&high| u8::from(high)).collect()
}

fn show(order: BitOrder, chips: usize, bytes: &[u8]) -> ShiftRegister {
    let (mut driver, start) = HC595::new(order);
    let mut chain = ShiftRegister::new(chips);
    chain.run(&start);
    for &byte in bytes {
        chain.run(&driver.serial_in(byte));
    }
    chain.run(&driver.parallel_out());
    chain
}

#[test]
fn new_brings_all_lines_to_rest() {
    let (driver, signals) = HC595::new(BitOrder::MsbFirst);
    assert_eq!(
        signals,
        vec![
            drive(Line::Data, false),
            drive(Line::LatchClock, false),
            drive(Line::ShiftClock, false),
        ]
    );
    assert!(driver.bus().is_low());
    assert_eq!(driver.order(), BitOrder::MsbFirst);
    let (driver, _) = HC595::new(BitOrder::LsbFirst);
    assert_eq!(driver.order(), BitOrder::LsbFirst);
}

#[test]
fn serial_in_sends_each_bit_then_pulses_the_shift_clock() {
    let (mut driver, _) = HC595::new(BitOrder::MsbFirst);
    let signals = driver.serial_in(0xA5);
    let mut expected = Vec::new();
    for high in [true, false, true, false, false, true, false, true] {
        expected.push(drive(Line::Data, high));
        expected.push(drive(Line::ShiftClock, true));
        expected.push(Signal::Hold);
        expected.push(drive(Line::ShiftClock, false));
    }
    assert_eq!(signals, expected);
}

#[test]
fn serial_in_lsb_first_sends_bit_zero_first() {
    let (mut driver, _) = HC595::new(BitOrder::LsbFirst);
    let signals = driver.serial_in(0x01);
    assert_eq!(signals.len(), 32);
    assert_eq!(signals[0], drive(Line::Data, true));
    for k in 1..8 {
        assert_eq!(signals[4 * k], drive(Line::Data, false));
    }
}

#[test]
fn serial_in_makes_exactly_eight_clock_pulses() {
    for order in [BitOrder::MsbFirst, BitOrder::LsbFirst] {
        for byte in [0x00u8, 0x06, 0x80, 0xFF] {
            let (mut driver, _) = HC595::new(order);
            let signals = driver.serial_in(byte);
            let rising = signals.iter().filter(|&&s| s == drive(Line::ShiftClock, true)).count();
            let falling = signals.iter().filter(|&&s| s == drive(Line::ShiftClock, false)).count();
            let holds = signals.iter().filter(|&&s| s == Signal::Hold).count();
            assert_eq!((rising, falling, holds), (8, 8, 8));
            assert!(!signals.contains(&drive(Line::LatchClock, true)));
        }
    }
}

#[test]
fn serial_in_leaves_the_data_line_at_the_last_bit() {
    let (mut driver, _) = HC595::new(BitOrder::MsbFirst);
    driver.serial_in(0x01);
    assert_eq!(driver.bus(), Bus { data: true, shift_clock: false, latch_clock: false });
    driver.serial_in(0xFE);
    assert_eq!(driver.bus(), Bus { data: false, shift_clock: false, latch_clock: false });
    let (mut driver, _) = HC595::new(BitOrder::LsbFirst);
    driver.serial_in(0x80);
    assert_eq!(driver.bus(), Bus { data: true, shift_clock: false, latch_clock: false });
    driver.serial_in(0x7F);
    assert_eq!(driver.bus(), Bus { data: false, shift_clock: false, latch_clock: false });
}

#[test]
fn parallel_out_is_one_latch_pulse() {
    let (mut driver, _) = HC595::new(BitOrder::MsbFirst);
    let signals = driver.parallel_out();
    assert_eq!(
        signals,
        vec![drive(Line::LatchClock, true), Signal::Hold, drive(Line::LatchClock, false)]
    );
    assert!(driver.bus().is_low());
}

#[test]
fn six_msb_first() {
    let chain = show(BitOrder::MsbFirst, 1, &[0x06]);
    assert_eq!(pins_down(&chain), vec![0, 0, 0, 0, 0, 1, 1, 0]);
}

#[test]
fn six_lsb_first() {
    let chain = show(BitOrder::LsbFirst, 1, &[0x06]);
    assert_eq!(pins_down(&chain), vec![0, 1, 1, 0, 0, 0, 0, 0]);
}

#[test]
fn round_trip_of_every_byte() {
    for byte in 0..=255u8 {
        let msb = show(BitOrder::MsbFirst, 1, &[byte]);
        let lsb = show(BitOrder::LsbFirst, 1, &[byte]);
        assert_eq!(msb.len(), 8);
        for pin in 0..8usize {
            let bit = (byte >> pin) & 1 == 1;
            assert_eq!(msb.output(pin), bit, "byte {byte:#04x}, output {pin}");
            assert_eq!(lsb.output(7 - pin), bit, "byte {byte:#04x}, output {pin}");
        }
    }
}

#[test]
fn reversed_order_mirrors_the_pattern() {
    for byte in [0x06u8, 0x01, 0x80, 0x5b, 0xF0] {
        let msb = show(BitOrder::MsbFirst, 1, &[byte]).outputs();
        let mut lsb = show(BitOrder::LsbFirst, 1, &[byte]).outputs();
        lsb.reverse();
        assert_eq!(msb, lsb);
    }
}

#[test]
fn nothing_shows_before_the_latch() {
    let (mut driver, start) = HC595::new(BitOrder::MsbFirst);
    let mut chain = ShiftRegister::new(1);
    chain.run(&start);
    chain.run(&driver.serial_in(0xFF));
    assert_eq!(chain.outputs(), vec![false; 8]);
    assert_eq!(chain.stages(), vec![true; 8]);
    chain.run(&driver.parallel_out());
    assert_eq!(chain.outputs(), vec![true; 8]);
}

#[test]
fn chain_of_two_shows_both_bytes() {
    let chain = show(BitOrder::MsbFirst, 2, &[0x7f, 0xff]);
    assert_eq!(chain.len(), 16);
    // The byte shifted last is on the chip nearest the driver.
    assert_eq!(pins_down(&chain), vec![0, 1, 1, 1, 1, 1, 1, 1, 1, 1, 1, 1, 1, 1, 1, 1]);
}

#[test]
fn chain_shows_the_last_bytes_only() {
    let chain = show(BitOrder::MsbFirst, 2, &[0xAA, 0x01, 0x80]);
    let outputs = chain.outputs();
    for pin in 0..8usize {
        assert_eq!(outputs[pin], (0x80u8 >> pin) & 1 == 1);
        assert_eq!(outputs[8 + pin], (0x01u8 >> pin) & 1 == 1);
    }
    let one = show(BitOrder::MsbFirst, 1, &[0xAA, 0x01, 0x80]);
    assert_eq!(pins_down(&one), vec![1, 0, 0, 0, 0, 0, 0, 0]);
}

#[test]
fn short_chain_input_pushes_old_stages_down() {
    let (mut driver, start) = HC595::new(BitOrder::MsbFirst);
    let mut chain = ShiftRegister::new(3);
    chain.run(&start);
    chain.run(&driver.serial_in(0xFF));
    chain.run(&driver.parallel_out());
    chain.run(&driver.serial_in(0x0F));
    chain.run(&driver.parallel_out());
    let outputs = chain.outputs();
    for pin in 0..8usize {
        assert_eq!(outputs[pin], pin < 4);
        assert!(outputs[8 + pin]);
        assert!(!outputs[16 + pin]);
    }
}

#[test]
fn empty_chain_has_no_outputs() {
    let chain = show(BitOrder::MsbFirst, 0, &[0xFF]);
    assert_eq!(chain.len(), 0);
    assert!(chain.outputs().is_empty());
    assert_eq!(chain.bus(), Bus { data: true, shift_clock: false, latch_clock: false });
}

#[test]
fn teardown_sends_zero_latches_and_rests() {
    let (mut driver, _) = HC595::new(BitOrder::MsbFirst);
    let (mut other, _) = HC595::new(BitOrder::MsbFirst);
    let mut expected = other.serial_in(0);
    expected.extend(other.parallel_out());
    expected.push(drive(Line::Data, false));
    expected.push(drive(Line::LatchClock, false));
    expected.push(drive(Line::ShiftClock, false));
    driver.serial_in(0xFF);
    assert_eq!(driver.teardown(), expected);
    assert!(driver.bus().is_low());
}

#[test]
fn teardown_switches_the_outputs_off() {
    for order in [BitOrder::MsbFirst, BitOrder::LsbFirst] {
        let (mut driver, start) = HC595::new(order);
        let mut chain = ShiftRegister::new(1);
        chain.run(&start);
        chain.run(&driver.serial_in(0xFF));
        chain.run(&driver.parallel_out());
        assert_eq!(chain.outputs(), vec![true; 8]);
        chain.run(&driver.teardown());
        assert_eq!(chain.outputs(), vec![false; 8]);
        assert!(chain.bus().is_low());
        assert!(driver.bus().is_low());
    }
}

#[test]
fn teardown_rests_the_lines_after_a_broken_sequence() {
    for cut in 0..=32usize {
        let (mut driver, start) = HC595::new(BitOrder::MsbFirst);
        let mut chain = ShiftRegister::new(1);
        chain.run(&start);
        let signals = driver.serial_in(0xFF);
        chain.run(&signals[..cut].to_vec());
        chain.run(&driver.teardown());
        assert!(chain.bus().is_low(), "cut after {cut} signals");
        assert!(driver.bus().is_low());
    }
}

#[test]
fn teardown_rests_the_lines_from_every_level() {
    for levels in 0..8u8 {
        let mut bus = Bus {
            data: levels & 1 != 0,
            shift_clock: levels & 2 != 0,
            latch_clock: levels & 4 != 0,
        };
        let (mut driver, _) = HC595::new(BitOrder::LsbFirst);
        bus.run(&driver.teardown());
        assert!(bus.is_low());
    }
}

#[test]
fn teardown_twice_is_as_good_as_once() {
    let (mut driver, start) = HC595::new(BitOrder::MsbFirst);
    let mut chain = ShiftRegister::new(1);
    chain.run(&start);
    chain.run(&driver.serial_in(0x5b));
    chain.run(&driver.parallel_out());
    chain.run(&driver.teardown());
    let once = (chain.outputs(), chain.stages(), chain.bus());
    chain.run(&driver.teardown());
    assert_eq!((chain.outputs(), chain.stages(), chain.bus()), once);
}

#[test]
fn only_a_rising_edge_shifts() {
    let mut chain = ShiftRegister::new(1);
    chain.apply(drive(Line::Data, true));
    chain.apply(drive(Line::ShiftClock, true));
    assert_eq!(chain.stages()[0], true);
    assert_eq!(chain.stages()[1], false);
    // The clock is high already: a second drive high is no edge.
    chain.apply(drive(Line::ShiftClock, true));
    assert_eq!(chain.stages()[1], false);
    chain.apply(drive(Line::ShiftClock, false));
    assert_eq!(chain.stages()[1], false);
    chain.apply(Signal::Hold);
    chain.apply(drive(Line::ShiftClock, true));
    assert_eq!(chain.stages()[1], true);
}

#[test]
fn only_a_rising_edge_latches() {
    let mut chain = ShiftRegister::new(1);
    chain.apply(drive(Line::LatchClock, true));
    chain.apply(drive(Line::Data, true));
    chain.apply(drive(Line::ShiftClock, true));
    chain.apply(drive(Line::LatchClock, true));
    assert_eq!(chain.outputs(), vec![false; 8]);
    chain.apply(drive(Line::LatchClock, false));
    assert_eq!(chain.outputs(), vec![false; 8]);
    chain.apply(drive(Line::LatchClock, true));
    assert_eq!(chain.output(0), true);
    assert_eq!(chain.output(1), false);
}

#[test]
fn bus_follows_the_signals() {
    let mut bus = Bus::low();
    bus.apply(drive(Line::Data, true));
    assert!(bus.level(Line::Data));
    assert!(!bus.level(Line::ShiftClock));
    assert!(!bus.level(Line::LatchClock));
    bus.apply(Signal::Hold);
    assert_eq!(bus, Bus { data: true, shift_clock: false, latch_clock: false });
    bus.run(&vec![drive(Line::ShiftClock, true), drive(Line::LatchClock, true)]);
    assert_eq!(bus, Bus { data: true, shift_clock: true, latch_clock: true });
    assert!(!bus.is_low());
}

#[test]
fn driver_and_chain_see_the_same_lines() {
    let (mut driver, start) = HC595::new(BitOrder::LsbFirst);
    let mut chain = ShiftRegister::new(2);
    chain.run(&start);
    for byte in [0x01u8, 0xfe, 0x80, 0x7d] {
        chain.run(&driver.serial_in(byte));
        assert_eq!(chain.bus(), driver.bus());
        chain.run(&driver.parallel_out());
        assert_eq!(chain.bus(), driver.bus());
    }
}
