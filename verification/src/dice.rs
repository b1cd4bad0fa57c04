//! A die on a seven-segment display.
//!
//! The patterns are written for a driver that shifts the most significant
//! bit first: bit 0 lights segment a, bit 6 segment g, bit 7 the decimal
//! point.

use vstd::prelude::*;
use rand::Rng;
use rand::rngs::ThreadRng;

verus! {

/// The number of faces of the die.
pub const FACES: usize = 6;

/// One face of the die: its number, from 1 to 6, and the segment pattern
/// that shows the number.
#[derive(Clone, Copy, Debug, PartialEq, Eq, Structural)]
pub struct Roll {
    pub face: u8,
    pub pattern: u8,
}

/// The segment pattern of the digits 1 to 6.
pub open spec fn pattern_of(face: int) -> u8 {
    if face == 1 {
        0x06
    } else if face == 2 {
        0x5b
    } else if face == 3 {
        0x4f
    } else if face == 4 {
        0x66
    } else if face == 5 {
        0x6d
    } else {
        0x7d
    }
}

/// rand's thread-local generator, carried through to [`random_below`].
#[verifier::external_type_specification]
#[verifier::external_body]
pub struct ExThreadRng(ThreadRng);

/// `Rng::gen_range(0, bound)` on rand's thread-local generator. The claim is
/// what its documentation gives for every outcome: a value from 0 up to but
/// not including `bound`. It panics where the range is empty, so `bound`
/// must not be 0.
#[verifier::external_body]
fn random_below(rng: &mut ThreadRng, bound: usize) -> (index: usize)
    requires
        bound > 0,
    ensures
        index < bound,
{
    rng.gen_range(0, bound)
}

/// The face with the given index, counted from 0.
pub fn face_at(index: usize) -> (roll: Roll)
    requires
        index < FACES,
    ensures
        roll.face == index + 1,
        roll.pattern == pattern_of(index + 1),
{
    match index {
        0 => Roll { face: 1, pattern: 0x06 },
        1 => Roll { face: 2, pattern: 0x5b },
        2 => Roll { face: 3, pattern: 0x4f },
        3 => Roll { face: 4, pattern: 0x66 },
        4 => Roll { face: 5, pattern: 0x6d },
        _ => Roll { face: 6, pattern: 0x7d },
    }
}

/// Rolls the die. Which face comes up is left to the generator; whichever it
/// is, its pattern is the one that shows its number.
pub fn roll(rng: &mut ThreadRng) -> (roll: Roll)
    ensures
        1 <= roll.face <= FACES,
        roll.pattern == pattern_of(roll.face as int),
{
    let index = random_below(rng, FACES);
    face_at(index)
}

} // verus!
