//! The conventions of the machine that a program's owner may choose.
//!
//! How two addressing digits name a place on a pinboard, on which condition a
//! conditional transfer is taken, and what an alteration wires in place of an
//! instruction are conventions of an installation. The engine asks a
//! [`Policy`] for them and fixes none of them itself.

use vstd::prelude::*;
use crate::ints::{magnitude, Word11, Word12};
use crate::pinboards::{Instruction, Ones, Tens};

verus! {

/// A place on a pinboard: the number of the board, counted from 1, and a
/// position on it, counted from 0.
#[derive(Clone, Copy, Debug, PartialEq, Eq, Structural)]
pub struct Target {
    /// The number of the pinboard.
    pub pinboard: u8,
    /// The position on that pinboard.
    pub position: u8,
}

/// The conventions that the engine leaves open.
pub trait Policy {
    /// The place that the digits `tens` and `ones` name, `None` where they
    /// name none.
    spec fn target(&self, tens: u8, ones: u8) -> Option<Target>;

    /// Whether a conditional transfer is taken when the accumulator and the
    /// secondary accumulator hold these values.
    spec fn condition(&self, accumulator: int, secondary: int) -> bool;

    /// What an alteration leaves at a position that held `stored`, when the
    /// accumulator holds this value.
    spec fn alteration(&self, stored: Option<Instruction>, accumulator: int) -> Option<Instruction>;

    /// Finds the place that two digits name.
    fn locate(&self, tens: u8, ones: u8) -> (t: Option<Target>)
        ensures
            t == self.target(tens, ones),
    ;

    /// Tests the condition of a conditional transfer.
    fn decide(&self, accumulator: Word12, secondary: Word11) -> (taken: bool)
        ensures
            taken == self.condition(accumulator@, secondary@),
    ;

    /// Makes the instruction that an alteration wires.
    fn alter(&self, stored: Option<Instruction>, accumulator: Word12) -> (altered: Option<
        Instruction,
    >)
        ensures
            altered == self.alteration(stored, accumulator@),
    ;
}

/// What `stored` becomes when its addressing digits are drawn anew from the
/// accumulator: a wired instruction keeps its operation and takes the two
/// lowest decimal digits of the accumulator as its digits; an unwired
/// position stays unwired.
pub open spec fn redrawn(stored: Option<Instruction>, accumulator: int) -> Option<Instruction> {
    match stored {
        None => None,
        Some(instruction) => Some(
            Instruction(
                instruction.0,
                Some(Tens::Num((magnitude(accumulator) / 10 % 10) as u8)),
                Some(Ones::Num((magnitude(accumulator) % 10) as u8)),
            ),
        ),
    }
}

/// Draws the addressing digits of `stored` anew from the accumulator.
pub fn redraw(stored: Option<Instruction>, accumulator: Word12) -> (altered: Option<Instruction>)
    ensures
        altered == redrawn(stored, accumulator@),
{
    match stored {
        None => None,
        Some(instruction) => {
            let value: i64 = accumulator.get();
            let digits: i64 = if value < 0 {
                -value
            } else {
                value
            };
            let tens: u8 = (digits / 10 % 10) as u8;
            let ones: u8 = (digits % 10) as u8;
            Some(Instruction(instruction.0, Some(Tens::Num(tens)), Some(Ones::Num(ones))))
        },
    }
}

/// The plainest convention. The first digit, 1 to 8, is the number of the
/// pinboard and the second digit the position on it. A conditional transfer
/// is taken when the accumulator is below zero. An alteration keeps the
/// operation of a wired instruction and gives it the two lowest decimal digits
/// of the accumulator as its addressing digits; an unwired position stays
/// unwired.
#[derive(Clone, Copy, Debug, PartialEq, Eq, Structural)]
pub struct DirectPolicy;

impl Policy for DirectPolicy {
    open spec fn target(&self, tens: u8, ones: u8) -> Option<Target> {
        if 1 <= tens <= 8 {
            Some(Target { pinboard: tens, position: ones })
        } else {
            None
        }
    }

    open spec fn condition(&self, accumulator: int, secondary: int) -> bool {
        accumulator < 0
    }

    open spec fn alteration(&self, stored: Option<Instruction>, accumulator: int) -> Option<
        Instruction,
    > {
        redrawn(stored, accumulator)
    }

    fn locate(&self, tens: u8, ones: u8) -> (t: Option<Target>) {
        if 1 <= tens && tens <= 8 {
            Some(Target { pinboard: tens, position: ones })
        } else {
            None
        }
    }

    fn decide(&self, accumulator: Word12, secondary: Word11) -> (taken: bool) {
        accumulator.is_negative()
    }

    fn alter(&self, stored: Option<Instruction>, accumulator: Word12) -> (altered: Option<
        Instruction,
    >) {
        redraw(stored, accumulator)
    }
}

/// The number of pairs of digits that a program can hold: ten first digits
/// by sixteen second digits.
pub const PAIRS: usize = 160;

/// What an alteration wires.
#[derive(Clone, Copy, Debug, PartialEq, Eq, Structural)]
pub enum Alteration {
    /// The instruction that was there, its digits drawn anew from the
    /// accumulator: see [`redrawn`].
    Digits,
    /// This instruction, whatever was there; `None` unwires the position.
    Literal(Option<Instruction>),
}

/// Conventions given as data: a table that holds the place that each pair of
/// digits names, the signs of the accumulator on which a conditional transfer
/// is taken, and what an alteration wires.
#[derive(Clone, Copy, Debug, PartialEq, Eq)]
pub struct TablePolicy {
    /// The place that the digits `tens` and `ones` name, at `16 * tens +
    /// ones`; `None` where they name none.
    pub targets: [Option<Target>; PAIRS],
    /// Whether a conditional transfer is taken when the accumulator is below
    /// zero.
    pub below_zero: bool,
    /// Whether a conditional transfer is taken when the accumulator is zero.
    pub at_zero: bool,
    /// Whether a conditional transfer is taken when the accumulator is above
    /// zero.
    pub above_zero: bool,
    /// What an alteration wires.
    pub alteration: Alteration,
}

/// Whether `tens` and `ones` are a pair of digits that a program can hold.
pub open spec fn in_table(tens: u8, ones: u8) -> bool {
    tens <= 9 && ones <= 15
}

/// The place of a pair of digits in the table.
pub open spec fn pair(tens: u8, ones: u8) -> int {
    16 * tens + ones
}

impl TablePolicy {
    /// Conventions under which no pair of digits names a place, with the
    /// given condition and alteration.
    pub fn new(
        below_zero: bool,
        at_zero: bool,
        above_zero: bool,
        alteration: Alteration,
    ) -> (policy: TablePolicy)
        ensures
            forall|i: int| 0 <= i < PAIRS ==> policy.targets@[i] is None,
            policy.below_zero == below_zero,
            policy.at_zero == at_zero,
            policy.above_zero == above_zero,
            policy.alteration == alteration,
    {
        TablePolicy { targets: [None; PAIRS], below_zero, at_zero, above_zero, alteration }
    }

    /// Lets the digits `tens` and `ones` name `target`, or no place where
    /// that is `None`. Tells whether the pair is one that a program can
    /// hold; the table is left as it was where it is not.
    pub fn name(&mut self, tens: u8, ones: u8, target: Option<Target>) -> (done: bool)
        ensures
            done == in_table(tens, ones),
            done ==> final(self).targets@ == old(self).targets@.update(pair(tens, ones), target),
            !done ==> final(self).targets@ == old(self).targets@,
            final(self).below_zero == old(self).below_zero,
            final(self).at_zero == old(self).at_zero,
            final(self).above_zero == old(self).above_zero,
            final(self).alteration == old(self).alteration,
    {
        if tens <= 9 && ones <= 15 {
            self.targets[16 * (tens as usize) + ones as usize] = target;
            true
        } else {
            false
        }
    }
}

impl Policy for TablePolicy {
    open spec fn target(&self, tens: u8, ones: u8) -> Option<Target> {
        if in_table(tens, ones) {
            self.targets@[pair(tens, ones)]
        } else {
            None
        }
    }

    open spec fn condition(&self, accumulator: int, secondary: int) -> bool {
        ||| accumulator < 0 && self.below_zero
        ||| accumulator == 0 && self.at_zero
        ||| accumulator > 0 && self.above_zero
    }

    open spec fn alteration(&self, stored: Option<Instruction>, accumulator: int) -> Option<
        Instruction,
    > {
        match self.alteration {
            Alteration::Digits => redrawn(stored, accumulator),
            Alteration::Literal(instruction) => instruction,
        }
    }

    fn locate(&self, tens: u8, ones: u8) -> (t: Option<Target>) {
        if tens <= 9 && ones <= 15 {
            self.targets[16 * (tens as usize) + ones as usize]
        } else {
            None
        }
    }

    fn decide(&self, accumulator: Word12, secondary: Word11) -> (taken: bool) {
        let value: i64 = accumulator.get();
        (value < 0 && self.below_zero) || (value == 0 && self.at_zero) || (value > 0
            && self.above_zero)
    }

    fn alter(&self, stored: Option<Instruction>, accumulator: Word12) -> (altered: Option<
        Instruction,
    >) {
        match self.alteration {
            Alteration::Digits => redraw(stored, accumulator),
            Alteration::Literal(instruction) => instruction,
        }
    }
}

} // verus!
