//! The machine: its memory, its registers and the step that runs one
//! instruction.

use vstd::prelude::*;
use crate::ints::{
    fits_word11,
    fits_word12,
    lemma_product_halves,
    lemma_quotient_remainder,
    product_high,
    product_low,
    quotient,
    remainder,
    Word11,
    Word12,
    WordError,
};
use crate::pinboards::{Instruction, Ones, Opcode, Pinboard, PinboardView, Tens, POSITIONS};
use crate::policy::{Policy, Target};

verus! {

/// The number of pinboards that the machine holds.
pub const PINBOARDS: usize = 8;

/// The number of words in memory.
pub const CELLS: usize = 100;

/// Why the machine could not run an instruction.
#[derive(Clone, Copy, Debug, PartialEq, Eq, Structural)]
pub enum ExecutionError {
    /// No pinboard is loaded under this number.
    MissingPinboard(u8),
    /// The position (second) of the pinboard (first) holds nothing that can
    /// be run: it is unwired, or what is wired there lacks a digit that its
    /// operation needs.
    MissingInstruction(u8, u8),
    /// The two digits address nothing.
    InvalidMemory(u8, u8),
    /// A result has more digits than the register that takes it.
    Overflow,
    /// The divisor is zero.
    DivisionByZero,
    /// The position (second) of the pinboard (first) holds a placeholder that
    /// the machine does not run yet.
    Unsupported(u8, u8),
}

/// What the machine is doing.
#[derive(Clone, Copy, Debug, PartialEq, Eq, Structural)]
pub enum Status {
    /// The program has run off its end.
    Halt,
    /// The machine waits for a word from the keyboard.
    Keyboard,
    /// An instruction failed; the machine stays here.
    Alarm,
    /// The machine is ready to run the next instruction.
    Continue,
}

/// The memory cell that two digits address.
pub open spec fn cell(tens: u8, ones: u8) -> int {
    10 * tens + ones
}

/// Whether two digits address a memory cell.
pub open spec fn addressable(tens: u8, ones: u8) -> bool {
    tens < 10 && ones < 10
}

/// One hundred words, ten rows of ten.
#[derive(Debug, PartialEq, Eq)]
pub struct Memory([Word12; CELLS]);

impl View for Memory {
    type V = Seq<int>;

    closed spec fn view(&self) -> Seq<int> {
        Seq::new(CELLS as nat, |i: int| self.0@[i]@)
    }
}

impl Memory {
    /// Memory has a hundred cells, and no cell holds a value outside the
    /// range of a word.
    pub proof fn lemma_cells_fit(self)
        ensures
            self@.len() == CELLS,
            forall|i: int| 0 <= i < CELLS ==> fits_word12(#[trigger] self@[i]),
    {
        assert forall|i: int| 0 <= i < CELLS implies fits_word12(#[trigger] self@[i]) by {
            self.0@[i].lemma_fits();
        }
    }

    /// A memory that holds zero in every cell.
    pub fn new() -> (memory: Memory)
        ensures
            memory@.len() == CELLS,
            forall|i: int| 0 <= i < CELLS ==> memory@[i] == 0,
    {
        Memory([Word12::zero(); CELLS])
    }

    /// The word in row `tens`, column `ones`, to read or to write;
    /// `InvalidMemory` where one of the digits is above 9. The call never
    /// unwinds, so that the owner of a memory can lend it out while it keeps
    /// an invariant of its own.
    pub fn get(&mut self, tens: u8, ones: u8) -> (r: Result<&mut Word12, ExecutionError>)
        ensures
            old(self)@.len() == CELLS,
            final(self)@.len() == CELLS,
            addressable(tens, ones) ==> r is Ok && (*r->Ok_0)@ == old(self)@[cell(tens, ones)]
                && final(self)@ == old(self)@.update(cell(tens, ones), (*final(r->Ok_0))@),
            !addressable(tens, ones) ==> r is Err && r->Err_0 == ExecutionError::InvalidMemory(
                tens,
                ones,
            ) && final(self)@ == old(self)@,
        no_unwind
    {
        if 10 <= tens || 10 <= ones {
            return Err(ExecutionError::InvalidMemory(tens, ones));
        }
        Ok(&mut self.0[(10 * tens + ones) as usize])
    }

    /// The word in row `tens`, column `ones`; `InvalidMemory` where one of
    /// the digits is above 9.
    pub fn read(&self, tens: u8, ones: u8) -> (r: Result<Word12, ExecutionError>)
        ensures
            self@.len() == CELLS,
            addressable(tens, ones) ==> r is Ok && r->Ok_0@ == self@[cell(tens, ones)],
            !addressable(tens, ones) ==> r == Err::<Word12, ExecutionError>(
                ExecutionError::InvalidMemory(tens, ones),
            ),
    {
        if 10 <= tens || 10 <= ones {
            return Err(ExecutionError::InvalidMemory(tens, ones));
        }
        Ok(self.0[(10 * tens + ones) as usize])
    }
}

/// The two digits of an instruction, where both are there and both are
/// literal.
pub open spec fn digits(instruction: Instruction) -> Option<(u8, u8)> {
    match (instruction.1, instruction.2) {
        (Some(Tens::Num(tens)), Some(Ones::Num(ones))) => Some((tens, ones)),
        _ => None,
    }
}

/// What one step leaves behind: the machine after it, and what the step
/// hands back, which is the word that it printed, if any, or the error.
pub struct Outcome {
    /// The machine after the step.
    pub state: CpuView,
    /// What the step returns.
    pub result: Result<Option<int>, ExecutionError>,
}

/// What the machine is: everything that a step reads or changes.
pub struct CpuView {
    /// What the machine is doing.
    pub status: Status,
    /// The eight pinboard slots; slot `n - 1` holds pinboard number `n`.
    pub pinboards: Seq<Option<PinboardView>>,
    /// The number of the pinboard that runs, 1 to 8.
    pub current_pinboard: u8,
    /// The hundred words of memory.
    pub memory: Seq<int>,
    /// The accumulator.
    pub a: int,
    /// The secondary accumulator.
    pub b: int,
    /// Control register E.
    pub e: u8,
    /// Control register F.
    pub f: u8,
    /// Control register X.
    pub x: u8,
    /// Control register Y.
    pub y: u8,
}

impl CpuView {
    /// What every machine satisfies: eight slots of sound pinboards, a
    /// hundred words of memory, every word within its width, and a single
    /// digit in each control register.
    pub open spec fn well_formed(self) -> bool {
        &&& self.pinboards.len() == PINBOARDS
        &&& forall|i: int|
            0 <= i < PINBOARDS ==> ((#[trigger] self.pinboards[i]) matches Some(board)
                ==> board.well_formed())
        &&& self.memory.len() == CELLS
        &&& forall|i: int| 0 <= i < CELLS ==> fits_word12(#[trigger] self.memory[i])
        &&& fits_word12(self.a)
        &&& fits_word11(self.b)
        &&& self.e <= 9
        &&& self.f <= 9
        &&& self.x <= 9
        &&& self.y <= 9
    }

    /// The pinboard loaded under `number`, `None` where the slot is empty or
    /// there is no such slot.
    pub open spec fn slot(self, number: u8) -> Option<PinboardView> {
        if 1 <= number <= PINBOARDS {
            self.pinboards[number - 1]
        } else {
            None
        }
    }

    /// The digit in a control register.
    pub open spec fn register(self, which: Register) -> u8 {
        match which {
            Register::E => self.e,
            Register::F => self.f,
            Register::X => self.x,
            Register::Y => self.y,
        }
    }

    /// The machine with `digit` in a control register.
    pub open spec fn with_register(self, which: Register, digit: u8) -> CpuView {
        match which {
            Register::E => CpuView { e: digit, ..self },
            Register::F => CpuView { f: digit, ..self },
            Register::X => CpuView { x: digit, ..self },
            Register::Y => CpuView { y: digit, ..self },
        }
    }

    /// The pinboard that runs.
    pub open spec fn board(self) -> Option<PinboardView> {
        self.slot(self.current_pinboard)
    }

    /// The machine with `board` in slot `number`.
    pub open spec fn with_board(self, number: u8, board: PinboardView) -> CpuView {
        CpuView { pinboards: self.pinboards.update(number - 1, Some(board)), ..self }
    }

    /// The instruction with each placeholder replaced by the digit in the
    /// control register that it stands for.
    pub open spec fn resolved(self, instruction: Instruction) -> Instruction {
        Instruction(
            instruction.0,
            match instruction.1 {
                Some(Tens::E) => Some(Tens::Num(self.e)),
                Some(Tens::X) => Some(Tens::Num(self.x)),
                other => other,
            },
            match instruction.2 {
                Some(Ones::E) => Some(Ones::Num(self.e)),
                Some(Ones::F) => Some(Ones::Num(self.f)),
                Some(Ones::Y) => Some(Ones::Num(self.y)),
                other => other,
            },
        )
    }

    /// The machine after its cursor has moved `by` positions forward. Where
    /// no wired position is left at or after the place it comes to, the
    /// program has run off its end: the machine halts and the cursor goes
    /// home.
    pub open spec fn advanced(self, by: int) -> CpuView {
        let board = self.board()->0;
        let next = board.next_instruction + by;
        if board.wired_from(next) {
            self.with_board(self.current_pinboard, board.with_cursor(next))
        } else {
            CpuView {
                status: Status::Halt,
                ..self.with_board(self.current_pinboard, board.with_cursor(0))
            }
        }
    }

    /// A step that failed with `error`: the machine is in alarm and nothing
    /// else has changed.
    pub open spec fn failed(self, error: ExecutionError) -> Outcome {
        Outcome { state: CpuView { status: Status::Alarm, ..self }, result: Err(error) }
    }

    /// The error of an instruction that lacks a digit that its operation
    /// needs.
    pub open spec fn undecodable(self) -> ExecutionError {
        ExecutionError::MissingInstruction(
            self.current_pinboard,
            self.board()->0.next_instruction as u8,
        )
    }

    /// The memory cell that an instruction addresses.
    pub open spec fn operand(self, instruction: Instruction) -> Result<int, ExecutionError> {
        match digits(instruction) {
            None => Err(self.undecodable()),
            Some((tens, ones)) => if addressable(tens, ones) {
                Ok(cell(tens, ones))
            } else {
                Err(ExecutionError::InvalidMemory(tens, ones))
            },
        }
    }

    /// A step that did what it was asked, printing nothing, and moved one
    /// position on.
    pub open spec fn done(self) -> Outcome {
        Outcome { state: self.advanced(1), result: Ok(None) }
    }

    /// What an operation on the memory cell `at` does.
    pub open spec fn computed(self, operation: Opcode, at: int) -> Outcome {
        let word = self.memory[at];
        match operation {
            Opcode::W => CpuView { memory: self.memory.update(at, self.a), ..self }.done(),
            Opcode::R => CpuView { a: word, ..self }.done(),
            Opcode::Add => if fits_word12(self.a + word) {
                CpuView { a: self.a + word, ..self }.done()
            } else {
                self.failed(ExecutionError::Overflow)
            },
            Opcode::Sub => if fits_word12(self.a - word) {
                CpuView { a: self.a - word, ..self }.done()
            } else {
                self.failed(ExecutionError::Overflow)
            },
            Opcode::Mul => if fits_word11(product_high(self.a, word)) {
                CpuView {
                    a: product_low(self.a, word),
                    b: product_high(self.a, word),
                    ..self
                }.done()
            } else {
                self.failed(ExecutionError::Overflow)
            },
            Opcode::Div => if word == 0 {
                self.failed(ExecutionError::DivisionByZero)
            } else if fits_word11(remainder(self.a, word)) {
                CpuView { a: quotient(self.a, word), b: remainder(self.a, word), ..self }.done()
            } else {
                self.failed(ExecutionError::Overflow)
            },
            _ => self.failed(self.undecodable()),
        }
    }

    /// What a transfer to the place that `tens` and `ones` name does: that
    /// pinboard runs next, from that position.
    pub open spec fn transferred<P: Policy>(self, tens: u8, ones: u8, policy: P) -> Outcome {
        match policy.target(tens, ones) {
            None => self.failed(self.undecodable()),
            Some(target) => match self.slot(target.pinboard) {
                None => self.failed(ExecutionError::MissingPinboard(target.pinboard)),
                Some(board) => if target.position < POSITIONS {
                    Outcome {
                        state: CpuView {
                            current_pinboard: target.pinboard,
                            ..self.with_board(
                                target.pinboard,
                                board.with_cursor(target.position as int),
                            )
                        },
                        result: Ok(None),
                    }
                } else {
                    self.failed(
                        ExecutionError::MissingInstruction(target.pinboard, target.position),
                    )
                },
            },
        }
    }

    /// What an alteration of the place that `tens` and `ones` name does.
    pub open spec fn altered<P: Policy>(self, tens: u8, ones: u8, policy: P) -> Outcome {
        match policy.target(tens, ones) {
            None => self.failed(ExecutionError::InvalidMemory(tens, ones)),
            Some(target) => match self.slot(target.pinboard) {
                None => self.failed(ExecutionError::InvalidMemory(tens, ones)),
                Some(board) => if target.position < POSITIONS {
                    self.with_board(
                        target.pinboard,
                        board.rewired(
                            target.position as int,
                            policy.alteration(board.at(target.position as int), self.a),
                        ),
                    ).done()
                } else {
                    self.failed(ExecutionError::InvalidMemory(tens, ones))
                },
            },
        }
    }

    /// What running `instruction`, with no placeholder left in it, does.
    pub open spec fn executed<P: Policy>(self, instruction: Instruction, policy: P) -> Outcome {
        match instruction.0 {
            Opcode::K => Outcome {
                state: CpuView { status: Status::Keyboard, ..self },
                result: Ok(None),
            },
            Opcode::B => if fits_word11(self.a) {
                CpuView { b: self.a, ..self }.done()
            } else {
                self.failed(ExecutionError::Overflow)
            },
            Opcode::P => Outcome { state: self.advanced(1), result: Ok(Some(self.a)) },
            Opcode::H => Outcome {
                state: self.with_board(self.current_pinboard, self.board()->0.with_cursor(0)),
                result: Ok(None),
            },
            Opcode::W | Opcode::R | Opcode::Add | Opcode::Sub | Opcode::Mul | Opcode::Div => {
                match self.operand(instruction) {
                    Err(error) => self.failed(error),
                    Ok(at) => self.computed(instruction.0, at),
                }
            },
            Opcode::S => match digits(instruction) {
                None => self.failed(self.undecodable()),
                Some((tens, ones)) => Outcome {
                    state: self.advanced(10 * tens + ones),
                    result: Ok(None),
                },
            },
            Opcode::U => match digits(instruction) {
                None => self.failed(self.undecodable()),
                Some((tens, ones)) => self.transferred(tens, ones, policy),
            },
            Opcode::C => match digits(instruction) {
                None => self.failed(self.undecodable()),
                Some((tens, ones)) => if policy.condition(self.a, self.b) {
                    self.transferred(tens, ones, policy)
                } else {
                    self.done()
                },
            },
            Opcode::A => match digits(instruction) {
                None => self.failed(self.undecodable()),
                Some((tens, ones)) => self.altered(tens, ones, policy),
            },
        }
    }

    /// What one step does.
    ///
    /// A machine that is not ready to continue stays as it is. Otherwise the
    /// step fetches the instruction under the cursor of the pinboard that
    /// runs, replaces its placeholders by the digits in the control registers
    /// and runs it. Every failure but one leaves the machine in alarm, all
    /// else unchanged; a placeholder that the machine does not run yet is
    /// reported and leaves the machine wholly unchanged.
    pub open spec fn step<P: Policy>(self, policy: P) -> Outcome {
        if self.status != Status::Continue {
            Outcome { state: self, result: Ok(None) }
        } else {
            match self.board() {
                None => self.failed(ExecutionError::MissingPinboard(self.current_pinboard)),
                Some(board) => match board.current() {
                    None => self.failed(self.undecodable()),
                    Some(stored) => if stored.is_unsupported() {
                        Outcome {
                            state: self,
                            result: Err(
                                ExecutionError::Unsupported(
                                    self.current_pinboard,
                                    board.next_instruction as u8,
                                ),
                            ),
                        }
                    } else {
                        self.executed(self.resolved(stored), policy)
                    },
                },
            }
        }
    }

    /// What a word from the keyboard does to a machine that waits for one: it
    /// goes to the accumulator, and the machine continues after the
    /// instruction that asked for it. Any other machine stays as it is.
    pub open spec fn supplied(self, word: int) -> (CpuView, Result<(), ExecutionError>) {
        if self.status != Status::Keyboard {
            (self, Ok(()))
        } else if self.board() is None {
            (
                CpuView { status: Status::Alarm, ..self },
                Err(ExecutionError::MissingPinboard(self.current_pinboard)),
            )
        } else {
            (CpuView { status: Status::Continue, a: word, ..self }.advanced(1), Ok(()))
        }
    }

    /// Moving the cursor forward leaves a well-formed machine well formed.
    pub proof fn lemma_advanced_well_formed(self, by: int)
        requires
            self.well_formed(),
            self.board() is Some,
            by >= 0,
        ensures
            self.advanced(by).well_formed(),
            self.advanced(by).board() is Some,
    {
    }

    /// A step leaves a well-formed machine well formed: whatever the
    /// instruction and whatever the policy, every word stays within its
    /// width, every cursor on its board and every register a single digit.
    pub proof fn lemma_step_well_formed<P: Policy>(self, policy: P)
        requires
            self.well_formed(),
        ensures
            self.step(policy).state.well_formed(),
    {
        if self.status == Status::Continue && self.board() is Some
            && self.board()->0.current() is Some {
            let stored = self.board()->0.current()->0;
            if !stored.is_unsupported() {
                self.lemma_executed_well_formed(self.resolved(stored), policy);
            }
        }
    }

    /// Running an instruction leaves a well-formed machine well formed.
    pub proof fn lemma_executed_well_formed<P: Policy>(self, instruction: Instruction, policy: P)
        requires
            self.well_formed(),
            self.board() is Some,
        ensures
            self.executed(instruction, policy).state.well_formed(),
    {
        match instruction.0 {
            Opcode::K => {},
            Opcode::B => {
                if fits_word11(self.a) {
                    CpuView { b: self.a, ..self }.lemma_advanced_well_formed(1);
                }
            },
            Opcode::P => {
                self.lemma_advanced_well_formed(1);
            },
            Opcode::H => {},
            Opcode::W | Opcode::R | Opcode::Add | Opcode::Sub | Opcode::Mul | Opcode::Div => {
                if let Ok(at) = self.operand(instruction) {
                    self.lemma_computed_well_formed(instruction.0, at);
                }
            },
            Opcode::S => {
                if let Some((tens, ones)) = digits(instruction) {
                    self.lemma_advanced_well_formed(10 * tens + ones);
                }
            },
            Opcode::U => {},
            Opcode::C => {
                self.lemma_advanced_well_formed(1);
            },
            Opcode::A => {
                if let Some((tens, ones)) = digits(instruction) {
                    if let Some(target) = policy.target(tens, ones) {
                        if let Some(board) = self.slot(target.pinboard) {
                            if target.position < POSITIONS {
                                self.with_board(
                                    target.pinboard,
                                    board.rewired(
                                        target.position as int,
                                        policy.alteration(
                                            board.at(target.position as int),
                                            self.a,
                                        ),
                                    ),
                                ).lemma_advanced_well_formed(1);
                            }
                        }
                    }
                }
            },
        }
    }

    /// An operation on a memory cell leaves a well-formed machine well
    /// formed.
    pub proof fn lemma_computed_well_formed(self, operation: Opcode, at: int)
        requires
            self.well_formed(),
            self.board() is Some,
            0 <= at < CELLS,
        ensures
            self.computed(operation, at).state.well_formed(),
    {
        let word = self.memory[at];
        match operation {
            Opcode::W => {
                CpuView {
                    memory: self.memory.update(at, self.a),
                    ..self
                }.lemma_advanced_well_formed(1);
            },
            Opcode::R => {
                CpuView { a: word, ..self }.lemma_advanced_well_formed(1);
            },
            Opcode::Add => {
                if fits_word12(self.a + word) {
                    CpuView { a: self.a + word, ..self }.lemma_advanced_well_formed(1);
                }
            },
            Opcode::Sub => {
                if fits_word12(self.a - word) {
                    CpuView { a: self.a - word, ..self }.lemma_advanced_well_formed(1);
                }
            },
            Opcode::Mul => {
                lemma_product_halves(self.a, word);
                if fits_word11(product_high(self.a, word)) {
                    CpuView {
                        a: product_low(self.a, word),
                        b: product_high(self.a, word),
                        ..self
                    }.lemma_advanced_well_formed(1);
                }
            },
            Opcode::Div => {
                if word != 0 {
                    lemma_quotient_remainder(self.a, word);
                    if fits_word11(remainder(self.a, word)) {
                        CpuView {
                            a: quotient(self.a, word),
                            b: remainder(self.a, word),
                            ..self
                        }.lemma_advanced_well_formed(1);
                    }
                }
            },
            _ => {},
        }
    }

    /// The wiring of the eight slots: for each, the instructions that its
    /// pinboard holds, position by position, or `None` where it is empty.
    pub open spec fn wiring(self) -> Seq<Option<Seq<Option<Instruction>>>> {
        Seq::new(
            self.pinboards.len(),
            |i: int|
                match self.pinboards[i] {
                    Some(board) => Some(board.instructions),
                    None => None,
                },
        )
    }

    /// The instruction that the next step fetches, `None` where the step
    /// fetches none.
    pub open spec fn fetched(self) -> Option<Instruction> {
        match self.board() {
            Some(board) => board.current(),
            None => None,
        }
    }

    /// Whether the next step runs `instruction`: the machine is ready to
    /// continue, and what is wired under the cursor, which holds no
    /// placeholder that the machine does not run yet, is `instruction` once
    /// its placeholders are replaced.
    pub open spec fn runs(self, instruction: Instruction) -> bool {
        &&& self.status == Status::Continue
        &&& self.fetched() matches Some(stored) && !stored.is_unsupported() && self.resolved(
            stored,
        ) == instruction
    }

    /// A word written to memory is the word read back: when one step writes
    /// the accumulator to an addressable cell and the next step reads that
    /// cell, the cell and the accumulator hold the value that was written.
    pub proof fn lemma_write_read_round_trip<P: Policy>(self, tens: u8, ones: u8, policy: P)
        requires
            self.well_formed(),
            addressable(tens, ones),
            self.runs(Instruction(Opcode::W, Some(Tens::Num(tens)), Some(Ones::Num(ones)))),
            self.step(policy).state.runs(
                Instruction(Opcode::R, Some(Tens::Num(tens)), Some(Ones::Num(ones))),
            ),
        ensures
            self.step(policy).result == Ok::<Option<int>, ExecutionError>(None),
            self.step(policy).state.memory[cell(tens, ones)] == self.a,
            self.step(policy).state.step(policy).result == Ok::<Option<int>, ExecutionError>(None),
            self.step(policy).state.step(policy).state.a == self.a,
            self.step(policy).state.step(policy).state.memory[cell(tens, ones)] == self.a,
    {
    }

    /// A sum or a difference that does not fit the accumulator fails with
    /// `Overflow`: the machine goes into alarm, and the accumulator and all
    /// else stay as they were.
    pub proof fn lemma_overflow_changes_nothing<P: Policy>(
        self,
        operation: Opcode,
        tens: u8,
        ones: u8,
        policy: P,
    )
        requires
            self.well_formed(),
            addressable(tens, ones),
            self.runs(Instruction(operation, Some(Tens::Num(tens)), Some(Ones::Num(ones)))),
            operation is Add && !fits_word12(self.a + self.memory[cell(tens, ones)])
                || operation is Sub && !fits_word12(self.a - self.memory[cell(tens, ones)]),
        ensures
            self.step(policy).result == Err::<Option<int>, ExecutionError>(
                ExecutionError::Overflow,
            ),
            self.step(policy).state == (CpuView { status: Status::Alarm, ..self }),
            self.step(policy).state.a == self.a,
    {
    }

    /// A division by a memory word that holds zero fails with
    /// `DivisionByZero`: the machine goes into alarm, and both accumulators
    /// and all else stay as they were.
    pub proof fn lemma_division_by_zero_changes_nothing<P: Policy>(
        self,
        tens: u8,
        ones: u8,
        policy: P,
    )
        requires
            self.well_formed(),
            addressable(tens, ones),
            self.runs(Instruction(Opcode::Div, Some(Tens::Num(tens)), Some(Ones::Num(ones)))),
            self.memory[cell(tens, ones)] == 0,
        ensures
            self.step(policy).result == Err::<Option<int>, ExecutionError>(
                ExecutionError::DivisionByZero,
            ),
            self.step(policy).state == (CpuView { status: Status::Alarm, ..self }),
            self.step(policy).state.a == self.a,
            self.step(policy).state.b == self.b,
    {
    }

    /// Placeholders are replaced in a copy: a step rewires nothing, whatever
    /// the control registers hold, unless the instruction that it fetches is
    /// an alteration.
    pub proof fn lemma_step_keeps_wiring<P: Policy>(self, policy: P)
        requires
            self.well_formed(),
            !(self.fetched() matches Some(instruction) && instruction.0 is A),
        ensures
            self.step(policy).state.wiring() == self.wiring(),
    {
        assert(self.step(policy).state.wiring() =~= self.wiring());
    }

    /// A step that finds no pinboard to run fails with `MissingPinboard`:
    /// the machine goes into alarm, and every register and all else stay as
    /// they were.
    pub proof fn lemma_missing_pinboard_changes_nothing<P: Policy>(self, policy: P)
        requires
            self.status == Status::Continue,
            self.board() is None,
        ensures
            self.step(policy).result == Err::<Option<int>, ExecutionError>(
                ExecutionError::MissingPinboard(self.current_pinboard),
            ),
            self.step(policy).state == (CpuView { status: Status::Alarm, ..self }),
    {
    }

    /// No failure is swallowed and none leaves a half-done instruction: a
    /// step that fails leaves the machine in alarm and all else as it was,
    /// but for a placeholder that the machine does not run yet, which leaves
    /// the machine wholly as it was; a step that succeeds raises no alarm.
    pub proof fn lemma_failure_changes_only_status<P: Policy>(self, policy: P)
        requires
            self.status == Status::Continue,
        ensures
            self.step(policy).result matches Err(error) ==> self.step(policy).state == (if error
                is Unsupported {
                self
            } else {
                CpuView { status: Status::Alarm, ..self }
            }),
            self.step(policy).result is Ok ==> self.step(policy).state.status != Status::Alarm,
    {
        if let Some(stored) = self.fetched() {
            if !stored.is_unsupported() {
                let instruction = self.resolved(stored);
                assert(self.step(policy) == self.executed(instruction, policy));
                if let Ok(at) = self.operand(instruction) {
                    assert(self.computed(instruction.0, at).result is Err ==> self.computed(
                        instruction.0,
                        at,
                    ).state == (CpuView { status: Status::Alarm, ..self }));
                }
            }
        }
    }

    /// A program that runs off its end halts: when no wired position is left
    /// at or after the place that the cursor comes to, the machine halts and
    /// the cursor goes home; otherwise the cursor comes to that place and the
    /// machine goes on as it was.
    pub proof fn lemma_running_off_the_end_halts(self, by: int)
        requires
            self.well_formed(),
            self.board() is Some,
            by >= 0,
        ensures
            ({
                let board = self.board()->0;
                let after = self.advanced(by);
                let wired_ahead = board.wired_from(board.next_instruction + by);
                &&& after.board() is Some
                &&& !wired_ahead ==> after.status == Status::Halt
                    && after.board()->0.next_instruction == 0
                &&& wired_ahead ==> after.status == self.status && after.board()->0.next_instruction
                    == board.next_instruction + by
                &&& after.wiring() == self.wiring()
            }),
    {
        assert(self.advanced(by).wiring() =~= self.wiring());
    }

    /// A machine that is not ready to continue runs nothing: halted, in
    /// alarm or waiting for the keyboard, a step leaves it as it is.
    pub proof fn lemma_stopped_machine_stays<P: Policy>(self, policy: P)
        requires
            self.status != Status::Continue,
        ensures
            self.step(policy).state == self,
            self.step(policy).result == Ok::<Option<int>, ExecutionError>(None),
    {
    }

    /// Each step replaces the placeholders afresh: what a step runs is what
    /// is wired under the cursor with the digits that the control registers
    /// hold at that step, whatever they held at an earlier one.
    pub proof fn lemma_step_resolves_afresh<P: Policy>(self, stored: Instruction, policy: P)
        requires
            self.status == Status::Continue,
            self.fetched() == Some(stored),
            !stored.is_unsupported(),
        ensures
            self.runs(self.resolved(stored)),
            self.step(policy) == self.executed(self.resolved(stored), policy),
    {
    }

    /// A word from the keyboard leaves a well-formed machine well formed.
    pub proof fn lemma_supplied_well_formed(self, word: int)
        requires
            self.well_formed(),
            fits_word12(word),
        ensures
            self.supplied(word).0.well_formed(),
    {
        if self.status == Status::Keyboard && self.board() is Some {
            CpuView { status: Status::Continue, a: word, ..self }.lemma_advanced_well_formed(1);
        }
    }
}

/// What a step returns, with the printed word as the integer that it holds.
pub open spec fn printed(r: Result<Option<Word12>, ExecutionError>) -> Result<
    Option<int>,
    ExecutionError,
> {
    match r {
        Ok(Some(word)) => Ok(Some(word@)),
        Ok(None) => Ok(None),
        Err(error) => Err(error),
    }
}

/// What a slot holds, as the mathematical pinboard.
pub open spec fn board_view(slot: Option<Pinboard>) -> Option<PinboardView> {
    match slot {
        Some(board) => Some(board@),
        None => None,
    }
}

/// The error that the machine reports for a failed operation on words.
pub fn arithmetic(error: WordError) -> (r: ExecutionError)
    ensures
        r == (match error {
            WordError::DivisionByZero => ExecutionError::DivisionByZero,
            _ => ExecutionError::Overflow,
        }),
{
    match error {
        WordError::DivisionByZero => ExecutionError::DivisionByZero,
        _ => ExecutionError::Overflow,
    }
}

/// One of the four control registers.
#[derive(Clone, Copy, Debug, PartialEq, Eq, Structural)]
pub enum Register {
    /// Stands in for either digit.
    E,
    /// Stands in for the second digit.
    F,
    /// Stands in for the first digit.
    X,
    /// Stands in for the second digit.
    Y,
}

/// The machine.
#[derive(Debug, PartialEq, Eq)]
pub struct Cpu {
    status: Status,
    pinboards: [Option<Pinboard>; PINBOARDS],
    current_pinboard: u8,
    memory: Memory,
    a: Word12,
    b: Word11,
    e: u8,
    f: u8,
    x: u8,
    y: u8,
}

impl View for Cpu {
    type V = CpuView;

    closed spec fn view(&self) -> CpuView {
        CpuView {
            status: self.status,
            pinboards: Seq::new(
                PINBOARDS as nat,
                |i: int| board_view(self.pinboards@[i]),
            ),
            current_pinboard: self.current_pinboard,
            memory: self.memory@,
            a: self.a@,
            b: self.b@,
            e: self.e,
            f: self.f,
            x: self.x,
            y: self.y,
        }
    }
}

impl Cpu {
    #[verifier::type_invariant]
    spec fn sound(self) -> bool {
        &&& self.e <= 9
        &&& self.f <= 9
        &&& self.x <= 9
        &&& self.y <= 9
    }

    /// A sound machine is well formed.
    proof fn lemma_well_formed(self)
        requires
            self.sound(),
        ensures
            self@.well_formed(),
    {
        self.memory.lemma_cells_fit();
        self.a.lemma_fits();
        self.b.lemma_fits();
        assert forall|i: int| 0 <= i < PINBOARDS implies ((#[trigger] self@.pinboards[i])
            matches Some(board) ==> board.well_formed()) by {
            if let Some(board) = self.pinboards@[i] {
                board.lemma_well_formed();
            }
        }
    }

    /// A machine with no pinboard loaded, pinboard 1 chosen to run, zero in
    /// every word and every register, ready to continue.
    pub fn new() -> (cpu: Cpu)
        ensures
            cpu@.status == Status::Continue,
            cpu@.pinboards.len() == PINBOARDS,
            forall|i: int| 0 <= i < PINBOARDS ==> cpu@.pinboards[i] is None,
            cpu@.current_pinboard == 1,
            cpu@.memory.len() == CELLS,
            forall|i: int| 0 <= i < CELLS ==> cpu@.memory[i] == 0,
            cpu@.a == 0,
            cpu@.b == 0,
            cpu@.e == 0,
            cpu@.f == 0,
            cpu@.x == 0,
            cpu@.y == 0,
            cpu@.well_formed(),
    {
        Cpu {
            status: Status::Continue,
            pinboards: [None; PINBOARDS],
            current_pinboard: 1,
            memory: Memory::new(),
            a: Word12::zero(),
            b: Word11::zero(),
            e: 0,
            f: 0,
            x: 0,
            y: 0,
        }
    }

    /// What the machine is doing.
    pub fn status(&self) -> (status: Status)
        ensures
            status == self@.status,
    {
        self.status
    }

    /// The accumulator.
    pub fn accumulator(&self) -> (word: Word12)
        ensures
            word@ == self@.a,
    {
        self.a
    }

    /// The secondary accumulator.
    pub fn secondary(&self) -> (word: Word11)
        ensures
            word@ == self@.b,
    {
        self.b
    }

    /// The number of the pinboard that runs.
    pub fn current_pinboard(&self) -> (number: u8)
        ensures
            number == self@.current_pinboard,
    {
        self.current_pinboard
    }

    /// The digit in a control register.
    pub fn register(&self, which: Register) -> (digit: u8)
        ensures
            digit == self@.register(which),
            digit <= 9,
    {
        proof {
            use_type_invariant(self);
        }
        match which {
            Register::E => self.e,
            Register::F => self.f,
            Register::X => self.x,
            Register::Y => self.y,
        }
    }

    /// The memory, to read.
    pub fn memory(&self) -> (memory: &Memory)
        ensures
            memory@ == self@.memory,
    {
        &self.memory
    }

    /// Puts `word` into the accumulator.
    pub fn set_accumulator(&mut self, word: Word12)
        ensures
            final(self)@ == (CpuView { a: word@, ..old(self)@ }),
    {
        proof {
            use_type_invariant(&*self);
        }
        self.a = word;
    }

    /// Puts `digit` into a control register; `OutOfRange`, and the machine
    /// as it was, where `digit` is above 9.
    pub fn set_register(&mut self, which: Register, digit: u8) -> (r: Result<(), WordError>)
        ensures
            digit <= 9 ==> r is Ok && final(self)@ == old(self)@.with_register(which, digit),
            digit > 9 ==> r == Err::<(), WordError>(WordError::OutOfRange) && final(self)@ == old(
                self,
            )@,
    {
        proof {
            use_type_invariant(&*self);
        }
        if digit > 9 {
            return Err(WordError::OutOfRange);
        }
        match which {
            Register::E => {
                self.e = digit;
            },
            Register::F => {
                self.f = digit;
            },
            Register::X => {
                self.x = digit;
            },
            Register::Y => {
                self.y = digit;
            },
        }
        Ok(())
    }

    /// Puts `word` into the memory cell in row `tens`, column `ones`;
    /// `InvalidMemory`, and the machine as it was, where one of the digits
    /// is above 9.
    pub fn write_memory(&mut self, tens: u8, ones: u8, word: Word12) -> (r: Result<
        (),
        ExecutionError,
    >)
        ensures
            addressable(tens, ones) ==> r is Ok && final(self)@ == (CpuView {
                memory: old(self)@.memory.update(cell(tens, ones), word@),
                ..old(self)@
            }),
            !addressable(tens, ones) ==> r == Err::<(), ExecutionError>(
                ExecutionError::InvalidMemory(tens, ones),
            ) && final(self)@ == old(self)@,
    {
        proof {
            use_type_invariant(&*self);
        }
        match self.memory.get(tens, ones) {
            Ok(place) => {
                *place = word;
                Ok(())
            },
            Err(error) => Err(error),
        }
    }

    /// Loads `board` into slot `number`, in place of what the slot held;
    /// `MissingPinboard`, and the machine as it was, where `number` is not 1
    /// to 8.
    pub fn load_pinboard(&mut self, number: u8, board: Pinboard) -> (r: Result<
        (),
        ExecutionError,
    >)
        ensures
            1 <= number <= PINBOARDS ==> r is Ok && final(self)@ == old(self)@.with_board(
                number,
                board@,
            ),
            !(1 <= number <= PINBOARDS) ==> r == Err::<(), ExecutionError>(
                ExecutionError::MissingPinboard(number),
            ) && final(self)@ == old(self)@,
    {
        if 1 <= number && number as usize <= PINBOARDS {
            self.put_board(number, board);
            Ok(())
        } else {
            Err(ExecutionError::MissingPinboard(number))
        }
    }

    /// Chooses the pinboard that runs; `MissingPinboard`, and the machine as
    /// it was, where `number` is not 1 to 8.
    pub fn select_pinboard(&mut self, number: u8) -> (r: Result<(), ExecutionError>)
        ensures
            1 <= number <= PINBOARDS ==> r is Ok && final(self)@ == (CpuView {
                current_pinboard: number,
                ..old(self)@
            }),
            !(1 <= number <= PINBOARDS) ==> r == Err::<(), ExecutionError>(
                ExecutionError::MissingPinboard(number),
            ) && final(self)@ == old(self)@,
    {
        proof {
            use_type_invariant(&*self);
        }
        if 1 <= number && number as usize <= PINBOARDS {
            self.current_pinboard = number;
            Ok(())
        } else {
            Err(ExecutionError::MissingPinboard(number))
        }
    }

    /// The pinboard loaded under `number`, `None` where the slot is empty or
    /// there is no such slot.
    pub fn pinboard(&self, number: u8) -> (r: Option<Pinboard>)
        ensures
            board_view(r) == self@.slot(number),
    {
        if 1 <= number && number as usize <= PINBOARDS {
            self.pinboards[(number - 1) as usize]
        } else {
            None
        }
    }

    /// Puts `board` into slot `number`.
    fn put_board(&mut self, number: u8, board: Pinboard)
        requires
            1 <= number <= PINBOARDS,
        ensures
            final(self)@ == old(self)@.with_board(number, board@),
    {
        proof {
            use_type_invariant(&*self);
        }
        self.pinboards[(number - 1) as usize] = Some(board);
        assert(final(self)@.pinboards =~= old(self)@.pinboards.update(number - 1, Some(board@)));
    }

    /// Puts the machine in alarm and hands `error` back.
    fn fail(&mut self, error: ExecutionError) -> (r: Result<Option<Word12>, ExecutionError>)
        ensures
            final(self)@ == old(self)@.failed(error).state,
            printed(r) == old(self)@.failed(error).result,
    {
        proof {
            use_type_invariant(&*self);
        }
        self.status = Status::Alarm;
        Err(error)
    }

    /// Moves the cursor of the pinboard that runs `by` positions forward, and
    /// halts the machine where the program has run off its end.
    fn advance(&mut self, by: usize)
        requires
            old(self)@.board() is Some,
            by <= 10 * u8::MAX + u8::MAX,
        ensures
            final(self)@ == old(self)@.advanced(by as int),
    {
        proof {
            use_type_invariant(&*self);
        }
        let number = self.current_pinboard;
        match self.pinboard(number) {
            Some(board) => {
                let mut board = board;
                let next: usize = board.next_instruction() as usize + by;
                proof {
                    board.lemma_well_formed();
                }
                if board.wired_from(next) {
                    board.set_next_instruction(next as u8);
                } else {
                    board.set_next_instruction(0);
                    self.status = Status::Halt;
                }
                self.put_board(number, board);
            },
            None => {},
        }
    }

    /// Replaces each placeholder in `instruction` by the digit in the control
    /// register that it stands for. The machine itself, the wiring of its
    /// pinboards included, stays as it is.
    pub fn process_special_digits(&mut self, instruction: &mut Instruction)
        ensures
            *final(self) == *old(self),
            *final(instruction) == old(self)@.resolved(*old(instruction)),
            old(instruction).well_formed() ==> final(instruction).well_formed(),
            !old(instruction).is_unsupported() ==> (final(instruction).1 matches Some(tens)
                ==> tens is Num) && (final(instruction).2 matches Some(ones) ==> ones is Num),
    {
        proof {
            use_type_invariant(&*self);
        }
        let mut tens = instruction.1;
        let mut ones = instruction.2;
        if matches!(tens, Some(Tens::E)) {
            tens = Some(Tens::Num(self.e));
        }
        if matches!(ones, Some(Ones::E)) {
            ones = Some(Ones::Num(self.e));
        }
        if matches!(ones, Some(Ones::F)) {
            ones = Some(Ones::Num(self.f));
        }
        if matches!(tens, Some(Tens::X)) {
            tens = Some(Tens::Num(self.x));
        }
        if matches!(ones, Some(Ones::Y)) {
            ones = Some(Ones::Num(self.y));
        }
        *instruction = Instruction(instruction.0, tens, ones);
    }

    /// The two digits of an instruction, where both are there and both are
    /// literal.
    fn literal_digits(instruction: &Instruction) -> (r: Option<(u8, u8)>)
        ensures
            r == digits(*instruction),
    {
        match (instruction.1, instruction.2) {
            (Some(Tens::Num(tens)), Some(Ones::Num(ones))) => Some((tens, ones)),
            _ => None,
        }
    }

    /// The error of an instruction that lacks a digit that its operation
    /// needs.
    fn undecodable(&self) -> (error: ExecutionError)
        requires
            self@.board() is Some,
        ensures
            error == self@.undecodable(),
    {
        match self.pinboard(self.current_pinboard) {
            Some(board) => ExecutionError::MissingInstruction(
                self.current_pinboard,
                board.next_instruction(),
            ),
            None => ExecutionError::MissingPinboard(self.current_pinboard),
        }
    }

    /// Runs an operation on the memory word in row `tens`, column `ones`.
    fn compute(&mut self, operation: Opcode, tens: u8, ones: u8) -> (r: Result<
        Option<Word12>,
        ExecutionError,
    >)
        requires
            old(self)@.board() is Some,
            operation is W || operation is R || operation is Add || operation is Sub
                || operation is Mul || operation is Div,
        ensures
            addressable(tens, ones) ==> final(self)@ == old(self)@.computed(
                operation,
                cell(tens, ones),
            ).state && printed(r) == old(self)@.computed(operation, cell(tens, ones)).result,
            !addressable(tens, ones) ==> final(self)@ == old(self)@.failed(
                ExecutionError::InvalidMemory(tens, ones),
            ).state && printed(r) == old(self)@.failed(
                ExecutionError::InvalidMemory(tens, ones),
            ).result,
    {
        proof {
            use_type_invariant(&*self);
        }
        let accumulator = self.a;
        let word = match self.memory.get(tens, ones) {
            Ok(place) => {
                if matches!(operation, Opcode::W) {
                    *place = accumulator;
                }
                *place
            },
            Err(error) => {
                return self.fail(error);
            },
        };
        assert(self.memory@ == (if operation is W {
            old(self).memory@.update(cell(tens, ones), accumulator@)
        } else {
            old(self).memory@
        }));
        match operation {
            Opcode::W => {},
            Opcode::R => {
                self.a = word;
            },
            Opcode::Add => match accumulator.checked_add(word) {
                Ok(sum) => {
                    self.a = sum;
                },
                Err(error) => {
                    return self.fail(arithmetic(error));
                },
            },
            Opcode::Sub => match accumulator.checked_sub(word) {
                Ok(difference) => {
                    self.a = difference;
                },
                Err(error) => {
                    return self.fail(arithmetic(error));
                },
            },
            Opcode::Mul => match accumulator.wide_mul(word) {
                Ok((low, high)) => {
                    self.a = low;
                    self.b = high;
                },
                Err(error) => {
                    return self.fail(arithmetic(error));
                },
            },
            Opcode::Div => match accumulator.div_rem(word) {
                Ok((quotient, remainder)) => {
                    self.a = quotient;
                    self.b = remainder;
                },
                Err(error) => {
                    return self.fail(arithmetic(error));
                },
            },
            _ => {},
        }
        self.advance(1);
        Ok(None)
    }

    /// Makes the place that `tens` and `ones` name the one that runs next.
    fn transfer<P: Policy>(&mut self, tens: u8, ones: u8, policy: &P) -> (r: Result<
        Option<Word12>,
        ExecutionError,
    >)
        requires
            old(self)@.board() is Some,
        ensures
            final(self)@ == old(self)@.transferred(tens, ones, *policy).state,
            printed(r) == old(self)@.transferred(tens, ones, *policy).result,
    {
        proof {
            use_type_invariant(&*self);
        }
        let target = match policy.locate(tens, ones) {
            Some(target) => target,
            None => {
                let error = self.undecodable();
                return self.fail(error);
            },
        };
        let mut board = match self.pinboard(target.pinboard) {
            Some(board) => board,
            None => {
                return self.fail(ExecutionError::MissingPinboard(target.pinboard));
            },
        };
        if !board.set_next_instruction(target.position) {
            return self.fail(
                ExecutionError::MissingInstruction(target.pinboard, target.position),
            );
        }
        self.put_board(target.pinboard, board);
        proof {
            use_type_invariant(&*self);
        }
        self.current_pinboard = target.pinboard;
        Ok(None)
    }

    /// Rewires the place that `tens` and `ones` name.
    fn rewire<P: Policy>(&mut self, tens: u8, ones: u8, policy: &P) -> (r: Result<
        Option<Word12>,
        ExecutionError,
    >)
        requires
            old(self)@.board() is Some,
        ensures
            final(self)@ == old(self)@.altered(tens, ones, *policy).state,
            printed(r) == old(self)@.altered(tens, ones, *policy).result,
    {
        let target = match policy.locate(tens, ones) {
            Some(target) => target,
            None => {
                return self.fail(ExecutionError::InvalidMemory(tens, ones));
            },
        };
        let mut board = match self.pinboard(target.pinboard) {
            Some(board) => board,
            None => {
                return self.fail(ExecutionError::InvalidMemory(tens, ones));
            },
        };
        let wiring = policy.alter(board.instruction(target.position), self.a);
        if !board.wire(target.position, wiring) {
            return self.fail(ExecutionError::InvalidMemory(tens, ones));
        }
        self.put_board(target.pinboard, board);
        self.advance(1);
        Ok(None)
    }

    /// Runs `instruction`, in which no placeholder is left.
    fn execute<P: Policy>(&mut self, instruction: Instruction, policy: &P) -> (r: Result<
        Option<Word12>,
        ExecutionError,
    >)
        requires
            old(self)@.board() is Some,
        ensures
            final(self)@ == old(self)@.executed(instruction, *policy).state,
            printed(r) == old(self)@.executed(instruction, *policy).result,
    {
        proof {
            use_type_invariant(&*self);
        }
        match instruction.0 {
            Opcode::K => {
                self.status = Status::Keyboard;
                return Ok(None);
            },
            Opcode::B => {
                return match self.a.narrow() {
                    Ok(word) => {
                        self.b = word;
                        self.advance(1);
                        Ok(None)
                    },
                    Err(error) => self.fail(arithmetic(error)),
                };
            },
            Opcode::P => {
                let word = self.a;
                self.advance(1);
                return Ok(Some(word));
            },
            Opcode::H => {
                let number = self.current_pinboard;
                match self.pinboard(number) {
                    Some(board) => {
                        let mut board = board;
                        board.set_next_instruction(0);
                        self.put_board(number, board);
                    },
                    None => {},
                }
                return Ok(None);
            },
            _ => {},
        }
        let (tens, ones) = match Self::literal_digits(&instruction) {
            Some(pair) => pair,
            None => {
                let error = self.undecodable();
                return self.fail(error);
            },
        };
        match instruction.0 {
            Opcode::S => {
                self.advance(10 * (tens as usize) + ones as usize);
                Ok(None)
            },
            Opcode::U => self.transfer(tens, ones, policy),
            Opcode::C => {
                if policy.decide(self.a, self.b) {
                    self.transfer(tens, ones, policy)
                } else {
                    self.advance(1);
                    Ok(None)
                }
            },
            Opcode::A => self.rewire(tens, ones, policy),
            operation => self.compute(operation, tens, ones),
        }
    }

    /// Runs the instruction under the cursor of the pinboard that runs.
    ///
    /// Hands back the word that the instruction printed, if it printed one.
    /// A machine that is not ready to continue is left as it is. Every
    /// failure but one puts the machine in alarm and changes nothing else; a
    /// placeholder that the machine does not run yet is reported as
    /// `Unsupported` and changes nothing at all.
    pub fn step<P: Policy>(&mut self, policy: &P) -> (r: Result<Option<Word12>, ExecutionError>)
        ensures
            final(self)@ == old(self)@.step(*policy).state,
            printed(r) == old(self)@.step(*policy).result,
            old(self)@.well_formed(),
            final(self)@.well_formed(),
    {
        proof {
            use_type_invariant(&*self);
            self.lemma_well_formed();
            self@.lemma_step_well_formed(*policy);
        }
        if self.status != Status::Continue {
            return Ok(None);
        }
        let number = self.current_pinboard;
        let board = match self.pinboard(number) {
            Some(board) => board,
            None => {
                return self.fail(ExecutionError::MissingPinboard(number));
            },
        };
        let position = board.next_instruction();
        let stored = match board.instruction(position) {
            Some(stored) => stored,
            None => {
                return self.fail(ExecutionError::MissingInstruction(number, position));
            },
        };
        if stored.unsupported() {
            return Err(ExecutionError::Unsupported(number, position));
        }
        let mut instruction = stored;
        self.process_special_digits(&mut instruction);
        self.execute(instruction, policy)
    }

    /// Hands a word from the keyboard to a machine that waits for one: the
    /// word goes to the accumulator and the machine continues after the
    /// instruction that asked for it. A machine that does not wait for a word
    /// is left as it is.
    pub fn supply_input(&mut self, word: Word12) -> (r: Result<(), ExecutionError>)
        ensures
            final(self)@ == old(self)@.supplied(word@).0,
            r == old(self)@.supplied(word@).1,
            old(self)@.well_formed(),
            final(self)@.well_formed(),
    {
        proof {
            use_type_invariant(&*self);
            self.lemma_well_formed();
            word.lemma_fits();
        }
        if self.status != Status::Keyboard {
            return Ok(());
        }
        if self.pinboard(self.current_pinboard).is_none() {
            self.status = Status::Alarm;
            return Err(ExecutionError::MissingPinboard(self.current_pinboard));
        }
        self.status = Status::Continue;
        self.a = word;
        self.advance(1);
        Ok(())
    }
}

} // verus!
