//! Instructions and the pinboards that hold them.
//!
//! An instruction is an operation with up to two addressing digits. A
//! pinboard is a board of sixteen positions, each wired with an instruction
//! or left unwired, and a cursor that marks the position to run next.

use vstd::prelude::*;

verus! {

/// The number of positions on a pinboard.
pub const POSITIONS: usize = 16;

/// The operations of the machine.
#[derive(Clone, Copy, Debug, PartialEq, Eq, Structural)]
pub enum Opcode {
    /// Wait for a word from the keyboard.
    K,
    /// Write the accumulator to memory.
    W,
    /// Read a memory word into the accumulator.
    R,
    /// Copy the accumulator into the secondary accumulator.
    B,
    /// Print the accumulator.
    P,
    /// Add a memory word to the accumulator.
    Add,
    /// Subtract a memory word from the accumulator.
    Sub,
    /// Multiply the accumulator by a memory word.
    Mul,
    /// Divide the accumulator by a memory word.
    Div,
    /// Alter a wired instruction.
    A,
    /// Transfer unconditionally.
    U,
    /// Transfer if the machine's condition holds.
    C,
    /// Send the cursor home, to the first position.
    H,
    /// Step the cursor by a given number of positions.
    S,
}

/// The first addressing digit of an instruction.
#[derive(Clone, Copy, Debug, PartialEq, Eq, Structural)]
pub enum Tens {
    /// A digit, 0 to 9 in a wired program.
    Num(u8),
    /// Stands for the digit in control register E.
    E,
    /// Stands for the digit in control register X.
    X,
}

/// The second addressing digit of an instruction.
#[derive(Clone, Copy, Debug, PartialEq, Eq, Structural)]
pub enum Ones {
    /// A digit, 0 to 15 in a wired program.
    Num(u8),
    /// Stands for the digit in control register E.
    E,
    /// Stands for the digit in control register F.
    F,
    /// Stands for the digit in control register Y.
    Y,
    /// The placeholder `*`, which the machine does not run yet.
    Star,
    /// The placeholder `V`, which the machine does not run yet.
    V,
}

/// One wired instruction: an operation, and the addressing digits it was
/// given, if any.
#[derive(Clone, Copy, Debug, PartialEq, Eq, Structural)]
pub struct Instruction(pub Opcode, pub Option<Tens>, pub Option<Ones>);

impl Tens {
    /// Whether a program may hold this digit: a literal is at most 9.
    pub open spec fn in_vocabulary(self) -> bool {
        self matches Tens::Num(n) ==> n <= 9
    }
}

impl Ones {
    /// Whether a program may hold this digit: a literal is at most 15.
    pub open spec fn in_vocabulary(self) -> bool {
        self matches Ones::Num(n) ==> n <= 15
    }

    /// Whether this is one of the two placeholders that the machine does not
    /// run yet.
    pub open spec fn is_unresolved(self) -> bool {
        self is Star || self is V
    }
}

impl Instruction {
    /// Whether a line of program text can stand for this instruction: both
    /// digits are in their vocabularies, and the second digit is there only
    /// if the first is.
    pub open spec fn well_formed(self) -> bool {
        &&& self.1 matches Some(tens) ==> tens.in_vocabulary()
        &&& self.2 matches Some(ones) ==> ones.in_vocabulary()
        &&& self.1 is None ==> self.2 is None
    }

    /// Whether the instruction holds a placeholder that the machine does not
    /// run yet.
    pub open spec fn is_unsupported(self) -> bool {
        self.2 matches Some(ones) && ones.is_unresolved()
    }

    /// Tells whether the instruction holds a placeholder that the machine
    /// does not run yet.
    pub fn unsupported(&self) -> (b: bool)
        ensures
            b == self.is_unsupported(),
    {
        match self.2 {
            Some(Ones::Star) => true,
            Some(Ones::V) => true,
            _ => false,
        }
    }
}

/// What a pinboard is: the wiring of its positions, and its cursor.
pub struct PinboardView {
    /// The instruction at each position, `None` where it is unwired.
    pub instructions: Seq<Option<Instruction>>,
    /// The position to run next.
    pub next_instruction: int,
}

impl PinboardView {
    /// Whether some position at or after `from` is wired.
    pub open spec fn wired_from(self, from: int) -> bool {
        exists|j: int|
            from <= j < self.instructions.len() && (#[trigger] self.instructions[j]) is Some
    }

    /// The instruction under the cursor, `None` where that position is
    /// unwired.
    pub open spec fn current(self) -> Option<Instruction> {
        self.at(self.next_instruction)
    }

    /// The instruction at `position`, `None` where the position is unwired or
    /// not on the board.
    pub open spec fn at(self, position: int) -> Option<Instruction> {
        if 0 <= position < self.instructions.len() {
            self.instructions[position]
        } else {
            None
        }
    }

    /// The board with its cursor at `position`.
    pub open spec fn with_cursor(self, position: int) -> PinboardView {
        PinboardView { next_instruction: position, ..self }
    }

    /// The board with `position` rewired.
    pub open spec fn rewired(
        self,
        position: int,
        instruction: Option<Instruction>,
    ) -> PinboardView {
        PinboardView { instructions: self.instructions.update(position, instruction), ..self }
    }

    /// Every board has sixteen positions, and its cursor is on one of them.
    pub open spec fn well_formed(self) -> bool {
        &&& self.instructions.len() == POSITIONS
        &&& 0 <= self.next_instruction < POSITIONS
    }
}

/// The board that a program wires: its instructions from the first position
/// on, every further position unwired, and the cursor at home.
pub open spec fn wired(program: Seq<Option<Instruction>>) -> PinboardView {
    PinboardView {
        instructions: Seq::new(
            POSITIONS as nat,
            |i: int|
                if i < program.len() {
                    program[i]
                } else {
                    None
                },
        ),
        next_instruction: 0,
    }
}

/// A board of sixteen positions and the cursor that runs over them.
#[derive(Clone, Copy, Debug, PartialEq, Eq)]
pub struct Pinboard {
    instructions: [Option<Instruction>; POSITIONS],
    next_instruction: u8,
}

impl View for Pinboard {
    type V = PinboardView;

    /// The wiring and the cursor. The cursor of every board that a program
    /// can build is on the board; ghost code can name boards that no program
    /// could build, and their cursor reads as home, so that the view of
    /// every board is well formed.
    closed spec fn view(&self) -> PinboardView {
        PinboardView {
            instructions: self.instructions@,
            next_instruction: if self.cursor_on_board() {
                self.next_instruction as int
            } else {
                0
            },
        }
    }
}

impl Pinboard {
    #[verifier::type_invariant]
    spec fn cursor_on_board(self) -> bool {
        self.next_instruction < POSITIONS
    }

    /// Every board has sixteen positions, and its cursor is on one of them.
    pub proof fn lemma_well_formed(self)
        ensures
            self@.well_formed(),
    {
    }

    /// A board with no position wired and the cursor at home.
    pub fn new() -> (board: Pinboard)
        ensures
            board@ == wired(Seq::empty()),
    {
        let board = Pinboard { instructions: [None; POSITIONS], next_instruction: 0 };
        assert(board@.instructions =~= wired(Seq::empty()).instructions);
        board
    }

    /// A board wired with `program` from the first position on, the cursor at
    /// home; `None` where the program is longer than the board.
    pub fn from_instructions(program: &[Option<Instruction>]) -> (r: Option<Pinboard>)
        ensures
            program@.len() > POSITIONS ==> r is None,
            program@.len() <= POSITIONS ==> r is Some && r->0@ == wired(program@),
    {
        if program.len() > POSITIONS {
            return None;
        }
        let mut board = Pinboard::new();
        let mut i: usize = 0;
        while i < program.len()
            invariant
                i <= program@.len() <= POSITIONS,
                board@.next_instruction == 0,
                forall|j: int|
                    0 <= j < POSITIONS ==> board@.instructions[j] == (if j < i {
                        program@[j]
                    } else {
                        None
                    }),
            decreases program@.len() - i,
        {
            board.wire(i as u8, program[i]);
            i += 1;
        }
        proof {
            assert(board@.instructions =~= wired(program@).instructions);
        }
        Some(board)
    }

    /// The instruction at `position`, `None` where the position is unwired or
    /// not on the board.
    pub fn instruction(&self, position: u8) -> (r: Option<Instruction>)
        ensures
            r == self@.at(position as int),
    {
        proof {
            use_type_invariant(self);
        }
        if (position as usize) < POSITIONS {
            self.instructions[position as usize]
        } else {
            None
        }
    }

    /// The position of the cursor.
    pub fn next_instruction(&self) -> (position: u8)
        ensures
            position == self@.next_instruction,
            position < POSITIONS,
    {
        proof {
            use_type_invariant(self);
        }
        self.next_instruction
    }

    /// Wires `position` with `instruction`, or unwires it where that is
    /// `None`. Tells whether the position is on the board; the board is left
    /// as it was where it is not.
    pub fn wire(&mut self, position: u8, instruction: Option<Instruction>) -> (done: bool)
        ensures
            done == (position < POSITIONS),
            done ==> final(self)@ == old(self)@.rewired(position as int, instruction),
            !done ==> final(self)@ == old(self)@,
    {
        proof {
            use_type_invariant(&*self);
        }
        if (position as usize) < POSITIONS {
            self.instructions[position as usize] = instruction;
            true
        } else {
            false
        }
    }

    /// Moves the cursor to `position`. Tells whether the position is on the
    /// board; the cursor stays where it was where it is not.
    pub fn set_next_instruction(&mut self, position: u8) -> (done: bool)
        ensures
            done == (position < POSITIONS),
            done ==> final(self)@ == old(self)@.with_cursor(position as int),
            !done ==> final(self)@ == old(self)@,
    {
        proof {
            use_type_invariant(&*self);
        }
        if (position as usize) < POSITIONS {
            self.next_instruction = position;
            true
        } else {
            false
        }
    }

    /// Tells whether some position at or after `from` is wired.
    pub fn wired_from(&self, from: usize) -> (b: bool)
        ensures
            b == self@.wired_from(from as int),
    {
        let mut i: usize = from;
        while i < POSITIONS
            invariant
                from <= i,
                self.instructions@.len() == POSITIONS,
                forall|j: int| from <= j < i && j < POSITIONS ==> self.instructions@[j] is None,
            decreases POSITIONS - i,
        {
            if self.instructions[i].is_some() {
                return true;
            }
            i += 1;
        }
        false
    }
}

} // verus!
