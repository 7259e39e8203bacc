//! The text of a program.
//!
//! A line of program text holds one instruction: the symbol of an operation
//! and, after it, up to two addressing digits, each a token of its own.
//! Tokens are set apart by white space. What follows the third token is not
//! read.

use vstd::prelude::*;
use vstd::string::StrSliceExecFns;
use crate::pinboards::{Instruction, Ones, Opcode, Tens};

verus! {

/// Why a line of program text is no instruction. Each error carries the text
/// that it complains of.
#[derive(Debug, PartialEq, Eq)]
pub enum ParseError {
    /// The first token is no operation.
    UnknownOpcode(String),
    /// The second token is no first addressing digit.
    UnknownTens(String),
    /// The third token is no second addressing digit.
    UnknownOnes(String),
    /// The line holds no token; it is carried whole.
    MalformedInstruction(String),
}

/// A parse error, with the text that it carries as a sequence of characters.
pub enum ParseFailure {
    /// The first token is no operation.
    UnknownOpcode(Seq<char>),
    /// The second token is no first addressing digit.
    UnknownTens(Seq<char>),
    /// The third token is no second addressing digit.
    UnknownOnes(Seq<char>),
    /// The line holds no token.
    MalformedInstruction(Seq<char>),
}

impl View for ParseError {
    type V = ParseFailure;

    open spec fn view(&self) -> ParseFailure {
        match self {
            ParseError::UnknownOpcode(token) => ParseFailure::UnknownOpcode(token@),
            ParseError::UnknownTens(token) => ParseFailure::UnknownTens(token@),
            ParseError::UnknownOnes(token) => ParseFailure::UnknownOnes(token@),
            ParseError::MalformedInstruction(line) => ParseFailure::MalformedInstruction(line@),
        }
    }
}

impl Clone for ParseError {
    /// The same error with a copy of its text.
    fn clone(&self) -> (copy: ParseError)
        ensures
            copy@ == self@,
    {
        match self {
            ParseError::UnknownOpcode(token) => ParseError::UnknownOpcode(token.clone()),
            ParseError::UnknownTens(token) => ParseError::UnknownTens(token.clone()),
            ParseError::UnknownOnes(token) => ParseError::UnknownOnes(token.clone()),
            ParseError::MalformedInstruction(line) => ParseError::MalformedInstruction(
                line.clone(),
            ),
        }
    }
}

/// Whether a character is white space: one of the characters that Unicode
/// gives the property `White_Space`.
pub open spec fn is_whitespace(c: char) -> bool {
    let n = c as u32;
    ||| 0x09 <= n <= 0x0d
    ||| n == 0x20
    ||| n == 0x85
    ||| n == 0xa0
    ||| n == 0x1680
    ||| 0x2000 <= n <= 0x200a
    ||| n == 0x2028
    ||| n == 0x2029
    ||| n == 0x202f
    ||| n == 0x205f
    ||| n == 0x3000
}

/// The first place at or after `from` that holds no white space, or the end
/// of the line.
pub open spec fn skip_whitespace(line: Seq<char>, from: int) -> int
    decreases line.len() - from,
{
    if 0 <= from < line.len() && is_whitespace(line[from]) {
        skip_whitespace(line, from + 1)
    } else {
        from
    }
}

/// The first place at or after `from` that holds white space, or the end of
/// the line.
pub open spec fn skip_token(line: Seq<char>, from: int) -> int
    decreases line.len() - from,
{
    if 0 <= from < line.len() && !is_whitespace(line[from]) {
        skip_token(line, from + 1)
    } else {
        from
    }
}

/// The place where token number `n` of the line begins, counted from 0, or
/// the end of the line where it has fewer tokens.
pub open spec fn token_start(line: Seq<char>, n: nat) -> int
    decreases n,
{
    if n == 0 {
        skip_whitespace(line, 0)
    } else {
        skip_whitespace(line, skip_token(line, token_start(line, (n - 1) as nat)))
    }
}

/// Token number `n` of the line, counted from 0: a longest run of characters
/// that are not white space. `None` where the line has fewer tokens.
pub open spec fn token(line: Seq<char>, n: nat) -> Option<Seq<char>> {
    let start = token_start(line, n);
    if start < line.len() {
        Some(line.subrange(start, skip_token(line, start)))
    } else {
        None
    }
}

/// The symbol of an operation.
pub open spec fn opcode_symbol(operation: Opcode) -> char {
    match operation {
        Opcode::K => 'K',
        Opcode::W => 'W',
        Opcode::R => 'R',
        Opcode::B => 'B',
        Opcode::P => 'P',
        Opcode::Add => '+',
        Opcode::Sub => '\u{2212}',
        Opcode::Mul => '\u{d7}',
        Opcode::Div => '\u{f7}',
        Opcode::A => 'A',
        Opcode::U => 'U',
        Opcode::C => 'C',
        Opcode::H => 'H',
        Opcode::S => 'S',
    }
}

/// The operation whose symbol is `c`.
pub open spec fn symbol_opcode(c: char) -> Option<Opcode> {
    if c == 'K' {
        Some(Opcode::K)
    } else if c == 'W' {
        Some(Opcode::W)
    } else if c == 'R' {
        Some(Opcode::R)
    } else if c == 'B' {
        Some(Opcode::B)
    } else if c == 'P' {
        Some(Opcode::P)
    } else if c == '+' {
        Some(Opcode::Add)
    } else if c == '\u{2212}' {
        Some(Opcode::Sub)
    } else if c == '\u{d7}' {
        Some(Opcode::Mul)
    } else if c == '\u{f7}' {
        Some(Opcode::Div)
    } else if c == 'A' {
        Some(Opcode::A)
    } else if c == 'U' {
        Some(Opcode::U)
    } else if c == 'C' {
        Some(Opcode::C)
    } else if c == 'H' {
        Some(Opcode::H)
    } else if c == 'S' {
        Some(Opcode::S)
    } else {
        None
    }
}

/// The character that writes the digit `d`, which is at most 9.
pub open spec fn digit_char(d: u8) -> char {
    ('0' as u8 + d) as char
}

/// The digit that `c` writes, `None` where `c` is no decimal digit.
pub open spec fn char_digit(c: char) -> Option<u8> {
    if '0' <= c <= '9' {
        Some((c as u8 - '0' as u8) as u8)
    } else {
        None
    }
}

/// The operation that a token names: the token is the operation's symbol and
/// nothing else.
pub open spec fn opcode_of(token: Seq<char>) -> Option<Opcode> {
    if token.len() == 1 {
        symbol_opcode(token[0])
    } else {
        None
    }
}

/// The first addressing digit that a token names: one decimal digit, `E` or
/// `X`.
pub open spec fn tens_of(token: Seq<char>) -> Option<Tens> {
    if token.len() != 1 {
        None
    } else if token[0] == 'E' {
        Some(Tens::E)
    } else if token[0] == 'X' {
        Some(Tens::X)
    } else {
        match char_digit(token[0]) {
            Some(d) => Some(Tens::Num(d)),
            None => None,
        }
    }
}

/// The second addressing digit that a token names: a number from 0 to 15
/// written in decimal without a sign or a leading zero, `E`, `F`, `Y`, `*` or
/// `V`.
pub open spec fn ones_of(token: Seq<char>) -> Option<Ones> {
    if token.len() == 1 {
        if token[0] == 'E' {
            Some(Ones::E)
        } else if token[0] == 'F' {
            Some(Ones::F)
        } else if token[0] == 'Y' {
            Some(Ones::Y)
        } else if token[0] == '*' {
            Some(Ones::Star)
        } else if token[0] == 'V' {
            Some(Ones::V)
        } else {
            match char_digit(token[0]) {
                Some(d) => Some(Ones::Num(d)),
                None => None,
            }
        }
    } else if token.len() == 2 && token[0] == '1' {
        match char_digit(token[1]) {
            Some(d) => if d <= 5 {
                Some(Ones::Num((10 + d) as u8))
            } else {
                None
            },
            None => None,
        }
    } else {
        None
    }
}

/// What a line of program text stands for.
///
/// The first token is the operation, the second, if there is one, the first
/// addressing digit, and the third, if there is one, the second addressing
/// digit. The first token that is not what it should be is reported; further
/// tokens are not read. A line without a token is malformed.
pub open spec fn parse_line(line: Seq<char>) -> Result<Instruction, ParseFailure> {
    match token(line, 0) {
        None => Err(ParseFailure::MalformedInstruction(line)),
        Some(first) => match opcode_of(first) {
            None => Err(ParseFailure::UnknownOpcode(first)),
            Some(operation) => match token(line, 1) {
                None => Ok(Instruction(operation, None, None)),
                Some(second) => match tens_of(second) {
                    None => Err(ParseFailure::UnknownTens(second)),
                    Some(tens) => match token(line, 2) {
                        None => Ok(Instruction(operation, Some(tens), None)),
                        Some(third) => match ones_of(third) {
                            None => Err(ParseFailure::UnknownOnes(third)),
                            Some(ones) => Ok(Instruction(operation, Some(tens), Some(ones))),
                        },
                    },
                },
            },
        },
    }
}

/// The token that names a first addressing digit.
pub open spec fn tens_token(tens: Tens) -> Seq<char> {
    match tens {
        Tens::Num(d) => seq![digit_char(d)],
        Tens::E => seq!['E'],
        Tens::X => seq!['X'],
    }
}

/// The token that names a second addressing digit.
pub open spec fn ones_token(ones: Ones) -> Seq<char> {
    match ones {
        Ones::Num(d) => if d <= 9 {
            seq![digit_char(d)]
        } else {
            seq!['1', digit_char((d - 10) as u8)]
        },
        Ones::E => seq!['E'],
        Ones::F => seq!['F'],
        Ones::Y => seq!['Y'],
        Ones::Star => seq!['*'],
        Ones::V => seq!['V'],
    }
}

/// The line of program text that stands for an instruction: the symbol of the
/// operation, then each addressing digit that is there after one blank.
pub open spec fn render(instruction: Instruction) -> Seq<char> {
    seq![opcode_symbol(instruction.0)] + (match instruction.1 {
        None => Seq::<char>::empty(),
        Some(tens) => seq![' '] + tens_token(tens) + (match instruction.2 {
            None => Seq::<char>::empty(),
            Some(ones) => seq![' '] + ones_token(ones),
        }),
    })
}

/// What `parse_instruction` returns, with the text of an error as a sequence
/// of characters.
pub open spec fn parsed(r: Result<Instruction, ParseError>) -> Result<Instruction, ParseFailure> {
    match r {
        Ok(instruction) => Ok(instruction),
        Err(error) => Err(error@),
    }
}

/// Tells whether a character is white space.
pub fn whitespace(c: char) -> (b: bool)
    ensures
        b == is_whitespace(c),
{
    let n: u32 = c as u32;
    (0x09 <= n && n <= 0x0d) || n == 0x20 || n == 0x85 || n == 0xa0 || n == 0x1680 || (0x2000 <= n
        && n <= 0x200a) || n == 0x2028 || n == 0x2029 || n == 0x202f || n == 0x205f || n == 0x3000
}

/// The characters of a line, one by one.
fn characters(line: &str) -> (chars: Vec<char>)
    ensures
        chars@ == line@,
{
    let mut chars: Vec<char> = Vec::new();
    for c in it: line.chars()
        invariant
            it.seq() == line@,
            chars@ == line@.subrange(0, it.index() as int),
    {
        chars.push(c);
    }
    chars
}

/// The first place at or after `from` that holds no white space.
fn after_whitespace(chars: &Vec<char>, from: usize) -> (place: usize)
    requires
        from <= chars@.len(),
    ensures
        place == skip_whitespace(chars@, from as int),
        from <= place <= chars@.len(),
{
    let mut i: usize = from;
    while i < chars.len() && whitespace(chars[i])
        invariant
            from <= i <= chars@.len(),
            skip_whitespace(chars@, from as int) == skip_whitespace(chars@, i as int),
        decreases chars@.len() - i,
    {
        i += 1;
    }
    i
}

/// The first place at or after `from` that holds white space.
fn after_token(chars: &Vec<char>, from: usize) -> (place: usize)
    requires
        from <= chars@.len(),
    ensures
        place == skip_token(chars@, from as int),
        from <= place <= chars@.len(),
{
    let mut i: usize = from;
    while i < chars.len() && !whitespace(chars[i])
        invariant
            from <= i <= chars@.len(),
            skip_token(chars@, from as int) == skip_token(chars@, i as int),
        decreases chars@.len() - i,
    {
        i += 1;
    }
    i
}

/// The digit that a character writes.
fn digit(c: char) -> (d: Option<u8>)
    ensures
        d == char_digit(c),
{
    match c {
        '0' => Some(0),
        '1' => Some(1),
        '2' => Some(2),
        '3' => Some(3),
        '4' => Some(4),
        '5' => Some(5),
        '6' => Some(6),
        '7' => Some(7),
        '8' => Some(8),
        '9' => Some(9),
        _ => None,
    }
}

/// The operation that the characters from `start` to `end` name.
fn opcode_between(chars: &Vec<char>, start: usize, end: usize) -> (r: Option<Opcode>)
    requires
        start <= end <= chars@.len(),
    ensures
        r == opcode_of(chars@.subrange(start as int, end as int)),
{
    if end - start != 1 {
        return None;
    }
    match chars[start] {
        'K' => Some(Opcode::K),
        'W' => Some(Opcode::W),
        'R' => Some(Opcode::R),
        'B' => Some(Opcode::B),
        'P' => Some(Opcode::P),
        '+' => Some(Opcode::Add),
        '\u{2212}' => Some(Opcode::Sub),
        '\u{d7}' => Some(Opcode::Mul),
        '\u{f7}' => Some(Opcode::Div),
        'A' => Some(Opcode::A),
        'U' => Some(Opcode::U),
        'C' => Some(Opcode::C),
        'H' => Some(Opcode::H),
        'S' => Some(Opcode::S),
        _ => None,
    }
}

/// The first addressing digit that the characters from `start` to `end`
/// name.
fn tens_between(chars: &Vec<char>, start: usize, end: usize) -> (r: Option<Tens>)
    requires
        start <= end <= chars@.len(),
    ensures
        r == tens_of(chars@.subrange(start as int, end as int)),
        r matches Some(tens) ==> tens.in_vocabulary(),
{
    if end - start != 1 {
        return None;
    }
    match chars[start] {
        'E' => Some(Tens::E),
        'X' => Some(Tens::X),
        c => match digit(c) {
            Some(d) => Some(Tens::Num(d)),
            None => None,
        },
    }
}

/// The second addressing digit that the characters from `start` to `end`
/// name.
fn ones_between(chars: &Vec<char>, start: usize, end: usize) -> (r: Option<Ones>)
    requires
        start <= end <= chars@.len(),
    ensures
        r == ones_of(chars@.subrange(start as int, end as int)),
        r matches Some(ones) ==> ones.in_vocabulary(),
{
    if end - start == 1 {
        match chars[start] {
            'E' => Some(Ones::E),
            'F' => Some(Ones::F),
            'Y' => Some(Ones::Y),
            '*' => Some(Ones::Star),
            'V' => Some(Ones::V),
            c => match digit(c) {
                Some(d) => Some(Ones::Num(d)),
                None => None,
            },
        }
    } else if end - start == 2 && chars[start] == '1' {
        match digit(chars[start + 1]) {
            Some(d) => if d <= 5 {
                Some(Ones::Num(10 + d))
            } else {
                None
            },
            None => None,
        }
    } else {
        None
    }
}

/// The text of the line from character `start` to character `end`.
fn text_between(line: &str, start: usize, end: usize) -> (text: String)
    requires
        start <= end <= line@.len(),
    ensures
        text@ == line@.subrange(start as int, end as int),
{
    line.substring_char(start, end).to_owned()
}

/// Reads one line of program text.
///
/// The instruction that the line stands for, or the first thing that is wrong
/// with it: see [`parse_line`]. An instruction that was read holds only digits
/// of the two vocabularies.
pub fn parse_instruction(line: &str) -> (r: Result<Instruction, ParseError>)
    ensures
        parsed(r) == parse_line(line@),
        r matches Ok(instruction) ==> instruction.well_formed(),
{
    let chars = characters(line);
    let n = chars.len();
    let first = after_whitespace(&chars, 0);
    if first >= n {
        return Err(ParseError::MalformedInstruction(line.to_owned()));
    }
    let first_end = after_token(&chars, first);
    let operation = match opcode_between(&chars, first, first_end) {
        Some(operation) => operation,
        None => {
            return Err(ParseError::UnknownOpcode(text_between(line, first, first_end)));
        },
    };
    let second = after_whitespace(&chars, first_end);
    assert(second == token_start(line@, 1)) by {
        reveal_with_fuel(token_start, 2);
    }
    if second >= n {
        return Ok(Instruction(operation, None, None));
    }
    let second_end = after_token(&chars, second);
    let tens = match tens_between(&chars, second, second_end) {
        Some(tens) => tens,
        None => {
            return Err(ParseError::UnknownTens(text_between(line, second, second_end)));
        },
    };
    let third = after_whitespace(&chars, second_end);
    assert(third == token_start(line@, 2)) by {
        reveal_with_fuel(token_start, 3);
    }
    if third >= n {
        return Ok(Instruction(operation, Some(tens), None));
    }
    let third_end = after_token(&chars, third);
    match ones_between(&chars, third, third_end) {
        Some(ones) => Ok(Instruction(operation, Some(tens), Some(ones))),
        None => Err(ParseError::UnknownOnes(text_between(line, third, third_end))),
    }
}

impl std::str::FromStr for Instruction {
    type Err = ParseError;

    /// Reads one line of program text, as [`parse_instruction`] does.
    fn from_str(line: &str) -> (r: Result<Instruction, ParseError>)
        ensures
            parsed(r) == parse_line(line@),
            r matches Ok(instruction) ==> instruction.well_formed(),
    {
        parse_instruction(line)
    }
}

/// A run of characters that are not white space, ended by white space or by
/// the end of the line, is skipped as one token.
pub proof fn lemma_skip_token_run(line: Seq<char>, from: int, to: int)
    requires
        0 <= from <= to <= line.len(),
        forall|k: int| from <= k < to ==> !is_whitespace(#[trigger] line[k]),
        to == line.len() || is_whitespace(line[to]),
    ensures
        skip_token(line, from) == to,
    decreases to - from,
{
    if from < to {
        lemma_skip_token_run(line, from + 1, to);
    }
}

/// A run of white space, ended by another character or by the end of the
/// line, is skipped whole.
pub proof fn lemma_skip_whitespace_run(line: Seq<char>, from: int, to: int)
    requires
        0 <= from <= to <= line.len(),
        forall|k: int| from <= k < to ==> is_whitespace(#[trigger] line[k]),
        to == line.len() || !is_whitespace(line[to]),
    ensures
        skip_whitespace(line, from) == to,
    decreases to - from,
{
    if from < to {
        lemma_skip_whitespace_run(line, from + 1, to);
    }
}

/// Whether no character of a token is white space.
pub open spec fn is_solid(token: Seq<char>) -> bool {
    forall|k: int| 0 <= k < token.len() ==> !is_whitespace(#[trigger] token[k])
}

/// Each operation is named by its own symbol: the symbol names the
/// operation and nothing else does.
pub proof fn lemma_opcode_vocabulary(operation: Opcode)
    ensures
        opcode_of(seq![opcode_symbol(operation)]) == Some(operation),
        is_solid(seq![opcode_symbol(operation)]),
        forall|token: Seq<char>|
            opcode_of(token) == Some(operation) ==> token =~= seq![opcode_symbol(operation)],
{
}

/// Each first addressing digit of the vocabulary is named by its own token.
pub proof fn lemma_tens_vocabulary(tens: Tens)
    requires
        tens.in_vocabulary(),
    ensures
        tens_of(tens_token(tens)) == Some(tens),
        is_solid(tens_token(tens)),
        tens_token(tens).len() == 1,
        forall|token: Seq<char>| tens_of(token) == Some(tens) ==> token =~= tens_token(tens),
{
}

/// Each second addressing digit of the vocabulary is named by its own token.
pub proof fn lemma_ones_vocabulary(ones: Ones)
    requires
        ones.in_vocabulary(),
    ensures
        ones_of(ones_token(ones)) == Some(ones),
        is_solid(ones_token(ones)),
        1 <= ones_token(ones).len() <= 2,
        forall|token: Seq<char>| ones_of(token) == Some(ones) ==> token =~= ones_token(ones),
{
}

/// A token names an addressing digit only if the digit is of the vocabulary:
/// no line of text gives a literal above 9 in the first place or above 15 in
/// the second.
pub proof fn lemma_digits_in_vocabulary(token: Seq<char>)
    ensures
        tens_of(token) matches Some(tens) ==> tens.in_vocabulary(),
        ones_of(token) matches Some(ones) ==> ones.in_vocabulary(),
{
}

/// The tokens of a line in which solid, non-empty tokens stand one blank
/// apart are those tokens, and no more.
pub proof fn lemma_tokens_of_line(first: Seq<char>, second: Seq<char>, third: Seq<char>)
    requires
        is_solid(first),
        is_solid(second),
        is_solid(third),
        first.len() > 0,
        second.len() == 0 ==> third.len() == 0,
    ensures
        ({
            let line = first + (if second.len() == 0 {
                Seq::<char>::empty()
            } else {
                seq![' '] + second + (if third.len() == 0 {
                    Seq::<char>::empty()
                } else {
                    seq![' '] + third
                })
            });
            &&& token(line, 0) == Some(first)
            &&& token(line, 1) == (if second.len() == 0 {
                None
            } else {
                Some(second)
            })
            &&& second.len() > 0 ==> token(line, 2) == (if third.len() == 0 {
                None
            } else {
                Some(third)
            })
        }),
{
    let line = first + (if second.len() == 0 {
        Seq::<char>::empty()
    } else {
        seq![' '] + second + (if third.len() == 0 {
            Seq::<char>::empty()
        } else {
            seq![' '] + third
        })
    });
    let a = first.len() as int;
    let b = second.len() as int;
    let c = third.len() as int;
    reveal_with_fuel(token_start, 3);
    assert forall|k: int| 0 <= k < a implies !is_whitespace(#[trigger] line[k]) by {
        assert(line[k] == first[k]);
    }
    lemma_skip_token_run(line, 0, a);
    if b > 0 {
        assert forall|k: int| a + 1 <= k < a + 1 + b implies !is_whitespace(
            #[trigger] line[k],
        ) by {
            assert(line[k] == second[k - a - 1]);
        }
        lemma_skip_whitespace_run(line, a, a + 1);
        lemma_skip_token_run(line, a + 1, a + 1 + b);
    }
    if c > 0 {
        assert forall|k: int| a + b + 2 <= k < a + b + 2 + c implies !is_whitespace(
            #[trigger] line[k],
        ) by {
            assert(line[k] == third[k - a - b - 2]);
        }
        lemma_skip_whitespace_run(line, a + 1 + b, a + b + 2);
        lemma_skip_token_run(line, a + b + 2, a + b + 2 + c);
    }
}

/// Reading the text of an instruction gives the instruction back: for every
/// operation, with no addressing digit, with the first or with both, each of
/// its vocabulary.
pub proof fn lemma_render_parses(instruction: Instruction)
    requires
        instruction.well_formed(),
    ensures
        parse_line(render(instruction)) == Ok::<Instruction, ParseFailure>(instruction),
{
    let first = seq![opcode_symbol(instruction.0)];
    let nothing = Seq::<char>::empty();
    lemma_opcode_vocabulary(instruction.0);
    match instruction.1 {
        None => {
            lemma_tokens_of_line(first, nothing, nothing);
        },
        Some(tens) => {
            lemma_tens_vocabulary(tens);
            match instruction.2 {
                None => {
                    lemma_tokens_of_line(first, tens_token(tens), nothing);
                },
                Some(ones) => {
                    lemma_ones_vocabulary(ones);
                    lemma_tokens_of_line(first, tens_token(tens), ones_token(ones));
                },
            }
        },
    }
}

/// A token outside its vocabulary fails the line with the error of its
/// place, which carries the token.
pub proof fn lemma_unknown_token_fails(line: Seq<char>)
    ensures
        token(line, 0) is None ==> parse_line(line) == Err::<Instruction, ParseFailure>(
            ParseFailure::MalformedInstruction(line),
        ),
        token(line, 0) matches Some(first) ==> (opcode_of(first) is None ==> parse_line(line)
            == Err::<Instruction, ParseFailure>(ParseFailure::UnknownOpcode(first))),
        token(line, 0) matches Some(first) ==> (token(line, 1) matches Some(second) ==> (
        opcode_of(first) is Some && tens_of(second) is None ==> parse_line(line) == Err::<
            Instruction,
            ParseFailure,
        >(ParseFailure::UnknownTens(second)))),
        token(line, 0) matches Some(first) ==> (token(line, 1) matches Some(second) ==> (token(
            line,
            2,
        ) matches Some(third) ==> (opcode_of(first) is Some && tens_of(second) is Some && ones_of(
            third,
        ) is None ==> parse_line(line) == Err::<Instruction, ParseFailure>(
            ParseFailure::UnknownOnes(third),
        )))),
{
}

} // verus!
