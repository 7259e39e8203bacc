//! Range-checked decimal words.
//!
//! The machine computes on signed decimal words of a fixed digit width. A
//! word never holds a value outside its width: every operation either yields
//! a word that is in range or reports why it could not.

use vstd::prelude::*;

verus! {

/// Largest magnitude of a twelve-digit word.
pub const WORD12_MAX: i64 = 999_999_999_999;

/// Largest magnitude of an eleven-digit word.
pub const WORD11_MAX: i64 = 99_999_999_999;

/// Largest value of a sense-switch word.
pub const SWITCH16_MAX: u8 = 15;

/// The weight of the digit just above a twelve-digit word, by which a
/// double-width product is split into its two halves.
pub const WORD12_RADIX: i64 = 1_000_000_000_000;

/// Why a word could not be produced.
#[derive(Clone, Copy, Debug, PartialEq, Eq, Structural)]
pub enum WordError {
    /// The integer handed to a constructor does not fit the word.
    OutOfRange,
    /// The mathematical result of an operation does not fit the word.
    Overflow,
    /// The divisor is zero.
    DivisionByZero,
}

/// `v` without its sign.
pub open spec fn magnitude(v: int) -> int {
    if v < 0 {
        -v
    } else {
        v
    }
}

/// The quotient of `n` by `d`, rounded toward zero (`d` is not zero).
pub open spec fn quotient(n: int, d: int) -> int {
    let q = magnitude(n) / magnitude(d);
    if (n < 0) != (d < 0) {
        -q
    } else {
        q
    }
}

/// What is left of `n` after taking `quotient(n, d)` times `d` away; it has
/// the sign of `n`.
pub open spec fn remainder(n: int, d: int) -> int {
    let r = magnitude(n) % magnitude(d);
    if n < 0 {
        -r
    } else {
        r
    }
}

/// Whether `v` fits a twelve-digit word.
pub open spec fn fits_word12(v: int) -> bool {
    -WORD12_MAX <= v <= WORD12_MAX
}

/// Whether `v` fits an eleven-digit word.
pub open spec fn fits_word11(v: int) -> bool {
    -WORD11_MAX <= v <= WORD11_MAX
}

/// Whether `v` fits a sense-switch word.
pub open spec fn fits_switch16(v: int) -> bool {
    0 <= v <= SWITCH16_MAX
}

/// The low half of the double-width product `a * b`: what stays in a
/// twelve-digit word.
pub open spec fn product_low(a: int, b: int) -> int {
    remainder(a * b, WORD12_RADIX as int)
}

/// The high half of the double-width product `a * b`: what is carried out of
/// a twelve-digit word.
pub open spec fn product_high(a: int, b: int) -> int {
    quotient(a * b, WORD12_RADIX as int)
}

/// Truncated division splits a number exactly: the quotient times the divisor
/// plus the remainder gives the dividend back, and the remainder is smaller
/// in magnitude than the divisor.
pub proof fn lemma_quotient_remainder(n: int, d: int)
    requires
        d != 0,
    ensures
        n == d * quotient(n, d) + remainder(n, d),
        magnitude(remainder(n, d)) < magnitude(d),
        magnitude(quotient(n, d)) <= magnitude(n),
{
    let m = magnitude(n);
    let k = magnitude(d);
    vstd::arithmetic::div_mod::lemma_fundamental_div_mod(m, k);
    assert(m / k <= m) by (nonlinear_arith)
        requires
            m == k * (m / k) + m % k,
            0 <= m % k,
            0 <= m / k,
            k >= 1,
    ;
    let q = m / k;
    assert(d * (-q) == -(d * q)) by (nonlinear_arith);
    assert((-d) * q == -(d * q)) by (nonlinear_arith);
}

/// A double-width product is put together again from its two halves.
pub proof fn lemma_product_halves(a: int, b: int)
    ensures
        a * b == product_high(a, b) * WORD12_RADIX + product_low(a, b),
        fits_word12(product_low(a, b)),
{
    lemma_quotient_remainder(a * b, WORD12_RADIX as int);
}

/// The sum of two integers if it lies between `min` and `max`.
fn sum_within(a: i64, b: i64, min: i64, max: i64) -> (r: Result<i64, WordError>)
    requires
        -WORD12_MAX <= min <= a <= max <= WORD12_MAX,
        min <= b <= max,
    ensures
        r == (if min <= a + b <= max {
            Ok::<i64, WordError>((a + b) as i64)
        } else {
            Err(WordError::Overflow)
        }),
{
    let s: i64 = a + b;
    if min <= s && s <= max {
        Ok(s)
    } else {
        Err(WordError::Overflow)
    }
}

/// The difference of two integers if it lies between `min` and `max`.
fn difference_within(a: i64, b: i64, min: i64, max: i64) -> (r: Result<i64, WordError>)
    requires
        -WORD12_MAX <= min <= a <= max <= WORD12_MAX,
        min <= b <= max,
    ensures
        r == (if min <= a - b <= max {
            Ok::<i64, WordError>((a - b) as i64)
        } else {
            Err(WordError::Overflow)
        }),
{
    let s: i64 = a - b;
    if min <= s && s <= max {
        Ok(s)
    } else {
        Err(WordError::Overflow)
    }
}

/// The magnitude of a word-sized integer.
fn magnitude_of(v: i64) -> (m: u64)
    requires
        -WORD12_MAX <= v <= WORD12_MAX,
    ensures
        m == magnitude(v as int),
{
    if v < 0 {
        (-v) as u64
    } else {
        v as u64
    }
}

/// The product of two integers if it lies between `min` and `max`.
fn product_within(a: i64, b: i64, min: i64, max: i64) -> (r: Result<i64, WordError>)
    requires
        -WORD12_MAX <= min <= a <= max <= WORD12_MAX,
        min <= b <= max,
    ensures
        r == (if min <= a * b <= max {
            Ok::<i64, WordError>((a * b) as i64)
        } else {
            Err(WordError::Overflow)
        }),
{
    assert(-1_000_000_000_000_000_000_000_000 < a * b < 1_000_000_000_000_000_000_000_000)
        by (nonlinear_arith)
        requires
            -1_000_000_000_000 < a < 1_000_000_000_000,
            -1_000_000_000_000 < b < 1_000_000_000_000,
    ;
    let p: i128 = (a as i128) * (b as i128);
    if (min as i128) <= p && p <= (max as i128) {
        Ok(p as i64)
    } else {
        Err(WordError::Overflow)
    }
}

/// The truncated quotient and remainder of two word-sized integers.
fn divide_truncating(a: i64, b: i64) -> (r: (i64, i64))
    requires
        -WORD12_MAX <= a <= WORD12_MAX,
        -WORD12_MAX <= b <= WORD12_MAX,
        b != 0,
    ensures
        r.0 == quotient(a as int, b as int),
        r.1 == remainder(a as int, b as int),
        magnitude(r.0 as int) <= magnitude(a as int),
        magnitude(r.1 as int) < magnitude(b as int),
{
    proof {
        lemma_quotient_remainder(a as int, b as int);
    }
    let m: u64 = magnitude_of(a);
    let k: u64 = magnitude_of(b);
    let q: u64 = m / k;
    let t: u64 = m % k;
    let quotient: i64 = if (a < 0) != (b < 0) {
        -(q as i64)
    } else {
        q as i64
    };
    let remainder: i64 = if a < 0 {
        -(t as i64)
    } else {
        t as i64
    };
    (quotient, remainder)
}

/// A twelve-digit signed decimal word, the width of the accumulator and of
/// every memory cell.
#[derive(Clone, Copy, Debug, PartialEq, Eq, Structural)]
pub struct Word12 {
    value: i64,
}

impl View for Word12 {
    type V = int;

    /// The integer that the word holds. Every word that a program can build
    /// holds one within its range; ghost code can name words that no program
    /// could build, and those read as zero, so that the view of every word
    /// is within range.
    closed spec fn view(&self) -> int {
        if self.in_range() {
            self.value as int
        } else {
            0
        }
    }
}

impl Word12 {
    #[verifier::type_invariant]
    spec fn in_range(self) -> bool {
        -WORD12_MAX <= self.value <= WORD12_MAX
    }

    /// No word holds a value outside its range.
    pub proof fn lemma_fits(self)
        ensures
            fits_word12(self@),
    {
    }

    /// The word that holds zero.
    pub fn zero() -> (w: Word12)
        ensures
            w@ == 0,
    {
        Word12 { value: 0 }
    }

    /// The word that holds `n`, if `n` has at most twelve digits.
    pub fn new(n: i64) -> (r: Result<Word12, WordError>)
        ensures
            fits_word12(n as int) ==> r is Ok && r->Ok_0@ == n,
            !fits_word12(n as int) ==> r == Err::<Word12, WordError>(WordError::OutOfRange),
    {
        if -WORD12_MAX <= n && n <= WORD12_MAX {
            Ok(Word12 { value: n })
        } else {
            Err(WordError::OutOfRange)
        }
    }

    /// The integer that the word holds.
    pub fn get(self) -> (n: i64)
        ensures
            n == self@,
            fits_word12(n as int),
    {
        proof {
            use_type_invariant(self);
        }
        self.value
    }

    /// Whether the word holds a value below zero.
    pub fn is_negative(self) -> (b: bool)
        ensures
            b == (self@ < 0),
    {
        proof {
            use_type_invariant(self);
        }
        self.value < 0
    }

    /// `self + rhs`, or `Overflow` where the sum has more than twelve digits.
    pub fn checked_add(self, rhs: Word12) -> (r: Result<Word12, WordError>)
        ensures
            fits_word12(self@ + rhs@) ==> r is Ok && r->Ok_0@ == self@ + rhs@,
            !fits_word12(self@ + rhs@) ==> r == Err::<Word12, WordError>(WordError::Overflow),
    {
        proof {
            use_type_invariant(self);
            use_type_invariant(rhs);
        }
        match sum_within(self.value, rhs.value, -WORD12_MAX, WORD12_MAX) {
            Ok(value) => Ok(Word12 { value }),
            Err(e) => Err(e),
        }
    }

    /// `self - rhs`, or `Overflow` where the difference has more than twelve
    /// digits.
    pub fn checked_sub(self, rhs: Word12) -> (r: Result<Word12, WordError>)
        ensures
            fits_word12(self@ - rhs@) ==> r is Ok && r->Ok_0@ == self@ - rhs@,
            !fits_word12(self@ - rhs@) ==> r == Err::<Word12, WordError>(WordError::Overflow),
    {
        proof {
            use_type_invariant(self);
            use_type_invariant(rhs);
        }
        match difference_within(self.value, rhs.value, -WORD12_MAX, WORD12_MAX) {
            Ok(value) => Ok(Word12 { value }),
            Err(e) => Err(e),
        }
    }

    /// The double-width product `self * rhs` as a pair of registers: its low
    /// twelve digits as a primary word and what is carried out of them as a
    /// secondary word, both with the sign of the product. `Overflow` where
    /// the carry has more than eleven digits.
    pub fn wide_mul(self, rhs: Word12) -> (r: Result<(Word12, Word11), WordError>)
        ensures
            fits_word11(product_high(self@, rhs@)) ==> r is Ok && r->Ok_0.0@ == product_low(
                self@,
                rhs@,
            ) && r->Ok_0.1@ == product_high(self@, rhs@),
            !fits_word11(product_high(self@, rhs@)) ==> r == Err::<(Word12, Word11), WordError>(
                WordError::Overflow,
            ),
    {
        proof {
            use_type_invariant(self);
            use_type_invariant(rhs);
        }
        let m: u64 = magnitude_of(self.value);
        let k: u64 = magnitude_of(rhs.value);
        assert(0 <= m * k < 1_000_000_000_000_000_000_000_000) by (nonlinear_arith)
            requires
                0 <= m < 1_000_000_000_000,
                0 <= k < 1_000_000_000_000,
        ;
        let p: u128 = (m as u128) * (k as u128);
        let high: u128 = p / (WORD12_RADIX as u128);
        let low: u128 = p % (WORD12_RADIX as u128);
        let negative: bool = (self.value < 0) != (rhs.value < 0);
        proof {
            let a = self.value as int;
            let b = rhs.value as int;
            assert(magnitude(a * b) == m * k && (a * b < 0 ==> negative) && (negative ==> a * b
                <= 0)) by (nonlinear_arith)
                requires
                    m == magnitude(a),
                    k == magnitude(b),
                    negative == ((a < 0) != (b < 0)),
            ;
            assert(high == p / 1_000_000_000_000u128 && low == p % 1_000_000_000_000u128);
        }
        if high > WORD11_MAX as u128 {
            return Err(WordError::Overflow);
        }
        let low_value: i64 = if negative {
            -(low as i64)
        } else {
            low as i64
        };
        let high_value: i64 = if negative {
            -(high as i64)
        } else {
            high as i64
        };
        Ok((Word12 { value: low_value }, Word11 { value: high_value }))
    }

    /// `self` divided by `rhs`, as a pair of registers: the quotient rounded
    /// toward zero as a primary word and the remainder, which has the sign of
    /// `self`, as a secondary word. `DivisionByZero` where `rhs` is zero,
    /// `Overflow` where the remainder has more than eleven digits.
    pub fn div_rem(self, rhs: Word12) -> (r: Result<(Word12, Word11), WordError>)
        ensures
            rhs@ == 0 ==> r == Err::<(Word12, Word11), WordError>(WordError::DivisionByZero),
            rhs@ != 0 && !fits_word11(remainder(self@, rhs@)) ==> r == Err::<
                (Word12, Word11),
                WordError,
            >(WordError::Overflow),
            rhs@ != 0 && fits_word11(remainder(self@, rhs@)) ==> r is Ok && r->Ok_0.0@ == quotient(
                self@,
                rhs@,
            ) && r->Ok_0.1@ == remainder(self@, rhs@),
    {
        proof {
            use_type_invariant(self);
            use_type_invariant(rhs);
        }
        if rhs.value == 0 {
            return Err(WordError::DivisionByZero);
        }
        let (q, t) = divide_truncating(self.value, rhs.value);
        if t < -WORD11_MAX || t > WORD11_MAX {
            return Err(WordError::Overflow);
        }
        Ok((Word12 { value: q }, Word11 { value: t }))
    }

    /// The same value as a secondary word, or `Overflow` where it has twelve
    /// digits.
    pub fn narrow(self) -> (r: Result<Word11, WordError>)
        ensures
            fits_word11(self@) ==> r is Ok && r->Ok_0@ == self@,
            !fits_word11(self@) ==> r == Err::<Word11, WordError>(WordError::Overflow),
    {
        proof {
            use_type_invariant(self);
        }
        if -WORD11_MAX <= self.value && self.value <= WORD11_MAX {
            Ok(Word11 { value: self.value })
        } else {
            Err(WordError::Overflow)
        }
    }
}

/// An eleven-digit signed decimal word, the width of the secondary
/// accumulator.
#[derive(Clone, Copy, Debug, PartialEq, Eq, Structural)]
pub struct Word11 {
    value: i64,
}

impl View for Word11 {
    type V = int;

    /// The integer that the word holds. Every word that a program can build
    /// holds one within its range; ghost code can name words that no program
    /// could build, and those read as zero, so that the view of every word
    /// is within range.
    closed spec fn view(&self) -> int {
        if self.in_range() {
            self.value as int
        } else {
            0
        }
    }
}

impl Word11 {
    #[verifier::type_invariant]
    spec fn in_range(self) -> bool {
        -WORD11_MAX <= self.value <= WORD11_MAX
    }

    /// No word holds a value outside its range.
    pub proof fn lemma_fits(self)
        ensures
            fits_word11(self@),
    {
    }

    /// The word that holds zero.
    pub fn zero() -> (w: Word11)
        ensures
            w@ == 0,
    {
        Word11 { value: 0 }
    }

    /// The word that holds `n`, if `n` has at most eleven digits.
    pub fn new(n: i64) -> (r: Result<Word11, WordError>)
        ensures
            fits_word11(n as int) ==> r is Ok && r->Ok_0@ == n,
            !fits_word11(n as int) ==> r == Err::<Word11, WordError>(WordError::OutOfRange),
    {
        if -WORD11_MAX <= n && n <= WORD11_MAX {
            Ok(Word11 { value: n })
        } else {
            Err(WordError::OutOfRange)
        }
    }

    /// The integer that the word holds.
    pub fn get(self) -> (n: i64)
        ensures
            n == self@,
            fits_word11(n as int),
    {
        proof {
            use_type_invariant(self);
        }
        self.value
    }

    /// `self + rhs`, or `Overflow` where the sum has more than eleven digits.
    pub fn checked_add(self, rhs: Word11) -> (r: Result<Word11, WordError>)
        ensures
            fits_word11(self@ + rhs@) ==> r is Ok && r->Ok_0@ == self@ + rhs@,
            !fits_word11(self@ + rhs@) ==> r == Err::<Word11, WordError>(WordError::Overflow),
    {
        proof {
            use_type_invariant(self);
            use_type_invariant(rhs);
        }
        match sum_within(self.value, rhs.value, -WORD11_MAX, WORD11_MAX) {
            Ok(value) => Ok(Word11 { value }),
            Err(e) => Err(e),
        }
    }

    /// `self - rhs`, or `Overflow` where the difference has more than eleven
    /// digits.
    pub fn checked_sub(self, rhs: Word11) -> (r: Result<Word11, WordError>)
        ensures
            fits_word11(self@ - rhs@) ==> r is Ok && r->Ok_0@ == self@ - rhs@,
            !fits_word11(self@ - rhs@) ==> r == Err::<Word11, WordError>(WordError::Overflow),
    {
        proof {
            use_type_invariant(self);
            use_type_invariant(rhs);
        }
        match difference_within(self.value, rhs.value, -WORD11_MAX, WORD11_MAX) {
            Ok(value) => Ok(Word11 { value }),
            Err(e) => Err(e),
        }
    }

    /// `self * rhs`, or `Overflow` where the product has more than eleven
    /// digits.
    pub fn checked_mul(self, rhs: Word11) -> (r: Result<Word11, WordError>)
        ensures
            fits_word11(self@ * rhs@) ==> r is Ok && r->Ok_0@ == self@ * rhs@,
            !fits_word11(self@ * rhs@) ==> r == Err::<Word11, WordError>(WordError::Overflow),
    {
        proof {
            use_type_invariant(self);
            use_type_invariant(rhs);
        }
        match product_within(self.value, rhs.value, -WORD11_MAX, WORD11_MAX) {
            Ok(value) => Ok(Word11 { value }),
            Err(e) => Err(e),
        }
    }

    /// `self` divided by `rhs` and rounded toward zero, or `DivisionByZero`
    /// where `rhs` is zero.
    pub fn checked_div(self, rhs: Word11) -> (r: Result<Word11, WordError>)
        ensures
            rhs@ == 0 ==> r == Err::<Word11, WordError>(WordError::DivisionByZero),
            rhs@ != 0 ==> r is Ok && r->Ok_0@ == quotient(self@, rhs@),
    {
        proof {
            use_type_invariant(self);
            use_type_invariant(rhs);
        }
        if rhs.value == 0 {
            return Err(WordError::DivisionByZero);
        }
        let (q, _t) = divide_truncating(self.value, rhs.value);
        Ok(Word11 { value: q })
    }
}

/// A sense-switch word: one of the sixteen values a bank of four switches
/// can show.
#[derive(Clone, Copy, Debug, PartialEq, Eq, Structural)]
pub struct Switch16 {
    value: u8,
}

impl View for Switch16 {
    type V = int;

    /// The integer that the word holds. Every word that a program can build
    /// holds one within its range; ghost code can name words that no program
    /// could build, and those read as zero, so that the view of every word
    /// is within range.
    closed spec fn view(&self) -> int {
        if self.in_range() {
            self.value as int
        } else {
            0
        }
    }
}

impl Switch16 {
    #[verifier::type_invariant]
    spec fn in_range(self) -> bool {
        self.value <= SWITCH16_MAX
    }

    /// No word holds a value outside its range.
    pub proof fn lemma_fits(self)
        ensures
            fits_switch16(self@),
    {
    }

    /// The word that holds zero.
    pub fn zero() -> (w: Switch16)
        ensures
            w@ == 0,
    {
        Switch16 { value: 0 }
    }

    /// The word that holds `n`, if `n` is at most fifteen.
    pub fn new(n: u8) -> (r: Result<Switch16, WordError>)
        ensures
            fits_switch16(n as int) ==> r is Ok && r->Ok_0@ == n,
            !fits_switch16(n as int) ==> r == Err::<Switch16, WordError>(WordError::OutOfRange),
    {
        if n <= SWITCH16_MAX {
            Ok(Switch16 { value: n })
        } else {
            Err(WordError::OutOfRange)
        }
    }

    /// The integer that the word holds.
    pub fn get(self) -> (n: u8)
        ensures
            n == self@,
            fits_switch16(n as int),
    {
        proof {
            use_type_invariant(self);
        }
        self.value
    }

    /// `self + rhs`, or `Overflow` where the sum is above fifteen.
    pub fn checked_add(self, rhs: Switch16) -> (r: Result<Switch16, WordError>)
        ensures
            fits_switch16(self@ + rhs@) ==> r is Ok && r->Ok_0@ == self@ + rhs@,
            !fits_switch16(self@ + rhs@) ==> r == Err::<Switch16, WordError>(WordError::Overflow),
    {
        proof {
            use_type_invariant(self);
            use_type_invariant(rhs);
        }
        match sum_within(self.value as i64, rhs.value as i64, 0, SWITCH16_MAX as i64) {
            Ok(value) => Ok(Switch16 { value: value as u8 }),
            Err(e) => Err(e),
        }
    }

    /// `self - rhs`, or `Overflow` where the difference is below zero.
    pub fn checked_sub(self, rhs: Switch16) -> (r: Result<Switch16, WordError>)
        ensures
            fits_switch16(self@ - rhs@) ==> r is Ok && r->Ok_0@ == self@ - rhs@,
            !fits_switch16(self@ - rhs@) ==> r == Err::<Switch16, WordError>(WordError::Overflow),
    {
        proof {
            use_type_invariant(self);
            use_type_invariant(rhs);
        }
        match difference_within(self.value as i64, rhs.value as i64, 0, SWITCH16_MAX as i64) {
            Ok(value) => Ok(Switch16 { value: value as u8 }),
            Err(e) => Err(e),
        }
    }

    /// `self * rhs`, or `Overflow` where the product is above fifteen.
    pub fn checked_mul(self, rhs: Switch16) -> (r: Result<Switch16, WordError>)
        ensures
            fits_switch16(self@ * rhs@) ==> r is Ok && r->Ok_0@ == self@ * rhs@,
            !fits_switch16(self@ * rhs@) ==> r == Err::<Switch16, WordError>(WordError::Overflow),
    {
        proof {
            use_type_invariant(self);
            use_type_invariant(rhs);
        }
        match product_within(self.value as i64, rhs.value as i64, 0, SWITCH16_MAX as i64) {
            Ok(value) => Ok(Switch16 { value: value as u8 }),
            Err(e) => Err(e),
        }
    }

    /// `self` divided by `rhs` and rounded down, or `DivisionByZero` where
    /// `rhs` is zero.
    pub fn checked_div(self, rhs: Switch16) -> (r: Result<Switch16, WordError>)
        ensures
            rhs@ == 0 ==> r == Err::<Switch16, WordError>(WordError::DivisionByZero),
            rhs@ != 0 ==> r is Ok && r->Ok_0@ == quotient(self@, rhs@),
    {
        proof {
            use_type_invariant(self);
            use_type_invariant(rhs);
        }
        if rhs.value == 0 {
            return Err(WordError::DivisionByZero);
        }
        Ok(Switch16 { value: self.value / rhs.value })
    }
}

} // verus!
