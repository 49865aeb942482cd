//! The calculator: one operator, two operands, one result.
use vstd::prelude::*;
use crate::text::{to_chars, trim, trim_chars};

verus! {

/// The four operations the calculator understands.
#[derive(Debug, Clone, Copy, PartialEq, Eq, Structural)]
pub enum Operations {
    Add,
    Subtract,
    Multiply,
    Divide,
}

/// Quotient of `x` by `d`, rounded toward zero (as Rust's `/` on integers).
pub open spec fn trunc_div(x: int, d: int) -> int
    recommends
        d != 0,
{
    if (x >= 0) == (d > 0) {
        if x >= 0 { x / d } else { (-x) / (-d) }
    } else if x >= 0 {
        -(x / (-d))
    } else {
        -((-x) / d)
    }
}

/// The exact mathematical result of applying `op` to `a` and `b`.
pub open spec fn result_of(op: Operations, a: int, b: int) -> int {
    match op {
        Operations::Add => a + b,
        Operations::Subtract => a - b,
        Operations::Multiply => a * b,
        Operations::Divide => trunc_div(a, b),
    }
}

/// Whether `v` can be held in an `i32`.
pub open spec fn fits_i32(v: int) -> bool {
    i32::MIN <= v <= i32::MAX
}

/// Sum of `num1` and `num2`; the exact result must fit in an `i32`.
pub fn add(num1: i32, num2: i32) -> (r: i32)
    requires
        fits_i32(num1 + num2),
    ensures
        r == num1 + num2,
{
    num1 + num2
}

/// Difference of `num1` and `num2`; the exact result must fit in an `i32`.
pub fn subtract(num1: i32, num2: i32) -> (r: i32)
    requires
        fits_i32(num1 - num2),
    ensures
        r == num1 - num2,
{
    num1 - num2
}

/// Product of `num1` and `num2`; the exact result must fit in an `i32`.
pub fn multiply(num1: i32, num2: i32) -> (r: i32)
    requires
        fits_i32(num1 * num2),
    ensures
        r == num1 * num2,
{
    num1 * num2
}

/// Quotient of `num1` by `num2`, rounded toward zero; the divisor is non-zero
/// and the quotient fits in an `i32`.
pub fn divide(num1: i32, num2: i32) -> (r: i32)
    requires
        num2 != 0,
        fits_i32(trunc_div(num1 as int, num2 as int)),
    ensures
        r == trunc_div(num1 as int, num2 as int),
{
    // The precondition rules out the `None` case: a zero divisor or a quotient out of range.
    match num1.checked_div(num2) {
        Some(q) => q,
        None => 0,
    }
}

/// Why a calculation gave no result.
#[derive(Debug, Clone, Copy, PartialEq, Eq, Structural)]
pub enum CalcError {
    /// An operand is not a decimal integer that fits in an `i32`.
    InvalidNumber,
    /// The operator is none of `+`, `-`, `*`, `/`.
    InvalidOperation,
    /// The second operand of a division is zero.
    DivisionByZero,
    /// The exact result does not fit in an `i32`.
    Overflow,
}

/// An ASCII decimal digit.
pub open spec fn is_digit(c: char) -> bool {
    '0' <= c <= '9'
}

/// A non-empty run of decimal digits.
pub open spec fn all_digits(d: Seq<char>) -> bool {
    d.len() > 0 && forall|i: int| 0 <= i < d.len() ==> is_digit(#[trigger] d[i])
}

/// The value of the decimal digits `d`, most significant first.
pub open spec fn digits_value(d: Seq<char>) -> int
    decreases d.len(),
{
    if d.len() == 0 {
        0
    } else {
        digits_value(d.drop_last()) * 10 + (d.last() as int - '0' as int)
    }
}

/// The integer written by `s`: an optional sign, then one or more decimal digits.
pub open spec fn integer_value(s: Seq<char>) -> Option<int> {
    if s.len() > 0 && (s[0] == '+' || s[0] == '-') {
        if all_digits(s.drop_first()) {
            if s[0] == '-' {
                Some(-digits_value(s.drop_first()))
            } else {
                Some(digits_value(s.drop_first()))
            }
        } else {
            None
        }
    } else if all_digits(s) {
        Some(digits_value(s))
    } else {
        None
    }
}

/// The operand that a line of input gives: the integer it writes, between
/// whitespace, when that fits in an `i32`.
pub open spec fn operand_of(line: Seq<char>) -> Option<i32> {
    match integer_value(trim(line)) {
        Some(v) => if fits_i32(v) {
            Some(v as i32)
        } else {
            None
        },
        None => None,
    }
}

/// The operation written by exactly `s`.
pub open spec fn operation_of(s: Seq<char>) -> Option<Operations> {
    if s == seq!['+'] {
        Some(Operations::Add)
    } else if s == seq!['-'] {
        Some(Operations::Subtract)
    } else if s == seq!['*'] {
        Some(Operations::Multiply)
    } else if s == seq!['/'] {
        Some(Operations::Divide)
    } else {
        None
    }
}

proof fn lemma_digits_value_prefix(d: Seq<char>, m: int)
    requires
        forall|i: int| 0 <= i < d.len() ==> is_digit(#[trigger] d[i]),
        0 <= m <= d.len(),
    ensures
        0 <= digits_value(d.take(m)) <= digits_value(d),
    decreases d.len(),
{
    if d.len() > 0 {
        let p = d.drop_last();
        if m == d.len() {
            assert(d.take(m) =~= d);
            lemma_digits_value_prefix(p, p.len() as int);
            assert(p.take(p.len() as int) =~= p);
        } else {
            assert(d.take(m) =~= p.take(m));
            lemma_digits_value_prefix(p, m);
            assert(is_digit(d[d.len() - 1]));
        }
    }
}

/// Reads an operand: surrounding whitespace, an optional sign, decimal digits.
pub fn parse_number(line: &str) -> (r: Option<i32>)
    ensures
        r == operand_of(line@),
{
    let chars = to_chars(line);
    let t = trim_chars(&chars);
    let n = t.len();
    let mut start: usize = 0;
    let mut negative = false;
    if n > 0 && (t[0] == '+' || t[0] == '-') {
        negative = t[0] == '-';
        start = 1;
    }
    let ghost d = t@.subrange(start as int, n as int);
    proof {
        if start == 1 {
            assert(d =~= t@.drop_first());
        } else {
            assert(d =~= t@);
        }
    }
    assert(integer_value(t@) == if all_digits(d) {
        Some(
            if negative {
                -digits_value(d)
            } else {
                digits_value(d)
            },
        )
    } else {
        None::<int>
    });
    if start == n {
        return None;
    }
    let mut acc: i64 = 0;
    let mut k: usize = start;
    while k < n
        invariant
            start <= k <= n == t.len(),
            d == t@.subrange(start as int, n as int),
            t@ == trim(line@),
            integer_value(t@) == if all_digits(d) {
                Some(
                    if negative {
                        -digits_value(d)
                    } else {
                        digits_value(d)
                    },
                )
            } else {
                None::<int>
            },
            0 <= acc <= 2147483648,
            acc == digits_value(d.take(k - start)),
            forall|j: int| 0 <= j < k - start ==> is_digit(#[trigger] d[j]),
        decreases n - k,
    {
        let c = t[k];
        if !('0' <= c && c <= '9') {
            assert(!is_digit(d[k - start]));
            return None;
        }
        assert(d.take(k - start + 1).drop_last() =~= d.take(k - start));
        let next: i64 = acc * 10 + (c as u32 - '0' as u32) as i64;
        assert(next == digits_value(d.take(k - start + 1)));
        if next > 2147483648 {
            proof {
                if all_digits(d) {
                    lemma_digits_value_prefix(d, k - start + 1);
                }
            }
            return None;
        }
        acc = next;
        k = k + 1;
    }
    assert(d.take(n - start) =~= d);
    let v: i64 = if negative {
        -acc
    } else {
        acc
    };
    if v > 2147483647 {
        None
    } else {
        Some(v as i32)
    }
}

/// The operation written by exactly the characters `s`.
fn operation_from_chars(s: &Vec<char>) -> (r: Option<Operations>)
    ensures
        r == operation_of(s@),
{
    if s.len() != 1 {
        return None;
    }
    let c = s[0];
    if c == '+' {
        assert(s@ =~= seq!['+']);
        Some(Operations::Add)
    } else if c == '-' {
        assert(s@ =~= seq!['-']);
        Some(Operations::Subtract)
    } else if c == '*' {
        assert(s@ =~= seq!['*']);
        Some(Operations::Multiply)
    } else if c == '/' {
        assert(s@ =~= seq!['/']);
        Some(Operations::Divide)
    } else {
        None
    }
}

impl Operations {
    /// The operation written by exactly `op`: one of `+`, `-`, `*`, `/`.
    pub fn from_str(op: &str) -> (r: Option<Operations>)
        ensures
            r == operation_of(op@),
    {
        operation_from_chars(&to_chars(op))
    }
}

/// What the calculator waits for next.
#[derive(Debug, Clone, Copy, PartialEq, Eq, Structural)]
pub enum CalcState {
    /// The first operand.
    First,
    /// The operator, after the first operand.
    Operator(i32),
    /// The second operand, after the first operand and the operator.
    Second(i32, Operations),
}

/// Where one line of input takes the calculator.
#[derive(Debug, Clone, Copy, PartialEq, Eq)]
pub enum CalcStep {
    /// Read another line, in this state.
    Next(CalcState),
    /// The session is over, with this result or error.
    Done(Result<i32, CalcError>),
}

/// The outcome of applying `op` to `a` and `b` in `i32` arithmetic.
pub open spec fn evaluation(op: Operations, a: i32, b: i32) -> Result<i32, CalcError> {
    if op == Operations::Divide && b == 0 {
        Err(CalcError::DivisionByZero)
    } else if fits_i32(result_of(op, a as int, b as int)) {
        Ok(result_of(op, a as int, b as int) as i32)
    } else {
        Err(CalcError::Overflow)
    }
}

/// The step that the line `line` makes from `state`.
pub open spec fn next_step(state: CalcState, line: Seq<char>) -> CalcStep {
    match state {
        CalcState::First => match operand_of(line) {
            Some(a) => CalcStep::Next(CalcState::Operator(a)),
            None => CalcStep::Done(Err(CalcError::InvalidNumber)),
        },
        CalcState::Operator(a) => match operation_of(trim(line)) {
            Some(op) => CalcStep::Next(CalcState::Second(a, op)),
            None => CalcStep::Done(Err(CalcError::InvalidOperation)),
        },
        CalcState::Second(a, op) => match operand_of(line) {
            Some(b) => CalcStep::Done(evaluation(op, a, b)),
            None => CalcStep::Done(Err(CalcError::InvalidNumber)),
        },
    }
}

/// The outcome of a whole session on the lines `first`, `operation`, `second`,
/// read in that order; the first invalid line ends it.
pub open spec fn session_outcome(first: Seq<char>, operation: Seq<char>, second: Seq<char>) -> Result<
    i32,
    CalcError,
> {
    match operand_of(first) {
        None => Err(CalcError::InvalidNumber),
        Some(a) => match operation_of(trim(operation)) {
            None => Err(CalcError::InvalidOperation),
            Some(op) => match operand_of(second) {
                None => Err(CalcError::InvalidNumber),
                Some(b) => evaluation(op, a, b),
            },
        },
    }
}

/// Applies `op` to `a` and `b`; a zero divisor and a result out of `i32`'s range are errors.
pub fn evaluate(op: Operations, a: i32, b: i32) -> (r: Result<i32, CalcError>)
    ensures
        r == evaluation(op, a, b),
{
    match op {
        Operations::Add => match a.checked_add(b) {
            Some(_) => Ok(crate::calculator::add(a, b)),
            None => Err(CalcError::Overflow),
        },
        Operations::Subtract => match a.checked_sub(b) {
            Some(_) => Ok(subtract(a, b)),
            None => Err(CalcError::Overflow),
        },
        Operations::Multiply => match a.checked_mul(b) {
            Some(_) => Ok(multiply(a, b)),
            None => Err(CalcError::Overflow),
        },
        Operations::Divide => {
            if b == 0 {
                Err(CalcError::DivisionByZero)
            } else {
                match a.checked_div(b) {
                    Some(_) => Ok(divide(a, b)),
                    None => Err(CalcError::Overflow),
                }
            }
        },
    }
}

/// Takes one line of input in state `state`.
pub fn feed(state: CalcState, line: &str) -> (r: CalcStep)
    ensures
        r == next_step(state, line@),
{
    match state {
        CalcState::First => match parse_number(line) {
            Some(a) => CalcStep::Next(CalcState::Operator(a)),
            None => CalcStep::Done(Err(CalcError::InvalidNumber)),
        },
        CalcState::Operator(a) => {
            let chars = to_chars(line);
            match operation_from_chars(&trim_chars(&chars)) {
                Some(op) => CalcStep::Next(CalcState::Second(a, op)),
                None => CalcStep::Done(Err(CalcError::InvalidOperation)),
            }
        },
        CalcState::Second(a, op) => match parse_number(line) {
            Some(b) => CalcStep::Done(evaluate(op, a, b)),
            None => CalcStep::Done(Err(CalcError::InvalidNumber)),
        },
    }
}

/// Runs a whole session on the three lines `first`, `operation` and `second`.
pub fn calculate(first: &str, operation: &str, second: &str) -> (r: Result<i32, CalcError>)
    ensures
        r == session_outcome(first@, operation@, second@),
{
    match feed(CalcState::First, first) {
        CalcStep::Done(r) => r,
        CalcStep::Next(s1) => match feed(s1, operation) {
            CalcStep::Done(r) => r,
            CalcStep::Next(s2) => match feed(s2, second) {
                CalcStep::Done(r) => r,
                CalcStep::Next(_) => Err(CalcError::InvalidNumber),
            },
        },
    }
}

} // verus!
