use vstd::prelude::*;
use vstd::wrapping::{i128_specs, i64_specs, u128_specs, u64_specs};
use crate::environment::generic_numbers::{spec_lower_chunk, double_to_chunks};
use crate::environment::stack::Stack;
use crate::environment::value::{Value, ValueVariant};
use crate::evaluate::execution::Field;
use crate::evaluate::{Error, ForthResult, ForthState};
use crate::operations::stack_operations::{below, group};
use crate::operations::{ArithmeticOperation, Glue, Operation};

verus! {

/// A number in one of the four domains that arithmetic is done in.
#[derive(Clone, Copy, PartialEq, Eq, Structural, Debug)]
pub enum Num {
    Signed(i64),
    SignedDouble(i128),
    Unsigned(u64),
    UnsignedDouble(u128),
}

/// The glue that passes popped numbers through unchanged: the glue of a plain number type.
pub type PassThroughGlue = Glue;

/// How many cells an operand of `glue` takes on the stack.
pub open spec fn operand_size(glue: Glue) -> nat {
    match glue {
        Glue::DoubleNumber | Glue::UnsignedDoubleNumber => 2,
        _ => 1,
    }
}

/// The operand that `cells` (deepest first) stand for under `glue`.
pub open spec fn operand_of(glue: Glue, cells: Seq<Value>) -> Num {
    match glue {
        Glue::Number => Num::Signed(cells[0].spec_to_number()),
        Glue::DoubleNumber => Num::SignedDouble(
            i128::spec_from_stack(cells).unwrap(),
        ),
        Glue::UnsignedNumber => Num::Unsigned(cells[0].spec_to_number() as u64),
        Glue::UnsignedDoubleNumber => Num::UnsignedDouble(u128::spec_from_stack(cells).unwrap()),
        Glue::SingleToDouble => Num::SignedDouble(cells[0].spec_to_number() as i128),
        Glue::UnsignedSingleToDouble => Num::UnsignedDouble(cells[0].spec_to_number() as u64 as u128),
    }
}

/// The cells a result leaves on the stack.
pub open spec fn result_cells(n: Num) -> Seq<Value> {
    match n {
        Num::Signed(x) => x.spec_stack_cells(),
        Num::SignedDouble(x) => x.spec_stack_cells(),
        Num::Unsigned(x) => x.spec_stack_cells(),
        Num::UnsignedDouble(x) => x.spec_stack_cells(),
    }
}

/// The number of operands an operation takes.
pub open spec fn arity(op: ArithmeticOperation) -> nat {
    match op {
        ArithmeticOperation::Negate | ArithmeticOperation::Abs | ArithmeticOperation::EqualsZero
        | ArithmeticOperation::LessThanZero | ArithmeticOperation::GreaterThanZero
        | ArithmeticOperation::LeftShift | ArithmeticOperation::RightShift => 1,
        ArithmeticOperation::MultiplyDivide => 3,
        _ => 2,
    }
}

pub open spec fn flag64(b: bool) -> i64 {
    if b {
        1
    } else {
        0
    }
}

/// Signed 64-bit arithmetic; `a` is the top operand, `b` the second, `c` the third.
pub open spec fn spec_signed(op: ArithmeticOperation, a: i64, b: i64, c: i64) -> Result<i64, Error> {
    match op {
        ArithmeticOperation::Add => Ok(i64_specs::wrapping_add(b, a)),
        ArithmeticOperation::Sub => Ok(i64_specs::wrapping_sub(b, a)),
        ArithmeticOperation::Multiply => Ok(i64_specs::wrapping_mul(a, b)),
        ArithmeticOperation::Divide => if a == 0 {
            Err(Error::DivisionByZero)
        } else {
            Ok(
                match b.checked_div(a) {
                    Some(q) => q,
                    None => b,
                },
            )
        },
        ArithmeticOperation::Modulo => if a == 0 {
            Err(Error::DivisionByZero)
        } else {
            Ok(
                match b.checked_rem(a) {
                    Some(m) => m,
                    None => 0,
                },
            )
        },
        ArithmeticOperation::Min => Ok(if a <= b { a } else { b }),
        ArithmeticOperation::Max => Ok(if a >= b { a } else { b }),
        ArithmeticOperation::Negate => Ok(i64_specs::wrapping_sub(0, a)),
        ArithmeticOperation::Abs => Ok(if a < 0 { i64_specs::wrapping_sub(0, a) } else { a }),
        ArithmeticOperation::MultiplyDivide => if a == 0 {
            Err(Error::DivisionByZero)
        } else {
            Ok(
                match i64_specs::wrapping_mul(c, b).checked_div(a) {
                    Some(q) => q,
                    None => i64_specs::wrapping_mul(c, b),
                },
            )
        },
        ArithmeticOperation::Equals => Ok(flag64(b == a)),
        ArithmeticOperation::NotEquals => Ok(flag64(b != a)),
        ArithmeticOperation::LessThan => Ok(flag64(b < a)),
        ArithmeticOperation::GreaterThan => Ok(flag64(b > a)),
        ArithmeticOperation::LessThanOrEqual => Ok(flag64(b <= a)),
        ArithmeticOperation::GreaterThanOrEquals => Ok(flag64(b >= a)),
        ArithmeticOperation::EqualsZero => Ok(flag64(a == 0)),
        ArithmeticOperation::LessThanZero => Ok(flag64(a < 0)),
        ArithmeticOperation::GreaterThanZero => Ok(flag64(a > 0)),
        ArithmeticOperation::BitwiseAnd => Ok(b & a),
        ArithmeticOperation::BitwiseOr => Ok(b | a),
        ArithmeticOperation::LeftShift => Ok(i64_specs::wrapping_mul(a, 2)),
        ArithmeticOperation::RightShift => Ok(a >> 1u32),
    }
}

/// Signed 128-bit arithmetic, as `spec_signed`.
pub open spec fn spec_signed_double(op: ArithmeticOperation, a: i128, b: i128, c: i128) -> Result<i128, Error> {
    match op {
        ArithmeticOperation::Add => Ok(i128_specs::wrapping_add(b, a)),
        ArithmeticOperation::Sub => Ok(i128_specs::wrapping_sub(b, a)),
        ArithmeticOperation::Multiply => Ok(i128_specs::wrapping_mul(a, b)),
        ArithmeticOperation::Divide => if a == 0 {
            Err(Error::DivisionByZero)
        } else {
            Ok(
                match b.checked_div(a) {
                    Some(q) => q,
                    None => b,
                },
            )
        },
        ArithmeticOperation::Modulo => if a == 0 {
            Err(Error::DivisionByZero)
        } else {
            Ok(
                match b.checked_rem(a) {
                    Some(m) => m,
                    None => 0,
                },
            )
        },
        ArithmeticOperation::Min => Ok(if a <= b { a } else { b }),
        ArithmeticOperation::Max => Ok(if a >= b { a } else { b }),
        ArithmeticOperation::Negate => Ok(i128_specs::wrapping_sub(0, a)),
        ArithmeticOperation::Abs => Ok(if a < 0 { i128_specs::wrapping_sub(0, a) } else { a }),
        ArithmeticOperation::MultiplyDivide => if a == 0 {
            Err(Error::DivisionByZero)
        } else {
            Ok(
                match i128_specs::wrapping_mul(c, b).checked_div(a) {
                    Some(q) => q,
                    None => i128_specs::wrapping_mul(c, b),
                },
            )
        },
        ArithmeticOperation::Equals => Ok(if b == a { 1 } else { 0 }),
        ArithmeticOperation::NotEquals => Ok(if b != a { 1 } else { 0 }),
        ArithmeticOperation::LessThan => Ok(if b < a { 1 } else { 0 }),
        ArithmeticOperation::GreaterThan => Ok(if b > a { 1 } else { 0 }),
        ArithmeticOperation::LessThanOrEqual => Ok(if b <= a { 1 } else { 0 }),
        ArithmeticOperation::GreaterThanOrEquals => Ok(if b >= a { 1 } else { 0 }),
        ArithmeticOperation::EqualsZero => Ok(if a == 0 { 1 } else { 0 }),
        ArithmeticOperation::LessThanZero => Ok(if a < 0 { 1 } else { 0 }),
        ArithmeticOperation::GreaterThanZero => Ok(if a > 0 { 1 } else { 0 }),
        ArithmeticOperation::BitwiseAnd => Ok(b & a),
        ArithmeticOperation::BitwiseOr => Ok(b | a),
        ArithmeticOperation::LeftShift => Ok(i128_specs::wrapping_mul(a, 2)),
        ArithmeticOperation::RightShift => Ok(a >> 1u32),
    }
}

/// Unsigned 64-bit arithmetic, as `spec_signed`.
pub open spec fn spec_unsigned(op: ArithmeticOperation, a: u64, b: u64, c: u64) -> Result<u64, Error> {
    match op {
        ArithmeticOperation::Add => Ok(u64_specs::wrapping_add(b, a)),
        ArithmeticOperation::Sub => Ok(u64_specs::wrapping_sub(b, a)),
        ArithmeticOperation::Multiply => Ok(u64_specs::wrapping_mul(a, b)),
        ArithmeticOperation::Divide => if a == 0 {
            Err(Error::DivisionByZero)
        } else {
            Ok(b / a)
        },
        ArithmeticOperation::Modulo => if a == 0 {
            Err(Error::DivisionByZero)
        } else {
            Ok(b % a)
        },
        ArithmeticOperation::Min => Ok(if a <= b { a } else { b }),
        ArithmeticOperation::Max => Ok(if a >= b { a } else { b }),
        ArithmeticOperation::Negate => Ok(u64_specs::wrapping_sub(0, a)),
        ArithmeticOperation::Abs => Ok(a),
        ArithmeticOperation::MultiplyDivide => if a == 0 {
            Err(Error::DivisionByZero)
        } else {
            Ok(u64_specs::wrapping_mul(c, b) / a)
        },
        ArithmeticOperation::Equals => Ok(if b == a { 1 } else { 0 }),
        ArithmeticOperation::NotEquals => Ok(if b != a { 1 } else { 0 }),
        ArithmeticOperation::LessThan => Ok(if b < a { 1 } else { 0 }),
        ArithmeticOperation::GreaterThan => Ok(if b > a { 1 } else { 0 }),
        ArithmeticOperation::LessThanOrEqual => Ok(if b <= a { 1 } else { 0 }),
        ArithmeticOperation::GreaterThanOrEquals => Ok(if b >= a { 1 } else { 0 }),
        ArithmeticOperation::EqualsZero => Ok(if a == 0 { 1 } else { 0 }),
        ArithmeticOperation::LessThanZero => Ok(0),
        ArithmeticOperation::GreaterThanZero => Ok(if a > 0 { 1 } else { 0 }),
        ArithmeticOperation::BitwiseAnd => Ok(b & a),
        ArithmeticOperation::BitwiseOr => Ok(b | a),
        ArithmeticOperation::LeftShift => Ok(u64_specs::wrapping_mul(a, 2)),
        ArithmeticOperation::RightShift => Ok(a / 2),
    }
}

/// Unsigned 128-bit arithmetic, as `spec_signed`.
pub open spec fn spec_unsigned_double(op: ArithmeticOperation, a: u128, b: u128, c: u128) -> Result<u128, Error> {
    match op {
        ArithmeticOperation::Add => Ok(u128_specs::wrapping_add(b, a)),
        ArithmeticOperation::Sub => Ok(u128_specs::wrapping_sub(b, a)),
        ArithmeticOperation::Multiply => Ok(u128_specs::wrapping_mul(a, b)),
        ArithmeticOperation::Divide => if a == 0 {
            Err(Error::DivisionByZero)
        } else {
            Ok(b / a)
        },
        ArithmeticOperation::Modulo => if a == 0 {
            Err(Error::DivisionByZero)
        } else {
            Ok(b % a)
        },
        ArithmeticOperation::Min => Ok(if a <= b { a } else { b }),
        ArithmeticOperation::Max => Ok(if a >= b { a } else { b }),
        ArithmeticOperation::Negate => Ok(u128_specs::wrapping_sub(0, a)),
        ArithmeticOperation::Abs => Ok(a),
        ArithmeticOperation::MultiplyDivide => if a == 0 {
            Err(Error::DivisionByZero)
        } else {
            Ok(u128_specs::wrapping_mul(c, b) / a)
        },
        ArithmeticOperation::Equals => Ok(if b == a { 1 } else { 0 }),
        ArithmeticOperation::NotEquals => Ok(if b != a { 1 } else { 0 }),
        ArithmeticOperation::LessThan => Ok(if b < a { 1 } else { 0 }),
        ArithmeticOperation::GreaterThan => Ok(if b > a { 1 } else { 0 }),
        ArithmeticOperation::LessThanOrEqual => Ok(if b <= a { 1 } else { 0 }),
        ArithmeticOperation::GreaterThanOrEquals => Ok(if b >= a { 1 } else { 0 }),
        ArithmeticOperation::EqualsZero => Ok(if a == 0 { 1 } else { 0 }),
        ArithmeticOperation::LessThanZero => Ok(0),
        ArithmeticOperation::GreaterThanZero => Ok(if a > 0 { 1 } else { 0 }),
        ArithmeticOperation::BitwiseAnd => Ok(b & a),
        ArithmeticOperation::BitwiseOr => Ok(b | a),
        ArithmeticOperation::LeftShift => Ok(u128_specs::wrapping_mul(a, 2)),
        ArithmeticOperation::RightShift => Ok(a / 2),
    }
}

/// The result of `op` on operands of one domain; `MultiplyDivide` narrows its double
/// result to one cell.
pub open spec fn spec_compute(op: ArithmeticOperation, a: Num, b: Num, c: Num) -> Result<Num, Error> {
    match (a, b, c) {
        (Num::Signed(a), Num::Signed(b), Num::Signed(c)) => match spec_signed(op, a, b, c) {
            Ok(x) => Ok(Num::Signed(x)),
            Err(e) => Err(e),
        },
        (Num::SignedDouble(a), Num::SignedDouble(b), Num::SignedDouble(c)) => match spec_signed_double(op, a, b, c) {
            Ok(x) => if op == ArithmeticOperation::MultiplyDivide {
                Ok(Num::Signed(spec_lower_chunk(x)))
            } else {
                Ok(Num::SignedDouble(x))
            },
            Err(e) => Err(e),
        },
        (Num::Unsigned(a), Num::Unsigned(b), Num::Unsigned(c)) => match spec_unsigned(op, a, b, c) {
            Ok(x) => Ok(Num::Unsigned(x)),
            Err(e) => Err(e),
        },
        (Num::UnsignedDouble(a), Num::UnsignedDouble(b), Num::UnsignedDouble(c)) => match spec_unsigned_double(
            op,
            a,
            b,
            c,
        ) {
            Ok(x) => if op == ArithmeticOperation::MultiplyDivide {
                Ok(Num::Unsigned(x as u64))
            } else {
                Ok(Num::UnsignedDouble(x))
            },
            Err(e) => Err(e),
        },
        _ => Err(Error::InvalidNumber),
    }
}

fn compute_signed(op: ArithmeticOperation, a: i64, b: i64, c: i64) -> (r: Result<i64, Error>)
    ensures r == spec_signed(op, a, b, c),
{
    match op {
        ArithmeticOperation::Add => Ok(b.wrapping_add(a)),
        ArithmeticOperation::Sub => Ok(b.wrapping_sub(a)),
        ArithmeticOperation::Multiply => Ok(a.wrapping_mul(b)),
        ArithmeticOperation::Divide => if a == 0 {
            Err(Error::DivisionByZero)
        } else {
            Ok(
                match b.checked_div(a) {
                    Some(q) => q,
                    None => b,
                },
            )
        },
        ArithmeticOperation::Modulo => if a == 0 {
            Err(Error::DivisionByZero)
        } else {
            Ok(
                match b.checked_rem(a) {
                    Some(m) => m,
                    None => 0,
                },
            )
        },
        ArithmeticOperation::Min => Ok(if a <= b { a } else { b }),
        ArithmeticOperation::Max => Ok(if a >= b { a } else { b }),
        ArithmeticOperation::Negate => Ok(0i64.wrapping_sub(a)),
        ArithmeticOperation::Abs => Ok(if a < 0 { 0i64.wrapping_sub(a) } else { a }),
        ArithmeticOperation::MultiplyDivide => if a == 0 {
            Err(Error::DivisionByZero)
        } else {
            let p = c.wrapping_mul(b);
            Ok(
                match p.checked_div(a) {
                    Some(q) => q,
                    None => p,
                },
            )
        },
        ArithmeticOperation::Equals => Ok(if b == a { 1 } else { 0 }),
        ArithmeticOperation::NotEquals => Ok(if b != a { 1 } else { 0 }),
        ArithmeticOperation::LessThan => Ok(if b < a { 1 } else { 0 }),
        ArithmeticOperation::GreaterThan => Ok(if b > a { 1 } else { 0 }),
        ArithmeticOperation::LessThanOrEqual => Ok(if b <= a { 1 } else { 0 }),
        ArithmeticOperation::GreaterThanOrEquals => Ok(if b >= a { 1 } else { 0 }),
        ArithmeticOperation::EqualsZero => Ok(if a == 0 { 1 } else { 0 }),
        ArithmeticOperation::LessThanZero => Ok(if a < 0 { 1 } else { 0 }),
        ArithmeticOperation::GreaterThanZero => Ok(if a > 0 { 1 } else { 0 }),
        ArithmeticOperation::BitwiseAnd => Ok(b & a),
        ArithmeticOperation::BitwiseOr => Ok(b | a),
        ArithmeticOperation::LeftShift => Ok(a.wrapping_mul(2)),
        ArithmeticOperation::RightShift => Ok(a >> 1u32),
    }
}

fn compute_signed_double(op: ArithmeticOperation, a: i128, b: i128, c: i128) -> (r: Result<i128, Error>)
    ensures r == spec_signed_double(op, a, b, c),
{
    match op {
        ArithmeticOperation::Add => Ok(b.wrapping_add(a)),
        ArithmeticOperation::Sub => Ok(b.wrapping_sub(a)),
        ArithmeticOperation::Multiply => Ok(a.wrapping_mul(b)),
        ArithmeticOperation::Divide => if a == 0 {
            Err(Error::DivisionByZero)
        } else {
            Ok(
                match b.checked_div(a) {
                    Some(q) => q,
                    None => b,
                },
            )
        },
        ArithmeticOperation::Modulo => if a == 0 {
            Err(Error::DivisionByZero)
        } else {
            Ok(
                match b.checked_rem(a) {
                    Some(m) => m,
                    None => 0,
                },
            )
        },
        ArithmeticOperation::Min => Ok(if a <= b { a } else { b }),
        ArithmeticOperation::Max => Ok(if a >= b { a } else { b }),
        ArithmeticOperation::Negate => Ok(0i128.wrapping_sub(a)),
        ArithmeticOperation::Abs => Ok(if a < 0 { 0i128.wrapping_sub(a) } else { a }),
        ArithmeticOperation::MultiplyDivide => if a == 0 {
            Err(Error::DivisionByZero)
        } else {
            let p = c.wrapping_mul(b);
            Ok(
                match p.checked_div(a) {
                    Some(q) => q,
                    None => p,
                },
            )
        },
        ArithmeticOperation::Equals => Ok(if b == a { 1 } else { 0 }),
        ArithmeticOperation::NotEquals => Ok(if b != a { 1 } else { 0 }),
        ArithmeticOperation::LessThan => Ok(if b < a { 1 } else { 0 }),
        ArithmeticOperation::GreaterThan => Ok(if b > a { 1 } else { 0 }),
        ArithmeticOperation::LessThanOrEqual => Ok(if b <= a { 1 } else { 0 }),
        ArithmeticOperation::GreaterThanOrEquals => Ok(if b >= a { 1 } else { 0 }),
        ArithmeticOperation::EqualsZero => Ok(if a == 0 { 1 } else { 0 }),
        ArithmeticOperation::LessThanZero => Ok(if a < 0 { 1 } else { 0 }),
        ArithmeticOperation::GreaterThanZero => Ok(if a > 0 { 1 } else { 0 }),
        ArithmeticOperation::BitwiseAnd => Ok(b & a),
        ArithmeticOperation::BitwiseOr => Ok(b | a),
        ArithmeticOperation::LeftShift => Ok(a.wrapping_mul(2)),
        ArithmeticOperation::RightShift => Ok(a >> 1u32),
    }
}

fn compute_unsigned(op: ArithmeticOperation, a: u64, b: u64, c: u64) -> (r: Result<u64, Error>)
    ensures r == spec_unsigned(op, a, b, c),
{
    match op {
        ArithmeticOperation::Add => Ok(b.wrapping_add(a)),
        ArithmeticOperation::Sub => Ok(b.wrapping_sub(a)),
        ArithmeticOperation::Multiply => Ok(a.wrapping_mul(b)),
        ArithmeticOperation::Divide => if a == 0 {
            Err(Error::DivisionByZero)
        } else {
            Ok(b / a)
        },
        ArithmeticOperation::Modulo => if a == 0 {
            Err(Error::DivisionByZero)
        } else {
            Ok(b % a)
        },
        ArithmeticOperation::Min => Ok(if a <= b { a } else { b }),
        ArithmeticOperation::Max => Ok(if a >= b { a } else { b }),
        ArithmeticOperation::Negate => Ok(0u64.wrapping_sub(a)),
        ArithmeticOperation::Abs => Ok(a),
        ArithmeticOperation::MultiplyDivide => if a == 0 {
            Err(Error::DivisionByZero)
        } else {
            Ok(c.wrapping_mul(b) / a)
        },
        ArithmeticOperation::Equals => Ok(if b == a { 1 } else { 0 }),
        ArithmeticOperation::NotEquals => Ok(if b != a { 1 } else { 0 }),
        ArithmeticOperation::LessThan => Ok(if b < a { 1 } else { 0 }),
        ArithmeticOperation::GreaterThan => Ok(if b > a { 1 } else { 0 }),
        ArithmeticOperation::LessThanOrEqual => Ok(if b <= a { 1 } else { 0 }),
        ArithmeticOperation::GreaterThanOrEquals => Ok(if b >= a { 1 } else { 0 }),
        ArithmeticOperation::EqualsZero => Ok(if a == 0 { 1 } else { 0 }),
        ArithmeticOperation::LessThanZero => Ok(0),
        ArithmeticOperation::GreaterThanZero => Ok(if a > 0 { 1 } else { 0 }),
        ArithmeticOperation::BitwiseAnd => Ok(b & a),
        ArithmeticOperation::BitwiseOr => Ok(b | a),
        ArithmeticOperation::LeftShift => Ok(a.wrapping_mul(2)),
        ArithmeticOperation::RightShift => Ok(a / 2),
    }
}

fn compute_unsigned_double(op: ArithmeticOperation, a: u128, b: u128, c: u128) -> (r: Result<u128, Error>)
    ensures r == spec_unsigned_double(op, a, b, c),
{
    match op {
        ArithmeticOperation::Add => Ok(b.wrapping_add(a)),
        ArithmeticOperation::Sub => Ok(b.wrapping_sub(a)),
        ArithmeticOperation::Multiply => Ok(a.wrapping_mul(b)),
        ArithmeticOperation::Divide => if a == 0 {
            Err(Error::DivisionByZero)
        } else {
            Ok(b / a)
        },
        ArithmeticOperation::Modulo => if a == 0 {
            Err(Error::DivisionByZero)
        } else {
            Ok(b % a)
        },
        ArithmeticOperation::Min => Ok(if a <= b { a } else { b }),
        ArithmeticOperation::Max => Ok(if a >= b { a } else { b }),
        ArithmeticOperation::Negate => Ok(0u128.wrapping_sub(a)),
        ArithmeticOperation::Abs => Ok(a),
        ArithmeticOperation::MultiplyDivide => if a == 0 {
            Err(Error::DivisionByZero)
        } else {
            Ok(c.wrapping_mul(b) / a)
        },
        ArithmeticOperation::Equals => Ok(if b == a { 1 } else { 0 }),
        ArithmeticOperation::NotEquals => Ok(if b != a { 1 } else { 0 }),
        ArithmeticOperation::LessThan => Ok(if b < a { 1 } else { 0 }),
        ArithmeticOperation::GreaterThan => Ok(if b > a { 1 } else { 0 }),
        ArithmeticOperation::LessThanOrEqual => Ok(if b <= a { 1 } else { 0 }),
        ArithmeticOperation::GreaterThanOrEquals => Ok(if b >= a { 1 } else { 0 }),
        ArithmeticOperation::EqualsZero => Ok(if a == 0 { 1 } else { 0 }),
        ArithmeticOperation::LessThanZero => Ok(0),
        ArithmeticOperation::GreaterThanZero => Ok(if a > 0 { 1 } else { 0 }),
        ArithmeticOperation::BitwiseAnd => Ok(b & a),
        ArithmeticOperation::BitwiseOr => Ok(b | a),
        ArithmeticOperation::LeftShift => Ok(a.wrapping_mul(2)),
        ArithmeticOperation::RightShift => Ok(a / 2),
    }
}

/// Computes `op` on operands of one domain.
pub fn compute(op: ArithmeticOperation, a: Num, b: Num, c: Num) -> (r: Result<Num, Error>)
    ensures r == spec_compute(op, a, b, c),
{
    match (a, b, c) {
        (Num::Signed(a), Num::Signed(b), Num::Signed(c)) => match compute_signed(op, a, b, c) {
            Ok(x) => Ok(Num::Signed(x)),
            Err(e) => Err(e),
        },
        (Num::SignedDouble(a), Num::SignedDouble(b), Num::SignedDouble(c)) => match compute_signed_double(
            op,
            a,
            b,
            c,
        ) {
            Ok(x) => if op == ArithmeticOperation::MultiplyDivide {
                Ok(Num::Signed(double_to_chunks(x).0))
            } else {
                Ok(Num::SignedDouble(x))
            },
            Err(e) => Err(e),
        },
        (Num::Unsigned(a), Num::Unsigned(b), Num::Unsigned(c)) => match compute_unsigned(op, a, b, c) {
            Ok(x) => Ok(Num::Unsigned(x)),
            Err(e) => Err(e),
        },
        (Num::UnsignedDouble(a), Num::UnsignedDouble(b), Num::UnsignedDouble(c)) => match compute_unsigned_double(
            op,
            a,
            b,
            c,
        ) {
            Ok(x) => if op == ArithmeticOperation::MultiplyDivide {
                Ok(Num::Unsigned(x as u64))
            } else {
                Ok(Num::UnsignedDouble(x))
            },
            Err(e) => Err(e),
        },
        _ => Err(Error::InvalidNumber),
    }
}

/// Pops one operand of `glue` off the stack.
fn pop_operand(stack: &mut Stack, glue: Glue) -> (r: Result<Num, Error>)
    ensures
        final(stack).spec_stack_base() == old(stack).spec_stack_base(),
        final(stack).spec_frame_offset() == old(stack).spec_frame_offset(),
        old(stack)@.len() >= operand_size(glue) ==> r == Ok::<Num, Error>(
            operand_of(glue, group(old(stack)@, operand_size(glue), 0)),
        ) && final(stack)@ == below(old(stack)@, operand_size(glue), 1),
        old(stack)@.len() < operand_size(glue) ==> r == Err::<Num, Error>(Error::StackUnderflow) && final(stack)@
            == Seq::<Value>::empty(),
{
    let ghost s = stack@;
    proof {
        let n = operand_size(glue);
        if s.len() >= n {
            assert(group(s, n, 0) =~= s.skip(s.len() - n));
            assert(below(s, n, 1) =~= s.take(s.len() - n));
        }
    }
    match glue {
        Glue::Number => match stack.pop::<i64>() {
            Ok(x) => Ok(Num::Signed(x)),
            Err(e) => Err(e),
        },
        Glue::DoubleNumber => match stack.pop::<i128>() {
            Ok(x) => Ok(Num::SignedDouble(x)),
            Err(e) => Err(e),
        },
        Glue::UnsignedNumber => match stack.pop::<u64>() {
            Ok(x) => Ok(Num::Unsigned(x)),
            Err(e) => Err(e),
        },
        Glue::UnsignedDoubleNumber => match stack.pop::<u128>() {
            Ok(x) => Ok(Num::UnsignedDouble(x)),
            Err(e) => Err(e),
        },
        Glue::SingleToDouble => match stack.pop::<i64>() {
            Ok(x) => Ok(Num::SignedDouble(x as i128)),
            Err(e) => Err(e),
        },
        Glue::UnsignedSingleToDouble => match stack.pop::<u64>() {
            Ok(x) => Ok(Num::UnsignedDouble(x as u128)),
            Err(e) => Err(e),
        },
    }
}

/// Pushes a result on the stack.
fn push_result(stack: &mut Stack, n: Num)
    ensures
        final(stack)@ == old(stack)@ + result_cells(n),
        final(stack).spec_stack_base() == old(stack).spec_stack_base(),
        final(stack).spec_frame_offset() == old(stack).spec_frame_offset(),
{
    match n {
        Num::Signed(x) => stack.push(x),
        Num::SignedDouble(x) => stack.push(x),
        Num::Unsigned(x) => stack.push(x),
        Num::UnsignedDouble(x) => stack.push(x),
    }
}

/// The stack after an arithmetic operation with `arity` operands of `glue` on stack `s`,
/// and the result.
pub open spec fn spec_arithmetic(op: ArithmeticOperation, glue: Glue, s: Seq<Value>) -> (Result<(), Error>, Seq<Value>) {
    let n = operand_size(glue);
    let k = arity(op);
    if s.len() < k * n {
        (Err(Error::StackUnderflow), Seq::empty())
    } else {
        let a = operand_of(glue, group(s, n, 0));
        let b = if k >= 2 {
            operand_of(glue, group(s, n, 1))
        } else {
            a
        };
        let c = if k >= 3 {
            operand_of(glue, group(s, n, 2))
        } else {
            a
        };
        match spec_compute(op, a, b, c) {
            Ok(x) => (Ok(()), below(s, n, k) + result_cells(x)),
            Err(e) => (Err(e), below(s, n, k)),
        }
    }
}

/// What `arithmetic` does to a machine, and what it answers.
pub open spec fn arithmetic_effect(old: &ForthState, new: &ForthState, op: ArithmeticOperation, glue: Glue, r: ForthResult) -> bool {
    &&& (new.unchanged_except(old, set![Field::Stack]))
    &&& ((r, new.stack@) == spec_arithmetic(op, glue, old.stack@))
}

/// Pops the operands of `op` (the top one first) as `glue` says, computes, and pushes the
/// result.
pub fn arithmetic(state: &mut ForthState, op: ArithmeticOperation, glue: Glue) -> (r: ForthResult)

    ensures
        arithmetic_effect(old(state), final(state), op, glue, r),
{
    let ghost s = state.stack@;
    let ghost n = operand_size(glue);
    let a = match pop_operand(&mut state.stack, glue) {
        Ok(x) => x,
        Err(e) => {
            return Err(e);
        },
    };
    let ghost s1 = state.stack@;
    proof {
        assert(s1 =~= below(s, n, 1));
    }
    let b = if arity_of(op) >= 2 {
        match pop_operand(&mut state.stack, glue) {
            Ok(x) => x,
            Err(e) => {
                return Err(e);
            },
        }
    } else {
        a
    };
    let ghost s2 = state.stack@;
    proof {
        if arity(op) >= 2 {
            assert(group(s1, n, 0) =~= group(s, n, 1));
            assert(s2 =~= below(s, n, 2));
        }
    }
    let c = if arity_of(op) >= 3 {
        match pop_operand(&mut state.stack, glue) {
            Ok(x) => x,
            Err(e) => {
                return Err(e);
            },
        }
    } else {
        a
    };
    proof {
        if arity(op) >= 3 {
            assert(group(s2, n, 0) =~= group(s, n, 2));
            assert(state.stack@ =~= below(s, n, 3));
        }
    }
    match compute(op, a, b, c) {
        Ok(x) => {
            push_result(&mut state.stack, x);
            Ok(())
        },
        Err(e) => Err(e),
    }
}

/// `+`: the sum of the two top operands (wrapping).
pub fn add(state: &mut ForthState, glue: Glue) -> (r: ForthResult)
    ensures
        final(state).unchanged_except(old(state), set![Field::Stack]),
        (r, final(state).stack@) == spec_arithmetic(ArithmeticOperation::Add, glue, old(state).stack@),
{
    arithmetic(state, ArithmeticOperation::Add, glue)
}

/// `-`: the second operand minus the top one (wrapping).
pub fn sub(state: &mut ForthState, glue: Glue) -> (r: ForthResult)
    ensures
        final(state).unchanged_except(old(state), set![Field::Stack]),
        (r, final(state).stack@) == spec_arithmetic(ArithmeticOperation::Sub, glue, old(state).stack@),
{
    arithmetic(state, ArithmeticOperation::Sub, glue)
}

/// `*`: the product of the two top operands (wrapping).
pub fn multiply(state: &mut ForthState, glue: Glue) -> (r: ForthResult)
    ensures
        final(state).unchanged_except(old(state), set![Field::Stack]),
        (r, final(state).stack@) == spec_arithmetic(ArithmeticOperation::Multiply, glue, old(state).stack@),
{
    arithmetic(state, ArithmeticOperation::Multiply, glue)
}

/// `/`: the second operand divided by the top one; `DivisionByZero` where the top one is zero.
pub fn divide(state: &mut ForthState, glue: Glue) -> (r: ForthResult)
    ensures
        final(state).unchanged_except(old(state), set![Field::Stack]),
        (r, final(state).stack@) == spec_arithmetic(ArithmeticOperation::Divide, glue, old(state).stack@),
{
    arithmetic(state, ArithmeticOperation::Divide, glue)
}

/// `MOD`: the remainder of the second operand divided by the top one; `DivisionByZero` where the top one is zero.
pub fn modulo(state: &mut ForthState, glue: Glue) -> (r: ForthResult)
    ensures
        final(state).unchanged_except(old(state), set![Field::Stack]),
        (r, final(state).stack@) == spec_arithmetic(ArithmeticOperation::Modulo, glue, old(state).stack@),
{
    arithmetic(state, ArithmeticOperation::Modulo, glue)
}

/// `MIN`: the smaller of the two top operands.
pub fn min(state: &mut ForthState, glue: Glue) -> (r: ForthResult)
    ensures
        final(state).unchanged_except(old(state), set![Field::Stack]),
        (r, final(state).stack@) == spec_arithmetic(ArithmeticOperation::Min, glue, old(state).stack@),
{
    arithmetic(state, ArithmeticOperation::Min, glue)
}

/// `MAX`: the larger of the two top operands.
pub fn max(state: &mut ForthState, glue: Glue) -> (r: ForthResult)
    ensures
        final(state).unchanged_except(old(state), set![Field::Stack]),
        (r, final(state).stack@) == spec_arithmetic(ArithmeticOperation::Max, glue, old(state).stack@),
{
    arithmetic(state, ArithmeticOperation::Max, glue)
}

/// `NEGATE`: the top operand negated (wrapping).
pub fn negate(state: &mut ForthState, glue: Glue) -> (r: ForthResult)
    ensures
        final(state).unchanged_except(old(state), set![Field::Stack]),
        (r, final(state).stack@) == spec_arithmetic(ArithmeticOperation::Negate, glue, old(state).stack@),
{
    arithmetic(state, ArithmeticOperation::Negate, glue)
}

/// `ABS`: the magnitude of the top operand (wrapping).
pub fn abs(state: &mut ForthState, glue: Glue) -> (r: ForthResult)
    ensures
        final(state).unchanged_except(old(state), set![Field::Stack]),
        (r, final(state).stack@) == spec_arithmetic(ArithmeticOperation::Abs, glue, old(state).stack@),
{
    arithmetic(state, ArithmeticOperation::Abs, glue)
}

/// `*/`: the third operand times the second, divided by the top one, computed at double width.
pub fn multiply_divide(state: &mut ForthState, glue: Glue) -> (r: ForthResult)
    ensures
        final(state).unchanged_except(old(state), set![Field::Stack]),
        (r, final(state).stack@) == spec_arithmetic(ArithmeticOperation::MultiplyDivide, glue, old(state).stack@),
{
    arithmetic(state, ArithmeticOperation::MultiplyDivide, glue)
}

/// `=`: whether the two top operands are equal.
pub fn equals(state: &mut ForthState, glue: Glue) -> (r: ForthResult)
    ensures
        final(state).unchanged_except(old(state), set![Field::Stack]),
        (r, final(state).stack@) == spec_arithmetic(ArithmeticOperation::Equals, glue, old(state).stack@),
{
    arithmetic(state, ArithmeticOperation::Equals, glue)
}

/// `<>`: whether the two top operands differ.
pub fn not_equals(state: &mut ForthState, glue: Glue) -> (r: ForthResult)
    ensures
        final(state).unchanged_except(old(state), set![Field::Stack]),
        (r, final(state).stack@) == spec_arithmetic(ArithmeticOperation::NotEquals, glue, old(state).stack@),
{
    arithmetic(state, ArithmeticOperation::NotEquals, glue)
}

/// `<`: whether the second operand is below the top one.
pub fn less_than(state: &mut ForthState, glue: Glue) -> (r: ForthResult)
    ensures
        final(state).unchanged_except(old(state), set![Field::Stack]),
        (r, final(state).stack@) == spec_arithmetic(ArithmeticOperation::LessThan, glue, old(state).stack@),
{
    arithmetic(state, ArithmeticOperation::LessThan, glue)
}

/// `>`: whether the second operand is above the top one.
pub fn greater_than(state: &mut ForthState, glue: Glue) -> (r: ForthResult)
    ensures
        final(state).unchanged_except(old(state), set![Field::Stack]),
        (r, final(state).stack@) == spec_arithmetic(ArithmeticOperation::GreaterThan, glue, old(state).stack@),
{
    arithmetic(state, ArithmeticOperation::GreaterThan, glue)
}

/// `<=`: whether the second operand is at most the top one.
pub fn less_than_or_equal(state: &mut ForthState, glue: Glue) -> (r: ForthResult)
    ensures
        final(state).unchanged_except(old(state), set![Field::Stack]),
        (r, final(state).stack@) == spec_arithmetic(ArithmeticOperation::LessThanOrEqual, glue, old(state).stack@),
{
    arithmetic(state, ArithmeticOperation::LessThanOrEqual, glue)
}

/// `>=`: whether the second operand is at least the top one.
pub fn greater_than_or_equals(state: &mut ForthState, glue: Glue) -> (r: ForthResult)
    ensures
        final(state).unchanged_except(old(state), set![Field::Stack]),
        (r, final(state).stack@) == spec_arithmetic(ArithmeticOperation::GreaterThanOrEquals, glue, old(state).stack@),
{
    arithmetic(state, ArithmeticOperation::GreaterThanOrEquals, glue)
}

/// `0=`: whether the top operand is zero.
pub fn equals_zero(state: &mut ForthState, glue: Glue) -> (r: ForthResult)
    ensures
        final(state).unchanged_except(old(state), set![Field::Stack]),
        (r, final(state).stack@) == spec_arithmetic(ArithmeticOperation::EqualsZero, glue, old(state).stack@),
{
    arithmetic(state, ArithmeticOperation::EqualsZero, glue)
}

/// `0<`: whether the top operand is below zero.
pub fn less_than_zero(state: &mut ForthState, glue: Glue) -> (r: ForthResult)
    ensures
        final(state).unchanged_except(old(state), set![Field::Stack]),
        (r, final(state).stack@) == spec_arithmetic(ArithmeticOperation::LessThanZero, glue, old(state).stack@),
{
    arithmetic(state, ArithmeticOperation::LessThanZero, glue)
}

/// `0>`: whether the top operand is above zero.
pub fn greater_than_zero(state: &mut ForthState, glue: Glue) -> (r: ForthResult)
    ensures
        final(state).unchanged_except(old(state), set![Field::Stack]),
        (r, final(state).stack@) == spec_arithmetic(ArithmeticOperation::GreaterThanZero, glue, old(state).stack@),
{
    arithmetic(state, ArithmeticOperation::GreaterThanZero, glue)
}

/// `AND`: the bits set in both top operands.
pub fn bitwise_and(state: &mut ForthState, glue: Glue) -> (r: ForthResult)
    ensures
        final(state).unchanged_except(old(state), set![Field::Stack]),
        (r, final(state).stack@) == spec_arithmetic(ArithmeticOperation::BitwiseAnd, glue, old(state).stack@),
{
    arithmetic(state, ArithmeticOperation::BitwiseAnd, glue)
}

/// `OR`: the bits set in either top operand.
pub fn bitwise_or(state: &mut ForthState, glue: Glue) -> (r: ForthResult)
    ensures
        final(state).unchanged_except(old(state), set![Field::Stack]),
        (r, final(state).stack@) == spec_arithmetic(ArithmeticOperation::BitwiseOr, glue, old(state).stack@),
{
    arithmetic(state, ArithmeticOperation::BitwiseOr, glue)
}

/// `2*`: the top operand shifted left by one bit.
pub fn leftshift(state: &mut ForthState, glue: Glue) -> (r: ForthResult)
    ensures
        final(state).unchanged_except(old(state), set![Field::Stack]),
        (r, final(state).stack@) == spec_arithmetic(ArithmeticOperation::LeftShift, glue, old(state).stack@),
{
    arithmetic(state, ArithmeticOperation::LeftShift, glue)
}

/// `2/`: the top operand shifted right by one bit.
pub fn rightshift(state: &mut ForthState, glue: Glue) -> (r: ForthResult)
    ensures
        final(state).unchanged_except(old(state), set![Field::Stack]),
        (r, final(state).stack@) == spec_arithmetic(ArithmeticOperation::RightShift, glue, old(state).stack@),
{
    arithmetic(state, ArithmeticOperation::RightShift, glue)
}

/// Runs an arithmetic operation of one operand.
pub fn mono_operation(state: &mut ForthState, op: ArithmeticOperation, glue: Glue) -> (r: ForthResult)
    requires arity(op) == 1,
    ensures
        final(state).unchanged_except(old(state), set![Field::Stack]),
        (r, final(state).stack@) == spec_arithmetic(op, glue, old(state).stack@),
{
    arithmetic(state, op, glue)
}

/// Runs an arithmetic operation of two operands.
pub fn binary_operation(state: &mut ForthState, op: ArithmeticOperation, glue: Glue) -> (r: ForthResult)
    requires arity(op) == 2,
    ensures
        final(state).unchanged_except(old(state), set![Field::Stack]),
        (r, final(state).stack@) == spec_arithmetic(op, glue, old(state).stack@),
{
    arithmetic(state, op, glue)
}

/// Runs an arithmetic operation of three operands.
pub fn tertiary_operation(state: &mut ForthState, op: ArithmeticOperation, glue: Glue) -> (r: ForthResult)
    requires arity(op) == 3,
    ensures
        final(state).unchanged_except(old(state), set![Field::Stack]),
        (r, final(state).stack@) == spec_arithmetic(op, glue, old(state).stack@),
{
    arithmetic(state, op, glue)
}

fn arity_of(op: ArithmeticOperation) -> (r: u64)
    ensures r == arity(op),
{
    match op {
        ArithmeticOperation::Negate | ArithmeticOperation::Abs | ArithmeticOperation::EqualsZero
        | ArithmeticOperation::LessThanZero | ArithmeticOperation::GreaterThanZero
        | ArithmeticOperation::LeftShift | ArithmeticOperation::RightShift => 1,
        ArithmeticOperation::MultiplyDivide => 3,
        _ => 2,
    }
}

/// The words of this module: each name, whether it is immediate, and its operation.
pub open spec fn operation_table() -> Seq<(&'static str, bool, Operation)> {
    seq![
        ("+", false, Operation::Arithmetic(ArithmeticOperation::Add, Glue::Number)),
        ("-", false, Operation::Arithmetic(ArithmeticOperation::Sub, Glue::Number)),
        ("*", false, Operation::Arithmetic(ArithmeticOperation::Multiply, Glue::Number)),
        ("2*", false, Operation::Arithmetic(ArithmeticOperation::LeftShift, Glue::Number)),
        ("2/", false, Operation::Arithmetic(ArithmeticOperation::RightShift, Glue::Number)),
        ("D+", false, Operation::Arithmetic(ArithmeticOperation::Add, Glue::DoubleNumber)),
        ("D-", false, Operation::Arithmetic(ArithmeticOperation::Sub, Glue::DoubleNumber)),
        ("D*", false, Operation::Arithmetic(ArithmeticOperation::Multiply, Glue::DoubleNumber)),
        ("D2*", false, Operation::Arithmetic(ArithmeticOperation::LeftShift, Glue::DoubleNumber)),
        ("D2/", false, Operation::Arithmetic(ArithmeticOperation::RightShift, Glue::DoubleNumber)),
        ("U+", false, Operation::Arithmetic(ArithmeticOperation::Add, Glue::UnsignedNumber)),
        ("U-", false, Operation::Arithmetic(ArithmeticOperation::Sub, Glue::UnsignedNumber)),
        ("U*", false, Operation::Arithmetic(ArithmeticOperation::Multiply, Glue::UnsignedNumber)),
        ("U2*", false, Operation::Arithmetic(ArithmeticOperation::LeftShift, Glue::UnsignedNumber)),
        ("U2/", false, Operation::Arithmetic(ArithmeticOperation::RightShift, Glue::UnsignedNumber)),
        ("UD+", false, Operation::Arithmetic(ArithmeticOperation::Add, Glue::UnsignedDoubleNumber)),
        ("UD-", false, Operation::Arithmetic(ArithmeticOperation::Sub, Glue::UnsignedDoubleNumber)),
        ("UD*", false, Operation::Arithmetic(ArithmeticOperation::Multiply, Glue::UnsignedDoubleNumber)),
        ("UD2*", false, Operation::Arithmetic(ArithmeticOperation::LeftShift, Glue::UnsignedDoubleNumber)),
        ("UD2/", false, Operation::Arithmetic(ArithmeticOperation::RightShift, Glue::UnsignedDoubleNumber)),
        ("M+", false, Operation::Arithmetic(ArithmeticOperation::Add, Glue::SingleToDouble)),
        ("M-", false, Operation::Arithmetic(ArithmeticOperation::Sub, Glue::SingleToDouble)),
        ("M*", false, Operation::Arithmetic(ArithmeticOperation::Multiply, Glue::SingleToDouble)),
        ("M2*", false, Operation::Arithmetic(ArithmeticOperation::LeftShift, Glue::SingleToDouble)),
        ("M2/", false, Operation::Arithmetic(ArithmeticOperation::RightShift, Glue::SingleToDouble)),
        ("UM+", false, Operation::Arithmetic(ArithmeticOperation::Add, Glue::UnsignedSingleToDouble)),
        ("UM-", false, Operation::Arithmetic(ArithmeticOperation::Sub, Glue::UnsignedSingleToDouble)),
        ("UM*", false, Operation::Arithmetic(ArithmeticOperation::Multiply, Glue::UnsignedSingleToDouble)),
        ("UM2*", false, Operation::Arithmetic(ArithmeticOperation::LeftShift, Glue::UnsignedSingleToDouble)),
        ("UM2/", false, Operation::Arithmetic(ArithmeticOperation::RightShift, Glue::UnsignedSingleToDouble)),
        ("*/", false, Operation::Arithmetic(ArithmeticOperation::MultiplyDivide, Glue::SingleToDouble)),
        ("U*/", false, Operation::Arithmetic(ArithmeticOperation::MultiplyDivide, Glue::UnsignedSingleToDouble)),
        ("<", false, Operation::Arithmetic(ArithmeticOperation::LessThan, Glue::Number)),
        (">", false, Operation::Arithmetic(ArithmeticOperation::GreaterThan, Glue::Number)),
        ("<=", false, Operation::Arithmetic(ArithmeticOperation::LessThanOrEqual, Glue::Number)),
        (">=", false, Operation::Arithmetic(ArithmeticOperation::GreaterThanOrEquals, Glue::Number)),
        ("0<", false, Operation::Arithmetic(ArithmeticOperation::LessThanZero, Glue::Number)),
        ("0>", false, Operation::Arithmetic(ArithmeticOperation::GreaterThanZero, Glue::Number)),
        ("/", false, Operation::Arithmetic(ArithmeticOperation::Divide, Glue::Number)),
        ("MIN", false, Operation::Arithmetic(ArithmeticOperation::Min, Glue::Number)),
        ("MAX", false, Operation::Arithmetic(ArithmeticOperation::Max, Glue::Number)),
        ("D<", false, Operation::Arithmetic(ArithmeticOperation::LessThan, Glue::DoubleNumber)),
        ("D>", false, Operation::Arithmetic(ArithmeticOperation::GreaterThan, Glue::DoubleNumber)),
        ("D<=", false, Operation::Arithmetic(ArithmeticOperation::LessThanOrEqual, Glue::DoubleNumber)),
        ("D>=", false, Operation::Arithmetic(ArithmeticOperation::GreaterThanOrEquals, Glue::DoubleNumber)),
        ("D0<", false, Operation::Arithmetic(ArithmeticOperation::LessThanZero, Glue::DoubleNumber)),
        ("D0>", false, Operation::Arithmetic(ArithmeticOperation::GreaterThanZero, Glue::DoubleNumber)),
        ("D/", false, Operation::Arithmetic(ArithmeticOperation::Divide, Glue::DoubleNumber)),
        ("DMIN", false, Operation::Arithmetic(ArithmeticOperation::Min, Glue::DoubleNumber)),
        ("DMAX", false, Operation::Arithmetic(ArithmeticOperation::Max, Glue::DoubleNumber)),
        ("U<", false, Operation::Arithmetic(ArithmeticOperation::LessThan, Glue::UnsignedNumber)),
        ("U>", false, Operation::Arithmetic(ArithmeticOperation::GreaterThan, Glue::UnsignedNumber)),
        ("U<=", false, Operation::Arithmetic(ArithmeticOperation::LessThanOrEqual, Glue::UnsignedNumber)),
        ("U>=", false, Operation::Arithmetic(ArithmeticOperation::GreaterThanOrEquals, Glue::UnsignedNumber)),
        ("U0<", false, Operation::Arithmetic(ArithmeticOperation::LessThanZero, Glue::UnsignedNumber)),
        ("U0>", false, Operation::Arithmetic(ArithmeticOperation::GreaterThanZero, Glue::UnsignedNumber)),
        ("U/", false, Operation::Arithmetic(ArithmeticOperation::Divide, Glue::UnsignedNumber)),
        ("UMIN", false, Operation::Arithmetic(ArithmeticOperation::Min, Glue::UnsignedNumber)),
        ("UMAX", false, Operation::Arithmetic(ArithmeticOperation::Max, Glue::UnsignedNumber)),
        ("UD<", false, Operation::Arithmetic(ArithmeticOperation::LessThan, Glue::UnsignedDoubleNumber)),
        ("UD>", false, Operation::Arithmetic(ArithmeticOperation::GreaterThan, Glue::UnsignedDoubleNumber)),
        ("UD<=", false, Operation::Arithmetic(ArithmeticOperation::LessThanOrEqual, Glue::UnsignedDoubleNumber)),
        ("UD>=", false, Operation::Arithmetic(ArithmeticOperation::GreaterThanOrEquals, Glue::UnsignedDoubleNumber)),
        ("UD0<", false, Operation::Arithmetic(ArithmeticOperation::LessThanZero, Glue::UnsignedDoubleNumber)),
        ("UD0>", false, Operation::Arithmetic(ArithmeticOperation::GreaterThanZero, Glue::UnsignedDoubleNumber)),
        ("UD/", false, Operation::Arithmetic(ArithmeticOperation::Divide, Glue::UnsignedDoubleNumber)),
        ("UDMIN", false, Operation::Arithmetic(ArithmeticOperation::Min, Glue::UnsignedDoubleNumber)),
        ("UDMAX", false, Operation::Arithmetic(ArithmeticOperation::Max, Glue::UnsignedDoubleNumber)),
        ("ABS", false, Operation::Arithmetic(ArithmeticOperation::Abs, Glue::Number)),
        ("NEGATE", false, Operation::Arithmetic(ArithmeticOperation::Negate, Glue::Number)),
        ("MOD", false, Operation::Arithmetic(ArithmeticOperation::Modulo, Glue::Number)),
        ("=", false, Operation::Arithmetic(ArithmeticOperation::Equals, Glue::Number)),
        ("<>", false, Operation::Arithmetic(ArithmeticOperation::NotEquals, Glue::Number)),
        ("AND", false, Operation::Arithmetic(ArithmeticOperation::BitwiseAnd, Glue::Number)),
        ("OR", false, Operation::Arithmetic(ArithmeticOperation::BitwiseOr, Glue::Number)),
        ("0=", false, Operation::Arithmetic(ArithmeticOperation::EqualsZero, Glue::Number)),
        ("DABS", false, Operation::Arithmetic(ArithmeticOperation::Abs, Glue::DoubleNumber)),
        ("DNEGATE", false, Operation::Arithmetic(ArithmeticOperation::Negate, Glue::DoubleNumber)),
        ("DMOD", false, Operation::Arithmetic(ArithmeticOperation::Modulo, Glue::DoubleNumber)),
        ("D=", false, Operation::Arithmetic(ArithmeticOperation::Equals, Glue::DoubleNumber)),
        ("D<>", false, Operation::Arithmetic(ArithmeticOperation::NotEquals, Glue::DoubleNumber)),
        ("DAND", false, Operation::Arithmetic(ArithmeticOperation::BitwiseAnd, Glue::DoubleNumber)),
        ("DOR", false, Operation::Arithmetic(ArithmeticOperation::BitwiseOr, Glue::DoubleNumber)),
        ("D0=", false, Operation::Arithmetic(ArithmeticOperation::EqualsZero, Glue::DoubleNumber)),
    ]
}

/// The arithmetic words with their names: for each number type (none, `D`, `U`, `UD`, and
/// the widening `M`, `UM`) the operations that apply to it.
#[verifier::spinoff_prover]
#[verifier::rlimit(100)]
pub fn get_operations() -> (r: Vec<(&'static str, bool, Operation)>)
    ensures r@ == operation_table(),
{
    let mut v: Vec<(&'static str, bool, Operation)> = Vec::new();
    v.push(("+", false, Operation::Arithmetic(ArithmeticOperation::Add, Glue::Number)));
    v.push(("-", false, Operation::Arithmetic(ArithmeticOperation::Sub, Glue::Number)));
    v.push(("*", false, Operation::Arithmetic(ArithmeticOperation::Multiply, Glue::Number)));
    v.push(("2*", false, Operation::Arithmetic(ArithmeticOperation::LeftShift, Glue::Number)));
    v.push(("2/", false, Operation::Arithmetic(ArithmeticOperation::RightShift, Glue::Number)));
    v.push(("D+", false, Operation::Arithmetic(ArithmeticOperation::Add, Glue::DoubleNumber)));
    v.push(("D-", false, Operation::Arithmetic(ArithmeticOperation::Sub, Glue::DoubleNumber)));
    v.push(("D*", false, Operation::Arithmetic(ArithmeticOperation::Multiply, Glue::DoubleNumber)));
    v.push(("D2*", false, Operation::Arithmetic(ArithmeticOperation::LeftShift, Glue::DoubleNumber)));
    v.push(("D2/", false, Operation::Arithmetic(ArithmeticOperation::RightShift, Glue::DoubleNumber)));
    v.push(("U+", false, Operation::Arithmetic(ArithmeticOperation::Add, Glue::UnsignedNumber)));
    v.push(("U-", false, Operation::Arithmetic(ArithmeticOperation::Sub, Glue::UnsignedNumber)));
    v.push(("U*", false, Operation::Arithmetic(ArithmeticOperation::Multiply, Glue::UnsignedNumber)));
    v.push(("U2*", false, Operation::Arithmetic(ArithmeticOperation::LeftShift, Glue::UnsignedNumber)));
    v.push(("U2/", false, Operation::Arithmetic(ArithmeticOperation::RightShift, Glue::UnsignedNumber)));
    v.push(("UD+", false, Operation::Arithmetic(ArithmeticOperation::Add, Glue::UnsignedDoubleNumber)));
    v.push(("UD-", false, Operation::Arithmetic(ArithmeticOperation::Sub, Glue::UnsignedDoubleNumber)));
    v.push(("UD*", false, Operation::Arithmetic(ArithmeticOperation::Multiply, Glue::UnsignedDoubleNumber)));
    v.push(("UD2*", false, Operation::Arithmetic(ArithmeticOperation::LeftShift, Glue::UnsignedDoubleNumber)));
    v.push(("UD2/", false, Operation::Arithmetic(ArithmeticOperation::RightShift, Glue::UnsignedDoubleNumber)));
    v.push(("M+", false, Operation::Arithmetic(ArithmeticOperation::Add, Glue::SingleToDouble)));
    v.push(("M-", false, Operation::Arithmetic(ArithmeticOperation::Sub, Glue::SingleToDouble)));
    v.push(("M*", false, Operation::Arithmetic(ArithmeticOperation::Multiply, Glue::SingleToDouble)));
    v.push(("M2*", false, Operation::Arithmetic(ArithmeticOperation::LeftShift, Glue::SingleToDouble)));
    v.push(("M2/", false, Operation::Arithmetic(ArithmeticOperation::RightShift, Glue::SingleToDouble)));
    v.push(("UM+", false, Operation::Arithmetic(ArithmeticOperation::Add, Glue::UnsignedSingleToDouble)));
    v.push(("UM-", false, Operation::Arithmetic(ArithmeticOperation::Sub, Glue::UnsignedSingleToDouble)));
    v.push(("UM*", false, Operation::Arithmetic(ArithmeticOperation::Multiply, Glue::UnsignedSingleToDouble)));
    v.push(("UM2*", false, Operation::Arithmetic(ArithmeticOperation::LeftShift, Glue::UnsignedSingleToDouble)));
    v.push(("UM2/", false, Operation::Arithmetic(ArithmeticOperation::RightShift, Glue::UnsignedSingleToDouble)));
    v.push(("*/", false, Operation::Arithmetic(ArithmeticOperation::MultiplyDivide, Glue::SingleToDouble)));
    v.push(("U*/", false, Operation::Arithmetic(ArithmeticOperation::MultiplyDivide, Glue::UnsignedSingleToDouble)));
    v.push(("<", false, Operation::Arithmetic(ArithmeticOperation::LessThan, Glue::Number)));
    v.push((">", false, Operation::Arithmetic(ArithmeticOperation::GreaterThan, Glue::Number)));
    v.push(("<=", false, Operation::Arithmetic(ArithmeticOperation::LessThanOrEqual, Glue::Number)));
    v.push((">=", false, Operation::Arithmetic(ArithmeticOperation::GreaterThanOrEquals, Glue::Number)));
    v.push(("0<", false, Operation::Arithmetic(ArithmeticOperation::LessThanZero, Glue::Number)));
    v.push(("0>", false, Operation::Arithmetic(ArithmeticOperation::GreaterThanZero, Glue::Number)));
    v.push(("/", false, Operation::Arithmetic(ArithmeticOperation::Divide, Glue::Number)));
    v.push(("MIN", false, Operation::Arithmetic(ArithmeticOperation::Min, Glue::Number)));
    v.push(("MAX", false, Operation::Arithmetic(ArithmeticOperation::Max, Glue::Number)));
    v.push(("D<", false, Operation::Arithmetic(ArithmeticOperation::LessThan, Glue::DoubleNumber)));
    v.push(("D>", false, Operation::Arithmetic(ArithmeticOperation::GreaterThan, Glue::DoubleNumber)));
    v.push(("D<=", false, Operation::Arithmetic(ArithmeticOperation::LessThanOrEqual, Glue::DoubleNumber)));
    v.push(("D>=", false, Operation::Arithmetic(ArithmeticOperation::GreaterThanOrEquals, Glue::DoubleNumber)));
    v.push(("D0<", false, Operation::Arithmetic(ArithmeticOperation::LessThanZero, Glue::DoubleNumber)));
    v.push(("D0>", false, Operation::Arithmetic(ArithmeticOperation::GreaterThanZero, Glue::DoubleNumber)));
    v.push(("D/", false, Operation::Arithmetic(ArithmeticOperation::Divide, Glue::DoubleNumber)));
    v.push(("DMIN", false, Operation::Arithmetic(ArithmeticOperation::Min, Glue::DoubleNumber)));
    v.push(("DMAX", false, Operation::Arithmetic(ArithmeticOperation::Max, Glue::DoubleNumber)));
    v.push(("U<", false, Operation::Arithmetic(ArithmeticOperation::LessThan, Glue::UnsignedNumber)));
    v.push(("U>", false, Operation::Arithmetic(ArithmeticOperation::GreaterThan, Glue::UnsignedNumber)));
    v.push(("U<=", false, Operation::Arithmetic(ArithmeticOperation::LessThanOrEqual, Glue::UnsignedNumber)));
    v.push(("U>=", false, Operation::Arithmetic(ArithmeticOperation::GreaterThanOrEquals, Glue::UnsignedNumber)));
    v.push(("U0<", false, Operation::Arithmetic(ArithmeticOperation::LessThanZero, Glue::UnsignedNumber)));
    v.push(("U0>", false, Operation::Arithmetic(ArithmeticOperation::GreaterThanZero, Glue::UnsignedNumber)));
    v.push(("U/", false, Operation::Arithmetic(ArithmeticOperation::Divide, Glue::UnsignedNumber)));
    v.push(("UMIN", false, Operation::Arithmetic(ArithmeticOperation::Min, Glue::UnsignedNumber)));
    v.push(("UMAX", false, Operation::Arithmetic(ArithmeticOperation::Max, Glue::UnsignedNumber)));
    v.push(("UD<", false, Operation::Arithmetic(ArithmeticOperation::LessThan, Glue::UnsignedDoubleNumber)));
    v.push(("UD>", false, Operation::Arithmetic(ArithmeticOperation::GreaterThan, Glue::UnsignedDoubleNumber)));
    v.push(("UD<=", false, Operation::Arithmetic(ArithmeticOperation::LessThanOrEqual, Glue::UnsignedDoubleNumber)));
    v.push(("UD>=", false, Operation::Arithmetic(ArithmeticOperation::GreaterThanOrEquals, Glue::UnsignedDoubleNumber)));
    v.push(("UD0<", false, Operation::Arithmetic(ArithmeticOperation::LessThanZero, Glue::UnsignedDoubleNumber)));
    v.push(("UD0>", false, Operation::Arithmetic(ArithmeticOperation::GreaterThanZero, Glue::UnsignedDoubleNumber)));
    v.push(("UD/", false, Operation::Arithmetic(ArithmeticOperation::Divide, Glue::UnsignedDoubleNumber)));
    v.push(("UDMIN", false, Operation::Arithmetic(ArithmeticOperation::Min, Glue::UnsignedDoubleNumber)));
    v.push(("UDMAX", false, Operation::Arithmetic(ArithmeticOperation::Max, Glue::UnsignedDoubleNumber)));
    v.push(("ABS", false, Operation::Arithmetic(ArithmeticOperation::Abs, Glue::Number)));
    v.push(("NEGATE", false, Operation::Arithmetic(ArithmeticOperation::Negate, Glue::Number)));
    v.push(("MOD", false, Operation::Arithmetic(ArithmeticOperation::Modulo, Glue::Number)));
    v.push(("=", false, Operation::Arithmetic(ArithmeticOperation::Equals, Glue::Number)));
    v.push(("<>", false, Operation::Arithmetic(ArithmeticOperation::NotEquals, Glue::Number)));
    v.push(("AND", false, Operation::Arithmetic(ArithmeticOperation::BitwiseAnd, Glue::Number)));
    v.push(("OR", false, Operation::Arithmetic(ArithmeticOperation::BitwiseOr, Glue::Number)));
    v.push(("0=", false, Operation::Arithmetic(ArithmeticOperation::EqualsZero, Glue::Number)));
    v.push(("DABS", false, Operation::Arithmetic(ArithmeticOperation::Abs, Glue::DoubleNumber)));
    v.push(("DNEGATE", false, Operation::Arithmetic(ArithmeticOperation::Negate, Glue::DoubleNumber)));
    v.push(("DMOD", false, Operation::Arithmetic(ArithmeticOperation::Modulo, Glue::DoubleNumber)));
    v.push(("D=", false, Operation::Arithmetic(ArithmeticOperation::Equals, Glue::DoubleNumber)));
    v.push(("D<>", false, Operation::Arithmetic(ArithmeticOperation::NotEquals, Glue::DoubleNumber)));
    v.push(("DAND", false, Operation::Arithmetic(ArithmeticOperation::BitwiseAnd, Glue::DoubleNumber)));
    v.push(("DOR", false, Operation::Arithmetic(ArithmeticOperation::BitwiseOr, Glue::DoubleNumber)));
    v.push(("D0=", false, Operation::Arithmetic(ArithmeticOperation::EqualsZero, Glue::DoubleNumber)));
    assert(v@ =~= operation_table());
    v
}

} // verus!
