use vstd::prelude::*;
use vstd::arithmetic::div_mod::{lemma_div_nonincreasing, lemma_div_pos_is_pos, lemma_fundamental_div_mod, lemma_mod_pos_bound};
use crate::evaluate::Error;
use crate::environment::value::Value;
use crate::operations::{ArithmeticOperation, Glue};
use crate::operations::arithmetic_operations::{
    arity, spec_arithmetic, spec_signed, spec_signed_double, spec_unsigned, spec_unsigned_double,
};

verus! {

/// The number of values a single cell holds.
pub open spec fn wrap64() -> int {
    0x1_0000_0000_0000_0000
}

/// The number of values a double cell holds.
pub open spec fn wrap128() -> int {
    wrap64() * wrap64()
}

/// Whether `q` is the quotient of `x` by `d` rounded toward zero: what is left over is
/// smaller than `d` in size and has the sign of `x`.
pub open spec fn truncated_quotient(x: int, d: int, q: int) -> bool {
    let m = x - q * d;
    &&& (if d > 0 { -d < m < d } else { d < m < -d })
    &&& (m == 0 || (m < 0) == (x < 0))
}

/// Whether `r` answers a comparison that `holds`: 1 where it holds, 0 where it does not.
pub open spec fn flag_for(holds: bool, r: int) -> bool {
    (holds && r == 1) || (!holds && r == 0)
}

/// Division of non-negative integers: what is left is below the divisor, and the quotient
/// lies between zero and the dividend.
proof fn lemma_positive_division(x: int, d: int)
    requires
        0 <= x,
        0 < d,
    ensures
        0 <= x - d * (x / d) < d,
        0 <= x / d <= x,
        x % d == x - d * (x / d),
{
    lemma_fundamental_div_mod(x, d);
    lemma_mod_pos_bound(x, d);
    lemma_div_pos_is_pos(x, d);
    lemma_div_nonincreasing(x, d);
}

/// The quotient that integer division of `x` by `d` rounds toward zero, in each of the
/// four sign cases the way `checked_div` computes it.
proof fn lemma_truncated(x: int, d: int)
    requires
        d != 0,
    ensures
        ({
            let q = if x == 0 {
                0
            } else if x > 0 && d > 0 {
                x / d
            } else if x < 0 && d < 0 {
                (x * -1) / (d * -1)
            } else if x < 0 {
                ((x * -1) / d) * -1
            } else {
                (x / (d * -1)) * -1
            };
            &&& truncated_quotient(x, d, q)
            &&& d == 1 ==> q == x
            &&& d == -1 ==> q == -x
            &&& (d >= 2 || d <= -2) ==> (-x <= 2 * q <= x || x <= 2 * q <= -x)
        }),
{
    if x > 0 && d > 0 {
        lemma_positive_division(x, d);
        let q = x / d;
        assert(truncated_quotient(x, d, q));
        assert(d >= 2 ==> 2 * q <= x) by (nonlinear_arith)
            requires q >= 0, x - d * q >= 0;
        assert(d == 1 ==> q == x) by (nonlinear_arith)
            requires 0 <= x - d * q < d;
    } else if x < 0 && d < 0 {
        lemma_positive_division(-x, -d);
        let q = (-x) / (-d);
        assert((x * -1) / (d * -1) == q);
        assert(x - q * d == -((-x) - (-d) * q)) by (nonlinear_arith);
        assert(truncated_quotient(x, d, q));
        assert(d <= -2 ==> 2 * q <= -x) by (nonlinear_arith)
            requires q >= 0, (-x) - (-d) * q >= 0;
        assert(d == -1 ==> q == -x) by (nonlinear_arith)
            requires 0 <= (-x) - (-d) * q < -d;
    } else if x < 0 && d > 0 {
        lemma_positive_division(-x, d);
        let t = (-x) / d;
        assert((x * -1) / d == t);
        assert(x - (t * -1) * d == -((-x) - d * t)) by (nonlinear_arith);
        assert(truncated_quotient(x, d, t * -1));
        assert(d >= 2 ==> 2 * t <= -x) by (nonlinear_arith)
            requires t >= 0, (-x) - d * t >= 0;
        assert(d == 1 ==> t * -1 == x) by (nonlinear_arith)
            requires 0 <= (-x) - d * t < d;
    } else if x > 0 && d < 0 {
        lemma_positive_division(x, -d);
        let t = x / (-d);
        assert(x / (d * -1) == t);
        assert(x - (t * -1) * d == x - (-d) * t) by (nonlinear_arith);
        assert(truncated_quotient(x, d, t * -1));
        assert(d <= -2 ==> 2 * t <= x) by (nonlinear_arith)
            requires t >= 0, x - (-d) * t >= 0;
        assert(d == -1 ==> t * -1 == -x) by (nonlinear_arith)
            requires 0 <= x - (-d) * t < -d;
    } else {
        assert(x == 0);
        assert(truncated_quotient(x, d, 0));
    }
}

/// The remainder that `checked_rem` computes is what the quotient rounded toward zero leaves.
proof fn lemma_truncated_remainder(x: int, d: int)
    requires
        d != 0,
    ensures
        ({
            let q = if x == 0 {
                0
            } else if x > 0 && d > 0 {
                x / d
            } else if x < 0 && d < 0 {
                (x * -1) / (d * -1)
            } else if x < 0 {
                ((x * -1) / d) * -1
            } else {
                (x / (d * -1)) * -1
            };
            let m = if x == 0 {
                0
            } else if x > 0 && d > 0 {
                x % d
            } else if x < 0 && d < 0 {
                ((x * -1) % (d * -1)) * -1
            } else if x < 0 {
                ((x * -1) % d) * -1
            } else {
                x % (d * -1)
            };
            x == q * d + m
        }),
{
    if x > 0 && d > 0 {
        lemma_positive_division(x, d);
    } else if x < 0 && d < 0 {
        lemma_positive_division(-x, -d);
        let q = (-x) / (-d);
        assert((x * -1) / (d * -1) == q);
        assert((x * -1) % (d * -1) == (-x) - (-d) * q);
        assert(q * d + ((-x) - (-d) * q) * -1 == x) by (nonlinear_arith);
    } else if x < 0 && d > 0 {
        lemma_positive_division(-x, d);
        let t = (-x) / d;
        assert((x * -1) / d == t);
        assert((x * -1) % d == (-x) - d * t);
        assert((t * -1) * d + ((-x) - d * t) * -1 == x) by (nonlinear_arith);
    } else if x > 0 && d < 0 {
        lemma_positive_division(x, -d);
        let t = x / (-d);
        assert(x / (d * -1) == t);
        assert(x % (d * -1) == x - (-d) * t);
        assert((t * -1) * d + (x - (-d) * t) == x) by (nonlinear_arith);
    }
}

/// The signed single-cell words compute what integer arithmetic gives, wrapped to one cell:
/// a sum, a difference, a product, a negation or a doubling differs from the exact result by
/// a multiple of 2^64; MIN gives the smaller operand and MAX the larger; ABS gives the
/// magnitude (the least number stays itself); halving rounds down; a comparison gives 1 where
/// it holds and 0 where not; division rounds toward zero, the remainder is what that division
/// leaves, and a zero divisor is refused.
pub proof fn law_signed_arithmetic(a: i64, b: i64, c: i64)
    ensures
        spec_signed(ArithmeticOperation::Add, a, b, c) matches Ok(r) && (r - (b + a)) % wrap64() == 0,
        spec_signed(ArithmeticOperation::Sub, a, b, c) matches Ok(r) && (r - (b - a)) % wrap64() == 0,
        spec_signed(ArithmeticOperation::Multiply, a, b, c) matches Ok(r) && (r - a * b) % wrap64() == 0,
        spec_signed(ArithmeticOperation::Min, a, b, c) matches Ok(r) && r <= a && r <= b && (r == a || r == b),
        spec_signed(ArithmeticOperation::Max, a, b, c) matches Ok(r) && r >= a && r >= b && (r == a || r == b),
        spec_signed(ArithmeticOperation::Negate, a, b, c) matches Ok(r) && (r + a) % wrap64() == 0,
        spec_signed(ArithmeticOperation::Abs, a, b, c) matches Ok(r) && (if a == i64::MIN {
            r == a
        } else {
            r >= 0 && (r == a || r == -a)
        }),
        spec_signed(ArithmeticOperation::LeftShift, a, b, c) matches Ok(r) && (r - 2 * a) % wrap64() == 0,
        spec_signed(ArithmeticOperation::RightShift, a, b, c) matches Ok(r) && 2 * r <= a < 2 * r + 2,
        spec_signed(ArithmeticOperation::Equals, a, b, c) matches Ok(r) && flag_for(b == a, r as int),
        spec_signed(ArithmeticOperation::NotEquals, a, b, c) matches Ok(r) && flag_for(b != a, r as int),
        spec_signed(ArithmeticOperation::LessThan, a, b, c) matches Ok(r) && flag_for(b < a, r as int),
        spec_signed(ArithmeticOperation::GreaterThan, a, b, c) matches Ok(r) && flag_for(b > a, r as int),
        spec_signed(ArithmeticOperation::LessThanOrEqual, a, b, c) matches Ok(r) && flag_for(b <= a, r as int),
        spec_signed(ArithmeticOperation::GreaterThanOrEquals, a, b, c) matches Ok(r) && flag_for(b >= a, r as int),
        spec_signed(ArithmeticOperation::EqualsZero, a, b, c) matches Ok(r) && flag_for(a == 0, r as int),
        spec_signed(ArithmeticOperation::LessThanZero, a, b, c) matches Ok(r) && flag_for(a < 0, r as int),
        spec_signed(ArithmeticOperation::GreaterThanZero, a, b, c) matches Ok(r) && flag_for(a > 0, r as int),
        spec_signed(ArithmeticOperation::BitwiseAnd, a, b, c) matches Ok(r) && r & a == r && r & b == r && (a & b) & !r
            == 0,
        spec_signed(ArithmeticOperation::BitwiseOr, a, b, c) matches Ok(r) && r | a == r && r | b == r && r & !(a | b)
            == 0,
        a == 0 ==> spec_signed(ArithmeticOperation::Divide, a, b, c) == Err::<i64, Error>(Error::DivisionByZero),
        a == 0 ==> spec_signed(ArithmeticOperation::Modulo, a, b, c) == Err::<i64, Error>(Error::DivisionByZero),
        a == 0 ==> spec_signed(ArithmeticOperation::MultiplyDivide, a, b, c) == Err::<i64, Error>(
            Error::DivisionByZero,
        ),
        a != 0 && !(b == i64::MIN && a == -1) ==> (spec_signed(ArithmeticOperation::Divide, a, b, c) matches Ok(q)
            && truncated_quotient(b as int, a as int, q as int)),
        a != 0 && !(b == i64::MIN && a == -1) ==> (spec_signed(ArithmeticOperation::Divide, a, b, c) matches Ok(q)
            && spec_signed(ArithmeticOperation::Modulo, a, b, c) matches Ok(m) && b == q * a + m),
        b == i64::MIN && a == -1 ==> spec_signed(ArithmeticOperation::Divide, a, b, c) == Ok::<i64, Error>(b)
            && spec_signed(ArithmeticOperation::Modulo, a, b, c) == Ok::<i64, Error>(0),
        spec_signed(ArithmeticOperation::Multiply, b, c, 0) matches Ok(p) && spec_signed(
            ArithmeticOperation::MultiplyDivide,
            a,
            b,
            c,
        ) == spec_signed(ArithmeticOperation::Divide, a, p, 0),
{
    let p = a as int * b as int;
    assert(a * b == b * a && c * b == b * c) by (nonlinear_arith);
    assert((p % wrap64()) - p == -(wrap64() * (p / wrap64()))) by {
        lemma_fundamental_div_mod(p, wrap64());
    }
    assert(((p % wrap64()) - p) % wrap64() == 0) by (nonlinear_arith)
        requires (p % wrap64()) - p == -(wrap64() * (p / wrap64())), wrap64() > 0;
    assert(((p % wrap64()) - wrap64() - p) % wrap64() == 0) by (nonlinear_arith)
        requires (p % wrap64()) - p == -(wrap64() * (p / wrap64())), wrap64() > 0;
    let d = 2 * a as int;
    assert((d % wrap64()) - d == -(wrap64() * (d / wrap64()))) by {
        lemma_fundamental_div_mod(d, wrap64());
    }
    assert(((d % wrap64()) - d) % wrap64() == 0 && ((d % wrap64()) - wrap64() - d) % wrap64() == 0) by (nonlinear_arith)
        requires wrap64() > 0, (d % wrap64()) - d == -(wrap64() * (d / wrap64()));
    assert((a >> 1u32) + (a >> 1u32) + (a & 1) == a) by (bit_vector);
    assert((a & 1) == 0 || (a & 1) == 1) by (bit_vector);
    let r = b & a;
    assert(r & a == r && r & b == r && (a & b) & !r == 0) by (bit_vector)
        requires r == b & a;
    let o = b | a;
    assert(o | a == o && o | b == o && o & !(a | b) == 0) by (bit_vector)
        requires o == b | a;
    if a != 0 {
        lemma_truncated(b as int, a as int);
        lemma_truncated_remainder(b as int, a as int);
        let cp = vstd::wrapping::i64_specs::wrapping_mul(c, b);
        lemma_truncated(cp as int, a as int);
    }
}

/// The signed double-cell words compute what integer arithmetic gives, wrapped to two cells:
/// a sum, a difference, a product, a negation or a doubling differs from the exact result by
/// a multiple of 2^128; MIN gives the smaller operand and MAX the larger; ABS gives the
/// magnitude (the least number stays itself); halving rounds down; a comparison gives 1 where
/// it holds and 0 where not; division rounds toward zero, the remainder is what that division
/// leaves, and a zero divisor is refused.
pub proof fn law_signed_double_arithmetic(a: i128, b: i128, c: i128)
    ensures
        spec_signed_double(ArithmeticOperation::Add, a, b, c) matches Ok(r) && (r - (b + a)) % wrap128() == 0,
        spec_signed_double(ArithmeticOperation::Sub, a, b, c) matches Ok(r) && (r - (b - a)) % wrap128() == 0,
        spec_signed_double(ArithmeticOperation::Multiply, a, b, c) matches Ok(r) && (r - a * b) % wrap128() == 0,
        spec_signed_double(ArithmeticOperation::Min, a, b, c) matches Ok(r) && r <= a && r <= b && (r == a || r == b),
        spec_signed_double(ArithmeticOperation::Max, a, b, c) matches Ok(r) && r >= a && r >= b && (r == a || r == b),
        spec_signed_double(ArithmeticOperation::Negate, a, b, c) matches Ok(r) && (r + a) % wrap128() == 0,
        spec_signed_double(ArithmeticOperation::Abs, a, b, c) matches Ok(r) && (if a == i128::MIN {
            r == a
        } else {
            r >= 0 && (r == a || r == -a)
        }),
        spec_signed_double(ArithmeticOperation::LeftShift, a, b, c) matches Ok(r) && (r - 2 * a) % wrap128() == 0,
        spec_signed_double(ArithmeticOperation::RightShift, a, b, c) matches Ok(r) && 2 * r <= a < 2 * r + 2,
        spec_signed_double(ArithmeticOperation::Equals, a, b, c) matches Ok(r) && flag_for(b == a, r as int),
        spec_signed_double(ArithmeticOperation::NotEquals, a, b, c) matches Ok(r) && flag_for(b != a, r as int),
        spec_signed_double(ArithmeticOperation::LessThan, a, b, c) matches Ok(r) && flag_for(b < a, r as int),
        spec_signed_double(ArithmeticOperation::GreaterThan, a, b, c) matches Ok(r) && flag_for(b > a, r as int),
        spec_signed_double(ArithmeticOperation::LessThanOrEqual, a, b, c) matches Ok(r) && flag_for(b <= a, r as int),
        spec_signed_double(ArithmeticOperation::GreaterThanOrEquals, a, b, c) matches Ok(r) && flag_for(b >= a, r as int),
        spec_signed_double(ArithmeticOperation::EqualsZero, a, b, c) matches Ok(r) && flag_for(a == 0, r as int),
        spec_signed_double(ArithmeticOperation::LessThanZero, a, b, c) matches Ok(r) && flag_for(a < 0, r as int),
        spec_signed_double(ArithmeticOperation::GreaterThanZero, a, b, c) matches Ok(r) && flag_for(a > 0, r as int),
        spec_signed_double(ArithmeticOperation::BitwiseAnd, a, b, c) matches Ok(r) && r & a == r && r & b == r && (a & b) & !r
            == 0,
        spec_signed_double(ArithmeticOperation::BitwiseOr, a, b, c) matches Ok(r) && r | a == r && r | b == r && r & !(a | b)
            == 0,
        a == 0 ==> spec_signed_double(ArithmeticOperation::Divide, a, b, c) == Err::<i128, Error>(Error::DivisionByZero),
        a == 0 ==> spec_signed_double(ArithmeticOperation::Modulo, a, b, c) == Err::<i128, Error>(Error::DivisionByZero),
        a == 0 ==> spec_signed_double(ArithmeticOperation::MultiplyDivide, a, b, c) == Err::<i128, Error>(
            Error::DivisionByZero,
        ),
        a != 0 && !(b == i128::MIN && a == -1) ==> (spec_signed_double(ArithmeticOperation::Divide, a, b, c) matches Ok(q)
            && truncated_quotient(b as int, a as int, q as int)),
        a != 0 && !(b == i128::MIN && a == -1) ==> (spec_signed_double(ArithmeticOperation::Divide, a, b, c) matches Ok(q)
            && spec_signed_double(ArithmeticOperation::Modulo, a, b, c) matches Ok(m) && b == q * a + m),
        b == i128::MIN && a == -1 ==> spec_signed_double(ArithmeticOperation::Divide, a, b, c) == Ok::<i128, Error>(b)
            && spec_signed_double(ArithmeticOperation::Modulo, a, b, c) == Ok::<i128, Error>(0),
        spec_signed_double(ArithmeticOperation::Multiply, b, c, 0) matches Ok(p) && spec_signed_double(
            ArithmeticOperation::MultiplyDivide,
            a,
            b,
            c,
        ) == spec_signed_double(ArithmeticOperation::Divide, a, p, 0),
{
    let p = a as int * b as int;
    assert(a * b == b * a && c * b == b * c) by (nonlinear_arith);
    assert((p % wrap128()) - p == -(wrap128() * (p / wrap128()))) by {
        lemma_fundamental_div_mod(p, wrap128());
    }
    assert(((p % wrap128()) - p) % wrap128() == 0) by (nonlinear_arith)
        requires (p % wrap128()) - p == -(wrap128() * (p / wrap128())), wrap128() > 0;
    assert(((p % wrap128()) - wrap128() - p) % wrap128() == 0) by (nonlinear_arith)
        requires (p % wrap128()) - p == -(wrap128() * (p / wrap128())), wrap128() > 0;
    let d = 2 * a as int;
    assert((d % wrap128()) - d == -(wrap128() * (d / wrap128()))) by {
        lemma_fundamental_div_mod(d, wrap128());
    }
    assert(((d % wrap128()) - d) % wrap128() == 0 && ((d % wrap128()) - wrap128() - d) % wrap128() == 0) by (nonlinear_arith)
        requires wrap128() > 0, (d % wrap128()) - d == -(wrap128() * (d / wrap128()));
    assert((a >> 1u32) + (a >> 1u32) + (a & 1) == a) by (bit_vector);
    assert((a & 1) == 0 || (a & 1) == 1) by (bit_vector);
    let r = b & a;
    assert(r & a == r && r & b == r && (a & b) & !r == 0) by (bit_vector)
        requires r == b & a;
    let o = b | a;
    assert(o | a == o && o | b == o && o & !(a | b) == 0) by (bit_vector)
        requires o == b | a;
    if a != 0 {
        lemma_truncated(b as int, a as int);
        lemma_truncated_remainder(b as int, a as int);
        let cp = vstd::wrapping::i128_specs::wrapping_mul(c, b);
        lemma_truncated(cp as int, a as int);
    }
}


/// The unsigned single-cell words compute what arithmetic on natural numbers gives, wrapped
/// to one cell: a sum, a difference, a product, a negation or a doubling differs from the
/// exact result by a multiple of 2^64; MIN gives the smaller operand and MAX the larger; ABS
/// leaves the number as it is; halving rounds down; a comparison gives 1 where it holds and 0
/// where not, and no number is below zero; division rounds down, the remainder is what that
/// division leaves, and a zero divisor is refused.
pub proof fn law_unsigned_arithmetic(a: u64, b: u64, c: u64)
    ensures
        spec_unsigned(ArithmeticOperation::Add, a, b, c) matches Ok(r) && (r - (b + a)) % wrap64() == 0,
        spec_unsigned(ArithmeticOperation::Sub, a, b, c) matches Ok(r) && (r - (b - a)) % wrap64() == 0,
        spec_unsigned(ArithmeticOperation::Multiply, a, b, c) matches Ok(r) && (r - a * b) % wrap64() == 0,
        spec_unsigned(ArithmeticOperation::Min, a, b, c) matches Ok(r) && r <= a && r <= b && (r == a || r == b),
        spec_unsigned(ArithmeticOperation::Max, a, b, c) matches Ok(r) && r >= a && r >= b && (r == a || r == b),
        spec_unsigned(ArithmeticOperation::Negate, a, b, c) matches Ok(r) && (r + a) % wrap64() == 0,
        spec_unsigned(ArithmeticOperation::Abs, a, b, c) == Ok::<u64, Error>(a),
        spec_unsigned(ArithmeticOperation::LeftShift, a, b, c) matches Ok(r) && (r - 2 * a) % wrap64() == 0,
        spec_unsigned(ArithmeticOperation::RightShift, a, b, c) matches Ok(r) && 2 * r <= a < 2 * r + 2,
        spec_unsigned(ArithmeticOperation::Equals, a, b, c) matches Ok(r) && flag_for(b == a, r as int),
        spec_unsigned(ArithmeticOperation::NotEquals, a, b, c) matches Ok(r) && flag_for(b != a, r as int),
        spec_unsigned(ArithmeticOperation::LessThan, a, b, c) matches Ok(r) && flag_for(b < a, r as int),
        spec_unsigned(ArithmeticOperation::GreaterThan, a, b, c) matches Ok(r) && flag_for(b > a, r as int),
        spec_unsigned(ArithmeticOperation::LessThanOrEqual, a, b, c) matches Ok(r) && flag_for(b <= a, r as int),
        spec_unsigned(ArithmeticOperation::GreaterThanOrEquals, a, b, c) matches Ok(r) && flag_for(b >= a, r as int),
        spec_unsigned(ArithmeticOperation::EqualsZero, a, b, c) matches Ok(r) && flag_for(a == 0, r as int),
        spec_unsigned(ArithmeticOperation::LessThanZero, a, b, c) matches Ok(r) && flag_for(false, r as int),
        spec_unsigned(ArithmeticOperation::GreaterThanZero, a, b, c) matches Ok(r) && flag_for(a > 0, r as int),
        spec_unsigned(ArithmeticOperation::BitwiseAnd, a, b, c) matches Ok(r) && r & a == r && r & b == r && (a & b) & !r
            == 0,
        spec_unsigned(ArithmeticOperation::BitwiseOr, a, b, c) matches Ok(r) && r | a == r && r | b == r && r & !(a | b)
            == 0,
        a == 0 ==> spec_unsigned(ArithmeticOperation::Divide, a, b, c) == Err::<u64, Error>(Error::DivisionByZero),
        a == 0 ==> spec_unsigned(ArithmeticOperation::Modulo, a, b, c) == Err::<u64, Error>(Error::DivisionByZero),
        a == 0 ==> spec_unsigned(ArithmeticOperation::MultiplyDivide, a, b, c) == Err::<u64, Error>(
            Error::DivisionByZero,
        ),
        a != 0 ==> (spec_unsigned(ArithmeticOperation::Divide, a, b, c) matches Ok(q) && q * a <= b < q * a + a),
        a != 0 ==> (spec_unsigned(ArithmeticOperation::Divide, a, b, c) matches Ok(q)
            && spec_unsigned(ArithmeticOperation::Modulo, a, b, c) matches Ok(m) && b == q * a + m),
        spec_unsigned(ArithmeticOperation::Multiply, b, c, 0) matches Ok(p) && spec_unsigned(
            ArithmeticOperation::MultiplyDivide,
            a,
            b,
            c,
        ) == spec_unsigned(ArithmeticOperation::Divide, a, p, 0),
{
    let p = a as int * b as int;
    assert(a * b == b * a && c * b == b * c) by (nonlinear_arith);
    assert((p % wrap64()) - p == -(wrap64() * (p / wrap64()))) by {
        lemma_fundamental_div_mod(p, wrap64());
    }
    assert(((p % wrap64()) - p) % wrap64() == 0) by (nonlinear_arith)
        requires (p % wrap64()) - p == -(wrap64() * (p / wrap64())), wrap64() > 0;
    let r = b & a;
    assert(r & a == r && r & b == r && (a & b) & !r == 0) by (bit_vector)
        requires r == b & a;
    let o = b | a;
    assert(o | a == o && o | b == o && o & !(a | b) == 0) by (bit_vector)
        requires o == b | a;
    if a != 0 {
        lemma_positive_division(b as int, a as int);
        assert((b / a) * a == a * (b / a)) by (nonlinear_arith);
    }
}

/// The unsigned double-cell words compute what arithmetic on natural numbers gives, wrapped
/// to two cells: a sum, a difference, a product, a negation or a doubling differs from the
/// exact result by a multiple of 2^128; MIN gives the smaller operand and MAX the larger; ABS
/// leaves the number as it is; halving rounds down; a comparison gives 1 where it holds and 0
/// where not, and no number is below zero; division rounds down, the remainder is what that
/// division leaves, and a zero divisor is refused.
pub proof fn law_unsigned_double_arithmetic(a: u128, b: u128, c: u128)
    ensures
        spec_unsigned_double(ArithmeticOperation::Add, a, b, c) matches Ok(r) && (r - (b + a)) % wrap128() == 0,
        spec_unsigned_double(ArithmeticOperation::Sub, a, b, c) matches Ok(r) && (r - (b - a)) % wrap128() == 0,
        spec_unsigned_double(ArithmeticOperation::Multiply, a, b, c) matches Ok(r) && (r - a * b) % wrap128() == 0,
        spec_unsigned_double(ArithmeticOperation::Min, a, b, c) matches Ok(r) && r <= a && r <= b && (r == a || r == b),
        spec_unsigned_double(ArithmeticOperation::Max, a, b, c) matches Ok(r) && r >= a && r >= b && (r == a || r == b),
        spec_unsigned_double(ArithmeticOperation::Negate, a, b, c) matches Ok(r) && (r + a) % wrap128() == 0,
        spec_unsigned_double(ArithmeticOperation::Abs, a, b, c) == Ok::<u128, Error>(a),
        spec_unsigned_double(ArithmeticOperation::LeftShift, a, b, c) matches Ok(r) && (r - 2 * a) % wrap128() == 0,
        spec_unsigned_double(ArithmeticOperation::RightShift, a, b, c) matches Ok(r) && 2 * r <= a < 2 * r + 2,
        spec_unsigned_double(ArithmeticOperation::Equals, a, b, c) matches Ok(r) && flag_for(b == a, r as int),
        spec_unsigned_double(ArithmeticOperation::NotEquals, a, b, c) matches Ok(r) && flag_for(b != a, r as int),
        spec_unsigned_double(ArithmeticOperation::LessThan, a, b, c) matches Ok(r) && flag_for(b < a, r as int),
        spec_unsigned_double(ArithmeticOperation::GreaterThan, a, b, c) matches Ok(r) && flag_for(b > a, r as int),
        spec_unsigned_double(ArithmeticOperation::LessThanOrEqual, a, b, c) matches Ok(r) && flag_for(b <= a, r as int),
        spec_unsigned_double(ArithmeticOperation::GreaterThanOrEquals, a, b, c) matches Ok(r) && flag_for(b >= a, r as int),
        spec_unsigned_double(ArithmeticOperation::EqualsZero, a, b, c) matches Ok(r) && flag_for(a == 0, r as int),
        spec_unsigned_double(ArithmeticOperation::LessThanZero, a, b, c) matches Ok(r) && flag_for(false, r as int),
        spec_unsigned_double(ArithmeticOperation::GreaterThanZero, a, b, c) matches Ok(r) && flag_for(a > 0, r as int),
        spec_unsigned_double(ArithmeticOperation::BitwiseAnd, a, b, c) matches Ok(r) && r & a == r && r & b == r && (a & b) & !r
            == 0,
        spec_unsigned_double(ArithmeticOperation::BitwiseOr, a, b, c) matches Ok(r) && r | a == r && r | b == r && r & !(a | b)
            == 0,
        a == 0 ==> spec_unsigned_double(ArithmeticOperation::Divide, a, b, c) == Err::<u128, Error>(Error::DivisionByZero),
        a == 0 ==> spec_unsigned_double(ArithmeticOperation::Modulo, a, b, c) == Err::<u128, Error>(Error::DivisionByZero),
        a == 0 ==> spec_unsigned_double(ArithmeticOperation::MultiplyDivide, a, b, c) == Err::<u128, Error>(
            Error::DivisionByZero,
        ),
        a != 0 ==> (spec_unsigned_double(ArithmeticOperation::Divide, a, b, c) matches Ok(q) && q * a <= b < q * a + a),
        a != 0 ==> (spec_unsigned_double(ArithmeticOperation::Divide, a, b, c) matches Ok(q)
            && spec_unsigned_double(ArithmeticOperation::Modulo, a, b, c) matches Ok(m) && b == q * a + m),
        spec_unsigned_double(ArithmeticOperation::Multiply, b, c, 0) matches Ok(p) && spec_unsigned_double(
            ArithmeticOperation::MultiplyDivide,
            a,
            b,
            c,
        ) == spec_unsigned_double(ArithmeticOperation::Divide, a, p, 0),
{
    let p = a as int * b as int;
    assert(a * b == b * a && c * b == b * c) by (nonlinear_arith);
    assert((p % wrap128()) - p == -(wrap128() * (p / wrap128()))) by {
        lemma_fundamental_div_mod(p, wrap128());
    }
    assert(((p % wrap128()) - p) % wrap128() == 0) by (nonlinear_arith)
        requires (p % wrap128()) - p == -(wrap128() * (p / wrap128())), wrap128() > 0;
    let r = b & a;
    assert(r & a == r && r & b == r && (a & b) & !r == 0) by (bit_vector)
        requires r == b & a;
    let o = b | a;
    assert(o | a == o && o | b == o && o & !(a | b) == 0) by (bit_vector)
        requires o == b | a;
    if a != 0 {
        lemma_positive_division(b as int, a as int);
        assert((b / a) * a == a * (b / a)) by (nonlinear_arith);
    }
}

/// A signed single-cell word of two operands takes the top cell as its first operand and
/// the cell below it as its second, replaces both by its one-cell result, and leaves the
/// cells beneath as they were; where it refuses, both operands are gone.
pub proof fn law_signed_binary_operands(op: ArithmeticOperation, s: Seq<Value>)
    requires
        arity(op) == 2,
        s.len() >= 2,
    ensures
        ({
            let a = s.last().spec_to_number();
            let b = s[s.len() - 2].spec_to_number();
            let rest = s.take(s.len() - 2);
            spec_arithmetic(op, Glue::Number, s) == match spec_signed(op, a, b, a) {
                Ok(x) => (Ok::<(), Error>(()), rest.push(Value::Number(x))),
                Err(e) => (Err::<(), Error>(e), rest),
            }
        }),
{
    let n: nat = 1;
    assert(crate::operations::stack_operations::group(s, n, 0) =~= seq![s.last()]);
    assert(crate::operations::stack_operations::group(s, n, 1) =~= seq![s[s.len() - 2]]);
    assert(crate::operations::stack_operations::below(s, n, 2) =~= s.take(s.len() - 2));
    let a = s.last().spec_to_number();
    let b = s[s.len() - 2].spec_to_number();
    if let Ok(x) = spec_signed(op, a, b, a) {
        assert(s.take(s.len() - 2) + seq![Value::Number(x)] =~= s.take(s.len() - 2).push(Value::Number(x)));
    }
}

/// An unsigned single-cell word of two operands takes the top cell as its first operand and
/// the cell below it as its second, replaces both by its one-cell result, and leaves the
/// cells beneath as they were; where it refuses, both operands are gone.
pub proof fn law_unsigned_binary_operands(op: ArithmeticOperation, s: Seq<Value>)
    requires
        arity(op) == 2,
        s.len() >= 2,
    ensures
        ({
            let a = s.last().spec_to_number() as u64;
            let b = s[s.len() - 2].spec_to_number() as u64;
            let rest = s.take(s.len() - 2);
            spec_arithmetic(op, Glue::UnsignedNumber, s) == match spec_unsigned(op, a, b, a) {
                Ok(x) => (Ok::<(), Error>(()), rest.push(Value::Number(x as i64))),
                Err(e) => (Err::<(), Error>(e), rest),
            }
        }),
{
    let n: nat = 1;
    assert(crate::operations::stack_operations::group(s, n, 0) =~= seq![s.last()]);
    assert(crate::operations::stack_operations::group(s, n, 1) =~= seq![s[s.len() - 2]]);
    assert(crate::operations::stack_operations::below(s, n, 2) =~= s.take(s.len() - 2));
    let a = s.last().spec_to_number() as u64;
    let b = s[s.len() - 2].spec_to_number() as u64;
    if let Ok(x) = spec_unsigned(op, a, b, a) {
        assert(s.take(s.len() - 2) + seq![Value::Number(x as i64)] =~= s.take(s.len() - 2).push(Value::Number(x as i64)));
    }
}

} // verus!
