//! Evaluation of expressions where a compile-time constant is expected, as
//! an arbitrary precision integer or as an exact fraction.
//!
//! The meaning of an expression is given by `eval_number` and
//! `eval_rational`, which follow constants into their initializers for at
//! most `fuel` steps; `Stuck` marks an expression that names a constant
//! which does not exist or has no initializer, that reaches a fraction with a
//! zero denominator, or that needs more steps.
use vstd::prelude::*;
use vstd::arithmetic::power::pow;
use vstd::arithmetic::power2::pow2;
use crate::ast::{constant_initializer, error_view, expr_loc, Diagnostic, Expression, Loc, Namespace};
use crate::bignum::{
    big_add, big_and, big_div, big_is_zero, big_mul, big_neg, big_not, big_one, big_or, big_rem,
    big_shl_usize, big_shr_usize, big_sign, big_sub, big_to_decimal, big_to_usize, big_xor,
    bitwise, int_decimal, trunc_div, trunc_rem, BigNum, BitOp, Sign, canonical, gcd, rat_add,
    rat_add_spec, rat_div, rat_div_spec, rat_from_integer, rat_is_zero, rat_mul, rat_mul_spec,
    rat_neg, rat_rem, rat_rem_spec, rat_sub, rat_sub_spec, Rational, abs,
    lemma_fraction_arithmetic_exact,
};

verus! {

/// The outcome of evaluating an expression.
pub enum Eval<V> {
    Stuck,
    Fail(Loc, Seq<char>),
    Done(Loc, V),
}

pub open spec fn divide_by_zero_text() -> Seq<char> {
    "divide by zero"@
}

pub open spec fn negative_exponent_text() -> Seq<char> {
    "power cannot take negative number as exponent"@
}

pub open spec fn shift_text(left: bool, amount: int) -> Seq<char> {
    if left {
        "cannot left shift by "@ + int_decimal(amount)
    } else {
        "cannot right shift by "@ + int_decimal(amount)
    }
}

pub open spec fn not_number_text() -> Seq<char> {
    "expression not allowed in constant number expression"@
}

pub open spec fn not_rational_text() -> Seq<char> {
    "expression not allowed in constant rational number expression"@
}

/// The integer operators that combine two values.
pub enum NumOp {
    Add,
    Sub,
    Mul,
    And,
    Or,
    Xor,
}

pub open spec fn num_apply(op: NumOp, a: int, b: int) -> int {
    match op {
        NumOp::Add => a + b,
        NumOp::Sub => a - b,
        NumOp::Mul => a * b,
        NumOp::And => bitwise(BitOp::And, a, b),
        NumOp::Or => bitwise(BitOp::Or, a, b),
        NumOp::Xor => bitwise(BitOp::Xor, a, b),
    }
}

/// Left operand first, then the right one; the first failure is the result.
pub open spec fn num_binary(loc: Loc, l: Eval<int>, r: Eval<int>, op: NumOp) -> Eval<int> {
    match l {
        Eval::Stuck => Eval::Stuck,
        Eval::Fail(at, m) => Eval::Fail(at, m),
        Eval::Done(_, a) => match r {
            Eval::Stuck => Eval::Stuck,
            Eval::Fail(at, m) => Eval::Fail(at, m),
            Eval::Done(_, b) => Eval::Done(loc, num_apply(op, a, b)),
        },
    }
}

/// The divisor first; a zero divisor fails before the dividend is evaluated.
pub open spec fn num_division(loc: Loc, l: Eval<int>, r: Eval<int>, remainder: bool) -> Eval<int> {
    match r {
        Eval::Stuck => Eval::Stuck,
        Eval::Fail(at, m) => Eval::Fail(at, m),
        Eval::Done(_, b) => if b == 0 {
            Eval::Fail(loc, divide_by_zero_text())
        } else {
            match l {
                Eval::Stuck => Eval::Stuck,
                Eval::Fail(at, m) => Eval::Fail(at, m),
                Eval::Done(_, a) => Eval::Done(
                    loc,
                    if remainder {
                        trunc_rem(a, b)
                    } else {
                        trunc_div(a, b)
                    },
                ),
            }
        },
    }
}

/// The base first, then the exponent, which may not be negative.
pub open spec fn num_power(loc: Loc, base: Eval<int>, exp: Eval<int>) -> Eval<int> {
    match base {
        Eval::Stuck => Eval::Stuck,
        Eval::Fail(at, m) => Eval::Fail(at, m),
        Eval::Done(_, b) => match exp {
            Eval::Stuck => Eval::Stuck,
            Eval::Fail(at, m) => Eval::Fail(at, m),
            Eval::Done(_, e) => if e < 0 {
                Eval::Fail(loc, negative_exponent_text())
            } else {
                Eval::Done(loc, pow(b, e as nat))
            },
        },
    }
}

/// The value first, then the shift amount, which must fit in a `usize`. A
/// right shift rounds toward minus infinity.
pub open spec fn num_shift(loc: Loc, l: Eval<int>, r: Eval<int>, left: bool) -> Eval<int> {
    match l {
        Eval::Stuck => Eval::Stuck,
        Eval::Fail(at, m) => Eval::Fail(at, m),
        Eval::Done(_, a) => match r {
            Eval::Stuck => Eval::Stuck,
            Eval::Fail(at, m) => Eval::Fail(at, m),
            Eval::Done(_, b) => if b < 0 || b > usize::MAX {
                Eval::Fail(loc, shift_text(left, b))
            } else if left {
                Eval::Done(loc, a * pow2(b as nat))
            } else {
                Eval::Done(loc, a / (pow2(b as nat) as int))
            },
        },
    }
}

/// The unary integer operators.
pub enum NumUnary {
    Same,
    Not,
    Minus,
}

pub open spec fn num_unary(loc: Loc, x: Eval<int>, op: NumUnary) -> Eval<int> {
    match x {
        Eval::Stuck => Eval::Stuck,
        Eval::Fail(at, m) => Eval::Fail(at, m),
        Eval::Done(_, v) => Eval::Done(
            loc,
            match op {
                NumUnary::Same => v,
                NumUnary::Not => -v - 1,
                NumUnary::Minus => -v,
            },
        ),
    }
}

/// The integer value of `e`, following constants for at most `fuel` steps.
pub open spec fn eval_number(e: Expression, ns: Namespace, fuel: nat) -> Eval<int>
    decreases fuel, e,
{
    match e {
        Expression::Add(loc, _, _, l, r) => num_binary(
            loc,
            eval_number(*l, ns, fuel),
            eval_number(*r, ns, fuel),
            NumOp::Add,
        ),
        Expression::Subtract(loc, _, _, l, r) => num_binary(
            loc,
            eval_number(*l, ns, fuel),
            eval_number(*r, ns, fuel),
            NumOp::Sub,
        ),
        Expression::Multiply(loc, _, _, l, r) => num_binary(
            loc,
            eval_number(*l, ns, fuel),
            eval_number(*r, ns, fuel),
            NumOp::Mul,
        ),
        Expression::Divide(loc, _, l, r) => num_division(
            loc,
            eval_number(*l, ns, fuel),
            eval_number(*r, ns, fuel),
            false,
        ),
        Expression::Modulo(loc, _, l, r) => num_division(
            loc,
            eval_number(*l, ns, fuel),
            eval_number(*r, ns, fuel),
            true,
        ),
        Expression::BitwiseAnd(loc, _, l, r) => num_binary(
            loc,
            eval_number(*l, ns, fuel),
            eval_number(*r, ns, fuel),
            NumOp::And,
        ),
        Expression::BitwiseOr(loc, _, l, r) => num_binary(
            loc,
            eval_number(*l, ns, fuel),
            eval_number(*r, ns, fuel),
            NumOp::Or,
        ),
        Expression::BitwiseXor(loc, _, l, r) => num_binary(
            loc,
            eval_number(*l, ns, fuel),
            eval_number(*r, ns, fuel),
            NumOp::Xor,
        ),
        Expression::Power(loc, _, _, b, x) => num_power(
            loc,
            eval_number(*b, ns, fuel),
            eval_number(*x, ns, fuel),
        ),
        Expression::ShiftLeft(loc, _, l, r) => num_shift(
            loc,
            eval_number(*l, ns, fuel),
            eval_number(*r, ns, fuel),
            true,
        ),
        Expression::ShiftRight(loc, _, l, r, _) => num_shift(
            loc,
            eval_number(*l, ns, fuel),
            eval_number(*r, ns, fuel),
            false,
        ),
        Expression::NumberLiteral(loc, _, n) => Eval::Done(loc, n@),
        Expression::ZeroExt(loc, _, x) => num_unary(loc, eval_number(*x, ns, fuel), NumUnary::Same),
        Expression::SignExt(loc, _, x) => num_unary(loc, eval_number(*x, ns, fuel), NumUnary::Same),
        Expression::Cast(loc, _, x) => num_unary(loc, eval_number(*x, ns, fuel), NumUnary::Same),
        Expression::Not(loc, x) => num_unary(loc, eval_number(*x, ns, fuel), NumUnary::Not),
        Expression::Complement(loc, _, x) => num_unary(
            loc,
            eval_number(*x, ns, fuel),
            NumUnary::Not,
        ),
        Expression::UnaryMinus(loc, _, x) => num_unary(
            loc,
            eval_number(*x, ns, fuel),
            NumUnary::Minus,
        ),
        Expression::ConstantVariable(_, _, contract_no, var_no) => if fuel == 0 {
            Eval::Stuck
        } else {
            match constant_initializer(ns, contract_no, var_no) {
                Some(init) => eval_number(init, ns, (fuel - 1) as nat),
                None => Eval::Stuck,
            }
        },
        _ => Eval::Fail(expr_loc(e), not_number_text()),
    }
}

/// Whether `e` evaluates to an integer or an error with some finite number
/// of steps through constants.
pub open spec fn number_evaluates(e: Expression, ns: Namespace) -> bool {
    exists|fuel: nat| !(#[trigger] eval_number(e, ns, fuel) is Stuck)
}

/// The integer value of `e` (see `lemma_const_number_fuel`: any number of
/// steps that is enough gives this same outcome).
pub open spec fn const_number(e: Expression, ns: Namespace) -> Eval<int> {
    eval_number(e, ns, choose|fuel: nat| !(#[trigger] eval_number(e, ns, fuel) is Stuck))
}

/// `res` is the outcome `s`: the value at its place, or the error it names.
pub open spec fn number_matches(res: Result<(Loc, BigNum), Diagnostic>, s: Eval<int>) -> bool {
    match s {
        Eval::Stuck => false,
        Eval::Fail(loc, m) => res matches Err(d) && d@ == error_view(loc, m),
        Eval::Done(loc, v) => res matches Ok(p) && p.0 == loc && p.1@ == v,
    }
}

proof fn lemma_pow_one(b: int)
    ensures
        pow(b, 1) == b,
{
    reveal_with_fuel(pow, 2);
}

proof fn lemma_pow_step(b: int, k: nat)
    ensures
        pow(b, k + 1) == pow(b, k) * b,
{
    reveal(pow);
    assert(pow(b, k + 1) == b * pow(b, k));
    assert(b * pow(b, k) == pow(b, k) * b) by (nonlinear_arith);
}

proof fn lemma_pow_zero(b: int)
    ensures
        pow(b, 0) == 1,
{
    reveal(pow);
}

/// `shift_text` as the evaluator builds it.
fn shift_error(loc: Loc, left: bool, amount: &BigNum) -> (d: Diagnostic)
    ensures
        d@ == error_view(loc, shift_text(left, amount@)),
{
    let mut m = if left {
        String::from_str("cannot left shift by ")
    } else {
        String::from_str("cannot right shift by ")
    };
    let digits = big_to_decimal(amount);
    m.append(digits.as_str());
    Diagnostic::error(loc, m)
}

/// a to the power e for e > 0, by repeated multiplication.
fn power_by_multiplication(b: &BigNum, e: BigNum) -> (r: BigNum)
    requires
        e@ > 0,
    ensures
        r@ == pow(b@, e@ as nat),
{
    let ghost n = e@;
    let mut res = b.duplicate();
    let one = big_one();
    let mut e = big_sub(&e, &one);
    proof {
        lemma_pow_one(b@);
    }
    while big_sign(&e) == Sign::Plus
        invariant
            0 <= e@ < n,
            one@ == 1,
            res@ == pow(b@, (n - e@) as nat),
        decreases e@,
    {
        proof {
            lemma_pow_step(b@, (n - e@) as nat);
        }
        res = big_mul(&res, b);
        e = big_sub(&e, &one);
    }
    res
}

fn eval_number_fueled(expr: &Expression, ns: &Namespace, Ghost(fuel): Ghost<nat>) -> (res: Result<
    (Loc, BigNum),
    Diagnostic,
>)
    requires
        !(eval_number(*expr, *ns, fuel) is Stuck),
    ensures
        number_matches(res, eval_number(*expr, *ns, fuel)),
    decreases fuel, expr,
{
    match expr {
        Expression::Add(loc, _, _, l, r) => {
            let a = eval_number_fueled(l, ns, Ghost(fuel))?.1;
            let b = eval_number_fueled(r, ns, Ghost(fuel))?.1;
            Ok((*loc, big_add(&a, &b)))
        },
        Expression::Subtract(loc, _, _, l, r) => {
            let a = eval_number_fueled(l, ns, Ghost(fuel))?.1;
            let b = eval_number_fueled(r, ns, Ghost(fuel))?.1;
            Ok((*loc, big_sub(&a, &b)))
        },
        Expression::Multiply(loc, _, _, l, r) => {
            let a = eval_number_fueled(l, ns, Ghost(fuel))?.1;
            let b = eval_number_fueled(r, ns, Ghost(fuel))?.1;
            Ok((*loc, big_mul(&a, &b)))
        },
        Expression::Divide(loc, _, l, r) => {
            let divisor = eval_number_fueled(r, ns, Ghost(fuel))?.1;
            if big_is_zero(&divisor) {
                Err(Diagnostic::error(*loc, String::from_str("divide by zero")))
            } else {
                let a = eval_number_fueled(l, ns, Ghost(fuel))?.1;
                Ok((*loc, big_div(&a, &divisor)))
            }
        },
        Expression::Modulo(loc, _, l, r) => {
            let divisor = eval_number_fueled(r, ns, Ghost(fuel))?.1;
            if big_is_zero(&divisor) {
                Err(Diagnostic::error(*loc, String::from_str("divide by zero")))
            } else {
                let a = eval_number_fueled(l, ns, Ghost(fuel))?.1;
                Ok((*loc, big_rem(&a, &divisor)))
            }
        },
        Expression::BitwiseAnd(loc, _, l, r) => {
            let a = eval_number_fueled(l, ns, Ghost(fuel))?.1;
            let b = eval_number_fueled(r, ns, Ghost(fuel))?.1;
            Ok((*loc, big_and(&a, &b)))
        },
        Expression::BitwiseOr(loc, _, l, r) => {
            let a = eval_number_fueled(l, ns, Ghost(fuel))?.1;
            let b = eval_number_fueled(r, ns, Ghost(fuel))?.1;
            Ok((*loc, big_or(&a, &b)))
        },
        Expression::BitwiseXor(loc, _, l, r) => {
            let a = eval_number_fueled(l, ns, Ghost(fuel))?.1;
            let b = eval_number_fueled(r, ns, Ghost(fuel))?.1;
            Ok((*loc, big_xor(&a, &b)))
        },
        Expression::Power(loc, _, _, base, exp) => {
            let b = eval_number_fueled(base, ns, Ghost(fuel))?.1;
            let e = eval_number_fueled(exp, ns, Ghost(fuel))?.1;
            match big_sign(&e) {
                Sign::Minus => Err(
                    Diagnostic::error(
                        expr.loc(),
                        String::from_str("power cannot take negative number as exponent"),
                    ),
                ),
                Sign::NoSign => {
                    proof {
                        lemma_pow_zero(b@);
                    }
                    Ok((*loc, big_one()))
                },
                Sign::Plus => Ok((*loc, power_by_multiplication(&b, e))),
            }
        },
        Expression::ShiftLeft(loc, _, left, right) => {
            let l = eval_number_fueled(left, ns, Ghost(fuel))?.1;
            let r = eval_number_fueled(right, ns, Ghost(fuel))?.1;
            match big_to_usize(&r) {
                Some(n) => Ok((*loc, big_shl_usize(&l, n))),
                None => Err(shift_error(expr.loc(), true, &r)),
            }
        },
        Expression::ShiftRight(loc, _, left, right, _) => {
            let l = eval_number_fueled(left, ns, Ghost(fuel))?.1;
            let r = eval_number_fueled(right, ns, Ghost(fuel))?.1;
            match big_to_usize(&r) {
                Some(n) => Ok((*loc, big_shr_usize(&l, n))),
                None => Err(shift_error(expr.loc(), false, &r)),
            }
        },
        Expression::NumberLiteral(loc, _, n) => Ok((*loc, n.duplicate())),
        Expression::ZeroExt(loc, _, n) => Ok((*loc, eval_number_fueled(n, ns, Ghost(fuel))?.1)),
        Expression::SignExt(loc, _, n) => Ok((*loc, eval_number_fueled(n, ns, Ghost(fuel))?.1)),
        Expression::Cast(loc, _, n) => Ok((*loc, eval_number_fueled(n, ns, Ghost(fuel))?.1)),
        Expression::Not(loc, n) => {
            let v = eval_number_fueled(n, ns, Ghost(fuel))?.1;
            Ok((*loc, big_not(&v)))
        },
        Expression::Complement(loc, _, n) => {
            let v = eval_number_fueled(n, ns, Ghost(fuel))?.1;
            Ok((*loc, big_not(&v)))
        },
        Expression::UnaryMinus(loc, _, n) => {
            let v = eval_number_fueled(n, ns, Ghost(fuel))?.1;
            Ok((*loc, big_neg(&v)))
        },
        Expression::ConstantVariable(_, _, Some(contract_no), var_no) => {
            match &ns.contracts[*contract_no].variables[*var_no].initializer {
                Some(init) => eval_number_fueled(init, ns, Ghost((fuel - 1) as nat)),
                None => unreached(),
            }
        },
        Expression::ConstantVariable(_, _, None, var_no) => {
            match &ns.constants[*var_no].initializer {
                Some(init) => eval_number_fueled(init, ns, Ghost((fuel - 1) as nat)),
                None => unreached(),
            }
        },
        _ => Err(
            Diagnostic::error(
                expr.loc(),
                String::from_str("expression not allowed in constant number expression"),
            ),
        ),
    }
}

/// Evaluation does not depend on how many steps through constants it is
/// allowed, once it is allowed enough: more steps give the same outcome.
pub proof fn lemma_eval_number_more_fuel(e: Expression, ns: Namespace, f1: nat, f2: nat)
    requires
        f1 <= f2,
        !(eval_number(e, ns, f1) is Stuck),
    ensures
        eval_number(e, ns, f2) == eval_number(e, ns, f1),
    decreases f1, e,
{
    match e {
        Expression::Add(_, _, _, l, r) | Expression::Subtract(_, _, _, l, r)
        | Expression::Multiply(_, _, _, l, r) | Expression::Divide(_, _, l, r)
        | Expression::Modulo(_, _, l, r) | Expression::BitwiseAnd(_, _, l, r)
        | Expression::BitwiseOr(_, _, l, r) | Expression::BitwiseXor(_, _, l, r)
        | Expression::Power(_, _, _, l, r) | Expression::ShiftLeft(_, _, l, r)
        | Expression::ShiftRight(_, _, l, r, _) => {
            if !(eval_number(*l, ns, f1) is Stuck) {
                lemma_eval_number_more_fuel(*l, ns, f1, f2);
            }
            if !(eval_number(*r, ns, f1) is Stuck) {
                lemma_eval_number_more_fuel(*r, ns, f1, f2);
            }
        },
        Expression::ZeroExt(_, _, x) | Expression::SignExt(_, _, x) | Expression::Cast(_, _, x)
        | Expression::Not(_, x) | Expression::Complement(_, _, x)
        | Expression::UnaryMinus(_, _, x) => {
            lemma_eval_number_more_fuel(*x, ns, f1, f2);
        },
        Expression::ConstantVariable(_, _, contract_no, var_no) => {
            if let Some(init) = constant_initializer(ns, contract_no, var_no) {
                lemma_eval_number_more_fuel(init, ns, (f1 - 1) as nat, (f2 - 1) as nat);
            }
        },
        _ => {},
    }
}

/// The integer value of a constant expression is the outcome of evaluating
/// it with any number of steps through constants that is enough.
pub proof fn lemma_const_number_fuel(e: Expression, ns: Namespace, fuel: nat)
    requires
        !(eval_number(e, ns, fuel) is Stuck),
    ensures
        const_number(e, ns) == eval_number(e, ns, fuel),
{
    let chosen = choose|f: nat| !(#[trigger] eval_number(e, ns, f) is Stuck);
    if chosen <= fuel {
        lemma_eval_number_more_fuel(e, ns, chosen, fuel);
    } else {
        lemma_eval_number_more_fuel(e, ns, fuel, chosen);
    }
}

/// Resolves an expression where a compile-time constant is expected: its
/// integer value, at the place of the outermost operation (or of the
/// initializer of a named constant), or the first error that evaluation
/// meets.
pub fn eval_const_number(expr: &Expression, ns: &Namespace) -> (res: Result<(Loc, BigNum), Diagnostic>)
    requires
        number_evaluates(*expr, *ns),
    ensures
        number_matches(res, const_number(*expr, *ns)),
{
    let ghost fuel = choose|fuel: nat| !(#[trigger] eval_number(*expr, *ns, fuel) is Stuck);
    eval_number_fueled(expr, ns, Ghost(fuel))
}

/// The operators on fractions that combine two values.
pub enum RatOp {
    Add,
    Sub,
    Mul,
}

pub open spec fn rat_apply(op: RatOp, a: (int, int), b: (int, int)) -> (int, int) {
    match op {
        RatOp::Add => rat_add_spec(a, b),
        RatOp::Sub => rat_sub_spec(a, b),
        RatOp::Mul => rat_mul_spec(a, b),
    }
}

/// Left operand first, then the right one; the first failure is the result.
pub open spec fn rat_binary(loc: Loc, l: Eval<(int, int)>, r: Eval<(int, int)>, op: RatOp) -> Eval<
    (int, int),
> {
    match l {
        Eval::Stuck => Eval::Stuck,
        Eval::Fail(at, m) => Eval::Fail(at, m),
        Eval::Done(_, a) => match r {
            Eval::Stuck => Eval::Stuck,
            Eval::Fail(at, m) => Eval::Fail(at, m),
            Eval::Done(_, b) => Eval::Done(loc, rat_apply(op, a, b)),
        },
    }
}

/// The divisor first; a zero divisor fails before the dividend is evaluated.
pub open spec fn rat_division(loc: Loc, l: Eval<(int, int)>, r: Eval<(int, int)>, remainder: bool) -> Eval<
    (int, int),
> {
    match r {
        Eval::Stuck => Eval::Stuck,
        Eval::Fail(at, m) => Eval::Fail(at, m),
        Eval::Done(_, b) => if b.0 == 0 {
            Eval::Fail(loc, divide_by_zero_text())
        } else {
            match l {
                Eval::Stuck => Eval::Stuck,
                Eval::Fail(at, m) => Eval::Fail(at, m),
                Eval::Done(_, a) => Eval::Done(
                    loc,
                    if remainder {
                        rat_rem_spec(a, b)
                    } else {
                        rat_div_spec(a, b)
                    },
                ),
            }
        },
    }
}

pub open spec fn rat_unary(loc: Loc, x: Eval<(int, int)>, negate: bool) -> Eval<(int, int)> {
    match x {
        Eval::Stuck => Eval::Stuck,
        Eval::Fail(at, m) => Eval::Fail(at, m),
        Eval::Done(_, v) => Eval::Done(
            loc,
            if negate {
                (-v.0, v.1)
            } else {
                v
            },
        ),
    }
}

/// The value of `e` as a fraction (numerator, denominator), following
/// constants for at most `fuel` steps. A fraction literal with a zero
/// denominator is no valid value.
pub open spec fn eval_rational(e: Expression, ns: Namespace, fuel: nat) -> Eval<(int, int)>
    decreases fuel, e,
{
    match e {
        Expression::Add(loc, _, _, l, r) => rat_binary(
            loc,
            eval_rational(*l, ns, fuel),
            eval_rational(*r, ns, fuel),
            RatOp::Add,
        ),
        Expression::Subtract(loc, _, _, l, r) => rat_binary(
            loc,
            eval_rational(*l, ns, fuel),
            eval_rational(*r, ns, fuel),
            RatOp::Sub,
        ),
        Expression::Multiply(loc, _, _, l, r) => rat_binary(
            loc,
            eval_rational(*l, ns, fuel),
            eval_rational(*r, ns, fuel),
            RatOp::Mul,
        ),
        Expression::Divide(loc, _, l, r) => rat_division(
            loc,
            eval_rational(*l, ns, fuel),
            eval_rational(*r, ns, fuel),
            false,
        ),
        Expression::Modulo(loc, _, l, r) => rat_division(
            loc,
            eval_rational(*l, ns, fuel),
            eval_rational(*r, ns, fuel),
            true,
        ),
        Expression::NumberLiteral(loc, _, n) => Eval::Done(loc, (n@, 1)),
        Expression::RationalNumberLiteral(loc, _, q) => if q@.1 != 0 {
            Eval::Done(loc, q@)
        } else {
            Eval::Stuck
        },
        Expression::Cast(loc, _, x) => rat_unary(loc, eval_rational(*x, ns, fuel), false),
        Expression::UnaryMinus(loc, _, x) => rat_unary(loc, eval_rational(*x, ns, fuel), true),
        Expression::ConstantVariable(_, _, contract_no, var_no) => if fuel == 0 {
            Eval::Stuck
        } else {
            match constant_initializer(ns, contract_no, var_no) {
                Some(init) => eval_rational(init, ns, (fuel - 1) as nat),
                None => Eval::Stuck,
            }
        },
        _ => Eval::Fail(expr_loc(e), not_rational_text()),
    }
}

/// Whether `e` evaluates to a fraction or an error with some finite number
/// of steps through constants.
pub open spec fn rational_evaluates(e: Expression, ns: Namespace) -> bool {
    exists|fuel: nat| !(#[trigger] eval_rational(e, ns, fuel) is Stuck)
}

/// The value of `e` as a fraction (see `lemma_const_rational_fuel`).
pub open spec fn const_rational(e: Expression, ns: Namespace) -> Eval<(int, int)> {
    eval_rational(e, ns, choose|fuel: nat| !(#[trigger] eval_rational(e, ns, fuel) is Stuck))
}

/// `res` is the outcome `s`: the fraction at its place, or the error it
/// names.
pub open spec fn rational_matches(res: Result<(Loc, Rational), Diagnostic>, s: Eval<(int, int)>) -> bool {
    match s {
        Eval::Stuck => false,
        Eval::Fail(loc, m) => res matches Err(d) && d@ == error_view(loc, m),
        Eval::Done(loc, v) => res matches Ok(p) && p.0 == loc && p.1@ == v,
    }
}

/// More steps through constants give the same fraction.
pub proof fn lemma_eval_rational_more_fuel(e: Expression, ns: Namespace, f1: nat, f2: nat)
    requires
        f1 <= f2,
        !(eval_rational(e, ns, f1) is Stuck),
    ensures
        eval_rational(e, ns, f2) == eval_rational(e, ns, f1),
    decreases f1, e,
{
    match e {
        Expression::Add(_, _, _, l, r) | Expression::Subtract(_, _, _, l, r)
        | Expression::Multiply(_, _, _, l, r) | Expression::Divide(_, _, l, r)
        | Expression::Modulo(_, _, l, r) => {
            if !(eval_rational(*l, ns, f1) is Stuck) {
                lemma_eval_rational_more_fuel(*l, ns, f1, f2);
            }
            if !(eval_rational(*r, ns, f1) is Stuck) {
                lemma_eval_rational_more_fuel(*r, ns, f1, f2);
            }
        },
        Expression::Cast(_, _, x) | Expression::UnaryMinus(_, _, x) => {
            lemma_eval_rational_more_fuel(*x, ns, f1, f2);
        },
        Expression::ConstantVariable(_, _, contract_no, var_no) => {
            if let Some(init) = constant_initializer(ns, contract_no, var_no) {
                lemma_eval_rational_more_fuel(init, ns, (f1 - 1) as nat, (f2 - 1) as nat);
            }
        },
        _ => {},
    }
}

/// The fraction of a constant expression is the outcome of evaluating it
/// with any number of steps through constants that is enough.
pub proof fn lemma_const_rational_fuel(e: Expression, ns: Namespace, fuel: nat)
    requires
        !(eval_rational(e, ns, fuel) is Stuck),
    ensures
        const_rational(e, ns) == eval_rational(e, ns, fuel),
{
    let chosen = choose|f: nat| !(#[trigger] eval_rational(e, ns, f) is Stuck);
    if chosen <= fuel {
        lemma_eval_rational_more_fuel(e, ns, chosen, fuel);
    } else {
        lemma_eval_rational_more_fuel(e, ns, fuel, chosen);
    }
}

fn eval_rational_fueled(expr: &Expression, ns: &Namespace, Ghost(fuel): Ghost<nat>) -> (res: Result<
    (Loc, Rational),
    Diagnostic,
>)
    requires
        !(eval_rational(*expr, *ns, fuel) is Stuck),
    ensures
        rational_matches(res, eval_rational(*expr, *ns, fuel)),
        res matches Ok(p) ==> p.1@.1 != 0,
    decreases fuel, expr,
{
    match expr {
        Expression::Add(loc, _, _, l, r) => {
            let a = eval_rational_fueled(l, ns, Ghost(fuel))?.1;
            let b = eval_rational_fueled(r, ns, Ghost(fuel))?.1;
            Ok((*loc, rat_add(&a, &b)))
        },
        Expression::Subtract(loc, _, _, l, r) => {
            let a = eval_rational_fueled(l, ns, Ghost(fuel))?.1;
            let b = eval_rational_fueled(r, ns, Ghost(fuel))?.1;
            Ok((*loc, rat_sub(&a, &b)))
        },
        Expression::Multiply(loc, _, _, l, r) => {
            let a = eval_rational_fueled(l, ns, Ghost(fuel))?.1;
            let b = eval_rational_fueled(r, ns, Ghost(fuel))?.1;
            Ok((*loc, rat_mul(&a, &b)))
        },
        Expression::Divide(loc, _, l, r) => {
            let divisor = eval_rational_fueled(r, ns, Ghost(fuel))?.1;
            if rat_is_zero(&divisor) {
                Err(Diagnostic::error(*loc, String::from_str("divide by zero")))
            } else {
                let a = eval_rational_fueled(l, ns, Ghost(fuel))?.1;
                Ok((*loc, rat_div(&a, &divisor)))
            }
        },
        Expression::Modulo(loc, _, l, r) => {
            let divisor = eval_rational_fueled(r, ns, Ghost(fuel))?.1;
            if rat_is_zero(&divisor) {
                Err(Diagnostic::error(*loc, String::from_str("divide by zero")))
            } else {
                let a = eval_rational_fueled(l, ns, Ghost(fuel))?.1;
                Ok((*loc, rat_rem(&a, &divisor)))
            }
        },
        Expression::NumberLiteral(loc, _, n) => Ok((*loc, rat_from_integer(n))),
        Expression::RationalNumberLiteral(loc, _, n) => Ok((*loc, n.duplicate())),
        Expression::Cast(loc, _, n) => Ok((*loc, eval_rational_fueled(n, ns, Ghost(fuel))?.1)),
        Expression::UnaryMinus(loc, _, n) => {
            let v = eval_rational_fueled(n, ns, Ghost(fuel))?.1;
            Ok((*loc, rat_neg(&v)))
        },
        Expression::ConstantVariable(_, _, Some(contract_no), var_no) => {
            match &ns.contracts[*contract_no].variables[*var_no].initializer {
                Some(init) => eval_rational_fueled(init, ns, Ghost((fuel - 1) as nat)),
                None => unreached(),
            }
        },
        Expression::ConstantVariable(_, _, None, var_no) => {
            match &ns.constants[*var_no].initializer {
                Some(init) => eval_rational_fueled(init, ns, Ghost((fuel - 1) as nat)),
                None => unreached(),
            }
        },
        _ => Err(
            Diagnostic::error(
                expr.loc(),
                String::from_str("expression not allowed in constant rational number expression"),
            ),
        ),
    }
}

/// Resolves an expression where a compile-time constant fraction is
/// expected: its exact value, at the place of the outermost operation (or of
/// the initializer of a named constant), or the first error that evaluation
/// meets.
pub fn eval_const_rational(expr: &Expression, ns: &Namespace) -> (res: Result<(Loc, Rational), Diagnostic>)
    requires
        rational_evaluates(*expr, *ns),
    ensures
        rational_matches(res, const_rational(*expr, *ns)),
{
    let ghost fuel = choose|fuel: nat| !(#[trigger] eval_rational(*expr, *ns, fuel) is Stuck);
    eval_rational_fueled(expr, ns, Ghost(fuel))
}

/// The expressions that read the same as integers and as fractions: number
/// literals, `+`, `-`, `*`, unary minus, casts, and constants whose
/// initializers are such expressions (reached within `fuel` steps).
pub open spec fn ring_expression(e: Expression, ns: Namespace, fuel: nat) -> bool
    decreases fuel, e,
{
    match e {
        Expression::Add(_, _, _, l, r) => ring_expression(*l, ns, fuel) && ring_expression(*r, ns, fuel),
        Expression::Subtract(_, _, _, l, r) => ring_expression(*l, ns, fuel) && ring_expression(
            *r,
            ns,
            fuel,
        ),
        Expression::Multiply(_, _, _, l, r) => ring_expression(*l, ns, fuel) && ring_expression(
            *r,
            ns,
            fuel,
        ),
        Expression::NumberLiteral(..) => true,
        Expression::Cast(_, _, x) => ring_expression(*x, ns, fuel),
        Expression::UnaryMinus(_, _, x) => ring_expression(*x, ns, fuel),
        Expression::ConstantVariable(_, _, contract_no, var_no) => fuel > 0 && match constant_initializer(
            ns,
            contract_no,
            var_no,
        ) {
            Some(init) => ring_expression(init, ns, (fuel - 1) as nat),
            None => false,
        },
        _ => false,
    }
}

proof fn lemma_canonical_integer(n: int)
    ensures
        canonical(n, 1) == (n, 1int),
{
    let a = abs(n);
    assert(a % 1 == 0);
    assert(gcd(a, 1) == gcd(1, a % 1));
    assert(gcd(1, 0) == 1);
    assert(gcd(a, 1) == 1);
    assert(abs(1) == 1);
    assert(n / 1 == n);
    assert(1int / 1 == 1);
    if n != 0 {
        assert(canonical(n, 1) == (n / 1, 1int / 1));
    }
}

proof fn lemma_integer_fractions(a: int, b: int)
    ensures
        rat_add_spec((a, 1), (b, 1)) == (a + b, 1int),
        rat_sub_spec((a, 1), (b, 1)) == (a - b, 1int),
        rat_mul_spec((a, 1), (b, 1)) == (a * b, 1int),
{
    assert(a * 1 + b * 1 == a + b);
    assert(a * 1 - b * 1 == a - b);
    assert(1int * 1 == 1);
    lemma_canonical_integer(a + b);
    lemma_canonical_integer(a - b);
    lemma_canonical_integer(a * b);
}

/// On literals, `+`, `-`, `*`, unary minus, casts and constants, integer and
/// fraction evaluation agree: both succeed, at the same place, and the
/// fraction is the integer over 1.
pub proof fn lemma_rational_agrees_with_number(e: Expression, ns: Namespace, fuel: nat)
    requires
        ring_expression(e, ns, fuel),
    ensures
        eval_number(e, ns, fuel) is Done,
        eval_rational(e, ns, fuel) == Eval::Done(
            eval_number(e, ns, fuel)->Done_0,
            (eval_number(e, ns, fuel)->Done_1, 1int),
        ),
    decreases fuel, e,
{
    match e {
        Expression::Add(_, _, _, l, r) => {
            lemma_rational_agrees_with_number(*l, ns, fuel);
            lemma_rational_agrees_with_number(*r, ns, fuel);
            let a = eval_number(*l, ns, fuel)->Done_1;
            let b = eval_number(*r, ns, fuel)->Done_1;
            lemma_integer_fractions(a, b);
        },
        Expression::Subtract(_, _, _, l, r) => {
            lemma_rational_agrees_with_number(*l, ns, fuel);
            lemma_rational_agrees_with_number(*r, ns, fuel);
            let a = eval_number(*l, ns, fuel)->Done_1;
            let b = eval_number(*r, ns, fuel)->Done_1;
            lemma_integer_fractions(a, b);
        },
        Expression::Multiply(_, _, _, l, r) => {
            lemma_rational_agrees_with_number(*l, ns, fuel);
            lemma_rational_agrees_with_number(*r, ns, fuel);
            let a = eval_number(*l, ns, fuel)->Done_1;
            let b = eval_number(*r, ns, fuel)->Done_1;
            lemma_integer_fractions(a, b);
        },
        Expression::Cast(_, _, x) | Expression::UnaryMinus(_, _, x) => {
            lemma_rational_agrees_with_number(*x, ns, fuel);
        },
        Expression::ConstantVariable(_, _, contract_no, var_no) => {
            if let Some(init) = constant_initializer(ns, contract_no, var_no) {
                lemma_rational_agrees_with_number(init, ns, (fuel - 1) as nat);
            }
        },
        _ => {},
    }
}

/// The operands of the forms that evaluate the left operand, then the right
/// one: `+ - * & | ^ ** << >>`.
pub open spec fn left_first_operands(e: Expression) -> Option<(Expression, Expression)> {
    match e {
        Expression::Add(_, _, _, l, r) => Some((*l, *r)),
        Expression::Subtract(_, _, _, l, r) => Some((*l, *r)),
        Expression::Multiply(_, _, _, l, r) => Some((*l, *r)),
        Expression::BitwiseAnd(_, _, l, r) => Some((*l, *r)),
        Expression::BitwiseOr(_, _, l, r) => Some((*l, *r)),
        Expression::BitwiseXor(_, _, l, r) => Some((*l, *r)),
        Expression::Power(_, _, _, l, r) => Some((*l, *r)),
        Expression::ShiftLeft(_, _, l, r) => Some((*l, *r)),
        Expression::ShiftRight(_, _, l, r, _) => Some((*l, *r)),
        _ => None,
    }
}

/// The dividend and divisor of `/` and `%`.
pub open spec fn division_operands(e: Expression) -> Option<(Expression, Expression)> {
    match e {
        Expression::Divide(_, _, l, r) => Some((*l, *r)),
        Expression::Modulo(_, _, l, r) => Some((*l, *r)),
        _ => None,
    }
}

/// The operand of a unary form.
pub open spec fn unary_operand(e: Expression) -> Option<Expression> {
    match e {
        Expression::ZeroExt(_, _, x) => Some(*x),
        Expression::SignExt(_, _, x) => Some(*x),
        Expression::Cast(_, _, x) => Some(*x),
        Expression::Not(_, x) => Some(*x),
        Expression::Complement(_, _, x) => Some(*x),
        Expression::UnaryMinus(_, _, x) => Some(*x),
        _ => None,
    }
}

/// An error in an operand is the error of the whole: for the binary forms
/// the left operand's error when it fails, else the right one's; for `/`
/// and `%` the divisor's error, else "divide by zero" when it is zero, else
/// the dividend's error; for a unary form its operand's error.
pub proof fn lemma_number_errors_propagate(e: Expression, ns: Namespace)
    requires
        number_evaluates(e, ns),
    ensures
        left_first_operands(e) matches Some((l, r)) ==> {
            &&& const_number(l, ns) is Fail ==> const_number(e, ns) == const_number(l, ns)
            &&& (const_number(l, ns) is Done && const_number(r, ns) is Fail) ==> const_number(e, ns)
                == const_number(r, ns)
        },
        division_operands(e) matches Some((l, r)) ==> {
            &&& const_number(r, ns) is Fail ==> const_number(e, ns) == const_number(r, ns)
            &&& (const_number(r, ns) is Done && const_number(r, ns)->Done_1 == 0) ==> const_number(
                e,
                ns,
            ) == Eval::<int>::Fail(expr_loc(e), divide_by_zero_text())
            &&& (const_number(r, ns) is Done && const_number(r, ns)->Done_1 != 0 && const_number(
                l,
                ns,
            ) is Fail) ==> const_number(e, ns) == const_number(l, ns)
        },
        unary_operand(e) matches Some(x) ==> (const_number(x, ns) is Fail ==> const_number(e, ns)
            == const_number(x, ns)),
{
    let f = choose|fuel: nat| !(#[trigger] eval_number(e, ns, fuel) is Stuck);
    lemma_const_number_fuel(e, ns, f);
    if let Some((l, r)) = left_first_operands(e) {
        assert(!(eval_number(l, ns, f) is Stuck));
        lemma_const_number_fuel(l, ns, f);
        if !(eval_number(r, ns, f) is Stuck) {
            lemma_const_number_fuel(r, ns, f);
        }
    }
    if let Some((l, r)) = division_operands(e) {
        assert(!(eval_number(r, ns, f) is Stuck));
        lemma_const_number_fuel(r, ns, f);
        if !(eval_number(l, ns, f) is Stuck) {
            lemma_const_number_fuel(l, ns, f);
        }
    }
    if let Some(x) = unary_operand(e) {
        lemma_const_number_fuel(x, ns, f);
    }
}

/// The operands and operator of `+`, `-` and `*` on fractions.
pub open spec fn rational_binary(e: Expression) -> Option<(Expression, Expression, RatOp)> {
    match e {
        Expression::Add(_, _, _, l, r) => Some((*l, *r, RatOp::Add)),
        Expression::Subtract(_, _, _, l, r) => Some((*l, *r, RatOp::Sub)),
        Expression::Multiply(_, _, _, l, r) => Some((*l, *r, RatOp::Mul)),
        _ => None,
    }
}

/// Every fraction that evaluation gives has a nonzero denominator.
pub proof fn lemma_eval_rational_denominator(e: Expression, ns: Namespace, fuel: nat)
    ensures
        eval_rational(e, ns, fuel) is Done ==> eval_rational(e, ns, fuel)->Done_1.1 != 0,
    decreases fuel, e,
{
    match e {
        Expression::Add(_, _, _, l, r) | Expression::Subtract(_, _, _, l, r)
        | Expression::Multiply(_, _, _, l, r) | Expression::Divide(_, _, l, r)
        | Expression::Modulo(_, _, l, r) => {
            lemma_eval_rational_denominator(*l, ns, fuel);
            lemma_eval_rational_denominator(*r, ns, fuel);
            if eval_rational(*l, ns, fuel) is Done && eval_rational(*r, ns, fuel) is Done {
                lemma_fraction_arithmetic_exact(
                    eval_rational(*l, ns, fuel)->Done_1,
                    eval_rational(*r, ns, fuel)->Done_1,
                );
            }
        },
        Expression::Cast(_, _, x) | Expression::UnaryMinus(_, _, x) => {
            lemma_eval_rational_denominator(*x, ns, fuel);
        },
        Expression::ConstantVariable(_, _, contract_no, var_no) => {
            if fuel > 0 {
                if let Some(init) = constant_initializer(ns, contract_no, var_no) {
                    lemma_eval_rational_denominator(init, ns, (fuel - 1) as nat);
                }
            }
        },
        _ => {},
    }
}

/// What each form gives as a fraction, in terms of what its operands give:
/// a number literal is itself over 1, a fraction literal itself; `+ - * / %`
/// combine their operands' fractions (the divisor nonzero), unary minus
/// negates, a cast keeps, and a named constant gives what its initializer
/// gives. Every fraction has a nonzero denominator.
pub proof fn lemma_rational_results(e: Expression, ns: Namespace)
    requires
        rational_evaluates(e, ns),
    ensures
        const_rational(e, ns) is Done ==> const_rational(e, ns)->Done_1.1 != 0,
        rational_binary(e) matches Some((l, r, op)) ==> ((const_rational(l, ns) is Done
            && const_rational(r, ns) is Done) ==> const_rational(e, ns) == Eval::Done(
            expr_loc(e),
            rat_apply(op, const_rational(l, ns)->Done_1, const_rational(r, ns)->Done_1),
        )),
        division_operands(e) matches Some((l, r)) ==> ((const_rational(l, ns) is Done
            && const_rational(r, ns) is Done && const_rational(r, ns)->Done_1.0 != 0)
            ==> const_rational(e, ns) == Eval::Done(
            expr_loc(e),
            if e is Modulo {
                rat_rem_spec(const_rational(l, ns)->Done_1, const_rational(r, ns)->Done_1)
            } else {
                rat_div_spec(const_rational(l, ns)->Done_1, const_rational(r, ns)->Done_1)
            },
        )),
        e matches Expression::NumberLiteral(loc, _, n) ==> const_rational(e, ns) == Eval::Done(
            loc,
            (n@, 1int),
        ),
        e matches Expression::RationalNumberLiteral(loc, _, q) ==> const_rational(e, ns)
            == Eval::Done(loc, q@),
        e matches Expression::UnaryMinus(loc, _, x) ==> (const_rational(*x, ns) is Done
            ==> const_rational(e, ns) == Eval::Done(
            loc,
            (-const_rational(*x, ns)->Done_1.0, const_rational(*x, ns)->Done_1.1),
        )),
        e matches Expression::Cast(loc, _, x) ==> (const_rational(*x, ns) is Done
            ==> const_rational(e, ns) == Eval::Done(loc, const_rational(*x, ns)->Done_1)),
        e matches Expression::ConstantVariable(_, _, contract_no, var_no) ==> (constant_initializer(
            ns,
            contract_no,
            var_no,
        ) matches Some(init) && const_rational(e, ns) == const_rational(init, ns)),
{
    let f = choose|fuel: nat| !(#[trigger] eval_rational(e, ns, fuel) is Stuck);
    lemma_const_rational_fuel(e, ns, f);
    lemma_eval_rational_denominator(e, ns, f);
    match e {
        Expression::Add(_, _, _, l, r) | Expression::Subtract(_, _, _, l, r)
        | Expression::Multiply(_, _, _, l, r) => {
            lemma_const_rational_fuel(*l, ns, f);
            if !(eval_rational(*r, ns, f) is Stuck) {
                lemma_const_rational_fuel(*r, ns, f);
            }
        },
        Expression::Divide(_, _, l, r) | Expression::Modulo(_, _, l, r) => {
            lemma_const_rational_fuel(*r, ns, f);
            if !(eval_rational(*l, ns, f) is Stuck) {
                lemma_const_rational_fuel(*l, ns, f);
            }
        },
        Expression::Cast(_, _, x) | Expression::UnaryMinus(_, _, x) => {
            lemma_const_rational_fuel(*x, ns, f);
        },
        Expression::ConstantVariable(_, _, contract_no, var_no) => {
            let init = constant_initializer(ns, contract_no, var_no)->0;
            lemma_const_rational_fuel(init, ns, (f - 1) as nat);
        },
        _ => {},
    }
}

/// `&`, `|` and `^` of two constants are the and, or and exclusive or of
/// their two's complement bit strings (see `bitwise`), at the operator's
/// place; for instance 5 | 3 is 7 (`lemma_bitwise_examples`).
pub proof fn lemma_number_bitwise(e: Expression, ns: Namespace, fuel: nat)
    ensures
        e matches Expression::BitwiseOr(loc, _, l, r) ==> ((eval_number(*l, ns, fuel) is Done
            && eval_number(*r, ns, fuel) is Done) ==> eval_number(e, ns, fuel) == Eval::Done(
            loc,
            bitwise(BitOp::Or, eval_number(*l, ns, fuel)->Done_1, eval_number(*r, ns, fuel)->Done_1),
        )),
        e matches Expression::BitwiseAnd(loc, _, l, r) ==> ((eval_number(*l, ns, fuel) is Done
            && eval_number(*r, ns, fuel) is Done) ==> eval_number(e, ns, fuel) == Eval::Done(
            loc,
            bitwise(BitOp::And, eval_number(*l, ns, fuel)->Done_1, eval_number(*r, ns, fuel)->Done_1),
        )),
        e matches Expression::BitwiseXor(loc, _, l, r) ==> ((eval_number(*l, ns, fuel) is Done
            && eval_number(*r, ns, fuel) is Done) ==> eval_number(e, ns, fuel) == Eval::Done(
            loc,
            bitwise(BitOp::Xor, eval_number(*l, ns, fuel)->Done_1, eval_number(*r, ns, fuel)->Done_1),
        )),
{
}

} // verus!
