use solang::ast::{Contract, Diagnostics, Expression, Level, Loc, Namespace, Type, Variable};
use solang::bignum::{BigNum, Rational};
use solang::{eval_const_number, eval_const_rational};

fn at(n: usize) -> Loc {
    Loc::File(0, n, n + 1)
}

fn empty_ns() -> Namespace {
    Namespace { contracts: vec![], constants: vec![], diagnostics: Diagnostics::default() }
}

fn num(n: i64) -> Box<Expression> {
    Box::new(Expression::NumberLiteral(at(100), Type::Int(256), BigNum::from_i64(n)))
}

fn frac(n: i64, d: i64) -> Box<Expression> {
    Box::new(Expression::RationalNumberLiteral(
        at(200),
        Type::Rational,
        Rational { numer: BigNum::from_i64(n), denom: BigNum::from_i64(d) },
    ))
}

fn number_of(e: &Expression, ns: &Namespace) -> (Loc, String) {
    let (loc, v) = eval_const_number(e, ns).expect("a value");
    (loc, v.to_decimal())
}

fn number_error(e: &Expression, ns: &Namespace) -> (Loc, String) {
    let d = eval_const_number(e, ns).expect_err("an error");
    assert_eq!(d.level, Level::Error);
    (d.loc, d.message)
}

fn rational_of(e: &Expression, ns: &Namespace) -> (String, String) {
    let (_, r) = eval_const_rational(e, ns).expect("a value");
    (r.numer.to_decimal(), r.denom.to_decimal())
}

fn rational_error(e: &Expression, ns: &Namespace) -> (Loc, String) {
    let d = eval_const_rational(e, ns).expect_err("an error");
    assert_eq!(d.level, Level::Error);
    (d.loc, d.message)
}

const T: Type = Type::Int(256);

#[test]
fn number_add_sub_mul() {
    let ns = empty_ns();
    let e = Expression::Add(at(1), T, false, num(1), num(2));
    assert_eq!(number_of(&e, &ns), (at(1), "3".to_string()));
    let e = Expression::Subtract(at(2), T, false, num(3), num(10));
    assert_eq!(number_of(&e, &ns), (at(2), "-7".to_string()));
    let e = Expression::Multiply(at(3), T, false, num(-4), num(250));
    assert_eq!(number_of(&e, &ns), (at(3), "-1000".to_string()));
}

#[test]
fn number_division_truncates() {
    let ns = empty_ns();
    let e = Expression::Divide(at(1), T, num(-7), num(2));
    assert_eq!(number_of(&e, &ns), (at(1), "-3".to_string()));
    let e = Expression::Modulo(at(2), T, num(-7), num(2));
    assert_eq!(number_of(&e, &ns), (at(2), "-1".to_string()));
    let e = Expression::Modulo(at(3), T, num(7), num(-2));
    assert_eq!(number_of(&e, &ns), (at(3), "1".to_string()));
}

#[test]
fn number_divide_by_zero() {
    let ns = empty_ns();
    let e = Expression::Divide(at(4), T, num(1), num(0));
    assert_eq!(number_error(&e, &ns), (at(4), "divide by zero".to_string()));
    let e = Expression::Modulo(at(5), T, num(1), num(0));
    assert_eq!(number_error(&e, &ns), (at(5), "divide by zero".to_string()));
    // the divisor is looked at before the dividend
    let e = Expression::Divide(at(6), T, Box::new(Expression::BoolLiteral(at(7), true)), num(0));
    assert_eq!(number_error(&e, &ns), (at(6), "divide by zero".to_string()));
}

#[test]
fn number_bitwise() {
    let ns = empty_ns();
    let e = Expression::BitwiseAnd(at(1), T, num(-8), num(7));
    assert_eq!(number_of(&e, &ns).1, "0");
    let e = Expression::BitwiseAnd(at(1), T, num(-1), num(12));
    assert_eq!(number_of(&e, &ns).1, "12");
    let e = Expression::BitwiseOr(at(1), T, num(-8), num(3));
    assert_eq!(number_of(&e, &ns).1, "-5");
    let e = Expression::BitwiseXor(at(1), T, num(-8), num(-1));
    assert_eq!(number_of(&e, &ns).1, "7");
    let e = Expression::BitwiseXor(at(1), T, num(5), num(3));
    assert_eq!(number_of(&e, &ns).1, "6");
}

#[test]
fn number_power() {
    let ns = empty_ns();
    let e = Expression::Power(at(1), T, false, num(2), num(10));
    assert_eq!(number_of(&e, &ns), (at(1), "1024".to_string()));
    let e = Expression::Power(at(2), T, false, num(-3), num(3));
    assert_eq!(number_of(&e, &ns), (at(2), "-27".to_string()));
    let e = Expression::Power(at(3), T, false, num(12345), num(0));
    assert_eq!(number_of(&e, &ns), (at(3), "1".to_string()));
    let e = Expression::Power(at(4), T, false, num(2), num(100));
    assert_eq!(number_of(&e, &ns).1, "1267650600228229401496703205376");
}

#[test]
fn number_negative_exponent() {
    let ns = empty_ns();
    let e = Expression::Power(at(5), T, false, num(2), num(-1));
    assert_eq!(
        number_error(&e, &ns),
        (at(5), "power cannot take negative number as exponent".to_string())
    );
}

#[test]
fn number_shifts() {
    let ns = empty_ns();
    let e = Expression::ShiftLeft(at(1), T, num(1), num(4));
    assert_eq!(number_of(&e, &ns), (at(1), "16".to_string()));
    let e = Expression::ShiftLeft(at(1), T, num(-3), num(2));
    assert_eq!(number_of(&e, &ns).1, "-12");
    let e = Expression::ShiftRight(at(2), T, num(-17), num(2), true);
    assert_eq!(number_of(&e, &ns), (at(2), "-5".to_string()));
    let e = Expression::ShiftRight(at(2), T, num(17), num(2), false);
    assert_eq!(number_of(&e, &ns).1, "4");
}

#[test]
fn number_shift_by_negative() {
    let ns = empty_ns();
    let e = Expression::ShiftLeft(at(3), T, num(1), num(-1));
    assert_eq!(number_error(&e, &ns), (at(3), "cannot left shift by -1".to_string()));
    let e = Expression::ShiftRight(at(4), T, num(1), num(-2), true);
    assert_eq!(number_error(&e, &ns), (at(4), "cannot right shift by -2".to_string()));
}

#[test]
fn number_unary() {
    let ns = empty_ns();
    let e = Expression::Not(at(1), num(5));
    assert_eq!(number_of(&e, &ns), (at(1), "-6".to_string()));
    let e = Expression::Complement(at(2), T, num(-1));
    assert_eq!(number_of(&e, &ns), (at(2), "0".to_string()));
    let e = Expression::UnaryMinus(at(3), T, num(9));
    assert_eq!(number_of(&e, &ns), (at(3), "-9".to_string()));
    let e = Expression::Cast(at(4), Type::Uint(8), num(300));
    assert_eq!(number_of(&e, &ns), (at(4), "300".to_string()));
    let e = Expression::ZeroExt(at(5), Type::Uint(16), num(7));
    assert_eq!(number_of(&e, &ns), (at(5), "7".to_string()));
    let e = Expression::SignExt(at(6), Type::Int(16), num(-7));
    assert_eq!(number_of(&e, &ns), (at(6), "-7".to_string()));
}

#[test]
fn number_literal_keeps_its_place() {
    let ns = empty_ns();
    assert_eq!(number_of(&num(42), &ns), (at(100), "42".to_string()));
}

#[test]
fn number_not_allowed() {
    let ns = empty_ns();
    let e = Expression::BoolLiteral(at(9), true);
    assert_eq!(
        number_error(&e, &ns),
        (at(9), "expression not allowed in constant number expression".to_string())
    );
    let e = Expression::Add(at(1), T, false, Box::new(Expression::Variable(at(8), T, 0)), num(0));
    assert_eq!(
        number_error(&e, &ns),
        (at(8), "expression not allowed in constant number expression".to_string())
    );
}

#[test]
fn number_constants() {
    let ns = Namespace {
        contracts: vec![Contract {
            variables: vec![
                Variable { initializer: None },
                Variable {
                    initializer: Some(Expression::Add(at(30), T, false, num(40), num(2))),
                },
            ],
        }],
        constants: vec![Variable {
            initializer: Some(Expression::Multiply(
                at(20),
                T,
                false,
                Box::new(Expression::ConstantVariable(at(21), T, Some(0), 1)),
                num(2),
            )),
        }],
        diagnostics: Diagnostics::default(),
    };
    let e = Expression::ConstantVariable(at(1), T, Some(0), 1);
    assert_eq!(number_of(&e, &ns), (at(30), "42".to_string()));
    let e = Expression::ConstantVariable(at(2), T, None, 0);
    assert_eq!(number_of(&e, &ns), (at(20), "84".to_string()));
}

#[test]
fn rational_arithmetic_is_exact() {
    let ns = empty_ns();
    let e = Expression::Add(at(1), Type::Rational, false, frac(1, 2), frac(1, 3));
    assert_eq!(rational_of(&e, &ns), ("5".to_string(), "6".to_string()));
    let e = Expression::Subtract(at(1), Type::Rational, false, frac(1, 2), frac(1, 2));
    assert_eq!(rational_of(&e, &ns), ("0".to_string(), "1".to_string()));
    let e = Expression::Multiply(at(1), Type::Rational, false, frac(2, 3), frac(3, 4));
    assert_eq!(rational_of(&e, &ns), ("1".to_string(), "2".to_string()));
    let e = Expression::Divide(at(1), Type::Rational, frac(1, 2), frac(-3, 4));
    assert_eq!(rational_of(&e, &ns), ("-2".to_string(), "3".to_string()));
    let e = Expression::Modulo(at(1), Type::Rational, frac(7, 2), num(1));
    assert_eq!(rational_of(&e, &ns), ("1".to_string(), "2".to_string()));
    let e = Expression::Modulo(at(1), Type::Rational, frac(-7, 2), num(2));
    assert_eq!(rational_of(&e, &ns), ("-3".to_string(), "2".to_string()));
    let e = Expression::UnaryMinus(at(1), Type::Rational, frac(1, 2));
    assert_eq!(rational_of(&e, &ns), ("-1".to_string(), "2".to_string()));
}

#[test]
fn rational_of_integer_expression() {
    let ns = empty_ns();
    let e = Expression::Add(
        at(1),
        T,
        false,
        Box::new(Expression::Multiply(at(2), T, false, num(2), num(3))),
        num(1),
    );
    assert_eq!(rational_of(&e, &ns), ("7".to_string(), "1".to_string()));
    assert_eq!(number_of(&e, &ns).1, "7");
    let e = Expression::Cast(at(3), Type::Rational, num(5));
    assert_eq!(rational_of(&e, &ns), ("5".to_string(), "1".to_string()));
}

#[test]
fn rational_errors() {
    let ns = empty_ns();
    let e = Expression::Divide(at(4), Type::Rational, frac(1, 2), num(0));
    assert_eq!(rational_error(&e, &ns), (at(4), "divide by zero".to_string()));
    let e = Expression::Modulo(at(5), Type::Rational, frac(1, 2), frac(0, 1));
    assert_eq!(rational_error(&e, &ns), (at(5), "divide by zero".to_string()));
    let e = Expression::BitwiseAnd(at(6), T, num(1), num(1));
    assert_eq!(
        rational_error(&e, &ns),
        (at(6), "expression not allowed in constant rational number expression".to_string())
    );
}

#[test]
fn rational_constants() {
    let ns = Namespace {
        contracts: vec![],
        constants: vec![Variable { initializer: Some(*frac(3, 8)) }],
        diagnostics: Diagnostics::default(),
    };
    let e = Expression::Add(
        at(1),
        Type::Rational,
        false,
        Box::new(Expression::ConstantVariable(at(2), Type::Rational, None, 0)),
        frac(1, 8),
    );
    assert_eq!(rational_of(&e, &ns), ("1".to_string(), "2".to_string()));
}

#[test]
fn number_errors_come_from_the_first_failing_operand() {
    let ns = empty_ns();
    let bad = || Box::new(Expression::BoolLiteral(at(7), true));
    let zero_div = || Box::new(Expression::Divide(at(8), T, num(1), num(0)));
    let e = Expression::Add(at(1), T, false, bad(), zero_div());
    assert_eq!(
        number_error(&e, &ns),
        (at(7), "expression not allowed in constant number expression".to_string())
    );
    let e = Expression::Power(at(2), T, false, num(2), zero_div());
    assert_eq!(number_error(&e, &ns), (at(8), "divide by zero".to_string()));
    let e = Expression::Modulo(at(3), T, bad(), zero_div());
    assert_eq!(number_error(&e, &ns), (at(8), "divide by zero".to_string()));
    let e = Expression::Modulo(at(3), T, bad(), num(5));
    assert_eq!(
        number_error(&e, &ns),
        (at(7), "expression not allowed in constant number expression".to_string())
    );
    let e = Expression::UnaryMinus(at(4), T, zero_div());
    assert_eq!(number_error(&e, &ns), (at(8), "divide by zero".to_string()));
}

#[test]
fn rational_results_have_positive_denominators() {
    let ns = empty_ns();
    let e = Expression::Divide(at(1), Type::Rational, frac(3, 4), frac(-9, 8));
    assert_eq!(rational_of(&e, &ns), ("-2".to_string(), "3".to_string()));
    let e = Expression::Subtract(at(1), Type::Rational, false, frac(1, 6), frac(2, 3));
    assert_eq!(rational_of(&e, &ns), ("-1".to_string(), "2".to_string()));
}
