use solang::ast::{Diagnostics, Expression, Level, Loc, Namespace, Type};
use solang::bignum::BigNum;
use solang::verify_result;

fn lit(ty: Type, n: i64) -> Box<Expression> {
    Box::new(Expression::NumberLiteral(Loc::File(0, 1, 2), ty, BigNum::from_i64(n)))
}

fn big(ty: Type, n: u64) -> Box<Expression> {
    Box::new(Expression::NumberLiteral(Loc::File(0, 1, 2), ty, BigNum::from_u64(n)))
}

fn check(e: &Expression) -> Vec<String> {
    let mut ns = Namespace { contracts: vec![], constants: vec![], diagnostics: Diagnostics::default() };
    let loc = Loc::File(0, 40, 50);
    verify_result(e, &mut ns, &loc);
    ns.diagnostics
        .contents
        .iter()
        .map(|d| {
            assert_eq!(d.loc, loc);
            assert_eq!(d.level, Level::Error);
            d.message.clone()
        })
        .collect()
}

const I8: Type = Type::Int(8);
const U8: Type = Type::Uint(8);

#[test]
fn signed_addition_overflows() {
    let e = Expression::Add(Loc::Codegen, I8, false, lit(I8, 127), lit(I8, 6));
    assert_eq!(check(&e), vec!["value 133 does not fit into type int8.".to_string()]);
}

#[test]
fn unsigned_negative_result() {
    let e = Expression::Subtract(Loc::Codegen, U8, false, lit(U8, 3), lit(U8, 4));
    assert_eq!(
        check(&e),
        vec!["negative value -1 does not fit into type uint8. Cannot implicitly convert signed literal to unsigned type.".to_string()]
    );
}

#[test]
fn multiplication_and_shift_overflow() {
    let e = Expression::Multiply(Loc::Codegen, I8, false, lit(I8, 127), lit(I8, 6));
    assert_eq!(check(&e), vec!["value 762 does not fit into type int8.".to_string()]);
    let e = Expression::ShiftLeft(Loc::Codegen, I8, lit(I8, 1), lit(I8, 7));
    assert_eq!(check(&e), vec!["value 128 does not fit into type int8.".to_string()]);
    let e = Expression::Power(Loc::Codegen, Type::Uint(16), false, lit(U8, 2), lit(U8, 16));
    assert_eq!(check(&e), vec!["value 65536 does not fit into type uint16.".to_string()]);
    let e = Expression::ShiftRight(Loc::Codegen, I8, lit(I8, 1024), lit(I8, 3), true);
    assert_eq!(check(&e), vec!["value 128 does not fit into type int8.".to_string()]);
}

#[test]
fn large_unsigned_literal() {
    let e = big(Type::Uint(32), 4294967296);
    assert_eq!(check(&e), vec!["value 4294967296 does not fit into type uint32.".to_string()]);
    let e = big(Type::Uint(32), 4294967295);
    assert!(check(&e).is_empty());
}

#[test]
fn values_that_fit() {
    assert!(check(&lit(I8, 127)).is_empty());
    assert!(check(&lit(I8, -128)).is_empty());
    assert!(check(&lit(U8, 255)).is_empty());
    assert!(check(&lit(U8, 0)).is_empty());
    assert!(check(&lit(Type::Bool, 1000)).is_empty());
}

#[test]
fn values_just_outside() {
    assert_eq!(check(&lit(I8, 128)), vec!["value 128 does not fit into type int8.".to_string()]);
    assert_eq!(check(&lit(I8, -129)), vec!["value -129 does not fit into type int8.".to_string()]);
    assert_eq!(check(&lit(U8, 256)), vec!["value 256 does not fit into type uint8.".to_string()]);
}

#[test]
fn negative_and_too_wide_unsigned() {
    assert_eq!(
        check(&lit(U8, -300)),
        vec![
            "negative value -300 does not fit into type uint8. Cannot implicitly convert signed literal to unsigned type.".to_string(),
            "value -300 does not fit into type uint8.".to_string(),
        ]
    );
}

#[test]
fn partly_constant_expression_is_checked_twice() {
    // `126 + 7 + input`: the constant part is recorded once when the whole
    // sum does not fold, and once more when the walk reaches it
    let inner = Expression::Add(Loc::Codegen, I8, false, lit(I8, 126), lit(I8, 7));
    let e = Expression::Add(
        Loc::Codegen,
        I8,
        false,
        Box::new(inner),
        Box::new(Expression::Variable(Loc::Codegen, I8, 0)),
    );
    assert_eq!(
        check(&e),
        vec![
            "value 133 does not fit into type int8.".to_string(),
            "value 133 does not fit into type int8.".to_string(),
        ]
    );
}

#[test]
fn walk_goes_through_non_folding_operators() {
    // (1 << 7) as an argument of a cast and a division
    let shifted = Expression::ShiftLeft(Loc::Codegen, I8, lit(I8, 1), lit(I8, 7));
    let e = Expression::Divide(
        Loc::Codegen,
        I8,
        Box::new(Expression::Cast(Loc::Codegen, I8, Box::new(shifted))),
        lit(U8, 300),
    );
    assert_eq!(
        check(&e),
        vec![
            "value 128 does not fit into type int8.".to_string(),
            "value 300 does not fit into type uint8.".to_string(),
        ]
    );
}

#[test]
fn diagnostics_are_appended() {
    let mut ns = Namespace { contracts: vec![], constants: vec![], diagnostics: Diagnostics::default() };
    let loc = Loc::File(1, 2, 3);
    verify_result(&lit(I8, 200), &mut ns, &loc);
    verify_result(&lit(U8, -1), &mut ns, &loc);
    assert_eq!(ns.diagnostics.len(), 2);
    assert_eq!(ns.diagnostics.contents[0].message, "value 200 does not fit into type int8.");
    assert!(ns.diagnostics.contents[1].message.starts_with("negative value -1"));
}
