use solang::ast::Type;
use solang::bignum::BigNum;
use solang::text::decimal;

#[test]
fn decimal_text_of_numbers() {
    assert_eq!(BigNum::from_u64(0).to_decimal(), "0");
    assert_eq!(BigNum::from_u64(255).to_decimal(), "255");
    assert_eq!(BigNum::from_u64(u64::MAX).to_decimal(), "18446744073709551615");
    assert_eq!(BigNum::from_i64(-5).to_decimal(), "-5");
    assert_eq!(BigNum::from_i64(-128).to_decimal(), "-128");
    assert_eq!(BigNum::from_i64(i64::MIN).to_decimal(), "-9223372036854775808");
    assert_eq!(BigNum::from_i64(i64::MAX).to_decimal(), "9223372036854775807");
}

#[test]
fn copies_are_equal() {
    let n = BigNum::from_i64(-123456789);
    assert_eq!(n.duplicate().to_decimal(), "-123456789");
}

#[test]
fn type_names() {
    assert_eq!(Type::Int(8).to_string(), "int8");
    assert_eq!(Type::Uint(256).to_string(), "uint256");
    assert_eq!(Type::Bytes(32).to_string(), "bytes32");
    assert_eq!(Type::DynamicBytes.to_string(), "bytes");
    assert_eq!(Type::Bool.to_string(), "bool");
    assert_eq!(Type::Address.to_string(), "address");
}

#[test]
fn decimal_of_u64() {
    assert_eq!(decimal(0), "0");
    assert_eq!(decimal(1234567890), "1234567890");
}
