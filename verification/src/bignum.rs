//! Arbitrary precision integers and rationals. The arithmetic is done by
//! `num_bigint` and `num_rational`; values cross into the verified code as
//! two's complement bytes, and every operation states its result over `int`.
use vstd::prelude::*;
use vstd::arithmetic::power::pow;
use vstd::arithmetic::power2::{lemma_pow2_adds, pow2};
use vstd::arithmetic::div_mod::{lemma_fundamental_div_mod, lemma_mod_multiples_basic};
use num_bigint::BigInt;
use num_rational::BigRational;
use num_traits::{One, Pow, ToPrimitive, Zero};

verus! {

/// The unsigned value of little-endian base-256 digits.
pub open spec fn le_value(bytes: Seq<u8>) -> nat
    decreases bytes.len(),
{
    if bytes.len() == 0 {
        0
    } else {
        bytes[0] as nat + 256 * le_value(bytes.drop_first())
    }
}

/// The value of little-endian two's complement bytes; no bytes at all is zero.
pub open spec fn twos_value(bytes: Seq<u8>) -> int {
    if bytes.len() > 0 && bytes.last() >= 128 {
        le_value(bytes) - pow2(8 * bytes.len())
    } else {
        le_value(bytes) as int
    }
}

pub open spec fn abs(x: int) -> nat {
    if x < 0 {
        (-x) as nat
    } else {
        x as nat
    }
}

/// Integer division rounding toward zero, as Rust's `/` on integers.
pub open spec fn trunc_div(x: int, y: int) -> int {
    let q = abs(x) / abs(y);
    if (x < 0) == (y < 0) {
        q as int
    } else {
        -q
    }
}

/// The remainder that goes with `trunc_div`; it has the sign of `x`.
pub open spec fn trunc_rem(x: int, y: int) -> int {
    x - y * trunc_div(x, y)
}

/// The three bitwise operators.
pub enum BitOp {
    And,
    Or,
    Xor,
}

pub open spec fn bit_apply(op: BitOp, x: bool, y: bool) -> bool {
    match op {
        BitOp::And => x && y,
        BitOp::Or => x || y,
        BitOp::Xor => x != y,
    }
}

/// A bitwise operator on integers read as infinite two's complement bit
/// strings: 0 and -1 are the all-zero and all-one strings.
pub open spec fn bitwise(op: BitOp, a: int, b: int) -> int
    decreases abs(a) + abs(b),
{
    if (a == 0 || a == -1) && (b == 0 || b == -1) {
        if bit_apply(op, a == -1, b == -1) {
            -1
        } else {
            0
        }
    } else {
        let low = if bit_apply(op, a % 2 == 1, b % 2 == 1) {
            1int
        } else {
            0int
        };
        2 * bitwise(op, a / 2, b / 2) + low
    }
}

/// Or and and of two integers add up to their sum, and so do exclusive or
/// and twice the and: each bit position counts once for a one in one
/// operand, twice for a one in both.
pub proof fn lemma_bitwise_sums(a: int, b: int)
    ensures
        bitwise(BitOp::Or, a, b) + bitwise(BitOp::And, a, b) == a + b,
        bitwise(BitOp::Xor, a, b) + 2 * bitwise(BitOp::And, a, b) == a + b,
    decreases abs(a) + abs(b),
{
    if !((a == 0 || a == -1) && (b == 0 || b == -1)) {
        lemma_bitwise_sums(a / 2, b / 2);
    }
}

/// The and of two non-negative integers lies between zero and each of them;
/// so their or is at least each of them, and their exclusive or at most
/// their or.
pub proof fn lemma_bitwise_bounds(a: int, b: int)
    requires
        a >= 0,
        b >= 0,
    ensures
        0 <= bitwise(BitOp::And, a, b) <= a,
        bitwise(BitOp::And, a, b) <= b,
        bitwise(BitOp::Or, a, b) >= a,
        bitwise(BitOp::Or, a, b) >= b,
        0 <= bitwise(BitOp::Xor, a, b) <= bitwise(BitOp::Or, a, b),
    decreases a + b,
{
    if !(a == 0 && b == 0) {
        lemma_bitwise_bounds(a / 2, b / 2);
    }
    lemma_bitwise_sums(a, b);
}

/// On small numbers: 5 | 3 is 7, 5 & 3 is 1, 5 ^ 3 is 6, and -8 | 3 is -5.
pub proof fn lemma_bitwise_examples()
    ensures
        bitwise(BitOp::Or, 5, 3) == 7,
        bitwise(BitOp::And, 5, 3) == 1,
        bitwise(BitOp::Xor, 5, 3) == 6,
        bitwise(BitOp::Or, -8, 3) == -5,
{
    reveal_with_fuel(bitwise, 5);
}

/// The character of a decimal digit.
pub open spec fn digit_char(d: nat) -> char {
    (48 + d) as char
}

/// The decimal digits of a natural number, without leading zeros.
pub open spec fn nat_decimal(n: nat) -> Seq<char>
    decreases n,
{
    if n < 10 {
        seq![digit_char(n)]
    } else {
        nat_decimal(n / 10).push(digit_char(n % 10))
    }
}

/// The decimal text of an integer, with a leading `-` when it is negative.
pub open spec fn int_decimal(v: int) -> Seq<char> {
    if v < 0 {
        seq!['-'] + nat_decimal(abs(v))
    } else {
        nat_decimal(abs(v))
    }
}

/// The number of bits needed to write `n` in binary; 0 for 0.
pub open spec fn bit_length(n: nat) -> nat
    decreases n,
{
    if n == 0 {
        0
    } else {
        1 + bit_length(n / 2)
    }
}

/// The fewest bytes that hold `v` in two's complement (at least one).
pub open spec fn signed_byte_len(v: int) -> nat
    decreases abs(v),
{
    if -128 <= v < 128 {
        1
    } else {
        1 + signed_byte_len(v / 256)
    }
}

/// The sign of a number.
#[derive(PartialEq, Eq, Structural, Clone, Copy, Debug)]
pub enum Sign {
    Minus,
    NoSign,
    Plus,
}

pub open spec fn sign_of(v: int) -> Sign {
    if v < 0 {
        Sign::Minus
    } else if v == 0 {
        Sign::NoSign
    } else {
        Sign::Plus
    }
}

/// An arbitrary precision integer, held as little-endian two's complement
/// bytes: the form in which it is exchanged with `num_bigint::BigInt`.
#[derive(Debug)]
pub struct BigNum {
    pub bytes: Vec<u8>,
}

impl View for BigNum {
    type V = int;

    open spec fn view(&self) -> int {
        twos_value(self.bytes@)
    }
}

/// A fraction of two arbitrary precision integers, as `num_rational`'s
/// `BigRational` holds it; its view is the pair (numerator, denominator).
#[derive(Debug)]
pub struct Rational {
    pub numer: BigNum,
    pub denom: BigNum,
}

impl View for Rational {
    type V = (int, int);

    open spec fn view(&self) -> (int, int) {
        (self.numer@, self.denom@)
    }
}

/// Greatest common divisor, by Euclid's algorithm.
pub open spec fn gcd(a: nat, b: nat) -> nat
    decreases b,
{
    if b == 0 {
        a
    } else {
        gcd(b, a % b)
    }
}

/// The fraction n/d in lowest terms with a positive denominator; zero is 0/1.
pub open spec fn canonical(n: int, d: int) -> (int, int) {
    if n == 0 {
        (0, 1)
    } else {
        let g = gcd(abs(n), abs(d)) as int;
        if d > 0 {
            (n / g, d / g)
        } else {
            ((-n) / g, (-d) / g)
        }
    }
}

pub open spec fn rat_add_spec(a: (int, int), b: (int, int)) -> (int, int) {
    canonical(a.0 * b.1 + b.0 * a.1, a.1 * b.1)
}

pub open spec fn rat_sub_spec(a: (int, int), b: (int, int)) -> (int, int) {
    canonical(a.0 * b.1 - b.0 * a.1, a.1 * b.1)
}

pub open spec fn rat_mul_spec(a: (int, int), b: (int, int)) -> (int, int) {
    canonical(a.0 * b.0, a.1 * b.1)
}

pub open spec fn rat_div_spec(a: (int, int), b: (int, int)) -> (int, int) {
    canonical(a.0 * b.1, a.1 * b.0)
}

/// a - b * q where q is the quotient a / b rounded toward zero.
pub open spec fn rat_rem_spec(a: (int, int), b: (int, int)) -> (int, int) {
    let q = trunc_div(a.0 * b.1, a.1 * b.0);
    canonical(a.0 * b.1 - q * b.0 * a.1, a.1 * b.1)
}

proof fn lemma_gcd_divides(a: nat, b: nat)
    requires
        a > 0 || b > 0,
    ensures
        gcd(a, b) > 0,
        a % gcd(a, b) == 0,
        b % gcd(a, b) == 0,
    decreases b,
{
    if b > 0 {
        let r = (a % b) as nat;
        lemma_gcd_divides(b, r);
        let g = gcd(b, r);
        assert(gcd(a, b) == g);
        lemma_fundamental_div_mod(a as int, b as int);
        lemma_fundamental_div_mod(b as int, g as int);
        lemma_fundamental_div_mod(r as int, g as int);
        let k = (b as int / g as int) * (a as int / b as int) + (r as int / g as int);
        assert(a == k * g) by (nonlinear_arith)
            requires
                a == b * (a as int / b as int) + r,
                b == g * (b as int / g as int),
                r == g * (r as int / g as int),
                k == (b as int / g as int) * (a as int / b as int) + (r as int / g as int),
        ;
        lemma_mod_multiples_basic(k, g as int);
    }
}

proof fn lemma_signed_multiple(x: int, g: int)
    requires
        g > 0,
        (abs(x) as int) % g == 0,
    ensures
        x == g * (x / g),
{
    lemma_fundamental_div_mod(abs(x) as int, g);
    let k = abs(x) as int / g;
    if x < 0 {
        assert(x == (-k) * g) by (nonlinear_arith)
            requires
                -x == g * k,
        ;
        lemma_mod_multiples_basic(-k, g);
    } else {
        assert(x == k * g) by (nonlinear_arith)
            requires
                x == g * k,
        ;
        lemma_mod_multiples_basic(k, g);
    }
    lemma_fundamental_div_mod(x, g);
}

/// `canonical(n, d)` is the fraction n/d itself: its denominator is
/// positive, and crosswise the products agree.
pub proof fn lemma_canonical_exact(n: int, d: int)
    requires
        d != 0,
    ensures
        canonical(n, d).1 > 0,
        canonical(n, d).0 * d == n * canonical(n, d).1,
{
    if n != 0 {
        let g = gcd(abs(n), abs(d));
        lemma_gcd_divides(abs(n), abs(d));
        lemma_signed_multiple(n, g as int);
        lemma_signed_multiple(d, g as int);
        lemma_signed_multiple(-n, g as int);
        lemma_signed_multiple(-d, g as int);
        let gi = g as int;
        if d > 0 {
            assert(d / gi > 0) by (nonlinear_arith)
                requires
                    d == gi * (d / gi),
                    d > 0,
                    gi > 0,
            ;
            assert((n / gi) * d == n * (d / gi)) by (nonlinear_arith)
                requires
                    n == gi * (n / gi),
                    d == gi * (d / gi),
            ;
        } else {
            assert((-d) / gi > 0) by (nonlinear_arith)
                requires
                    -d == gi * ((-d) / gi),
                    -d > 0,
                    gi > 0,
            ;
            assert(((-n) / gi) * d == n * ((-d) / gi)) by (nonlinear_arith)
                requires
                    -n == gi * ((-n) / gi),
                    -d == gi * ((-d) / gi),
            ;
        }
    }
}

/// Fraction arithmetic is exact: for fractions with nonzero denominators,
/// the sum, difference, product, quotient and remainder each have a positive
/// denominator and equal, crosswise, the fraction that the school formula
/// gives.
pub proof fn lemma_fraction_arithmetic_exact(a: (int, int), b: (int, int))
    requires
        a.1 != 0,
        b.1 != 0,
    ensures
        rat_add_spec(a, b).1 > 0,
        rat_add_spec(a, b).0 * (a.1 * b.1) == (a.0 * b.1 + b.0 * a.1) * rat_add_spec(a, b).1,
        rat_sub_spec(a, b).1 > 0,
        rat_sub_spec(a, b).0 * (a.1 * b.1) == (a.0 * b.1 - b.0 * a.1) * rat_sub_spec(a, b).1,
        rat_mul_spec(a, b).1 > 0,
        rat_mul_spec(a, b).0 * (a.1 * b.1) == (a.0 * b.0) * rat_mul_spec(a, b).1,
        b.0 != 0 ==> rat_div_spec(a, b).1 > 0 && rat_div_spec(a, b).0 * (a.1 * b.0) == (a.0
            * b.1) * rat_div_spec(a, b).1,
        b.0 != 0 ==> rat_rem_spec(a, b).1 > 0 && rat_rem_spec(a, b).0 * (a.1 * b.1) == (a.0 * b.1
            - trunc_div(a.0 * b.1, a.1 * b.0) * b.0 * a.1) * rat_rem_spec(a, b).1,
{
    assert(a.1 * b.1 != 0) by (nonlinear_arith)
        requires
            a.1 != 0,
            b.1 != 0,
    ;
    lemma_canonical_exact(a.0 * b.1 + b.0 * a.1, a.1 * b.1);
    lemma_canonical_exact(a.0 * b.1 - b.0 * a.1, a.1 * b.1);
    lemma_canonical_exact(a.0 * b.0, a.1 * b.1);
    if b.0 != 0 {
        assert(a.1 * b.0 != 0) by (nonlinear_arith)
            requires
                a.1 != 0,
                b.0 != 0,
        ;
        lemma_canonical_exact(a.0 * b.1, a.1 * b.0);
        lemma_canonical_exact(
            a.0 * b.1 - trunc_div(a.0 * b.1, a.1 * b.0) * b.0 * a.1,
            a.1 * b.1,
        );
    }
}

impl BigNum {
    /// A copy of the number.
    pub fn duplicate(&self) -> (r: BigNum)
        ensures
            r@ == self@,
            r.bytes@ == self.bytes@,
    {
        let mut bytes: Vec<u8> = Vec::new();
        let mut i: usize = 0;
        while i < self.bytes.len()
            invariant
                i <= self.bytes@.len(),
                bytes@ == self.bytes@.subrange(0, i as int),
            decreases self.bytes@.len() - i,
        {
            bytes.push(self.bytes[i]);
            i = i + 1;
        }
        assert(bytes@ == self.bytes@);
        BigNum { bytes }
    }
}

proof fn lemma_le_value_push(b: Seq<u8>, x: u8)
    ensures
        le_value(b.push(x)) == le_value(b) + x * pow2(8 * b.len()),
    decreases b.len(),
{
    if b.len() == 0 {
        assert(b.push(x).drop_first() =~= Seq::<u8>::empty());
        vstd::arithmetic::power2::lemma2_to64();
        assert(le_value(b.push(x)) == x as nat + 256 * le_value(Seq::<u8>::empty()));
    } else {
        assert(b.push(x).drop_first() =~= b.drop_first().push(x));
        lemma_le_value_push(b.drop_first(), x);
        let p = pow2((8 * (b.len() - 1)) as nat);
        lemma_pow2_adds(8, (8 * (b.len() - 1)) as nat);
        vstd::arithmetic::power2::lemma2_to64();
        assert(pow2(8 * b.len()) == 256 * p);
        assert(256 * (le_value(b.drop_first()) + x * p) == 256 * le_value(b.drop_first()) + x * (256 * p))
            by (nonlinear_arith);
        assert(b.push(x)[0] == b[0]);
        assert(le_value(b.push(x)) == b[0] as nat + 256 * le_value(b.drop_first().push(x)));
        assert(le_value(b) == b[0] as nat + 256 * le_value(b.drop_first()));
    }
}

impl BigNum {
    /// The number `v`.
    pub fn from_u64(v: u64) -> (r: BigNum)
        ensures
            r@ == v,
    {
        let mut bytes: Vec<u8> = Vec::new();
        let mut rest: u64 = v;
        proof {
            vstd::arithmetic::power2::lemma2_to64();
            vstd::arithmetic::power2::lemma2_to64_rest();
            assert(bytes@.len() == 0);
            assert(le_value(bytes@) == 0);
            assert(pow2(0) == 1);
            assert(8 * bytes@.len() == 0);
            assert(pow2(8 * bytes@.len()) == 1);
            assert(rest * pow2(8 * bytes@.len()) == rest);
        }
        while rest > 0
            invariant
                le_value(bytes@) + rest * pow2(8 * bytes@.len()) == v,
                bytes@.len() <= 8,
                bytes@.len() == 8 ==> rest == 0,
                rest < pow2((64 - 8 * bytes@.len()) as nat),
            decreases rest,
        {
            let ghost before = bytes@;
            proof {
                lemma_le_value_push(before, (rest % 256) as u8);
                lemma_pow2_adds(8, (8 * before.len()) as nat);
                lemma_pow2_adds(8, (56 - 8 * before.len()) as nat);
                vstd::arithmetic::power2::lemma2_to64();
                let p = pow2(8 * before.len());
                assert(rest * p == (rest % 256) * p + (rest / 256) * (256 * p)) by (nonlinear_arith)
                    requires
                        rest == 256 * (rest / 256) + rest % 256;
                assert(rest / 256 < pow2((56 - 8 * before.len()) as nat));
            }
            bytes.push((rest % 256) as u8);
            rest = rest / 256;
        }
        let ghost digits = bytes@;
        proof {
            lemma_le_value_push(digits, 0);
        }
        bytes.push(0);
        BigNum { bytes }
    }

    /// The number `v`.
    pub fn from_i64(v: i64) -> (r: BigNum)
        ensures
            r@ == v,
    {
        if v >= 0 {
            BigNum::from_u64(v as u64)
        } else {
            let magnitude: u64 = ((-(v + 1)) as u64) + 1;
            big_neg(&BigNum::from_u64(magnitude))
        }
    }

    /// The decimal text of the number, with a leading `-` when negative.
    pub fn to_decimal(&self) -> (r: String)
        ensures
            r@ == int_decimal(self@),
    {
        big_to_decimal(self)
    }
}

impl Rational {
    /// A copy of the fraction.
    pub fn duplicate(&self) -> (r: Rational)
        ensures
            r@ == self@,
    {
        Rational { numer: self.numer.duplicate(), denom: self.denom.duplicate() }
    }
}

/// `BigInt + BigInt` of num-bigint: the exact sum.
#[verifier::external_body]
pub(crate) fn big_add(a: &BigNum, b: &BigNum) -> (r: BigNum)
    ensures
        r@ == a@ + b@,
{
    let x = BigInt::from_signed_bytes_le(&a.bytes) + BigInt::from_signed_bytes_le(&b.bytes);
    BigNum { bytes: x.to_signed_bytes_le() }
}

/// `BigInt - BigInt` of num-bigint: the exact difference.
#[verifier::external_body]
pub(crate) fn big_sub(a: &BigNum, b: &BigNum) -> (r: BigNum)
    ensures
        r@ == a@ - b@,
{
    let x = BigInt::from_signed_bytes_le(&a.bytes) - BigInt::from_signed_bytes_le(&b.bytes);
    BigNum { bytes: x.to_signed_bytes_le() }
}

/// `BigInt * BigInt` of num-bigint: the exact product.
#[verifier::external_body]
pub(crate) fn big_mul(a: &BigNum, b: &BigNum) -> (r: BigNum)
    ensures
        r@ == a@ * b@,
{
    let x = BigInt::from_signed_bytes_le(&a.bytes) * BigInt::from_signed_bytes_le(&b.bytes);
    BigNum { bytes: x.to_signed_bytes_le() }
}

/// `BigInt / BigInt` of num-bigint: the quotient rounded toward zero. It
/// panics on a zero divisor, which `requires` leaves out.
#[verifier::external_body]
pub(crate) fn big_div(a: &BigNum, b: &BigNum) -> (r: BigNum)
    requires
        b@ != 0,
    ensures
        r@ == trunc_div(a@, b@),
{
    let x = BigInt::from_signed_bytes_le(&a.bytes) / BigInt::from_signed_bytes_le(&b.bytes);
    BigNum { bytes: x.to_signed_bytes_le() }
}

/// `BigInt % BigInt` of num-bigint: the remainder of the division rounded
/// toward zero. It panics on a zero divisor, which `requires` leaves out.
#[verifier::external_body]
pub(crate) fn big_rem(a: &BigNum, b: &BigNum) -> (r: BigNum)
    requires
        b@ != 0,
    ensures
        r@ == trunc_rem(a@, b@),
{
    let x = BigInt::from_signed_bytes_le(&a.bytes) % BigInt::from_signed_bytes_le(&b.bytes);
    BigNum { bytes: x.to_signed_bytes_le() }
}

/// `BigInt & BigInt` of num-bigint: and of the two's complement bit strings.
#[verifier::external_body]
pub(crate) fn big_and(a: &BigNum, b: &BigNum) -> (r: BigNum)
    ensures
        r@ == bitwise(BitOp::And, a@, b@),
{
    let x = BigInt::from_signed_bytes_le(&a.bytes) & BigInt::from_signed_bytes_le(&b.bytes);
    BigNum { bytes: x.to_signed_bytes_le() }
}

/// `BigInt | BigInt` of num-bigint: or of the two's complement bit strings.
#[verifier::external_body]
pub(crate) fn big_or(a: &BigNum, b: &BigNum) -> (r: BigNum)
    ensures
        r@ == bitwise(BitOp::Or, a@, b@),
{
    let x = BigInt::from_signed_bytes_le(&a.bytes) | BigInt::from_signed_bytes_le(&b.bytes);
    BigNum { bytes: x.to_signed_bytes_le() }
}

/// `BigInt ^ BigInt` of num-bigint: exclusive or of the two's complement bit
/// strings.
#[verifier::external_body]
pub(crate) fn big_xor(a: &BigNum, b: &BigNum) -> (r: BigNum)
    ensures
        r@ == bitwise(BitOp::Xor, a@, b@),
{
    let x = BigInt::from_signed_bytes_le(&a.bytes) ^ BigInt::from_signed_bytes_le(&b.bytes);
    BigNum { bytes: x.to_signed_bytes_le() }
}

/// `!BigInt` of num-bigint: the two's complement bitwise not, -a - 1.
#[verifier::external_body]
pub(crate) fn big_not(a: &BigNum) -> (r: BigNum)
    ensures
        r@ == -a@ - 1,
{
    let x = !BigInt::from_signed_bytes_le(&a.bytes);
    BigNum { bytes: x.to_signed_bytes_le() }
}

/// `-BigInt` of num-bigint: the negation.
#[verifier::external_body]
pub(crate) fn big_neg(a: &BigNum) -> (r: BigNum)
    ensures
        r@ == -a@,
{
    let x = -BigInt::from_signed_bytes_le(&a.bytes);
    BigNum { bytes: x.to_signed_bytes_le() }
}

/// `BigInt << usize` of num-bigint: multiplication by 2^n. Running out of
/// memory for a huge `n` is not described.
#[verifier::external_body]
pub(crate) fn big_shl_usize(a: &BigNum, n: usize) -> (r: BigNum)
    ensures
        r@ == a@ * pow2(n as nat),
{
    let x = BigInt::from_signed_bytes_le(&a.bytes) << n;
    BigNum { bytes: x.to_signed_bytes_le() }
}

/// `BigInt >> usize` of num-bigint: division by 2^n rounded toward minus
/// infinity.
#[verifier::external_body]
pub(crate) fn big_shr_usize(a: &BigNum, n: usize) -> (r: BigNum)
    ensures
        r@ == a@ / (pow2(n as nat) as int),
{
    let x = BigInt::from_signed_bytes_le(&a.bytes) >> n;
    BigNum { bytes: x.to_signed_bytes_le() }
}

/// `BigInt << u32` of num-bigint: multiplication by 2^n.
#[verifier::external_body]
pub(crate) fn big_shl_u32(a: &BigNum, n: u32) -> (r: BigNum)
    ensures
        r@ == a@ * pow2(n as nat),
{
    let x = BigInt::from_signed_bytes_le(&a.bytes) << n;
    BigNum { bytes: x.to_signed_bytes_le() }
}

/// `BigInt >> u32` of num-bigint: division by 2^n rounded toward minus
/// infinity.
#[verifier::external_body]
pub(crate) fn big_shr_u32(a: &BigNum, n: u32) -> (r: BigNum)
    ensures
        r@ == a@ / (pow2(n as nat) as int),
{
    let x = BigInt::from_signed_bytes_le(&a.bytes) >> n;
    BigNum { bytes: x.to_signed_bytes_le() }
}

/// `BigInt * u32` of num-bigint: the exact product.
#[verifier::external_body]
pub(crate) fn big_mul_u32(a: &BigNum, n: u32) -> (r: BigNum)
    ensures
        r@ == a@ * n,
{
    let x = BigInt::from_signed_bytes_le(&a.bytes) * n;
    BigNum { bytes: x.to_signed_bytes_le() }
}

/// `BigInt::pow(u32)` of num-bigint: a to the power n, with 0^0 = 1.
#[verifier::external_body]
pub(crate) fn big_pow_u32(a: &BigNum, n: u32) -> (r: BigNum)
    ensures
        r@ == pow(a@, n as nat),
{
    let x = Pow::pow(BigInt::from_signed_bytes_le(&a.bytes), n);
    BigNum { bytes: x.to_signed_bytes_le() }
}

/// `ToPrimitive::to_usize` of num-traits on a `BigInt`: the value when it
/// lies in the range of `usize`.
#[verifier::external_body]
pub(crate) fn big_to_usize(a: &BigNum) -> (r: Option<usize>)
    ensures
        r is Some <==> 0 <= a@ <= usize::MAX,
        r matches Some(n) ==> n == a@,
{
    BigInt::from_signed_bytes_le(&a.bytes).to_usize()
}

/// `ToPrimitive::to_u32` of num-traits on a `BigInt`: the value when it lies
/// in the range of `u32`.
#[verifier::external_body]
pub(crate) fn big_to_u32(a: &BigNum) -> (r: Option<u32>)
    ensures
        r is Some <==> 0 <= a@ <= u32::MAX,
        r matches Some(n) ==> n == a@,
{
    BigInt::from_signed_bytes_le(&a.bytes).to_u32()
}

/// `Zero::is_zero` of num-traits on a `BigInt`.
#[verifier::external_body]
pub(crate) fn big_is_zero(a: &BigNum) -> (r: bool)
    ensures
        r == (a@ == 0),
{
    BigInt::from_signed_bytes_le(&a.bytes).is_zero()
}

/// `BigInt::sign` of num-bigint, mapped variant for variant onto `Sign`.
#[verifier::external_body]
pub(crate) fn big_sign(a: &BigNum) -> (r: Sign)
    ensures
        r == sign_of(a@),
{
    match BigInt::from_signed_bytes_le(&a.bytes).sign() {
        num_bigint::Sign::Minus => Sign::Minus,
        num_bigint::Sign::NoSign => Sign::NoSign,
        num_bigint::Sign::Plus => Sign::Plus,
    }
}

/// `One::one` of num-traits for `BigInt`.
#[verifier::external_body]
pub(crate) fn big_one() -> (r: BigNum)
    ensures
        r@ == 1,
{
    BigNum { bytes: BigInt::one().to_signed_bytes_le() }
}

/// `BigInt::bits` of num-bigint: the bit length of the magnitude.
#[verifier::external_body]
pub(crate) fn big_bits(a: &BigNum) -> (r: u64)
    ensures
        r == bit_length(abs(a@)),
{
    BigInt::from_signed_bytes_le(&a.bytes).bits()
}

/// `BigInt::to_signed_bytes_be` of num-bigint: the shortest big-endian two's
/// complement bytes of the value.
#[verifier::external_body]
pub(crate) fn big_signed_bytes_be(a: &BigNum) -> (r: Vec<u8>)
    ensures
        r@.len() == signed_byte_len(a@),
        twos_value(r@.reverse()) == a@,
{
    BigInt::from_signed_bytes_le(&a.bytes).to_signed_bytes_be()
}

/// The `Display` text of a `BigInt` (num-bigint): its decimal digits, with a
/// leading `-` when negative.
#[verifier::external_body]
pub(crate) fn big_to_decimal(a: &BigNum) -> (r: String)
    ensures
        r@ == int_decimal(a@),
{
    BigInt::from_signed_bytes_le(&a.bytes).to_string()
}

/// `BigRational + BigRational` of num-rational: the sum in lowest terms.
#[verifier::external_body]
pub(crate) fn rat_add(a: &Rational, b: &Rational) -> (r: Rational)
    requires
        a@.1 != 0,
        b@.1 != 0,
    ensures
        r@ == rat_add_spec(a@, b@),
        r@.1 > 0,
{
    let x = BigRational::new_raw(BigInt::from_signed_bytes_le(&a.numer.bytes), BigInt::from_signed_bytes_le(&a.denom.bytes));
    let y = BigRational::new_raw(BigInt::from_signed_bytes_le(&b.numer.bytes), BigInt::from_signed_bytes_le(&b.denom.bytes));
    let (n, d) = (x + y).into_raw();
    Rational { numer: BigNum { bytes: n.to_signed_bytes_le() }, denom: BigNum { bytes: d.to_signed_bytes_le() } }
}

/// `BigRational - BigRational` of num-rational: the difference in lowest
/// terms.
#[verifier::external_body]
pub(crate) fn rat_sub(a: &Rational, b: &Rational) -> (r: Rational)
    requires
        a@.1 != 0,
        b@.1 != 0,
    ensures
        r@ == rat_sub_spec(a@, b@),
        r@.1 > 0,
{
    let x = BigRational::new_raw(BigInt::from_signed_bytes_le(&a.numer.bytes), BigInt::from_signed_bytes_le(&a.denom.bytes));
    let y = BigRational::new_raw(BigInt::from_signed_bytes_le(&b.numer.bytes), BigInt::from_signed_bytes_le(&b.denom.bytes));
    let (n, d) = (x - y).into_raw();
    Rational { numer: BigNum { bytes: n.to_signed_bytes_le() }, denom: BigNum { bytes: d.to_signed_bytes_le() } }
}

/// `BigRational * BigRational` of num-rational: the product in lowest terms.
#[verifier::external_body]
pub(crate) fn rat_mul(a: &Rational, b: &Rational) -> (r: Rational)
    requires
        a@.1 != 0,
        b@.1 != 0,
    ensures
        r@ == rat_mul_spec(a@, b@),
        r@.1 > 0,
{
    let x = BigRational::new_raw(BigInt::from_signed_bytes_le(&a.numer.bytes), BigInt::from_signed_bytes_le(&a.denom.bytes));
    let y = BigRational::new_raw(BigInt::from_signed_bytes_le(&b.numer.bytes), BigInt::from_signed_bytes_le(&b.denom.bytes));
    let (n, d) = (x * y).into_raw();
    Rational { numer: BigNum { bytes: n.to_signed_bytes_le() }, denom: BigNum { bytes: d.to_signed_bytes_le() } }
}

/// `BigRational / BigRational` of num-rational: the quotient in lowest terms.
/// It panics on a zero divisor, which `requires` leaves out.
#[verifier::external_body]
pub(crate) fn rat_div(a: &Rational, b: &Rational) -> (r: Rational)
    requires
        a@.1 != 0,
        b@.1 != 0,
        b@.0 != 0,
    ensures
        r@ == rat_div_spec(a@, b@),
        r@.1 > 0,
{
    let x = BigRational::new_raw(BigInt::from_signed_bytes_le(&a.numer.bytes), BigInt::from_signed_bytes_le(&a.denom.bytes));
    let y = BigRational::new_raw(BigInt::from_signed_bytes_le(&b.numer.bytes), BigInt::from_signed_bytes_le(&b.denom.bytes));
    let (n, d) = (x / y).into_raw();
    Rational { numer: BigNum { bytes: n.to_signed_bytes_le() }, denom: BigNum { bytes: d.to_signed_bytes_le() } }
}

/// `BigRational % BigRational` of num-rational: a - b * q with q the quotient
/// a / b rounded toward zero, in lowest terms. It panics on a zero divisor,
/// which `requires` leaves out.
#[verifier::external_body]
pub(crate) fn rat_rem(a: &Rational, b: &Rational) -> (r: Rational)
    requires
        a@.1 != 0,
        b@.1 != 0,
        b@.0 != 0,
    ensures
        r@ == rat_rem_spec(a@, b@),
        r@.1 > 0,
{
    let x = BigRational::new_raw(BigInt::from_signed_bytes_le(&a.numer.bytes), BigInt::from_signed_bytes_le(&a.denom.bytes));
    let y = BigRational::new_raw(BigInt::from_signed_bytes_le(&b.numer.bytes), BigInt::from_signed_bytes_le(&b.denom.bytes));
    let (n, d) = (x % y).into_raw();
    Rational { numer: BigNum { bytes: n.to_signed_bytes_le() }, denom: BigNum { bytes: d.to_signed_bytes_le() } }
}

/// `-BigRational` of num-rational: negates the numerator and keeps the
/// denominator as it is.
#[verifier::external_body]
pub(crate) fn rat_neg(a: &Rational) -> (r: Rational)
    ensures
        r@ == (-a@.0, a@.1),
{
    let x = BigRational::new_raw(BigInt::from_signed_bytes_le(&a.numer.bytes), BigInt::from_signed_bytes_le(&a.denom.bytes));
    let (n, d) = (-x).into_raw();
    Rational { numer: BigNum { bytes: n.to_signed_bytes_le() }, denom: BigNum { bytes: d.to_signed_bytes_le() } }
}

/// `BigRational::from_integer` of num-rational: n / 1.
#[verifier::external_body]
pub(crate) fn rat_from_integer(a: &BigNum) -> (r: Rational)
    ensures
        r@ == (a@, 1int),
{
    let (n, d) = BigRational::from_integer(BigInt::from_signed_bytes_le(&a.bytes)).into_raw();
    Rational { numer: BigNum { bytes: n.to_signed_bytes_le() }, denom: BigNum { bytes: d.to_signed_bytes_le() } }
}

/// `Zero::is_zero` of num-traits on a `BigRational`: whether the numerator is
/// zero.
#[verifier::external_body]
pub(crate) fn rat_is_zero(a: &Rational) -> (r: bool)
    ensures
        r == (a@.0 == 0),
{
    let x = BigRational::new_raw(BigInt::from_signed_bytes_le(&a.numer.bytes), BigInt::from_signed_bytes_le(&a.denom.bytes));
    x.is_zero()
}

} // verus!
