//! Overflow diagnostics for constant sub-expressions: every maximal
//! sub-expression made of number literals and `+ - * ** << >>` is folded to
//! a value, and each value met is checked against the type it is given.
use vstd::prelude::*;
use vstd::arithmetic::power::pow;
use vstd::arithmetic::power2::{lemma2_to64, lemma_pow2_adds, lemma_pow2_pos, lemma_pow2_unfold, pow2};
use crate::ast::{error_view, expr_loc, type_text, Diagnostic, Expression, Level, Loc, Namespace, Type};
use crate::eval::{const_number, eval_number, lemma_const_number_fuel, number_evaluates, Eval};
use crate::bignum::{
    abs, big_add, big_bits, big_mul_u32, big_pow_u32, big_shl_u32, big_shr_u32, big_sign,
    big_signed_bytes_be, big_sub, big_to_decimal, big_to_u32, bit_length, int_decimal,
    signed_byte_len, BigNum, Sign,
};

verus! {

/// The operators that folding evaluates.
pub enum FoldOp {
    Add,
    Sub,
    Mul,
    Pow,
    Shl,
    Shr,
}

pub open spec fn fold_apply(op: FoldOp, a: int, b: int) -> int {
    match op {
        FoldOp::Add => a + b,
        FoldOp::Sub => a - b,
        FoldOp::Mul => a * b,
        FoldOp::Pow => pow(a, b as nat),
        FoldOp::Shl => a * pow2(b as nat),
        FoldOp::Shr => a / (pow2(b as nat) as int),
    }
}

/// Both operands folded: the operation's value, recorded alone in place of
/// the operands'. Otherwise nothing folds here, and what the operands
/// recorded stays.
pub open spec fn fold_binary(
    ty: Type,
    l: (Option<int>, Seq<(Type, int)>),
    r: (Option<int>, Seq<(Type, int)>),
    op: FoldOp,
) -> (Option<int>, Seq<(Type, int)>) {
    match (l.0, r.0) {
        (Some(a), Some(b)) => (Some(fold_apply(op, a, b)), seq![(ty, fold_apply(op, a, b))]),
        _ => (None, l.1 + r.1),
    }
}

/// The value that `e` folds to, if it does, and the (type, value) pairs that
/// folding it records.
pub open spec fn fold(e: Expression) -> (Option<int>, Seq<(Type, int)>)
    decreases e,
{
    match e {
        Expression::Add(_, ty, _, l, r) => fold_binary(ty, fold(*l), fold(*r), FoldOp::Add),
        Expression::Subtract(_, ty, _, l, r) => fold_binary(ty, fold(*l), fold(*r), FoldOp::Sub),
        Expression::Multiply(_, ty, _, l, r) => fold_binary(ty, fold(*l), fold(*r), FoldOp::Mul),
        Expression::Power(_, ty, _, l, r) => fold_binary(ty, fold(*l), fold(*r), FoldOp::Pow),
        Expression::ShiftLeft(_, ty, l, r) => fold_binary(ty, fold(*l), fold(*r), FoldOp::Shl),
        Expression::ShiftRight(_, ty, l, r, _) => fold_binary(ty, fold(*l), fold(*r), FoldOp::Shr),
        Expression::NumberLiteral(_, ty, n) => (Some(n@), seq![(ty, n@)]),
        _ => (None, seq![]),
    }
}

/// The type that the literal folded from `e` carries: the type of the
/// outermost operation, or of the literal itself.
pub open spec fn folded_type(e: Expression) -> Type {
    match e {
        Expression::Add(_, ty, ..) => ty,
        Expression::Subtract(_, ty, ..) => ty,
        Expression::Multiply(_, ty, ..) => ty,
        Expression::Power(_, ty, ..) => ty,
        Expression::ShiftLeft(_, ty, ..) => ty,
        Expression::ShiftRight(_, ty, ..) => ty,
        Expression::NumberLiteral(_, ty, _) => ty,
        _ => Type::Bool,
    }
}

/// Folding `*`, `**`, `<<` or `>>` at the top of `e` takes its right operand
/// as a `u32`: when both operands fold, the right one must fit.
pub open spec fn fold_fits_here(e: Expression) -> bool {
    match e {
        Expression::Multiply(_, _, _, l, r) | Expression::Power(_, _, _, l, r)
        | Expression::ShiftLeft(_, _, l, r) | Expression::ShiftRight(_, _, l, r, _) => (fold(
            *l,
        ).0 is Some && fold(*r).0 is Some) ==> 0 <= fold(*r).0->0 <= u32::MAX,
        _ => true,
    }
}

/// `fold_fits_here` holds at every sub-expression of `e`.
pub open spec fn foldable(e: Expression) -> bool
    decreases e,
{
    fold_fits_here(e) && match e {
        Expression::Add(_, _, _, l, r) => foldable(*l) && foldable(*r),
        Expression::Subtract(_, _, _, l, r) => foldable(*l) && foldable(*r),
        Expression::Multiply(_, _, _, l, r) => foldable(*l) && foldable(*r),
        Expression::Divide(_, _, l, r) => foldable(*l) && foldable(*r),
        Expression::Modulo(_, _, l, r) => foldable(*l) && foldable(*r),
        Expression::Power(_, _, _, l, r) => foldable(*l) && foldable(*r),
        Expression::BitwiseOr(_, _, l, r) => foldable(*l) && foldable(*r),
        Expression::BitwiseAnd(_, _, l, r) => foldable(*l) && foldable(*r),
        Expression::BitwiseXor(_, _, l, r) => foldable(*l) && foldable(*r),
        Expression::ShiftLeft(_, _, l, r) => foldable(*l) && foldable(*r),
        Expression::ShiftRight(_, _, l, r, _) => foldable(*l) && foldable(*r),
        Expression::ZeroExt(_, _, x) => foldable(*x),
        Expression::SignExt(_, _, x) => foldable(*x),
        Expression::Cast(_, _, x) => foldable(*x),
        Expression::Not(_, x) => foldable(*x),
        Expression::Complement(_, _, x) => foldable(*x),
        Expression::UnaryMinus(_, _, x) => foldable(*x),
        _ => true,
    }
}

/// The (type, value) pairs recorded by walking `e` from the top: each
/// sub-expression is folded, and the walk goes on into its operands, in
/// order, only where it does not fold.
pub open spec fn visit(e: Expression) -> Seq<(Type, int)>
    decreases e,
{
    let f = fold(e);
    if f.0 is Some {
        f.1
    } else {
        f.1 + match e {
            Expression::Add(_, _, _, l, r) => visit(*l) + visit(*r),
            Expression::Subtract(_, _, _, l, r) => visit(*l) + visit(*r),
            Expression::Multiply(_, _, _, l, r) => visit(*l) + visit(*r),
            Expression::Divide(_, _, l, r) => visit(*l) + visit(*r),
            Expression::Modulo(_, _, l, r) => visit(*l) + visit(*r),
            Expression::Power(_, _, _, l, r) => visit(*l) + visit(*r),
            Expression::BitwiseOr(_, _, l, r) => visit(*l) + visit(*r),
            Expression::BitwiseAnd(_, _, l, r) => visit(*l) + visit(*r),
            Expression::BitwiseXor(_, _, l, r) => visit(*l) + visit(*r),
            Expression::ShiftLeft(_, _, l, r) => visit(*l) + visit(*r),
            Expression::ShiftRight(_, _, l, r, _) => visit(*l) + visit(*r),
            Expression::ZeroExt(_, _, x) => visit(*x),
            Expression::SignExt(_, _, x) => visit(*x),
            Expression::Cast(_, _, x) => visit(*x),
            Expression::Not(_, x) => visit(*x),
            Expression::Complement(_, _, x) => visit(*x),
            Expression::UnaryMinus(_, _, x) => visit(*x),
            _ => Seq::empty(),
        }
    }
}

/// The recorded pairs as (type, value).
pub open spec fn results_view(results: Seq<(Type, BigNum)>) -> Seq<(Type, int)> {
    results.map_values(|p: (Type, BigNum)| (p.0, p.1@))
}

pub open spec fn fit_text(v: int, ty: Type) -> Seq<char> {
    "value "@ + int_decimal(v) + " does not fit into type "@ + type_text(ty) + "."@
}

pub open spec fn negative_text(v: int, ty: Type) -> Seq<char> {
    "negative value "@ + int_decimal(v) + " does not fit into type "@ + type_text(ty)
        + ". Cannot implicitly convert signed literal to unsigned type."@
}

/// The errors for value `v` given type `ty`: an unsigned type rejects a
/// negative value and a value whose magnitude needs more bits than it has;
/// a signed type rejects a value whose shortest two's complement form takes
/// more bytes than its bits fill.
pub open spec fn overflow_diagnostics(v: int, ty: Type, loc: Loc) -> Seq<(Loc, Level, Seq<char>)> {
    match ty {
        Type::Uint(bits) => (if v < 0 {
            seq![error_view(loc, negative_text(v, ty))]
        } else {
            Seq::empty()
        }) + (if bit_length(abs(v)) > bits {
            seq![error_view(loc, fit_text(v, ty))]
        } else {
            Seq::empty()
        }),
        Type::Int(bits) => if signed_byte_len(v) * 8 > bits {
            seq![error_view(loc, fit_text(v, ty))]
        } else {
            Seq::empty()
        },
        _ => Seq::empty(),
    }
}

/// The errors for each recorded pair, in order, all at `loc`.
pub open spec fn all_overflow_diagnostics(results: Seq<(Type, int)>, loc: Loc) -> Seq<
    (Loc, Level, Seq<char>),
>
    decreases results.len(),
{
    if results.len() == 0 {
        Seq::empty()
    } else {
        all_overflow_diagnostics(results.drop_last(), loc) + overflow_diagnostics(
            results.last().1,
            results.last().0,
            loc,
        )
    }
}

proof fn lemma_fold_single(e: Expression)
    ensures
        fold(e).0 is Some ==> fold(e).1.len() == 1 && fold(e).1[0].1 == fold(e).0->0,
{
}

/// Combines the folding of two operands: when both folded to literals, the
/// two values recorded last are replaced by the operation's value.
fn fold_operands(
    loc: Loc,
    ty: Type,
    op: FoldOp,
    left: Option<Expression>,
    right: Option<Expression>,
    results: &mut Vec<(Type, BigNum)>,
    Ghost(lf): Ghost<(Option<int>, Seq<(Type, int)>)>,
    Ghost(rf): Ghost<(Option<int>, Seq<(Type, int)>)>,
    Ghost(base): Ghost<Seq<(Type, int)>>,
) -> (res: Option<Expression>)
    requires
        results_view(old(results)@) == base + lf.1 + rf.1,
        lf.0 is Some ==> lf.1.len() == 1 && lf.1[0].1 == lf.0->0,
        rf.0 is Some ==> rf.1.len() == 1 && rf.1[0].1 == rf.0->0,
        left is Some <==> lf.0 is Some,
        right is Some <==> rf.0 is Some,
        left matches Some(x) ==> x matches Expression::NumberLiteral(_, _, v) && v@ == lf.0->0,
        right matches Some(x) ==> x matches Expression::NumberLiteral(_, _, v) && v@ == rf.0->0,
        (op == FoldOp::Mul || op == FoldOp::Pow || op == FoldOp::Shl || op == FoldOp::Shr) ==> ((
        lf.0 is Some && rf.0 is Some) ==> 0 <= rf.0->0 <= u32::MAX),
    ensures
        results_view(final(results)@) == base + fold_binary(ty, lf, rf, op).1,
        res is Some <==> fold_binary(ty, lf, rf, op).0 is Some,
        res matches Some(x) ==> x matches Expression::NumberLiteral(l, t, v) && l == loc && t == ty
            && v@ == fold_binary(ty, lf, rf, op).0->0,
{
    if let (Some(Expression::NumberLiteral(_, _, a)), Some(Expression::NumberLiteral(_, _, b))) = (
        &left,
        &right,
    ) {
        let ghost before = results@;
        assert(lf.0 is Some && rf.0 is Some);
        assert(results_view(before).len() == before.len());
        assert(before.len() == base.len() + 2);
        results.pop();
        results.pop();
        assert(results@ =~= before.subrange(0, before.len() - 2));
        assert(results_view(results@) =~= base) by {
            assert(results_view(before).len() == base.len() + 2);
            assert forall|i: int| 0 <= i < base.len() implies results_view(results@)[i] == base[i] by {
                assert(results_view(before)[i] == (base + lf.1 + rf.1)[i]);
            }
        }
        let v = match op {
            FoldOp::Add => big_add(a, b),
            FoldOp::Sub => big_sub(a, b),
            FoldOp::Mul => big_mul_u32(a, big_to_u32(b).unwrap()),
            FoldOp::Pow => big_pow_u32(a, big_to_u32(b).unwrap()),
            FoldOp::Shl => big_shl_u32(a, big_to_u32(b).unwrap()),
            FoldOp::Shr => big_shr_u32(a, big_to_u32(b).unwrap()),
        };
        results.push((ty, v.duplicate()));
        assert(results_view(results@) =~= base + fold_binary(ty, lf, rf, op).1);
        Some(Expression::NumberLiteral(loc, ty, v))
    } else {
        None
    }
}

/// Folds `expr` if it is made of number literals and `+ - * ** << >>`: the
/// literal it folds to, at its place. Every literal and every operation that
/// folds records its (type, value) in `results`; an operation that folds
/// first takes back the two records of its operands.
fn eval_constants_in_expression(
    expr: &Expression,
    ns: &Namespace,
    results: &mut Vec<(Type, BigNum)>,
) -> (res: Option<Expression>)
    requires
        foldable(*expr),
    ensures
        results_view(final(results)@) == results_view(old(results)@) + fold(*expr).1,
        res is Some <==> fold(*expr).0 is Some,
        res matches Some(x) ==> x matches Expression::NumberLiteral(l, t, v) && l == expr_loc(*expr)
            && t == folded_type(*expr) && v@ == fold(*expr).0->0,
    decreases expr,
{
    let ghost base = results_view(results@);
    match expr {
        Expression::Add(loc, ty, _, left, right) => {
            let left_folded = eval_constants_in_expression(left, ns, results);
            let right_folded = eval_constants_in_expression(right, ns, results);
            proof {
                lemma_fold_single(**left);
                lemma_fold_single(**right);
            }
            fold_operands(*loc, *ty, FoldOp::Add, left_folded, right_folded, results,
                Ghost(fold(**left)), Ghost(fold(**right)), Ghost(base))
        },
        Expression::Subtract(loc, ty, _, left, right) => {
            let left_folded = eval_constants_in_expression(left, ns, results);
            let right_folded = eval_constants_in_expression(right, ns, results);
            proof {
                lemma_fold_single(**left);
                lemma_fold_single(**right);
            }
            fold_operands(*loc, *ty, FoldOp::Sub, left_folded, right_folded, results,
                Ghost(fold(**left)), Ghost(fold(**right)), Ghost(base))
        },
        Expression::Multiply(loc, ty, _, left, right) => {
            let left_folded = eval_constants_in_expression(left, ns, results);
            let right_folded = eval_constants_in_expression(right, ns, results);
            proof {
                lemma_fold_single(**left);
                lemma_fold_single(**right);
            }
            fold_operands(*loc, *ty, FoldOp::Mul, left_folded, right_folded, results,
                Ghost(fold(**left)), Ghost(fold(**right)), Ghost(base))
        },
        Expression::Power(loc, ty, _, left, right) => {
            let left_folded = eval_constants_in_expression(left, ns, results);
            let right_folded = eval_constants_in_expression(right, ns, results);
            proof {
                lemma_fold_single(**left);
                lemma_fold_single(**right);
            }
            fold_operands(*loc, *ty, FoldOp::Pow, left_folded, right_folded, results,
                Ghost(fold(**left)), Ghost(fold(**right)), Ghost(base))
        },
        Expression::ShiftLeft(loc, ty, left, right) => {
            let left_folded = eval_constants_in_expression(left, ns, results);
            let right_folded = eval_constants_in_expression(right, ns, results);
            proof {
                lemma_fold_single(**left);
                lemma_fold_single(**right);
            }
            fold_operands(*loc, *ty, FoldOp::Shl, left_folded, right_folded, results,
                Ghost(fold(**left)), Ghost(fold(**right)), Ghost(base))
        },
        Expression::ShiftRight(loc, ty, left, right, _) => {
            let left_folded = eval_constants_in_expression(left, ns, results);
            let right_folded = eval_constants_in_expression(right, ns, results);
            proof {
                lemma_fold_single(**left);
                lemma_fold_single(**right);
            }
            fold_operands(*loc, *ty, FoldOp::Shr, left_folded, right_folded, results,
                Ghost(fold(**left)), Ghost(fold(**right)), Ghost(base))
        },
        Expression::NumberLiteral(loc, ty, val) => {
            results.push((*ty, val.duplicate()));
            assert(results_view(results@) =~= base + fold(*expr).1);
            Some(Expression::NumberLiteral(*loc, *ty, val.duplicate()))
        },
        _ => {
            assert(results_view(results@) =~= base + fold(*expr).1);
            None
        },
    }
}

/// The message for a value that does not fit its type.
fn fit_message(result: &BigNum, ty: Type) -> (m: String)
    ensures
        m@ == fit_text(result@, ty),
{
    let mut m = String::from_str("value ");
    let digits = big_to_decimal(result);
    m.append(digits.as_str());
    m.append(" does not fit into type ");
    let name = ty.to_string();
    m.append(name.as_str());
    m.append(".");
    m
}

/// The message for a negative value given an unsigned type.
fn negative_message(result: &BigNum, ty: Type) -> (m: String)
    ensures
        m@ == negative_text(result@, ty),
{
    let mut m = String::from_str("negative value ");
    let digits = big_to_decimal(result);
    m.append(digits.as_str());
    m.append(" does not fit into type ");
    let name = ty.to_string();
    m.append(name.as_str());
    m.append(". Cannot implicitly convert signed literal to unsigned type.");
    m
}

/// Reports at `loc` the errors for value `result` given type `ty`.
fn overflow_check(ns: &mut Namespace, result: BigNum, ty: Type, loc: Loc)
    ensures
        final(ns).diagnostics@ == old(ns).diagnostics@ + overflow_diagnostics(result@, ty, loc),
        final(ns).contracts@ == old(ns).contracts@,
        final(ns).constants@ == old(ns).constants@,
{
    if let Type::Uint(bits) = ty {
        if big_sign(&result) == Sign::Minus {
            ns.diagnostics.push(Diagnostic::error(loc, negative_message(&result, ty)));
        }
        if big_bits(&result) > bits as u64 {
            ns.diagnostics.push(Diagnostic::error(loc, fit_message(&result, ty)));
        }
    }
    if let Type::Int(bits) = ty {
        let bytes = big_signed_bytes_be(&result);
        if bytes.len() > (bits as usize) / 8 {
            ns.diagnostics.push(Diagnostic::error(loc, fit_message(&result, ty)));
        }
    }
    assert(ns.diagnostics@ =~= old(ns).diagnostics@ + overflow_diagnostics(result@, ty, loc));
}

/// Walks `expr` from the top, folding each sub-expression and going on into
/// the operands of those that do not fold.
fn collect_constant_results(expr: &Expression, ns: &Namespace, results: &mut Vec<(Type, BigNum)>)
    requires
        foldable(*expr),
    ensures
        results_view(final(results)@) == results_view(old(results)@) + visit(*expr),
    decreases expr,
{
    let ghost base = results_view(results@);
    let folded = eval_constants_in_expression(expr, ns, results);
    if folded.is_none() {
        let ghost mid = results_view(results@);
        match expr {
            Expression::Add(_, _, _, l, r) | Expression::Subtract(_, _, _, l, r)
            | Expression::Multiply(_, _, _, l, r) | Expression::Divide(_, _, l, r)
            | Expression::Modulo(_, _, l, r) | Expression::Power(_, _, _, l, r)
            | Expression::BitwiseOr(_, _, l, r) | Expression::BitwiseAnd(_, _, l, r)
            | Expression::BitwiseXor(_, _, l, r) | Expression::ShiftLeft(_, _, l, r)
            | Expression::ShiftRight(_, _, l, r, _) => {
                collect_constant_results(l, ns, results);
                collect_constant_results(r, ns, results);
                assert(results_view(results@) =~= mid + (visit(**l) + visit(**r)));
            },
            Expression::ZeroExt(_, _, x) | Expression::SignExt(_, _, x) | Expression::Cast(_, _, x)
            | Expression::Not(_, x) | Expression::Complement(_, _, x)
            | Expression::UnaryMinus(_, _, x) => {
                collect_constant_results(x, ns, results);
            },
            _ => {
                assert(results_view(results@) =~= mid + Seq::<(Type, int)>::empty());
            },
        }
    }
    assert(results_view(results@) =~= base + visit(*expr));
}

/// Checks the constant parts of `expr` for values that do not fit their
/// types, reporting each at `loc`: the values are those that `visit` records,
/// in order, and each gets the errors of `overflow_diagnostics`.
pub fn verify_result(expr: &Expression, ns: &mut Namespace, loc: &Loc)
    requires
        foldable(*expr),
    ensures
        final(ns).diagnostics@ == old(ns).diagnostics@ + all_overflow_diagnostics(visit(*expr), *loc),
        final(ns).contracts@ == old(ns).contracts@,
        final(ns).constants@ == old(ns).constants@,
{
    let mut results: Vec<(Type, BigNum)> = Vec::new();
    collect_constant_results(expr, ns, &mut results);
    assert(results_view(results@) =~= visit(*expr));
    let ghost all = visit(*expr);
    let mut i: usize = 0;
    while i < results.len()
        invariant
            i <= results@.len(),
            results_view(results@) == all,
            ns.diagnostics@ == old(ns).diagnostics@ + all_overflow_diagnostics(all.subrange(0, i as int), *loc),
            ns.contracts@ == old(ns).contracts@,
            ns.constants@ == old(ns).constants@,
        decreases results@.len() - i,
    {
        let ty = results[i].0;
        let value = results[i].1.duplicate();
        overflow_check(ns, value, ty, *loc);
        proof {
            let next = all.subrange(0, i + 1);
            assert(next.drop_last() =~= all.subrange(0, i as int));
            assert(next.last() == all[i as int]);
        }
        i = i + 1;
    }
    assert(all.subrange(0, results@.len() as int) =~= all);
}

proof fn lemma_bit_length_bound(n: nat, b: nat)
    ensures
        bit_length(n) <= b <==> n < pow2(b),
    decreases n,
{
    lemma_pow2_pos(b);
    if n > 0 {
        if b == 0 {
            lemma2_to64();
        } else {
            lemma_bit_length_bound(n / 2, (b - 1) as nat);
            lemma_pow2_unfold(b);
        }
    }
}

proof fn lemma_signed_byte_len_bound(v: int, k: nat)
    requires
        k >= 1,
    ensures
        signed_byte_len(v) <= k <==> -pow2((8 * k - 1) as nat) <= v < pow2((8 * k - 1) as nat),
    decreases abs(v),
{
    lemma2_to64();
    if k == 1 {
        if !(-128 <= v < 128) {
            assert(signed_byte_len(v) == 1 + signed_byte_len(v / 256));
        }
    } else {
        lemma_pow2_adds(8, (8 * k - 9) as nat);
        assert(pow2((8 * k - 1) as nat) == 256 * pow2((8 * k - 9) as nat));
        lemma_pow2_adds(7, (8 * k - 8) as nat);
        lemma_pow2_pos((8 * k - 8) as nat);
        assert(pow2((8 * k - 1) as nat) >= 128);
        if !(-128 <= v < 128) {
            lemma_signed_byte_len_bound(v / 256, (k - 1) as nat);
        }
    }
}

/// A value given an unsigned type of `bits` bits is reported exactly when it
/// lies outside 0 ..= 2^bits - 1; given a signed type whose bits are a
/// multiple of eight, exactly when it lies outside -2^(bits-1) ..= 2^(bits-1) - 1.
pub proof fn lemma_overflow_diagnostics_exact(v: int, ty: Type, loc: Loc)
    requires
        ty matches Type::Int(bits) ==> bits > 0 && bits % 8 == 0,
    ensures
        ty matches Type::Uint(bits) ==> (overflow_diagnostics(v, ty, loc).len() == 0 <==> 0 <= v
            < pow2(bits as nat)),
        ty matches Type::Int(bits) ==> (overflow_diagnostics(v, ty, loc).len() == 0 <==> -pow2(
            (bits - 1) as nat,
        ) <= v < pow2((bits - 1) as nat)),
{
    match ty {
        Type::Uint(bits) => {
            lemma_bit_length_bound(abs(v), bits as nat);
        },
        Type::Int(bits) => {
            lemma_signed_byte_len_bound(v, (bits / 8) as nat);
            assert(8 * (bits / 8) - 1 == bits - 1);
        },
        _ => {},
    }
}

/// Every value that folding finds for a sub-expression is the value that
/// constant evaluation gives it, at the same place, whatever the namespace.
pub proof fn lemma_fold_agrees_with_eval(e: Expression, ns: Namespace, fuel: nat)
    requires
        foldable(e),
        fold(e).0 is Some,
    ensures
        eval_number(e, ns, fuel) == Eval::Done(expr_loc(e), fold(e).0->0),
    decreases e,
{
    match e {
        Expression::Add(_, _, _, l, r) | Expression::Subtract(_, _, _, l, r)
        | Expression::Multiply(_, _, _, l, r) | Expression::Power(_, _, _, l, r)
        | Expression::ShiftLeft(_, _, l, r) | Expression::ShiftRight(_, _, l, r, _) => {
            lemma_fold_agrees_with_eval(*l, ns, fuel);
            lemma_fold_agrees_with_eval(*r, ns, fuel);
        },
        _ => {},
    }
}

/// The overflow check of one value adds only errors, all at `loc`: at most
/// two for an unsigned type, at most one for a signed type, none for any
/// other type.
pub proof fn lemma_overflow_diagnostics_shape(v: int, ty: Type, loc: Loc)
    ensures
        forall|i: int| 0 <= i < overflow_diagnostics(v, ty, loc).len()
            ==> (#[trigger] overflow_diagnostics(v, ty, loc)[i]).0 == loc
                && overflow_diagnostics(v, ty, loc)[i].1 == Level::Error,
        ty is Uint ==> overflow_diagnostics(v, ty, loc).len() <= 2,
        ty is Int ==> overflow_diagnostics(v, ty, loc).len() <= 1,
        !(ty is Uint) && !(ty is Int) ==> overflow_diagnostics(v, ty, loc).len() == 0,
{
}

/// Checking a list of recorded values adds only errors, all at `loc`, and
/// none at all when every value fits its type.
pub proof fn lemma_all_overflow_diagnostics_shape(results: Seq<(Type, int)>, loc: Loc)
    ensures
        forall|i: int| 0 <= i < all_overflow_diagnostics(results, loc).len()
            ==> (#[trigger] all_overflow_diagnostics(results, loc)[i]).0 == loc
                && all_overflow_diagnostics(results, loc)[i].1 == Level::Error,
        (forall|j: int| 0 <= j < results.len()
            ==> overflow_diagnostics(#[trigger] results[j].1, results[j].0, loc).len() == 0)
            ==> all_overflow_diagnostics(results, loc).len() == 0,
    decreases results.len(),
{
    if results.len() > 0 {
        let init = results.drop_last();
        lemma_all_overflow_diagnostics_shape(init, loc);
        lemma_overflow_diagnostics_shape(results.last().1, results.last().0, loc);
        let a = all_overflow_diagnostics(init, loc);
        let b = overflow_diagnostics(results.last().1, results.last().0, loc);
        assert forall|i: int| 0 <= i < (a + b).len() implies (#[trigger] (a + b)[i]).0 == loc
            && (a + b)[i].1 == Level::Error by {
            if i >= a.len() {
                assert((a + b)[i] == b[i - a.len()]);
            }
        }
        if forall|j: int| 0 <= j < results.len()
            ==> overflow_diagnostics(#[trigger] results[j].1, results[j].0, loc).len() == 0 {
            assert forall|j: int| 0 <= j < init.len() implies overflow_diagnostics(
                #[trigger] init[j].1,
                init[j].0,
                loc,
            ).len() == 0 by {
                assert(init[j] == results[j]);
            }
            assert(results.last() == results[results.len() - 1]);
        }
    }
}

/// Whenever folding finds a value, constant evaluation of the whole
/// expression gives that value at the expression's place.
pub proof fn lemma_fold_agrees_with_const_number(e: Expression, ns: Namespace)
    requires
        foldable(e),
        fold(e).0 is Some,
    ensures
        number_evaluates(e, ns),
        const_number(e, ns) == Eval::Done(expr_loc(e), fold(e).0->0),
{
    lemma_fold_agrees_with_eval(e, ns, 0);
    lemma_const_number_fuel(e, ns, 0);
}

/// The walk goes into the operands of every operator that does not fold:
/// for `/`, `%`, `&`, `|` and `^` the pairs recorded are the left operand's
/// followed by the right operand's; for a unary operator, its operand's;
/// for `+ - * ** << >>` that do not fold, what folding the two operands
/// recorded, then the left operand's pairs and the right operand's.
pub proof fn lemma_visit_operands(e: Expression)
    ensures
        e matches Expression::Divide(_, _, l, r) ==> visit(e) == visit(*l) + visit(*r),
        e matches Expression::Modulo(_, _, l, r) ==> visit(e) == visit(*l) + visit(*r),
        e matches Expression::BitwiseAnd(_, _, l, r) ==> visit(e) == visit(*l) + visit(*r),
        e matches Expression::BitwiseOr(_, _, l, r) ==> visit(e) == visit(*l) + visit(*r),
        e matches Expression::BitwiseXor(_, _, l, r) ==> visit(e) == visit(*l) + visit(*r),
        e matches Expression::ZeroExt(_, _, x) ==> visit(e) == visit(*x),
        e matches Expression::SignExt(_, _, x) ==> visit(e) == visit(*x),
        e matches Expression::Cast(_, _, x) ==> visit(e) == visit(*x),
        e matches Expression::Not(_, x) ==> visit(e) == visit(*x),
        e matches Expression::Complement(_, _, x) ==> visit(e) == visit(*x),
        e matches Expression::UnaryMinus(_, _, x) ==> visit(e) == visit(*x),
        e matches Expression::Add(_, _, _, l, r) ==> (fold(e).0 is None ==> visit(e) == fold(*l).1
            + fold(*r).1 + visit(*l) + visit(*r)),
        e matches Expression::Subtract(_, _, _, l, r) ==> (fold(e).0 is None ==> visit(e) == fold(
            *l,
        ).1 + fold(*r).1 + visit(*l) + visit(*r)),
        e matches Expression::Multiply(_, _, _, l, r) ==> (fold(e).0 is None ==> visit(e) == fold(
            *l,
        ).1 + fold(*r).1 + visit(*l) + visit(*r)),
        e matches Expression::Power(_, _, _, l, r) ==> (fold(e).0 is None ==> visit(e) == fold(
            *l,
        ).1 + fold(*r).1 + visit(*l) + visit(*r)),
        e matches Expression::ShiftLeft(_, _, l, r) ==> (fold(e).0 is None ==> visit(e) == fold(
            *l,
        ).1 + fold(*r).1 + visit(*l) + visit(*r)),
        e matches Expression::ShiftRight(_, _, l, r, _) ==> (fold(e).0 is None ==> visit(e) == fold(
            *l,
        ).1 + fold(*r).1 + visit(*l) + visit(*r)),
{
    match e {
        Expression::Divide(_, _, l, r) | Expression::Modulo(_, _, l, r)
        | Expression::BitwiseAnd(_, _, l, r) | Expression::BitwiseOr(_, _, l, r)
        | Expression::BitwiseXor(_, _, l, r) => {
            assert(visit(e) =~= visit(*l) + visit(*r));
        },
        Expression::ZeroExt(_, _, x) | Expression::SignExt(_, _, x) | Expression::Cast(_, _, x)
        | Expression::Not(_, x) | Expression::Complement(_, _, x)
        | Expression::UnaryMinus(_, _, x) => {
            assert(visit(e) =~= visit(*x));
        },
        Expression::Add(_, _, _, l, r) | Expression::Subtract(_, _, _, l, r)
        | Expression::Multiply(_, _, _, l, r) | Expression::Power(_, _, _, l, r)
        | Expression::ShiftLeft(_, _, l, r) | Expression::ShiftRight(_, _, l, r, _) => {
            if fold(e).0 is None {
                assert(visit(e) =~= fold(*l).1 + fold(*r).1 + visit(*l) + visit(*r));
            }
        },
        _ => {},
    }
}

/// Checking two lists one after the other reports what checking each
/// reports, in order: with `lemma_visit_operands`, the errors for `l % r`
/// (or `/`, `&`, `|`, `^`) are those for `l` followed by those for `r`.
pub proof fn lemma_all_overflow_diagnostics_append(a: Seq<(Type, int)>, b: Seq<(Type, int)>, loc: Loc)
    ensures
        all_overflow_diagnostics(a + b, loc) == all_overflow_diagnostics(a, loc)
            + all_overflow_diagnostics(b, loc),
    decreases b.len(),
{
    if b.len() == 0 {
        assert(a + b =~= a);
        assert(all_overflow_diagnostics(a, loc) + all_overflow_diagnostics(b, loc) =~= all_overflow_diagnostics(a, loc));
    } else {
        assert((a + b).drop_last() =~= a + b.drop_last());
        assert((a + b).last() == b.last());
        lemma_all_overflow_diagnostics_append(a, b.drop_last(), loc);
        assert(all_overflow_diagnostics(a, loc) + all_overflow_diagnostics(b, loc) =~= all_overflow_diagnostics(a, loc)
            + all_overflow_diagnostics(b.drop_last(), loc) + overflow_diagnostics(b.last().1, b.last().0, loc));
    }
}

} // verus!
