//! The resolved program that constant evaluation reads: source locations,
//! types, expressions, the namespace of declared constants, and diagnostics.
use vstd::prelude::*;
use crate::bignum::{nat_decimal, BigNum, Rational};
use crate::text::push_decimal;

verus! {

/// A place in the source.
#[derive(PartialEq, Eq, Structural, Clone, Copy, Debug)]
pub enum Loc {
    Builtin,
    Codegen,
    Implicit,
    CommandLine,
    File(usize, usize, usize),
}

/// The types that constant expressions carry.
#[derive(PartialEq, Eq, Structural, Clone, Copy, Debug)]
pub enum Type {
    Bool,
    Int(u16),
    Uint(u16),
    Bytes(u8),
    DynamicBytes,
    Address,
    Rational,
}

/// How a type is written in Solidity source, as diagnostics name it.
pub open spec fn type_text(ty: Type) -> Seq<char> {
    match ty {
        Type::Bool => "bool"@,
        Type::Int(n) => "int"@ + nat_decimal(n as nat),
        Type::Uint(n) => "uint"@ + nat_decimal(n as nat),
        Type::Bytes(n) => "bytes"@ + nat_decimal(n as nat),
        Type::DynamicBytes => "bytes"@,
        Type::Address => "address"@,
        Type::Rational => "rational"@,
    }
}

impl Type {
    /// How the type is written in Solidity source.
    pub fn to_string(&self) -> (s: String)
        ensures
            s@ == type_text(*self),
    {
        match self {
            Type::Bool => String::from_str("bool"),
            Type::Int(n) => {
                let mut s = String::from_str("int");
                push_decimal(&mut s, *n as u64);
                s
            },
            Type::Uint(n) => {
                let mut s = String::from_str("uint");
                push_decimal(&mut s, *n as u64);
                s
            },
            Type::Bytes(n) => {
                let mut s = String::from_str("bytes");
                push_decimal(&mut s, *n as u64);
                s
            },
            Type::DynamicBytes => String::from_str("bytes"),
            Type::Address => String::from_str("address"),
            Type::Rational => String::from_str("rational"),
        }
    }
}

/// A resolved expression. Binary arithmetic carries its type and whether it
/// is unchecked; `ShiftRight` carries whether it is signed.
#[derive(Debug)]
pub enum Expression {
    Add(Loc, Type, bool, Box<Expression>, Box<Expression>),
    Subtract(Loc, Type, bool, Box<Expression>, Box<Expression>),
    Multiply(Loc, Type, bool, Box<Expression>, Box<Expression>),
    Divide(Loc, Type, Box<Expression>, Box<Expression>),
    Modulo(Loc, Type, Box<Expression>, Box<Expression>),
    Power(Loc, Type, bool, Box<Expression>, Box<Expression>),
    BitwiseOr(Loc, Type, Box<Expression>, Box<Expression>),
    BitwiseAnd(Loc, Type, Box<Expression>, Box<Expression>),
    BitwiseXor(Loc, Type, Box<Expression>, Box<Expression>),
    ShiftLeft(Loc, Type, Box<Expression>, Box<Expression>),
    ShiftRight(Loc, Type, Box<Expression>, Box<Expression>, bool),
    NumberLiteral(Loc, Type, BigNum),
    RationalNumberLiteral(Loc, Type, Rational),
    BoolLiteral(Loc, bool),
    ZeroExt(Loc, Type, Box<Expression>),
    SignExt(Loc, Type, Box<Expression>),
    Cast(Loc, Type, Box<Expression>),
    Not(Loc, Box<Expression>),
    Complement(Loc, Type, Box<Expression>),
    UnaryMinus(Loc, Type, Box<Expression>),
    /// A declared constant: the contract it belongs to (none for a constant
    /// at file level) and its number there.
    ConstantVariable(Loc, Type, Option<usize>, usize),
    /// A local variable, by number.
    Variable(Loc, Type, usize),
}

/// Where an expression stands in the source.
pub open spec fn expr_loc(e: Expression) -> Loc {
    match e {
        Expression::Add(loc, ..) => loc,
        Expression::Subtract(loc, ..) => loc,
        Expression::Multiply(loc, ..) => loc,
        Expression::Divide(loc, ..) => loc,
        Expression::Modulo(loc, ..) => loc,
        Expression::Power(loc, ..) => loc,
        Expression::BitwiseOr(loc, ..) => loc,
        Expression::BitwiseAnd(loc, ..) => loc,
        Expression::BitwiseXor(loc, ..) => loc,
        Expression::ShiftLeft(loc, ..) => loc,
        Expression::ShiftRight(loc, ..) => loc,
        Expression::NumberLiteral(loc, ..) => loc,
        Expression::RationalNumberLiteral(loc, ..) => loc,
        Expression::BoolLiteral(loc, ..) => loc,
        Expression::ZeroExt(loc, ..) => loc,
        Expression::SignExt(loc, ..) => loc,
        Expression::Cast(loc, ..) => loc,
        Expression::Not(loc, ..) => loc,
        Expression::Complement(loc, ..) => loc,
        Expression::UnaryMinus(loc, ..) => loc,
        Expression::ConstantVariable(loc, ..) => loc,
        Expression::Variable(loc, ..) => loc,
    }
}

impl Expression {
    /// Where the expression stands in the source.
    pub fn loc(&self) -> (l: Loc)
        ensures
            l == expr_loc(*self),
    {
        match self {
            Expression::Add(loc, ..) => *loc,
            Expression::Subtract(loc, ..) => *loc,
            Expression::Multiply(loc, ..) => *loc,
            Expression::Divide(loc, ..) => *loc,
            Expression::Modulo(loc, ..) => *loc,
            Expression::Power(loc, ..) => *loc,
            Expression::BitwiseOr(loc, ..) => *loc,
            Expression::BitwiseAnd(loc, ..) => *loc,
            Expression::BitwiseXor(loc, ..) => *loc,
            Expression::ShiftLeft(loc, ..) => *loc,
            Expression::ShiftRight(loc, ..) => *loc,
            Expression::NumberLiteral(loc, ..) => *loc,
            Expression::RationalNumberLiteral(loc, ..) => *loc,
            Expression::BoolLiteral(loc, ..) => *loc,
            Expression::ZeroExt(loc, ..) => *loc,
            Expression::SignExt(loc, ..) => *loc,
            Expression::Cast(loc, ..) => *loc,
            Expression::Not(loc, ..) => *loc,
            Expression::Complement(loc, ..) => *loc,
            Expression::UnaryMinus(loc, ..) => *loc,
            Expression::ConstantVariable(loc, ..) => *loc,
            Expression::Variable(loc, ..) => *loc,
        }
    }
}

/// A declared variable; a constant has an initializer.
#[derive(Debug)]
pub struct Variable {
    pub initializer: Option<Expression>,
}

/// A contract and its state variables.
#[derive(Debug)]
pub struct Contract {
    pub variables: Vec<Variable>,
}

/// Everything resolved so far: contracts, file-level constants and the
/// diagnostics reported.
#[derive(Debug)]
pub struct Namespace {
    pub contracts: Vec<Contract>,
    pub constants: Vec<Variable>,
    pub diagnostics: Diagnostics,
}

/// The initializer of the constant that `ConstantVariable(_, _, contract_no,
/// var_no)` names, when that constant exists and has one.
pub open spec fn constant_initializer(ns: Namespace, contract_no: Option<usize>, var_no: usize) -> Option<Expression> {
    match contract_no {
        Some(c) => if c < ns.contracts@.len() && var_no < ns.contracts@[c as int].variables@.len() {
            ns.contracts@[c as int].variables@[var_no as int].initializer
        } else {
            None
        },
        None => if var_no < ns.constants@.len() {
            ns.constants@[var_no as int].initializer
        } else {
            None
        },
    }
}

/// How serious a diagnostic is.
#[derive(PartialEq, Eq, Structural, Clone, Copy, Debug)]
pub enum Level {
    Debug,
    Info,
    Warning,
    Error,
}

/// A message about a place in the source.
#[derive(Debug)]
pub struct Diagnostic {
    pub loc: Loc,
    pub level: Level,
    pub message: String,
}

impl View for Diagnostic {
    type V = (Loc, Level, Seq<char>);

    open spec fn view(&self) -> (Loc, Level, Seq<char>) {
        (self.loc, self.level, self.message@)
    }
}

/// The view of an error at `loc` with text `message`.
pub open spec fn error_view(loc: Loc, message: Seq<char>) -> (Loc, Level, Seq<char>) {
    (loc, Level::Error, message)
}

impl Diagnostic {
    /// An error at `loc`.
    pub fn error(loc: Loc, message: String) -> (d: Diagnostic)
        ensures
            d@ == error_view(loc, message@),
    {
        Diagnostic { loc, level: Level::Error, message }
    }
}

/// The diagnostics reported, in order.
#[derive(Debug)]
pub struct Diagnostics {
    pub contents: Vec<Diagnostic>,
}

impl View for Diagnostics {
    type V = Seq<(Loc, Level, Seq<char>)>;

    open spec fn view(&self) -> Seq<(Loc, Level, Seq<char>)> {
        self.contents@.map_values(|d: Diagnostic| d@)
    }
}

impl Default for Diagnostics {
    fn default() -> (r: Diagnostics)
        ensures
            r@ == Seq::<(Loc, Level, Seq<char>)>::empty(),
    {
        let r = Diagnostics { contents: Vec::new() };
        assert(r@ =~= Seq::<(Loc, Level, Seq<char>)>::empty());
        r
    }
}

impl Diagnostics {
    /// Adds a diagnostic at the end.
    pub fn push(&mut self, d: Diagnostic)
        ensures
            final(self)@ == old(self)@.push(d@),
    {
        self.contents.push(d);
        assert(self@ =~= old(self)@.push(d@));
    }

    /// Whether nothing has been reported.
    pub fn is_empty(&self) -> (r: bool)
        ensures
            r == (self@.len() == 0),
    {
        self.contents.len() == 0
    }

    /// The number of diagnostics reported.
    pub fn len(&self) -> (r: usize)
        ensures
            r == self@.len(),
    {
        self.contents.len()
    }
}

} // verus!
