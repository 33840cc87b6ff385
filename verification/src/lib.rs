//! Compile-time constant evaluation and overflow diagnostics for a Solidity
//! compiler front end, together with the conversion of Anchor IDL
//! descriptions into Solidity interface text.

pub mod bignum;
pub mod text;
pub mod ast;
pub mod eval;
pub mod overflow;
pub mod idl;
pub mod idl_json;
pub mod strings;

pub use ast::{Contract, Diagnostic, Diagnostics, Expression, Level, Loc, Namespace, Type, Variable};
pub use bignum::{BigNum, Rational};
pub use eval::{eval_const_number, eval_const_rational};
pub use idl::{idltype_to_solidity, program_id, write_solidity};
pub use idl_json::{output_file_name, parse_anchor_idl, solidity_file};
pub use overflow::verify_result;
pub use strings::unescape;
