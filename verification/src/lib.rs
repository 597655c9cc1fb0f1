//! A rule store that grades six inputs in two steps: a chain of logical rules
//! over three booleans picks a substitution token, and the arithmetic rule
//! registered for that token says how the number is worked out.
//!
//! Rules are either built from functions or from expression strings. A string
//! is admitted only if it is spelled in the alphabet of its family and the
//! expression engine can evaluate it.

pub mod arithmetic_rule;
pub mod engine;
pub mod error;
pub mod grammar;
pub mod logical_rule;
pub mod resolution;
pub mod store;
pub mod token;
pub mod token_map;

pub use arithmetic_rule::{ArithmeticRule, ArithmeticRuleFn, ArithmeticRuleStr, Formula};
pub use error::{EvalError, ValidationError};
pub use logical_rule::{LogicalRule, LogicalRuleFn, LogicalRuleStr};
pub use store::Assignment;
pub use token::SubstitutionToken;
pub use token_map::TokenMap;
