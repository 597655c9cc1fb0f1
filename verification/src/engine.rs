//! The two outside engines that the rules lean on: `evalexpr`, which evaluates
//! expression strings, and `regex`, which knows the Unicode character classes.
//!
//! Nothing in this file is proved. Each function states what the outside call
//! returns as a value that depends on the arguments alone; the rest of the
//! crate is verified against these statements.
//!
//! The expression engine is handed only strings that are spelled in the
//! alphabet of a rule family. In those alphabets none of the engine's
//! built-in functions can be named, so an expression is made of the family's
//! variables, literals and operators and of nothing else.

use crate::grammar::{is_arithmetic_expression, is_logical_expression};
use evalexpr::{ContextWithMutableVariables, EvalexprNumericTypes};
use vstd::prelude::*;

verus! {

/// The longest expression, in characters, that is handed to `evalexpr`. The
/// engine descends once for every operator that is nested in another, so a
/// string of some ten thousand characters can exhaust the stack of a thread,
/// and the time it takes grows with the square of the length.
pub const MAX_EXPRESSION_LEN: usize = 1024;

/// What `evalexpr` makes of `expr` when the variables `A`, `B` and `C` are
/// bound to the booleans `a`, `b` and `c`: the boolean that the expression
/// evaluates to, or the engine's message if it cannot be tokenised, parsed or
/// evaluated, or if its value is not a boolean. It is stated only of strings
/// in the logical alphabet that are no longer than `MAX_EXPRESSION_LEN`.
pub uninterp spec fn logical_value(expr: Seq<char>, a: bool, b: bool, c: bool) -> Result<
    bool,
    Seq<char>,
>;

/// What `evalexpr` makes of `expr` as a floating-point expression when the
/// variables `D`, `E` and `F` are bound to the floating-point numbers that
/// equal the integers `d`, `e` and `f`: `None` if it evaluates to a
/// floating-point number, else the engine's message. It is stated only of
/// strings in the arithmetic alphabet that are no longer than
/// `MAX_EXPRESSION_LEN`.
pub uninterp spec fn arithmetic_complaint(expr: Seq<char>, d: int, e: int, f: int) -> Option<
    Seq<char>,
>;

/// Whether the `regex` crate finds a match of `pattern` in `text`; `None` if
/// it cannot compile the pattern.
pub uninterp spec fn pattern_match(pattern: Seq<char>, text: Seq<char>) -> Option<bool>;

/// Calls `evalexpr::eval_boolean_with_context` on `expr`, in a fresh
/// `HashMapContext` that binds `A`, `B` and `C` to the arguments.
///
/// Trusted: on a string in the logical alphabet the engine returns, and the
/// outcome is a function of the four arguments. The engine reads nothing but
/// the string and the context, every operator of the alphabet yields a
/// boolean or an error, and an error is handed back as its `Display` text.
/// The bound on the length keeps the engine's recursion shallow.
#[verifier::external_body]
pub(crate) fn evaluate_logical(expr: &str, a: bool, b: bool, c: bool) -> (outcome: Result<
    bool,
    String,
>)
    requires
        is_logical_expression(expr@),
        expr@.len() <= MAX_EXPRESSION_LEN,
    ensures
        outcome is Ok ==> logical_value(expr@, a, b, c) == Ok::<bool, Seq<char>>(outcome->Ok_0),
        outcome is Err ==> logical_value(expr@, a, b, c) == Err::<bool, Seq<char>>(
            outcome->Err_0@,
        ),
{
    let mut context = evalexpr::HashMapContext::<evalexpr::DefaultNumericTypes>::new();
    let _ = context.set_value("A".to_owned(), evalexpr::Value::Boolean(a));
    let _ = context.set_value("B".to_owned(), evalexpr::Value::Boolean(b));
    let _ = context.set_value("C".to_owned(), evalexpr::Value::Boolean(c));
    match evalexpr::eval_boolean_with_context(expr, &context) {
        Ok(value) => Ok(value),
        Err(error) => Err(error.to_string()),
    }
}

/// Calls `evalexpr::eval_float_with_context` on `expr`, in a fresh
/// `HashMapContext` that binds `D`, `E` and `F` to the arguments, each turned
/// into a floating-point number by the engine's `int_as_float`, and drops the
/// number that the engine computes.
///
/// Trusted: on a string in the arithmetic alphabet the engine returns, and
/// whether it accepts the string, and the message if it does not, is a
/// function of the four arguments. Among integers the engine computes with
/// checked operations, which give an error in place of an overflow or a
/// division by zero; among floating-point numbers it computes with `+`, `-`,
/// `*` and `/` alone, where a division by zero is no error. The bound on the
/// length keeps the engine's recursion shallow.
#[verifier::external_body]
pub(crate) fn check_arithmetic(expr: &str, d: i32, e: i32, f: i32) -> (outcome: Result<
    (),
    String,
>)
    requires
        is_arithmetic_expression(expr@),
        expr@.len() <= MAX_EXPRESSION_LEN,
    ensures
        outcome is Ok ==> arithmetic_complaint(expr@, d as int, e as int, f as int) is None,
        outcome is Err ==> arithmetic_complaint(expr@, d as int, e as int, f as int) == Some(
            outcome->Err_0@,
        ),
{
    let d = evalexpr::DefaultNumericTypes::int_as_float(&d.into());
    let e = evalexpr::DefaultNumericTypes::int_as_float(&e.into());
    let f = evalexpr::DefaultNumericTypes::int_as_float(&f.into());
    let mut context = evalexpr::HashMapContext::<evalexpr::DefaultNumericTypes>::new();
    let _ = context.set_value("D".to_owned(), evalexpr::Value::Float(d));
    let _ = context.set_value("E".to_owned(), evalexpr::Value::Float(e));
    let _ = context.set_value("F".to_owned(), evalexpr::Value::Float(f));
    match evalexpr::eval_float_with_context(expr, &context) {
        Ok(_) => Ok(()),
        Err(error) => Err(error.to_string()),
    }
}

/// Compiles `pattern` with `regex::Regex::new` and asks `Regex::is_match`
/// whether the text that is made of the one character `c` holds a match.
///
/// Trusted: the answer is a function of the pattern and the character.
#[verifier::external_body]
pub(crate) fn matches_pattern(pattern: &str, c: char) -> (answer: Option<bool>)
    ensures
        answer == pattern_match(pattern@, seq![c]),
{
    match regex::Regex::new(pattern) {
        Ok(compiled) => Some(compiled.is_match(c.encode_utf8(&mut [0; 4]))),
        Err(_) => None,
    }
}

} // verus!
