//! Arithmetic rules: what is computed from one real and two integer inputs
//! once a token has been selected.
//!
//! This crate holds the rules and decides which one applies. It does not
//! compute with real numbers: a caller takes the selected rule and works out
//! the number.

use crate::engine::{arithmetic_complaint, check_arithmetic, MAX_EXPRESSION_LEN};
use crate::error::{too_long_text, ValidationError, ValidationFault};
use crate::grammar::{is_arithmetic_expression, is_arithmetic_text};
use vstd::prelude::*;

verus! {

/// The predefined formulas over the real input `d` and the integer inputs
/// `e` and `f`.
#[derive(Clone, Copy, Debug, PartialEq, Eq, Structural, Hash)]
pub enum Formula {
    /// The base formula of `M`: `d + d * e / 10`.
    BaseM,
    /// The base formula of `P`: `d + d * (e - f) / 25.5`.
    BaseP,
    /// The base formula of `T`: `d - d * f / 30`.
    BaseT,
    /// The custom formula of `P`: `2 * d + d * e / 100`.
    CustomP,
    /// The custom formula of `M`: `f + d + d * e / 100`.
    CustomM,
}

impl Formula {
    /// The formula as an expression over `D`, `E` and `F`.
    pub open spec fn text(self) -> Seq<char> {
        match self {
            Formula::BaseM => "D + (D * E / 10)"@,
            Formula::BaseP => "D + (D * (E - F) / 25.5)"@,
            Formula::BaseT => "D - (D * F / 30)"@,
            Formula::CustomP => "2 * D + (D * E / 100)"@,
            Formula::CustomM => "F + D + (D * E / 100)"@,
        }
    }

    /// The formula as an expression over `D`, `E` and `F`, in the notation
    /// of the expression engine.
    pub fn expression(&self) -> (text: &'static str)
        ensures
            text@ == self.text(),
    {
        match self {
            Formula::BaseM => "D + (D * E / 10)",
            Formula::BaseP => "D + (D * (E - F) / 25.5)",
            Formula::BaseT => "D - (D * F / 30)",
            Formula::CustomP => "2 * D + (D * E / 100)",
            Formula::CustomM => "F + D + (D * E / 100)",
        }
    }
}

/// An arithmetic rule given by a function of the caller's choosing.
pub struct ArithmeticRuleFn<F> {
    rule_fn: F,
}

impl<F> ArithmeticRuleFn<F> {
    /// The function that the rule holds.
    pub closed spec fn held(&self) -> F {
        self.rule_fn
    }

    /// Builds the rule that computes with `rule_fn`.
    pub fn new(rule_fn: F) -> (rule: Self)
        ensures
            rule.held() == rule_fn,
    {
        ArithmeticRuleFn { rule_fn }
    }

    /// The function that the rule holds.
    pub fn rule_fn(&self) -> (rule_fn: &F)
        ensures
            *rule_fn == self.held(),
    {
        &self.rule_fn
    }
}

/// The verdict on a string offered as an arithmetic rule: `None` if it is
/// admitted. It is turned down for its grammar if it is not spelled in the
/// arithmetic alphabet; else as too long if it has more characters than the
/// engine is handed; else for the engine's message if the engine cannot
/// evaluate it to a real number with `D`, `E` and `F` all zero.
pub open spec fn arithmetic_validation(text: Seq<char>) -> Option<ValidationFault> {
    if !is_arithmetic_expression(text) {
        Some(ValidationFault::InvalidGrammar)
    } else if text.len() > MAX_EXPRESSION_LEN {
        Some(ValidationFault::CompileError(too_long_text()))
    } else {
        match arithmetic_complaint(text, 0, 0, 0) {
            None => None,
            Some(message) => Some(ValidationFault::CompileError(message)),
        }
    }
}

/// An arithmetic rule given by an expression string over `D`, `E` and `F`.
/// Only strings that pass validation are held.
pub struct ArithmeticRuleStr {
    rule_str: String,
}

impl ArithmeticRuleStr {
    #[verifier::type_invariant]
    spec fn admitted(&self) -> bool {
        arithmetic_validation(self.rule_str@) is None
    }

    /// The expression that the rule evaluates.
    pub closed spec fn text(&self) -> Seq<char> {
        self.rule_str@
    }

    /// Validates `rule_str` and builds the rule that evaluates it. The string
    /// is kept as it was given.
    pub fn new(rule_str: String) -> (built: Result<Self, ValidationError>)
        ensures
            match built {
                Ok(rule) => arithmetic_validation(rule_str@) is None && rule.text() == rule_str@,
                Err(error) => arithmetic_validation(rule_str@) == Some(error@),
            },
    {
        match Self::validate(rule_str.as_str()) {
            Ok(()) => Ok(ArithmeticRuleStr { rule_str }),
            Err(error) => Err(error),
        }
    }

    /// Checks a string offered as an arithmetic rule: first its alphabet,
    /// then whether the engine evaluates it with all three variables zero.
    pub fn validate(rule_str: &str) -> (verdict: Result<(), ValidationError>)
        ensures
            match verdict {
                Ok(()) => arithmetic_validation(rule_str@) is None,
                Err(error) => arithmetic_validation(rule_str@) == Some(error@),
            },
    {
        if !is_arithmetic_text(rule_str) {
            return Err(ValidationError::InvalidGrammar);
        }
        if rule_str.unicode_len() > MAX_EXPRESSION_LEN {
            return Err(ValidationError::too_long());
        }
        ValidationError::compile_verdict(check_arithmetic(rule_str, 0, 0, 0))
    }

    /// The expression that the rule evaluates. It has passed validation.
    pub fn rule_str(&self) -> (text: &str)
        ensures
            text@ == self.text(),
            arithmetic_validation(text@) is None,
    {
        proof {
            use_type_invariant(self);
        }
        self.rule_str.as_str()
    }
}

/// An arithmetic rule: a function of the caller's, a validated expression,
/// or one of the predefined formulas.
pub enum ArithmeticRule<F> {
    /// A rule given by a function.
    Func(ArithmeticRuleFn<F>),
    /// A rule given by a validated expression.
    Expr(ArithmeticRuleStr),
    /// One of the predefined formulas.
    Builtin(Formula),
}

impl<F> ArithmeticRule<F> {
    /// The expression that the rule evaluates, where it is given by one.
    pub open spec fn text(&self) -> Option<Seq<char>> {
        match self {
            ArithmeticRule::Func(_) => None,
            ArithmeticRule::Expr(rule) => Some(rule.text()),
            ArithmeticRule::Builtin(formula) => Some(formula.text()),
        }
    }

    /// The expression over `D`, `E` and `F` that the rule evaluates, or
    /// `None` for a rule that is given by a function.
    pub fn expression(&self) -> (text: Option<&str>)
        ensures
            match text {
                Some(text) => self.text() == Some(text@),
                None => self.text() is None,
            },
    {
        match self {
            ArithmeticRule::Func(_) => None,
            ArithmeticRule::Expr(rule) => Some(rule.rule_str()),
            ArithmeticRule::Builtin(formula) => Some(formula.expression()),
        }
    }
}

} // verus!
