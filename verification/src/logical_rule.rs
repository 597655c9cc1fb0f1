//! Logical rules: predicates over three booleans that yield a token where
//! they hold.

use crate::engine::{evaluate_logical, logical_value, MAX_EXPRESSION_LEN};
use crate::error::{too_long_text, ValidationError, ValidationFault};
use crate::grammar::{is_logical_expression, is_logical_text};
use crate::token::SubstitutionToken;
use vstd::prelude::*;

verus! {

/// The place of three booleans in a truth table of eight rows.
pub open spec fn row_of(a: bool, b: bool, c: bool) -> int {
    (if a { 4int } else { 0int }) + (if b { 2int } else { 0int }) + (if c { 1int } else { 0int })
}

/// A logical rule given by a function. The function is tabulated when the
/// rule is built, so the rule holds its truth table and nothing else.
pub struct LogicalRuleFn {
    token: SubstitutionToken,
    table: [bool; 8],
}

impl LogicalRuleFn {
    /// The token that the rule yields where it holds.
    pub closed spec fn bound_token(&self) -> SubstitutionToken {
        self.token
    }

    /// Whether the rule holds for the three booleans.
    pub closed spec fn truth(&self, a: bool, b: bool, c: bool) -> bool {
        self.table@[row_of(a, b, c)]
    }

    /// Builds the rule that yields `token` wherever `rule_fn` returns `true`.
    /// `rule_fn` is called once for each of the eight inputs.
    pub fn new<F: Fn(bool, bool, bool) -> bool>(token: SubstitutionToken, rule_fn: F) -> (rule: Self)
        requires
            forall|a: bool, b: bool, c: bool| call_requires(rule_fn, (a, b, c)),
        ensures
            rule.bound_token() == token,
            forall|a: bool, b: bool, c: bool|
                call_ensures(rule_fn, (a, b, c), #[trigger] rule.truth(a, b, c)),
    {
        let table = [
            rule_fn(false, false, false),
            rule_fn(false, false, true),
            rule_fn(false, true, false),
            rule_fn(false, true, true),
            rule_fn(true, false, false),
            rule_fn(true, false, true),
            rule_fn(true, true, false),
            rule_fn(true, true, true),
        ];
        LogicalRuleFn { token, table }
    }

    /// The token that the rule yields where it holds.
    pub fn token(&self) -> (token: SubstitutionToken)
        ensures
            token == self.bound_token(),
    {
        self.token
    }

    /// Whether the rule holds for the three booleans.
    pub fn holds(&self, a: bool, b: bool, c: bool) -> (truth: bool)
        ensures
            truth == self.truth(a, b, c),
    {
        let high: usize = if a { 4 } else { 0 };
        let middle: usize = if b { 2 } else { 0 };
        let low: usize = if c { 1 } else { 0 };
        self.table[high + middle + low]
    }
}

impl LogicalRuleFn {
    /// The token that the rule yields for the three booleans, if any.
    pub open spec fn outcome(&self, a: bool, b: bool, c: bool) -> Option<SubstitutionToken> {
        if self.truth(a, b, c) {
            Some(self.bound_token())
        } else {
            None
        }
    }

    /// Returns the rule's token if the rule holds for the three booleans.
    pub fn apply(&self, a: bool, b: bool, c: bool) -> (token: Option<SubstitutionToken>)
        ensures
            token == self.outcome(a, b, c),
    {
        if self.holds(a, b, c) {
            Some(self.token)
        } else {
            None
        }
    }
}

/// The verdict on a string offered as a logical rule: `None` if it is
/// admitted. It is turned down for its grammar if it is not spelled in the
/// logical alphabet; else as too long if it has more characters than the
/// engine is handed; else for the engine's message if the engine cannot
/// evaluate it to a boolean with `A`, `B` and `C` all true.
pub open spec fn logical_validation(text: Seq<char>) -> Option<ValidationFault> {
    if !is_logical_expression(text) {
        Some(ValidationFault::InvalidGrammar)
    } else if text.len() > MAX_EXPRESSION_LEN {
        Some(ValidationFault::CompileError(too_long_text()))
    } else {
        match logical_value(text, true, true, true) {
            Ok(_) => None,
            Err(message) => Some(ValidationFault::CompileError(message)),
        }
    }
}

/// The token that an expression rule yields: its own where the engine's
/// outcome is `true`, none where it is `false` or a message.
pub open spec fn token_where_true(
    token: SubstitutionToken,
    outcome: Result<bool, Seq<char>>,
) -> Option<SubstitutionToken> {
    match outcome {
        Ok(true) => Some(token),
        _ => None,
    }
}

/// A logical rule given by an expression string over `A`, `B` and `C`.
/// Only strings that pass validation are held.
pub struct LogicalRuleStr {
    token: SubstitutionToken,
    rule_str: String,
}

impl LogicalRuleStr {
    #[verifier::type_invariant]
    spec fn admitted(&self) -> bool {
        logical_validation(self.rule_str@) is None
    }

    /// The token that the rule yields where it holds.
    pub closed spec fn bound_token(&self) -> SubstitutionToken {
        self.token
    }

    /// The expression that the rule evaluates.
    pub closed spec fn text(&self) -> Seq<char> {
        self.rule_str@
    }

    /// Validates `rule_str` and builds the rule that yields `token` wherever
    /// the expression is true. The string is kept as it was given.
    pub fn new(token: SubstitutionToken, rule_str: String) -> (built: Result<
        Self,
        ValidationError,
    >)
        ensures
            match built {
                Ok(rule) => {
                    &&& logical_validation(rule_str@) is None
                    &&& rule.bound_token() == token
                    &&& rule.text() == rule_str@
                },
                Err(error) => logical_validation(rule_str@) == Some(error@),
            },
    {
        match Self::validate(rule_str.as_str()) {
            Ok(()) => Ok(LogicalRuleStr { token, rule_str }),
            Err(error) => Err(error),
        }
    }

    /// Checks a string offered as a logical rule: first its alphabet, then
    /// whether the engine evaluates it with all three variables true.
    pub fn validate(rule_str: &str) -> (verdict: Result<(), ValidationError>)
        ensures
            match verdict {
                Ok(()) => logical_validation(rule_str@) is None,
                Err(error) => logical_validation(rule_str@) == Some(error@),
            },
    {
        if !is_logical_text(rule_str) {
            return Err(ValidationError::InvalidGrammar);
        }
        if rule_str.unicode_len() > MAX_EXPRESSION_LEN {
            return Err(ValidationError::too_long());
        }
        ValidationError::compile_verdict(evaluate_logical(rule_str, true, true, true))
    }

    /// The token that the rule yields where it holds.
    pub fn token(&self) -> (token: SubstitutionToken)
        ensures
            token == self.bound_token(),
    {
        self.token
    }

    /// The expression that the rule evaluates. It has passed validation.
    pub fn rule_str(&self) -> (text: &str)
        ensures
            text@ == self.text(),
            logical_validation(text@) is None,
    {
        proof {
            use_type_invariant(self);
        }
        self.rule_str.as_str()
    }

    /// Picks the token for the engine's outcome on one input.
    pub fn select(token: SubstitutionToken, outcome: &Result<bool, String>) -> (picked: Option<
        SubstitutionToken,
    >)
        ensures
            picked == (match *outcome {
                Ok(true) => Some(token),
                _ => None,
            }),
    {
        match outcome {
            Ok(true) => Some(token),
            _ => None,
        }
    }
}

impl LogicalRuleStr {
    /// The token that the rule yields for the three booleans, if any: its
    /// own where the engine evaluates the expression to `true`.
    pub open spec fn outcome(&self, a: bool, b: bool, c: bool) -> Option<SubstitutionToken> {
        token_where_true(self.bound_token(), logical_value(self.text(), a, b, c))
    }

    /// Evaluates the expression with `A`, `B` and `C` bound to the three
    /// booleans, and returns the rule's token if it is true.
    pub fn apply(&self, a: bool, b: bool, c: bool) -> (token: Option<SubstitutionToken>)
        ensures
            token == self.outcome(a, b, c),
    {
        proof {
            use_type_invariant(self);
        }
        let outcome = evaluate_logical(self.rule_str.as_str(), a, b, c);
        Self::select(self.token, &outcome)
    }
}

/// A rule that maps three booleans to a token, or to nothing. The two kinds
/// differ in how they are built and answer to the same contract.
pub enum LogicalRule {
    /// A rule given by a function.
    Func(LogicalRuleFn),
    /// A rule given by a validated expression.
    Expr(LogicalRuleStr),
}

impl LogicalRule {
    /// The token that the rule yields for the three booleans, if any.
    pub open spec fn outcome(&self, a: bool, b: bool, c: bool) -> Option<SubstitutionToken> {
        match self {
            LogicalRule::Func(rule) => rule.outcome(a, b, c),
            LogicalRule::Expr(rule) => rule.outcome(a, b, c),
        }
    }

    /// Returns the rule's token if the rule holds for the three booleans.
    pub fn apply(&self, a: bool, b: bool, c: bool) -> (token: Option<SubstitutionToken>)
        ensures
            token == self.outcome(a, b, c),
    {
        match self {
            LogicalRule::Func(rule) => rule.apply(a, b, c),
            LogicalRule::Expr(rule) => rule.apply(a, b, c),
        }
    }
}

} // verus!
