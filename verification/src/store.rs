//! The rule store: it holds the rules and selects, for three booleans, the
//! token and the arithmetic rule that apply.

use crate::arithmetic_rule::{
    arithmetic_validation, ArithmeticRule, ArithmeticRuleFn, ArithmeticRuleStr, Formula,
};
use crate::error::{EvalError, ValidationError};
use crate::logical_rule::{logical_validation, LogicalRule, LogicalRuleFn, LogicalRuleStr};
use crate::resolution::{
    base_outcomes, builtin_outcomes, custom_outcomes, last_match, with_base_formulas,
    with_builtin_formulas, with_custom_formulas, Rules,
};
use crate::token::SubstitutionToken;
use crate::token_map::TokenMap;
use vstd::prelude::*;

verus! {

/// The rule store: the logical rules in the order in which they were added,
/// and one arithmetic rule for each token that has one.
///
/// `F` is the type of the functions that the caller registers as arithmetic
/// rules.
pub struct Assignment<F> {
    logical_rules: Vec<LogicalRule>,
    arithmetic_rules: TokenMap<ArithmeticRule<F>>,
}

impl<F> View for Assignment<F> {
    type V = Rules<F>;

    closed spec fn view(&self) -> Rules<F> {
        Rules { logical: self.logical_rules@, arithmetic: self.arithmetic_rules@ }
    }
}

impl<F> Assignment<F> {
    /// The store without any rule.
    pub fn new() -> (store: Self)
        ensures
            store@ == Rules::<F>::empty(),
    {
        Assignment { logical_rules: Vec::new(), arithmetic_rules: TokenMap::new() }
    }

    /// Adds the chosen predefined sets of rules: the base set if `base` is
    /// set, then the custom set if `custom` is set.
    pub fn with_rules(self, base: bool, custom: bool) -> (store: Self)
        ensures
            store@.logical.len() == self@.logical.len() + (if base { 3nat } else { 0nat })
                + (if custom { 2nat } else { 0nat }),
            store@.logical.take(self@.logical.len() as int) == self@.logical,
            forall|a: bool, b: bool, c: bool| #[trigger]
                store@.outcomes(a, b, c) == self@.outcomes(a, b, c) + builtin_outcomes(
                    base,
                    custom,
                    a,
                    b,
                    c,
                ),
            store@.arithmetic == with_builtin_formulas(base, custom, self@.arithmetic),
    {
        let mut store = self;
        if base {
            store.add_base_rules();
        }
        let ghost middle = store@;
        if custom {
            store.add_custom_rules();
        }
        proof {
            assert(store@.logical.take(self@.logical.len() as int) =~= middle.logical.take(
                self@.logical.len() as int,
            ));
            assert forall|a: bool, b: bool, c: bool| #[trigger]
                store@.outcomes(a, b, c) == self@.outcomes(a, b, c) + builtin_outcomes(
                    base,
                    custom,
                    a,
                    b,
                    c,
                ) by {
                assert(middle.outcomes(a, b, c) =~= self@.outcomes(a, b, c) + (if base {
                    base_outcomes(a, b, c)
                } else {
                    Seq::empty()
                }));
                assert(store@.outcomes(a, b, c) =~= self@.outcomes(a, b, c) + builtin_outcomes(
                    base,
                    custom,
                    a,
                    b,
                    c,
                ));
            }
        }
        store
    }

    /// Appends a logical rule to the chain.
    pub fn add_logical_rule(&mut self, rule: LogicalRule)
        ensures
            final(self)@ == old(self)@.with_logical(rule),
    {
        self.logical_rules.push(rule);
    }

    /// Tabulates `rule_fn` into a logical rule for `token` and appends it to
    /// the chain.
    pub fn add_logical_rule_from_fn<G: Fn(bool, bool, bool) -> bool>(
        &mut self,
        token: SubstitutionToken,
        rule_fn: G,
    )
        requires
            forall|a: bool, b: bool, c: bool| call_requires(rule_fn, (a, b, c)),
        ensures
            final(self)@.logical.len() == old(self)@.logical.len() + 1,
            final(self)@.logical.drop_last() == old(self)@.logical,
            final(self)@.logical.last() is Func,
            final(self)@.logical.last()->Func_0.bound_token() == token,
            forall|a: bool, b: bool, c: bool|
                call_ensures(
                    rule_fn,
                    (a, b, c),
                    #[trigger] final(self)@.logical.last()->Func_0.truth(a, b, c),
                ),
            final(self)@.arithmetic == old(self)@.arithmetic,
    {
        let rule = LogicalRuleFn::new(token, rule_fn);
        self.add_logical_rule(LogicalRule::Func(rule));
        assert(self@.logical.drop_last() =~= old(self)@.logical);
    }

    /// Validates `rule_str` as a logical rule for `token` and appends it to
    /// the chain. A string that is turned down leaves the store as it was.
    pub fn add_logical_rule_from_str(&mut self, token: SubstitutionToken, rule_str: String) -> (added:
        Result<(), ValidationError>)
        ensures
            match added {
                Ok(()) => {
                    &&& logical_validation(rule_str@) is None
                    &&& final(self)@.logical.len() == old(self)@.logical.len() + 1
                    &&& final(self)@.logical.drop_last() == old(self)@.logical
                    &&& final(self)@.logical.last() is Expr
                    &&& final(self)@.logical.last()->Expr_0.bound_token() == token
                    &&& final(self)@.logical.last()->Expr_0.text() == rule_str@
                    &&& final(self)@.arithmetic == old(self)@.arithmetic
                },
                Err(error) => {
                    &&& logical_validation(rule_str@) == Some(error@)
                    &&& final(self)@ == old(self)@
                },
            },
    {
        match LogicalRuleStr::new(token, rule_str) {
            Ok(rule) => {
                self.add_logical_rule(LogicalRule::Expr(rule));
                assert(self@.logical.drop_last() =~= old(self)@.logical);
                Ok(())
            },
            Err(error) => Err(error),
        }
    }

    /// Puts an arithmetic rule at `token`. A rule that was there before is
    /// replaced.
    pub fn add_arithmetic_rule(&mut self, token: SubstitutionToken, rule: ArithmeticRule<F>)
        ensures
            final(self)@ == old(self)@.with_arithmetic(token, rule),
    {
        self.arithmetic_rules.insert(token, rule);
    }

    /// Registers the caller's function as the arithmetic rule of `token`.
    pub fn add_arithmetic_rule_from_fn(&mut self, token: SubstitutionToken, rule_fn: F)
        ensures
            final(self)@.arithmetic.contains_key(token),
            final(self)@.arithmetic[token] is Func,
            final(self)@.arithmetic[token]->Func_0.held() == rule_fn,
            final(self)@.arithmetic.remove(token) == old(self)@.arithmetic.remove(token),
            final(self)@.logical == old(self)@.logical,
    {
        let rule = ArithmeticRuleFn::new(rule_fn);
        self.add_arithmetic_rule(token, ArithmeticRule::Func(rule));
        assert(self@.arithmetic.remove(token) =~= old(self)@.arithmetic.remove(token));
    }

    /// Validates `rule_str` as an arithmetic rule and registers it for
    /// `token`. A string that is turned down leaves the store as it was.
    pub fn add_arithmetic_rule_from_str(
        &mut self,
        token: SubstitutionToken,
        rule_str: String,
    ) -> (added: Result<(), ValidationError>)
        ensures
            match added {
                Ok(()) => {
                    &&& arithmetic_validation(rule_str@) is None
                    &&& final(self)@.arithmetic.contains_key(token)
                    &&& final(self)@.arithmetic[token] is Expr
                    &&& final(self)@.arithmetic[token]->Expr_0.text() == rule_str@
                    &&& final(self)@.arithmetic.remove(token) == old(self)@.arithmetic.remove(
                        token,
                    )
                    &&& final(self)@.logical == old(self)@.logical
                },
                Err(error) => {
                    &&& arithmetic_validation(rule_str@) == Some(error@)
                    &&& final(self)@ == old(self)@
                },
            },
    {
        match ArithmeticRuleStr::new(rule_str) {
            Ok(rule) => {
                self.add_arithmetic_rule(token, ArithmeticRule::Expr(rule));
                assert(self@.arithmetic.remove(token) =~= old(self)@.arithmetic.remove(token));
                Ok(())
            },
            Err(error) => Err(error),
        }
    }

    /// Selects the token and the arithmetic rule for the three booleans.
    ///
    /// Every logical rule is asked, in the order in which the rules were
    /// added, and the last one that yields a token decides. The arithmetic
    /// rule is the one registered for that token.
    pub fn eval(&self, a: bool, b: bool, c: bool) -> (selected: Result<
        (SubstitutionToken, &ArithmeticRule<F>),
        EvalError,
    >)
        ensures
            match self@.resolution(a, b, c) {
                Ok((token, rule)) => {
                    &&& selected is Ok
                    &&& selected->Ok_0.0 == token
                    &&& *selected->Ok_0.1 == rule
                },
                Err(error) => selected is Err && selected->Err_0 == error,
            },
    {
        let ghost outcomes = self@.outcomes(a, b, c);
        let mut token: Option<SubstitutionToken> = None;
        let mut at: usize = 0;
        while at < self.logical_rules.len()
            invariant
                at <= self.logical_rules@.len(),
                outcomes == self@.outcomes(a, b, c),
                token == last_match(outcomes.take(at as int)),
            decreases self.logical_rules@.len() - at,
        {
            let yielded = self.logical_rules[at].apply(a, b, c);
            proof {
                let seen = outcomes.take(at + 1);
                assert(seen.last() == yielded);
                assert(seen.drop_last() =~= outcomes.take(at as int));
            }
            if yielded.is_some() {
                token = yielded;
            }
            at += 1;
        }
        proof {
            assert(outcomes.take(at as int) =~= outcomes);
        }
        match token {
            None => Err(EvalError::NoMatchingLogicalRule),
            Some(token) => match self.arithmetic_rules.get(token) {
                Some(rule) => Ok((token, rule)),
                None => Err(EvalError::NoArithmeticRuleForToken),
            },
        }
    }

    /// Adds the base set: three logical rules, and a formula for each token.
    fn add_base_rules(&mut self)
        ensures
            final(self)@.logical.len() == old(self)@.logical.len() + 3,
            final(self)@.logical.take(old(self)@.logical.len() as int) == old(self)@.logical,
            forall|a: bool, b: bool, c: bool| #[trigger]
                final(self)@.outcomes(a, b, c) == old(self)@.outcomes(a, b, c) + base_outcomes(
                    a,
                    b,
                    c,
                ),
            final(self)@.arithmetic == with_base_formulas(old(self)@.arithmetic),
    {
        let for_m = |a: bool, b: bool, c: bool| -> (truth: bool)
            ensures
                truth == (a && b && !c),
            { a && b && !c };
        let for_p = |a: bool, b: bool, c: bool| -> (truth: bool)
            ensures
                truth == (a && b && c),
            { a && b && c };
        let for_t = |a: bool, b: bool, c: bool| -> (truth: bool)
            ensures
                truth == (!a && b && c),
            { !a && b && c };
        self.add_logical_rule_from_fn(SubstitutionToken::M, for_m);
        let ghost one = self@.logical;
        self.add_logical_rule_from_fn(SubstitutionToken::P, for_p);
        let ghost two = self@.logical;
        self.add_logical_rule_from_fn(SubstitutionToken::T, for_t);

        self.add_arithmetic_rule(SubstitutionToken::M, ArithmeticRule::Builtin(Formula::BaseM));
        self.add_arithmetic_rule(SubstitutionToken::P, ArithmeticRule::Builtin(Formula::BaseP));
        self.add_arithmetic_rule(SubstitutionToken::T, ArithmeticRule::Builtin(Formula::BaseT));

        proof {
            let before = old(self)@.logical;
            let after = self@.logical;
            assert(two =~= after.drop_last());
            assert(one =~= two.drop_last());
            assert(before =~= one.drop_last());
            assert(after.take(before.len() as int) =~= before);
            assert forall|a: bool, b: bool, c: bool| #[trigger]
                self@.outcomes(a, b, c) == old(self)@.outcomes(a, b, c) + base_outcomes(
                    a,
                    b,
                    c,
                ) by {
                assert(one.last()->Func_0.truth(a, b, c) == (a && b && !c));
                assert(two.last()->Func_0.truth(a, b, c) == (a && b && c));
                assert(after.last()->Func_0.truth(a, b, c) == (!a && b && c));
                assert(self@.outcomes(a, b, c) =~= old(self)@.outcomes(a, b, c) + base_outcomes(
                    a,
                    b,
                    c,
                ));
            }
        }
    }

    /// Adds the custom set: two logical rules that override the routing of
    /// the base set, and formulas that replace those of two tokens.
    fn add_custom_rules(&mut self)
        ensures
            final(self)@.logical.len() == old(self)@.logical.len() + 2,
            final(self)@.logical.take(old(self)@.logical.len() as int) == old(self)@.logical,
            forall|a: bool, b: bool, c: bool| #[trigger]
                final(self)@.outcomes(a, b, c) == old(self)@.outcomes(a, b, c) + custom_outcomes(
                    a,
                    b,
                    c,
                ),
            final(self)@.arithmetic == with_custom_formulas(old(self)@.arithmetic),
    {
        let for_t = |a: bool, b: bool, c: bool| -> (truth: bool)
            ensures
                truth == (a && b && !c),
            { a && b && !c };
        let for_m = |a: bool, b: bool, c: bool| -> (truth: bool)
            ensures
                truth == (a && !b && c),
            { a && !b && c };
        self.add_logical_rule_from_fn(SubstitutionToken::T, for_t);
        let ghost one = self@.logical;
        self.add_logical_rule_from_fn(SubstitutionToken::M, for_m);

        self.add_arithmetic_rule(SubstitutionToken::P, ArithmeticRule::Builtin(Formula::CustomP));
        self.add_arithmetic_rule(SubstitutionToken::M, ArithmeticRule::Builtin(Formula::CustomM));

        proof {
            let before = old(self)@.logical;
            let after = self@.logical;
            assert(one =~= after.drop_last());
            assert(before =~= one.drop_last());
            assert(after.take(before.len() as int) =~= before);
            assert forall|a: bool, b: bool, c: bool| #[trigger]
                self@.outcomes(a, b, c) == old(self)@.outcomes(a, b, c) + custom_outcomes(
                    a,
                    b,
                    c,
                ) by {
                assert(one.last()->Func_0.truth(a, b, c) == (a && b && !c));
                assert(after.last()->Func_0.truth(a, b, c) == (a && !b && c));
                assert(self@.outcomes(a, b, c) =~= old(self)@.outcomes(a, b, c) + custom_outcomes(
                    a,
                    b,
                    c,
                ));
            }
        }
    }

    /// The number of logical rules.
    pub fn logical_rule_count(&self) -> (count: usize)
        ensures
            count == self@.logical.len(),
    {
        self.logical_rules.len()
    }

    /// The logical rule at `index` of the chain, if the chain is that long.
    pub fn logical_rule(&self, index: usize) -> (rule: Option<&LogicalRule>)
        ensures
            match rule {
                Some(rule) => index < self@.logical.len() && *rule == self@.logical[index as int],
                None => index >= self@.logical.len(),
            },
    {
        if index < self.logical_rules.len() {
            Some(&self.logical_rules[index])
        } else {
            None
        }
    }

    /// The number of tokens that have an arithmetic rule.
    pub fn arithmetic_rule_count(&self) -> (count: usize)
        ensures
            self@.arithmetic.dom().finite(),
            count == self@.arithmetic.len(),
    {
        self.arithmetic_rules.len()
    }

    /// The arithmetic rule of `token`, if it has one.
    pub fn arithmetic_rule(&self, token: SubstitutionToken) -> (rule: Option<&ArithmeticRule<F>>)
        ensures
            match rule {
                Some(rule) => self@.arithmetic.contains_key(token) && *rule
                    == self@.arithmetic[token],
                None => !self@.arithmetic.contains_key(token),
            },
    {
        self.arithmetic_rules.get(token)
    }
}

} // verus!
