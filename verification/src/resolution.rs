//! How a store answers, stated over plain values, and the laws of that
//! answer.
//!
//! For one input the logical rules of a store are a sequence of outcomes, one
//! for each rule in the order in which the rules were added. The last outcome
//! that is a token selects: a rule that is added later overrides the earlier
//! ones wherever it holds. The arithmetic rules are a map, in which a rule
//! that is added for a token replaces the one that was there.

use crate::arithmetic_rule::{ArithmeticRule, Formula};
use crate::error::EvalError;
use crate::logical_rule::LogicalRule;
use crate::token::SubstitutionToken;
use vstd::prelude::*;

verus! {

/// What each of the rules yields for the three booleans.
pub open spec fn outcomes_of(rules: Seq<LogicalRule>, a: bool, b: bool, c: bool) -> Seq<
    Option<SubstitutionToken>,
> {
    Seq::new(rules.len(), |i: int| rules[i].outcome(a, b, c))
}

/// The token of the last rule that yields one, if any rule does.
pub open spec fn last_match(outcomes: Seq<Option<SubstitutionToken>>) -> Option<SubstitutionToken>
    decreases outcomes.len(),
{
    if outcomes.len() == 0 {
        None
    } else if outcomes.last() is Some {
        outcomes.last()
    } else {
        last_match(outcomes.drop_last())
    }
}

/// What a store with the given rules answers: `outcomes` holds what each
/// logical rule yields for the input, in the order in which the rules were
/// added, and `arithmetic` holds the arithmetic rule of each token.
pub open spec fn resolution<F>(
    outcomes: Seq<Option<SubstitutionToken>>,
    arithmetic: Map<SubstitutionToken, ArithmeticRule<F>>,
) -> Result<(SubstitutionToken, ArithmeticRule<F>), EvalError> {
    match last_match(outcomes) {
        None => Err(EvalError::NoMatchingLogicalRule),
        Some(token) => if arithmetic.contains_key(token) {
            Ok((token, arithmetic[token]))
        } else {
            Err(EvalError::NoArithmeticRuleForToken)
        },
    }
}

/// The mathematical content of a store.
pub struct Rules<F> {
    /// The logical rules, in the order in which they were added.
    pub logical: Seq<LogicalRule>,
    /// The arithmetic rule of each token that has one.
    pub arithmetic: Map<SubstitutionToken, ArithmeticRule<F>>,
}

impl<F> Rules<F> {
    /// The store without any rule.
    pub open spec fn empty() -> Rules<F> {
        Rules { logical: Seq::empty(), arithmetic: Map::empty() }
    }

    /// The store with one more logical rule at the end of the chain.
    pub open spec fn with_logical(self, rule: LogicalRule) -> Rules<F> {
        Rules { logical: self.logical.push(rule), arithmetic: self.arithmetic }
    }

    /// The store with `rule` as the arithmetic rule of `token`.
    pub open spec fn with_arithmetic(self, token: SubstitutionToken, rule: ArithmeticRule<F>) -> Rules<
        F,
    > {
        Rules { logical: self.logical, arithmetic: self.arithmetic.insert(token, rule) }
    }

    /// What each logical rule yields for the three booleans.
    pub open spec fn outcomes(self, a: bool, b: bool, c: bool) -> Seq<Option<SubstitutionToken>> {
        outcomes_of(self.logical, a, b, c)
    }

    /// The token that the logical rules select for the three booleans.
    pub open spec fn selected(self, a: bool, b: bool, c: bool) -> Option<SubstitutionToken> {
        last_match(self.outcomes(a, b, c))
    }

    /// What the store answers for the three booleans.
    pub open spec fn resolution(self, a: bool, b: bool, c: bool) -> Result<
        (SubstitutionToken, ArithmeticRule<F>),
        EvalError,
    > {
        resolution(self.outcomes(a, b, c), self.arithmetic)
    }
}

/// What the logical rules of the base set yield, in their order.
pub open spec fn base_outcomes(a: bool, b: bool, c: bool) -> Seq<Option<SubstitutionToken>> {
    seq![
        if a && b && !c { Some(SubstitutionToken::M) } else { None },
        if a && b && c { Some(SubstitutionToken::P) } else { None },
        if !a && b && c { Some(SubstitutionToken::T) } else { None },
    ]
}

/// What the logical rules of the custom set yield, in their order.
pub open spec fn custom_outcomes(a: bool, b: bool, c: bool) -> Seq<Option<SubstitutionToken>> {
    seq![
        if a && b && !c { Some(SubstitutionToken::T) } else { None },
        if a && !b && c { Some(SubstitutionToken::M) } else { None },
    ]
}

/// What the logical rules of the chosen predefined sets yield: the base set
/// first, then the custom set.
pub open spec fn builtin_outcomes(base: bool, custom: bool, a: bool, b: bool, c: bool) -> Seq<
    Option<SubstitutionToken>,
> {
    (if base {
        base_outcomes(a, b, c)
    } else {
        Seq::empty()
    }) + (if custom {
        custom_outcomes(a, b, c)
    } else {
        Seq::empty()
    })
}

/// The arithmetic rules after the base set has been added.
pub open spec fn with_base_formulas<F>(
    arithmetic: Map<SubstitutionToken, ArithmeticRule<F>>,
) -> Map<SubstitutionToken, ArithmeticRule<F>> {
    arithmetic.insert(SubstitutionToken::M, ArithmeticRule::Builtin(Formula::BaseM)).insert(
        SubstitutionToken::P,
        ArithmeticRule::Builtin(Formula::BaseP),
    ).insert(SubstitutionToken::T, ArithmeticRule::Builtin(Formula::BaseT))
}

/// The arithmetic rules after the custom set has been added.
pub open spec fn with_custom_formulas<F>(
    arithmetic: Map<SubstitutionToken, ArithmeticRule<F>>,
) -> Map<SubstitutionToken, ArithmeticRule<F>> {
    arithmetic.insert(SubstitutionToken::P, ArithmeticRule::Builtin(Formula::CustomP)).insert(
        SubstitutionToken::M,
        ArithmeticRule::Builtin(Formula::CustomM),
    )
}

/// The arithmetic rules after the chosen predefined sets have been added:
/// the base set first, then the custom set.
pub open spec fn with_builtin_formulas<F>(
    base: bool,
    custom: bool,
    arithmetic: Map<SubstitutionToken, ArithmeticRule<F>>,
) -> Map<SubstitutionToken, ArithmeticRule<F>> {
    let with_base = if base {
        with_base_formulas(arithmetic)
    } else {
        arithmetic
    };
    if custom {
        with_custom_formulas(with_base)
    } else {
        with_base
    }
}

/// The token that the base set selects.
pub open spec fn base_selection(a: bool, b: bool, c: bool) -> Option<SubstitutionToken> {
    if a && b && !c {
        Some(SubstitutionToken::M)
    } else if a && b && c {
        Some(SubstitutionToken::P)
    } else if !a && b && c {
        Some(SubstitutionToken::T)
    } else {
        None
    }
}

/// The token that the base set followed by the custom set selects.
pub open spec fn overridden_selection(a: bool, b: bool, c: bool) -> Option<SubstitutionToken> {
    if a && b && !c {
        Some(SubstitutionToken::T)
    } else if a && !b && c {
        Some(SubstitutionToken::M)
    } else {
        base_selection(a, b, c)
    }
}

/// Where a token is selected, it is the token of the last rule that yields
/// one; where none is selected, no rule yields one.
pub proof fn lemma_last_match_is_last(outcomes: Seq<Option<SubstitutionToken>>)
    ensures
        match last_match(outcomes) {
            Some(token) => exists|i: int|
                {
                    &&& 0 <= i < outcomes.len()
                    &&& #[trigger] outcomes[i] == Some(token)
                    &&& forall|j: int| i < j < outcomes.len() ==> #[trigger] outcomes[j] is None
                },
            None => forall|i: int| 0 <= i < outcomes.len() ==> #[trigger] outcomes[i] is None,
        },
    decreases outcomes.len(),
{
    if outcomes.len() > 0 {
        let last = outcomes.len() - 1;
        let front = outcomes.drop_last();
        lemma_last_match_is_last(front);
        assert(forall|i: int| 0 <= i < front.len() ==> front[i] == outcomes[i]);
        if outcomes.last() is Some {
            assert(outcomes[last] == Some(last_match(outcomes)->0));
        } else {
            match last_match(front) {
                Some(token) => {
                    let i = choose|i: int|
                        {
                            &&& 0 <= i < front.len()
                            &&& #[trigger] front[i] == Some(token)
                            &&& forall|j: int| i < j < front.len() ==> #[trigger] front[j] is None
                        };
                    assert(outcomes[i] == Some(token));
                    assert forall|j: int| i < j < outcomes.len() implies #[trigger] outcomes[j]
                        is None by {
                        if j < front.len() {
                            assert(front[j] is None);
                        }
                    }
                },
                None => {
                    assert forall|i: int| 0 <= i < outcomes.len() implies #[trigger] outcomes[i]
                        is None by {
                        if i < front.len() {
                            assert(front[i] is None);
                        }
                    }
                },
            }
        }
    }
}

/// An input for which no logical rule yields a token is answered with
/// `NoMatchingLogicalRule`, whatever the arithmetic rules are; and that
/// answer is given for no other input.
pub proof fn lemma_unmatched_input_fails<F>(rules: Rules<F>, a: bool, b: bool, c: bool)
    ensures
        (forall|i: int|
            0 <= i < rules.logical.len() ==> (#[trigger] rules.logical[i]).outcome(a, b, c) is None)
            <==> rules.resolution(a, b, c) == Err::<
            (SubstitutionToken, ArithmeticRule<F>),
            EvalError,
        >(EvalError::NoMatchingLogicalRule),
{
    let outcomes = rules.outcomes(a, b, c);
    lemma_last_match_is_last(outcomes);
    if forall|i: int|
        0 <= i < rules.logical.len() ==> (#[trigger] rules.logical[i]).outcome(a, b, c) is None {
        assert forall|i: int| 0 <= i < outcomes.len() implies #[trigger] outcomes[i] is None by {
            assert(rules.logical[i].outcome(a, b, c) is None);
        }
    }
    if last_match(outcomes) is None {
        assert forall|i: int| 0 <= i < rules.logical.len() implies (#[trigger] rules.logical[i]).outcome(
            a,
            b,
            c,
        ) is None by {
            assert(outcomes[i] is None);
        }
    }
}

/// An input that selects a token without an arithmetic rule is answered
/// with `NoArithmeticRuleForToken`; and that answer is given for no other
/// input.
pub proof fn lemma_unregistered_token_fails<F>(rules: Rules<F>, a: bool, b: bool, c: bool)
    ensures
        (rules.selected(a, b, c) is Some && !rules.arithmetic.contains_key(
            rules.selected(a, b, c)->0,
        )) <==> rules.resolution(a, b, c) == Err::<
            (SubstitutionToken, ArithmeticRule<F>),
            EvalError,
        >(EvalError::NoArithmeticRuleForToken),
{
}

/// An arithmetic rule that is added for a token replaces the one that was
/// there: the store is as if the earlier one had never been added, and an
/// input that selects the token is answered with the later one.
pub proof fn lemma_readded_rule_replaces<F>(
    rules: Rules<F>,
    token: SubstitutionToken,
    earlier: ArithmeticRule<F>,
    later: ArithmeticRule<F>,
    a: bool,
    b: bool,
    c: bool,
)
    ensures
        rules.with_arithmetic(token, earlier).with_arithmetic(token, later)
            == rules.with_arithmetic(token, later),
        rules.selected(a, b, c) == Some(token) ==> rules.with_arithmetic(
            token,
            earlier,
        ).with_arithmetic(token, later).resolution(a, b, c) == Ok::<
            (SubstitutionToken, ArithmeticRule<F>),
            EvalError,
        >((token, later)),
{
    assert(rules.arithmetic.insert(token, earlier).insert(token, later) =~= rules.arithmetic.insert(
        token,
        later,
    ));
}

/// A logical rule that is added later overrides the earlier ones wherever
/// it yields a token, and leaves the selection to them wherever it yields
/// none.
pub proof fn lemma_later_rule_overrides<F>(
    rules: Rules<F>,
    rule: LogicalRule,
    a: bool,
    b: bool,
    c: bool,
)
    ensures
        rules.with_logical(rule).selected(a, b, c) == (if rule.outcome(a, b, c) is Some {
            rule.outcome(a, b, c)
        } else {
            rules.selected(a, b, c)
        }),
{
    let longer = rules.with_logical(rule).outcomes(a, b, c);
    assert(longer.last() == rule.outcome(a, b, c));
    assert(longer.drop_last() =~= rules.outcomes(a, b, c));
}

/// The selection of a chain that is followed by another: the second chain
/// decides wherever one of its rules yields a token.
pub proof fn lemma_last_match_of_chains(
    first: Seq<Option<SubstitutionToken>>,
    second: Seq<Option<SubstitutionToken>>,
)
    ensures
        last_match(first + second) == (if last_match(second) is Some {
            last_match(second)
        } else {
            last_match(first)
        }),
    decreases second.len(),
{
    if second.len() == 0 {
        assert(first + second =~= first);
    } else {
        let front = second.drop_last();
        lemma_last_match_of_chains(first, front);
        assert((first + second).last() == second.last());
        assert((first + second).drop_last() =~= first + front);
    }
}

/// The selection of the predefined sets: the base set alone selects by
/// `base_selection`, with the custom set after it the custom rules override
/// it, and without either nothing is selected.
pub proof fn lemma_builtin_selection(a: bool, b: bool, c: bool)
    ensures
        last_match(builtin_outcomes(true, false, a, b, c)) == base_selection(a, b, c),
        last_match(builtin_outcomes(true, true, a, b, c)) == overridden_selection(a, b, c),
        last_match(builtin_outcomes(false, false, a, b, c)) is None,
{
    let base = base_outcomes(a, b, c);
    let custom = custom_outcomes(a, b, c);
    let none = Seq::<Option<SubstitutionToken>>::empty();
    reveal_with_fuel(last_match, 4);
    assert(base.drop_last() =~= seq![base[0], base[1]]);
    assert(base.drop_last().drop_last() =~= seq![base[0]]);
    assert(last_match(base) == base_selection(a, b, c));
    assert(custom.drop_last() =~= seq![custom[0]]);
    assert(last_match(custom) == (if a && !b && c {
        Some(SubstitutionToken::M)
    } else if a && b && !c {
        Some(SubstitutionToken::T)
    } else {
        None
    }));
    lemma_last_match_of_chains(base, custom);
    lemma_last_match_of_chains(base, none);
    lemma_last_match_of_chains(none, none);
}

/// The formula that the base set registers for a token.
pub open spec fn base_formula(token: SubstitutionToken) -> Formula {
    match token {
        SubstitutionToken::M => Formula::BaseM,
        SubstitutionToken::P => Formula::BaseP,
        SubstitutionToken::T => Formula::BaseT,
    }
}

/// The formula that is registered for a token once the custom set has been
/// added after the base set.
pub open spec fn overridden_formula(token: SubstitutionToken) -> Formula {
    match token {
        SubstitutionToken::M => Formula::CustomM,
        SubstitutionToken::P => Formula::CustomP,
        SubstitutionToken::T => Formula::BaseT,
    }
}

/// What a store answers that holds the predefined sets and nothing else.
/// With the base set, an input is answered with the token of
/// `base_selection` and that token's base formula. With the custom set after
/// it, the custom rules override the selection and replace the formulas of
/// `P` and `M`.
pub proof fn lemma_builtin_resolution<F>(rules: Rules<F>, custom: bool, a: bool, b: bool, c: bool)
    requires
        rules.outcomes(a, b, c) == builtin_outcomes(true, custom, a, b, c),
        rules.arithmetic == with_builtin_formulas(
            true,
            custom,
            Map::<SubstitutionToken, ArithmeticRule<F>>::empty(),
        ),
    ensures
        !custom ==> rules.resolution(a, b, c) == (match base_selection(a, b, c) {
            Some(token) => Ok((token, ArithmeticRule::<F>::Builtin(base_formula(token)))),
            None => Err(EvalError::NoMatchingLogicalRule),
        }),
        custom ==> rules.resolution(a, b, c) == (match overridden_selection(a, b, c) {
            Some(token) => Ok((token, ArithmeticRule::<F>::Builtin(overridden_formula(token)))),
            None => Err(EvalError::NoMatchingLogicalRule),
        }),
{
    lemma_builtin_selection(a, b, c);
}

} // verus!
