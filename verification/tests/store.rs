use assignment::{
    ArithmeticRule, ArithmeticRuleFn, ArithmeticRuleStr, Assignment, EvalError, LogicalRule,
    LogicalRuleFn, LogicalRuleStr, SubstitutionToken,
};
use evalexpr::{ContextWithMutableVariables, DefaultNumericTypes, HashMapContext, Value};

type RuleFn = Box<dyn Fn(f64, i32, i32) -> f64 + Send + Sync>;

/// Works out the number of a rule, as a caller of the library does.
fn apply(rule: &ArithmeticRule<RuleFn>, d: f64, e: i32, f: i32) -> f64 {
    let expression = match rule {
        ArithmeticRule::Func(rule) => return (rule.rule_fn())(d, e, f),
        ArithmeticRule::Expr(rule) => rule.rule_str(),
        ArithmeticRule::Builtin(formula) => formula.expression(),
    };
    let mut context = HashMapContext::<DefaultNumericTypes>::new();
    context.set_value("D".to_owned(), Value::Float(d)).unwrap();
    context.set_value("E".to_owned(), Value::Float(e as f64)).unwrap();
    context.set_value("F".to_owned(), Value::Float(f as f64)).unwrap();
    evalexpr::eval_float_with_context(expression, &context).unwrap()
}

/// The six inputs of one evaluation.
#[derive(Default)]
struct InputSet {
    a: bool,
    b: bool,
    c: bool,
    d: f64,
    e: i32,
    f: i32,
}

/// Selects the rule in the store and works out the number.
fn eval(assignment: &Assignment<RuleFn>, args: InputSet) -> Result<(SubstitutionToken, f64), String> {
    match assignment.eval(args.a, args.b, args.c) {
        Ok((token, rule)) => Ok((token, apply(rule, args.d, args.e, args.f))),
        Err(error) => Err(error.message()),
    }
}

fn logical_fn(
    token: SubstitutionToken,
    rule_fn: impl Fn(bool, bool, bool) -> bool,
) -> LogicalRule {
    LogicalRule::Func(LogicalRuleFn::new(token, rule_fn))
}

fn arithmetic_fn(
    rule_fn: impl Fn(f64, i32, i32) -> f64 + Send + Sync + 'static,
) -> ArithmeticRule<RuleFn> {
    ArithmeticRule::Func(ArithmeticRuleFn::new(Box::new(rule_fn)))
}

fn number_at(assignment: &Assignment<RuleFn>, token: SubstitutionToken, d: f64, e: i32, f: i32) -> f64 {
    apply(assignment.arithmetic_rule(token).unwrap(), d, e, f)
}

#[test]
fn mod_test_new() {
    let assignment: Assignment<RuleFn> = Assignment::new();

    assert!(assignment.logical_rule_count() == 0);
    assert!(assignment.arithmetic_rule_count() == 0);
}

#[test]
fn test_with_rules() {
    let assignment = Assignment::<RuleFn>::new().with_rules(false, false);
    assert!(assignment.logical_rule_count() == 0);
    assert!(assignment.arithmetic_rule_count() == 0);

    let assignment = Assignment::<RuleFn>::new().with_rules(true, false);
    assert!(assignment.logical_rule_count() != 0);
    assert!(assignment.arithmetic_rule_count() != 0);

    let assignment = Assignment::<RuleFn>::new().with_rules(false, true);
    assert!(assignment.logical_rule_count() != 0);
    assert!(assignment.arithmetic_rule_count() != 0);

    let assignment = Assignment::<RuleFn>::new().with_rules(true, true);
    assert!(assignment.logical_rule_count() != 0);
    assert!(assignment.arithmetic_rule_count() != 0);
}

#[test]
fn mod_test_add_logical_rule() {
    let mut assignment: Assignment<RuleFn> = Assignment::new();

    let rule0 = LogicalRuleFn::new(SubstitutionToken::M, |a, _, _| a);
    assignment.add_logical_rule(LogicalRule::Func(rule0));

    assert_eq!(assignment.logical_rule_count(), 1);
    assert_eq!(assignment.arithmetic_rule_count(), 0);
    assert_eq!(
        assignment.logical_rule(0).unwrap().apply(true, true, true),
        Some(SubstitutionToken::M)
    );
    assert_eq!(assignment.logical_rule(0).unwrap().apply(false, true, true), None);

    let rule1 = LogicalRuleStr::new(SubstitutionToken::T, "B".to_owned()).unwrap();
    assignment.add_logical_rule(LogicalRule::Expr(rule1));

    assert_eq!(assignment.logical_rule_count(), 2);
    assert_eq!(assignment.arithmetic_rule_count(), 0);
    assert_eq!(
        assignment.logical_rule(1).unwrap().apply(true, true, true),
        Some(SubstitutionToken::T)
    );
    assert_eq!(assignment.logical_rule(1).unwrap().apply(true, false, true), None);
}

#[test]
fn test_add_logical_rule_from_fn() {
    let mut assignment: Assignment<RuleFn> = Assignment::new();

    assignment.add_logical_rule_from_fn(SubstitutionToken::M, |a, _, _| a);
    assert_eq!(assignment.logical_rule_count(), 1);
    assert_eq!(assignment.arithmetic_rule_count(), 0);
    assert_eq!(
        assignment.logical_rule(0).unwrap().apply(true, true, true),
        Some(SubstitutionToken::M)
    );
    assert_eq!(assignment.logical_rule(0).unwrap().apply(false, true, true), None);

    assignment.add_logical_rule_from_fn(SubstitutionToken::P, |_, b, _| b);
    assert_eq!(assignment.logical_rule_count(), 2);
    assert_eq!(assignment.arithmetic_rule_count(), 0);
    assert_eq!(
        assignment.logical_rule(1).unwrap().apply(true, true, true),
        Some(SubstitutionToken::P)
    );
    assert_eq!(assignment.logical_rule(1).unwrap().apply(true, false, true), None);
}

#[test]
fn test_add_logical_rule_from_str() {
    let mut assignment: Assignment<RuleFn> = Assignment::new();

    assignment
        .add_logical_rule_from_str(SubstitutionToken::M, "A".to_owned())
        .expect("Should not fail.");

    assert_eq!(assignment.logical_rule_count(), 1);
    assert_eq!(assignment.arithmetic_rule_count(), 0);
    assert_eq!(
        assignment.logical_rule(0).unwrap().apply(true, true, true),
        Some(SubstitutionToken::M)
    );
    assert_eq!(assignment.logical_rule(0).unwrap().apply(false, true, true), None);

    assignment
        .add_logical_rule_from_str(SubstitutionToken::T, "B".to_owned())
        .expect("Should not fail.");
    assert_eq!(assignment.logical_rule_count(), 2);
    assert_eq!(assignment.arithmetic_rule_count(), 0);
    assert_eq!(
        assignment.logical_rule(1).unwrap().apply(true, true, true),
        Some(SubstitutionToken::T)
    );
    assert_eq!(assignment.logical_rule(1).unwrap().apply(true, false, true), None);

    assignment
        .add_logical_rule_from_str(SubstitutionToken::P, "Z+X".to_owned())
        .expect_err("Should fail.");
    assert_eq!(assignment.logical_rule_count(), 2);
    assert_eq!(assignment.arithmetic_rule_count(), 0);
}

#[test]
fn mod_test_add_arithmetic_rule() {
    let mut assignment: Assignment<RuleFn> = Assignment::new();

    let rule0: ArithmeticRuleFn<RuleFn> = ArithmeticRuleFn::new(Box::new(|d, _, _| d));
    assignment.add_arithmetic_rule(SubstitutionToken::M, ArithmeticRule::Func(rule0));

    assert_eq!(assignment.logical_rule_count(), 0);
    assert_eq!(assignment.arithmetic_rule_count(), 1);
    assert_eq!(number_at(&assignment, SubstitutionToken::M, 2.0, 0, 0), 2.0);

    let rule1 = ArithmeticRuleStr::new("E".to_owned()).unwrap();
    assignment.add_arithmetic_rule(SubstitutionToken::T, ArithmeticRule::Expr(rule1));

    assert_eq!(assignment.logical_rule_count(), 0);
    assert_eq!(assignment.arithmetic_rule_count(), 2);
    assert_eq!(number_at(&assignment, SubstitutionToken::T, 0.0, 2, 0), 2.0);

    let rule2: ArithmeticRuleFn<RuleFn> = ArithmeticRuleFn::new(Box::new(|_, _, f| f as f64));
    assignment.add_arithmetic_rule(SubstitutionToken::T, ArithmeticRule::Func(rule2));

    assert_eq!(assignment.logical_rule_count(), 0);
    assert_eq!(assignment.arithmetic_rule_count(), 2);
    assert_eq!(number_at(&assignment, SubstitutionToken::T, 0.0, 0, 2), 2.0);
}

#[test]
fn test_add_arithmetic_rule_from_fn() {
    let mut assignment: Assignment<RuleFn> = Assignment::new();

    assignment.add_arithmetic_rule_from_fn(SubstitutionToken::M, Box::new(|d, _, _| d));
    assert_eq!(assignment.logical_rule_count(), 0);
    assert_eq!(assignment.arithmetic_rule_count(), 1);
    assert_eq!(number_at(&assignment, SubstitutionToken::M, 2.0, 0, 0), 2.0);

    assignment.add_arithmetic_rule_from_fn(SubstitutionToken::T, Box::new(|_, e, _| e as f64));
    assert_eq!(assignment.logical_rule_count(), 0);
    assert_eq!(assignment.arithmetic_rule_count(), 2);
    assert_eq!(number_at(&assignment, SubstitutionToken::T, 0.0, 2, 0), 2.0);

    assignment.add_arithmetic_rule_from_fn(SubstitutionToken::T, Box::new(|_, _, f| f as f64));
    assert_eq!(assignment.logical_rule_count(), 0);
    assert_eq!(assignment.arithmetic_rule_count(), 2);
    assert_eq!(number_at(&assignment, SubstitutionToken::T, 0.0, 0, 2), 2.0);
}

#[test]
fn test_add_arithmetic_rule_from_str() {
    let mut assignment: Assignment<RuleFn> = Assignment::new();

    assignment
        .add_arithmetic_rule_from_str(SubstitutionToken::M, "D".to_owned())
        .expect("Should not fail.");

    assert_eq!(assignment.logical_rule_count(), 0);
    assert_eq!(assignment.arithmetic_rule_count(), 1);
    assert_eq!(number_at(&assignment, SubstitutionToken::M, 2.0, 0, 0), 2.0);

    assignment
        .add_arithmetic_rule_from_str(SubstitutionToken::T, "E".to_owned())
        .expect("Should not fail.");
    assert_eq!(assignment.logical_rule_count(), 0);
    assert_eq!(assignment.arithmetic_rule_count(), 2);
    assert_eq!(number_at(&assignment, SubstitutionToken::T, 0.0, 2, 0), 2.0);

    assignment
        .add_arithmetic_rule_from_str(SubstitutionToken::P, "Z&&X".to_owned())
        .expect_err("Should fail.");
    assert_eq!(assignment.logical_rule_count(), 0);
    assert_eq!(assignment.arithmetic_rule_count(), 2);
}

#[test]
#[should_panic(expected = "Failed to apply logical rule.")]
fn mod_test_eval_empty_logical_rules() {
    let mut assignment: Assignment<RuleFn> = Assignment::new();

    let rule = arithmetic_fn(|_, _, _| 0.0);
    assignment.add_arithmetic_rule(SubstitutionToken::M, rule);
    eval(&assignment, InputSet::default()).unwrap();
}

#[test]
#[should_panic(expected = "Failed to find arithmetic rule for token.")]
fn mod_test_eval_empty_arithmetic_rules() {
    let mut assignment: Assignment<RuleFn> = Assignment::new();

    let rule = logical_fn(SubstitutionToken::M, |_, _, _| true);
    assignment.add_logical_rule(rule);
    eval(&assignment, InputSet::default()).unwrap();
}

#[test]
fn mod_test_eval() {
    let mut assignment: Assignment<RuleFn> = Assignment::new();

    let rule = logical_fn(SubstitutionToken::M, |a, _, _| a);
    assignment.add_logical_rule(rule);
    let rule = logical_fn(SubstitutionToken::T, |_, b, _| b);
    assignment.add_logical_rule(rule);
    let rule = arithmetic_fn(|_, _, _| 2.0);
    assignment.add_arithmetic_rule(SubstitutionToken::M, rule);
    let rule = arithmetic_fn(|_, _, _| 3.0);
    assignment.add_arithmetic_rule(SubstitutionToken::T, rule);

    let res = eval(
        &assignment,
        InputSet { a: true, b: false, c: false, d: 0.0, e: 0, f: 0 },
    )
    .expect("eval() should return Ok()");
    assert_eq!(res, (SubstitutionToken::M, 2.0));

    let res = eval(
        &assignment,
        InputSet { a: false, b: true, c: false, d: 0.0, e: 0, f: 0 },
    )
    .expect("eval() should return Ok()");
    assert_eq!(res, (SubstitutionToken::T, 3.0));

    // Override logical rule to substitute to another arithmetic rule.
    let rule = logical_fn(SubstitutionToken::T, |a, _, _| a);
    assignment.add_logical_rule(rule);

    let res = eval(
        &assignment,
        InputSet { a: true, b: false, c: false, d: 0.0, e: 0, f: 0 },
    )
    .expect("eval() should return Ok()");
    assert_eq!(res, (SubstitutionToken::T, 3.0));

    // Override arithmetic rule.
    let rule = arithmetic_fn(|_, _, _| 4.0);
    assignment.add_arithmetic_rule(SubstitutionToken::T, rule);

    let res = eval(
        &assignment,
        InputSet { a: true, b: false, c: false, d: 0.0, e: 0, f: 0 },
    )
    .expect("eval() should return Ok()");
    assert_eq!(res, (SubstitutionToken::T, 4.0));

    // Override logical rule to no arithmetic rule.
    let rule = logical_fn(SubstitutionToken::P, |a, _, _| a);
    assignment.add_logical_rule(rule);

    let res = eval(
        &assignment,
        InputSet { a: true, b: false, c: false, d: 0.0, e: 0, f: 0 },
    );

    assert_eq!(
        res.unwrap_err().to_string(),
        "Failed to find arithmetic rule for token."
    );
}

#[test]
fn eval_reports_the_error_kind() {
    let mut assignment: Assignment<RuleFn> = Assignment::new();
    assert_eq!(
        assignment.eval(false, false, false).err(),
        Some(EvalError::NoMatchingLogicalRule)
    );
    assert_eq!(
        assignment.eval(true, true, true).err(),
        Some(EvalError::NoMatchingLogicalRule)
    );

    assignment.add_logical_rule_from_fn(SubstitutionToken::P, |a, _, _| a);
    assignment.add_arithmetic_rule_from_fn(SubstitutionToken::M, Box::new(|d, _, _| d));
    assert_eq!(
        assignment.eval(true, false, false).err(),
        Some(EvalError::NoArithmeticRuleForToken)
    );
    assert_eq!(
        assignment.eval(false, true, true).err(),
        Some(EvalError::NoMatchingLogicalRule)
    );
    assert_eq!(EvalError::NoMatchingLogicalRule.message(), "Failed to apply logical rule.");
    assert_eq!(
        EvalError::NoArithmeticRuleForToken.message(),
        "Failed to find arithmetic rule for token."
    );
}

#[test]
fn last_matching_rule_decides() {
    let mut assignment: Assignment<RuleFn> = Assignment::new();
    assignment.add_logical_rule_from_fn(SubstitutionToken::M, |a, _, _| a);
    assignment.add_logical_rule_from_fn(SubstitutionToken::T, |_, b, _| b);
    for token in [SubstitutionToken::M, SubstitutionToken::P, SubstitutionToken::T] {
        assignment.add_arithmetic_rule_from_fn(token, Box::new(|d, _, _| d));
    }

    let token_for = |a, b, c| assignment.eval(a, b, c).ok().map(|(token, _)| token);
    assert_eq!(token_for(true, true, false), Some(SubstitutionToken::T));
    assert_eq!(token_for(true, false, false), Some(SubstitutionToken::M));
    assert_eq!(token_for(false, true, false), Some(SubstitutionToken::T));
    assert_eq!(token_for(false, false, true), None);
}

#[test]
fn a_rule_that_yields_nothing_overrides_nothing() {
    let mut assignment: Assignment<RuleFn> = Assignment::new();
    assignment.add_logical_rule_from_fn(SubstitutionToken::M, |_, _, _| true);
    assignment.add_logical_rule_from_fn(SubstitutionToken::T, |_, _, _| false);
    assignment.add_logical_rule_from_str(SubstitutionToken::P, "A && !A".to_owned()).unwrap();
    assignment.add_arithmetic_rule_from_fn(SubstitutionToken::M, Box::new(|_, _, _| 7.0));

    let res = eval(&assignment, InputSet::default());
    assert_eq!(res, Ok((SubstitutionToken::M, 7.0)));
}

#[test]
fn readded_arithmetic_rule_replaces_the_earlier_one() {
    let mut assignment: Assignment<RuleFn> = Assignment::new();
    assignment.add_logical_rule_from_fn(SubstitutionToken::P, |_, _, _| true);
    assignment.add_arithmetic_rule_from_fn(SubstitutionToken::P, Box::new(|_, _, _| 1.0));
    assignment.add_arithmetic_rule_from_str(SubstitutionToken::P, "D + E".to_owned()).unwrap();
    assert_eq!(assignment.arithmetic_rule_count(), 1);
    assert_eq!(
        eval(&assignment, InputSet { d: 1.5, e: 2, ..InputSet::default() }),
        Ok((SubstitutionToken::P, 3.5))
    );

    assignment.add_arithmetic_rule_from_fn(SubstitutionToken::P, Box::new(|_, _, f| f as f64));
    assert_eq!(assignment.arithmetic_rule_count(), 1);
    assert_eq!(
        eval(&assignment, InputSet { d: 1.5, e: 2, f: 9, ..InputSet::default() }),
        Ok((SubstitutionToken::P, 9.0))
    );
}

#[test]
fn a_string_that_is_turned_down_leaves_the_store_as_it_was() {
    let mut assignment = Assignment::<RuleFn>::new().with_rules(true, false);
    assert!(assignment.add_logical_rule_from_str(SubstitutionToken::T, "A +".to_owned()).is_err());
    assert!(assignment.add_logical_rule_from_str(SubstitutionToken::T, "A &&".to_owned()).is_err());
    assert!(assignment.add_arithmetic_rule_from_str(SubstitutionToken::M, "A".to_owned()).is_err());
    assert!(assignment.add_arithmetic_rule_from_str(SubstitutionToken::M, "D +".to_owned()).is_err());
    assert_eq!(assignment.logical_rule_count(), 3);
    assert_eq!(assignment.arithmetic_rule_count(), 3);
    assert_eq!(
        eval(&assignment, InputSet { a: true, b: true, c: false, d: 2.0, e: 3, f: 4 }),
        Ok((SubstitutionToken::M, 2.6))
    );
}

#[test]
fn rules_are_found_by_index_and_by_token() {
    let assignment = Assignment::<RuleFn>::new().with_rules(true, true);
    assert_eq!(assignment.logical_rule_count(), 5);
    assert_eq!(assignment.arithmetic_rule_count(), 3);
    assert!(assignment.logical_rule(4).is_some());
    assert!(assignment.logical_rule(5).is_none());
    assert_eq!(
        assignment.arithmetic_rule(SubstitutionToken::T).unwrap().expression(),
        Some("D - (D * F / 30)")
    );
    assert_eq!(
        assignment.arithmetic_rule(SubstitutionToken::P).unwrap().expression(),
        Some("2 * D + (D * E / 100)")
    );

    let only_custom = Assignment::<RuleFn>::new().with_rules(false, true);
    assert_eq!(only_custom.logical_rule_count(), 2);
    assert_eq!(only_custom.arithmetic_rule_count(), 2);
    assert!(only_custom.arithmetic_rule(SubstitutionToken::T).is_none());
}

#[test]
fn predefined_sets_select_as_tabulated() {
    let (m, p, t) = (SubstitutionToken::M, SubstitutionToken::P, SubstitutionToken::T);
    let base = Assignment::<RuleFn>::new().with_rules(true, false);
    let both = Assignment::<RuleFn>::new().with_rules(true, true);
    let cases: [(bool, bool, bool, Option<SubstitutionToken>, Option<SubstitutionToken>); 8] = [
        (false, false, false, None, None),
        (false, false, true, None, None),
        (false, true, false, None, None),
        (false, true, true, Some(t), Some(t)),
        (true, false, false, None, None),
        (true, false, true, None, Some(m)),
        (true, true, false, Some(m), Some(t)),
        (true, true, true, Some(p), Some(p)),
    ];
    for (a, b, c, by_base, by_both) in cases {
        assert_eq!(base.eval(a, b, c).ok().map(|(token, _)| token), by_base);
        assert_eq!(both.eval(a, b, c).ok().map(|(token, _)| token), by_both);
    }
}
