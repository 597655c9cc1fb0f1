use assignment::{ArithmeticRule, Assignment, SubstitutionToken};
use evalexpr::{ContextWithMutableVariables, DefaultNumericTypes, HashMapContext, Value};

type RuleFn = Box<dyn Fn(f64, i32, i32) -> f64 + Send + Sync>;

/// Works out the number of a rule, as a caller of the library does.
fn apply(rule: &ArithmeticRule<RuleFn>, d: f64, e: i32, f: i32) -> f64 {
    let expression = match rule {
        ArithmeticRule::Func(rule) => return (rule.rule_fn())(d, e, f),
        ArithmeticRule::Expr(rule) => rule.rule_str(),
        ArithmeticRule::Builtin(formula) => formula.expression(),
    };
    let mut context = HashMapContext::<DefaultNumericTypes>::new();
    context.set_value("D".to_owned(), Value::Float(d)).unwrap();
    context.set_value("E".to_owned(), Value::Float(e as f64)).unwrap();
    context.set_value("F".to_owned(), Value::Float(f as f64)).unwrap();
    evalexpr::eval_float_with_context(expression, &context).unwrap()
}

/// The six inputs of one evaluation.
#[derive(Default)]
struct InputSet {
    a: bool,
    b: bool,
    c: bool,
    d: f64,
    e: i32,
    f: i32,
}

/// Answers one request: the token and the number, or the error's text.
fn eval(assignment: &Assignment<RuleFn>, args: InputSet) -> Result<(SubstitutionToken, f64), String> {
    match assignment.eval(args.a, args.b, args.c) {
        Ok((token, rule)) => Ok((token, apply(rule, args.d, args.e, args.f))),
        Err(error) => Err(error.message()),
    }
}

#[test]
fn test_eval_empty() {
    let assignment: Assignment<RuleFn> = Assignment::new();

    let resp = eval(&assignment, InputSet::default()).unwrap_err();
    assert_eq!(resp, "Failed to apply logical rule.");
}

#[test]
fn test_eval_base_rules() {
    let assignment = Assignment::<RuleFn>::new().with_rules(true, false);

    let resp = eval(&assignment, InputSet::default()).unwrap_err();
    assert_eq!(resp, "Failed to apply logical rule.");

    let resp = eval(
        &assignment,
        InputSet { a: true, b: true, c: false, d: 2.0, e: 3, f: 4 },
    )
    .unwrap();
    assert_eq!(resp.0, SubstitutionToken::M);
    assert_eq!(resp.1, 2.6);
}

#[test]
fn test_eval_override_rules() {
    let assignment = Assignment::<RuleFn>::new().with_rules(true, true);

    let resp = eval(&assignment, InputSet::default()).unwrap_err();
    assert_eq!(resp, "Failed to apply logical rule.");

    let resp = eval(
        &assignment,
        InputSet { a: true, b: true, c: false, d: 2.0, e: 3, f: 15 },
    )
    .unwrap();
    assert_eq!(resp.0, SubstitutionToken::T);
    assert_eq!(resp.1, 1.0);
}

#[test]
fn test_eval_str_rules() {
    let mut assignment: Assignment<RuleFn> = Assignment::new();

    let resp = assignment.add_logical_rule_from_str(SubstitutionToken::M, "A && B".to_owned());
    assert!(resp.is_ok());

    let resp = assignment.add_arithmetic_rule_from_str(SubstitutionToken::M, "D + E".to_owned());
    assert!(resp.is_ok());

    let resp = eval(&assignment, InputSet::default()).unwrap_err();
    assert_eq!(resp, "Failed to apply logical rule.");

    let resp = eval(
        &assignment,
        InputSet { a: true, b: true, c: false, d: 1.0, e: 2, f: 0 },
    )
    .unwrap();
    assert_eq!(resp, (SubstitutionToken::M, 3.0));
}

#[test]
fn rule_strings_are_admitted_by_family() {
    let mut assignment: Assignment<RuleFn> = Assignment::new();

    let resp = assignment.add_logical_rule_from_str(SubstitutionToken::M, "A && B".to_owned());
    assert!(resp.is_ok());
    let resp = assignment.add_logical_rule_from_str(SubstitutionToken::M, "A + B".to_owned());
    assert_eq!(
        resp.unwrap_err().message(),
        "Expression contains invalid variables or operators."
    );

    let resp = assignment.add_arithmetic_rule_from_str(SubstitutionToken::M, "D + E".to_owned());
    assert!(resp.is_ok());
    let resp = assignment.add_arithmetic_rule_from_str(SubstitutionToken::M, "D && E".to_owned());
    assert_eq!(
        resp.unwrap_err().message(),
        "Expression contains invalid variables or operators."
    );
}

#[test]
fn predefined_sets_compute_every_routing() {
    let base = Assignment::<RuleFn>::new().with_rules(true, false);
    let both = Assignment::<RuleFn>::new().with_rules(true, true);

    // P by the base formula, and by the custom one that replaces it.
    let args = || InputSet { a: true, b: true, c: true, d: 51.0, e: 7, f: 2 };
    assert_eq!(eval(&base, args()), Ok((SubstitutionToken::P, 61.0)));
    assert_eq!(eval(&both, args()), Ok((SubstitutionToken::P, 2.0 * 51.0 + (51.0 * 7.0 / 100.0))));

    // T by the base formula, which the custom set leaves alone.
    let args = || InputSet { a: false, b: true, c: true, d: 3.0, e: 7, f: 10 };
    assert_eq!(eval(&base, args()), Ok((SubstitutionToken::T, 2.0)));
    assert_eq!(eval(&both, args()), Ok((SubstitutionToken::T, 2.0)));

    // M is routed to by the custom set alone, with its own formula.
    let args = || InputSet { a: true, b: false, c: true, d: 2.0, e: 50, f: 9 };
    assert_eq!(eval(&base, args()), Err("Failed to apply logical rule.".to_owned()));
    assert_eq!(eval(&both, args()), Ok((SubstitutionToken::M, 12.0)));
}
