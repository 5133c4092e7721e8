//! Tests of the checker: rule registry, severity overrides, suppression,
//! and construction errors.

use selene_lib::ast::{Ast, BinOp, Block, Expression, ExpressionKind, Stmt, Token, Var};
use selene_lib::rules::unscoped_variables::UnscopedVariablesConfig;
use selene_lib::rules::Severity;
use selene_lib::standard_library::StandardLibrary;
use selene_lib::{Checker, CheckerConfig, CheckerErrorProblem, RuleConfigs, RuleVariation};

fn tok(text: &str, a: u32, b: u32) -> Token {
    Token { text: text.to_owned(), span: (a, b) }
}

fn ex(a: u32, b: u32, kind: ExpressionKind) -> Expression {
    Expression { span: (a, b), kind }
}

fn num(text: &str, a: u32, b: u32) -> Expression {
    ex(a, b, ExpressionKind::Number { token: tok(text, a, b) })
}

fn name_var(text: &str, a: u32, b: u32) -> Expression {
    ex(a, b, ExpressionKind::Var { var: Var::Name { token: tok(text, a, b) } })
}

fn empty_library() -> StandardLibrary {
    StandardLibrary { globals: Vec::new(), meta: None }
}

/// `local x = a == 0/0`, which the nan rule reports as an error by default.
fn nan_ast() -> Ast {
    let zero_over_zero = ex(
        15,
        18,
        ExpressionKind::BinaryOperator {
            lhs: Box::new(num("0", 15, 16)),
            binop: BinOp::Slash,
            rhs: Box::new(num("0", 17, 18)),
        },
    );
    let comparison = ex(
        10,
        18,
        ExpressionKind::BinaryOperator {
            lhs: Box::new(name_var("a", 10, 11)),
            binop: BinOp::TwoEqual,
            rhs: Box::new(zero_over_zero),
        },
    );
    Ast {
        nodes: Block {
            stmts: vec![Stmt::LocalAssignment {
                names: vec![tok("x", 6, 7)],
                expressions: vec![comparison],
            }],
            last_stmt: None,
        },
    }
}

fn config_with(rules: Vec<(String, RuleVariation)>) -> CheckerConfig {
    CheckerConfig {
        config: RuleConfigs { high_cyclomatic_complexity: None, unscoped_variables: None },
        rules,
        std: "lua51".to_owned(),
    }
}

#[test]
fn test_default_configuration() {
    let config = CheckerConfig::default();
    assert!(config.rules.is_empty());
    assert_eq!(config.std, "lua51");
    let checker = Checker::new(config, empty_library()).unwrap();
    let diagnostics = checker.test_on(&nan_ast());
    assert_eq!(diagnostics.len(), 1);
    assert_eq!(diagnostics[0].diagnostic.code, "compare_nan");
    assert_eq!(diagnostics[0].severity, Severity::Error);
}

#[test]
fn test_severity_override() {
    // An explicit Warn rewrites the nan rule's error severity; an explicit
    // Deny on a warning-severity rule forces an error.
    let config = config_with(vec![("compare_nan".to_owned(), RuleVariation::Warn)]);
    let checker = Checker::new(config, empty_library()).unwrap();
    let diagnostics = checker.test_on(&nan_ast());
    assert_eq!(diagnostics.len(), 1);
    assert_eq!(diagnostics[0].severity, Severity::Warning);

    let config = config_with(vec![("unscoped_variables".to_owned(), RuleVariation::Deny)]);
    let checker = Checker::new(config, empty_library()).unwrap();
    let write = Ast {
        nodes: Block {
            stmts: vec![Stmt::Assignment {
                vars: vec![Var::Name { token: tok("y", 0, 1) }],
                expressions: vec![num("1", 4, 5)],
            }],
            last_stmt: None,
        },
    };
    let diagnostics = checker.test_on(&write);
    assert_eq!(diagnostics.len(), 1);
    assert_eq!(diagnostics[0].diagnostic.code, "unscoped_variables");
    assert_eq!(diagnostics[0].severity, Severity::Error);
}

#[test]
fn test_allow_suppresses() {
    // Configuring the nan rule Allow leaves no findings on an input the
    // default configuration reports, and the rule is never built at all.
    let config = config_with(vec![("compare_nan".to_owned(), RuleVariation::Allow)]);
    let checker = Checker::new(config, empty_library()).unwrap();
    assert!(checker.compare_nan.is_none());
    let diagnostics = checker.test_on(&nan_ast());
    assert!(diagnostics.is_empty());
}

#[test]
fn test_allow_severity_rule_needs_explicit_variation() {
    // The complexity rule's compiled-in severity is Allow: without an
    // explicit variation it stays off, and an explicit Warn turns it on.
    let checker = Checker::new(CheckerConfig::default(), empty_library()).unwrap();
    assert!(checker.high_cyclomatic_complexity.is_none());

    let config = config_with(vec![(
        "high_cyclomatic_complexity".to_owned(),
        RuleVariation::Warn,
    )]);
    let checker = Checker::new(config, empty_library()).unwrap();
    assert!(checker.high_cyclomatic_complexity.is_some());
}

#[test]
fn test_invalid_ignore_pattern_fails_construction() {
    // An unbalanced pattern is rejected when the unscoped-variables rule is
    // built, and the error names the rule.
    let config = CheckerConfig {
        config: RuleConfigs {
            high_cyclomatic_complexity: None,
            unscoped_variables: Some(UnscopedVariablesConfig {
                ignore_pattern: "[".to_owned(),
            }),
        },
        rules: Vec::new(),
        std: "lua51".to_owned(),
    };
    let error = match Checker::new(config, empty_library()) {
        Err(error) => error,
        Ok(_) => panic!("an invalid pattern must fail construction"),
    };
    assert_eq!(error.name, "unscoped_variables");
    match error.problem {
        CheckerErrorProblem::RuleNewError(inner) => {
            assert!(!inner.message.is_empty());
        },
        CheckerErrorProblem::ConfigDeserializeError(_) => {
            panic!("the pattern fails the rule, not deserialization");
        },
    }

    // Suppressing the rule makes the same configuration construct.
    let config = CheckerConfig {
        config: RuleConfigs {
            high_cyclomatic_complexity: None,
            unscoped_variables: Some(UnscopedVariablesConfig {
                ignore_pattern: "[".to_owned(),
            }),
        },
        rules: vec![("unscoped_variables".to_owned(), RuleVariation::Allow)],
        std: "lua51".to_owned(),
    };
    assert!(Checker::new(config, empty_library()).is_ok());
}

#[test]
fn test_diagnostics_in_registry_order() {
    // One tree that trips two rules: the nan comparison comes from the nan
    // rule, the top-level write from the unscoped rule, concatenated in the
    // registry's fixed order.
    let zero_over_zero = ex(
        5,
        8,
        ExpressionKind::BinaryOperator {
            lhs: Box::new(num("0", 5, 6)),
            binop: BinOp::Slash,
            rhs: Box::new(num("0", 7, 8)),
        },
    );
    let comparison = ex(
        0,
        8,
        ExpressionKind::BinaryOperator {
            lhs: Box::new(name_var("a", 0, 1)),
            binop: BinOp::TwoEqual,
            rhs: Box::new(zero_over_zero),
        },
    );
    let ast = Ast {
        nodes: Block {
            stmts: vec![Stmt::Assignment {
                vars: vec![Var::Name { token: tok("y", 0, 1) }],
                expressions: vec![comparison],
            }],
            last_stmt: None,
        },
    };
    let checker = Checker::new(CheckerConfig::default(), empty_library()).unwrap();
    let diagnostics = checker.test_on(&ast);
    assert_eq!(diagnostics.len(), 2);
    assert_eq!(diagnostics[0].diagnostic.code, "compare_nan");
    assert_eq!(diagnostics[1].diagnostic.code, "unscoped_variables");
}
