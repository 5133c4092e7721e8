//! Tests of the individual rules: nan comparisons, parenthesized
//! conditions, cyclomatic complexity, `UDim2.new` argument counts, and
//! unscoped variables.

use selene_lib::ast::{Ast, BinOp, Block, Call, ElseIf, Expression, ExpressionKind, FunctionArgs,
    FunctionBody, FunctionCall, IfBlock, Index, Prefix, Stmt, Suffix, Token, Var};
use selene_lib::rules::compare_nan::CompareNanLint;
use selene_lib::rules::high_cyclomatic_complexity::{HighCyclomaticComplexityConfig,
    HighCyclomaticComplexityLint};
use selene_lib::rules::parenthese_conditions::ParentheseConditionsLint;
use selene_lib::rules::roblox_suspicious_udim2_new::UDim2ArgCountLint;
use selene_lib::rules::unscoped_variables::{UnscopedVariablesConfig, UnscopedVariablesLint};
use selene_lib::rules::{Context, Severity};
use selene_lib::standard_library::{Field, Meta, StandardLibrary};

fn tok(text: &str, a: u32, b: u32) -> Token {
    Token { text: text.to_owned(), span: (a, b) }
}

fn ex(a: u32, b: u32, kind: ExpressionKind) -> Expression {
    Expression { span: (a, b), kind }
}

fn num(text: &str, a: u32, b: u32) -> Expression {
    ex(a, b, ExpressionKind::Number { token: tok(text, a, b) })
}

fn name_var(text: &str, a: u32, b: u32) -> Expression {
    ex(a, b, ExpressionKind::Var { var: Var::Name { token: tok(text, a, b) } })
}

fn empty_context() -> Context {
    Context { standard_library: StandardLibrary { globals: Vec::new(), meta: None } }
}

fn roblox_context() -> Context {
    Context {
        standard_library: StandardLibrary {
            globals: Vec::new(),
            meta: Some(Meta { name: Some("roblox".to_owned()), base: None, structs: None }),
        },
    }
}

fn empty_block() -> Block {
    Block { stmts: Vec::new(), last_stmt: None }
}

/// `lhs op 0/0`
fn nan_comparison(variable: &str, op: BinOp, a: u32, b: u32) -> Expression {
    let zero_over_zero = ex(
        b - 3,
        b,
        ExpressionKind::BinaryOperator {
            lhs: Box::new(num("0", b - 3, b - 2)),
            binop: BinOp::Slash,
            rhs: Box::new(num("0", b - 1, b)),
        },
    );
    ex(
        a,
        b,
        ExpressionKind::BinaryOperator {
            lhs: Box::new(name_var(variable, a, a + 1)),
            binop: op,
            rhs: Box::new(zero_over_zero),
        },
    )
}

#[test]
fn test_compare_nan_variables() {
    // compare_nan, compare_nan_variables: `local x = a == 0/0`.
    let ast = Ast {
        nodes: Block {
            stmts: vec![Stmt::LocalAssignment {
                names: vec![tok("x", 6, 7)],
                expressions: vec![nan_comparison("a", BinOp::TwoEqual, 10, 18)],
            }],
            last_stmt: None,
        },
    };
    let lint = CompareNanLint::new(()).unwrap();
    let diagnostics = lint.pass(&ast, &empty_context());
    assert_eq!(diagnostics.len(), 1);
    assert_eq!(diagnostics[0].code, "compare_nan");
    assert_eq!(diagnostics[0].message, "comparing things to nan directly is not allowed");
    assert_eq!(diagnostics[0].notes, vec!["try: `a == a` instead".to_owned()]);
    assert_eq!(diagnostics[0].primary_label.range, (10, 18));
    assert_eq!(lint.severity(), Severity::Error);
}

#[test]
fn test_compare_nan_if() {
    // compare_nan, compare_nan_if: `if a ~= 0/0 then end`.
    let ast = Ast {
        nodes: Block {
            stmts: vec![Stmt::If {
                if_block: Box::new(IfBlock {
                    condition: nan_comparison("a", BinOp::TildeEqual, 3, 11),
                    block: empty_block(),
                    else_ifs: Vec::new(),
                    else_block: None,
                }),
            }],
            last_stmt: None,
        },
    };
    let lint = CompareNanLint::new(()).unwrap();
    let diagnostics = lint.pass(&ast, &empty_context());
    assert_eq!(diagnostics.len(), 1);
    assert_eq!(diagnostics[0].notes, vec!["try: `a ~= a` instead".to_owned()]);
}

#[test]
fn test_parenthese_conditions() {
    // parenthese_conditions: `while (x) do end` and `if (y) then end` are
    // flagged, a bare condition is not.
    let paren_x = ex(6, 9, ExpressionKind::Parentheses {
        expression: Box::new(name_var("x", 7, 8)),
    });
    let paren_y = ex(20, 23, ExpressionKind::Parentheses {
        expression: Box::new(name_var("y", 21, 22)),
    });
    let ast = Ast {
        nodes: Block {
            stmts: vec![
                Stmt::While { condition: paren_x, block: empty_block() },
                Stmt::If {
                    if_block: Box::new(IfBlock {
                        condition: paren_y,
                        block: empty_block(),
                        else_ifs: vec![ElseIf {
                            condition: name_var("z", 40, 41),
                            block: empty_block(),
                        }],
                        else_block: None,
                    }),
                },
            ],
            last_stmt: None,
        },
    };
    let lint = ParentheseConditionsLint::new(()).unwrap();
    let diagnostics = lint.pass(&ast, &empty_context());
    assert_eq!(diagnostics.len(), 2);
    assert_eq!(diagnostics[0].code, "parenthese_conditions");
    assert_eq!(diagnostics[0].message, "lua does not require parentheses around conditions");
    assert_eq!(diagnostics[0].primary_label.range, (6, 9));
    assert_eq!(diagnostics[1].primary_label.range, (20, 23));
    assert_eq!(lint.severity(), Severity::Warning);
}

#[test]
fn test_limit_function_complexity() {
    // limit_function_complexity: a function whose body holds two `if`
    // statements has complexity three; with a maximum of two it is flagged.
    let body = FunctionBody {
        params_span: (14, 16),
        parameters: Vec::new(),
        block: Block {
            stmts: vec![
                Stmt::If {
                    if_block: Box::new(IfBlock {
                        condition: name_var("a", 20, 21),
                        block: empty_block(),
                        else_ifs: Vec::new(),
                        else_block: None,
                    }),
                },
                Stmt::If {
                    if_block: Box::new(IfBlock {
                        condition: name_var("b", 40, 41),
                        block: empty_block(),
                        else_ifs: Vec::new(),
                        else_block: None,
                    }),
                },
            ],
            last_stmt: None,
        },
    };
    let ast = Ast {
        nodes: Block {
            stmts: vec![Stmt::LocalFunction {
                function_span: (0, 8),
                name: tok("f", 9, 10),
                body,
            }],
            last_stmt: None,
        },
    };
    let flagging = HighCyclomaticComplexityLint::new(HighCyclomaticComplexityConfig {
        maximum_complexity: 2,
    })
    .unwrap();
    let diagnostics = flagging.pass(&ast, &empty_context());
    assert_eq!(diagnostics.len(), 1);
    assert_eq!(diagnostics[0].code, "limit_function_complexity");
    assert_eq!(diagnostics[0].message, "cyclomatic complexity is too high (3 > 2)");
    assert_eq!(diagnostics[0].primary_label.range, (0, 16));

    let permissive =
        HighCyclomaticComplexityLint::new(HighCyclomaticComplexityConfig::default()).unwrap();
    assert!(permissive.pass(&ast, &empty_context()).is_empty());
    assert_eq!(permissive.severity(), Severity::Allow);
}

fn udim2_new(args: Vec<Expression>, a: u32, b: u32) -> Ast {
    let call = FunctionCall {
        span: (a, b),
        prefix: Prefix::Name { token: tok("UDim2", a, a + 5) },
        suffixes: vec![
            Suffix::Index { index: Index::Dot { name: tok("new", a + 6, a + 9) } },
            Suffix::Call {
                call: Call::Anonymous { args: FunctionArgs::Parentheses { arguments: args } },
            },
        ],
    };
    Ast { nodes: Block { stmts: vec![Stmt::FunctionCall { call }], last_stmt: None } }
}

#[test]
fn test_roblox_suspicious_udim2_new() {
    // roblox_suspicious_udim2_new: two offsets suggest fromOffset, two
    // scales suggest fromScale, four arguments pass, and the rule is silent
    // outside Roblox.
    let lint = UDim2ArgCountLint::new(()).unwrap();
    let roblox = roblox_context();

    let offsets = udim2_new(vec![num("5", 10, 11), num("10", 13, 15)], 0, 16);
    let diagnostics = lint.pass(&offsets, &roblox);
    assert_eq!(diagnostics.len(), 1);
    assert_eq!(diagnostics[0].code, "roblox_suspicious_udim2_new");
    assert_eq!(diagnostics[0].message, "UDim2.new takes 4 numbers, but 2 were provided.");
    assert_eq!(
        diagnostics[0].notes,
        vec!["did you mean to use UDim2.fromOffset instead?".to_owned()]
    );

    let scales = udim2_new(vec![num("0.5", 10, 13), num("1", 15, 16)], 0, 17);
    let diagnostics = lint.pass(&scales, &roblox);
    assert_eq!(diagnostics.len(), 1);
    assert_eq!(
        diagnostics[0].notes,
        vec!["did you mean to use UDim2.fromScale instead?".to_owned()]
    );

    let one = udim2_new(vec![num("1", 10, 11)], 0, 12);
    let diagnostics = lint.pass(&one, &roblox);
    assert_eq!(diagnostics.len(), 1);
    assert_eq!(diagnostics[0].message, "UDim2.new takes 4 numbers, but 1 was provided.");

    let full = udim2_new(
        vec![num("0", 10, 11), num("5", 13, 14), num("1", 16, 17), num("0", 19, 20)],
        0,
        21,
    );
    assert!(lint.pass(&full, &roblox).is_empty());

    // Two non-number arguments pass over the two-argument form.
    let pair = udim2_new(vec![name_var("x", 10, 11), name_var("y", 13, 14)], 0, 15);
    assert!(lint.pass(&pair, &roblox).is_empty());

    // Outside Roblox nothing is reported.
    assert!(lint.pass(&offsets, &empty_context()).is_empty());
}

#[test]
fn test_unscoped_variables() {
    // unscoped_variables: `y = 1` at top level with no `local y`, the
    // default `^_` ignore pattern, and `y` absent from the globals, is
    // reported once; `_y = 1` is not.
    let assignment = |name: &str, a: u32, b: u32| Stmt::Assignment {
        vars: vec![Var::Name { token: tok(name, a, b) }],
        expressions: vec![num("1", b + 3, b + 4)],
    };
    let lint = UnscopedVariablesLint::new(UnscopedVariablesConfig::default()).unwrap();

    let flagged = Ast {
        nodes: Block { stmts: vec![assignment("y", 0, 1)], last_stmt: None },
    };
    let diagnostics = lint.pass(&flagged, &empty_context());
    assert_eq!(diagnostics.len(), 1);
    assert_eq!(diagnostics[0].code, "unscoped_variables");
    assert_eq!(
        diagnostics[0].message,
        "`y` is not declared locally, and will be available in every scope"
    );
    assert_eq!(diagnostics[0].primary_label.range, (0, 1));
    assert_eq!(lint.severity(), Severity::Warning);

    let ignored = Ast {
        nodes: Block { stmts: vec![assignment("_y", 0, 2)], last_stmt: None },
    };
    assert!(lint.pass(&ignored, &empty_context()).is_empty());

    // A prior local declaration also silences it.
    let declared = Ast {
        nodes: Block {
            stmts: vec![
                Stmt::LocalAssignment { names: vec![tok("y", 6, 7)], expressions: Vec::new() },
                assignment("y", 10, 11),
            ],
            last_stmt: None,
        },
    };
    assert!(lint.pass(&declared, &empty_context()).is_empty());

    // A name the standard library provides is a legitimate global write.
    let provided = Context {
        standard_library: StandardLibrary {
            globals: vec![("y".to_owned(), Field::Property { writable: None })],
            meta: None,
        },
    };
    assert!(lint.pass(&flagged, &provided).is_empty());
}
