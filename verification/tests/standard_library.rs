//! Tests of the standard-library model and its call-site rule.

use selene_lib::ast::{Ast, Block, Call, Expression, ExpressionKind, FunctionArgs, FunctionCall,
    Index, Prefix, Stmt, Suffix, Token, Var, VarExpression};
use selene_lib::rules::standard_library::{check_function_call, get_argument_type, name_path,
    StandardLibraryLint};
use selene_lib::rules::Context;
use selene_lib::standard_library::{Argument, ArgumentType, Field, Meta, Required,
    StandardLibrary};

fn tok(text: &str, a: u32, b: u32) -> Token {
    Token { text: text.to_owned(), span: (a, b) }
}

fn ex(a: u32, b: u32, kind: ExpressionKind) -> Expression {
    Expression { span: (a, b), kind }
}

fn num(text: &str, a: u32, b: u32) -> Expression {
    ex(a, b, ExpressionKind::Number { token: tok(text, a, b) })
}

fn strlit(text: &str, a: u32, b: u32) -> Expression {
    ex(a, b, ExpressionKind::String { token: tok(text, a, b) })
}

fn name_var(text: &str, a: u32, b: u32) -> Expression {
    ex(a, b, ExpressionKind::Var { var: Var::Name { token: tok(text, a, b) } })
}

fn dotted_call(path: &[&str], args: Vec<Expression>, a: u32, b: u32) -> FunctionCall {
    let mut suffixes: Vec<Suffix> = path[1..]
        .iter()
        .map(|n| Suffix::Index { index: Index::Dot { name: tok(n, a, b) } })
        .collect();
    suffixes.push(Suffix::Call {
        call: Call::Anonymous { args: FunctionArgs::Parentheses { arguments: args } },
    });
    FunctionCall { span: (a, b), prefix: Prefix::Name { token: tok(path[0], a, b) }, suffixes }
}

fn one_call_ast(call: FunctionCall) -> Ast {
    Ast { nodes: Block { stmts: vec![Stmt::FunctionCall { call }], last_stmt: None } }
}

fn math_ceil_library() -> StandardLibrary {
    StandardLibrary {
        globals: vec![(
            "math".to_owned(),
            Field::Table(vec![(
                "ceil".to_owned(),
                Field::Function {
                    arguments: vec![Argument {
                        argument_type: ArgumentType::Number,
                        required: Required::Required(None),
                    }],
                    method: false,
                },
            )]),
        )],
        meta: None,
    }
}

#[test]
fn test_name_path() {
    // The paths of `local x = foo; local y = foo.bar.baz`.
    let first = name_var("foo", 10, 13);
    let second = ex(
        24,
        35,
        ExpressionKind::Var {
            var: Var::Expression {
                var_expr: Box::new(VarExpression {
                    text: "foo.bar.baz".to_owned(),
                    prefix: Prefix::Name { token: tok("foo", 24, 27) },
                    suffixes: vec![
                        Suffix::Index { index: Index::Dot { name: tok("bar", 28, 31) } },
                        Suffix::Index { index: Index::Dot { name: tok("baz", 32, 35) } },
                    ],
                }),
            },
        },
    );
    let paths: Vec<Vec<String>> = vec![
        name_path(&first).expect("name_path returned None"),
        name_path(&second).expect("name_path returned None"),
    ];
    assert_eq!(
        paths,
        vec![
            vec!["foo".to_owned()],
            vec!["foo".to_owned(), "bar".to_owned(), "baz".to_owned()],
        ]
    );
}

#[test]
fn test_bad_call_signatures() {
    // standard_library, bad_call_signatures: wrong argument counts and
    // wrongly typed arguments are both reported.
    let lib = math_ceil_library();
    let context = Context { standard_library: lib };
    let lint = StandardLibraryLint::new(()).unwrap();

    // math.ceil(5, 6): one parameter expected, two passed.
    let call = dotted_call(&["math", "ceil"], vec![num("5", 10, 11), num("6", 13, 14)], 0, 15);
    let diagnostics = lint.pass(&one_call_ast(call), &context);
    assert_eq!(diagnostics.len(), 1);
    assert_eq!(diagnostics[0].code, "standard_library_types");
    assert_eq!(
        diagnostics[0].message,
        "standard library function `math.ceil` requires 1 parameters, 2 passed"
    );

    // math.ceil(5): correct.
    let call = dotted_call(&["math", "ceil"], vec![num("5", 10, 11)], 0, 12);
    let diagnostics = lint.pass(&one_call_ast(call), &context);
    assert!(diagnostics.is_empty());
}

#[test]
fn test_math_ceil_end_to_end() {
    // A call with a string where a number is declared yields exactly one
    // error anchored on the string literal; a correct call yields nothing.
    let lib = math_ceil_library();
    let context = Context { standard_library: lib };
    let lint = StandardLibraryLint::new(()).unwrap();

    let call = dotted_call(&["math", "ceil"], vec![strlit("\"x\"", 10, 13)], 0, 14);
    let diagnostics = lint.pass(&one_call_ast(call), &context);
    assert_eq!(diagnostics.len(), 1);
    assert_eq!(diagnostics[0].code, "standard_library_types");
    assert_eq!(diagnostics[0].primary_label.range, (10, 13));
    let label_message = diagnostics[0].primary_label.message.as_ref().unwrap();
    assert!(label_message.contains("expected `number`, received `string`"));

    let call = dotted_call(&["math", "ceil"], vec![num("5", 10, 11)], 0, 12);
    let diagnostics = lint.pass(&one_call_ast(call), &context);
    assert_eq!(diagnostics.len(), 0);

    // The same two calls through the whole checker: one error, then none.
    let checker = selene_lib::Checker::new(
        selene_lib::CheckerConfig::default(),
        math_ceil_library(),
    )
    .unwrap();
    let bad = dotted_call(&["math", "ceil"], vec![strlit("\"x\"", 10, 13)], 0, 14);
    let tagged = checker.test_on(&one_call_ast(bad));
    assert_eq!(tagged.len(), 1);
    assert_eq!(tagged[0].diagnostic.code, "standard_library_types");
    assert_eq!(tagged[0].severity, selene_lib::rules::Severity::Error);
    let good = dotted_call(&["math", "ceil"], vec![num("5", 10, 11)], 0, 12);
    assert!(checker.test_on(&one_call_ast(good)).is_empty());
}

#[test]
fn test_find_global_struct_path() {
    // `a.b.c` where `a` is a table whose `b` refers to struct `S`, and `S`
    // has a property member `c`; dropping any segment fails resolution.
    let lib = StandardLibrary {
        globals: vec![(
            "a".to_owned(),
            Field::Table(vec![("b".to_owned(), Field::Struct("S".to_owned()))]),
        )],
        meta: Some(Meta {
            name: None,
            base: None,
            structs: Some(vec![(
                "S".to_owned(),
                vec![("c".to_owned(), Field::Property { writable: None })],
            )]),
        }),
    };
    // An empty path resolves to nothing.
    let empty: Vec<String> = Vec::new();
    assert!(lib.find_global(&empty).is_none());

    let path = vec!["a".to_owned(), "b".to_owned(), "c".to_owned()];
    match lib.find_global(&path) {
        Some(Field::Property { writable }) => assert!(writable.is_none()),
        other => panic!("resolved to the wrong field: {:?}", other.is_some()),
    }

    // A missing global.
    let missing_global = StandardLibrary { globals: Vec::new(), meta: None };
    assert!(missing_global.find_global(&path).is_none());

    // A missing table member.
    let missing_member = StandardLibrary {
        globals: vec![("a".to_owned(), Field::Table(Vec::new()))],
        meta: None,
    };
    assert!(missing_member.find_global(&path).is_none());

    // A missing struct member.
    let missing_struct_member = StandardLibrary {
        globals: vec![(
            "a".to_owned(),
            Field::Table(vec![("b".to_owned(), Field::Struct("S".to_owned()))]),
        )],
        meta: Some(Meta { name: None, base: None, structs: Some(vec![("S".to_owned(), vec![])]) }),
    };
    assert!(missing_struct_member.find_global(&path).is_none());
}

#[test]
fn test_vararg_accounting() {
    // Two required arguments and a required trailing vararg: a call with
    // exactly two arguments must report the unused vararg, a call with
    // three or more must not.
    let lib = StandardLibrary {
        globals: vec![(
            "pick".to_owned(),
            Field::Function {
                arguments: vec![
                    Argument {
                        argument_type: ArgumentType::Number,
                        required: Required::Required(None),
                    },
                    Argument {
                        argument_type: ArgumentType::Number,
                        required: Required::Required(None),
                    },
                    Argument {
                        argument_type: ArgumentType::Vararg,
                        required: Required::Required(Some("pass the values".to_owned())),
                    },
                ],
                method: false,
            },
        )],
        meta: None,
    };

    let two = check_function_call(
        &lib,
        &dotted_call(&["pick"], vec![num("1", 5, 6), num("2", 8, 9)], 0, 10),
    );
    assert_eq!(two.len(), 1);
    assert_eq!(two[0].message, "standard library function `pick` requires use of the vararg");
    assert_eq!(two[0].notes, vec!["pass the values".to_owned()]);

    let three = check_function_call(
        &lib,
        &dotted_call(
            &["pick"],
            vec![num("1", 5, 6), num("2", 8, 9), num("3", 11, 12)],
            0,
            13,
        ),
    );
    assert!(three.is_empty());

    let four = check_function_call(
        &lib,
        &dotted_call(
            &["pick"],
            vec![num("1", 5, 6), num("2", 8, 9), num("3", 11, 12), num("4", 14, 15)],
            0,
            16,
        ),
    );
    assert!(four.is_empty());
}

#[test]
fn test_classifier() {
    // Literals classify exactly; variables and call results never do.
    assert_eq!(get_argument_type(&num("3", 0, 1)), Some(ArgumentType::Number));
    assert_eq!(get_argument_type(&strlit("\"s\"", 0, 3)), Some(ArgumentType::String));
    let sym_true = ex(0, 4, ExpressionKind::Symbol { token: tok("true", 0, 4) });
    assert_eq!(get_argument_type(&sym_true), Some(ArgumentType::Bool));
    let sym_nil = ex(0, 3, ExpressionKind::Symbol { token: tok("nil", 0, 3) });
    assert_eq!(get_argument_type(&sym_nil), Some(ArgumentType::Nil));
    assert_eq!(get_argument_type(&name_var("x", 0, 1)), None);
    let call_result = ex(
        0,
        3,
        ExpressionKind::FunctionCall { call: dotted_call(&["f"], vec![], 0, 3) },
    );
    assert_eq!(get_argument_type(&call_result), None);

    // `#t` is a number, `not t` a boolean, concatenation a string.
    let hash = ex(
        0,
        2,
        ExpressionKind::UnaryOperator {
            unop: selene_lib::ast::UnOp::Hash,
            expression: Box::new(name_var("t", 1, 2)),
        },
    );
    assert_eq!(get_argument_type(&hash), Some(ArgumentType::Number));
    let concat = ex(
        0,
        6,
        ExpressionKind::BinaryOperator {
            lhs: Box::new(name_var("a", 0, 1)),
            binop: selene_lib::ast::BinOp::TwoDots,
            rhs: Box::new(name_var("b", 5, 6)),
        },
    );
    assert_eq!(get_argument_type(&concat), Some(ArgumentType::String));
    // Arithmetic on variables stays unknown.
    let plus = ex(
        0,
        5,
        ExpressionKind::BinaryOperator {
            lhs: Box::new(name_var("a", 0, 1)),
            binop: selene_lib::ast::BinOp::Plus,
            rhs: Box::new(name_var("b", 4, 5)),
        },
    );
    assert_eq!(get_argument_type(&plus), None);
}
