//! Tests of the supporting model: text rendering, scope resolution, deep
//! merge, the static-token helper, and the Roblox generator.

use selene_lib::ast::{Ast, Block, Expression, ExpressionKind, FunctionBody, Stmt, Token, Var};
use selene_lib::ast_util::extract_static_token::extract_static_token;
use selene_lib::ast_util::scopes::ScopeManager;
use selene_lib::roblox::{write_enums, write_instance_new, ApiClass, ApiDump, ApiEnum,
    ApiEnumItem, ApiMember, ApiParameter, ApiPropertySecurity, ApiValueType, RobloxGenerator};
use selene_lib::standard_library::{Argument, ArgumentType, Field, Meta, Required,
    StandardLibrary};
use selene_lib::text::{decimal_string, join};

fn tok(text: &str, a: u32, b: u32) -> Token {
    Token { text: text.to_owned(), span: (a, b) }
}

fn ex(a: u32, b: u32, kind: ExpressionKind) -> Expression {
    Expression { span: (a, b), kind }
}

fn num(text: &str, a: u32, b: u32) -> Expression {
    ex(a, b, ExpressionKind::Number { token: tok(text, a, b) })
}

fn name_var(text: &str, a: u32, b: u32) -> Expression {
    ex(a, b, ExpressionKind::Var { var: Var::Name { token: tok(text, a, b) } })
}

#[test]
fn test_decimal_string() {
    assert_eq!(decimal_string(0), "0");
    assert_eq!(decimal_string(7), "7");
    assert_eq!(decimal_string(40), "40");
    assert_eq!(decimal_string(1203), "1203");
}

#[test]
fn test_join() {
    let parts = vec!["math".to_owned(), "ceil".to_owned()];
    assert_eq!(join(&parts, "."), "math.ceil");
    let one = vec!["print".to_owned()];
    assert_eq!(join(&one, "."), "print");
    let none: Vec<String> = Vec::new();
    assert_eq!(join(&none, "."), "");
}

#[test]
fn test_extract_static_token() {
    let n = num("3", 0, 1);
    assert_eq!(extract_static_token(&n).unwrap().text, "3");
    let wrapped = ex(0, 3, ExpressionKind::Parentheses { expression: Box::new(num("3", 1, 2)) });
    assert_eq!(extract_static_token(&wrapped).unwrap().text, "3");
    assert!(extract_static_token(&name_var("x", 0, 1)).is_none());
}

#[test]
fn test_scope_resolution() {
    // `local x = 1` then `x = 2`: the second reference resolves to the
    // declaration; a write to an undeclared `g` does not resolve.
    let ast = Ast {
        nodes: Block {
            stmts: vec![
                Stmt::LocalAssignment {
                    names: vec![tok("x", 6, 7)],
                    expressions: vec![num("1", 10, 11)],
                },
                Stmt::Assignment {
                    vars: vec![Var::Name { token: tok("x", 12, 13) }],
                    expressions: vec![num("2", 16, 17)],
                },
                Stmt::Assignment {
                    vars: vec![Var::Name { token: tok("g", 18, 19) }],
                    expressions: vec![num("3", 22, 23)],
                },
            ],
            last_stmt: None,
        },
    };
    let manager = ScopeManager::new(&ast);
    assert_eq!(manager.references.len(), 2);
    assert_eq!(manager.references[0].name, "x");
    assert!(manager.references[0].write);
    assert_eq!(manager.references[0].resolved, Some((6, 7)));
    assert_eq!(manager.references[1].name, "g");
    assert!(manager.references[1].write);
    assert_eq!(manager.references[1].resolved, None);
}

#[test]
fn test_scope_shadowing() {
    // A function body's parameter shadows the outer local of the same name.
    let body = FunctionBody {
        params_span: (20, 23),
        parameters: vec![tok("x", 21, 22)],
        block: Block {
            stmts: vec![Stmt::Assignment {
                vars: vec![Var::Name { token: tok("x", 30, 31) }],
                expressions: vec![num("1", 34, 35)],
            }],
            last_stmt: None,
        },
    };
    let ast = Ast {
        nodes: Block {
            stmts: vec![
                Stmt::LocalAssignment {
                    names: vec![tok("x", 6, 7)],
                    expressions: Vec::new(),
                },
                Stmt::LocalFunction { function_span: (10, 18), name: tok("f", 19, 20), body },
            ],
            last_stmt: None,
        },
    };
    let manager = ScopeManager::new(&ast);
    assert_eq!(manager.references.len(), 1);
    assert_eq!(manager.references[0].resolved, Some((21, 22)));
}

#[test]
fn test_extend_deep_merge() {
    // The child's entries win; table entries merge recursively; base-only
    // entries survive; the child's metadata takes precedence.
    let child = StandardLibrary {
        globals: vec![(
            "math".to_owned(),
            Field::Table(vec![("ceil".to_owned(), Field::Property { writable: None })]),
        )],
        meta: Some(Meta { name: Some("child".to_owned()), base: None, structs: None }),
    };
    let base = StandardLibrary {
        globals: vec![
            (
                "math".to_owned(),
                Field::Table(vec![
                    ("ceil".to_owned(), Field::Property {
                        writable: Some(selene_lib::standard_library::Writable::Overridden),
                    }),
                    ("floor".to_owned(), Field::Property { writable: None }),
                ]),
            ),
            ("print".to_owned(), Field::Function { arguments: Vec::new(), method: false }),
        ],
        meta: Some(Meta { name: Some("base".to_owned()), base: None, structs: None }),
    };
    let merged = child.extend(base);
    assert_eq!(merged.meta.as_ref().unwrap().name.as_deref(), Some("child"));

    let math = merged.find_global(&vec!["math".to_owned()]).unwrap();
    match math {
        Field::Table(entries) => {
            assert_eq!(entries.len(), 2);
            assert_eq!(entries[0].0, "ceil");
            // The child's `ceil` wins over the base's.
            assert_eq!(entries[0].1, Field::Property { writable: None });
            assert_eq!(entries[1].0, "floor");
        },
        other => panic!("math must stay a table: {:?}", other),
    }
    // The base-only global survives.
    assert!(merged.find_global(&vec!["print".to_owned()]).is_some());
}

fn small_api() -> ApiDump {
    ApiDump {
        classes: vec![
            ApiClass {
                name: "Instance".to_owned(),
                superclass: "<<<ROOT>>>".to_owned(),
                tags: vec!["NotCreatable".to_owned()],
                members: Vec::new(),
            },
            ApiClass {
                name: "DataModel".to_owned(),
                superclass: "Instance".to_owned(),
                tags: vec!["Service".to_owned(), "NotCreatable".to_owned()],
                members: vec![ApiMember::Function {
                    name: "GetService".to_owned(),
                    tags: None,
                    parameters: vec![ApiParameter { name: "service".to_owned() }],
                }],
            },
            ApiClass {
                name: "Part".to_owned(),
                superclass: "Instance".to_owned(),
                tags: Vec::new(),
                members: vec![ApiMember::Property {
                    name: "Anchored".to_owned(),
                    tags: None,
                    security: ApiPropertySecurity {
                        read: "None".to_owned(),
                        write: "None".to_owned(),
                    },
                    value_type: ApiValueType::Other { name: "bool".to_owned() },
                }],
            },
            ApiClass {
                name: "Plugin".to_owned(),
                superclass: "Instance".to_owned(),
                tags: vec!["NotCreatable".to_owned()],
                members: Vec::new(),
            },
            ApiClass {
                name: "Script".to_owned(),
                superclass: "Instance".to_owned(),
                tags: Vec::new(),
                members: Vec::new(),
            },
            ApiClass {
                name: "Workspace".to_owned(),
                superclass: "Instance".to_owned(),
                tags: vec!["Service".to_owned(), "NotCreatable".to_owned()],
                members: Vec::new(),
            },
        ],
        enums: vec![ApiEnum {
            name: "Material".to_owned(),
            items: vec![
                ApiEnumItem { name: "Plastic".to_owned() },
                ApiEnumItem { name: "Wood".to_owned() },
            ],
        }],
    }
}

#[test]
fn test_write_enums() {
    let globals = write_enums(Vec::new(), &small_api());
    let lib = StandardLibrary { globals, meta: None };
    let items = lib.find_global(&vec![
        "Enum".to_owned(),
        "Material".to_owned(),
        "Plastic".to_owned(),
    ]);
    assert_eq!(items, Some(&Field::Struct("EnumItem".to_owned())));
    let getter = lib.find_global(&vec![
        "Enum".to_owned(),
        "Material".to_owned(),
        "GetEnumItems".to_owned(),
    ]);
    assert_eq!(getter, Some(&Field::Function { arguments: Vec::new(), method: true }));
}

#[test]
fn test_write_instance_new() {
    // The constructor's constant holds exactly the creatable class names.
    let globals = vec![(
        "Instance".to_owned(),
        Field::Table(vec![(
            "new".to_owned(),
            Field::Function { arguments: Vec::new(), method: false },
        )]),
    )];
    let globals = write_instance_new(globals, &small_api()).unwrap();
    let lib = StandardLibrary { globals, meta: None };
    match lib.find_global(&vec!["Instance".to_owned(), "new".to_owned()]) {
        Some(Field::Function { arguments, method }) => {
            assert!(!method);
            assert_eq!(arguments.len(), 1);
            assert_eq!(arguments[0].required, Required::Required(None));
            match &arguments[0].argument_type {
                ArgumentType::Constant(names) => {
                    assert_eq!(names, &vec!["Part".to_owned(), "Script".to_owned()]);
                },
                other => panic!("the constructor takes a constant: {:?}", other),
            }
        },
        other => panic!("Instance.new must be a function: {:?}", other),
    }

    // A base without an Instance table is a defect.
    assert!(write_instance_new(Vec::new(), &small_api()).is_err());
}

#[test]
fn test_generate_missing_class() {
    // A dump without the DataModel class cannot be generated from.
    let api = ApiDump { classes: Vec::new(), enums: Vec::new() };
    let generator = RobloxGenerator {
        std: StandardLibrary {
            globals: Vec::new(),
            meta: Some(Meta { name: None, base: None, structs: Some(Vec::new()) }),
        },
        show_deprecated: false,
    };
    let base = StandardLibrary { globals: Vec::new(), meta: None };
    match generator.generate(&api, base) {
        Err(selene_lib::roblox::GenerateError::MissingClass(name)) => {
            assert_eq!(name, "DataModel");
        },
        other => panic!("a missing class must be reported: {:?}", other.is_ok()),
    }
}

#[test]
fn test_generate_inheritance_cycle() {
    // A class that inherits from itself never reaches the root marker.
    let api = ApiDump {
        classes: vec![ApiClass {
            name: "DataModel".to_owned(),
            superclass: "DataModel".to_owned(),
            tags: Vec::new(),
            members: Vec::new(),
        }],
        enums: Vec::new(),
    };
    let generator = RobloxGenerator {
        std: StandardLibrary {
            globals: Vec::new(),
            meta: Some(Meta { name: None, base: None, structs: Some(Vec::new()) }),
        },
        show_deprecated: false,
    };
    let base = StandardLibrary { globals: Vec::new(), meta: None };
    match generator.generate(&api, base) {
        Err(selene_lib::roblox::GenerateError::InheritanceCycle(_)) => {},
        other => panic!("a cycle must be reported: {:?}", other.is_ok()),
    }
}

#[test]
fn test_generate() {
    // Generation registers the well-known globals and enums, then inherits
    // the base's remaining globals.
    let starting_globals = || vec![
        (
            "Instance".to_owned(),
            Field::Table(vec![(
                "new".to_owned(),
                Field::Function { arguments: Vec::new(), method: false },
            )]),
        ),
        ("print".to_owned(), Field::Function {
            arguments: vec![Argument {
                argument_type: ArgumentType::Vararg,
                required: Required::NotRequired,
            }],
            method: false,
        }),
    ];
    let generator = RobloxGenerator {
        std: StandardLibrary {
            globals: starting_globals(),
            meta: Some(Meta {
                name: Some("roblox".to_owned()),
                base: Some("lua51".to_owned()),
                structs: Some(Vec::new()),
            }),
        },
        show_deprecated: false,
    };
    let lua_base = StandardLibrary {
        globals: vec![("print".to_owned(), Field::Property { writable: None })],
        meta: None,
    };
    let generated = generator.generate(&small_api(), lua_base).unwrap();
    assert!(generated.find_global(&vec!["game".to_owned()]).is_some());
    assert_eq!(
        generated.find_global(&vec!["workspace".to_owned()]),
        Some(&Field::Struct("Workspace".to_owned()))
    );
    assert!(generated.find_global(&vec!["Enum".to_owned(), "Material".to_owned()]).is_some());
    // The DataModel struct carries the generated service getter.
    assert!(generated
        .find_global(&vec!["game".to_owned(), "GetService".to_owned()])
        .is_some());
    // The child's `print` wins over the base's.
    match generated.find_global(&vec!["print".to_owned()]) {
        Some(Field::Function { .. }) => {},
        other => panic!("print must stay the child's function: {:?}", other),
    }
}
