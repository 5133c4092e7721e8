//! Checks calls of standard-library functions against their declared
//! argument lists: wrong argument counts, unused required varargs, and
//! arguments whose statically known type does not match the declaration.

use vstd::prelude::*;
use crate::ast::{Ast, BinOp, Call, Expression, ExpressionKind, FunctionArgs, FunctionCall, Prefix,
    Suffix, UnOp, Var};
use crate::ast_util::visit::{gather_ast, gathered_of};
use crate::rules::{Context, Diagnostic, Label, RuleError, RuleType, Severity, SpecDiagnostic,
    SpecLabel};
use crate::standard_library::{spec_find_global, Argument, ArgumentType, Field, Required,
    StandardLibrary};
use crate::text::{decimal_string, join, spec_decimal, spec_join};

verus! {

/// The statically known type of an expression, when one can be read off
/// without running the program: literals classify as themselves, `#` always
/// yields a number, `not` a boolean, comparisons booleans, concatenation a
/// string, and arithmetic the classification of its left operand. Variables
/// and call results are unknowable and classify as `None`.
pub open spec fn spec_classify(e: Expression) -> Option<ArgumentType>
    decreases e,
{
    match e.kind {
        ExpressionKind::Parentheses { expression } => spec_classify(*expression),
        ExpressionKind::UnaryOperator { unop, expression } => match unop {
            UnOp::Hash => Some(ArgumentType::Number),
            UnOp::Minus => spec_classify(*expression),
            UnOp::Not => Some(ArgumentType::Bool),
        },
        ExpressionKind::BinaryOperator { lhs, binop, rhs } => match binop {
            BinOp::Caret => Some(ArgumentType::Number),
            BinOp::GreaterThan => Some(ArgumentType::Bool),
            BinOp::GreaterThanEqual => Some(ArgumentType::Bool),
            BinOp::LessThan => Some(ArgumentType::Bool),
            BinOp::LessThanEqual => Some(ArgumentType::Bool),
            BinOp::TwoEqual => Some(ArgumentType::Bool),
            BinOp::TildeEqual => Some(ArgumentType::Bool),
            BinOp::Plus => spec_classify(*lhs),
            BinOp::Minus => spec_classify(*lhs),
            BinOp::Star => spec_classify(*lhs),
            BinOp::Slash => spec_classify(*lhs),
            BinOp::Percent => Some(ArgumentType::Number),
            BinOp::TwoDots => Some(ArgumentType::String),
            BinOp::And => None,
            BinOp::Or => None,
        },
        ExpressionKind::Function { body } => Some(ArgumentType::Function),
        ExpressionKind::FunctionCall { call } => None,
        ExpressionKind::Number { token } => Some(ArgumentType::Number),
        ExpressionKind::String { token } => Some(ArgumentType::String),
        ExpressionKind::Symbol { token } => if token.text@ == "true"@ || token.text@ == "false"@ {
            Some(ArgumentType::Bool)
        } else if token.text@ == "nil"@ {
            Some(ArgumentType::Nil)
        } else {
            None
        },
        ExpressionKind::TableConstructor { table } => Some(ArgumentType::Table),
        ExpressionKind::Var { var } => None,
    }
}

/// Returns the argument type of the expression when it can be constantly
/// resolved, and `None` otherwise. Only constants are attempted: absence of
/// an answer means "cannot check", never a mismatch.
pub fn get_argument_type(expression: &Expression) -> (r: Option<ArgumentType>)
    ensures
        r == spec_classify(*expression),
    decreases *expression,
{
    match &expression.kind {
        ExpressionKind::Parentheses { expression } => get_argument_type(expression),
        ExpressionKind::UnaryOperator { unop, expression } => match unop {
            UnOp::Hash => Some(ArgumentType::Number),
            UnOp::Minus => get_argument_type(expression),
            UnOp::Not => Some(ArgumentType::Bool),
        },
        ExpressionKind::BinaryOperator { lhs, binop, rhs } => match binop {
            BinOp::Caret => Some(ArgumentType::Number),
            BinOp::GreaterThan
            | BinOp::GreaterThanEqual
            | BinOp::LessThan
            | BinOp::LessThanEqual
            | BinOp::TwoEqual
            | BinOp::TildeEqual => Some(ArgumentType::Bool),
            BinOp::Plus | BinOp::Minus | BinOp::Star | BinOp::Slash => get_argument_type(lhs),
            BinOp::Percent => Some(ArgumentType::Number),
            BinOp::TwoDots => Some(ArgumentType::String),
            BinOp::And | BinOp::Or => None,
        },
        ExpressionKind::Function { body } => Some(ArgumentType::Function),
        ExpressionKind::FunctionCall { call } => None,
        ExpressionKind::Number { token } => Some(ArgumentType::Number),
        ExpressionKind::String { token } => Some(ArgumentType::String),
        ExpressionKind::Symbol { token } => {
            if token_text_is(&token.text, "true") || token_text_is(&token.text, "false") {
                Some(ArgumentType::Bool)
            } else if token_text_is(&token.text, "nil") {
                Some(ArgumentType::Nil)
            } else {
                None
            }
        },
        ExpressionKind::TableConstructor { table } => Some(ArgumentType::Table),
        ExpressionKind::Var { var } => None,
    }
}

/// Whether a token's text reads exactly `lit`.
fn token_text_is(text: &String, lit: &str) -> (r: bool)
    ensures
        r == (text@ == lit@),
{
    let owned: String = lit.to_owned();
    *text == owned
}

/// The dotted names the suffixes contribute to a name path: `.name` indexes
/// extend the path, bracket indexes end it, call suffixes are passed over.
pub open spec fn spec_suffix_names(suffixes: Seq<Suffix>) -> Option<Seq<String>>
    decreases suffixes,
{
    if suffixes.len() == 0 {
        Some(Seq::empty())
    } else {
        match suffixes[0] {
            Suffix::Index { index } => match index {
                crate::ast::Index::Dot { name } => match spec_suffix_names(suffixes.skip(1)) {
                    Some(rest) => Some(seq![name.text] + rest),
                    None => None,
                },
                crate::ast::Index::Brackets { expression } => None,
            },
            Suffix::Call { call } => spec_suffix_names(suffixes.skip(1)),
        }
    }
}

/// The dotted name path of a prefix and its suffixes, when the prefix is a
/// plain name and every index suffix is a `.name`.
pub open spec fn spec_name_path_from_prefix_suffix(prefix: Prefix, suffixes: Seq<Suffix>) -> Option<
    Seq<String>,
> {
    match prefix {
        Prefix::Name { token } => match spec_suffix_names(suffixes) {
            Some(rest) => Some(seq![token.text] + rest),
            None => None,
        },
        Prefix::Expression { expression } => None,
    }
}

/// The dotted name path of an expression, when it is a chain of dotted
/// member accesses rooted at a plain name.
pub open spec fn spec_name_path(e: Expression) -> Option<Seq<String>> {
    match e.kind {
        ExpressionKind::Var { var } => match var {
            Var::Name { token } => Some(seq![token.text]),
            Var::Expression { var_expr } => spec_name_path_from_prefix_suffix(
                var_expr.prefix,
                var_expr.suffixes@,
            ),
        },
        _ => None,
    }
}

/// Resolves the first `count` suffixes after `prefix` to a dotted name path.
pub fn name_path_from_prefix_suffix(prefix: &Prefix, suffixes: &Vec<Suffix>, count: usize) -> (r:
    Option<Vec<String>>)
    requires
        count <= suffixes@.len(),
    ensures
        match r {
            Some(names) => spec_name_path_from_prefix_suffix(
                *prefix,
                suffixes@.take(count as int),
            ) == Some(names@),
            None => spec_name_path_from_prefix_suffix(*prefix, suffixes@.take(count as int))
                is None,
        },
{
    let ghost taken = suffixes@.take(count as int);
    let mut names: Vec<String> = Vec::new();
    match prefix {
        Prefix::Name { token } => {
            names.push(token.text.clone());
        },
        Prefix::Expression { expression } => {
            return None;
        },
    }
    let mut i: usize = 0;
    assert(taken.skip(0) =~= taken);
    while i < count
        invariant
            i <= count,
            spec_name_path_from_prefix_suffix(*prefix, taken) == (match spec_suffix_names(
                taken.skip(i as int),
            ) {
                Some(rest) => Some(names@ + rest),
                None => None::<Seq<String>>,
            }),
        decreases count - i,
    {
        assert(taken.skip(i as int)[0] == taken[i as int]);
        assert(taken.skip(i as int).skip(1) =~= taken.skip(i + 1));
        assert(taken[i as int] == suffixes@[i as int]);
        match &suffixes[i] {
            Suffix::Index { index } => match index {
                crate::ast::Index::Dot { name } => {
                    let ghost prev = names@;
                    names.push(name.text.clone());
                    proof {
                        if spec_suffix_names(taken.skip(i + 1)) is Some {
                            let rest = spec_suffix_names(taken.skip(i + 1))->0;
                            assert(prev + (seq![suffixes@[i as int]->Index_index->Dot_name.text]
                                + rest) =~= names@ + rest);
                        }
                    }
                },
                crate::ast::Index::Brackets { expression } => {
                    return None;
                },
            },
            Suffix::Call { call } => {},
        }
        i += 1;
    }
    assert(taken.skip(count as int) =~= Seq::<Suffix>::empty());
    assert(names@ + Seq::<String>::empty() =~= names@);
    Some(names)
}

/// Structural equality of argument types; constant sets and display names
/// compare by contents.
pub open spec fn spec_type_eq(a: ArgumentType, b: ArgumentType) -> bool {
    match (a, b) {
        (ArgumentType::Any, ArgumentType::Any) => true,
        (ArgumentType::Bool, ArgumentType::Bool) => true,
        (ArgumentType::Constant(x), ArgumentType::Constant(y)) => x.deep_view() == y.deep_view(),
        (ArgumentType::Display(x), ArgumentType::Display(y)) => x@ == y@,
        (ArgumentType::Function, ArgumentType::Function) => true,
        (ArgumentType::Nil, ArgumentType::Nil) => true,
        (ArgumentType::Number, ArgumentType::Number) => true,
        (ArgumentType::String, ArgumentType::String) => true,
        (ArgumentType::Table, ArgumentType::Table) => true,
        (ArgumentType::Vararg, ArgumentType::Vararg) => true,
        _ => false,
    }
}

/// Whether a supplied type satisfies a declared one: structural equality,
/// except that `Any` matches everything.
pub open spec fn spec_type_matches(passed: ArgumentType, declared: ArgumentType) -> bool {
    passed is Any || declared is Any || spec_type_eq(passed, declared)
}

/// Whether every string of `a` equals, by contents, the same position of `b`.
fn string_vecs_eq(a: &Vec<String>, b: &Vec<String>) -> (r: bool)
    ensures
        r == (a.deep_view() == b.deep_view()),
{
    if a.len() != b.len() {
        proof {
            assert(a.deep_view().len() == a@.len());
            assert(b.deep_view().len() == b@.len());
        }
        return false;
    }
    let mut i: usize = 0;
    while i < a.len()
        invariant
            i <= a@.len(),
            a@.len() == b@.len(),
            forall|j: int| 0 <= j < i ==> a.deep_view()[j] == b.deep_view()[j],
        decreases a@.len() - i,
    {
        if !(a[i] == b[i]) {
            proof {
                assert(a.deep_view()[i as int] == a@[i as int]@);
                assert(b.deep_view()[i as int] == b@[i as int]@);
            }
            return false;
        }
        i += 1;
    }
    proof {
        assert(a.deep_view() =~= b.deep_view());
    }
    true
}

/// Decides `spec_type_matches`.
pub fn argument_type_matches(passed: &ArgumentType, declared: &ArgumentType) -> (r: bool)
    ensures
        r == spec_type_matches(*passed, *declared),
{
    match (passed, declared) {
        (ArgumentType::Any, _) => true,
        (_, ArgumentType::Any) => true,
        (ArgumentType::Bool, ArgumentType::Bool) => true,
        (ArgumentType::Constant(x), ArgumentType::Constant(y)) => string_vecs_eq(x, y),
        (ArgumentType::Display(x), ArgumentType::Display(y)) => token_text_is(x, y.as_str()),
        (ArgumentType::Function, ArgumentType::Function) => true,
        (ArgumentType::Nil, ArgumentType::Nil) => true,
        (ArgumentType::Number, ArgumentType::Number) => true,
        (ArgumentType::String, ArgumentType::String) => true,
        (ArgumentType::Table, ArgumentType::Table) => true,
        (ArgumentType::Vararg, ArgumentType::Vararg) => true,
        _ => false,
    }
}

/// How an argument type is shown in messages.
pub open spec fn spec_display_of(t: ArgumentType) -> Seq<char> {
    match t {
        ArgumentType::Any => "any"@,
        ArgumentType::Bool => "bool"@,
        ArgumentType::Constant(options) => "constant"@,
        ArgumentType::Display(display) => display@,
        ArgumentType::Function => "function"@,
        ArgumentType::Nil => "nil"@,
        ArgumentType::Number => "number"@,
        ArgumentType::String => "string"@,
        ArgumentType::Table => "table"@,
        ArgumentType::Vararg => "..."@,
    }
}

/// Renders an argument type for a message.
pub fn display_of(t: &ArgumentType) -> (r: String)
    ensures
        r@ == spec_display_of(*t),
{
    match t {
        ArgumentType::Any => "any".to_owned(),
        ArgumentType::Bool => "bool".to_owned(),
        ArgumentType::Constant(options) => "constant".to_owned(),
        ArgumentType::Display(display) => display.clone(),
        ArgumentType::Function => "function".to_owned(),
        ArgumentType::Nil => "nil".to_owned(),
        ArgumentType::Number => "number".to_owned(),
        ArgumentType::String => "string".to_owned(),
        ArgumentType::Table => "table".to_owned(),
        ArgumentType::Vararg => "...".to_owned(),
    }
}

/// The spans and classifications of the supplied call arguments: each
/// parenthesized argument classifies through `spec_classify`; a lone string
/// or table argument classifies directly.
pub open spec fn spec_supplied_list(es: Seq<Expression>) -> Seq<((u32, u32), Option<ArgumentType>)>
    decreases es,
{
    if es.len() == 0 {
        Seq::empty()
    } else {
        seq![(es[0].span, spec_classify(es[0]))] + spec_supplied_list(es.skip(1))
    }
}

pub open spec fn spec_supplied(args: FunctionArgs) -> Seq<((u32, u32), Option<ArgumentType>)> {
    match args {
        FunctionArgs::Parentheses { arguments } => spec_supplied_list(arguments@),
        FunctionArgs::StringArg { token } => seq![
            (token.span, Some(ArgumentType::String)),
        ],
        FunctionArgs::TableArg { table } => seq![(table.span, Some(ArgumentType::Table))],
    }
}

/// The message of the missing-vararg diagnostic.
pub open spec fn spec_msg_vararg(path: Seq<String>) -> Seq<char> {
    "standard library function `"@ + spec_join(path, "."@)
        + "` requires use of the vararg"@
}

/// The message of the wrong-argument-count diagnostic.
pub open spec fn spec_msg_count(path: Seq<String>, expected: nat, passed: nat) -> Seq<char> {
    "standard library function `"@ + spec_join(path, "."@) + "` requires "@ + spec_decimal(
        expected,
    ) + " parameters, "@ + spec_decimal(passed) + " passed"@
}

/// The label message of a type-mismatch diagnostic.
pub open spec fn spec_msg_mismatch(declared: ArgumentType, passed: ArgumentType) -> Seq<char> {
    "expected `"@ + spec_display_of(declared) + "`, received `"@ + spec_display_of(passed) + "`"@
}

/// The machine code shared by this rule's diagnostics.
pub open spec fn spec_stdlib_code() -> Seq<char> {
    "standard_library_types"@
}

/// The missing-vararg diagnostic.
pub open spec fn spec_vararg_diag(path: Seq<String>, note: Option<String>, span: (u32, u32))
    -> SpecDiagnostic {
    SpecDiagnostic {
        code: spec_stdlib_code(),
        message: spec_msg_vararg(path),
        notes: match note {
            Some(n) => seq![n@],
            None => Seq::empty(),
        },
        primary_label: SpecLabel { message: None, range: span },
        secondary_labels: Seq::empty(),
    }
}

/// The wrong-argument-count diagnostic.
pub open spec fn spec_count_diag(path: Seq<String>, expected: nat, passed: nat, span: (u32, u32))
    -> SpecDiagnostic {
    SpecDiagnostic {
        code: spec_stdlib_code(),
        message: spec_msg_count(path, expected, passed),
        notes: Seq::empty(),
        primary_label: SpecLabel { message: None, range: span },
        secondary_labels: Seq::empty(),
    }
}

/// The type-mismatch diagnostic for one argument position.
pub open spec fn spec_mismatch_diag(
    path: Seq<String>,
    expected: nat,
    passed: nat,
    declared: ArgumentType,
    got: ArgumentType,
    span: (u32, u32),
) -> SpecDiagnostic {
    SpecDiagnostic {
        code: spec_stdlib_code(),
        message: spec_msg_count(path, expected, passed),
        notes: Seq::empty(),
        primary_label: SpecLabel {
            message: Some(spec_msg_mismatch(declared, got)),
            range: span,
        },
        secondary_labels: Seq::empty(),
    }
}

/// The type-mismatch diagnostics from position `i` on: declared vararg slots
/// are passed over, unknown classifications check nothing.
pub open spec fn spec_mismatches(
    path: Seq<String>,
    expected: nat,
    declared: Seq<Argument>,
    supplied: Seq<((u32, u32), Option<ArgumentType>)>,
    i: nat,
) -> Seq<SpecDiagnostic>
    decreases declared.len() + supplied.len() - i,
{
    if i >= declared.len() || i >= supplied.len() {
        Seq::empty()
    } else {
        let rest = spec_mismatches(path, expected, declared, supplied, i + 1);
        if declared[i as int].argument_type is Vararg {
            rest
        } else {
            match supplied[i as int].1 {
                Some(got) => if !spec_type_matches(got, declared[i as int].argument_type) {
                    seq![
                        spec_mismatch_diag(
                            path,
                            expected,
                            supplied.len(),
                            declared[i as int].argument_type,
                            got,
                            supplied[i as int].0,
                        ),
                    ] + rest
                } else {
                    rest
                },
                None => rest,
            }
        }
    }
}

/// Every diagnostic of one call of a standard-library function with declared
/// arguments `declared`: the missing-vararg check, then the argument-count
/// check, then the per-position type checks.
pub open spec fn spec_check_args(
    path: Seq<String>,
    declared: Seq<Argument>,
    supplied: Seq<((u32, u32), Option<ArgumentType>)>,
    span: (u32, u32),
) -> Seq<SpecDiagnostic> {
    let last_vararg = declared.len() > 0 && declared.last().argument_type is Vararg;
    let expected: nat = if last_vararg {
        (declared.len() - 1) as nat
    } else {
        declared.len()
    };
    let vararg_missing = declared.len() > 0 && declared.last().argument_type is Vararg
        && declared.last().required is Required && declared.len() > supplied.len();
    let d1: Seq<SpecDiagnostic> = if vararg_missing {
        seq![spec_vararg_diag(path, declared.last().required->0, span)]
    } else {
        Seq::empty()
    };
    let d2: Seq<SpecDiagnostic> = if supplied.len() != expected && (!last_vararg || supplied.len()
        < expected) {
        seq![spec_count_diag(path, expected, supplied.len(), span)]
    } else {
        Seq::empty()
    };
    d1 + d2 + spec_mismatches(path, expected, declared, supplied, 0)
}

/// Whether a call node is well formed: it has at least one suffix and ends
/// in a call suffix. The external parser only produces such call nodes.
pub open spec fn spec_call_ok(c: FunctionCall) -> bool {
    c.suffixes@.len() > 0 && (c.suffixes@.last() matches Suffix::Call { call })
}

/// Whether the standard-library description is sound for this call: a name
/// path that resolves must resolve to a function, since only functions can
/// be declared callable. A description that breaks this is defective.
pub open spec fn spec_stdlib_ok(lib: StandardLibrary, c: FunctionCall) -> bool {
    match spec_name_path_from_prefix_suffix(
        c.prefix,
        c.suffixes@.take(c.suffixes@.len() - 1),
    ) {
        Some(path) => match spec_find_global(lib, path) {
            Some(field) => field matches Field::Function { arguments, method },
            None => true,
        },
        None => true,
    }
}

/// Every diagnostic of one call node: nothing when the callee is not a
/// resolvable standard-library function or the call is a method call.
pub open spec fn spec_check_call(lib: StandardLibrary, c: FunctionCall) -> Seq<SpecDiagnostic> {
    match spec_name_path_from_prefix_suffix(
        c.prefix,
        c.suffixes@.take(c.suffixes@.len() - 1),
    ) {
        Some(path) => match spec_find_global(lib, path) {
            Some(field) => match field {
                Field::Function { arguments, method } => match c.suffixes@.last() {
                    Suffix::Call { call } => match call {
                        Call::Anonymous { args } => spec_check_args(
                            path,
                            arguments@,
                            spec_supplied(args),
                            c.span,
                        ),
                        Call::Method { name, args } => Seq::empty(),
                    },
                    _ => Seq::empty(),
                },
                _ => Seq::empty(),
            },
            None => Seq::empty(),
        },
        None => Seq::empty(),
    }
}

/// Classifies the supplied arguments of a call, pairing each with its span.
fn supplied_types(args: &FunctionArgs) -> (r: Vec<((u32, u32), Option<ArgumentType>)>)
    ensures
        r@ == spec_supplied(*args),
{
    let mut supplied: Vec<((u32, u32), Option<ArgumentType>)> = Vec::new();
    match args {
        FunctionArgs::Parentheses { arguments } => {
            let mut i: usize = 0;
            assert(arguments@.skip(0) =~= arguments@);
            while i < arguments.len()
                invariant
                    i <= arguments@.len(),
                    spec_supplied_list(arguments@) == supplied@ + spec_supplied_list(
                        arguments@.skip(i as int),
                    ),
                decreases arguments@.len() - i,
            {
                assert(arguments@.skip(i as int)[0] == arguments@[i as int]);
                assert(arguments@.skip(i as int).skip(1) =~= arguments@.skip(i + 1));
                let ghost prev = supplied@;
                let t = get_argument_type(&arguments[i]);
                supplied.push((arguments[i].span, t));
                proof {
                    assert(prev + (seq![
                        (arguments@[i as int].span, spec_classify(arguments@[i as int])),
                    ] + spec_supplied_list(arguments@.skip(i + 1))) =~= supplied@
                        + spec_supplied_list(arguments@.skip(i + 1)));
                }
                i += 1;
            }
            assert(arguments@.skip(i as int) =~= Seq::<Expression>::empty());
            assert(supplied@ + Seq::<((u32, u32), Option<ArgumentType>)>::empty() =~= supplied@);
        },
        FunctionArgs::StringArg { token } => {
            supplied.push((token.span, Some(ArgumentType::String)));
            assert(supplied@ =~= spec_supplied(*args));
        },
        FunctionArgs::TableArg { table } => {
            supplied.push((table.span, Some(ArgumentType::Table)));
            assert(supplied@ =~= spec_supplied(*args));
        },
    }
    supplied
}

/// Checks one call node against the standard library, producing its
/// diagnostics in order: the missing-vararg check, the argument-count check,
/// then one type check per argument position.
pub fn check_function_call(lib: &StandardLibrary, node: &FunctionCall) -> (r: Vec<Diagnostic>)
    requires
        spec_call_ok(*node),
        spec_stdlib_ok(*lib, *node),
    ensures
        r.deep_view() == spec_check_call(*lib, *node),
{
    let ghost target = spec_check_call(*lib, *node);
    let n = node.suffixes.len();
    let path = match name_path_from_prefix_suffix(&node.prefix, &node.suffixes, n - 1) {
        Some(path) => path,
        None => {
            let r: Vec<Diagnostic> = Vec::new();
            assert(r.deep_view() =~= target);
            return r;
        },
    };
    let field = match lib.find_global(&path) {
        Some(field) => field,
        None => {
            let r: Vec<Diagnostic> = Vec::new();
            assert(r.deep_view() =~= target);
            return r;
        },
    };
    let arguments = match field {
        Field::Function { arguments, method } => arguments,
        _ => {
            proof {
                assert(false);
            }
            vstd::pervasive::unreached()
        },
    };
    assert(node.suffixes@.last() == node.suffixes@[n - 1]);
    let args = match &node.suffixes[n - 1] {
        Suffix::Call { call: call_suffix } => match call_suffix {
            Call::Anonymous { args } => args,
            Call::Method { name, args } => {
                let r: Vec<Diagnostic> = Vec::new();
                assert(r.deep_view() =~= target);
                return r;
            },
        },
        Suffix::Index { index } => {
            proof {
                assert(false);
            }
            vstd::pervasive::unreached()
        },
    };
    let supplied = supplied_types(args);
    proof {
        assert(target == spec_check_args(path@, arguments@, supplied@, node.span));
    }

    let dlen = arguments.len();
    let last_vararg = dlen > 0 && matches!(arguments[dlen - 1].argument_type, ArgumentType::Vararg);
    let expected: usize = if last_vararg {
        dlen - 1
    } else {
        dlen
    };
    let path_str = join(&path, ".");
    let mut out: Vec<Diagnostic> = Vec::new();

    let ghost d1 = if dlen > 0 && arguments@.last().argument_type is Vararg
        && arguments@.last().required is Required && dlen > supplied@.len() {
        seq![spec_vararg_diag(path@, arguments@.last().required->0, node.span)]
    } else {
        Seq::<SpecDiagnostic>::empty()
    };
    if last_vararg && dlen > supplied.len() {
        match &arguments[dlen - 1].required {
            Required::Required(suggestion) => {
                let message = "standard library function `".to_owned().concat(
                    path_str.as_str(),
                ).concat("` requires use of the vararg");
                let mut notes: Vec<String> = Vec::new();
                match suggestion {
                    Some(text) => {
                        notes.push(text.clone());
                    },
                    None => {},
                }
                let d = Diagnostic::new_complete(
                    "standard_library_types",
                    message,
                    Label::new(node.span),
                    notes,
                    Vec::new(),
                );
                proof {
                    assert(d@.notes =~= spec_vararg_diag(
                        path@,
                        arguments@.last().required->0,
                        node.span,
                    ).notes);
                    assert(d@ =~= spec_vararg_diag(
                        path@,
                        arguments@.last().required->0,
                        node.span,
                    ));
                }
                out.push(d);
            },
            Required::NotRequired => {},
        }
    }
    assert(out.deep_view() =~= d1);

    let count_message = "standard library function `".to_owned().concat(path_str.as_str()).concat(
        "` requires ",
    ).concat(decimal_string(expected as u64).as_str()).concat(" parameters, ").concat(
        decimal_string(supplied.len() as u64).as_str(),
    ).concat(" passed");
    assert(count_message@ == spec_msg_count(path@, expected as nat, supplied@.len()));

    let ghost d2 = if supplied@.len() != expected as nat && (!(dlen > 0
        && arguments@.last().argument_type is Vararg) || supplied@.len() < expected as nat) {
        seq![spec_count_diag(path@, expected as nat, supplied@.len(), node.span)]
    } else {
        Seq::<SpecDiagnostic>::empty()
    };
    if supplied.len() != expected && (!last_vararg || supplied.len() < expected) {
        let d = Diagnostic::new(
            "standard_library_types",
            count_message.clone(),
            Label::new(node.span),
        );
        proof {
            assert(d@ =~= spec_count_diag(path@, expected as nat, supplied@.len(), node.span));
        }
        out.push(d);
    }
    assert(out.deep_view() =~= d1 + d2);

    let min = if supplied.len() < dlen {
        supplied.len()
    } else {
        dlen
    };
    let mut i: usize = 0;
    while i < min
        invariant
            i <= min,
            out.deep_view() + spec_mismatches(
                path@,
                expected as nat,
                arguments@,
                supplied@,
                i as nat,
            ) == d1 + d2 + spec_mismatches(path@, expected as nat, arguments@, supplied@, 0),
        decreases min - i,
    {
        let declared = &arguments[i];
        if !matches!(declared.argument_type, ArgumentType::Vararg) {
            match &supplied[i].1 {
                Some(got) => {
                    if !argument_type_matches(got, &declared.argument_type) {
                        let label_message = "expected `".to_owned().concat(
                            display_of(&declared.argument_type).as_str(),
                        ).concat("`, received `").concat(display_of(got).as_str()).concat("`");
                        let d = Diagnostic::new(
                            "standard_library_types",
                            count_message.clone(),
                            Label::new_with_message(supplied[i].0, label_message),
                        );
                        let ghost prev = out.deep_view();
                        proof {
                            assert(d@ =~= spec_mismatch_diag(
                                path@,
                                expected as nat,
                                supplied@.len(),
                                arguments@[i as int].argument_type,
                                supplied@[i as int].1->0,
                                supplied@[i as int].0,
                            ));
                        }
                        out.push(d);
                        proof {
                            assert(out.deep_view() =~= prev.push(d@));
                            assert(prev + (seq![d@] + spec_mismatches(
                                path@,
                                expected as nat,
                                arguments@,
                                supplied@,
                                (i + 1) as nat,
                            )) =~= out.deep_view() + spec_mismatches(
                                path@,
                                expected as nat,
                                arguments@,
                                supplied@,
                                (i + 1) as nat,
                            ));
                        }
                    }
                },
                None => {},
            }
        }
        i += 1;
    }
    proof {
        assert(spec_mismatches(path@, expected as nat, arguments@, supplied@, i as nat)
            =~= Seq::<SpecDiagnostic>::empty());
        assert(out.deep_view() + Seq::<SpecDiagnostic>::empty() =~= out.deep_view());
        assert(target =~= out.deep_view());
    }
    out
}

/// Whether every call node of the tree is well formed and the library marks
/// no non-callable with call syntax at a resolvable call site.
pub open spec fn spec_tree_calls_ok(lib: StandardLibrary, ast: Ast) -> bool {
    forall|i: int|
        0 <= i < gathered_of(ast).calls.len() ==> spec_call_ok(
            #[trigger] gathered_of(ast).calls[i],
        ) && spec_stdlib_ok(lib, gathered_of(ast).calls[i])
}

/// The diagnostics of a row of calls, concatenated in order.
pub open spec fn spec_calls_diags(lib: StandardLibrary, cs: Seq<FunctionCall>) -> Seq<
    SpecDiagnostic,
>
    decreases cs.len(),
{
    if cs.len() == 0 {
        Seq::empty()
    } else {
        spec_check_call(lib, cs[0]) + spec_calls_diags(lib, cs.skip(1))
    }
}

/// Every diagnostic this rule reports on a tree: the calls in preorder, each
/// checked against the standard library.
pub open spec fn spec_stdlib_diags(lib: StandardLibrary, ast: Ast) -> Seq<SpecDiagnostic> {
    spec_calls_diags(lib, gathered_of(ast).calls)
}

/// Decides `spec_call_ok` for one call node.
pub fn call_node_ok(node: &FunctionCall) -> (r: bool)
    ensures
        r == spec_call_ok(*node),
{
    let n = node.suffixes.len();
    if n == 0 {
        return false;
    }
    assert(node.suffixes@.last() == node.suffixes@[n - 1]);
    matches!(&node.suffixes[n - 1], Suffix::Call { .. })
}

/// Decides `spec_stdlib_ok` for one well-formed call node.
pub fn call_stdlib_ok(lib: &StandardLibrary, node: &FunctionCall) -> (r: bool)
    requires
        spec_call_ok(*node),
    ensures
        r == spec_stdlib_ok(*lib, *node),
{
    let n = node.suffixes.len();
    match name_path_from_prefix_suffix(&node.prefix, &node.suffixes, n - 1) {
        Some(path) => match lib.find_global(&path) {
            Some(field) => matches!(field, Field::Function { .. }),
            None => true,
        },
        None => true,
    }
}

/// Decides `spec_tree_calls_ok`: whether a tree can be checked against the
/// library without running into a defective description. Callers that obtain
/// trees or descriptions from outside should test this first.
pub fn tree_calls_ok(lib: &StandardLibrary, ast: &Ast) -> (r: bool)
    ensures
        r == spec_tree_calls_ok(*lib, *ast),
{
    let sinks = gather_ast(ast);
    let ghost cs = gathered_of(*ast).calls;
    let mut i: usize = 0;
    while i < sinks.calls.len()
        invariant
            i <= sinks.calls@.len(),
            sinks@ == gathered_of(*ast),
            forall|j: int|
                0 <= j < i ==> spec_call_ok(#[trigger] cs[j]) && spec_stdlib_ok(*lib, cs[j]),
        decreases sinks.calls@.len() - i,
    {
        let node: &FunctionCall = sinks.calls[i];
        assert(cs[i as int] == *sinks.calls@[i as int]);
        if !call_node_ok(node) {
            return false;
        }
        if !call_stdlib_ok(lib, node) {
            return false;
        }
        i += 1;
    }
    true
}

/// The rule that checks calls against the standard-library description.
pub struct StandardLibraryLint;

impl StandardLibraryLint {
    /// This rule takes no configuration and always constructs.
    pub fn new(config: ()) -> (r: Result<StandardLibraryLint, RuleError>)
        ensures
            r is Ok,
    {
        Ok(StandardLibraryLint)
    }

    /// Runs the rule over a tree: every call node is checked in preorder.
    pub fn pass(&self, ast: &Ast, context: &Context) -> (r: Vec<Diagnostic>)
        requires
            spec_tree_calls_ok(context.standard_library, *ast),
        ensures
            r.deep_view() == spec_stdlib_diags(context.standard_library, *ast),
    {
        let mut visitor = StandardLibraryVisitor { diagnostics: Vec::new() };
        visitor.visit_ast(ast, &context.standard_library);
        visitor.diagnostics
    }
}

/// The walker behind the standard-library rule: checks every call node of a
/// tree and gathers the diagnostics.
pub struct StandardLibraryVisitor {
    pub diagnostics: Vec<Diagnostic>,
}

impl StandardLibraryVisitor {
    /// Walks the whole tree, appending the diagnostics of each call.
    pub fn visit_ast(&mut self, ast: &Ast, standard_library: &StandardLibrary)
        requires
            spec_tree_calls_ok(*standard_library, *ast),
        ensures
            final(self).diagnostics.deep_view() == old(self).diagnostics.deep_view()
                + spec_stdlib_diags(*standard_library, *ast),
    {
        let sinks = gather_ast(ast);
        let ghost cs = gathered_of(*ast).calls;
        let ghost out0 = self.diagnostics.deep_view();
        let mut i: usize = 0;
        assert(cs.skip(0) =~= cs);
        while i < sinks.calls.len()
            invariant
                i <= sinks.calls@.len(),
                sinks@ == gathered_of(*ast),
                out0 + spec_calls_diags(*standard_library, cs) == self.diagnostics.deep_view()
                    + spec_calls_diags(*standard_library, cs.skip(i as int)),
            decreases sinks.calls@.len() - i,
        {
            assert(cs.skip(i as int)[0] == cs[i as int]);
            assert(cs.skip(i as int).skip(1) =~= cs.skip(i + 1));
            assert(cs[i as int] == *sinks.calls@[i as int]);
            let node: &FunctionCall = sinks.calls[i];
            let mut ds = check_function_call(standard_library, node);
            let ghost prev = self.diagnostics.deep_view();
            let ghost dsd = ds.deep_view();
            self.diagnostics.append(&mut ds);
            proof {
                assert(self.diagnostics.deep_view() =~= prev + dsd);
                assert(prev + (dsd + spec_calls_diags(*standard_library, cs.skip(i + 1)))
                    =~= self.diagnostics.deep_view() + spec_calls_diags(
                    *standard_library,
                    cs.skip(i + 1),
                ));
            }
            i += 1;
        }
        proof {
            assert(cs.skip(i as int) =~= Seq::<FunctionCall>::empty());
            assert(self.diagnostics.deep_view() + Seq::<SpecDiagnostic>::empty()
                =~= self.diagnostics.deep_view());
        }
    }
}

impl StandardLibraryLint {
    /// Findings of this rule display as errors.
    pub fn severity(&self) -> (r: Severity)
        ensures
            r == Severity::Error,
    {
        Severity::Error
    }

    /// This rule reports correctness problems.
    pub fn rule_type(&self) -> (r: RuleType)
        ensures
            r == RuleType::Correctness,
    {
        RuleType::Correctness
    }
}

/// Expressions whose value rests only on variables and call results, the
/// shapes the classifier never guesses about: a variable or call, possibly
/// parenthesized, negated, combined by arithmetic on such a left operand, or
/// under `and`/`or`.
pub open spec fn spec_rests_on_dynamic(e: Expression) -> bool
    decreases e,
{
    match e.kind {
        ExpressionKind::Var { var } => true,
        ExpressionKind::FunctionCall { call } => true,
        ExpressionKind::Parentheses { expression } => spec_rests_on_dynamic(*expression),
        ExpressionKind::UnaryOperator { unop, expression } => unop is Minus
            && spec_rests_on_dynamic(*expression),
        ExpressionKind::BinaryOperator { lhs, binop, rhs } => match binop {
            BinOp::Plus | BinOp::Minus | BinOp::Star | BinOp::Slash => spec_rests_on_dynamic(
                *lhs,
            ),
            BinOp::And | BinOp::Or => true,
            _ => false,
        },
        _ => false,
    }
}

/// Classifier conservatism, the unknown half: an expression resting only on
/// variable references or call results is never classified.
pub proof fn lemma_classifier_conservative(e: Expression)
    requires
        spec_rests_on_dynamic(e),
    ensures
        spec_classify(e) is None,
    decreases e,
{
    match e.kind {
        ExpressionKind::Parentheses { expression } => {
            lemma_classifier_conservative(*expression);
        },
        ExpressionKind::UnaryOperator { unop, expression } => {
            lemma_classifier_conservative(*expression);
        },
        ExpressionKind::BinaryOperator { lhs, binop, rhs } => {
            match binop {
                BinOp::Plus | BinOp::Minus | BinOp::Star | BinOp::Slash => {
                    lemma_classifier_conservative(*lhs);
                },
                _ => {},
            }
        },
        _ => {},
    }
}

/// Classifier exactness, the literal half: every literal expression
/// classifies as exactly the type of its kind.
pub proof fn lemma_classifier_literals(e: Expression)
    ensures
        (e.kind matches ExpressionKind::Number { token }) ==> spec_classify(e) == Some(
            ArgumentType::Number,
        ),
        (e.kind matches ExpressionKind::String { token }) ==> spec_classify(e) == Some(
            ArgumentType::String,
        ),
        (e.kind matches ExpressionKind::TableConstructor { table }) ==> spec_classify(e) == Some(
            ArgumentType::Table,
        ),
        (e.kind matches ExpressionKind::Function { body }) ==> spec_classify(e) == Some(
            ArgumentType::Function,
        ),
        (e.kind matches ExpressionKind::Symbol { token } && (token.text@ == "true"@ || token.text@
            == "false"@)) ==> spec_classify(e) == Some(ArgumentType::Bool),
        (e.kind matches ExpressionKind::Symbol { token } && token.text@ == "nil"@)
            ==> spec_classify(e) == Some(ArgumentType::Nil),
{
    reveal_strlit("nil");
    reveal_strlit("true");
    reveal_strlit("false");
    assert("nil"@.len() == 3 && "true"@.len() == 4 && "false"@.len() == 5);
}

/// A decimal rendering is never empty.
proof fn lemma_decimal_len_pos(n: nat)
    ensures
        spec_decimal(n).len() >= 1,
    decreases n,
{
    if n >= 10 {
        lemma_decimal_len_pos(n / 10);
    }
}

/// Vararg accounting: for a function declared with a required trailing
/// vararg, a call that supplies no more arguments than the non-vararg prefix
/// opens its findings with the missing-vararg diagnostic, and a call that
/// fills the vararg produces no finding with that diagnostic's message.
pub proof fn lemma_vararg_accounting(
    path: Seq<String>,
    declared: Seq<Argument>,
    supplied: Seq<((u32, u32), Option<ArgumentType>)>,
    span: (u32, u32),
)
    requires
        declared.len() >= 1,
        declared.last().argument_type is Vararg,
        declared.last().required is Required,
    ensures
        supplied.len() < declared.len() ==> spec_check_args(path, declared, supplied, span)[0]
            == spec_vararg_diag(path, declared.last().required->0, span),
        supplied.len() >= declared.len() ==> forall|j: int|
            0 <= j < spec_check_args(path, declared, supplied, span).len() ==> (#[trigger]
            spec_check_args(path, declared, supplied, span)[j]).message != spec_msg_vararg(path),
{
    let out = spec_check_args(path, declared, supplied, span);
    let expected = (declared.len() - 1) as nat;
    if supplied.len() < declared.len() {
        assert(out[0] == spec_vararg_diag(path, declared.last().required->0, span));
    } else {
        assert forall|j: int| 0 <= j < out.len() implies (#[trigger] out[j]).message
            != spec_msg_vararg(path) by {
            lemma_count_message_differs(path, expected, supplied.len());
            lemma_mismatch_messages(path, expected, declared, supplied, 0);
        }
    }
}

/// The wrong-count message is never the missing-vararg message: past their
/// shared prefix, the two differ in length.
proof fn lemma_count_message_differs(path: Seq<String>, expected: nat, passed: nat)
    ensures
        spec_msg_count(path, expected, passed) != spec_msg_vararg(path),
{
    lemma_decimal_len_pos(expected);
    lemma_decimal_len_pos(passed);
    reveal_strlit("` requires use of the vararg");
    reveal_strlit("` requires ");
    reveal_strlit(" parameters, ");
    reveal_strlit(" passed");
    assert(spec_msg_count(path, expected, passed).len() != spec_msg_vararg(path).len());
}

/// Every type-mismatch finding carries the wrong-count message.
proof fn lemma_mismatch_messages(
    path: Seq<String>,
    expected: nat,
    declared: Seq<Argument>,
    supplied: Seq<((u32, u32), Option<ArgumentType>)>,
    i: nat,
)
    ensures
        forall|j: int|
            0 <= j < spec_mismatches(path, expected, declared, supplied, i).len() ==> (#[trigger]
            spec_mismatches(path, expected, declared, supplied, i)[j]).message == spec_msg_count(
                path,
                expected,
                supplied.len(),
            ),
    decreases declared.len() + supplied.len() - i,
{
    if i < declared.len() && i < supplied.len() {
        lemma_mismatch_messages(path, expected, declared, supplied, i + 1);
    }
}

/// The supplied-argument list of a call node's final call suffix, if it is
/// an anonymous call; empty otherwise.
pub open spec fn sp_call_supplied(c: FunctionCall) -> Seq<((u32, u32), Option<ArgumentType>)> {
    if c.suffixes@.len() > 0 {
        match c.suffixes@.last() {
            Suffix::Call { call } => match call {
                Call::Anonymous { args } => spec_supplied(args),
                Call::Method { name, args } => Seq::empty(),
            },
            _ => Seq::empty(),
        }
    } else {
        Seq::empty()
    }
}

/// Whether a call node's own span and the spans of its supplied arguments
/// are ordered, as spans copied from parser nodes are.
pub open spec fn sp_call_spans_ok(c: FunctionCall) -> bool {
    c.span.0 <= c.span.1 && forall|j: int|
        0 <= j < sp_call_supplied(c).len() ==> (#[trigger] sp_call_supplied(c)[j]).0.0
            <= sp_call_supplied(c)[j].0.1
}

/// Every type-mismatch finding is anchored on a supplied argument's span.
proof fn lemma_mismatch_label_ranges(
    path: Seq<String>,
    expected: nat,
    declared: Seq<Argument>,
    supplied: Seq<((u32, u32), Option<ArgumentType>)>,
    i: nat,
)
    requires
        forall|j: int| 0 <= j < supplied.len() ==> (#[trigger] supplied[j]).0.0 <= supplied[j].0.1,
    ensures
        forall|j: int|
            0 <= j < spec_mismatches(path, expected, declared, supplied, i).len() ==> (
            #[trigger] spec_mismatches(
                path,
                expected,
                declared,
                supplied,
                i,
            )[j]).primary_label.range.0 <= spec_mismatches(
                path,
                expected,
                declared,
                supplied,
                i,
            )[j].primary_label.range.1,
    decreases declared.len() + supplied.len() - i,
{
    if i < declared.len() && i < supplied.len() {
        lemma_mismatch_label_ranges(path, expected, declared, supplied, i + 1);
    }
}

/// Every finding of one call is anchored on the call or on one of its
/// supplied arguments, so its range is ordered whenever those spans are.
pub proof fn lemma_check_call_label_ranges(lib: StandardLibrary, c: FunctionCall)
    requires
        spec_call_ok(c),
        sp_call_spans_ok(c),
    ensures
        forall|j: int|
            0 <= j < spec_check_call(lib, c).len() ==> (#[trigger] spec_check_call(
                lib,
                c,
            )[j]).primary_label.range.0 <= spec_check_call(lib, c)[j].primary_label.range.1,
{
    match spec_name_path_from_prefix_suffix(c.prefix, c.suffixes@.take(c.suffixes@.len() - 1)) {
        Some(path) => match spec_find_global(lib, path) {
            Some(field) => match field {
                Field::Function { arguments, method } => {
                    if c.suffixes@.len() > 0 {
                        match c.suffixes@.last() {
                            Suffix::Call { call } => match call {
                                Call::Anonymous { args } => {
                                    assert(sp_call_supplied(c) == spec_supplied(args));
                                    lemma_mismatch_label_ranges(
                                        path,
                                        if arguments@.len() > 0
                                            && arguments@.last().argument_type is Vararg {
                                            (arguments@.len() - 1) as nat
                                        } else {
                                            arguments@.len()
                                        },
                                        arguments@,
                                        spec_supplied(args),
                                        0,
                                    );
                                },
                                Call::Method { name, args } => {},
                            },
                            _ => {},
                        }
                    }
                },
                _ => {},
            },
            None => {},
        },
        None => {},
    }
}

/// Every finding of this rule over a row of calls has an ordered range,
/// provided every call's spans are ordered.
pub proof fn lemma_stdlib_label_ranges(lib: StandardLibrary, cs: Seq<FunctionCall>)
    requires
        forall|i: int|
            0 <= i < cs.len() ==> spec_call_ok(#[trigger] cs[i]) && sp_call_spans_ok(cs[i]),
    ensures
        forall|j: int|
            0 <= j < spec_calls_diags(lib, cs).len() ==> (#[trigger] spec_calls_diags(
                lib,
                cs,
            )[j]).primary_label.range.0 <= spec_calls_diags(lib, cs)[j].primary_label.range.1,
    decreases cs.len(),
{
    if cs.len() > 0 {
        lemma_check_call_label_ranges(lib, cs[0]);
        assert forall|i: int|
            0 <= i < cs.skip(1).len() implies spec_call_ok(#[trigger] cs.skip(1)[i])
            && sp_call_spans_ok(cs.skip(1)[i]) by {
            assert(cs.skip(1)[i] == cs[i + 1]);
        }
        lemma_stdlib_label_ranges(lib, cs.skip(1));
    }
}

/// Resolves an expression to a dotted name path, when it is one.
pub fn name_path(expression: &Expression) -> (r: Option<Vec<String>>)
    ensures
        match r {
            Some(names) => spec_name_path(*expression) == Some(names@),
            None => spec_name_path(*expression) is None,
        },
{
    match &expression.kind {
        ExpressionKind::Var { var } => match var {
            Var::Name { token } => {
                let mut names: Vec<String> = Vec::new();
                names.push(token.text.clone());
                assert(names@ =~= seq![token.text]);
                Some(names)
            },
            Var::Expression { var_expr } => {
                let n = var_expr.suffixes.len();
                let r = name_path_from_prefix_suffix(&var_expr.prefix, &var_expr.suffixes, n);
                proof {
                    assert(var_expr.suffixes@.take(n as int) =~= var_expr.suffixes@);
                }
                r
            },
        },
        _ => None,
    }
}

} // verus!
