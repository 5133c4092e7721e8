//! Flags function definitions whose cyclomatic complexity exceeds a
//! configured maximum. Complexity starts at one per function and grows by
//! one for every branching construct: `if`, `elseif`, the loops, and the
//! short-circuiting operators `and` and `or`.

use vstd::prelude::*;
use crate::ast::{Ast, BinOp, Block, Call, ElseIf, Expression, ExpressionKind, FunctionArgs,
    FunctionBody, FunctionCall, LastStmt, Stmt, Suffix, TableField};
use crate::ast_util::visit::{gather_ast, gathered_of};
use crate::rules::{Context, Diagnostic, Label, RuleError, RuleType, Severity, SpecDiagnostic,
    SpecLabel};
use crate::text::{decimal_string, spec_decimal};

verus! {

/// Saturating addition: complexity counts never overflow, they cap.
pub open spec fn sp_sat_add(a: u64, b: u64) -> u64 {
    if a + b > u64::MAX {
        u64::MAX
    } else {
        (a + b) as u64
    }
}

/// Adds with saturation at `u64::MAX`.
fn sat_add(a: u64, b: u64) -> (r: u64)
    ensures
        r == sp_sat_add(a, b),
{
    if a > u64::MAX - b {
        u64::MAX
    } else {
        a + b
    }
}

/// The complexity an expression adds on top of `c`: one per `and`/`or`,
/// recursing through parentheses, call arguments and table fields. Other
/// binary and unary operators add nothing and are not entered.
pub open spec fn sp_expr_complexity(e: Expression, c: u64) -> u64
    decreases e, 1int, 2int,
{
    match e.kind {
        ExpressionKind::Parentheses { expression } => sp_expr_complexity(*expression, c),
        ExpressionKind::BinaryOperator { lhs, binop, rhs } => match binop {
            BinOp::And | BinOp::Or => sp_expr_complexity(
                *rhs,
                sp_expr_complexity(*lhs, sp_sat_add(c, 1)),
            ),
            _ => c,
        },
        ExpressionKind::FunctionCall { call } => sp_call_args_complexity(call.suffixes@, c),
        ExpressionKind::TableConstructor { table } => sp_fields_complexity(table.fields@, c),
        _ => c,
    }
}

/// Folds the complexity of the parenthesized argument lists among suffixes.
pub open spec fn sp_call_args_complexity(ss: Seq<Suffix>, c: u64) -> u64
    decreases ss, 1int, 1int,
{
    if ss.len() == 0 {
        c
    } else {
        let c = match ss[0] {
            Suffix::Call { call } => match call {
                Call::Anonymous { args } => match args {
                    FunctionArgs::Parentheses { arguments } => sp_exprs_complexity(arguments@, c),
                    _ => c,
                },
                _ => c,
            },
            _ => c,
        };
        sp_call_args_complexity(ss.skip(1), c)
    }
}

pub open spec fn sp_exprs_complexity(es: Seq<Expression>, c: u64) -> u64
    decreases es, 1int, 1int,
{
    if es.len() == 0 {
        c
    } else {
        sp_exprs_complexity(es.skip(1), sp_expr_complexity(es[0], c))
    }
}

pub open spec fn sp_fields_complexity(fs: Seq<TableField>, c: u64) -> u64
    decreases fs, 1int, 1int,
{
    if fs.len() == 0 {
        c
    } else {
        let c = match fs[0] {
            TableField::ExpressionKey { key, value } => sp_expr_complexity(
                value,
                sp_expr_complexity(key, c),
            ),
            TableField::NameKey { key, value } => sp_expr_complexity(value, c),
            TableField::NoKey { value } => sp_expr_complexity(value, c),
        };
        sp_fields_complexity(fs.skip(1), c)
    }
}

pub open spec fn sp_elseifs_complexity(es: Seq<ElseIf>, c: u64) -> u64
    decreases es, 1int, 1int,
{
    if es.len() == 0 {
        c
    } else {
        let c = sp_sat_add(c, 1);
        let c = sp_expr_complexity(es[0].condition, c);
        let c = sp_block_complexity(es[0].block, c);
        sp_elseifs_complexity(es.skip(1), c)
    }
}

/// The `GenericFor` fold from position `i` on: the loop's block is counted
/// once per iterated expression.
pub open spec fn sp_generic_for_complexity(s: Stmt, i: int, c: u64) -> u64
    decreases s, 0int, s->GenericFor_expressions@.len() - i,
{
    if (s matches Stmt::GenericFor { names, expressions, block }) && 0 <= i
        < s->GenericFor_expressions@.len() {
        let c = sp_expr_complexity(s->GenericFor_expressions@[i], c);
        let c = sp_block_complexity(s->GenericFor_block, c);
        sp_generic_for_complexity(s, i + 1, c)
    } else {
        c
    }
}

/// The complexity a statement adds on top of `c`. Nested function
/// definitions are not entered: they are measured on their own.
pub open spec fn sp_stmt_complexity(s: Stmt, c: u64) -> u64
    decreases s, 1int, 2int,
{
    match s {
        Stmt::If { if_block } => {
            let c = sp_sat_add(c, 1);
            let c = sp_expr_complexity(if_block.condition, c);
            let c = sp_block_complexity(if_block.block, c);
            sp_elseifs_complexity(if_block.else_ifs@, c)
        },
        Stmt::While { condition, block } => sp_block_complexity(
            block,
            sp_expr_complexity(condition, sp_sat_add(c, 1)),
        ),
        Stmt::Repeat { block, until } => sp_block_complexity(
            block,
            sp_expr_complexity(until, sp_sat_add(c, 1)),
        ),
        Stmt::NumericFor { name, start, end, step, block } => {
            let c = sp_sat_add(c, 1);
            let c = sp_expr_complexity(start, c);
            let c = sp_expr_complexity(end, c);
            let c = match step {
                Some(step) => sp_expr_complexity(step, c),
                None => c,
            };
            sp_block_complexity(block, c)
        },
        Stmt::GenericFor { names, expressions, block } => sp_generic_for_complexity(
            s,
            0,
            sp_sat_add(c, 1),
        ),
        Stmt::Assignment { vars, expressions } => sp_exprs_complexity(expressions@, c),
        Stmt::LocalAssignment { names, expressions } => sp_exprs_complexity(expressions@, c),
        Stmt::FunctionCall { call } => sp_call_args_complexity(call.suffixes@, c),
        _ => c,
    }
}

pub open spec fn sp_stmts_complexity(ss: Seq<Stmt>, c: u64) -> u64
    decreases ss, 1int, 1int,
{
    if ss.len() == 0 {
        c
    } else {
        sp_stmts_complexity(ss.skip(1), sp_stmt_complexity(ss[0], c))
    }
}

/// The complexity a block adds on top of `c`: its statements, then the
/// expressions of a closing `return`.
pub open spec fn sp_block_complexity(b: Block, c: u64) -> u64
    decreases b, 1int, 2int,
{
    let c = sp_stmts_complexity(b.stmts@, c);
    match b.last_stmt {
        Some(LastStmt::Return { expressions }) => sp_exprs_complexity(expressions@, c),
        _ => c,
    }
}

/// Counts the complexity an expression adds on top of `starting_complexity`.
pub fn count_expression_complexity(expression: &Expression, starting_complexity: u64) -> (r: u64)
    ensures
        r == sp_expr_complexity(*expression, starting_complexity),
    decreases *expression, 1int, 2int,
{
    let mut complexity = starting_complexity;
    match &expression.kind {
        ExpressionKind::Parentheses { expression } => count_expression_complexity(
            expression,
            complexity,
        ),
        ExpressionKind::BinaryOperator { lhs, binop, rhs } => match binop {
            BinOp::And | BinOp::Or => {
                complexity = sat_add(complexity, 1);
                complexity = count_expression_complexity(lhs, complexity);
                complexity = count_expression_complexity(rhs, complexity);
                complexity
            },
            _ => complexity,
        },
        ExpressionKind::FunctionCall { call } => count_call_args_complexity(
            &call.suffixes,
            complexity,
        ),
        ExpressionKind::TableConstructor { table } => {
            let mut i: usize = 0;
            assert(table.fields@.skip(0) =~= table.fields@);
            while i < table.fields.len()
                invariant
                    i <= table.fields@.len(),
                    sp_fields_complexity(table.fields@, starting_complexity)
                        == sp_fields_complexity(table.fields@.skip(i as int), complexity),
                decreases table.fields@.len() - i, 0int,
            {
                assert(table.fields@.skip(i as int)[0] == table.fields@[i as int]);
                assert(table.fields@.skip(i as int).skip(1) =~= table.fields@.skip(i + 1));
                proof {
                    assert(decreases_to!(*expression => expression.kind));
                    assert(decreases_to!(expression.kind => *table));
                    assert(decreases_to!(*table => table.fields@));
                    assert(decreases_to!(table.fields@ => table.fields@[i as int]));
                }
                match &table.fields[i] {
                    TableField::ExpressionKey { key, value } => {
                        complexity = count_expression_complexity(key, complexity);
                        complexity = count_expression_complexity(value, complexity);
                    },
                    TableField::NameKey { key, value } => {
                        complexity = count_expression_complexity(value, complexity);
                    },
                    TableField::NoKey { value } => {
                        complexity = count_expression_complexity(value, complexity);
                    },
                }
                i += 1;
            }
            assert(table.fields@.skip(i as int) =~= Seq::<TableField>::empty());
            complexity
        },
        _ => complexity,
    }
}

/// Folds the complexity of the parenthesized argument lists of a call.
fn count_call_args_complexity(suffixes: &Vec<Suffix>, starting_complexity: u64) -> (r: u64)
    ensures
        r == sp_call_args_complexity(suffixes@, starting_complexity),
    decreases suffixes@, 1int, 1int,
{
    let mut complexity = starting_complexity;
    let mut i: usize = 0;
    assert(suffixes@.skip(0) =~= suffixes@);
    while i < suffixes.len()
        invariant
            i <= suffixes@.len(),
            sp_call_args_complexity(suffixes@, starting_complexity) == sp_call_args_complexity(
                suffixes@.skip(i as int),
                complexity,
            ),
        decreases suffixes@.len() - i, 0int,
    {
        assert(suffixes@.skip(i as int)[0] == suffixes@[i as int]);
        assert(suffixes@.skip(i as int).skip(1) =~= suffixes@.skip(i + 1));
        match &suffixes[i] {
            Suffix::Call { call } => match call {
                Call::Anonymous { args } => match args {
                    FunctionArgs::Parentheses { arguments } => {
                        let mut j: usize = 0;
                        assert(arguments@.skip(0) =~= arguments@);
                        let ghost entry = complexity;
                        while j < arguments.len()
                            invariant
                                j <= arguments@.len(),
                                sp_exprs_complexity(arguments@, entry) == sp_exprs_complexity(
                                    arguments@.skip(j as int),
                                    complexity,
                                ),
                            decreases arguments@.len() - j, 0int,
                        {
                            assert(arguments@.skip(j as int)[0] == arguments@[j as int]);
                            assert(arguments@.skip(j as int).skip(1) =~= arguments@.skip(j + 1));
                            proof {
                                assert(decreases_to!(suffixes@ => suffixes@[i as int]));
                                assert(decreases_to!(suffixes@[i as int] => arguments@[j as int]));
                            }
                            complexity = count_expression_complexity(&arguments[j], complexity);
                            j += 1;
                        }
                        assert(arguments@.skip(j as int) =~= Seq::<Expression>::empty());
                    },
                    _ => {},
                },
                _ => {},
            },
            _ => {},
        }
        i += 1;
    }
    assert(suffixes@.skip(i as int) =~= Seq::<Suffix>::empty());
    complexity
}

/// Counts the complexity a block adds on top of `starting_complexity`.
pub fn count_block_complexity(block: &Block, starting_complexity: u64) -> (r: u64)
    ensures
        r == sp_block_complexity(*block, starting_complexity),
    decreases *block, 1int, 2int,
{
    let mut complexity = starting_complexity;
    let mut i: usize = 0;
    assert(block.stmts@.skip(0) =~= block.stmts@);
    while i < block.stmts.len()
        invariant
            i <= block.stmts@.len(),
            sp_stmts_complexity(block.stmts@, starting_complexity) == sp_stmts_complexity(
                block.stmts@.skip(i as int),
                complexity,
            ),
        decreases block.stmts@.len() - i, 1int,
    {
        assert(block.stmts@.skip(i as int)[0] == block.stmts@[i as int]);
        assert(block.stmts@.skip(i as int).skip(1) =~= block.stmts@.skip(i + 1));
        proof {
            assert(decreases_to!(*block => block.stmts));
            assert(decreases_to!(block.stmts => block.stmts@));
            assert(decreases_to!(block.stmts@ => block.stmts@[i as int]));
        }
        complexity = count_statement_complexity(&block.stmts[i], complexity);
        i += 1;
    }
    assert(block.stmts@.skip(i as int) =~= Seq::<Stmt>::empty());
    match &block.last_stmt {
        Some(LastStmt::Return { expressions }) => {
            let mut j: usize = 0;
            assert(expressions@.skip(0) =~= expressions@);
            let ghost entry = complexity;
            while j < expressions.len()
                invariant
                    j <= expressions@.len(),
                    sp_exprs_complexity(expressions@, entry) == sp_exprs_complexity(
                        expressions@.skip(j as int),
                        complexity,
                    ),
                decreases expressions@.len() - j, 0int,
            {
                assert(expressions@.skip(j as int)[0] == expressions@[j as int]);
                assert(expressions@.skip(j as int).skip(1) =~= expressions@.skip(j + 1));
                complexity = count_expression_complexity(&expressions[j], complexity);
                j += 1;
            }
            assert(expressions@.skip(j as int) =~= Seq::<Expression>::empty());
        },
        _ => {},
    }
    complexity
}

/// Counts the complexity a statement adds on top of `starting_complexity`.
fn count_statement_complexity(statement: &Stmt, starting_complexity: u64) -> (r: u64)
    ensures
        r == sp_stmt_complexity(*statement, starting_complexity),
    decreases *statement, 1int, 2int,
{
    let mut complexity = starting_complexity;
    match statement {
        Stmt::If { if_block } => {
            complexity = sat_add(complexity, 1);
            complexity = count_expression_complexity(&if_block.condition, complexity);
            complexity = count_block_complexity(&if_block.block, complexity);
            let mut i: usize = 0;
            assert(if_block.else_ifs@.skip(0) =~= if_block.else_ifs@);
            let ghost entry = complexity;
            while i < if_block.else_ifs.len()
                invariant
                    i <= if_block.else_ifs@.len(),
                    sp_elseifs_complexity(if_block.else_ifs@, entry) == sp_elseifs_complexity(
                        if_block.else_ifs@.skip(i as int),
                        complexity,
                    ),
                decreases if_block.else_ifs@.len() - i, 0int,
            {
                assert(if_block.else_ifs@.skip(i as int)[0] == if_block.else_ifs@[i as int]);
                assert(if_block.else_ifs@.skip(i as int).skip(1) =~= if_block.else_ifs@.skip(
                    i + 1,
                ));
                proof {
                    assert(decreases_to!(*statement => *if_block));
                    assert(decreases_to!(*if_block => if_block.else_ifs@));
                    assert(decreases_to!(if_block.else_ifs@ => if_block.else_ifs@[i as int]));
                    assert(decreases_to!(if_block.else_ifs@[i as int]
                        => if_block.else_ifs@[i as int].condition));
                    assert(decreases_to!(if_block.else_ifs@[i as int]
                        => if_block.else_ifs@[i as int].block));
                }
                complexity = sat_add(complexity, 1);
                complexity = count_expression_complexity(
                    &if_block.else_ifs[i].condition,
                    complexity,
                );
                complexity = count_block_complexity(&if_block.else_ifs[i].block, complexity);
                i += 1;
            }
            assert(if_block.else_ifs@.skip(i as int) =~= Seq::<crate::ast::ElseIf>::empty());
            complexity
        },
        Stmt::While { condition, block } => {
            complexity = count_expression_complexity(condition, sat_add(complexity, 1));
            count_block_complexity(block, complexity)
        },
        Stmt::Repeat { block, until } => {
            complexity = count_expression_complexity(until, sat_add(complexity, 1));
            count_block_complexity(block, complexity)
        },
        Stmt::NumericFor { name, start, end, step, block } => {
            complexity = sat_add(complexity, 1);
            complexity = count_expression_complexity(start, complexity);
            complexity = count_expression_complexity(end, complexity);
            match step {
                Some(step) => {
                    complexity = count_expression_complexity(step, complexity);
                },
                None => {},
            }
            count_block_complexity(block, complexity)
        },
        Stmt::GenericFor { names, expressions, block } => {
            complexity = sat_add(complexity, 1);
            let mut i: usize = 0;
            let ghost entry = complexity;
            while i < expressions.len()
                invariant
                    i <= expressions@.len(),
                    sp_generic_for_complexity(*statement, 0, entry) == sp_generic_for_complexity(
                        *statement,
                        i as int,
                        complexity,
                    ),
                decreases expressions@.len() - i, 0int,
            {
                proof {
                    assert(decreases_to!(*statement => *expressions));
                    assert(decreases_to!(*expressions => expressions@));
                    assert(decreases_to!(expressions@ => expressions@[i as int]));
                }
                complexity = count_expression_complexity(&expressions[i], complexity);
                complexity = count_block_complexity(block, complexity);
                i += 1;
            }
            complexity
        },
        Stmt::Assignment { vars, expressions } => {
            let mut i: usize = 0;
            assert(expressions@.skip(0) =~= expressions@);
            while i < expressions.len()
                invariant
                    i <= expressions@.len(),
                    sp_exprs_complexity(expressions@, starting_complexity) == sp_exprs_complexity(
                        expressions@.skip(i as int),
                        complexity,
                    ),
                decreases expressions@.len() - i, 0int,
            {
                assert(expressions@.skip(i as int)[0] == expressions@[i as int]);
                assert(expressions@.skip(i as int).skip(1) =~= expressions@.skip(i + 1));
                proof {
                    assert(decreases_to!(*statement => *expressions));
                    assert(decreases_to!(*expressions => expressions@));
                    assert(decreases_to!(expressions@ => expressions@[i as int]));
                }
                complexity = count_expression_complexity(&expressions[i], complexity);
                i += 1;
            }
            assert(expressions@.skip(i as int) =~= Seq::<Expression>::empty());
            complexity
        },
        Stmt::LocalAssignment { names, expressions } => {
            let mut i: usize = 0;
            assert(expressions@.skip(0) =~= expressions@);
            while i < expressions.len()
                invariant
                    i <= expressions@.len(),
                    sp_exprs_complexity(expressions@, starting_complexity) == sp_exprs_complexity(
                        expressions@.skip(i as int),
                        complexity,
                    ),
                decreases expressions@.len() - i, 0int,
            {
                assert(expressions@.skip(i as int)[0] == expressions@[i as int]);
                assert(expressions@.skip(i as int).skip(1) =~= expressions@.skip(i + 1));
                proof {
                    assert(decreases_to!(*statement => *expressions));
                    assert(decreases_to!(*expressions => expressions@));
                    assert(decreases_to!(expressions@ => expressions@[i as int]));
                }
                complexity = count_expression_complexity(&expressions[i], complexity);
                i += 1;
            }
            assert(expressions@.skip(i as int) =~= Seq::<Expression>::empty());
            complexity
        },
        Stmt::FunctionCall { call } => count_call_args_complexity(&call.suffixes, complexity),
        _ => complexity,
    }
}

/// Configuration: the largest complexity that passes without a finding.
pub struct HighCyclomaticComplexityConfig {
    pub maximum_complexity: u16,
}

impl Default for HighCyclomaticComplexityConfig {
    /// Testing on open-source Lua shows smaller defaults to be too
    /// aggressive.
    fn default() -> (r: Self)
        ensures
            r.maximum_complexity == 40,
    {
        Self { maximum_complexity: 40 }
    }
}

/// The message of one finding.
pub open spec fn sp_complexity_msg(complexity: u64, maximum: u16) -> Seq<char> {
    "cyclomatic complexity is too high ("@ + spec_decimal(complexity as nat) + " > "@
        + spec_decimal(maximum as nat) + ")"@
}

/// One finding: anchored from the start of the definition to the end of its
/// parameter list.
pub open spec fn sp_complexity_diag(start: u32, params_end: u32, complexity: u64, maximum: u16)
    -> SpecDiagnostic {
    SpecDiagnostic {
        code: "limit_function_complexity"@,
        message: sp_complexity_msg(complexity, maximum),
        notes: Seq::empty(),
        primary_label: SpecLabel { message: None, range: (start, params_end) },
        secondary_labels: Seq::empty(),
    }
}

/// The findings over a row of function definitions: each one's block is
/// measured starting from one.
pub open spec fn sp_complexity_diags(fns: Seq<(u32, FunctionBody)>, maximum: u16) -> Seq<
    SpecDiagnostic,
>
    decreases fns.len(),
{
    if fns.len() == 0 {
        Seq::empty()
    } else {
        let complexity = sp_block_complexity(fns[0].1.block, 1);
        let here: Seq<SpecDiagnostic> = if complexity > maximum {
            seq![
                sp_complexity_diag(fns[0].0, fns[0].1.params_span.1, complexity, maximum),
            ]
        } else {
            Seq::empty()
        };
        here + sp_complexity_diags(fns.skip(1), maximum)
    }
}

/// The rule that flags over-complex function definitions.
pub struct HighCyclomaticComplexityLint {
    pub config: HighCyclomaticComplexityConfig,
}

impl HighCyclomaticComplexityLint {
    /// This rule always constructs.
    pub fn new(config: HighCyclomaticComplexityConfig) -> (r: Result<
        HighCyclomaticComplexityLint,
        RuleError,
    >)
        ensures
            r is Ok,
            r matches Ok(lint) ==> lint.config == config,
    {
        Ok(HighCyclomaticComplexityLint { config })
    }

    /// Measures every function definition of the tree, in preorder.
    pub fn pass(&self, ast: &Ast, context: &Context) -> (r: Vec<Diagnostic>)
        ensures
            r.deep_view() == sp_complexity_diags(
                gathered_of(*ast).functions,
                self.config.maximum_complexity,
            ),
    {
        let sinks = gather_ast(ast);
        let ghost fns = gathered_of(*ast).functions;
        let maximum = self.config.maximum_complexity;
        let mut out: Vec<Diagnostic> = Vec::new();
        let mut i: usize = 0;
        assert(fns.skip(0) =~= fns);
        while i < sinks.functions.len()
            invariant
                i <= sinks.functions@.len(),
                sinks@ == gathered_of(*ast),
                maximum == self.config.maximum_complexity,
                sp_complexity_diags(fns, maximum) == out.deep_view() + sp_complexity_diags(
                    fns.skip(i as int),
                    maximum,
                ),
            decreases sinks.functions@.len() - i,
        {
            assert(fns.skip(i as int)[0] == fns[i as int]);
            assert(fns.skip(i as int).skip(1) =~= fns.skip(i + 1));
            assert(fns[i as int] == (sinks.functions@[i as int].0, *sinks.functions@[i as int].1));
            let start = sinks.functions[i].0;
            let body = sinks.functions[i].1;
            let complexity = count_block_complexity(&body.block, 1);
            if complexity > maximum as u64 {
                let message = "cyclomatic complexity is too high (".to_owned().concat(
                    decimal_string(complexity).as_str(),
                ).concat(" > ").concat(decimal_string(maximum as u64).as_str()).concat(")");
                let d = Diagnostic::new(
                    "limit_function_complexity",
                    message,
                    Label::new((start, body.params_span.1)),
                );
                let ghost prev = out.deep_view();
                proof {
                    assert(d@ =~= sp_complexity_diag(
                        fns[i as int].0,
                        fns[i as int].1.params_span.1,
                        complexity,
                        maximum,
                    ));
                }
                out.push(d);
                proof {
                    assert(out.deep_view() =~= prev.push(d@));
                    assert(prev + (seq![d@] + sp_complexity_diags(fns.skip(i + 1), maximum)) =~= out.deep_view()
                        + sp_complexity_diags(fns.skip(i + 1), maximum));
                }
            }
            i += 1;
        }
        proof {
            assert(fns.skip(i as int) =~= Seq::<(u32, FunctionBody)>::empty());
            assert(out.deep_view() + Seq::<SpecDiagnostic>::empty() =~= out.deep_view());
        }
        out
    }

    /// By default this rule is off: its compiled-in severity is `Allow`.
    pub fn severity(&self) -> (r: Severity)
        ensures
            r == Severity::Allow,
    {
        Severity::Allow
    }

    /// This rule reports style problems.
    pub fn rule_type(&self) -> (r: RuleType)
        ensures
            r == RuleType::Style,
    {
        RuleType::Style
    }
}

/// Every finding's range is ordered, provided every gathered function
/// definition starts no later than its parameter list ends.
pub proof fn lemma_complexity_label_ranges(fns: Seq<(u32, FunctionBody)>, maximum: u16)
    requires
        forall|i: int| 0 <= i < fns.len() ==> (#[trigger] fns[i]).0 <= fns[i].1.params_span.1,
    ensures
        forall|j: int|
            0 <= j < sp_complexity_diags(fns, maximum).len() ==> (#[trigger] sp_complexity_diags(
                fns,
                maximum,
            )[j]).primary_label.range.0 <= sp_complexity_diags(
                fns,
                maximum,
            )[j].primary_label.range.1,
    decreases fns.len(),
{
    if fns.len() > 0 {
        assert forall|i: int| 0 <= i < fns.skip(1).len() implies (#[trigger] fns.skip(
            1,
        )[i]).0 <= fns.skip(1)[i].1.params_span.1 by {
            assert(fns.skip(1)[i] == fns[i + 1]);
        }
        lemma_complexity_label_ranges(fns.skip(1), maximum);
    }
}

} // verus!
