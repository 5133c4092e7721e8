//! One walk over a tree, gathering the nodes the rules look at: every call,
//! every expression, every loop or branch condition, and every function
//! definition. Nodes are gathered in preorder, parents before children.

use vstd::prelude::*;
use crate::ast::{
    Ast, BinOp, Block, Call, ElseIf, Expression, ExpressionKind, FunctionArgs, FunctionBody,
    FunctionCall, IfBlock, Index, LastStmt, Prefix, Stmt, Suffix, TableConstructor, TableField,
    Token, UnOp, Var, VarExpression,
};

verus! {

/// What one walk over a tree gathers.
#[verifier::ext_equal]
pub ghost struct Gathered {
    /// Every call node, in preorder.
    pub calls: Seq<FunctionCall>,
    /// Every expression node, in preorder.
    pub expressions: Seq<Expression>,
    /// Every `if`/`elseif`/`while`/`repeat` condition, in visit order.
    pub conditions: Seq<Expression>,
    /// Every function definition: the byte the definition starts at, and its
    /// parameters and body.
    pub functions: Seq<(u32, FunctionBody)>,
}

impl Gathered {
    /// Nothing gathered yet.
    pub open spec fn empty() -> Gathered {
        Gathered {
            calls: Seq::empty(),
            expressions: Seq::empty(),
            conditions: Seq::empty(),
            functions: Seq::empty(),
        }
    }
}

/// The gathered contents of a whole tree.
pub open spec fn gathered_of(ast: Ast) -> Gathered {
    gi_block(Gathered::empty(), ast.nodes)
}

pub open spec fn gi_block(acc: Gathered, b: Block) -> Gathered
    decreases b, 2int,
{
    let acc = gi_stmts(acc, b.stmts@);
    match b.last_stmt {
        Some(LastStmt::Return { expressions }) => gi_exprs(acc, expressions@),
        _ => acc,
    }
}

pub open spec fn gi_stmts(acc: Gathered, ss: Seq<Stmt>) -> Gathered
    decreases ss, 1int,
{
    if ss.len() == 0 {
        acc
    } else {
        gi_stmts(gi_stmt(acc, ss[0]), ss.skip(1))
    }
}

pub open spec fn gi_elseifs(acc: Gathered, es: Seq<ElseIf>) -> Gathered
    decreases es, 1int,
{
    if es.len() == 0 {
        acc
    } else {
        let acc = gi_expr(acc, es[0].condition);
        let acc = gi_block(acc, es[0].block);
        gi_elseifs(acc, es.skip(1))
    }
}

pub open spec fn gi_stmt(acc: Gathered, s: Stmt) -> Gathered
    decreases s, 2int,
{
    match s {
        Stmt::Assignment { vars, expressions } => gi_exprs(
            gi_vars(acc, vars@),
            expressions@,
        ),
        Stmt::Do { block } => gi_block(acc, block),
        Stmt::FunctionCall { call } => gi_call(acc, call),
        Stmt::FunctionDeclaration { function_span, names, body } => {
            let acc = Gathered {
                functions: acc.functions.push((function_span.0, body)),
                ..acc
            };
            gi_block(acc, body.block)
        },
        Stmt::GenericFor { names, expressions, block } => gi_block(
            gi_exprs(acc, expressions@),
            block,
        ),
        Stmt::If { if_block } => {
            let acc = Gathered {
                conditions: acc.conditions.push(if_block.condition) + elseif_conditions(
                    if_block.else_ifs@,
                ),
                ..acc
            };
            let acc = gi_expr(acc, if_block.condition);
            let acc = gi_block(acc, if_block.block);
            let acc = gi_elseifs(acc, if_block.else_ifs@);
            match if_block.else_block {
                Some(else_block) => gi_block(acc, else_block),
                None => acc,
            }
        },
        Stmt::LocalAssignment { names, expressions } => gi_exprs(acc, expressions@),
        Stmt::LocalFunction { function_span, name, body } => {
            let acc = Gathered {
                functions: acc.functions.push((function_span.0, body)),
                ..acc
            };
            gi_block(acc, body.block)
        },
        Stmt::NumericFor { name, start, end, step, block } => {
            let acc = gi_expr(acc, start);
            let acc = gi_expr(acc, end);
            let acc = match step {
                Some(step) => gi_expr(acc, step),
                None => acc,
            };
            gi_block(acc, block)
        },
        Stmt::Repeat { block, until } => {
            let acc = Gathered { conditions: acc.conditions.push(until), ..acc };
            let acc = gi_block(acc, block);
            gi_expr(acc, until)
        },
        Stmt::While { condition, block } => {
            let acc = Gathered { conditions: acc.conditions.push(condition), ..acc };
            let acc = gi_expr(acc, condition);
            gi_block(acc, block)
        },
    }
}

/// The conditions of a row of `elseif` arms, in order.
pub open spec fn elseif_conditions(es: Seq<ElseIf>) -> Seq<Expression>
    decreases es,
{
    if es.len() == 0 {
        Seq::empty()
    } else {
        seq![es[0].condition] + elseif_conditions(es.skip(1))
    }
}

pub open spec fn gi_exprs(acc: Gathered, es: Seq<Expression>) -> Gathered
    decreases es, 1int,
{
    if es.len() == 0 {
        acc
    } else {
        gi_exprs(gi_expr(acc, es[0]), es.skip(1))
    }
}

pub open spec fn gi_expr(acc: Gathered, e: Expression) -> Gathered
    decreases e, 2int,
{
    let acc = Gathered { expressions: acc.expressions.push(e), ..acc };
    match e.kind {
        ExpressionKind::BinaryOperator { lhs, binop, rhs } => gi_expr(gi_expr(acc, *lhs), *rhs),
        ExpressionKind::Parentheses { expression } => gi_expr(acc, *expression),
        ExpressionKind::UnaryOperator { unop, expression } => gi_expr(acc, *expression),
        ExpressionKind::Function { body } => {
            let acc = Gathered { functions: acc.functions.push((e.span.0, body)), ..acc };
            gi_block(acc, body.block)
        },
        ExpressionKind::FunctionCall { call } => gi_call(acc, call),
        ExpressionKind::TableConstructor { table } => gi_table(acc, table),
        ExpressionKind::Number { token } => acc,
        ExpressionKind::String { token } => acc,
        ExpressionKind::Symbol { token } => acc,
        ExpressionKind::Var { var } => gi_var(acc, var),
    }
}

pub open spec fn gi_vars(acc: Gathered, vs: Seq<Var>) -> Gathered
    decreases vs, 1int,
{
    if vs.len() == 0 {
        acc
    } else {
        gi_vars(gi_var(acc, vs[0]), vs.skip(1))
    }
}

pub open spec fn gi_var(acc: Gathered, v: Var) -> Gathered
    decreases v, 2int,
{
    match v {
        Var::Name { token } => acc,
        Var::Expression { var_expr } => gi_suffixes(
            gi_prefix(acc, var_expr.prefix),
            var_expr.suffixes@,
        ),
    }
}

pub open spec fn gi_prefix(acc: Gathered, p: Prefix) -> Gathered
    decreases p, 2int,
{
    match p {
        Prefix::Name { token } => acc,
        Prefix::Expression { expression } => gi_expr(acc, *expression),
    }
}

pub open spec fn gi_suffixes(acc: Gathered, ss: Seq<Suffix>) -> Gathered
    decreases ss, 1int,
{
    if ss.len() == 0 {
        acc
    } else {
        gi_suffixes(gi_suffix(acc, ss[0]), ss.skip(1))
    }
}

pub open spec fn gi_suffix(acc: Gathered, s: Suffix) -> Gathered
    decreases s, 2int,
{
    match s {
        Suffix::Index { index } => match index {
            Index::Dot { name } => acc,
            Index::Brackets { expression } => gi_expr(acc, expression),
        },
        Suffix::Call { call } => match call {
            Call::Anonymous { args } => gi_args(acc, args),
            Call::Method { name, args } => gi_args(acc, args),
        },
    }
}

pub open spec fn gi_args(acc: Gathered, a: FunctionArgs) -> Gathered
    decreases a, 2int,
{
    match a {
        FunctionArgs::Parentheses { arguments } => gi_exprs(acc, arguments@),
        FunctionArgs::StringArg { token } => acc,
        FunctionArgs::TableArg { table } => gi_table(acc, table),
    }
}

pub open spec fn gi_call(acc: Gathered, c: FunctionCall) -> Gathered
    decreases c, 2int,
{
    let acc = Gathered { calls: acc.calls.push(c), ..acc };
    gi_suffixes(gi_prefix(acc, c.prefix), c.suffixes@)
}

pub open spec fn gi_table(acc: Gathered, t: TableConstructor) -> Gathered
    decreases t, 2int,
{
    gi_fields(acc, t.fields@)
}

pub open spec fn gi_fields(acc: Gathered, fs: Seq<TableField>) -> Gathered
    decreases fs, 1int,
{
    if fs.len() == 0 {
        acc
    } else {
        let acc = match fs[0] {
            TableField::ExpressionKey { key, value } => gi_expr(gi_expr(acc, key), value),
            TableField::NameKey { key, value } => gi_expr(acc, value),
            TableField::NoKey { value } => gi_expr(acc, value),
        };
        gi_fields(acc, fs.skip(1))
    }
}

/// What a walk writes into: one vector per gathered kind, borrowing from the
/// tree being walked.
pub struct Sinks<'a> {
    pub calls: Vec<&'a FunctionCall>,
    pub expressions: Vec<&'a Expression>,
    pub conditions: Vec<&'a Expression>,
    pub functions: Vec<(u32, &'a FunctionBody)>,
}

impl<'a> View for Sinks<'a> {
    type V = Gathered;

    open spec fn view(&self) -> Gathered {
        Gathered {
            calls: self.calls@.map_values(|c: &FunctionCall| *c),
            expressions: self.expressions@.map_values(|e: &Expression| *e),
            conditions: self.conditions@.map_values(|e: &Expression| *e),
            functions: self.functions@.map_values(|f: (u32, &FunctionBody)| (f.0, *f.1)),
        }
    }
}

impl<'a> Sinks<'a> {
    /// Empty sinks to start a walk with.
    pub fn new() -> (r: Sinks<'a>)
        ensures
            r@ == Gathered::empty(),
    {
        let r = Sinks {
            calls: Vec::new(),
            expressions: Vec::new(),
            conditions: Vec::new(),
            functions: Vec::new(),
        };
        proof {
            assert(r@ =~= Gathered::empty());
        }
        r
    }
}

/// Walks a whole tree, gathering every call, expression, condition and
/// function definition in visit order.
pub fn gather_ast<'a>(ast: &'a Ast) -> (r: Sinks<'a>)
    ensures
        r@ == gathered_of(*ast),
{
    let mut sinks = Sinks::new();
    walk_block(&ast.nodes, &mut sinks);
    sinks
}

fn walk_block<'a>(b: &'a Block, sinks: &mut Sinks<'a>)
    ensures
        final(sinks)@ == gi_block(old(sinks)@, *b),
    decreases *b, 2int,
{
    let mut i: usize = 0;
    assert(b.stmts@.skip(0) =~= b.stmts@);
    while i < b.stmts.len()
        invariant
            i <= b.stmts@.len(),
            gi_block(old(sinks)@, *b) == gi_block_tail(
                gi_stmts(sinks@, b.stmts@.skip(i as int)),
                *b,
            ),
        decreases b.stmts@.len() - i, 2int,
    {
        assert(b.stmts@.skip(i as int)[0] == b.stmts@[i as int]);
        assert(b.stmts@.skip(i as int).skip(1) =~= b.stmts@.skip(i + 1));
        walk_stmt(&b.stmts[i], sinks);
        i += 1;
    }
    assert(b.stmts@.skip(i as int) =~= Seq::<Stmt>::empty());
    match &b.last_stmt {
        Some(LastStmt::Return { expressions }) => {
            walk_exprs(expressions, sinks);
        },
        _ => {},
    }
}

/// What remains of `gi_block` once the statements are folded in.
pub open spec fn gi_block_tail(acc: Gathered, b: Block) -> Gathered {
    match b.last_stmt {
        Some(LastStmt::Return { expressions }) => gi_exprs(acc, expressions@),
        _ => acc,
    }
}

fn walk_exprs<'a>(es: &'a Vec<Expression>, sinks: &mut Sinks<'a>)
    ensures
        final(sinks)@ == gi_exprs(old(sinks)@, es@),
    decreases es@, 1int,
{
    let mut i: usize = 0;
    assert(es@.skip(0) =~= es@);
    while i < es.len()
        invariant
            i <= es@.len(),
            gi_exprs(old(sinks)@, es@) == gi_exprs(sinks@, es@.skip(i as int)),
        decreases es@.len() - i, 1int,
    {
        assert(es@.skip(i as int)[0] == es@[i as int]);
        assert(es@.skip(i as int).skip(1) =~= es@.skip(i + 1));
        walk_expr(&es[i], sinks);
        i += 1;
    }
    assert(es@.skip(i as int) =~= Seq::<Expression>::empty());
}

fn walk_stmt<'a>(s: &'a Stmt, sinks: &mut Sinks<'a>)
    ensures
        final(sinks)@ == gi_stmt(old(sinks)@, *s),
    decreases *s, 2int,
{
    match s {
        Stmt::Assignment { vars, expressions } => {
            let mut i: usize = 0;
            assert(vars@.skip(0) =~= vars@);
            while i < vars.len()
                invariant
                    i <= vars@.len(),
                    gi_vars(old(sinks)@, vars@) == gi_vars(sinks@, vars@.skip(i as int)),
                decreases vars@.len() - i,
            {
                assert(vars@.skip(i as int)[0] == vars@[i as int]);
                assert(vars@.skip(i as int).skip(1) =~= vars@.skip(i + 1));
                proof {
                    assert(decreases_to!(*s => *vars));
                    assert(decreases_to!(*vars => vars@));
                    assert(decreases_to!(vars@ => vars@[i as int]));
                }
                walk_var(&vars[i], sinks);
                i += 1;
            }
            assert(vars@.skip(i as int) =~= Seq::<Var>::empty());
            walk_exprs(expressions, sinks);
        },
        Stmt::Do { block } => {
            walk_block(block, sinks);
        },
        Stmt::FunctionCall { call } => {
            walk_call(call, sinks);
        },
        Stmt::FunctionDeclaration { function_span, names, body } => {
            sinks.functions.push((function_span.0, body));
            proof {
                assert(sinks@ =~= (Gathered {
                    functions: old(sinks)@.functions.push((function_span.0, *body)),
                    ..old(sinks)@
                }));
            }
            walk_block(&body.block, sinks);
        },
        Stmt::GenericFor { names, expressions, block } => {
            walk_exprs(expressions, sinks);
            walk_block(block, sinks);
        },
        Stmt::If { if_block } => {
            sinks.conditions.push(&if_block.condition);
            let ghost mid = sinks@;
            let mut i: usize = 0;
            assert(if_block.else_ifs@.skip(0) =~= if_block.else_ifs@);
            assert(mid.conditions =~= old(sinks)@.conditions.push(if_block.condition));
            assert(mid =~= (Gathered {
                conditions: old(sinks)@.conditions.push(if_block.condition),
                ..old(sinks)@
            }));
            while i < if_block.else_ifs.len()
                invariant
                    i <= if_block.else_ifs@.len(),
                    sinks@ == (Gathered {
                        conditions: mid.conditions + elseif_conditions(
                            if_block.else_ifs@.take(i as int),
                        ),
                        ..mid
                    }),
                decreases if_block.else_ifs@.len() - i,
            {
                let ghost before = sinks@;
                sinks.conditions.push(&if_block.else_ifs[i].condition);
                proof {
                    lemma_elseif_conditions_snoc(if_block.else_ifs@, i as int);
                    assert(sinks@.conditions =~= before.conditions.push(
                        if_block.else_ifs@[i as int].condition,
                    ));
                    assert(mid.conditions + elseif_conditions(if_block.else_ifs@.take(i + 1))
                        =~= (mid.conditions + elseif_conditions(
                        if_block.else_ifs@.take(i as int),
                    )).push(if_block.else_ifs@[i as int].condition));
                    assert(sinks@ =~= (Gathered {
                        conditions: mid.conditions + elseif_conditions(
                            if_block.else_ifs@.take(i + 1),
                        ),
                        ..mid
                    }));
                }
                i += 1;
            }
            proof {
                assert(if_block.else_ifs@.take(i as int) =~= if_block.else_ifs@);
                assert(sinks@ =~= (Gathered {
                    conditions: old(sinks)@.conditions.push(if_block.condition)
                        + elseif_conditions(if_block.else_ifs@),
                    ..old(sinks)@
                }));
            }
            walk_expr(&if_block.condition, sinks);
            walk_block(&if_block.block, sinks);
            let ghost before_arms = sinks@;
            let mut j: usize = 0;
            assert(if_block.else_ifs@.skip(0) =~= if_block.else_ifs@);
            while j < if_block.else_ifs.len()
                invariant
                    j <= if_block.else_ifs@.len(),
                    gi_elseifs(before_arms, if_block.else_ifs@) == gi_elseifs(
                        sinks@,
                        if_block.else_ifs@.skip(j as int),
                    ),
                decreases if_block.else_ifs@.len() - j,
            {
                assert(if_block.else_ifs@.skip(j as int)[0] == if_block.else_ifs@[j as int]);
                assert(if_block.else_ifs@.skip(j as int).skip(1) =~= if_block.else_ifs@.skip(
                    j + 1,
                ));
                proof {
                    assert(decreases_to!(*s => *if_block));
                    assert(decreases_to!(*if_block => if_block.else_ifs@));
                    assert(decreases_to!(if_block.else_ifs@ => if_block.else_ifs@[j as int]));
                    assert(decreases_to!(if_block.else_ifs@[j as int] => if_block.else_ifs@[j as int].condition));
                    assert(decreases_to!(if_block.else_ifs@[j as int] => if_block.else_ifs@[j as int].block));
                }
                walk_expr(&if_block.else_ifs[j].condition, sinks);
                walk_block(&if_block.else_ifs[j].block, sinks);
                j += 1;
            }
            assert(if_block.else_ifs@.skip(j as int) =~= Seq::<ElseIf>::empty());
            match &if_block.else_block {
                Some(else_block) => {
                    walk_block(else_block, sinks);
                },
                None => {},
            }
        },
        Stmt::LocalAssignment { names, expressions } => {
            walk_exprs(expressions, sinks);
        },
        Stmt::LocalFunction { function_span, name, body } => {
            sinks.functions.push((function_span.0, body));
            proof {
                assert(sinks@ =~= (Gathered {
                    functions: old(sinks)@.functions.push((function_span.0, *body)),
                    ..old(sinks)@
                }));
            }
            walk_block(&body.block, sinks);
        },
        Stmt::NumericFor { name, start, end, step, block } => {
            walk_expr(start, sinks);
            walk_expr(end, sinks);
            match step {
                Some(step) => {
                    walk_expr(step, sinks);
                },
                None => {},
            }
            walk_block(block, sinks);
        },
        Stmt::Repeat { block, until } => {
            sinks.conditions.push(until);
            proof {
                assert(sinks@ =~= (Gathered {
                    conditions: old(sinks)@.conditions.push(*until),
                    ..old(sinks)@
                }));
            }
            walk_block(block, sinks);
            walk_expr(until, sinks);
        },
        Stmt::While { condition, block } => {
            sinks.conditions.push(condition);
            proof {
                assert(sinks@ =~= (Gathered {
                    conditions: old(sinks)@.conditions.push(*condition),
                    ..old(sinks)@
                }));
            }
            walk_expr(condition, sinks);
            walk_block(block, sinks);
        },
    }
}

/// `elseif` conditions of a prefix, extended by the next one.
proof fn lemma_elseif_conditions_snoc(es: Seq<ElseIf>, i: int)
    requires
        0 <= i < es.len(),
    ensures
        elseif_conditions(es.take(i + 1)) =~= elseif_conditions(es.take(i)).push(
            es[i].condition,
        ),
    decreases i,
{
    if i == 0 {
        assert(es.take(1) =~= seq![es[0]]);
        assert(elseif_conditions(seq![es[0]].skip(1)) =~= Seq::<Expression>::empty()) by {
            assert(seq![es[0]].skip(1) =~= Seq::<ElseIf>::empty());
        }
    } else {
        lemma_elseif_conditions_snoc(es.skip(1), i - 1);
        assert(es.take(i + 1)[0] == es[0]);
        assert(es.take(i + 1).skip(1) =~= es.skip(1).take(i));
        assert(es.take(i)[0] == es[0]);
        assert(es.take(i).skip(1) =~= es.skip(1).take(i - 1));
        assert(es.skip(1)[i - 1] == es[i]);
        assert(elseif_conditions(es.take(i + 1)) =~= elseif_conditions(es.take(i)).push(
            es[i].condition,
        ));
    }
}

fn walk_expr<'a>(e: &'a Expression, sinks: &mut Sinks<'a>)
    ensures
        final(sinks)@ == gi_expr(old(sinks)@, *e),
    decreases *e, 2int,
{
    sinks.expressions.push(e);
    proof {
        assert(sinks@ =~= (Gathered {
            expressions: old(sinks)@.expressions.push(*e),
            ..old(sinks)@
        }));
    }
    match &e.kind {
        ExpressionKind::BinaryOperator { lhs, binop, rhs } => {
            walk_expr(lhs, sinks);
            walk_expr(rhs, sinks);
        },
        ExpressionKind::Parentheses { expression } => {
            walk_expr(expression, sinks);
        },
        ExpressionKind::UnaryOperator { unop, expression } => {
            walk_expr(expression, sinks);
        },
        ExpressionKind::Function { body } => {
            let ghost mid = sinks@;
            sinks.functions.push((e.span.0, body));
            proof {
                assert(sinks@ =~= (Gathered {
                    functions: mid.functions.push((e.span.0, *body)),
                    ..mid
                }));
            }
            walk_block(&body.block, sinks);
        },
        ExpressionKind::FunctionCall { call } => {
            walk_call(call, sinks);
        },
        ExpressionKind::TableConstructor { table } => {
            walk_table(table, sinks);
        },
        ExpressionKind::Number { token } => {},
        ExpressionKind::String { token } => {},
        ExpressionKind::Symbol { token } => {},
        ExpressionKind::Var { var } => {
            walk_var(var, sinks);
        },
    }
}

fn walk_var<'a>(v: &'a Var, sinks: &mut Sinks<'a>)
    ensures
        final(sinks)@ == gi_var(old(sinks)@, *v),
    decreases *v, 2int,
{
    match v {
        Var::Name { token } => {},
        Var::Expression { var_expr } => {
            walk_prefix(&var_expr.prefix, sinks);
            walk_suffixes(&var_expr.suffixes, sinks);
        },
    }
}

fn walk_prefix<'a>(p: &'a Prefix, sinks: &mut Sinks<'a>)
    ensures
        final(sinks)@ == gi_prefix(old(sinks)@, *p),
    decreases *p, 2int,
{
    match p {
        Prefix::Name { token } => {},
        Prefix::Expression { expression } => {
            walk_expr(expression, sinks);
        },
    }
}

fn walk_suffixes<'a>(ss: &'a Vec<Suffix>, sinks: &mut Sinks<'a>)
    ensures
        final(sinks)@ == gi_suffixes(old(sinks)@, ss@),
    decreases ss@, 1int,
{
    let mut i: usize = 0;
    assert(ss@.skip(0) =~= ss@);
    while i < ss.len()
        invariant
            i <= ss@.len(),
            gi_suffixes(old(sinks)@, ss@) == gi_suffixes(sinks@, ss@.skip(i as int)),
        decreases ss@.len() - i, 1int,
    {
        assert(ss@.skip(i as int)[0] == ss@[i as int]);
        assert(ss@.skip(i as int).skip(1) =~= ss@.skip(i + 1));
        walk_suffix(&ss[i], sinks);
        i += 1;
    }
    assert(ss@.skip(i as int) =~= Seq::<Suffix>::empty());
}

fn walk_suffix<'a>(s: &'a Suffix, sinks: &mut Sinks<'a>)
    ensures
        final(sinks)@ == gi_suffix(old(sinks)@, *s),
    decreases *s, 2int,
{
    match s {
        Suffix::Index { index } => match index {
            Index::Dot { name } => {},
            Index::Brackets { expression } => {
                walk_expr(expression, sinks);
            },
        },
        Suffix::Call { call } => match call {
            Call::Anonymous { args } => {
                walk_args(args, sinks);
            },
            Call::Method { name, args } => {
                walk_args(args, sinks);
            },
        },
    }
}

fn walk_args<'a>(a: &'a FunctionArgs, sinks: &mut Sinks<'a>)
    ensures
        final(sinks)@ == gi_args(old(sinks)@, *a),
    decreases *a, 2int,
{
    match a {
        FunctionArgs::Parentheses { arguments } => {
            walk_exprs(arguments, sinks);
        },
        FunctionArgs::StringArg { token } => {},
        FunctionArgs::TableArg { table } => {
            walk_table(table, sinks);
        },
    }
}

fn walk_call<'a>(c: &'a FunctionCall, sinks: &mut Sinks<'a>)
    ensures
        final(sinks)@ == gi_call(old(sinks)@, *c),
    decreases *c, 2int,
{
    sinks.calls.push(c);
    proof {
        assert(sinks@ =~= (Gathered { calls: old(sinks)@.calls.push(*c), ..old(sinks)@ }));
    }
    walk_prefix(&c.prefix, sinks);
    walk_suffixes(&c.suffixes, sinks);
}

fn walk_table<'a>(t: &'a TableConstructor, sinks: &mut Sinks<'a>)
    ensures
        final(sinks)@ == gi_table(old(sinks)@, *t),
    decreases *t, 2int,
{
    let mut i: usize = 0;
    assert(t.fields@.skip(0) =~= t.fields@);
    while i < t.fields.len()
        invariant
            i <= t.fields@.len(),
            gi_table(old(sinks)@, *t) == gi_fields(sinks@, t.fields@.skip(i as int)),
        decreases t.fields@.len() - i, 2int,
    {
        assert(t.fields@.skip(i as int)[0] == t.fields@[i as int]);
        assert(t.fields@.skip(i as int).skip(1) =~= t.fields@.skip(i + 1));
        match &t.fields[i] {
            TableField::ExpressionKey { key, value } => {
                walk_expr(key, sinks);
                walk_expr(value, sinks);
            },
            TableField::NameKey { key, value } => {
                walk_expr(value, sinks);
            },
            TableField::NoKey { value } => {
                walk_expr(value, sinks);
            },
        }
        i += 1;
    }
    assert(t.fields@.skip(i as int) =~= Seq::<TableField>::empty());
}

} // verus!
