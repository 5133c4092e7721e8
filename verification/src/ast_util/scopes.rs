//! Scope resolution: one walk over a tree builds the full list of name
//! references, each tagged read or write and linked to the local declaration
//! it resolves to, if any enclosing lexical scope declares it. A reference
//! with no resolution is a free (global) access.

use vstd::prelude::*;
use crate::ast::{Ast, Block, Call, ElseIf, Expression, ExpressionKind, FunctionArgs, FunctionBody,
    FunctionCall, Index, LastStmt, Prefix, Stmt, Suffix, TableConstructor, TableField, Token,
    Var};

verus! {

/// One declaration a scope holds: a name and the span it was declared at.
pub struct Decl {
    pub name: String,
    pub id: (u32, u32),
}

/// The mathematical shape of a declaration.
pub ghost struct SpecDecl {
    pub name: Seq<char>,
    pub id: (u32, u32),
}

impl View for Decl {
    type V = SpecDecl;

    open spec fn view(&self) -> SpecDecl {
        SpecDecl { name: self.name@, id: self.id }
    }
}

impl DeepView for Decl {
    type V = SpecDecl;

    open spec fn deep_view(&self) -> SpecDecl {
        self.view()
    }
}

/// One textual use of a name: its span, the name, whether it writes, and
/// the declaration it resolves to, if any.
#[derive(Debug)]
pub struct Reference {
    pub identifier: (u32, u32),
    pub name: String,
    pub write: bool,
    pub resolved: Option<(u32, u32)>,
}

/// The mathematical shape of a reference.
#[verifier::ext_equal]
pub ghost struct SpecReference {
    pub identifier: (u32, u32),
    pub name: Seq<char>,
    pub write: bool,
    pub resolved: Option<(u32, u32)>,
}

impl View for Reference {
    type V = SpecReference;

    open spec fn view(&self) -> SpecReference {
        SpecReference {
            identifier: self.identifier,
            name: self.name@,
            write: self.write,
            resolved: self.resolved,
        }
    }
}

impl DeepView for Reference {
    type V = SpecReference;

    open spec fn deep_view(&self) -> SpecReference {
        self.view()
    }
}

/// Resolution within one scope: the latest declaration of the name wins.
pub open spec fn sp_resolve_in(scope: Seq<SpecDecl>, name: Seq<char>) -> Option<(u32, u32)>
    decreases scope.len(),
{
    if scope.len() == 0 {
        None
    } else if scope.last().name == name {
        Some(scope.last().id)
    } else {
        sp_resolve_in(scope.drop_last(), name)
    }
}

/// Resolution against a stack of scopes: the innermost declaring scope wins.
pub open spec fn sp_resolve(scopes: Seq<Seq<SpecDecl>>, name: Seq<char>) -> Option<(u32, u32)>
    decreases scopes.len(),
{
    if scopes.len() == 0 {
        None
    } else {
        match sp_resolve_in(scopes.last(), name) {
            Some(id) => Some(id),
            None => sp_resolve(scopes.drop_last(), name),
        }
    }
}

/// The reference one token produces under a scope stack.
pub open spec fn sp_token_ref(scopes: Seq<Seq<SpecDecl>>, t: Token, write: bool) -> SpecReference {
    SpecReference {
        identifier: t.span,
        name: t.text@,
        write,
        resolved: sp_resolve(scopes, t.text@),
    }
}

/// The declarations a parameter list introduces.
pub open spec fn sp_decls_of(params: Seq<Token>) -> Seq<SpecDecl>
    decreases params.len(),
{
    if params.len() == 0 {
        Seq::empty()
    } else {
        seq![SpecDecl { name: params[0].text@, id: params[0].span }] + sp_decls_of(params.skip(1))
    }
}

/// Appends a declaration to the innermost scope.
pub open spec fn sp_declare(scopes: Seq<Seq<SpecDecl>>, name: Seq<char>, id: (u32, u32)) -> Seq<
    Seq<SpecDecl>,
> {
    if scopes.len() == 0 {
        scopes
    } else {
        scopes.update(scopes.len() - 1, scopes.last().push(SpecDecl { name, id }))
    }
}

/// Appends the declarations of a whole name list to the innermost scope.
pub open spec fn sp_declare_all(scopes: Seq<Seq<SpecDecl>>, names: Seq<Token>) -> Seq<
    Seq<SpecDecl>,
>
    decreases names.len(),
{
    if names.len() == 0 {
        scopes
    } else {
        sp_declare_all(sp_declare(scopes, names[0].text@, names[0].span), names.skip(1))
    }
}

/// The references a block emits; declarations its statements make are
/// threaded through but do not outlive the enclosing scope.
pub open spec fn sp_block_refs(scopes: Seq<Seq<SpecDecl>>, b: Block) -> Seq<SpecReference>
    decreases b, 3int,
{
    sp_stmts_refs(scopes, b.stmts@).1 + sp_last_refs(sp_stmts_refs(scopes, b.stmts@).0, b.last_stmt)
}

/// The references of a closing statement.
pub open spec fn sp_last_refs(scopes: Seq<Seq<SpecDecl>>, l: Option<LastStmt>) -> Seq<
    SpecReference,
>
    decreases l, 2int,
{
    match l {
        Some(LastStmt::Return { expressions }) => sp_exprs_refs(scopes, expressions@),
        _ => Seq::empty(),
    }
}

/// Folds a statement list: each statement may extend the innermost scope.
pub open spec fn sp_stmts_refs(scopes: Seq<Seq<SpecDecl>>, ss: Seq<Stmt>) -> (Seq<Seq<SpecDecl>>,
    Seq<SpecReference>)
    decreases ss, 3int,
{
    if ss.len() == 0 {
        (scopes, Seq::empty())
    } else {
        let (sc1, r1) = sp_stmt_refs(scopes, ss[0]);
        let (sc2, r2) = sp_stmts_refs(sc1, ss.skip(1));
        (sc2, r1 + r2)
    }
}

pub open spec fn sp_elseifs_refs(scopes: Seq<Seq<SpecDecl>>, es: Seq<ElseIf>) -> Seq<SpecReference>
    decreases es, 3int,
{
    if es.len() == 0 {
        Seq::empty()
    } else {
        sp_expr_refs(scopes, es[0].condition) + sp_block_refs(
            scopes.push(Seq::empty()),
            es[0].block,
        ) + sp_elseifs_refs(scopes, es.skip(1))
    }
}

/// The references one statement emits, and the scope stack it leaves: only
/// `local` declarations extend the enclosing scope; every block a statement
/// owns opens a scope of its own.
pub open spec fn sp_stmt_refs(scopes: Seq<Seq<SpecDecl>>, s: Stmt) -> (Seq<Seq<SpecDecl>>, Seq<
    SpecReference,
>)
    decreases s, 4int,
{
    match s {
        Stmt::Assignment { vars, expressions } => (
            scopes,
            sp_vars_refs(scopes, vars@) + sp_exprs_refs(scopes, expressions@),
        ),
        Stmt::Do { block } => (scopes, sp_block_refs(scopes.push(Seq::empty()), block)),
        Stmt::FunctionCall { call } => (scopes, sp_call_refs(scopes, call)),
        Stmt::FunctionDeclaration { function_span, names, body } => {
            let head: Seq<SpecReference> = if names@.len() >= 1 {
                seq![sp_token_ref(scopes, names@[0], names@.len() == 1)]
            } else {
                Seq::empty()
            };
            (
                scopes,
                head + sp_block_refs(
                    scopes.push(sp_decls_of(body.parameters@)),
                    body.block,
                ),
            )
        },
        Stmt::GenericFor { names, expressions, block } => (
            scopes,
            sp_exprs_refs(scopes, expressions@) + sp_block_refs(
                scopes.push(sp_decls_of(names@)),
                block,
            ),
        ),
        Stmt::If { if_block } => {
            let r = sp_expr_refs(scopes, if_block.condition) + sp_block_refs(
                scopes.push(Seq::empty()),
                if_block.block,
            ) + sp_elseifs_refs(scopes, if_block.else_ifs@) + (match if_block.else_block {
                Some(else_block) => sp_block_refs(scopes.push(Seq::empty()), else_block),
                None => Seq::empty(),
            });
            (scopes, r)
        },
        Stmt::LocalAssignment { names, expressions } => (
            sp_declare_all(scopes, names@),
            sp_exprs_refs(scopes, expressions@),
        ),
        Stmt::LocalFunction { function_span, name, body } => {
            let declared = sp_declare(scopes, name.text@, name.span);
            (
                declared,
                sp_block_refs(declared.push(sp_decls_of(body.parameters@)), body.block),
            )
        },
        Stmt::NumericFor { name, start, end, step, block } => {
            let r = sp_expr_refs(scopes, start) + sp_expr_refs(scopes, end) + (match step {
                Some(step) => sp_expr_refs(scopes, step),
                None => Seq::empty(),
            }) + sp_block_refs(
                scopes.push(seq![SpecDecl { name: name.text@, id: name.span }]),
                block,
            );
            (scopes, r)
        },
        Stmt::Repeat { block, until } => {
            let (sc1, r1) = sp_stmts_refs(scopes.push(Seq::empty()), block.stmts@);
            let r = r1 + sp_last_refs(sc1, block.last_stmt) + sp_expr_refs(sc1, until);
            (scopes, r)
        },
        Stmt::While { condition, block } => (
            scopes,
            sp_expr_refs(scopes, condition) + sp_block_refs(scopes.push(Seq::empty()), block),
        ),
    }
}

pub open spec fn sp_exprs_refs(scopes: Seq<Seq<SpecDecl>>, es: Seq<Expression>) -> Seq<
    SpecReference,
>
    decreases es, 3int,
{
    if es.len() == 0 {
        Seq::empty()
    } else {
        sp_expr_refs(scopes, es[0]) + sp_exprs_refs(scopes, es.skip(1))
    }
}

/// The references an expression emits. Expressions never extend the
/// enclosing scopes: a function literal's parameters live in its own scope.
pub open spec fn sp_expr_refs(scopes: Seq<Seq<SpecDecl>>, e: Expression) -> Seq<SpecReference>
    decreases e, 3int,
{
    match e.kind {
        ExpressionKind::BinaryOperator { lhs, binop, rhs } => sp_expr_refs(scopes, *lhs)
            + sp_expr_refs(scopes, *rhs),
        ExpressionKind::Parentheses { expression } => sp_expr_refs(scopes, *expression),
        ExpressionKind::UnaryOperator { unop, expression } => sp_expr_refs(scopes, *expression),
        ExpressionKind::Function { body } => sp_block_refs(
            scopes.push(sp_decls_of(body.parameters@)),
            body.block,
        ),
        ExpressionKind::FunctionCall { call } => sp_call_refs(scopes, call),
        ExpressionKind::TableConstructor { table } => sp_fields_refs(scopes, table.fields@),
        ExpressionKind::Number { token } => Seq::empty(),
        ExpressionKind::String { token } => Seq::empty(),
        ExpressionKind::Symbol { token } => Seq::empty(),
        ExpressionKind::Var { var } => sp_var_refs(scopes, var, false),
    }
}

/// The references a variable occurrence emits. A plain name is one
/// reference, read or write as the position dictates; an indexed variable
/// reads its prefix and whatever its suffixes contain.
pub open spec fn sp_var_refs(scopes: Seq<Seq<SpecDecl>>, v: Var, write: bool) -> Seq<SpecReference>
    decreases v, 3int,
{
    match v {
        Var::Name { token } => seq![sp_token_ref(scopes, token, write)],
        Var::Expression { var_expr } => sp_prefix_refs(scopes, var_expr.prefix) + sp_suffixes_refs(
            scopes,
            var_expr.suffixes@,
        ),
    }
}

pub open spec fn sp_vars_refs(scopes: Seq<Seq<SpecDecl>>, vs: Seq<Var>) -> Seq<SpecReference>
    decreases vs, 4int,
{
    if vs.len() == 0 {
        Seq::empty()
    } else {
        sp_var_refs(scopes, vs[0], true) + sp_vars_refs(scopes, vs.skip(1))
    }
}

pub open spec fn sp_prefix_refs(scopes: Seq<Seq<SpecDecl>>, p: Prefix) -> Seq<SpecReference>
    decreases p, 3int,
{
    match p {
        Prefix::Name { token } => seq![sp_token_ref(scopes, token, false)],
        Prefix::Expression { expression } => sp_expr_refs(scopes, *expression),
    }
}

pub open spec fn sp_suffixes_refs(scopes: Seq<Seq<SpecDecl>>, ss: Seq<Suffix>) -> Seq<
    SpecReference,
>
    decreases ss, 3int,
{
    if ss.len() == 0 {
        Seq::empty()
    } else {
        sp_suffix_refs(scopes, ss[0]) + sp_suffixes_refs(scopes, ss.skip(1))
    }
}

pub open spec fn sp_suffix_refs(scopes: Seq<Seq<SpecDecl>>, s: Suffix) -> Seq<SpecReference>
    decreases s, 3int,
{
    match s {
        Suffix::Index { index } => match index {
            Index::Dot { name } => Seq::empty(),
            Index::Brackets { expression } => sp_expr_refs(scopes, expression),
        },
        Suffix::Call { call } => match call {
            Call::Anonymous { args } => sp_args_refs(scopes, args),
            Call::Method { name, args } => sp_args_refs(scopes, args),
        },
    }
}

pub open spec fn sp_args_refs(scopes: Seq<Seq<SpecDecl>>, a: FunctionArgs) -> Seq<SpecReference>
    decreases a, 3int,
{
    match a {
        FunctionArgs::Parentheses { arguments } => sp_exprs_refs(scopes, arguments@),
        FunctionArgs::StringArg { token } => Seq::empty(),
        FunctionArgs::TableArg { table } => sp_fields_refs(scopes, table.fields@),
    }
}

pub open spec fn sp_call_refs(scopes: Seq<Seq<SpecDecl>>, c: FunctionCall) -> Seq<SpecReference>
    decreases c, 3int,
{
    sp_prefix_refs(scopes, c.prefix) + sp_suffixes_refs(scopes, c.suffixes@)
}

pub open spec fn sp_fields_refs(scopes: Seq<Seq<SpecDecl>>, fs: Seq<TableField>) -> Seq<
    SpecReference,
>
    decreases fs, 3int,
{
    if fs.len() == 0 {
        Seq::empty()
    } else {
        (match fs[0] {
            TableField::ExpressionKey { key, value } => sp_expr_refs(scopes, key) + sp_expr_refs(
                scopes,
                value,
            ),
            TableField::NameKey { key, value } => sp_expr_refs(scopes, value),
            TableField::NoKey { value } => sp_expr_refs(scopes, value),
        }) + sp_fields_refs(scopes, fs.skip(1))
    }
}

/// The full reference list of a tree, walked from a single root scope.
pub open spec fn sp_ast_refs(ast: Ast) -> Seq<SpecReference> {
    sp_block_refs(seq![Seq::<SpecDecl>::empty()], ast.nodes)
}

/// Repeated declarations keep the stack's depth and touch only its top.
proof fn lemma_declare_all_frame(scopes: Seq<Seq<SpecDecl>>, names: Seq<Token>)
    ensures
        sp_declare_all(scopes, names).len() == scopes.len(),
        forall|i: int|
            0 <= i < scopes.len() - 1 ==> sp_declare_all(scopes, names)[i] == scopes[i],
    decreases names.len(),
{
    if names.len() > 0 {
        let declared = sp_declare(scopes, names[0].text@, names[0].span);
        assert(declared.len() == scopes.len());
        assert(forall|i: int| 0 <= i < scopes.len() - 1 ==> declared[i] == scopes[i]);
        lemma_declare_all_frame(declared, names.skip(1));
    }
}

/// A statement keeps the stack's depth and touches only its top scope.
proof fn lemma_stmt_scope_frame(scopes: Seq<Seq<SpecDecl>>, s: Stmt)
    ensures
        sp_stmt_refs(scopes, s).0.len() == scopes.len(),
        forall|i: int| 0 <= i < scopes.len() - 1 ==> sp_stmt_refs(scopes, s).0[i] == scopes[i],
{
    match s {
        Stmt::LocalAssignment { names, expressions } => {
            lemma_declare_all_frame(scopes, names@);
        },
        _ => {},
    }
}

/// A statement list keeps the stack's depth and touches only its top scope.
proof fn lemma_stmts_scope_frame(scopes: Seq<Seq<SpecDecl>>, ss: Seq<Stmt>)
    ensures
        sp_stmts_refs(scopes, ss).0.len() == scopes.len(),
        forall|i: int| 0 <= i < scopes.len() - 1 ==> sp_stmts_refs(scopes, ss).0[i] == scopes[i],
    decreases ss.len(),
{
    if ss.len() > 0 {
        lemma_stmt_scope_frame(scopes, ss[0]);
        lemma_stmts_scope_frame(sp_stmt_refs(scopes, ss[0]).0, ss.skip(1));
    }
}

/// Resolves a name against the scope stack, innermost declaration first.
fn resolve_name(scopes: &Vec<Vec<Decl>>, name: &String) -> (r: Option<(u32, u32)>)
    ensures
        r == sp_resolve(scopes.deep_view(), name@),
{
    let ghost deep = scopes.deep_view();
    let mut i: usize = scopes.len();
    assert(deep.take(i as int) =~= deep);
    while i > 0
        invariant
            i <= scopes@.len(),
            deep == scopes.deep_view(),
            sp_resolve(deep, name@) == sp_resolve(deep.take(i as int), name@),
        decreases i,
    {
        let scope = &scopes[i - 1];
        let ghost sdeep = scope.deep_view();
        assert(deep[i - 1] == sdeep);
        let mut j: usize = scope.len();
        assert(sdeep.take(j as int) =~= sdeep);
        while j > 0
            invariant
                j <= scope@.len(),
                sdeep == scope.deep_view(),
                sp_resolve_in(sdeep, name@) == sp_resolve_in(sdeep.take(j as int), name@),
            decreases j,
        {
            assert(sdeep.take(j as int).last() == sdeep[j - 1]);
            assert(sdeep.take(j as int).drop_last() =~= sdeep.take(j - 1));
            assert(sdeep[j - 1] == scope@[j - 1]@);
            if scope[j - 1].name == *name {
                proof {
                    assert(sp_resolve_in(sdeep, name@) == Some(sdeep[j - 1].id));
                    assert(deep.take(i as int).last() == sdeep);
                    assert(sp_resolve(deep.take(i as int), name@) == Some(sdeep[j - 1].id));
                }
                return Some(scope[j - 1].id);
            }
            j -= 1;
        }
        proof {
            assert(sdeep.take(0) =~= Seq::<SpecDecl>::empty());
            assert(sp_resolve_in(sdeep, name@) is None);
            assert(deep.take(i as int).last() == sdeep);
            assert(deep.take(i as int).drop_last() =~= deep.take(i - 1));
        }
        i -= 1;
    }
    assert(deep.take(0) =~= Seq::<Seq<SpecDecl>>::empty());
    None
}

/// Builds and records the reference one token produces here.
fn push_token_ref(
    scopes: &Vec<Vec<Decl>>,
    refs: &mut Vec<Reference>,
    token: &Token,
    write: bool,
)
    ensures
        final(refs).deep_view() == old(refs).deep_view() + seq![
            sp_token_ref(scopes.deep_view(), *token, write),
        ],
{
    let resolved = resolve_name(scopes, &token.text);
    let r = Reference { identifier: token.span, name: token.text.clone(), write, resolved };
    refs.push(r);
    proof {
        assert(refs.deep_view() =~= old(refs).deep_view() + seq![
            sp_token_ref(scopes.deep_view(), *token, write),
        ]);
    }
}

/// Opens a scope holding the given declarations.
fn open_scope_with(scopes: &mut Vec<Vec<Decl>>, top: Vec<Decl>)
    ensures
        final(scopes).deep_view() == old(scopes).deep_view().push(top.deep_view()),
{
    let ghost td = top.deep_view();
    scopes.push(top);
    proof {
        assert(scopes.deep_view() =~= old(scopes).deep_view().push(td));
    }
}

/// Closes the innermost scope.
fn close_scope(scopes: &mut Vec<Vec<Decl>>)
    requires
        old(scopes)@.len() > 0,
    ensures
        final(scopes).deep_view() == old(scopes).deep_view().drop_last(),
{
    scopes.pop();
    proof {
        assert(scopes.deep_view() =~= old(scopes).deep_view().drop_last());
    }
}

/// Appends a declaration to the innermost scope.
fn declare(scopes: &mut Vec<Vec<Decl>>, token: &Token)
    ensures
        final(scopes).deep_view() == sp_declare(
            old(scopes).deep_view(),
            token.text@,
            token.span,
        ),
{
    match scopes.pop() {
        Some(mut top) => {
            top.push(Decl { name: token.text.clone(), id: token.span });
            scopes.push(top);
            proof {
                assert(scopes.deep_view() =~~= sp_declare(
                    old(scopes).deep_view(),
                    token.text@,
                    token.span,
                ));
            }
        },
        None => {
            proof {
                assert(scopes.deep_view() =~= old(scopes).deep_view());
            }
        },
    }
}

/// Opens an empty scope.
fn open_empty_scope(scopes: &mut Vec<Vec<Decl>>)
    ensures
        final(scopes).deep_view() == old(scopes).deep_view().push(Seq::<SpecDecl>::empty()),
{
    open_scope_with(scopes, Vec::new());
    proof {
        assert(scopes.deep_view() =~~= old(scopes).deep_view().push(Seq::<SpecDecl>::empty()));
    }
}

/// Walking a block inside a freshly opened scope and closing it again
/// restores the stack.
proof fn lemma_reopen_close(d0: Seq<Seq<SpecDecl>>, top: Seq<SpecDecl>, ss: Seq<Stmt>)
    ensures
        sp_stmts_refs(d0.push(top), ss).0.drop_last() == d0,
        sp_stmts_refs(d0.push(top), ss).0.len() == d0.len() + 1,
{
    lemma_stmts_scope_frame(d0.push(top), ss);
    assert forall|k: int|
        0 <= k < d0.len() implies sp_stmts_refs(d0.push(top), ss).0.drop_last()[k] == d0[k] by {
        assert(sp_stmts_refs(d0.push(top), ss).0[k] == d0.push(top)[k]);
    }
    assert(sp_stmts_refs(d0.push(top), ss).0.drop_last() =~= d0);
}

/// The declarations of a parameter or name list, as a fresh scope.
fn decls_of(tokens: &Vec<Token>) -> (r: Vec<Decl>)
    ensures
        r.deep_view() == sp_decls_of(tokens@),
{
    let mut out: Vec<Decl> = Vec::new();
    let mut i: usize = 0;
    assert(tokens@.skip(0) =~= tokens@);
    while i < tokens.len()
        invariant
            i <= tokens@.len(),
            sp_decls_of(tokens@) == out.deep_view() + sp_decls_of(tokens@.skip(i as int)),
        decreases tokens@.len() - i,
    {
        assert(tokens@.skip(i as int)[0] == tokens@[i as int]);
        assert(tokens@.skip(i as int).skip(1) =~= tokens@.skip(i + 1));
        let ghost prev = out.deep_view();
        out.push(Decl { name: tokens[i].text.clone(), id: tokens[i].span });
        proof {
            assert(out.deep_view() =~= prev.push(
                SpecDecl { name: tokens@[i as int].text@, id: tokens@[i as int].span },
            ));
            assert(prev + (seq![
                SpecDecl { name: tokens@[i as int].text@, id: tokens@[i as int].span },
            ] + sp_decls_of(tokens@.skip(i + 1))) =~= out.deep_view() + sp_decls_of(
                tokens@.skip(i + 1),
            ));
        }
        i += 1;
    }
    assert(tokens@.skip(i as int) =~= Seq::<Token>::empty());
    assert(out.deep_view() + Seq::<SpecDecl>::empty() =~= out.deep_view());
    out
}

fn walk_block(scopes: &mut Vec<Vec<Decl>>, refs: &mut Vec<Reference>, b: &Block)
    ensures
        final(scopes).deep_view() == sp_stmts_refs(old(scopes).deep_view(), b.stmts@).0,
        final(refs).deep_view() == old(refs).deep_view() + sp_block_refs(
            old(scopes).deep_view(),
            *b,
        ),
    decreases *b, 3int,
{
    let ghost d0 = scopes.deep_view();
    let mut i: usize = 0;
    assert(b.stmts@.skip(0) =~= b.stmts@);
    while i < b.stmts.len()
        invariant
            i <= b.stmts@.len(),
            sp_stmts_refs(d0, b.stmts@).0 == sp_stmts_refs(
                scopes.deep_view(),
                b.stmts@.skip(i as int),
            ).0,
            old(refs).deep_view() + sp_stmts_refs(d0, b.stmts@).1 == refs.deep_view()
                + sp_stmts_refs(scopes.deep_view(), b.stmts@.skip(i as int)).1,
        decreases b.stmts@.len() - i, 2int,
    {
        assert(b.stmts@.skip(i as int)[0] == b.stmts@[i as int]);
        assert(b.stmts@.skip(i as int).skip(1) =~= b.stmts@.skip(i + 1));
        proof {
            assert(decreases_to!(*b => b.stmts));
            assert(decreases_to!(b.stmts => b.stmts@));
            assert(decreases_to!(b.stmts@ => b.stmts@[i as int]));
        }
        let ghost rprev = refs.deep_view();
        let ghost scprev = scopes.deep_view();
        walk_stmt(scopes, refs, &b.stmts[i]);
        proof {
            assert(rprev + (sp_stmt_refs(scprev, b.stmts@[i as int]).1 + sp_stmts_refs(
                scopes.deep_view(),
                b.stmts@.skip(i + 1),
            ).1) =~= refs.deep_view() + sp_stmts_refs(scopes.deep_view(), b.stmts@.skip(i + 1)).1);
        }
        i += 1;
    }
    assert(b.stmts@.skip(i as int) =~= Seq::<Stmt>::empty());
    match &b.last_stmt {
        Some(LastStmt::Return { expressions }) => {
            walk_exprs(scopes, refs, expressions);
        },
        _ => {},
    }
}

fn walk_exprs(scopes: &mut Vec<Vec<Decl>>, refs: &mut Vec<Reference>, es: &Vec<Expression>)
    ensures
        final(scopes).deep_view() == old(scopes).deep_view(),
        final(refs).deep_view() == old(refs).deep_view() + sp_exprs_refs(
            old(scopes).deep_view(),
            es@,
        ),
    decreases es@, 3int,
{
    let ghost d0 = scopes.deep_view();
    let mut i: usize = 0;
    assert(es@.skip(0) =~= es@);
    while i < es.len()
        invariant
            i <= es@.len(),
            scopes.deep_view() == d0,
            old(refs).deep_view() + sp_exprs_refs(d0, es@) == refs.deep_view() + sp_exprs_refs(
                d0,
                es@.skip(i as int),
            ),
        decreases es@.len() - i, 2int,
    {
        assert(es@.skip(i as int)[0] == es@[i as int]);
        assert(es@.skip(i as int).skip(1) =~= es@.skip(i + 1));
        let ghost rprev = refs.deep_view();
        walk_expr(scopes, refs, &es[i]);
        proof {
            assert(rprev + (sp_expr_refs(d0, es@[i as int]) + sp_exprs_refs(d0, es@.skip(i + 1)))
                =~= refs.deep_view() + sp_exprs_refs(d0, es@.skip(i + 1)));
        }
        i += 1;
    }
    assert(es@.skip(i as int) =~= Seq::<Expression>::empty());
}

fn walk_expr(scopes: &mut Vec<Vec<Decl>>, refs: &mut Vec<Reference>, e: &Expression)
    ensures
        final(scopes).deep_view() == old(scopes).deep_view(),
        final(refs).deep_view() == old(refs).deep_view() + sp_expr_refs(
            old(scopes).deep_view(),
            *e,
        ),
    decreases *e, 3int,
{
    let ghost d0 = scopes.deep_view();
    match &e.kind {
        ExpressionKind::BinaryOperator { lhs, binop, rhs } => {
            walk_expr(scopes, refs, lhs);
            walk_expr(scopes, refs, rhs);
        },
        ExpressionKind::Parentheses { expression } => {
            walk_expr(scopes, refs, expression);
        },
        ExpressionKind::UnaryOperator { unop, expression } => {
            walk_expr(scopes, refs, expression);
        },
        ExpressionKind::Function { body } => {
            open_scope_with(scopes, decls_of(&body.parameters));
            walk_block(scopes, refs, &body.block);
            proof {
                lemma_reopen_close(d0, sp_decls_of(body.parameters@), body.block.stmts@);
            }
            close_scope(scopes);
            assert(scopes.deep_view() == d0);
        },
        ExpressionKind::FunctionCall { call } => {
            walk_call(scopes, refs, call);
        },
        ExpressionKind::TableConstructor { table } => {
            walk_fields(scopes, refs, &table.fields);
            assert(sp_expr_refs(d0, *e) == sp_fields_refs(d0, table.fields@));
        },
        ExpressionKind::Number { token } => {},
        ExpressionKind::String { token } => {},
        ExpressionKind::Symbol { token } => {},
        ExpressionKind::Var { var } => {
            walk_var(scopes, refs, var, false);
        },
    }
}

fn walk_var(scopes: &mut Vec<Vec<Decl>>, refs: &mut Vec<Reference>, v: &Var, write: bool)
    ensures
        final(scopes).deep_view() == old(scopes).deep_view(),
        final(refs).deep_view() == old(refs).deep_view() + sp_var_refs(
            old(scopes).deep_view(),
            *v,
            write,
        ),
    decreases *v, 3int,
{
    match v {
        Var::Name { token } => {
            push_token_ref(scopes, refs, token, write);
        },
        Var::Expression { var_expr } => {
            walk_prefix(scopes, refs, &var_expr.prefix);
            walk_suffixes(scopes, refs, &var_expr.suffixes);
        },
    }
}

fn walk_prefix(scopes: &mut Vec<Vec<Decl>>, refs: &mut Vec<Reference>, p: &Prefix)
    ensures
        final(scopes).deep_view() == old(scopes).deep_view(),
        final(refs).deep_view() == old(refs).deep_view() + sp_prefix_refs(
            old(scopes).deep_view(),
            *p,
        ),
    decreases *p, 3int,
{
    match p {
        Prefix::Name { token } => {
            push_token_ref(scopes, refs, token, false);
        },
        Prefix::Expression { expression } => {
            walk_expr(scopes, refs, expression);
        },
    }
}

fn walk_suffixes(scopes: &mut Vec<Vec<Decl>>, refs: &mut Vec<Reference>, ss: &Vec<Suffix>)
    ensures
        final(scopes).deep_view() == old(scopes).deep_view(),
        final(refs).deep_view() == old(refs).deep_view() + sp_suffixes_refs(
            old(scopes).deep_view(),
            ss@,
        ),
    decreases ss@, 3int,
{
    let ghost d0 = scopes.deep_view();
    let mut i: usize = 0;
    assert(ss@.skip(0) =~= ss@);
    while i < ss.len()
        invariant
            i <= ss@.len(),
            scopes.deep_view() == d0,
            old(refs).deep_view() + sp_suffixes_refs(d0, ss@) == refs.deep_view()
                + sp_suffixes_refs(d0, ss@.skip(i as int)),
        decreases ss@.len() - i, 2int,
    {
        assert(ss@.skip(i as int)[0] == ss@[i as int]);
        assert(ss@.skip(i as int).skip(1) =~= ss@.skip(i + 1));
        let ghost rprev = refs.deep_view();
        match &ss[i] {
            Suffix::Index { index } => match index {
                Index::Dot { name } => {},
                Index::Brackets { expression } => {
                    walk_expr(scopes, refs, expression);
                },
            },
            Suffix::Call { call } => match call {
                Call::Anonymous { args } => {
                    walk_args(scopes, refs, args);
                },
                Call::Method { name, args } => {
                    walk_args(scopes, refs, args);
                },
            },
        }
        proof {
            assert(rprev + (sp_suffix_refs(d0, ss@[i as int]) + sp_suffixes_refs(
                d0,
                ss@.skip(i + 1),
            )) =~= refs.deep_view() + sp_suffixes_refs(d0, ss@.skip(i + 1)));
        }
        i += 1;
    }
    assert(ss@.skip(i as int) =~= Seq::<Suffix>::empty());
}

fn walk_args(scopes: &mut Vec<Vec<Decl>>, refs: &mut Vec<Reference>, a: &FunctionArgs)
    ensures
        final(scopes).deep_view() == old(scopes).deep_view(),
        final(refs).deep_view() == old(refs).deep_view() + sp_args_refs(
            old(scopes).deep_view(),
            *a,
        ),
    decreases *a, 3int,
{
    match a {
        FunctionArgs::Parentheses { arguments } => {
            walk_exprs(scopes, refs, arguments);
        },
        FunctionArgs::StringArg { token } => {},
        FunctionArgs::TableArg { table } => {
            walk_fields(scopes, refs, &table.fields);
        },
    }
}

fn walk_call(scopes: &mut Vec<Vec<Decl>>, refs: &mut Vec<Reference>, c: &FunctionCall)
    ensures
        final(scopes).deep_view() == old(scopes).deep_view(),
        final(refs).deep_view() == old(refs).deep_view() + sp_call_refs(
            old(scopes).deep_view(),
            *c,
        ),
    decreases *c, 3int,
{
    walk_prefix(scopes, refs, &c.prefix);
    walk_suffixes(scopes, refs, &c.suffixes);
}

fn walk_fields(scopes: &mut Vec<Vec<Decl>>, refs: &mut Vec<Reference>, fs: &Vec<TableField>)
    ensures
        final(scopes).deep_view() == old(scopes).deep_view(),
        final(refs).deep_view() == old(refs).deep_view() + sp_fields_refs(
            old(scopes).deep_view(),
            fs@,
        ),
    decreases fs@, 3int,
{
    let ghost d0 = scopes.deep_view();
    let mut i: usize = 0;
    assert(fs@.skip(0) =~= fs@);
    while i < fs.len()
        invariant
            i <= fs@.len(),
            scopes.deep_view() == d0,
            old(refs).deep_view() + sp_fields_refs(d0, fs@) == refs.deep_view() + sp_fields_refs(
                d0,
                fs@.skip(i as int),
            ),
        decreases fs@.len() - i, 2int,
    {
        assert(fs@.skip(i as int)[0] == fs@[i as int]);
        assert(fs@.skip(i as int).skip(1) =~= fs@.skip(i + 1));
        let ghost rprev = refs.deep_view();
        let ghost head = match fs@[i as int] {
            TableField::ExpressionKey { key, value } => sp_expr_refs(d0, key) + sp_expr_refs(
                d0,
                value,
            ),
            TableField::NameKey { key, value } => sp_expr_refs(d0, value),
            TableField::NoKey { value } => sp_expr_refs(d0, value),
        };
        match &fs[i] {
            TableField::ExpressionKey { key, value } => {
                walk_expr(scopes, refs, key);
                walk_expr(scopes, refs, value);
            },
            TableField::NameKey { key, value } => {
                walk_expr(scopes, refs, value);
            },
            TableField::NoKey { value } => {
                walk_expr(scopes, refs, value);
            },
        }
        proof {
            assert(rprev + (head + sp_fields_refs(d0, fs@.skip(i + 1))) =~= refs.deep_view()
                + sp_fields_refs(d0, fs@.skip(i + 1)));
        }
        i += 1;
    }
    assert(fs@.skip(i as int) =~= Seq::<TableField>::empty());
}

fn walk_stmt(scopes: &mut Vec<Vec<Decl>>, refs: &mut Vec<Reference>, s: &Stmt)
    ensures
        final(scopes).deep_view() == sp_stmt_refs(old(scopes).deep_view(), *s).0,
        final(refs).deep_view() == old(refs).deep_view() + sp_stmt_refs(
            old(scopes).deep_view(),
            *s,
        ).1,
    decreases *s, 4int,
{
    let ghost d0 = scopes.deep_view();
    match s {
        Stmt::Assignment { vars, expressions } => {
            let mut i: usize = 0;
            assert(vars@.skip(0) =~= vars@);
            while i < vars.len()
                invariant
                    i <= vars@.len(),
                    scopes.deep_view() == d0,
                    old(refs).deep_view() + sp_vars_refs(d0, vars@) == refs.deep_view()
                        + sp_vars_refs(d0, vars@.skip(i as int)),
                decreases vars@.len() - i, 2int,
            {
                assert(vars@.skip(i as int)[0] == vars@[i as int]);
                assert(vars@.skip(i as int).skip(1) =~= vars@.skip(i + 1));
                proof {
                    assert(decreases_to!(*s => *vars));
                    assert(decreases_to!(*vars => vars@));
                    assert(decreases_to!(vars@ => vars@[i as int]));
                }
                let ghost rprev = refs.deep_view();
                walk_var(scopes, refs, &vars[i], true);
                proof {
                    assert(rprev + (sp_var_refs(d0, vars@[i as int], true) + sp_vars_refs(
                        d0,
                        vars@.skip(i + 1),
                    )) =~= refs.deep_view() + sp_vars_refs(d0, vars@.skip(i + 1)));
                }
                i += 1;
            }
            assert(vars@.skip(i as int) =~= Seq::<Var>::empty());
            walk_exprs(scopes, refs, expressions);
        },
        Stmt::Do { block } => {
            open_empty_scope(scopes);
            walk_block(scopes, refs, block);
            proof {
                lemma_reopen_close(d0, Seq::empty(), block.stmts@);
            }
            close_scope(scopes);
            assert(scopes.deep_view() == d0);
        },
        Stmt::FunctionCall { call } => {
            walk_call(scopes, refs, call);
        },
        Stmt::FunctionDeclaration { function_span, names, body } => {
            if names.len() >= 1 {
                push_token_ref(scopes, refs, &names[0], names.len() == 1);
            }
            open_scope_with(scopes, decls_of(&body.parameters));
            walk_block(scopes, refs, &body.block);
            proof {
                lemma_reopen_close(d0, sp_decls_of(body.parameters@), body.block.stmts@);
            }
            close_scope(scopes);
            assert(scopes.deep_view() == d0);
            proof {
                assert(refs.deep_view() =~= old(refs).deep_view() + sp_stmt_refs(d0, *s).1);
            }
        },
        Stmt::GenericFor { names, expressions, block } => {
            walk_exprs(scopes, refs, expressions);
            open_scope_with(scopes, decls_of(names));
            walk_block(scopes, refs, block);
            proof {
                lemma_reopen_close(d0, sp_decls_of(names@), block.stmts@);
            }
            close_scope(scopes);
            assert(scopes.deep_view() == d0);
            proof {
                assert(refs.deep_view() =~= old(refs).deep_view() + sp_stmt_refs(d0, *s).1);
            }
        },
        Stmt::If { if_block } => {
            walk_expr(scopes, refs, &if_block.condition);
            open_empty_scope(scopes);
            walk_block(scopes, refs, &if_block.block);
            proof {
                lemma_reopen_close(d0, Seq::empty(), if_block.block.stmts@);
            }
            close_scope(scopes);
            assert(scopes.deep_view() == d0);
            let ghost rmid = refs.deep_view();
            let mut i: usize = 0;
            assert(if_block.else_ifs@.skip(0) =~= if_block.else_ifs@);
            while i < if_block.else_ifs.len()
                invariant
                    i <= if_block.else_ifs@.len(),
                    scopes.deep_view() == d0,
                    rmid + sp_elseifs_refs(d0, if_block.else_ifs@) == refs.deep_view()
                        + sp_elseifs_refs(d0, if_block.else_ifs@.skip(i as int)),
                decreases if_block.else_ifs@.len() - i, 2int,
            {
                assert(if_block.else_ifs@.skip(i as int)[0] == if_block.else_ifs@[i as int]);
                assert(if_block.else_ifs@.skip(i as int).skip(1) =~= if_block.else_ifs@.skip(
                    i + 1,
                ));
                proof {
                    assert(decreases_to!(*s => *if_block));
                    assert(decreases_to!(*if_block => if_block.else_ifs@));
                    assert(decreases_to!(if_block.else_ifs@ => if_block.else_ifs@[i as int]));
                    assert(decreases_to!(if_block.else_ifs@[i as int]
                        => if_block.else_ifs@[i as int].condition));
                    assert(decreases_to!(if_block.else_ifs@[i as int]
                        => if_block.else_ifs@[i as int].block));
                }
                let ghost rprev = refs.deep_view();
                walk_expr(scopes, refs, &if_block.else_ifs[i].condition);
                open_empty_scope(scopes);
                walk_block(scopes, refs, &if_block.else_ifs[i].block);
                proof {
                    lemma_reopen_close(
                        d0,
                        Seq::empty(),
                        if_block.else_ifs@[i as int].block.stmts@,
                    );
                }
                close_scope(scopes);
                assert(scopes.deep_view() == d0);
                proof {
                    assert(rprev + (sp_expr_refs(d0, if_block.else_ifs@[i as int].condition)
                        + sp_block_refs(
                        d0.push(Seq::empty()),
                        if_block.else_ifs@[i as int].block,
                    ) + sp_elseifs_refs(d0, if_block.else_ifs@.skip(i + 1))) =~= refs.deep_view()
                        + sp_elseifs_refs(d0, if_block.else_ifs@.skip(i + 1)));
                }
                i += 1;
            }
            assert(if_block.else_ifs@.skip(i as int) =~= Seq::<ElseIf>::empty());
            match &if_block.else_block {
                Some(else_block) => {
                    open_empty_scope(scopes);
                    walk_block(scopes, refs, else_block);
                    proof {
                        lemma_reopen_close(d0, Seq::empty(), else_block.stmts@);
                    }
                    close_scope(scopes);
                    assert(scopes.deep_view() == d0);
                },
                None => {},
            }
            proof {
                assert(refs.deep_view() =~= old(refs).deep_view() + sp_stmt_refs(d0, *s).1);
            }
        },
        Stmt::LocalAssignment { names, expressions } => {
            walk_exprs(scopes, refs, expressions);
            let mut i: usize = 0;
            assert(names@.skip(0) =~= names@);
            while i < names.len()
                invariant
                    i <= names@.len(),
                    sp_declare_all(d0, names@) == sp_declare_all(
                        scopes.deep_view(),
                        names@.skip(i as int),
                    ),
                decreases names@.len() - i, 2int,
            {
                assert(names@.skip(i as int)[0] == names@[i as int]);
                assert(names@.skip(i as int).skip(1) =~= names@.skip(i + 1));
                declare(scopes, &names[i]);
                i += 1;
            }
            assert(names@.skip(i as int) =~= Seq::<Token>::empty());
        },
        Stmt::LocalFunction { function_span, name, body } => {
            declare(scopes, name);
            let ghost declared = scopes.deep_view();
            open_scope_with(scopes, decls_of(&body.parameters));
            walk_block(scopes, refs, &body.block);
            proof {
                lemma_reopen_close(declared, sp_decls_of(body.parameters@), body.block.stmts@);
            }
            close_scope(scopes);
            assert(scopes.deep_view() == declared);
        },
        Stmt::NumericFor { name, start, end, step, block } => {
            walk_expr(scopes, refs, start);
            walk_expr(scopes, refs, end);
            match step {
                Some(step) => {
                    walk_expr(scopes, refs, step);
                },
                None => {},
            }
            let mut loop_scope: Vec<Decl> = Vec::new();
            loop_scope.push(Decl { name: name.text.clone(), id: name.span });
            proof {
                assert(loop_scope.deep_view() =~= seq![
                    SpecDecl { name: name.text@, id: name.span },
                ]);
            }
            open_scope_with(scopes, loop_scope);
            walk_block(scopes, refs, block);
            proof {
                lemma_reopen_close(
                    d0,
                    seq![SpecDecl { name: name.text@, id: name.span }],
                    block.stmts@,
                );
            }
            close_scope(scopes);
            assert(scopes.deep_view() == d0);
            proof {
                assert(refs.deep_view() =~= old(refs).deep_view() + sp_stmt_refs(d0, *s).1);
            }
        },
        Stmt::Repeat { block, until } => {
            open_empty_scope(scopes);
            walk_block(scopes, refs, block);
            walk_expr(scopes, refs, until);
            proof {
                lemma_reopen_close(d0, Seq::empty(), block.stmts@);
            }
            close_scope(scopes);
            assert(scopes.deep_view() == d0);
            proof {
                assert(refs.deep_view() =~= old(refs).deep_view() + sp_stmt_refs(d0, *s).1);
            }
        },
        Stmt::While { condition, block } => {
            walk_expr(scopes, refs, condition);
            open_empty_scope(scopes);
            walk_block(scopes, refs, block);
            proof {
                lemma_reopen_close(d0, Seq::empty(), block.stmts@);
            }
            close_scope(scopes);
            assert(scopes.deep_view() == d0);
        },
    }
}

/// The reference list of one tree, built by a single walk and immutable
/// afterwards.
pub struct ScopeManager {
    pub references: Vec<Reference>,
}

impl ScopeManager {
    /// Walks the tree from a single root scope and records every reference.
    pub fn new(ast: &Ast) -> (r: ScopeManager)
        ensures
            r.references.deep_view() == sp_ast_refs(*ast),
    {
        let mut scopes: Vec<Vec<Decl>> = Vec::new();
        scopes.push(Vec::new());
        proof {
            assert(scopes.deep_view() =~~= seq![Seq::<SpecDecl>::empty()]);
        }
        let mut references: Vec<Reference> = Vec::new();
        assert(references.deep_view() =~= Seq::<SpecReference>::empty());
        walk_block(&mut scopes, &mut references, &ast.nodes);
        proof {
            assert(Seq::<SpecReference>::empty() + sp_ast_refs(*ast) =~= sp_ast_refs(*ast));
        }
        ScopeManager { references }
    }
}

} // verus!
