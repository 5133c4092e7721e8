//! Flags comparisons of a variable against `0/0`: nothing compares equal to
//! nan, so `x == 0/0` and `x ~= 0/0` are always wrong. The right test is
//! `x ~= x`.

use vstd::prelude::*;
use crate::ast::{Ast, BinOp, Expression, ExpressionKind, Var};
use crate::ast_util::visit::{gather_ast, gathered_of};
use crate::rules::{Context, Diagnostic, Label, RuleError, RuleType, Severity, SpecDiagnostic,
    SpecLabel};

verus! {

/// Whether an expression is the literal `0`.
pub open spec fn sp_is_zero(e: Expression) -> bool {
    e.kind matches ExpressionKind::Number { token } && token.text@ == "0"@
}

/// Whether an expression is `0/0`, the idiomatic way to write nan.
pub open spec fn sp_is_nan(e: Expression) -> bool {
    match e.kind {
        ExpressionKind::BinaryOperator { lhs, binop, rhs } => binop is Slash && sp_is_zero(*lhs)
            && sp_is_zero(*rhs),
        _ => false,
    }
}

/// The source text a variable displays as.
pub open spec fn sp_var_text(v: Var) -> Seq<char> {
    match v {
        Var::Name { token } => token.text@,
        Var::Expression { var_expr } => var_expr.text@,
    }
}

/// The text of the comparison operator used.
pub open spec fn sp_op_text(op: BinOp) -> Seq<char> {
    if op is TwoEqual {
        "=="@
    } else {
        "~="@
    }
}

/// Whether an expression compares a variable against nan with `==` or `~=`.
pub open spec fn sp_is_nan_comparison(e: Expression) -> bool {
    match e.kind {
        ExpressionKind::BinaryOperator { lhs, binop, rhs } => (binop is TwoEqual
            || binop is TildeEqual) && (lhs.kind matches ExpressionKind::Var { var })
            && sp_is_nan(*rhs),
        _ => false,
    }
}

/// One finding: the note shows the correct self-comparison to write instead.
pub open spec fn sp_nan_diag(e: Expression) -> SpecDiagnostic {
    let variable = sp_var_text(e.kind->BinaryOperator_lhs.kind->Var_var);
    let operator = sp_op_text(e.kind->BinaryOperator_binop);
    SpecDiagnostic {
        code: "compare_nan"@,
        message: "comparing things to nan directly is not allowed"@,
        notes: seq![
            "try: `"@ + variable + " "@ + operator + " "@ + variable + "` instead"@,
        ],
        primary_label: SpecLabel { message: None, range: e.span },
        secondary_labels: Seq::empty(),
    }
}

/// The findings over a row of expressions, one per nan comparison.
pub open spec fn sp_compare_nan_diags(es: Seq<Expression>) -> Seq<SpecDiagnostic>
    decreases es.len(),
{
    if es.len() == 0 {
        Seq::empty()
    } else {
        let here: Seq<SpecDiagnostic> = if sp_is_nan_comparison(es[0]) {
            seq![sp_nan_diag(es[0])]
        } else {
            Seq::empty()
        };
        here + sp_compare_nan_diags(es.skip(1))
    }
}

/// Renders a variable as source text.
fn var_display(v: &Var) -> (r: String)
    ensures
        r@ == sp_var_text(*v),
{
    match v {
        Var::Name { token } => token.text.clone(),
        Var::Expression { var_expr } => var_expr.text.clone(),
    }
}

/// Whether an expression is the literal `0`.
fn expression_is_zero(e: &Expression) -> (r: bool)
    ensures
        r == sp_is_zero(*e),
{
    match &e.kind {
        ExpressionKind::Number { token } => {
            let zero: String = "0".to_owned();
            token.text == zero
        },
        _ => false,
    }
}

/// Whether an expression is `0/0`.
pub fn expression_is_nan(e: &Expression) -> (r: bool)
    ensures
        r == sp_is_nan(*e),
{
    match &e.kind {
        ExpressionKind::BinaryOperator { lhs, binop, rhs } => matches!(binop, BinOp::Slash)
            && expression_is_zero(lhs) && expression_is_zero(rhs),
        _ => false,
    }
}

/// The rule that flags direct comparisons against nan.
pub struct CompareNanLint;

impl CompareNanLint {
    /// This rule takes no configuration and always constructs.
    pub fn new(config: ()) -> (r: Result<CompareNanLint, RuleError>)
        ensures
            r is Ok,
    {
        Ok(CompareNanLint)
    }

    /// Flags every nan comparison of the tree, in preorder.
    pub fn pass(&self, ast: &Ast, context: &Context) -> (r: Vec<Diagnostic>)
        ensures
            r.deep_view() == sp_compare_nan_diags(gathered_of(*ast).expressions),
    {
        let sinks = gather_ast(ast);
        let ghost es = gathered_of(*ast).expressions;
        let mut out: Vec<Diagnostic> = Vec::new();
        let mut i: usize = 0;
        assert(es.skip(0) =~= es);
        while i < sinks.expressions.len()
            invariant
                i <= sinks.expressions@.len(),
                sinks@ == gathered_of(*ast),
                sp_compare_nan_diags(es) == out.deep_view() + sp_compare_nan_diags(
                    es.skip(i as int),
                ),
            decreases sinks.expressions@.len() - i,
        {
            assert(es.skip(i as int)[0] == es[i as int]);
            assert(es.skip(i as int).skip(1) =~= es.skip(i + 1));
            assert(es[i as int] == *sinks.expressions@[i as int]);
            let node: &Expression = sinks.expressions[i];
            match &node.kind {
                ExpressionKind::BinaryOperator { lhs, binop, rhs } => {
                    let is_eq = matches!(binop, BinOp::TwoEqual);
                    let is_neq = matches!(binop, BinOp::TildeEqual);
                    match &lhs.kind {
                        ExpressionKind::Var { var } => {
                            if (is_eq || is_neq) && expression_is_nan(rhs) {
                                let variable = var_display(var);
                                let operator: &str = if is_eq {
                                    "=="
                                } else {
                                    "~="
                                };
                                let note = "try: `".to_owned().concat(variable.as_str()).concat(
                                    " ",
                                ).concat(operator).concat(" ").concat(variable.as_str()).concat(
                                    "` instead",
                                );
                                let mut notes: Vec<String> = Vec::new();
                                notes.push(note);
                                let d = Diagnostic::new_complete(
                                    "compare_nan",
                                    "comparing things to nan directly is not allowed".to_owned(),
                                    Label::new(node.span),
                                    notes,
                                    Vec::new(),
                                );
                                let ghost prev = out.deep_view();
                                proof {
                                    assert(d@.notes =~= sp_nan_diag(es[i as int]).notes);
                                    assert(d@ =~= sp_nan_diag(es[i as int]));
                                }
                                out.push(d);
                                proof {
                                    assert(out.deep_view() =~= prev.push(d@));
                                    assert(prev + (seq![d@] + sp_compare_nan_diags(es.skip(i + 1)))
                                        =~= out.deep_view() + sp_compare_nan_diags(es.skip(i + 1)));
                                }
                            }
                        },
                        _ => {},
                    }
                },
                _ => {},
            }
            i += 1;
        }
        proof {
            assert(es.skip(i as int) =~= Seq::<Expression>::empty());
            assert(out.deep_view() + Seq::<SpecDiagnostic>::empty() =~= out.deep_view());
        }
        out
    }

    /// Findings of this rule display as errors.
    pub fn severity(&self) -> (r: Severity)
        ensures
            r == Severity::Error,
    {
        Severity::Error
    }

    /// This rule reports correctness problems.
    pub fn rule_type(&self) -> (r: RuleType)
        ensures
            r == RuleType::Correctness,
    {
        RuleType::Correctness
    }
}

/// Every finding's range is ordered, provided every expression's span is.
pub proof fn lemma_nan_label_ranges(es: Seq<Expression>)
    requires
        forall|i: int| 0 <= i < es.len() ==> (#[trigger] es[i]).span.0 <= es[i].span.1,
    ensures
        forall|j: int|
            0 <= j < sp_compare_nan_diags(es).len() ==> (#[trigger] sp_compare_nan_diags(
                es,
            )[j]).primary_label.range.0 <= sp_compare_nan_diags(es)[j].primary_label.range.1,
    decreases es.len(),
{
    if es.len() > 0 {
        assert forall|i: int| 0 <= i < es.skip(1).len() implies (#[trigger] es.skip(
            1,
        )[i]).span.0 <= es.skip(1)[i].span.1 by {
            assert(es.skip(1)[i] == es[i + 1]);
        }
        lemma_nan_label_ranges(es.skip(1));
    }
}

} // verus!
