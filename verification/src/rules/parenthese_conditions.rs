//! Flags parenthesized `if`/`elseif`/`while`/`repeat` conditions: Lua does
//! not require parentheses around conditions.

use vstd::prelude::*;
use crate::ast::{Ast, Expression, ExpressionKind};
use crate::ast_util::visit::{gather_ast, gathered_of};
use crate::rules::{Context, Diagnostic, Label, RuleError, RuleType, Severity, SpecDiagnostic,
    SpecLabel};

verus! {

/// One finding, anchored on the condition's whole span.
pub open spec fn sp_paren_diag(span: (u32, u32)) -> SpecDiagnostic {
    SpecDiagnostic {
        code: "parenthese_conditions"@,
        message: "lua does not require parentheses around conditions"@,
        notes: Seq::empty(),
        primary_label: SpecLabel { message: None, range: span },
        secondary_labels: Seq::empty(),
    }
}

/// The findings over a row of conditions: one per parenthesized condition.
pub open spec fn sp_paren_diags(conds: Seq<Expression>) -> Seq<SpecDiagnostic>
    decreases conds.len(),
{
    if conds.len() == 0 {
        Seq::empty()
    } else {
        let here: Seq<SpecDiagnostic> = if conds[0].kind matches ExpressionKind::Parentheses {
            expression,
        } {
            seq![sp_paren_diag(conds[0].span)]
        } else {
            Seq::empty()
        };
        here + sp_paren_diags(conds.skip(1))
    }
}

/// The rule that flags parenthesized conditions.
pub struct ParentheseConditionsLint;

impl ParentheseConditionsLint {
    /// This rule takes no configuration and always constructs.
    pub fn new(config: ()) -> (r: Result<ParentheseConditionsLint, RuleError>)
        ensures
            r is Ok,
    {
        Ok(ParentheseConditionsLint)
    }

    /// Flags every parenthesized condition of the tree, in visit order.
    pub fn pass(&self, ast: &Ast, context: &Context) -> (r: Vec<Diagnostic>)
        ensures
            r.deep_view() == sp_paren_diags(gathered_of(*ast).conditions),
    {
        let sinks = gather_ast(ast);
        let ghost conds = gathered_of(*ast).conditions;
        let mut out: Vec<Diagnostic> = Vec::new();
        let mut i: usize = 0;
        assert(conds.skip(0) =~= conds);
        while i < sinks.conditions.len()
            invariant
                i <= sinks.conditions@.len(),
                sinks@ == gathered_of(*ast),
                sp_paren_diags(conds) == out.deep_view() + sp_paren_diags(conds.skip(i as int)),
            decreases sinks.conditions@.len() - i,
        {
            assert(conds.skip(i as int)[0] == conds[i as int]);
            assert(conds.skip(i as int).skip(1) =~= conds.skip(i + 1));
            assert(conds[i as int] == *sinks.conditions@[i as int]);
            let condition: &Expression = sinks.conditions[i];
            if matches!(&condition.kind, ExpressionKind::Parentheses { .. }) {
                let d = Diagnostic::new(
                    "parenthese_conditions",
                    "lua does not require parentheses around conditions".to_owned(),
                    Label::new(condition.span),
                );
                let ghost prev = out.deep_view();
                proof {
                    assert(d@ =~= sp_paren_diag(conds[i as int].span));
                }
                out.push(d);
                proof {
                    assert(out.deep_view() =~= prev.push(d@));
                    assert(prev + (seq![d@] + sp_paren_diags(conds.skip(i + 1))) =~= out.deep_view()
                        + sp_paren_diags(conds.skip(i + 1)));
                }
            }
            i += 1;
        }
        proof {
            assert(conds.skip(i as int) =~= Seq::<Expression>::empty());
            assert(out.deep_view() + Seq::<SpecDiagnostic>::empty() =~= out.deep_view());
        }
        out
    }

    /// Findings of this rule display as warnings.
    pub fn severity(&self) -> (r: Severity)
        ensures
            r == Severity::Warning,
    {
        Severity::Warning
    }

    /// This rule reports style problems.
    pub fn rule_type(&self) -> (r: RuleType)
        ensures
            r == RuleType::Style,
    {
        RuleType::Style
    }
}

/// Every finding's range is ordered, provided every condition's span is.
pub proof fn lemma_paren_label_ranges(conds: Seq<Expression>)
    requires
        forall|i: int| 0 <= i < conds.len() ==> (#[trigger] conds[i]).span.0 <= conds[i].span.1,
    ensures
        forall|j: int|
            0 <= j < sp_paren_diags(conds).len() ==> (#[trigger] sp_paren_diags(
                conds,
            )[j]).primary_label.range.0 <= sp_paren_diags(conds)[j].primary_label.range.1,
    decreases conds.len(),
{
    if conds.len() > 0 {
        assert forall|i: int| 0 <= i < conds.skip(1).len() implies (#[trigger] conds.skip(
            1,
        )[i]).span.0 <= conds.skip(1)[i].span.1 by {
            assert(conds.skip(1)[i] == conds[i + 1]);
        }
        lemma_paren_label_ranges(conds.skip(1));
    }
}

} // verus!
