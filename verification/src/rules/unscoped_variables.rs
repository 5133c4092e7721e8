//! Flags writes to names never declared `local` in any enclosing scope:
//! such an assignment creates a global visible everywhere. Names matching a
//! configurable ignore pattern, and names the standard library already
//! provides, are exempt; each distinct source position is reported once.

use vstd::prelude::*;
use crate::ast::Ast;
use crate::ast_util::scopes::{sp_ast_refs, ScopeManager, SpecReference};
use crate::pattern::{regex_accepts, regex_pattern_ok, CompiledPattern};
use crate::rules::{Context, Diagnostic, Label, RuleError, RuleType, Severity, SpecDiagnostic,
    SpecLabel};
use crate::standard_library::{lookup_entry, spec_lookup, Field};

verus! {

/// Configuration: a pattern for names that may be written without a
/// declaration, by default every name starting with an underscore.
pub struct UnscopedVariablesConfig {
    pub ignore_pattern: String,
}

impl Default for UnscopedVariablesConfig {
    fn default() -> (r: Self)
        ensures
            r.ignore_pattern@ == "^_"@,
    {
        Self { ignore_pattern: "^_".to_owned() }
    }
}

/// Whether one reference is an unscoped write worth reporting: an
/// unresolved write whose name neither matches the ignore pattern nor names
/// a standard-library global.
pub open spec fn sp_unscoped_hit(
    r: SpecReference,
    pattern: Seq<char>,
    globals: Seq<(String, Field)>,
) -> bool {
    r.resolved is None && r.write && !regex_accepts(pattern, r.name) && spec_lookup(
        globals,
        r.name,
    ) is None
}

/// One finding, anchored at the written name.
pub open spec fn sp_unscoped_diag(r: SpecReference) -> SpecDiagnostic {
    SpecDiagnostic {
        code: "unscoped_variables"@,
        message: "`"@ + r.name + "` is not declared locally, and will be available in every scope"@,
        notes: Seq::empty(),
        primary_label: SpecLabel { message: None, range: r.identifier },
        secondary_labels: Seq::empty(),
    }
}

/// The findings over a reference list: each qualifying reference is
/// reported, but only the first at any given source position.
pub open spec fn sp_unscoped_diags(
    refs: Seq<SpecReference>,
    seen: Seq<(u32, u32)>,
    pattern: Seq<char>,
    globals: Seq<(String, Field)>,
) -> Seq<SpecDiagnostic>
    decreases refs.len(),
{
    if refs.len() == 0 {
        Seq::empty()
    } else {
        if sp_unscoped_hit(refs[0], pattern, globals) && !seen.contains(refs[0].identifier) {
            seq![sp_unscoped_diag(refs[0])] + sp_unscoped_diags(
                refs.skip(1),
                seen.push(refs[0].identifier),
                pattern,
                globals,
            )
        } else {
            sp_unscoped_diags(refs.skip(1), seen, pattern, globals)
        }
    }
}

/// Each distinct source position is reported at most once: no two findings
/// of this rule share a primary range, and none lands on a position already
/// seen.
pub proof fn lemma_unscoped_positions_distinct(
    refs: Seq<SpecReference>,
    seen: Seq<(u32, u32)>,
    pattern: Seq<char>,
    globals: Seq<(String, Field)>,
)
    ensures
        forall|i: int|
            0 <= i < sp_unscoped_diags(refs, seen, pattern, globals).len() ==> !seen.contains(
                (#[trigger] sp_unscoped_diags(refs, seen, pattern, globals)[i]).primary_label.range,
            ),
        forall|i: int, j: int|
            0 <= i < j < sp_unscoped_diags(refs, seen, pattern, globals).len() ==> (
            #[trigger] sp_unscoped_diags(refs, seen, pattern, globals)[i]).primary_label.range != (
            #[trigger] sp_unscoped_diags(refs, seen, pattern, globals)[j]).primary_label.range,
    decreases refs.len(),
{
    if refs.len() > 0 {
        let out = sp_unscoped_diags(refs, seen, pattern, globals);
        if sp_unscoped_hit(refs[0], pattern, globals) && !seen.contains(refs[0].identifier) {
            let tail = sp_unscoped_diags(
                refs.skip(1),
                seen.push(refs[0].identifier),
                pattern,
                globals,
            );
            lemma_unscoped_positions_distinct(
                refs.skip(1),
                seen.push(refs[0].identifier),
                pattern,
                globals,
            );
            assert(out == seq![sp_unscoped_diag(refs[0])] + tail);
            assert(out[0] == sp_unscoped_diag(refs[0]));
            assert forall|i: int| 0 <= i < out.len() implies !seen.contains(
                (#[trigger] out[i]).primary_label.range,
            ) by {
                if i > 0 {
                    assert(out[i] == tail[i - 1]);
                    assert(!seen.push(refs[0].identifier).contains(
                        tail[i - 1].primary_label.range,
                    ));
                    if seen.contains(tail[i - 1].primary_label.range) {
                        let k = choose|k: int|
                            0 <= k < seen.len() && seen[k] == tail[i - 1].primary_label.range;
                        assert(seen.push(refs[0].identifier)[k] == seen[k]);
                    }
                }
            }
            assert forall|i: int, j: int| 0 <= i < j < out.len() implies (
            #[trigger] out[i]).primary_label.range != (#[trigger] out[j]).primary_label.range by {
                if i == 0 {
                    assert(out[j] == tail[j - 1]);
                    assert(!seen.push(refs[0].identifier).contains(
                        tail[j - 1].primary_label.range,
                    ));
                    assert(seen.push(refs[0].identifier).last() == refs[0].identifier);
                    if tail[j - 1].primary_label.range == refs[0].identifier {
                        assert(seen.push(refs[0].identifier).contains(refs[0].identifier));
                    }
                } else {
                    assert(out[i] == tail[i - 1]);
                    assert(out[j] == tail[j - 1]);
                }
            }
        } else {
            lemma_unscoped_positions_distinct(refs.skip(1), seen, pattern, globals);
        }
    }
}

/// Whether `spans` holds `id`.
fn spans_contain(spans: &Vec<(u32, u32)>, id: (u32, u32)) -> (r: bool)
    ensures
        r == spans@.contains(id),
{
    let mut i: usize = 0;
    while i < spans.len()
        invariant
            i <= spans@.len(),
            forall|j: int| 0 <= j < i ==> spans@[j] != id,
        decreases spans@.len() - i,
    {
        if spans[i].0 == id.0 && spans[i].1 == id.1 {
            assert(spans@[i as int] == id);
            return true;
        }
        i += 1;
    }
    assert(!spans@.contains(id));
    false
}

/// The rule that flags writes to undeclared names.
pub struct UnscopedVariablesLint {
    pub ignore_pattern: CompiledPattern,
}

impl UnscopedVariablesLint {
    /// Compiles the ignore pattern; an invalid pattern fails construction.
    pub fn new(config: UnscopedVariablesConfig) -> (r: Result<UnscopedVariablesLint, RuleError>)
        ensures
            r is Ok <==> regex_pattern_ok(config.ignore_pattern@),
            r matches Ok(lint) ==> lint.ignore_pattern.pattern() == config.ignore_pattern@,
    {
        match CompiledPattern::compile(config.ignore_pattern.as_str()) {
            Ok(compiled) => Ok(UnscopedVariablesLint { ignore_pattern: compiled }),
            Err(message) => Err(RuleError { message }),
        }
    }

    /// Resolves the tree's scopes and reports every unscoped write once.
    pub fn pass(&self, ast: &Ast, context: &Context) -> (r: Vec<Diagnostic>)
        ensures
            r.deep_view() == sp_unscoped_diags(
                sp_ast_refs(*ast),
                Seq::empty(),
                self.ignore_pattern.pattern(),
                context.standard_library.globals@,
            ),
    {
        let scope_manager = ScopeManager::new(ast);
        let ghost refs = sp_ast_refs(*ast);
        let ghost pattern = self.ignore_pattern.pattern();
        let ghost globals = context.standard_library.globals@;
        let mut seen: Vec<(u32, u32)> = Vec::new();
        let mut out: Vec<Diagnostic> = Vec::new();
        let mut i: usize = 0;
        assert(refs.skip(0) =~= refs);
        assert(seen@ =~= Seq::<(u32, u32)>::empty());
        while i < scope_manager.references.len()
            invariant
                i <= scope_manager.references@.len(),
                scope_manager.references.deep_view() == refs,
                sp_unscoped_diags(refs, Seq::empty(), pattern, globals) == out.deep_view()
                    + sp_unscoped_diags(refs.skip(i as int), seen@, pattern, globals),
            decreases scope_manager.references@.len() - i,
        {
            assert(refs.skip(i as int)[0] == refs[i as int]);
            assert(refs.skip(i as int).skip(1) =~= refs.skip(i + 1));
            assert(refs[i as int] == scope_manager.references@[i as int]@);
            let reference = &scope_manager.references[i];
            let qualifies = reference.resolved.is_none() && reference.write && !spans_contain(
                &seen,
                reference.identifier,
            ) && !self.ignore_pattern.is_match(reference.name.as_str()) && lookup_entry(
                &context.standard_library.globals,
                &reference.name,
            ).is_none();
            if qualifies {
                seen.push(reference.identifier);
                let message = "`".to_owned().concat(reference.name.as_str()).concat(
                    "` is not declared locally, and will be available in every scope",
                );
                let d = Diagnostic::new(
                    "unscoped_variables",
                    message,
                    Label::new(reference.identifier),
                );
                let ghost prev = out.deep_view();
                proof {
                    assert(d@ =~= sp_unscoped_diag(refs[i as int]));
                }
                out.push(d);
                proof {
                    assert(out.deep_view() =~= prev.push(d@));
                    assert(prev + (seq![d@] + sp_unscoped_diags(
                        refs.skip(i + 1),
                        seen@,
                        pattern,
                        globals,
                    )) =~= out.deep_view() + sp_unscoped_diags(
                        refs.skip(i + 1),
                        seen@,
                        pattern,
                        globals,
                    ));
                }
            }
            i += 1;
        }
        proof {
            assert(refs.skip(i as int) =~= Seq::<SpecReference>::empty());
            assert(out.deep_view() + Seq::<SpecDiagnostic>::empty() =~= out.deep_view());
        }
        out
    }

    /// Findings of this rule display as warnings.
    pub fn severity(&self) -> (r: Severity)
        ensures
            r == Severity::Warning,
    {
        Severity::Warning
    }

    /// This rule reports complexity problems.
    pub fn rule_type(&self) -> (r: RuleType)
        ensures
            r == RuleType::Complexity,
    {
        RuleType::Complexity
    }
}

/// Every finding's range is ordered, provided every reference's span is.
pub proof fn lemma_unscoped_label_ranges(
    refs: Seq<SpecReference>,
    seen: Seq<(u32, u32)>,
    pattern: Seq<char>,
    globals: Seq<(String, Field)>,
)
    requires
        forall|i: int|
            0 <= i < refs.len() ==> (#[trigger] refs[i]).identifier.0 <= refs[i].identifier.1,
    ensures
        forall|j: int|
            0 <= j < sp_unscoped_diags(refs, seen, pattern, globals).len() ==> (
            #[trigger] sp_unscoped_diags(refs, seen, pattern, globals)[j]).primary_label.range.0
                <= sp_unscoped_diags(refs, seen, pattern, globals)[j].primary_label.range.1,
    decreases refs.len(),
{
    if refs.len() > 0 {
        assert forall|i: int| 0 <= i < refs.skip(1).len() implies (#[trigger] refs.skip(
            1,
        )[i]).identifier.0 <= refs.skip(1)[i].identifier.1 by {
            assert(refs.skip(1)[i] == refs[i + 1]);
        }
        if sp_unscoped_hit(refs[0], pattern, globals) && !seen.contains(refs[0].identifier) {
            lemma_unscoped_label_ranges(
                refs.skip(1),
                seen.push(refs[0].identifier),
                pattern,
                globals,
            );
        } else {
            lemma_unscoped_label_ranges(refs.skip(1), seen, pattern, globals);
        }
    }
}

} // verus!
