//! A static-analysis engine for Lua source trees: an open set of rules runs
//! over one parsed tree and produces diagnostics, a standard-library model
//! type-checks call sites, and a scope resolver tracks declarations and
//! references. The checker orchestrates the closed registry of rules and
//! merges user-configured severities.

#![verifier::loop_isolation(false)]

use vstd::prelude::*;

pub mod ast;
pub mod ast_util;
pub mod pattern;
pub mod roblox;
pub mod rules;
pub mod standard_library;
pub mod text;

use crate::ast::Ast;
use crate::pattern::regex_pattern_ok;
use crate::rules::compare_nan::{sp_compare_nan_diags, CompareNanLint};
use crate::rules::high_cyclomatic_complexity::{sp_complexity_diags, HighCyclomaticComplexityConfig,
    HighCyclomaticComplexityLint};
use crate::rules::parenthese_conditions::{sp_paren_diags, ParentheseConditionsLint};
use crate::rules::roblox_suspicious_udim2_new::{sp_udim2_pass, UDim2ArgCountLint};
use crate::rules::standard_library::{spec_stdlib_diags, spec_tree_calls_ok, StandardLibraryLint};
use crate::rules::unscoped_variables::{sp_unscoped_diags, UnscopedVariablesConfig,
    UnscopedVariablesLint};
use crate::ast_util::visit::gathered_of;
use crate::ast_util::scopes::sp_ast_refs;
use crate::rules::{Context, Diagnostic, RuleError, Severity, SpecDiagnostic};
use crate::standard_library::StandardLibrary;

verus! {

/// An error that stops checker construction: the offending rule's name and
/// the underlying cause.
#[derive(Debug)]
pub struct CheckerError {
    pub name: String,
    pub problem: CheckerErrorProblem,
}

/// What went wrong while building one rule.
#[derive(Debug)]
pub enum CheckerErrorProblem {
    /// The rule's configuration payload was malformed.
    ConfigDeserializeError(RuleError),
    /// The rule rejected its configuration.
    RuleNewError(RuleError),
}

/// A user's override for one rule: `Allow` suppresses it entirely, `Deny`
/// forces its findings to errors, `Warn` to warnings.
#[derive(Clone, Copy, Debug, PartialEq, Eq, Structural)]
pub enum RuleVariation {
    Allow,
    Deny,
    Warn,
}

/// The per-rule configuration payloads the rules accept.
pub struct RuleConfigs {
    pub high_cyclomatic_complexity: Option<HighCyclomaticComplexityConfig>,
    pub unscoped_variables: Option<UnscopedVariablesConfig>,
}

/// The checker's configuration: per-rule payloads, per-rule variations by
/// rule name, and the name of the standard library to check against.
pub struct CheckerConfig {
    pub config: RuleConfigs,
    pub rules: Vec<(String, RuleVariation)>,
    pub std: String,
}

impl Default for CheckerConfig {
    /// No payloads, no overrides, the Lua 5.1 standard library.
    fn default() -> (r: Self)
        ensures
            r.config.high_cyclomatic_complexity is None,
            r.config.unscoped_variables is None,
            r.rules@ == Seq::<(String, RuleVariation)>::empty(),
            r.std@ == "lua51"@,
    {
        CheckerConfig {
            config: RuleConfigs { high_cyclomatic_complexity: None, unscoped_variables: None },
            rules: Vec::new(),
            std: "lua51".to_owned(),
        }
    }
}

/// One finding together with its effective severity.
#[derive(Debug)]
pub struct CheckerDiagnostic {
    pub diagnostic: Diagnostic,
    pub severity: Severity,
}

/// The mathematical shape of a tagged finding.
#[verifier::ext_equal]
pub ghost struct SpecCheckerDiagnostic {
    pub diagnostic: SpecDiagnostic,
    pub severity: Severity,
}

impl View for CheckerDiagnostic {
    type V = SpecCheckerDiagnostic;

    open spec fn view(&self) -> SpecCheckerDiagnostic {
        SpecCheckerDiagnostic { diagnostic: self.diagnostic@, severity: self.severity }
    }
}

impl DeepView for CheckerDiagnostic {
    type V = SpecCheckerDiagnostic;

    open spec fn deep_view(&self) -> SpecCheckerDiagnostic {
        self.view()
    }
}

/// The first variation configured for `name`, if any.
pub open spec fn sp_variation_of(rules: Seq<(String, RuleVariation)>, name: Seq<char>) -> Option<
    RuleVariation,
>
    decreases rules.len(),
{
    if rules.len() == 0 {
        None
    } else if rules[0].0@ == name {
        Some(rules[0].1)
    } else {
        sp_variation_of(rules.skip(1), name)
    }
}

/// The severity a rule's findings display with: its own severity without an
/// override, `Error` under `Deny`, `Warning` under `Warn`.
pub open spec fn sp_effective_severity(
    rules: Seq<(String, RuleVariation)>,
    name: Seq<char>,
    own: Severity,
) -> Severity {
    match sp_variation_of(rules, name) {
        None => own,
        Some(RuleVariation::Deny) => Severity::Error,
        Some(RuleVariation::Warn) => Severity::Warning,
        Some(RuleVariation::Allow) => own,
    }
}

/// Tags every finding of a rule with one severity.
pub open spec fn sp_tag(ds: Seq<SpecDiagnostic>, severity: Severity) -> Seq<
    SpecCheckerDiagnostic,
> {
    ds.map_values(|d: SpecDiagnostic| SpecCheckerDiagnostic { diagnostic: d, severity })
}

/// Looks up the first variation configured for `name`.
fn variation_of(rules: &Vec<(String, RuleVariation)>, name: &str) -> (r: Option<RuleVariation>)
    ensures
        r == sp_variation_of(rules@, name@),
{
    let wanted: String = name.to_owned();
    let mut i: usize = 0;
    assert(rules@.skip(0) =~= rules@);
    while i < rules.len()
        invariant
            i <= rules@.len(),
            sp_variation_of(rules@, name@) == sp_variation_of(rules@.skip(i as int), name@),
        decreases rules@.len() - i,
    {
        assert(rules@.skip(i as int)[0] == rules@[i as int]);
        assert(rules@.skip(i as int).skip(1) =~= rules@.skip(i + 1));
        if rules[i].0 == wanted {
            return Some(rules[i].1);
        }
        i += 1;
    }
    assert(rules@.skip(i as int) =~= Seq::<(String, RuleVariation)>::empty());
    None
}

/// The ignore pattern the unscoped-variables rule will run with.
pub open spec fn sp_effective_ignore_pattern(config: CheckerConfig) -> Seq<char> {
    match config.config.unscoped_variables {
        Some(c) => c.ignore_pattern@,
        None => "^_"@,
    }
}

/// The complexity maximum the complexity rule will run with.
pub open spec fn sp_effective_max_complexity(config: CheckerConfig) -> u16 {
    match config.config.high_cyclomatic_complexity {
        Some(c) => c.maximum_complexity,
        None => 40,
    }
}

/// Whether a rule with compiled-in severity `own` ends up enabled: an
/// explicit `Allow` disables it, and a compiled-in `Allow` severity leaves
/// it off unless an explicit variation turns it on.
pub open spec fn sp_rule_enabled(
    rules: Seq<(String, RuleVariation)>,
    name: Seq<char>,
    own: Severity,
) -> bool {
    match sp_variation_of(rules, name) {
        Some(RuleVariation::Allow) => false,
        Some(_) => true,
        None => own != Severity::Allow,
    }
}

/// The checker: the closed registry of rules, each present exactly when its
/// configuration leaves it enabled, beside the configuration and the shared
/// analysis context.
pub struct Checker {
    pub config: CheckerConfig,
    pub context: Context,
    pub compare_nan: Option<CompareNanLint>,
    pub high_cyclomatic_complexity: Option<HighCyclomaticComplexityLint>,
    pub incorrect_standard_library_use: Option<StandardLibraryLint>,
    pub parenthese_conditions: Option<ParentheseConditionsLint>,
    pub roblox_suspicious_udim2_new: Option<UDim2ArgCountLint>,
    pub unscoped_variables: Option<UnscopedVariablesLint>,
}

/// What `test_on` returns: the enabled rules' findings in registry order,
/// each tagged with its effective severity.
pub open spec fn sp_checker_diags(c: Checker, ast: Ast) -> Seq<SpecCheckerDiagnostic> {
    (if c.compare_nan is Some {
        sp_tag(
            sp_compare_nan_diags(gathered_of(ast).expressions),
            sp_effective_severity(c.config.rules@, "compare_nan"@, Severity::Error),
        )
    } else {
        Seq::empty()
    }) + (if c.high_cyclomatic_complexity is Some {
        sp_tag(
            sp_complexity_diags(
                gathered_of(ast).functions,
                c.high_cyclomatic_complexity->0.config.maximum_complexity,
            ),
            sp_effective_severity(
                c.config.rules@,
                "high_cyclomatic_complexity"@,
                Severity::Allow,
            ),
        )
    } else {
        Seq::empty()
    }) + (if c.incorrect_standard_library_use is Some {
        sp_tag(
            spec_stdlib_diags(c.context.standard_library, ast),
            sp_effective_severity(
                c.config.rules@,
                "incorrect_standard_library_use"@,
                Severity::Error,
            ),
        )
    } else {
        Seq::empty()
    }) + (if c.parenthese_conditions is Some {
        sp_tag(
            sp_paren_diags(gathered_of(ast).conditions),
            sp_effective_severity(c.config.rules@, "parenthese_conditions"@, Severity::Warning),
        )
    } else {
        Seq::empty()
    }) + (if c.roblox_suspicious_udim2_new is Some {
        sp_tag(
            sp_udim2_pass(c.context, ast),
            sp_effective_severity(
                c.config.rules@,
                "roblox_suspicious_udim2_new"@,
                Severity::Warning,
            ),
        )
    } else {
        Seq::empty()
    }) + (if c.unscoped_variables is Some {
        sp_tag(
            sp_unscoped_diags(
                sp_ast_refs(ast),
                Seq::empty(),
                c.unscoped_variables->0.ignore_pattern.pattern(),
                c.context.standard_library.globals@,
            ),
            sp_effective_severity(c.config.rules@, "unscoped_variables"@, Severity::Warning),
        )
    } else {
        Seq::empty()
    })
}

/// Moves a rule's findings into the output, tagged with one severity.
fn extend_tagged(out: &mut Vec<CheckerDiagnostic>, ds: Vec<Diagnostic>, severity: Severity)
    ensures
        final(out).deep_view() == old(out).deep_view() + sp_tag(ds.deep_view(), severity),
{
    let ghost dsd = ds.deep_view();
    let mut ds = ds;
    while ds.len() > 0
        invariant
            old(out).deep_view() + sp_tag(dsd, severity) == out.deep_view() + sp_tag(
                ds.deep_view(),
                severity,
            ),
        decreases ds@.len(),
    {
        let ghost before = ds.deep_view();
        let ghost oprev = out.deep_view();
        let d = ds.remove(0);
        out.push(CheckerDiagnostic { diagnostic: d, severity });
        proof {
            assert(ds.deep_view() =~= before.skip(1));
            assert(out.deep_view() =~= oprev.push(
                SpecCheckerDiagnostic { diagnostic: before[0], severity },
            ));
            assert(sp_tag(before, severity) =~= seq![
                SpecCheckerDiagnostic { diagnostic: before[0], severity },
            ] + sp_tag(before.skip(1), severity));
            assert(oprev + sp_tag(before, severity) =~= out.deep_view() + sp_tag(
                before.skip(1),
                severity,
            ));
        }
    }
    proof {
        assert(ds.deep_view() =~= Seq::<SpecDiagnostic>::empty());
        assert(sp_tag(Seq::empty(), severity) =~= Seq::<SpecCheckerDiagnostic>::empty());
        assert(out.deep_view() + Seq::<SpecCheckerDiagnostic>::empty() =~= out.deep_view());
    }
}

impl Checker {
    /// Builds the checker from its configuration: every rule marked `Allow`
    /// is left out; the complexity rule, whose own severity is `Allow`, is
    /// left out unless an explicit variation turns it on; an invalid ignore
    /// pattern for the unscoped-variables rule fails the whole construction
    /// with that rule's name.
    pub fn new(config: CheckerConfig, standard_library: StandardLibrary) -> (r: Result<
        Checker,
        CheckerError,
    >)
        ensures
            r is Ok <==> (!sp_rule_enabled(config.rules@, "unscoped_variables"@, Severity::Warning)
                || regex_pattern_ok(sp_effective_ignore_pattern(config))),
            r matches Ok(c) ==> {
                &&& c.config == config
                &&& c.context.standard_library == standard_library
                &&& (c.compare_nan is Some <==> sp_rule_enabled(
                    config.rules@,
                    "compare_nan"@,
                    Severity::Error,
                ))
                &&& (c.high_cyclomatic_complexity is Some <==> sp_rule_enabled(
                    config.rules@,
                    "high_cyclomatic_complexity"@,
                    Severity::Allow,
                ))
                &&& (c.high_cyclomatic_complexity matches Some(lint)
                    ==> lint.config.maximum_complexity == sp_effective_max_complexity(config))
                &&& (c.incorrect_standard_library_use is Some <==> sp_rule_enabled(
                    config.rules@,
                    "incorrect_standard_library_use"@,
                    Severity::Error,
                ))
                &&& (c.parenthese_conditions is Some <==> sp_rule_enabled(
                    config.rules@,
                    "parenthese_conditions"@,
                    Severity::Warning,
                ))
                &&& (c.roblox_suspicious_udim2_new is Some <==> sp_rule_enabled(
                    config.rules@,
                    "roblox_suspicious_udim2_new"@,
                    Severity::Warning,
                ))
                &&& (c.unscoped_variables is Some <==> sp_rule_enabled(
                    config.rules@,
                    "unscoped_variables"@,
                    Severity::Warning,
                ))
                &&& (c.unscoped_variables matches Some(lint) ==> lint.ignore_pattern.pattern()
                    == sp_effective_ignore_pattern(config))
            },
            r matches Err(e) ==> e.name@ == "unscoped_variables"@,
    {
        let compare_nan = match variation_of(&config.rules, "compare_nan") {
            Some(RuleVariation::Allow) => None,
            _ => match CompareNanLint::new(()) {
                Ok(lint) => Some(lint),
                Err(_) => None,
            },
        };
        let high_cyclomatic_complexity = match variation_of(
            &config.rules,
            "high_cyclomatic_complexity",
        ) {
            Some(RuleVariation::Allow) => None,
            None => None,
            Some(_) => {
                let rule_config = match &config.config.high_cyclomatic_complexity {
                    Some(c) => HighCyclomaticComplexityConfig {
                        maximum_complexity: c.maximum_complexity,
                    },
                    None => HighCyclomaticComplexityConfig::default(),
                };
                match HighCyclomaticComplexityLint::new(rule_config) {
                    Ok(lint) => Some(lint),
                    Err(_) => None,
                }
            },
        };
        let incorrect_standard_library_use = match variation_of(
            &config.rules,
            "incorrect_standard_library_use",
        ) {
            Some(RuleVariation::Allow) => None,
            _ => match StandardLibraryLint::new(()) {
                Ok(lint) => Some(lint),
                Err(_) => None,
            },
        };
        let parenthese_conditions = match variation_of(&config.rules, "parenthese_conditions") {
            Some(RuleVariation::Allow) => None,
            _ => match ParentheseConditionsLint::new(()) {
                Ok(lint) => Some(lint),
                Err(_) => None,
            },
        };
        let roblox_suspicious_udim2_new = match variation_of(
            &config.rules,
            "roblox_suspicious_udim2_new",
        ) {
            Some(RuleVariation::Allow) => None,
            _ => match UDim2ArgCountLint::new(()) {
                Ok(lint) => Some(lint),
                Err(_) => None,
            },
        };
        let unscoped_variables = match variation_of(&config.rules, "unscoped_variables") {
            Some(RuleVariation::Allow) => None,
            _ => {
                let rule_config = match &config.config.unscoped_variables {
                    Some(c) => UnscopedVariablesConfig {
                        ignore_pattern: c.ignore_pattern.clone(),
                    },
                    None => UnscopedVariablesConfig::default(),
                };
                match UnscopedVariablesLint::new(rule_config) {
                    Ok(lint) => Some(lint),
                    Err(error) => {
                        return Err(
                            CheckerError {
                                name: "unscoped_variables".to_owned(),
                                problem: CheckerErrorProblem::RuleNewError(error),
                            },
                        );
                    },
                }
            },
        };
        Ok(
            Checker {
                config,
                context: Context { standard_library },
                compare_nan,
                high_cyclomatic_complexity,
                incorrect_standard_library_use,
                parenthese_conditions,
                roblox_suspicious_udim2_new,
                unscoped_variables,
            },
        )
    }

    /// Runs every enabled rule over the tree, in the registry's fixed
    /// order, and tags each finding with its effective severity.
    pub fn test_on(&self, ast: &Ast) -> (r: Vec<CheckerDiagnostic>)
        requires
            self.incorrect_standard_library_use is Some ==> spec_tree_calls_ok(
                self.context.standard_library,
                *ast,
            ),
        ensures
            r.deep_view() == sp_checker_diags(*self, *ast),
    {
        let mut out: Vec<CheckerDiagnostic> = Vec::new();
        assert(out.deep_view() =~= Seq::<SpecCheckerDiagnostic>::empty());
        match &self.compare_nan {
            Some(rule) => {
                let ds = rule.pass(ast, &self.context);
                let severity = match variation_of(&self.config.rules, "compare_nan") {
                    None => rule.severity(),
                    Some(RuleVariation::Deny) => Severity::Error,
                    Some(RuleVariation::Warn) => Severity::Warning,
                    Some(RuleVariation::Allow) => rule.severity(),
                };
                extend_tagged(&mut out, ds, severity);
            },
            None => {},
        }
        match &self.high_cyclomatic_complexity {
            Some(rule) => {
                let ds = rule.pass(ast, &self.context);
                let severity = match variation_of(
                    &self.config.rules,
                    "high_cyclomatic_complexity",
                ) {
                    None => rule.severity(),
                    Some(RuleVariation::Deny) => Severity::Error,
                    Some(RuleVariation::Warn) => Severity::Warning,
                    Some(RuleVariation::Allow) => rule.severity(),
                };
                extend_tagged(&mut out, ds, severity);
            },
            None => {},
        }
        match &self.incorrect_standard_library_use {
            Some(rule) => {
                let ds = rule.pass(ast, &self.context);
                let severity = match variation_of(
                    &self.config.rules,
                    "incorrect_standard_library_use",
                ) {
                    None => rule.severity(),
                    Some(RuleVariation::Deny) => Severity::Error,
                    Some(RuleVariation::Warn) => Severity::Warning,
                    Some(RuleVariation::Allow) => rule.severity(),
                };
                extend_tagged(&mut out, ds, severity);
            },
            None => {},
        }
        match &self.parenthese_conditions {
            Some(rule) => {
                let ds = rule.pass(ast, &self.context);
                let severity = match variation_of(&self.config.rules, "parenthese_conditions") {
                    None => rule.severity(),
                    Some(RuleVariation::Deny) => Severity::Error,
                    Some(RuleVariation::Warn) => Severity::Warning,
                    Some(RuleVariation::Allow) => rule.severity(),
                };
                extend_tagged(&mut out, ds, severity);
            },
            None => {},
        }
        match &self.roblox_suspicious_udim2_new {
            Some(rule) => {
                let ds = rule.pass(ast, &self.context);
                let severity = match variation_of(
                    &self.config.rules,
                    "roblox_suspicious_udim2_new",
                ) {
                    None => rule.severity(),
                    Some(RuleVariation::Deny) => Severity::Error,
                    Some(RuleVariation::Warn) => Severity::Warning,
                    Some(RuleVariation::Allow) => rule.severity(),
                };
                extend_tagged(&mut out, ds, severity);
            },
            None => {},
        }
        match &self.unscoped_variables {
            Some(rule) => {
                let ds = rule.pass(ast, &self.context);
                let severity = match variation_of(&self.config.rules, "unscoped_variables") {
                    None => rule.severity(),
                    Some(RuleVariation::Deny) => Severity::Error,
                    Some(RuleVariation::Warn) => Severity::Warning,
                    Some(RuleVariation::Allow) => rule.severity(),
                };
                extend_tagged(&mut out, ds, severity);
            },
            None => {},
        }
        proof {
            assert(out.deep_view() =~= sp_checker_diags(*self, *ast));
        }
        out
    }
}

/// Severity override: whatever a rule's own severity, an explicit `Deny`
/// forces every finding of its segment to `Error`, and an explicit `Warn`
/// forces it to `Warning`.
pub proof fn lemma_severity_override(
    rules: Seq<(String, RuleVariation)>,
    name: Seq<char>,
    own: Severity,
    ds: Seq<SpecDiagnostic>,
)
    ensures
        sp_variation_of(rules, name) == Some(RuleVariation::Deny) ==> forall|j: int|
            0 <= j < ds.len() ==> sp_tag(ds, sp_effective_severity(rules, name, own))[j].severity
                == Severity::Error,
        sp_variation_of(rules, name) == Some(RuleVariation::Warn) ==> forall|j: int|
            0 <= j < ds.len() ==> sp_tag(ds, sp_effective_severity(rules, name, own))[j].severity
                == Severity::Warning,
{
}

/// The data-model invariant of every finding: its primary range is a
/// half-open byte interval with an ordered pair of endpoints. The ranges
/// are copied from tree node spans and never recomputed, so the invariant
/// holds whenever the tree's spans are ordered: every gathered expression,
/// condition, call and reference span, and every function definition
/// starting no later than its parameter list ends.
pub proof fn lemma_checker_label_ranges(c: Checker, ast: Ast)
    requires
        forall|i: int|
            0 <= i < gathered_of(ast).expressions.len() ==> (#[trigger] gathered_of(
                ast,
            ).expressions[i]).span.0 <= gathered_of(ast).expressions[i].span.1,
        forall|i: int|
            0 <= i < gathered_of(ast).conditions.len() ==> (#[trigger] gathered_of(
                ast,
            ).conditions[i]).span.0 <= gathered_of(ast).conditions[i].span.1,
        forall|i: int|
            0 <= i < gathered_of(ast).functions.len() ==> (#[trigger] gathered_of(
                ast,
            ).functions[i]).0 <= gathered_of(ast).functions[i].1.params_span.1,
        forall|i: int|
            0 <= i < sp_ast_refs(ast).len() ==> (#[trigger] sp_ast_refs(
                ast,
            )[i]).identifier.0 <= sp_ast_refs(ast)[i].identifier.1,
        forall|i: int|
            0 <= i < gathered_of(ast).calls.len() ==> crate::rules::standard_library::spec_call_ok(
                #[trigger] gathered_of(ast).calls[i],
            ) && crate::rules::standard_library::sp_call_spans_ok(gathered_of(ast).calls[i]),
    ensures
        forall|j: int|
            0 <= j < sp_checker_diags(c, ast).len() ==> (#[trigger] sp_checker_diags(
                c,
                ast,
            )[j]).diagnostic.primary_label.range.0 <= sp_checker_diags(
                c,
                ast,
            )[j].diagnostic.primary_label.range.1,
{
    crate::rules::compare_nan::lemma_nan_label_ranges(gathered_of(ast).expressions);
    if c.high_cyclomatic_complexity is Some {
        crate::rules::high_cyclomatic_complexity::lemma_complexity_label_ranges(
            gathered_of(ast).functions,
            c.high_cyclomatic_complexity->0.config.maximum_complexity,
        );
    }
    crate::rules::standard_library::lemma_stdlib_label_ranges(
        c.context.standard_library,
        gathered_of(ast).calls,
    );
    crate::rules::parenthese_conditions::lemma_paren_label_ranges(gathered_of(ast).conditions);
    crate::rules::roblox_suspicious_udim2_new::lemma_udim2_label_ranges(gathered_of(ast).calls);
    if c.unscoped_variables is Some {
        crate::rules::unscoped_variables::lemma_unscoped_label_ranges(
            sp_ast_refs(ast),
            Seq::empty(),
            c.unscoped_variables->0.ignore_pattern.pattern(),
            c.context.standard_library.globals@,
        );
    }
}

/// Configuring a rule `Allow` suppresses it entirely: construction leaves
/// its slot empty, and a checker whose slots are all empty reports nothing
/// on any tree.
pub proof fn lemma_allow_suppresses(c: Checker, ast: Ast)
    requires
        c.compare_nan is None,
        c.high_cyclomatic_complexity is None,
        c.incorrect_standard_library_use is None,
        c.parenthese_conditions is None,
        c.roblox_suspicious_udim2_new is None,
        c.unscoped_variables is None,
    ensures
        sp_checker_diags(c, ast) == Seq::<SpecCheckerDiagnostic>::empty(),
{
    assert(sp_checker_diags(c, ast) =~= Seq::<SpecCheckerDiagnostic>::empty());
}

} // verus!
