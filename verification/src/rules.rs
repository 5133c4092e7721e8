//! The diagnostic data model shared by every rule, and the analysis context.

use vstd::prelude::*;
use crate::standard_library::StandardLibrary;

pub mod compare_nan;
pub mod high_cyclomatic_complexity;
pub mod parenthese_conditions;
pub mod roblox_suspicious_udim2_new;
pub mod unscoped_variables;
pub mod standard_library;

verus! {

/// What kind of problem a rule looks for. Informational only.
pub enum RuleType {
    /// Code that does something simple but in a complex way.
    Complexity,
    /// Code that is outright wrong or useless.
    Correctness,
    /// Code that can be written in a faster way.
    Performance,
    /// Code that should be written in a more idiomatic way.
    Style,
}

/// The display class of a diagnostic.
#[derive(Clone, Copy, Debug, PartialEq, Eq, Structural)]
pub enum Severity {
    Allow,
    Error,
    Warning,
}

/// Why a rule could not be built from its configuration.
#[derive(Debug)]
pub struct RuleError {
    pub message: String,
}

/// A span of source text a diagnostic points at, with an optional message.
#[derive(Debug)]
pub struct Label {
    pub message: Option<String>,
    pub range: (u32, u32),
}

impl Label {
    /// A label over `range` with no message.
    pub fn new(range: (u32, u32)) -> (r: Label)
        ensures
            r.range == range,
            r.message is None,
    {
        Label { range, message: None }
    }

    /// A label over `range` carrying `message`.
    pub fn new_with_message(range: (u32, u32), message: String) -> (r: Label)
        ensures
            r.range == range,
            r.message == Some(message),
    {
        Label { range, message: Some(message) }
    }
}

/// The mathematical shape of a label: its message as a character sequence.
pub ghost struct SpecLabel {
    pub message: Option<Seq<char>>,
    pub range: (u32, u32),
}

impl View for Label {
    type V = SpecLabel;

    open spec fn view(&self) -> SpecLabel {
        SpecLabel {
            message: match self.message {
                Some(m) => Some(m@),
                None => None,
            },
            range: self.range,
        }
    }
}

impl DeepView for Label {
    type V = SpecLabel;

    open spec fn deep_view(&self) -> SpecLabel {
        self.view()
    }
}

/// The mathematical shape of a diagnostic: every string as a character
/// sequence.
#[verifier::ext_equal]
pub ghost struct SpecDiagnostic {
    pub code: Seq<char>,
    pub message: Seq<char>,
    pub notes: Seq<Seq<char>>,
    pub primary_label: SpecLabel,
    pub secondary_labels: Seq<SpecLabel>,
}

impl View for Diagnostic {
    type V = SpecDiagnostic;

    open spec fn view(&self) -> SpecDiagnostic {
        SpecDiagnostic {
            code: self.code@,
            message: self.message@,
            notes: self.notes.deep_view(),
            primary_label: self.primary_label@,
            secondary_labels: self.secondary_labels.deep_view(),
        }
    }
}

impl DeepView for Diagnostic {
    type V = SpecDiagnostic;

    open spec fn deep_view(&self) -> SpecDiagnostic {
        self.view()
    }
}

/// One finding of a rule: a stable machine code, a human message, the span
/// the finding is anchored on, and any further notes and labels.
#[derive(Debug)]
pub struct Diagnostic {
    pub code: String,
    pub message: String,
    pub notes: Vec<String>,
    pub primary_label: Label,
    pub secondary_labels: Vec<Label>,
}

impl Diagnostic {
    /// A diagnostic with no notes and no secondary labels.
    pub fn new(code: &str, message: String, primary_label: Label) -> (r: Diagnostic)
        ensures
            r.code@ == code@,
            r.message == message,
            r.primary_label == primary_label,
            r.notes@ == Seq::<String>::empty(),
            r.secondary_labels@ == Seq::<Label>::empty(),
    {
        Diagnostic {
            code: code.to_owned(),
            message,
            primary_label,
            notes: Vec::new(),
            secondary_labels: Vec::new(),
        }
    }

    /// A diagnostic with every field given.
    pub fn new_complete(
        code: &str,
        message: String,
        primary_label: Label,
        notes: Vec<String>,
        secondary_labels: Vec<Label>,
    ) -> (r: Diagnostic)
        ensures
            r.code@ == code@,
            r.message == message,
            r.primary_label == primary_label,
            r.notes == notes,
            r.secondary_labels == secondary_labels,
    {
        Diagnostic { code: code.to_owned(), message, notes, primary_label, secondary_labels }
    }

    /// The byte offset the diagnostic starts at.
    pub fn start_position(&self) -> (r: u32)
        ensures
            r == self.primary_label.range.0,
    {
        self.primary_label.range.0
    }
}

/// The read-only bundle every rule receives: the standard-library model.
pub struct Context {
    pub standard_library: StandardLibrary,
}

impl Context {
    /// Whether the loaded standard library is the Roblox one.
    pub fn is_roblox(&self) -> (r: bool)
        ensures
            r == self.spec_is_roblox(),
    {
        match &self.standard_library.meta {
            Some(meta) => match &meta.name {
                Some(name) => {
                    let roblox: String = "roblox".to_owned();
                    *name == roblox
                },
                None => false,
            },
            None => false,
        }
    }

    /// The standard library is the Roblox one when its metadata names it so.
    pub open spec fn spec_is_roblox(&self) -> bool {
        match self.standard_library.meta {
            Some(meta) => match meta.name {
                Some(name) => name@ == "roblox"@,
                None => false,
            },
            None => false,
        }
    }
}

} // verus!
