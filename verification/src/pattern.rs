//! A compiled text pattern, used for configurable ignore lists. The
//! matching itself is done by the regex crate; this module wraps it behind
//! contracts over the pattern and haystack texts.

use vstd::prelude::*;

verus! {

/// Whether `pattern` is a valid pattern: exactly the texts the regex crate
/// compiles.
pub uninterp spec fn regex_pattern_ok(pattern: Seq<char>) -> bool;

/// Whether the pattern matches anywhere in `text`. Matching is a function
/// of the pattern and haystack texts alone.
pub uninterp spec fn regex_accepts(pattern: Seq<char>, text: Seq<char>) -> bool;

#[verifier::external_type_specification]
#[verifier::external_body]
pub struct ExRegex(regex::Regex);

/// A compiled pattern together with the text it was compiled from.
pub struct CompiledPattern {
    re: regex::Regex,
    text: String,
}

impl CompiledPattern {
    /// The text this pattern was compiled from.
    pub closed spec fn pattern(&self) -> Seq<char> {
        self.text@
    }

    /// Relies on regex::Regex::new: compilation succeeds for exactly the
    /// texts that are valid patterns, and the compiled value matches
    /// according to the text it was compiled from.
    #[verifier::external_body]
    pub fn compile(pattern: &str) -> (r: Result<CompiledPattern, String>)
        ensures
            r is Ok <==> regex_pattern_ok(pattern@),
            r matches Ok(p) ==> p.pattern() == pattern@,
    {
        match regex::Regex::new(pattern) {
            Ok(re) => Ok(CompiledPattern { re, text: pattern.to_string() }),
            Err(e) => Err(e.to_string()),
        }
    }

    /// Relies on regex::Regex::is_match: whether there is a match anywhere
    /// in `text`, decided by the pattern and haystack texts alone.
    #[verifier::external_body]
    pub fn is_match(&self, text: &str) -> (r: bool)
        ensures
            r == regex_accepts(self.pattern(), text@),
    {
        self.re.is_match(text)
    }
}

} // verus!
