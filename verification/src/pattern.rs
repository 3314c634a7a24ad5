//! Regular expressions over entry names.

use vstd::prelude::*;

verus! {

/// `regex::Regex`, a compiled regular expression. Nothing is known of what
/// is inside.
#[verifier::external_type_specification]
#[verifier::external_body]
pub struct ExRegex(regex::Regex);

/// `regex::Error`, the reason why an expression did not compile. Nothing is
/// known of what is inside.
#[verifier::external_type_specification]
#[verifier::external_body]
pub struct ExRegexError(regex::Error);

/// Whether the regular expression `source` matches somewhere in `text`.
pub uninterp spec fn regex_matches(source: Seq<char>, text: Seq<char>) -> bool;

/// A compiled regular expression together with the text it was compiled
/// from. The two are private, and only `compile` makes a pattern, so that the
/// compiled form always belongs to the source.
pub struct Pattern {
    source: String,
    compiled: regex::Regex,
}

impl Pattern {
    /// The text that the pattern was compiled from.
    pub closed spec fn source(&self) -> Seq<char> {
        self.source@
    }

    /// Compiles `source` with `regex::Regex::new`.
    ///
    /// Trusted: a pattern that was made keeps `source` as its text. Whether
    /// one is made is for the compiler of expressions to say, and it does not
    /// go by the text alone: it refuses an expression whose compiled form is
    /// larger than a limit, and measures that form in bytes as this machine
    /// lays it out.
    #[verifier::external_body]
    pub(crate) fn compile(source: String) -> (outcome: Result<Pattern, regex::Error>)
        ensures
            outcome is Ok ==> outcome->Ok_0.source() == source@,
    {
        match regex::Regex::new(source.as_str()) {
            Ok(compiled) => Ok(Pattern { source, compiled }),
            Err(error) => Err(error),
        }
    }

    /// Searches `text` with `regex::Regex::is_match`.
    ///
    /// Trusted: the answer is that of the expression the pattern was compiled
    /// from, which `is_match` gives for a match anywhere in `text`.
    #[verifier::external_body]
    pub(crate) fn search(&self, text: &str) -> (found: bool)
        ensures
            found == regex_matches(self.source(), text@),
    {
        self.compiled.is_match(text)
    }
}

} // verus!
