//! Regular expressions that tool authors attach to string parameters,
//! compiled and run by the `regex` crate.
use vstd::prelude::*;

verus! {

#[verifier::external_type_specification]
#[verifier::external_body]
pub struct ExRegex(regex::Regex);

/// What compiling `pattern` with `regex::Regex::new` gives: `None` when it
/// compiles, otherwise the display text of the error.
pub uninterp spec fn regex_compile_error(pattern: Seq<char>) -> Option<Seq<char>>;

/// Whether the compiled `pattern` matches somewhere in `text`
/// (`regex::Regex::is_match`).
pub uninterp spec fn regex_finds_match(pattern: Seq<char>, text: Seq<char>) -> bool;

/// A pattern together with the expression compiled from it.
pub struct CompiledPattern {
    pattern: String,
    regex: regex::Regex,
}

impl CompiledPattern {
    /// The pattern the expression was compiled from.
    pub closed spec fn source(&self) -> Seq<char> {
        self.pattern@
    }
}

/// Compiles `pattern` with `regex::Regex::new`.  The contract claims that
/// compiling succeeds exactly when [`regex_compile_error`] is `None`, that
/// a failure carries that text, and that the result remembers `pattern`.
#[verifier::external_body]
pub(crate) fn compile_pattern(pattern: &str) -> (r: Result<CompiledPattern, String>)
    ensures
        match r {
            Ok(c) => regex_compile_error(pattern@) is None && c.source() == pattern@,
            Err(m) => regex_compile_error(pattern@) == Some(m@),
        },
{
    match regex::Regex::new(pattern) {
        Ok(regex) => Ok(CompiledPattern { pattern: pattern.to_string(), regex }),
        Err(error) => Err(error.to_string()),
    }
}

/// Runs a compiled pattern on `text` with `regex::Regex::is_match`.  The
/// contract claims that the answer is [`regex_finds_match`] of the
/// pattern's source and the text.
#[verifier::external_body]
pub(crate) fn pattern_matches(compiled: &CompiledPattern, text: &str) -> (r: bool)
    ensures
        r == regex_finds_match(compiled.source(), text@),
{
    compiled.regex.is_match(text)
}

} // verus!
