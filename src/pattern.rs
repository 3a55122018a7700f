//! Regular expressions, compiled and run by the `regex` crate.
use vstd::prelude::*;

verus! {

#[verifier::external_type_specification]
#[verifier::external_body]
pub struct ExRegex(regex::Regex);

#[verifier::external_type_specification]
#[verifier::external_body]
pub struct ExRegexError(regex::Error);

/// Whether `regex` accepts `pattern` under its default limits.
pub uninterp spec fn regex_compiles(pattern: Seq<char>) -> bool;

/// Whether the regular expression `pattern` matches somewhere in `text`.
pub uninterp spec fn regex_is_match(pattern: Seq<char>, text: Seq<char>) -> bool;

/// A pattern that failed to compile.
pub struct SgRegexError {
    pub pattern: String,
}

/// A compiled regular expression together with its source pattern.
pub struct SgRegex {
    pattern: String,
    compiled: regex::Regex,
}

/// Relies on `regex::Regex::new`: whether compilation succeeds depends on
/// the pattern alone.
#[verifier::external_body]
fn compile(pattern: &str) -> (r: Result<regex::Regex, regex::Error>)
    ensures
        r.is_ok() == regex_compiles(pattern@),
{
    regex::Regex::new(pattern)
}

impl SgRegex {
    /// The source pattern.
    pub closed spec fn view(&self) -> Seq<char> {
        self.pattern@
    }

    pub fn new(pattern: &str) -> (r: Result<SgRegex, SgRegexError>)
        ensures
            r.is_ok() == regex_compiles(pattern@),
            r matches Ok(re) ==> re@ == pattern@,
            r matches Err(e) ==> e.pattern@ == pattern@,
    {
        match compile(pattern) {
            Ok(compiled) => Ok(SgRegex { pattern: pattern.to_owned(), compiled }),
            Err(_) => Err(SgRegexError { pattern: pattern.to_owned() }),
        }
    }

    pub fn as_str(&self) -> (r: &str)
        ensures
            r@ == self@,
    {
        self.pattern.as_str()
    }

    /// Relies on `regex::Regex::is_match`: whether the pattern matches
    /// anywhere in `text`. `compiled` is always the compilation of `pattern`,
    /// since `new` is the only constructor.
    #[verifier::external_body]
    pub fn is_match(&self, text: &str) -> (r: bool)
        ensures
            r == regex_is_match(self@, text@),
    {
        self.compiled.is_match(text)
    }
}

} // verus!
