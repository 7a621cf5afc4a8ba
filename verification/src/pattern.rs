//! The per-agent filter: a compiled regular expression, with a permissive
//! default when an agent configures none.

use vstd::prelude::*;

use crate::errors::SyncError;

verus! {

#[verifier::external_type_specification]
#[verifier::external_body]
pub struct ExRegex(regex::Regex);

/// Whether the regular expression written `pattern` matches anywhere inside
/// `text`. This names the result of `regex::Regex::is_match`, which is a
/// function of the pattern and the text alone.
pub uninterp spec fn regex_match(pattern: Seq<char>, text: Seq<char>) -> bool;

/// A compiled pattern, kept together with the text it was compiled from so
/// that contracts can speak about the pattern. Only `compile` builds one,
/// which is what ties the compiled expression to the recorded text.
#[derive(Debug)]
pub struct PatternMatcher {
    re: regex::Regex,
    source: String,
}

impl PatternMatcher {
    /// The pattern text this matcher was compiled from.
    pub closed spec fn pattern(self) -> Seq<char> {
        self.source@
    }

    /// Relies on `regex::Regex::new`: on success the returned value decides
    /// exactly the language of the pattern it was handed; on a malformed
    /// pattern it reports a configuration error.
    #[verifier::external_body]
    pub fn compile(pattern: &str) -> (r: Result<PatternMatcher, SyncError>)
        ensures
            r matches Ok(m) ==> m.pattern() == pattern@,
    {
        match regex::Regex::new(pattern) {
            Ok(re) => Ok(PatternMatcher { re, source: pattern.to_owned() }),
            Err(e) => Err(SyncError::ConfigurationError(format!("{e}"))),
        }
    }

    /// Relies on `regex::Regex::is_match`: whether the pattern matches
    /// anywhere in `key`, a function of the pattern and the key alone.
    #[verifier::external_body]
    pub fn is_match(&self, key: &str) -> (r: bool)
        ensures
            r == regex_match(self.pattern(), key@),
    {
        self.re.is_match(key)
    }
}

} // verus!
