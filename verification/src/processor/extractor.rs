//! Pulling the first pattern match out of the original, unsplit input.

use crate::error::Error;
use crate::patterns::{pattern_valid, re_first_match, regex_compiles, regex_find};
use vstd::prelude::*;

verus! {

/// A pattern applied to the original input value, before segmentation.
#[derive(Debug)]
pub struct Extractor {
    name: Option<String>,
    pattern: String,
}

/// The mathematical content of an [`Extractor`]: its optional name and its
/// pattern text.
pub ghost struct ExtractorView {
    /// The optional name.
    pub name: Option<Seq<char>>,
    /// The pattern's characters.
    pub pattern: Seq<char>,
}

impl View for Extractor {
    type V = ExtractorView;

    closed spec fn view(&self) -> ExtractorView {
        ExtractorView { name: self.name.deep_view(), pattern: self.pattern@ }
    }
}

impl DeepView for Extractor {
    type V = ExtractorView;

    open spec fn deep_view(&self) -> ExtractorView {
        self.view()
    }
}

impl Extractor {
    #[verifier::type_invariant]
    spec fn inv(self) -> bool {
        pattern_valid(self.pattern@)
    }

    /// Creates a new [`Extractor`]; a pattern that does not compile is
    /// rejected.
    pub fn new(name: Option<String>, pattern: &str) -> (r: Result<Self, Error>)
        ensures
            r is Ok <==> pattern_valid(pattern@),
            (r matches Ok(e) ==> e@ == (ExtractorView {
                name: name.deep_view(),
                pattern: pattern@,
            })),
            (r matches Err(e) ==> (e matches Error::InvalidPattern(p) && p@ == pattern@)),
    {
        if regex_compiles(pattern) {
            Ok(Extractor { name, pattern: pattern.to_owned() })
        } else {
            Err(Error::InvalidPattern(pattern.to_owned()))
        }
    }

    /// The leftmost match of the pattern in `value`, if any.
    pub fn extract(&self, value: &str) -> (r: Option<String>)
        ensures
            r.deep_view() == re_first_match(self@.pattern, value@),
    {
        proof {
            use_type_invariant(self);
        }
        regex_find(self.pattern.as_str(), value)
    }
}

} // verus!
