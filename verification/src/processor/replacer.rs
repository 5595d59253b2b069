//! Replacing every pattern match in a segment with a fixed substitution.

use crate::error::Error;
use crate::patterns::{pattern_valid, re_replace_all, regex_compiles, regex_replace_all};
use vstd::prelude::*;

verus! {

/// A pattern whose matches are replaced by a fixed literal substitute.
#[derive(Debug)]
pub struct Replacer {
    pattern: String,
    substitute: String,
}

/// The mathematical content of a [`Replacer`]: its pattern and substitute
/// texts.
pub ghost struct ReplacerView {
    /// The pattern's characters.
    pub pattern: Seq<char>,
    /// The substitute's characters.
    pub substitute: Seq<char>,
}

impl View for Replacer {
    type V = ReplacerView;

    closed spec fn view(&self) -> ReplacerView {
        ReplacerView { pattern: self.pattern@, substitute: self.substitute@ }
    }
}

impl DeepView for Replacer {
    type V = ReplacerView;

    open spec fn deep_view(&self) -> ReplacerView {
        self.view()
    }
}

/// One value with every match of the pattern replaced.
pub open spec fn spec_replace_value(r: ReplacerView, s: Seq<char>) -> Seq<char> {
    re_replace_all(r.pattern, s, r.substitute)
}

/// A whole segment sequence rewritten element-wise.
pub open spec fn spec_replace_slice(r: ReplacerView, vs: Seq<Seq<char>>) -> Seq<Seq<char>> {
    vs.map_values(|s: Seq<char>| spec_replace_value(r, s))
}

impl Replacer {
    #[verifier::type_invariant]
    spec fn inv(self) -> bool {
        pattern_valid(self.pattern@)
    }

    /// Creates a new [`Replacer`]; a pattern that does not compile is
    /// rejected.
    pub fn new(pattern: &str, substitute: &str) -> (r: Result<Self, Error>)
        ensures
            r is Ok <==> pattern_valid(pattern@),
            (r matches Ok(rep) ==> rep@ == (ReplacerView {
                pattern: pattern@,
                substitute: substitute@,
            })),
            (r matches Err(e) ==> (e matches Error::InvalidPattern(p) && p@ == pattern@)),
    {
        if regex_compiles(pattern) {
            Ok(Replacer { pattern: pattern.to_owned(), substitute: substitute.to_owned() })
        } else {
            Err(Error::InvalidPattern(pattern.to_owned()))
        }
    }

    /// Replaces every match of the pattern in `value` with the substitute.
    pub fn replace(&self, value: &str) -> (r: String)
        ensures
            r@ == spec_replace_value(self@, value@),
    {
        proof {
            use_type_invariant(self);
        }
        regex_replace_all(self.pattern.as_str(), value, self.substitute.as_str())
    }

    /// Replaces matches in every value of the slice, preserving order and
    /// length.
    pub fn replace_slice(&self, values: &Vec<String>) -> (r: Vec<String>)
        ensures
            r.deep_view() == spec_replace_slice(self@, values.deep_view()),
    {
        let mut r: Vec<String> = Vec::new();
        let mut k: usize = 0;
        while k < values.len()
            invariant
                0 <= k <= values@.len(),
                r.deep_view() == spec_replace_slice(self@, values.deep_view().take(k as int)),
            decreases values@.len() - k,
        {
            let ghost before = r.deep_view();
            r.push(self.replace(values[k].as_str()));
            proof {
                assert(r.deep_view() =~~= before.push(
                    spec_replace_value(self@, values@[k as int]@),
                ));
                assert(r.deep_view() =~~= spec_replace_slice(
                    self@,
                    values.deep_view().take(k + 1),
                ));
            }
            k = k + 1;
        }
        assert(r.deep_view() =~~= spec_replace_slice(self@, values.deep_view()));
        r
    }
}

} // verus!
