//! Splitting an input value into segments, by a literal substring or by a
//! compiled pattern.

use crate::chars::{
    chars_of, lemma_lit_split_join, lit_split_chars, spec_join, spec_lit_split, strings_from_parts,
};
use crate::error::Error;
use crate::patterns::{pattern_valid, re_split, regex_compiles, regex_split};
use vstd::prelude::*;

verus! {

/// How a [`Delimiter`]'s value is interpreted.
#[derive(Debug, Eq, PartialEq, Copy, Clone)]
pub enum DelimiterType {
    /// The value splits on exact substring occurrences.
    Literal,
    /// The value is compiled and splits on its matches.
    Pattern,
}

/// A delimiter that splits an input value into segments.
#[derive(Debug)]
pub struct Delimiter {
    kind: DelimiterType,
    value: String,
}

/// The mathematical content of a [`Delimiter`]: its kind and value text.
pub ghost struct DelimiterView {
    /// How the value is interpreted.
    pub kind: DelimiterType,
    /// The delimiter's characters.
    pub value: Seq<char>,
}

impl View for Delimiter {
    type V = DelimiterView;

    closed spec fn view(&self) -> DelimiterView {
        DelimiterView { kind: self.kind, value: self.value@ }
    }
}

impl DeepView for Delimiter {
    type V = DelimiterView;

    open spec fn deep_view(&self) -> DelimiterView {
        self.view()
    }
}

/// The segments a delimiter produces from one value.
pub open spec fn spec_split(d: DelimiterView, s: Seq<char>) -> Seq<Seq<char>> {
    match d.kind {
        DelimiterType::Literal => spec_lit_split(s, d.value),
        DelimiterType::Pattern => re_split(d.value, s),
    }
}

/// A literal delimiter's split loses nothing: joining the segments with the
/// delimiter value gives the input back.
pub proof fn lemma_literal_split_join(d: DelimiterView, s: Seq<char>)
    requires
        d.kind is Literal,
    ensures
        spec_join(spec_split(d, s), d.value) == s,
{
    lemma_lit_split_join(s, d.value);
}

impl Delimiter {
    #[verifier::type_invariant]
    spec fn inv(self) -> bool {
        self.kind is Pattern ==> pattern_valid(self.value@)
    }

    /// Creates a new [`Delimiter`]. A pattern delimiter whose value does not
    /// compile is rejected.
    pub fn new(value: &str, delimiter_type: DelimiterType) -> (r: Result<Self, Error>)
        ensures
            r is Ok <==> (delimiter_type is Literal || pattern_valid(value@)),
            (r matches Ok(d) ==> d@ == (DelimiterView { kind: delimiter_type, value: value@ })),
            (r matches Err(e) ==> (e matches Error::InvalidPattern(p) && p@ == value@)),
    {
        match delimiter_type {
            DelimiterType::Literal => Ok(
                Delimiter { kind: DelimiterType::Literal, value: value.to_owned() },
            ),
            DelimiterType::Pattern => {
                if regex_compiles(value) {
                    Ok(Delimiter { kind: DelimiterType::Pattern, value: value.to_owned() })
                } else {
                    Err(Error::InvalidPattern(value.to_owned()))
                }
            },
        }
    }

    /// Splits `input` into segments as the delimiter's configuration directs.
    pub fn split(&self, input: &str) -> (r: Vec<String>)
        ensures
            r.deep_view() == spec_split(self@, input@),
    {
        proof {
            use_type_invariant(self);
        }
        match self.kind {
            DelimiterType::Literal => {
                let v = chars_of(input);
                let d = chars_of(self.value.as_str());
                strings_from_parts(&lit_split_chars(&v, &d))
            },
            DelimiterType::Pattern => regex_split(self.value.as_str(), input),
        }
    }
}

impl Default for Delimiter {
    /// The default delimiter: a literal single space.
    fn default() -> (r: Self)
        ensures
            r@.kind is Literal,
            r@.value == " "@,
    {
        Delimiter { kind: DelimiterType::Literal, value: " ".to_owned() }
    }
}

} // verus!
