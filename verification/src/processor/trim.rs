//! Removing a configured literal pattern from the ends of a segment.

use crate::chars::{
    chars_of, matches_back, matches_front, spec_trim_left, spec_trim_right, string_from_chars,
    trim_left_chars, trim_right_chars,
};
use vstd::prelude::*;

verus! {

/// The end of the value a [`Trim`] works on.
#[derive(Debug, Copy, Clone, PartialEq, Eq)]
pub enum TrimType {
    /// Remove the pattern from the front only.
    Left,
    /// Remove the pattern from the back only.
    Right,
    /// Remove the pattern from the front, then from the back.
    Both,
}

/// A literal pattern to be removed, repeatedly, from one or both ends of each
/// segment.
#[derive(Debug)]
pub struct Trim {
    side: TrimType,
    pattern: String,
}

/// The mathematical content of a [`Trim`]: its side and pattern text.
pub ghost struct TrimView {
    /// The end worked on.
    pub side: TrimType,
    /// The pattern's characters.
    pub pattern: Seq<char>,
}

impl View for Trim {
    type V = TrimView;

    closed spec fn view(&self) -> TrimView {
        TrimView { side: self.side, pattern: self.pattern@ }
    }
}

impl DeepView for Trim {
    type V = TrimView;

    open spec fn deep_view(&self) -> TrimView {
        self.view()
    }
}

/// One value trimmed as `side` and `p` direct.
pub open spec fn spec_trim_value(side: TrimType, p: Seq<char>, s: Seq<char>) -> Seq<char> {
    match side {
        TrimType::Left => spec_trim_left(s, p),
        TrimType::Right => spec_trim_right(s, p),
        TrimType::Both => spec_trim_right(spec_trim_left(s, p), p),
    }
}

/// A whole segment sequence trimmed element-wise.
pub open spec fn spec_trim_slice(t: TrimView, vs: Seq<Seq<char>>) -> Seq<Seq<char>> {
    vs.map_values(|s: Seq<char>| spec_trim_value(t.side, t.pattern, s))
}

/// A trim whose pattern does not occur at the end it inspects leaves the
/// value unchanged.
pub proof fn lemma_trim_identity(t: TrimView, v: Seq<char>)
    requires
        t.side is Left ==> !matches_front(v, t.pattern),
        t.side is Right ==> !matches_back(v, t.pattern),
        t.side is Both ==> !matches_front(v, t.pattern) && !matches_back(v, t.pattern),
    ensures
        spec_trim_value(t.side, t.pattern, v) == v,
{
    match t.side {
        TrimType::Left => {
            assert(spec_trim_left(v, t.pattern) == v);
        },
        TrimType::Right => {
            assert(spec_trim_right(v, t.pattern) == v);
        },
        TrimType::Both => {
            assert(spec_trim_left(v, t.pattern) == v);
            assert(spec_trim_right(v, t.pattern) == v);
        },
    }
}

impl Trim {
    /// A [`Trim`] that removes the pattern from both ends of a value.
    pub fn both(pattern: &str) -> (r: Self)
        ensures
            r@ == (TrimView { side: TrimType::Both, pattern: pattern@ }),
    {
        Trim { side: TrimType::Both, pattern: pattern.to_owned() }
    }

    /// A [`Trim`] that removes the pattern from the front of a value.
    pub fn left(pattern: &str) -> (r: Self)
        ensures
            r@ == (TrimView { side: TrimType::Left, pattern: pattern@ }),
    {
        Trim { side: TrimType::Left, pattern: pattern.to_owned() }
    }

    /// A [`Trim`] that removes the pattern from the back of a value.
    pub fn right(pattern: &str) -> (r: Self)
        ensures
            r@ == (TrimView { side: TrimType::Right, pattern: pattern@ }),
    {
        Trim { side: TrimType::Right, pattern: pattern.to_owned() }
    }

    /// Removes the pattern, repeatedly, from the configured end(s) of `value`.
    pub fn trim(&self, value: &str) -> (r: String)
        ensures
            r@ == spec_trim_value(self@.side, self@.pattern, value@),
    {
        let v = chars_of(value);
        let p = chars_of(self.pattern.as_str());
        let trimmed = match self.side {
            TrimType::Left => trim_left_chars(&v, &p),
            TrimType::Right => trim_right_chars(&v, &p),
            TrimType::Both => trim_right_chars(&trim_left_chars(&v, &p), &p),
        };
        string_from_chars(&trimmed)
    }

    /// Trims every value of the slice, preserving order and length.
    pub fn trim_slice(&self, values: &Vec<String>) -> (r: Vec<String>)
        ensures
            r.deep_view() == spec_trim_slice(self@, values.deep_view()),
    {
        let mut r: Vec<String> = Vec::new();
        let mut k: usize = 0;
        while k < values.len()
            invariant
                0 <= k <= values@.len(),
                r.deep_view() == spec_trim_slice(self@, values.deep_view().take(k as int)),
            decreases values@.len() - k,
        {
            let ghost before = r.deep_view();
            r.push(self.trim(values[k].as_str()));
            proof {
                assert(r.deep_view() =~~= before.push(
                    spec_trim_value(self@.side, self@.pattern, values@[k as int]@),
                ));
                assert(r.deep_view() =~~= spec_trim_slice(
                    self@,
                    values.deep_view().take(k + 1),
                ));
            }
            k = k + 1;
        }
        assert(r.deep_view() =~~= spec_trim_slice(self@, values.deep_view()));
        r
    }
}

} // verus!
