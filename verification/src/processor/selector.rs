//! Picking the first segment of a sequence that a pattern matches.

use crate::error::Error;
use crate::patterns::{pattern_valid, re_is_match, regex_compiles, regex_is_match};
use vstd::prelude::*;

verus! {

/// A pattern that picks one segment out of the segment sequence.
#[derive(Debug)]
pub struct Selector {
    name: Option<String>,
    pattern: String,
}

/// The mathematical content of a [`Selector`]: its optional name and its
/// pattern text.
pub ghost struct SelectorView {
    /// The optional name.
    pub name: Option<Seq<char>>,
    /// The pattern's characters.
    pub pattern: Seq<char>,
}

impl View for Selector {
    type V = SelectorView;

    closed spec fn view(&self) -> SelectorView {
        SelectorView { name: self.name.deep_view(), pattern: self.pattern@ }
    }
}

impl DeepView for Selector {
    type V = SelectorView;

    open spec fn deep_view(&self) -> SelectorView {
        self.view()
    }
}

/// The first segment the pattern matches, scanning from the lowest index.
pub open spec fn spec_match_segment(p: Seq<char>, segs: Seq<Seq<char>>) -> Option<Seq<char>>
    decreases segs.len(),
{
    if segs.len() == 0 {
        None
    } else if re_is_match(p, segs[0]) {
        Some(segs[0])
    } else {
        spec_match_segment(p, segs.skip(1))
    }
}

/// What a selector returns is the matching segment of lowest index: some
/// segment matches exactly when the result is that of the lowest matching
/// index, and an empty or match-free sequence yields nothing.
pub proof fn lemma_match_segment_lowest(p: Seq<char>, segs: Seq<Seq<char>>)
    ensures
        spec_match_segment(p, segs) is None <==> (forall|i: int|
            0 <= i < segs.len() ==> !re_is_match(p, #[trigger] segs[i])),
        spec_match_segment(p, segs) matches Some(s) ==> exists|i: int|
            0 <= i < segs.len() && re_is_match(p, #[trigger] segs[i]) && s == segs[i] && (forall|
                j: int,
            |
                0 <= j < i ==> !re_is_match(p, #[trigger] segs[j])),
    decreases segs.len(),
{
    if segs.len() == 0 {
    } else if re_is_match(p, segs[0]) {
    } else {
        lemma_match_segment_lowest(p, segs.skip(1));
        assert(forall|i: int|
            1 <= i < segs.len() ==> #[trigger] segs[i] == segs.skip(1)[i - 1]);
        if spec_match_segment(p, segs.skip(1)) is Some {
            let s = spec_match_segment(p, segs.skip(1)).unwrap();
            let i = choose|i: int|
                0 <= i < segs.skip(1).len() && re_is_match(p, #[trigger] segs.skip(1)[i]) && s
                    == segs.skip(1)[i] && (forall|j: int|
                    0 <= j < i ==> !re_is_match(p, #[trigger] segs.skip(1)[j]));
            assert(0 <= i + 1 < segs.len() && re_is_match(p, segs[i + 1]) && s == segs[i + 1]
                && (forall|j: int| 0 <= j < i + 1 ==> !re_is_match(p, #[trigger] segs[j])));
        }
    }
}

impl Selector {
    #[verifier::type_invariant]
    spec fn inv(self) -> bool {
        pattern_valid(self.pattern@)
    }

    /// Creates a new [`Selector`]; a pattern that does not compile is
    /// rejected.
    pub fn new(name: Option<String>, pattern: &str) -> (r: Result<Self, Error>)
        ensures
            r is Ok <==> pattern_valid(pattern@),
            (r matches Ok(s) ==> s@ == (SelectorView {
                name: name.deep_view(),
                pattern: pattern@,
            })),
            (r matches Err(e) ==> (e matches Error::InvalidPattern(p) && p@ == pattern@)),
    {
        if regex_compiles(pattern) {
            Ok(Selector { name, pattern: pattern.to_owned() })
        } else {
            Err(Error::InvalidPattern(pattern.to_owned()))
        }
    }

    /// True when the pattern matches anywhere within `segment`.
    pub fn is_match(&self, segment: &str) -> (r: bool)
        ensures
            r == re_is_match(self@.pattern, segment@),
    {
        proof {
            use_type_invariant(self);
        }
        regex_is_match(self.pattern.as_str(), segment)
    }

    /// The first segment, by lowest index, that the pattern matches.
    pub fn match_segment(&self, segments: &Vec<String>) -> (r: Option<String>)
        ensures
            r.deep_view() == spec_match_segment(self@.pattern, segments.deep_view()),
    {
        let ghost all = segments.deep_view();
        let mut k: usize = 0;
        proof {
            assert(all.skip(0) =~~= all);
        }
        while k < segments.len()
            invariant
                0 <= k <= segments@.len(),
                all == segments.deep_view(),
                spec_match_segment(self@.pattern, all) == spec_match_segment(
                    self@.pattern,
                    all.skip(k as int),
                ),
            decreases segments@.len() - k,
        {
            let ghost tail = all.skip(k as int);
            if self.is_match(segments[k].as_str()) {
                assert(tail[0] == all[k as int]);
                return Some(segments[k].clone());
            }
            proof {
                assert(tail[0] == all[k as int]);
                assert(tail.skip(1) =~~= all.skip(k + 1));
            }
            k = k + 1;
        }
        proof {
            assert(all.skip(k as int) =~~= Seq::<Seq<char>>::empty());
        }
        None
    }
}

} // verus!
