//! The format template: scanning a format string for `%[dse]<digits>%`
//! placeholders and recording, for each, its type letter and its number.

use crate::chars::{chars_of, string_from_chars, subrange_vec};
use crate::error::Error;
use vstd::prelude::*;

verus! {

/// The stage a format placeholder draws its replacement from.
#[derive(Debug, Copy, Clone, PartialEq, Eq)]
pub enum FormatType {
    /// Replaced by a segment, by index.
    Delimiter,
    /// Replaced by an extractor result, by index.
    Extractor,
    /// Replaced by a selector result, by index.
    Selector,
}

/// `c` is an ASCII digit.
pub open spec fn is_digit(c: char) -> bool {
    48 <= c as u32 && c as u32 <= 57
}

/// The numeric value of an ASCII digit.
pub open spec fn digit_val(c: char) -> int {
    c as u32 - 48
}

/// `c` is one of the placeholder type letters `d`, `s`, `e`.
pub open spec fn is_kind_char(c: char) -> bool {
    c == 'd' || c == 's' || c == 'e'
}

/// The stage a type letter stands for.
pub open spec fn kind_of_char(c: char) -> FormatType {
    if c == 'd' {
        FormatType::Delimiter
    } else if c == 's' {
        FormatType::Selector
    } else {
        FormatType::Extractor
    }
}

/// The value of an ASCII digit run read as a decimal number.
pub open spec fn digits_val(ds: Seq<char>) -> int
    decreases ds.len(),
{
    if ds.len() == 0 {
        0
    } else {
        digits_val(ds.take(ds.len() - 1)) * 10 + digit_val(ds.last())
    }
}

/// `s[i .. j]` is a whole placeholder: `%`, a type letter, at least one
/// digit, `%`.
pub open spec fn token_end(s: Seq<char>, i: int, j: int) -> bool {
    &&& 0 <= i
    &&& i + 4 <= j <= s.len()
    &&& s[i] == '%'
    &&& is_kind_char(s[i + 1])
    &&& s[j - 1] == '%'
    &&& forall|k: int| i + 2 <= k < j - 1 ==> is_digit(#[trigger] s[k])
}

/// A placeholder starts at position `i`.
pub open spec fn has_token_at(s: Seq<char>, i: int) -> bool {
    exists|j: int| token_end(s, i, j)
}

/// The end of the placeholder starting at `i`.
pub open spec fn the_token_end(s: Seq<char>, i: int) -> int {
    choose|j: int| token_end(s, i, j)
}

/// A placeholder starting at a given position ends at exactly one place: the
/// first `%` after its digits, since a digit is never `%`.
pub proof fn lemma_token_end_unique(s: Seq<char>, i: int, j1: int, j2: int)
    requires
        token_end(s, i, j1),
        token_end(s, i, j2),
    ensures
        j1 == j2,
{
    if j1 < j2 {
        assert(is_digit(s[j1 - 1]));
    }
    if j2 < j1 {
        assert(is_digit(s[j2 - 1]));
    }
}

/// A scanned placeholder: its text, its stage and its declared (1-based)
/// number.
pub ghost struct TokenView {
    /// The placeholder's exact text, `%` to `%`.
    pub text: Seq<char>,
    /// The stage the type letter stands for.
    pub kind: FormatType,
    /// The declared 1-based number.
    pub number: int,
}

/// The token whose text is `text`.
pub open spec fn token_of(text: Seq<char>) -> TokenView {
    TokenView {
        text,
        kind: kind_of_char(text[1]),
        number: digits_val(text.subrange(2, text.len() - 1)),
    }
}

/// All placeholders of `s`, leftmost first, non-overlapping.
pub open spec fn spec_scan(s: Seq<char>) -> Seq<TokenView>
    decreases s.len(),
    via spec_scan_decreases
{
    if s.len() == 0 {
        Seq::empty()
    } else if has_token_at(s, 0) {
        seq![token_of(s.take(the_token_end(s, 0)))] + spec_scan(s.skip(the_token_end(s, 0)))
    } else {
        spec_scan(s.skip(1))
    }
}

#[via_fn]
proof fn spec_scan_decreases(s: Seq<char>) {
    if s.len() != 0 && has_token_at(s, 0) {
        let j = choose|j: int| token_end(s, 0, j);
        assert(token_end(s, 0, the_token_end(s, 0)));
    }
}

/// The token's declared number can serve as a 1-based index.
pub open spec fn token_number_ok(t: TokenView) -> bool {
    1 <= t.number <= usize::MAX
}

/// A scanned placeholder turned into the stored pattern form, with the
/// number made a 0-based id.
pub open spec fn pattern_of_token(t: TokenView) -> FormatPatternView {
    FormatPatternView { pattern: t.text, kind: t.kind, id: t.number - 1 }
}

/// A detected format placeholder: its exact text, its stage and its 0-based
/// id.
#[derive(Debug)]
pub struct FormatPattern {
    pattern: String,
    format_type: FormatType,
    id: usize,
}

/// The mathematical content of a [`FormatPattern`].
pub ghost struct FormatPatternView {
    /// The placeholder's exact text.
    pub pattern: Seq<char>,
    /// The stage it draws from.
    pub kind: FormatType,
    /// The 0-based id within that stage's results.
    pub id: int,
}

impl View for FormatPattern {
    type V = FormatPatternView;

    closed spec fn view(&self) -> FormatPatternView {
        FormatPatternView { pattern: self.pattern@, kind: self.format_type, id: self.id as int }
    }
}

impl DeepView for FormatPattern {
    type V = FormatPatternView;

    open spec fn deep_view(&self) -> FormatPatternView {
        self.view()
    }
}

impl Clone for FormatPattern {
    /// A copy with the same content.
    fn clone(&self) -> (r: Self)
        ensures
            r == *self,
    {
        FormatPattern {
            pattern: self.pattern.clone(),
            format_type: self.format_type,
            id: self.id,
        }
    }
}

impl FormatPattern {
    /// Creates a new [`FormatPattern`].
    pub fn new(pattern: &str, format_type: FormatType, id: usize) -> (r: Self)
        ensures
            r@ == (FormatPatternView { pattern: pattern@, kind: format_type, id: id as int }),
    {
        FormatPattern { pattern: pattern.to_owned(), format_type, id }
    }

    /// The stage this placeholder draws from.
    pub fn format_type(&self) -> (r: FormatType)
        ensures
            r == self@.kind,
    {
        self.format_type
    }

    /// The placeholder's exact text.
    pub fn pattern(&self) -> (r: &str)
        ensures
            r@ == self@.pattern,
    {
        self.pattern.as_str()
    }

    /// The 0-based id the placeholder references.
    pub fn id(&self) -> (r: usize)
        ensures
            r == self@.id,
    {
        self.id
    }
}

/// A format string together with all placeholders detected in it.
#[derive(Debug)]
pub struct Format {
    value: String,
    patterns: Vec<FormatPattern>,
}

/// The mathematical content of a [`Format`]: the template text and the
/// detected placeholders in scan order.
pub ghost struct FormatView {
    /// The template's characters.
    pub value: Seq<char>,
    /// The placeholders, leftmost first.
    pub patterns: Seq<FormatPatternView>,
}

impl View for Format {
    type V = FormatView;

    closed spec fn view(&self) -> FormatView {
        FormatView { value: self.value@, patterns: self.patterns.deep_view() }
    }
}

impl Clone for Format {
    /// A copy with the same mathematical content.
    fn clone(&self) -> (r: Self)
        ensures
            r@ == self@,
    {
        let patterns = self.patterns.clone();
        proof {
            assert(patterns.deep_view() =~= self.patterns.deep_view());
        }
        Format { value: self.value.clone(), patterns }
    }
}

impl Format {
    /// Creates a [`Format`] from a template string. Fails when the template
    /// holds no placeholder, or when some placeholder's number is zero or too
    /// large for an index.
    pub fn new(value: &str) -> (r: Result<Self, Error>)
        ensures
            r is Ok <==> (spec_scan(value@).len() > 0 && (forall|k: int|
                0 <= k < spec_scan(value@).len() ==> token_number_ok(#[trigger] spec_scan(
                    value@,
                )[k]))),
            (r matches Ok(f) ==> f@ == (FormatView {
                value: value@,
                patterns: spec_scan(value@).map_values(|t: TokenView| pattern_of_token(t)),
            })),
            (r matches Err(e) ==> ((spec_scan(value@).len() == 0 && e
                == Error::NoFormattingPatterns) || (e matches Error::InvalidNumericId(txt)
                && (exists|k: int|
                0 <= k < spec_scan(value@).len() && !token_number_ok(
                    #[trigger] spec_scan(value@)[k],
                ) && txt@ == spec_scan(value@)[k].text && (forall|j: int|
                    0 <= j < k ==> token_number_ok(#[trigger] spec_scan(value@)[j])))))),
    {
        let v = chars_of(value);
        match scan_format_patterns(&v) {
            Ok(patterns) => Ok(Format { value: value.to_owned(), patterns }),
            Err(e) => Err(e),
        }
    }

    /// The template string.
    pub fn value(&self) -> (r: &str)
        ensures
            r@ == self@.value,
    {
        self.value.as_str()
    }

    /// The detected placeholders, leftmost first.
    pub fn patterns(&self) -> (r: &Vec<FormatPattern>)
        ensures
            r.deep_view() == self@.patterns,
    {
        &self.patterns
    }
}

/// Classifies a placeholder text by its type prefix: `%d` draws from the
/// segments, `%s` from the selector results, `%e` from the extractor results;
/// anything else is rejected.
pub fn get_format_type(value: &str) -> (r: Result<FormatType, Error>)
    ensures
        (r matches Ok(t) ==> value@.len() >= 2 && value@[0] == '%' && is_kind_char(value@[1]) && t
            == kind_of_char(value@[1])),
        (r matches Err(e) ==> ((value@.len() < 2 || value@[0] != '%' || !is_kind_char(value@[1]))
            && (e matches Error::UnknownFormatType(txt) && txt@ == value@))),
{
    let v = chars_of(value);
    if v.len() >= 2 && v[0] == '%' && (v[1] == 'd' || v[1] == 's' || v[1] == 'e') {
        if v[1] == 'd' {
            Ok(FormatType::Delimiter)
        } else if v[1] == 's' {
            Ok(FormatType::Selector)
        } else {
            Ok(FormatType::Extractor)
        }
    } else {
        Err(Error::UnknownFormatType(value.to_owned()))
    }
}

/// Reads the digit run `v[a .. b]` as a decimal number, or nothing when the
/// value does not fit in a `usize`.
fn parse_number(v: &Vec<char>, a: usize, b: usize) -> (r: Option<usize>)
    requires
        a <= b <= v@.len(),
        forall|k: int| a <= k < b ==> is_digit(#[trigger] v@[k]),
    ensures
        (r matches Some(x) ==> x == digits_val(v@.subrange(a as int, b as int))),
        (r is None ==> digits_val(v@.subrange(a as int, b as int)) > usize::MAX),
{
    let mut acc: usize = 0;
    let mut k: usize = a;
    proof {
        assert(v@.subrange(a as int, a as int) =~= Seq::<char>::empty());
    }
    while k < b
        invariant
            a <= k <= b <= v@.len(),
            forall|m: int| a <= m < b ==> is_digit(#[trigger] v@[m]),
            acc == digits_val(v@.subrange(a as int, k as int)),
        decreases b - k,
    {
        let d: usize = ((v[k] as u32) - 48) as usize;
        proof {
            lemma_digits_step(v@, a as int, k as int);
        }
        if acc > (usize::MAX - d) / 10 {
            proof {
                assert(acc * 10 + d > usize::MAX) by (nonlinear_arith)
                    requires
                        acc > (usize::MAX - d) / 10,
                        d <= 9,
                ;
                lemma_digits_mono(v@, a as int, k + 1, b as int);
            }
            return None;
        }
        proof {
            assert(acc * 10 + d <= usize::MAX) by (nonlinear_arith)
                requires
                    acc <= (usize::MAX - d) / 10,
                    d <= 9,
            ;
        }
        acc = acc * 10 + d;
        k = k + 1;
    }
    Some(acc)
}

/// Extending a digit run by one digit multiplies its value by ten and adds
/// the digit.
proof fn lemma_digits_step(v: Seq<char>, a: int, k: int)
    requires
        0 <= a <= k < v.len(),
    ensures
        digits_val(v.subrange(a, k + 1)) == digits_val(v.subrange(a, k)) * 10 + digit_val(v[k]),
{
    let ext = v.subrange(a, k + 1);
    assert(ext.take(ext.len() - 1) =~= v.subrange(a, k));
    assert(ext.last() == v[k]);
}

/// A digit run's value is nonnegative.
proof fn lemma_digits_nonneg(ds: Seq<char>)
    requires
        forall|k: int| 0 <= k < ds.len() ==> is_digit(#[trigger] ds[k]),
    ensures
        digits_val(ds) >= 0,
    decreases ds.len(),
{
    if ds.len() > 0 {
        let front = ds.take(ds.len() - 1);
        assert(forall|k: int| 0 <= k < front.len() ==> is_digit(#[trigger] front[k]));
        lemma_digits_nonneg(front);
        assert(digits_val(front) * 10 >= 0) by (nonlinear_arith)
            requires
                digits_val(front) >= 0,
        ;
    }
}

/// Extending a digit run never shrinks its value.
proof fn lemma_digits_mono(v: Seq<char>, a: int, m: int, b: int)
    requires
        0 <= a <= m <= b <= v.len(),
        forall|k: int| a <= k < b ==> is_digit(#[trigger] v[k]),
    ensures
        digits_val(v.subrange(a, b)) >= digits_val(v.subrange(a, m)),
    decreases b - m,
{
    if m < b {
        lemma_digits_step(v, a, m);
        let cur = v.subrange(a, m);
        assert(forall|k: int| 0 <= k < cur.len() ==> is_digit(#[trigger] cur[k]));
        lemma_digits_nonneg(cur);
        assert(digits_val(cur) * 10 >= digits_val(cur)) by (nonlinear_arith)
            requires
                digits_val(cur) >= 0,
        ;
        lemma_digits_mono(v, a, m + 1, b);
    }
}

/// A placeholder in a suffix of `s` is a placeholder in `s`, shifted by the
/// removed prefix.
proof fn lemma_token_end_skip(s: Seq<char>, off: int, m: int)
    requires
        0 <= off <= s.len(),
        0 <= m,
    ensures
        token_end(s.skip(off), 0, m) <==> token_end(s, off, off + m),
{
    let tail = s.skip(off);
    if m <= tail.len() {
        assert(forall|k: int| 0 <= k < tail.len() ==> tail[k] == s[off + k]);
        if token_end(tail, 0, m) {
            assert forall|k: int| off + 2 <= k < off + m - 1 implies is_digit(#[trigger] s[k]) by {
                assert(s[k] == tail[k - off]);
            }
        }
        if token_end(s, off, off + m) {
            assert forall|k: int| 2 <= k < m - 1 implies is_digit(#[trigger] tail[k]) by {
                assert(tail[k] == s[off + k]);
            }
        }
    }
}

/// Scans the characters of a format string for placeholders and turns them
/// into stored patterns, with numbers checked and made 0-based.
fn scan_format_patterns(v: &Vec<char>) -> (r: Result<Vec<FormatPattern>, Error>)
    ensures
        (r matches Ok(ps) ==> spec_scan(v@).len() > 0 && (forall|k: int|
            0 <= k < spec_scan(v@).len() ==> token_number_ok(#[trigger] spec_scan(v@)[k]))
            && ps.deep_view() == spec_scan(v@).map_values(|t: TokenView| pattern_of_token(t))),
        (r matches Err(e) ==> ((spec_scan(v@).len() == 0 && e == Error::NoFormattingPatterns) || (
        e matches Error::InvalidNumericId(txt) && (exists|k: int|
            0 <= k < spec_scan(v@).len() && !token_number_ok(#[trigger] spec_scan(v@)[k]) && txt@
                == spec_scan(v@)[k].text && (forall|j: int|
                0 <= j < k ==> token_number_ok(#[trigger] spec_scan(v@)[j])))))),
{
    let n = v.len();
    let mut patterns: Vec<FormatPattern> = Vec::new();
    let ghost mut done: Seq<TokenView> = Seq::empty();
    let mut i: usize = 0;
    proof {
        assert(v@.skip(0) =~= v@);
        assert(done + spec_scan(v@) =~= spec_scan(v@));
        assert(patterns.deep_view() =~= done.map_values(|t: TokenView| pattern_of_token(t)));
    }
    while i < n
        invariant
            n == v@.len(),
            0 <= i <= n,
            spec_scan(v@) == done + spec_scan(v@.skip(i as int)),
            patterns.deep_view() == done.map_values(|t: TokenView| pattern_of_token(t)),
            forall|k: int| 0 <= k < done.len() ==> token_number_ok(#[trigger] done[k]),
        decreases n - i,
    {
        let ghost tail = v@.skip(i as int);
        match token_bounds_at(v, i) {
            Some(end) => {
                proof {
                    lemma_token_end_skip(v@, i as int, end - i);
                    assert(token_end(tail, 0, end - i));
                    lemma_token_end_unique(tail, 0, the_token_end(tail, 0), end - i);
                    assert(the_token_end(tail, 0) == end - i);
                }
                let ghost tok = token_of(tail.take(end - i));
                proof {
                    assert(spec_scan(tail) == seq![tok] + spec_scan(tail.skip(end - i)));
                    assert(tail.take(end - i) =~= v@.subrange(i as int, end as int));
                    assert(tail.skip(end - i) =~= v@.skip(end as int));
                    assert(tail.take(end - i).subrange(2, end - i - 1) =~= v@.subrange(
                        i + 2,
                        end - 1,
                    ));
                    assert(spec_scan(v@) =~= (done + seq![tok]) + spec_scan(v@.skip(end as int)));
                }
                let text_chars = subrange_vec(v, i, end);
                let number = parse_number(v, i + 2, end - 1);
                let bad = match number {
                    Some(x) => x == 0,
                    None => true,
                };
                if bad {
                    let text = string_from_chars(&text_chars);
                    proof {
                        assert(!token_number_ok(tok));
                        assert(spec_scan(v@)[done.len() as int] == tok);
                        assert(forall|j: int|
                            0 <= j < done.len() ==> token_number_ok(#[trigger] spec_scan(v@)[j]));
                    }
                    return Err(Error::InvalidNumericId(text));
                }
                let num = match number {
                    Some(x) => x,
                    None => 0,
                };
                let kind = if v[i + 1] == 'd' {
                    FormatType::Delimiter
                } else if v[i + 1] == 's' {
                    FormatType::Selector
                } else {
                    FormatType::Extractor
                };
                let ghost before = patterns.deep_view();
                patterns.push(
                    FormatPattern {
                        pattern: string_from_chars(&text_chars),
                        format_type: kind,
                        id: num - 1,
                    },
                );
                proof {
                    assert(token_number_ok(tok));
                    assert(tok.kind == kind);
                    assert(patterns.deep_view() =~= before.push(pattern_of_token(tok)));
                    assert(patterns.deep_view() =~= (done + seq![tok]).map_values(
                        |t: TokenView| pattern_of_token(t),
                    ));
                    done = done + seq![tok];
                }
                i = end;
            },
            None => {
                proof {
                    assert forall|m: int| !token_end(tail, 0, m) by {
                        if 0 <= m {
                            lemma_token_end_skip(v@, i as int, m);
                        }
                    }
                    assert(!has_token_at(tail, 0));
                    assert(spec_scan(tail) == spec_scan(tail.skip(1)));
                    assert(tail.skip(1) =~= v@.skip(i + 1));
                }
                i = i + 1;
            },
        }
    }
    proof {
        assert(v@.skip(i as int) =~= Seq::<char>::empty());
        assert(spec_scan(v@) =~= done);
    }
    if patterns.len() == 0 {
        proof {
            assert(done.map_values(|t: TokenView| pattern_of_token(t)).len() == 0);
        }
        Err(Error::NoFormattingPatterns)
    } else {
        Ok(patterns)
    }
}

/// Looks for a whole placeholder starting at `i`: returns the position one
/// past its closing `%`, or nothing when no placeholder starts at `i`.
fn token_bounds_at(v: &Vec<char>, i: usize) -> (r: Option<usize>)
    requires
        i < v@.len(),
    ensures
        (r matches Some(end) ==> i + 4 <= end <= v@.len() && token_end(v@, i as int, end as int)),
        (r is None ==> forall|j: int| !token_end(v@, i as int, j)),
{
    let n = v.len();
    if v[i] != '%' {
        return None;
    }
    if i + 1 >= n || !(v[i + 1] == 'd' || v[i + 1] == 's' || v[i + 1] == 'e') {
        return None;
    }
    let mut j: usize = i + 2;
    while j < n && (v[j] as u32) >= 48 && (v[j] as u32) <= 57
        invariant
            n == v@.len(),
            i + 2 <= j <= n,
            forall|k: int| i + 2 <= k < j ==> is_digit(#[trigger] v@[k]),
        decreases n - j,
    {
        j = j + 1;
    }
    if j == i + 2 {
        // no digit follows the type letter
        assert forall|m: int| !token_end(v@, i as int, m) by {
            if token_end(v@, i as int, m) {
                assert(is_digit(v@[i + 2]));
            }
        }
        return None;
    }
    if j >= n {
        // digits run to the end of the string, so no closing mark
        assert forall|m: int| !token_end(v@, i as int, m) by {
            if token_end(v@, i as int, m) {
                assert(is_digit(v@[m - 1]));
            }
        }
        return None;
    }
    if v[j] != '%' {
        assert forall|m: int| !token_end(v@, i as int, m) by {
            if token_end(v@, i as int, m) {
                if m - 1 < j {
                    assert(is_digit(v@[m - 1]));
                } else if m - 1 == j {
                } else {
                    assert(is_digit(v@[j as int]));
                }
            }
        }
        return None;
    }
    assert(token_end(v@, i as int, j + 1));
    Some(j + 1)
}

} // verus!
