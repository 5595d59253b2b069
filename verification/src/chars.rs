//! Character-sequence primitives shared by the processing stages: substring
//! matching, leftmost search, splitting, joining, trimming and literal
//! replacement, each with a specification over `Seq<char>`.

use vstd::prelude::*;
use vstd::seq_lib::lemma_flatten_concat;

verus! {

/// `needle` occurs in `hay` at position `i`.
pub open spec fn match_at(hay: Seq<char>, needle: Seq<char>, i: int) -> bool {
    0 <= i && i + needle.len() <= hay.len() && hay.subrange(i, i + needle.len() as int) == needle
}

/// The position of the leftmost occurrence of `needle` in `hay` at or after
/// `from`, if any.
pub open spec fn first_match_from(hay: Seq<char>, needle: Seq<char>, from: nat) -> Option<nat>
    decreases hay.len() + 1 - from,
{
    if from + needle.len() > hay.len() {
        None
    } else if match_at(hay, needle, from as int) {
        Some(from)
    } else {
        first_match_from(hay, needle, from + 1)
    }
}

/// What `first_match_from` returns is the leftmost match at or after `from`.
pub proof fn lemma_first_match_from(hay: Seq<char>, needle: Seq<char>, from: nat)
    ensures
        match first_match_from(hay, needle, from) {
            Some(i) => from <= i && match_at(hay, needle, i as int) && (forall|k: int|
                from <= k < i ==> !match_at(hay, needle, k)),
            None => forall|k: int| from <= k ==> !match_at(hay, needle, k),
        },
    decreases hay.len() + 1 - from,
{
    if from + needle.len() > hay.len() {
        assert(forall|k: int| from <= k ==> !match_at(hay, needle, k));
    } else if match_at(hay, needle, from as int) {
    } else {
        lemma_first_match_from(hay, needle, from + 1);
    }
}

/// Occurrences of `needle` in a suffix of `hay` are occurrences in `hay`,
/// shifted by the length of the removed prefix.
pub proof fn lemma_match_at_skip(hay: Seq<char>, needle: Seq<char>, off: nat, i: int)
    requires
        off <= hay.len(),
        0 <= i,
    ensures
        match_at(hay.skip(off as int), needle, i) <==> match_at(hay, needle, off + i),
{
    if i + needle.len() <= hay.len() - off {
        assert(hay.skip(off as int).subrange(i, i + needle.len() as int) =~= hay.subrange(
            off + i,
            off + i + needle.len() as int,
        ));
    } else {
        assert(!match_at(hay.skip(off as int), needle, i));
        assert(!match_at(hay, needle, off + i));
    }
}

/// The leftmost match in a suffix of `hay` is the leftmost match in `hay` at
/// or after the suffix's start, shifted back by the removed prefix.
pub proof fn lemma_first_match_skip(hay: Seq<char>, needle: Seq<char>, off: nat)
    requires
        off <= hay.len(),
    ensures
        first_match_from(hay.skip(off as int), needle, 0) == (match first_match_from(
            hay,
            needle,
            off,
        ) {
            Some(j) => Some((j - off) as nat),
            None => None::<nat>,
        }),
{
    let tail = hay.skip(off as int);
    lemma_first_match_from(hay, needle, off);
    lemma_first_match_from(tail, needle, 0);
    assert forall|k: int| 0 <= k implies (match_at(tail, needle, k) <==> match_at(
        hay,
        needle,
        off + k,
    )) by {
        lemma_match_at_skip(hay, needle, off, k);
    }
    match (first_match_from(hay, needle, off), first_match_from(tail, needle, 0)) {
        (Some(j), Some(b)) => {
            assert(match_at(tail, needle, j - off));
            assert(match_at(hay, needle, off + b as int));
            assert(b <= j - off);
            assert(j <= off + b);
        },
        (Some(j), None) => {
            assert(match_at(tail, needle, j - off));
        },
        (None, Some(b)) => {
            assert(match_at(hay, needle, off + b as int));
        },
        (None, None) => {},
    }
}

/// `parts` joined into one sequence with `d` between consecutive parts.
pub open spec fn spec_join(parts: Seq<Seq<char>>, d: Seq<char>) -> Seq<char>
    decreases parts.len(),
{
    if parts.len() == 0 {
        Seq::empty()
    } else if parts.len() == 1 {
        parts[0]
    } else {
        parts[0] + d + spec_join(parts.skip(1), d)
    }
}

/// Each character of `s` as a one-character segment.
pub open spec fn singletons(s: Seq<char>) -> Seq<Seq<char>> {
    s.map_values(|c: char| seq![c])
}

/// `s` split at every leftmost, non-overlapping occurrence of the literal
/// delimiter `d`. An empty delimiter splits between every pair of
/// characters, with an empty segment at each end.
pub open spec fn spec_lit_split(s: Seq<char>, d: Seq<char>) -> Seq<Seq<char>>
    decreases s.len(),
    via spec_lit_split_decreases
{
    if d.len() == 0 {
        seq![Seq::<char>::empty()] + singletons(s) + seq![Seq::<char>::empty()]
    } else {
        match first_match_from(s, d, 0) {
            None => seq![s],
            Some(i) => seq![s.take(i as int)] + spec_lit_split(s.skip(i + d.len() as int), d),
        }
    }
}

#[via_fn]
proof fn spec_lit_split_decreases(s: Seq<char>, d: Seq<char>) {
    if d.len() > 0 {
        lemma_first_match_from(s, d, 0);
    }
}

/// A split has at least one part.
pub proof fn lemma_lit_split_len(s: Seq<char>, d: Seq<char>)
    ensures
        spec_lit_split(s, d).len() >= 1,
{
    if d.len() > 0 {
        lemma_first_match_from(s, d, 0);
    }
}

/// Joining with an empty delimiter concatenates the parts.
proof fn lemma_join_empty_delim(parts: Seq<Seq<char>>)
    ensures
        spec_join(parts, Seq::<char>::empty()) == parts.flatten(),
    decreases parts.len(),
{
    if parts.len() == 0 {
        assert(parts.flatten() == Seq::<char>::empty());
    } else if parts.len() == 1 {
        parts.lemma_flatten_one_element();
        assert(parts.first() == parts[0]);
    } else {
        lemma_join_empty_delim(parts.skip(1));
        assert(parts.drop_first() =~= parts.skip(1));
        assert(parts.flatten() == parts.first() + parts.drop_first().flatten());
        assert(parts[0] + Seq::<char>::empty() + parts.skip(1).flatten() =~= parts[0]
            + parts.skip(1).flatten());
    }
}

/// Flattening the one-character segments of `s` gives `s` back.
proof fn lemma_flatten_singletons(s: Seq<char>)
    ensures
        singletons(s).flatten() == s,
    decreases s.len(),
{
    if s.len() == 0 {
        assert(singletons(s) =~= Seq::<Seq<char>>::empty());
        assert(singletons(s).flatten() =~= s);
    } else {
        lemma_flatten_singletons(s.skip(1));
        assert(singletons(s).drop_first() =~= singletons(s.skip(1)));
        assert(singletons(s).first() == seq![s[0]]);
        assert(singletons(s).flatten() == seq![s[0]] + s.skip(1));
        assert(seq![s[0]] + s.skip(1) =~= s);
    }
}

/// Splitting on a literal delimiter loses nothing: joining the parts with the
/// same delimiter gives the original sequence back.
pub proof fn lemma_lit_split_join(s: Seq<char>, d: Seq<char>)
    ensures
        spec_join(spec_lit_split(s, d), d) == s,
    decreases s.len(),
{
    if d.len() == 0 {
        let parts = seq![Seq::<char>::empty()] + singletons(s) + seq![Seq::<char>::empty()];
        assert(spec_lit_split(s, d) == parts);
        assert(d =~= Seq::<char>::empty());
        lemma_join_empty_delim(parts);
        lemma_flatten_concat(seq![Seq::<char>::empty()] + singletons(s), seq![
            Seq::<char>::empty(),
        ]);
        lemma_flatten_concat(seq![Seq::<char>::empty()], singletons(s));
        seq![Seq::<char>::empty()].lemma_flatten_one_element();
        lemma_flatten_singletons(s);
        assert(parts.flatten() =~= s);
    } else {
        lemma_first_match_from(s, d, 0);
        match first_match_from(s, d, 0) {
            None => {
                assert(spec_join(seq![s], d) == s);
            },
            Some(i) => {
                let head = s.take(i as int);
                let rest = s.skip(i + d.len() as int);
                lemma_lit_split_join(rest, d);
                lemma_lit_split_len(rest, d);
                let parts = seq![head] + spec_lit_split(rest, d);
                assert(spec_lit_split(s, d) == parts);
                assert(parts.len() >= 2);
                assert(parts[0] == head);
                assert(parts.skip(1) =~= spec_lit_split(rest, d));
                assert(spec_join(parts, d) == head + d + spec_join(spec_lit_split(rest, d), d));
                assert(s.subrange(i as int, i + d.len() as int) == d);
                assert(head + d + rest =~= s);
            },
        }
    }
}

/// `p` is a non-empty prefix of `s`, so a left trim would remove it.
pub open spec fn matches_front(s: Seq<char>, p: Seq<char>) -> bool {
    p.len() > 0 && p.len() <= s.len() && s.take(p.len() as int) == p
}

/// `p` is a non-empty suffix of `s`, so a right trim would remove it.
pub open spec fn matches_back(s: Seq<char>, p: Seq<char>) -> bool {
    p.len() > 0 && p.len() <= s.len() && s.skip(s.len() - p.len()) == p
}

/// `s` with every repetition of `p` removed from its front.
pub open spec fn spec_trim_left(s: Seq<char>, p: Seq<char>) -> Seq<char>
    decreases s.len(),
{
    if p.len() > 0 && p.len() <= s.len() && s.take(p.len() as int) == p {
        spec_trim_left(s.skip(p.len() as int), p)
    } else {
        s
    }
}

/// `s` with every repetition of `p` removed from its back.
pub open spec fn spec_trim_right(s: Seq<char>, p: Seq<char>) -> Seq<char>
    decreases s.len(),
{
    if p.len() > 0 && p.len() <= s.len() && s.skip(s.len() - p.len()) == p {
        spec_trim_right(s.take(s.len() - p.len()), p)
    } else {
        s
    }
}

/// `s` with every leftmost, non-overlapping occurrence of `from` replaced by
/// `to`; an empty `from` replaces nothing.
pub open spec fn spec_replace_all(s: Seq<char>, from: Seq<char>, to: Seq<char>) -> Seq<char>
    decreases s.len(),
{
    if from.len() == 0 || s.len() < from.len() {
        s
    } else if s.take(from.len() as int) == from {
        to + spec_replace_all(s.skip(from.len() as int), from, to)
    } else {
        seq![s[0]] + spec_replace_all(s.skip(1), from, to)
    }
}

/// Compares `hay[i .. i + needle.len()]` with `needle`.
pub fn is_match_at(hay: &Vec<char>, needle: &Vec<char>, i: usize) -> (r: bool)
    requires
        i + needle@.len() <= hay@.len(),
    ensures
        r == match_at(hay@, needle@, i as int),
{
    let n = hay.len();
    let mut k: usize = 0;
    while k < needle.len()
        invariant
            n == hay@.len(),
            i + needle@.len() <= hay@.len(),
            0 <= k <= needle@.len(),
            forall|m: int| 0 <= m < k ==> hay@[i + m] == needle@[m],
        decreases needle@.len() - k,
    {
        if hay[i + k] != needle[k] {
            assert(hay@.subrange(i as int, i + needle@.len() as int)[k as int] != needle@[k as int]);
            return false;
        }
        k = k + 1;
    }
    assert(hay@.subrange(i as int, i + needle@.len() as int) =~= needle@);
    true
}

/// The leftmost occurrence of `needle` in `hay` at or after `from`.
pub fn find_from(hay: &Vec<char>, needle: &Vec<char>, from: usize) -> (r: Option<usize>)
    requires
        from <= hay@.len(),
    ensures
        match r {
            Some(i) => first_match_from(hay@, needle@, from as nat) == Some(i as nat),
            None => first_match_from(hay@, needle@, from as nat) is None,
        },
{
    if needle.len() == 0 {
        assert(hay@.subrange(from as int, from as int) =~= needle@);
        return Some(from);
    }
    let mut i: usize = from;
    loop
        invariant
            needle@.len() >= 1,
            from <= i <= hay@.len(),
            first_match_from(hay@, needle@, from as nat) == first_match_from(
                hay@,
                needle@,
                i as nat,
            ),
        decreases hay@.len() - i,
    {
        if needle.len() > hay.len() - i {
            return None;
        }
        if is_match_at(hay, needle, i) {
            return Some(i);
        }
        i = i + 1;
    }
}

/// A copy of `v[a .. b]`.
pub fn subrange_vec(v: &Vec<char>, a: usize, b: usize) -> (r: Vec<char>)
    requires
        a <= b <= v@.len(),
    ensures
        r@ == v@.subrange(a as int, b as int),
{
    let mut r: Vec<char> = Vec::new();
    let mut k: usize = a;
    while k < b
        invariant
            a <= k <= b <= v@.len(),
            r@ == v@.subrange(a as int, k as int),
        decreases b - k,
    {
        r.push(v[k]);
        assert(r@ =~= v@.subrange(a as int, k + 1));
        k = k + 1;
    }
    r
}

/// The characters of `s`, in order.
pub fn chars_of(s: &str) -> (r: Vec<char>)
    ensures
        r@ == s@,
{
    let n = s.unicode_len();
    let mut r: Vec<char> = Vec::new();
    let mut k: usize = 0;
    while k < n
        invariant
            n == s@.len(),
            0 <= k <= n,
            r@ == s@.take(k as int),
        decreases n - k,
    {
        r.push(s.get_char(k));
        assert(r@ =~= s@.take(k + 1));
        k = k + 1;
    }
    assert(r@ =~= s@);
    r
}

/// Relies on `core::iter::Iterator::collect` building a `String` from a
/// char iterator: the result holds exactly the characters of `v`, in order.
#[verifier::external_body]
pub fn string_from_chars(v: &Vec<char>) -> (r: String)
    ensures
        r@ == v@,
{
    v.iter().collect()
}

/// Turns each character-vector part into a `String`, preserving order and
/// contents.
pub fn strings_from_parts(parts: &Vec<Vec<char>>) -> (r: Vec<String>)
    ensures
        r.deep_view() == parts.deep_view(),
{
    let mut r: Vec<String> = Vec::new();
    let mut k: usize = 0;
    while k < parts.len()
        invariant
            0 <= k <= parts@.len(),
            r.deep_view() == parts.deep_view().take(k as int),
        decreases parts@.len() - k,
    {
        let ghost before = r.deep_view();
        r.push(string_from_chars(&parts[k]));
        proof {
            assert(r.deep_view() =~~= before.push(parts@[k as int]@));
            assert(before.push(parts@[k as int]@) =~~= parts.deep_view().take(k + 1));
        }
        k = k + 1;
    }
    assert(r.deep_view() =~~= parts.deep_view());
    r
}

/// Appends every character of `xs` to `out`.
pub fn push_all(out: &mut Vec<char>, xs: &Vec<char>)
    ensures
        final(out)@ == old(out)@ + xs@,
{
    let mut k: usize = 0;
    while k < xs.len()
        invariant
            0 <= k <= xs@.len(),
            out@ == old(out)@ + xs@.take(k as int),
        decreases xs@.len() - k,
    {
        out.push(xs[k]);
        assert(out@ =~= old(out)@ + xs@.take(k + 1));
        k = k + 1;
    }
    assert(out@ =~= old(out)@ + xs@);
}

/// Splits `s` at every leftmost, non-overlapping occurrence of the literal
/// delimiter `d`.
pub fn lit_split_chars(s: &Vec<char>, d: &Vec<char>) -> (r: Vec<Vec<char>>)
    ensures
        r.deep_view() == spec_lit_split(s@, d@),
{
    let mut parts: Vec<Vec<char>> = Vec::new();
    if d.len() == 0 {
        parts.push(Vec::new());
        proof {
            assert(parts.deep_view() =~~= seq![Seq::<char>::empty()] + singletons(s@.take(0)));
        }
        let mut k: usize = 0;
        while k < s.len()
            invariant
                0 <= k <= s@.len(),
                parts.deep_view() == seq![Seq::<char>::empty()] + singletons(s@.take(k as int)),
            decreases s@.len() - k,
        {
            let ghost before = parts.deep_view();
            let mut one: Vec<char> = Vec::new();
            one.push(s[k]);
            parts.push(one);
            proof {
                assert(parts.deep_view() =~~= before.push(seq![s@[k as int]]));
                assert(parts.deep_view() =~~= seq![Seq::<char>::empty()] + singletons(
                    s@.take(k + 1),
                ));
            }
            k = k + 1;
        }
        let ghost before = parts.deep_view();
        parts.push(Vec::new());
        proof {
            assert(s@.take(s@.len() as int) =~= s@);
            assert(parts.deep_view() =~~= before.push(Seq::<char>::empty()));
            assert(parts.deep_view() =~~= spec_lit_split(s@, d@));
        }
        return parts;
    }
    let n = s.len();
    let mut pos: usize = 0;
    proof {
        assert(s@.skip(0) =~= s@);
        assert(parts.deep_view() =~~= Seq::<Seq<char>>::empty());
        assert(parts.deep_view() + spec_lit_split(s@, d@) =~= spec_lit_split(s@, d@));
    }
    loop
        invariant
            n == s@.len(),
            d@.len() >= 1,
            0 <= pos <= s@.len(),
            spec_lit_split(s@, d@) == parts.deep_view() + spec_lit_split(
                s@.skip(pos as int),
                d@,
            ),
        decreases s@.len() - pos,
    {
        let ghost tail = s@.skip(pos as int);
        proof {
            lemma_first_match_skip(s@, d@, pos as nat);
            lemma_first_match_from(s@, d@, pos as nat);
        }
        match find_from(s, d, pos) {
            Some(j) => {
                let part = subrange_vec(s, pos, j);
                let ghost before = parts.deep_view();
                parts.push(part);
                proof {
                    let i = j - pos;
                    assert(j + d@.len() <= s@.len());
                    assert(first_match_from(tail, d@, 0) == Some(i as nat));
                    assert(spec_lit_split(tail, d@) == seq![tail.take(i)] + spec_lit_split(
                        tail.skip(i + d@.len() as int),
                        d@,
                    ));
                    assert(tail.take(i) =~= s@.subrange(pos as int, j as int));
                    assert(tail.skip(i + d@.len() as int) =~= s@.skip(j + d@.len() as int));
                    assert(parts.deep_view() =~~= before.push(part@));
                    assert(parts.deep_view() + spec_lit_split(s@.skip(j + d@.len() as int), d@)
                        =~= before + spec_lit_split(tail, d@));
                }
                pos = j + d.len();
            },
            None => {
                let part = subrange_vec(s, pos, s.len());
                let ghost before = parts.deep_view();
                parts.push(part);
                proof {
                    assert(first_match_from(tail, d@, 0) is None);
                    assert(spec_lit_split(tail, d@) == seq![tail]);
                    assert(part@ =~= tail);
                    assert(parts.deep_view() =~~= before.push(part@));
                    assert(parts.deep_view() =~= before + spec_lit_split(tail, d@));
                }
                return parts;
            },
        }
    }
}

/// Removes every repetition of `p` from the front of `s`.
pub fn trim_left_chars(s: &Vec<char>, p: &Vec<char>) -> (r: Vec<char>)
    ensures
        r@ == spec_trim_left(s@, p@),
{
    let mut pos: usize = 0;
    proof {
        assert(s@.skip(0) =~= s@);
    }
    loop
        invariant
            0 <= pos <= s@.len(),
            spec_trim_left(s@, p@) == spec_trim_left(s@.skip(pos as int), p@),
        ensures
            0 <= pos <= s@.len(),
            spec_trim_left(s@, p@) == s@.skip(pos as int),
        decreases s@.len() - pos,
    {
        let ghost tail = s@.skip(pos as int);
        if p.len() == 0 || p.len() > s.len() - pos {
            proof {
                assert(spec_trim_left(tail, p@) == tail);
            }
            break ;
        }
        if is_match_at(s, p, pos) {
            proof {
                assert(tail.take(p@.len() as int) =~= s@.subrange(
                    pos as int,
                    pos + p@.len() as int,
                ));
                assert(tail.skip(p@.len() as int) =~= s@.skip(pos + p@.len() as int));
            }
            pos = pos + p.len();
        } else {
            proof {
                assert(tail.take(p@.len() as int) =~= s@.subrange(
                    pos as int,
                    pos + p@.len() as int,
                ));
                assert(spec_trim_left(tail, p@) == tail);
            }
            break ;
        }
    }
    let r = subrange_vec(s, pos, s.len());
    proof {
        assert(r@ =~= s@.skip(pos as int));
    }
    r
}

/// Removes every repetition of `p` from the back of `s`.
pub fn trim_right_chars(s: &Vec<char>, p: &Vec<char>) -> (r: Vec<char>)
    ensures
        r@ == spec_trim_right(s@, p@),
{
    let mut end: usize = s.len();
    proof {
        assert(s@.take(s@.len() as int) =~= s@);
    }
    loop
        invariant
            0 <= end <= s@.len(),
            spec_trim_right(s@, p@) == spec_trim_right(s@.take(end as int), p@),
        ensures
            0 <= end <= s@.len(),
            spec_trim_right(s@, p@) == s@.take(end as int),
        decreases end,
    {
        let ghost head = s@.take(end as int);
        if p.len() == 0 || p.len() > end {
            proof {
                assert(spec_trim_right(head, p@) == head);
            }
            break ;
        }
        if is_match_at(s, p, end - p.len()) {
            proof {
                assert(head.skip(end - p@.len() as int) =~= s@.subrange(
                    end - p@.len() as int,
                    end as int,
                ));
                assert(head.take(end - p@.len() as int) =~= s@.take(end - p@.len() as int));
            }
            end = end - p.len();
        } else {
            proof {
                assert(head.skip(end - p@.len() as int) =~= s@.subrange(
                    end - p@.len() as int,
                    end as int,
                ));
                assert(spec_trim_right(head, p@) == head);
            }
            break ;
        }
    }
    let r = subrange_vec(s, 0, end);
    proof {
        assert(r@ =~= s@.take(end as int));
    }
    r
}

/// Replaces every leftmost, non-overlapping occurrence of `from` in `s` with
/// `to`.
pub fn replace_all_chars(s: &Vec<char>, from: &Vec<char>, to: &Vec<char>) -> (r: Vec<char>)
    ensures
        r@ == spec_replace_all(s@, from@, to@),
{
    if from.len() == 0 {
        let r = subrange_vec(s, 0, s.len());
        assert(r@ =~= s@);
        return r;
    }
    let mut out: Vec<char> = Vec::new();
    let mut pos: usize = 0;
    proof {
        assert(s@.skip(0) =~= s@);
        assert(out@ + spec_replace_all(s@, from@, to@) =~= spec_replace_all(s@, from@, to@));
    }
    while pos < s.len()
        invariant
            from@.len() >= 1,
            0 <= pos <= s@.len(),
            spec_replace_all(s@, from@, to@) == out@ + spec_replace_all(
                s@.skip(pos as int),
                from@,
                to@,
            ),
        decreases s@.len() - pos,
    {
        let ghost tail = s@.skip(pos as int);
        let ghost out0 = out@;
        if from.len() <= s.len() - pos && is_match_at(s, from, pos) {
            proof {
                assert(tail.take(from@.len() as int) =~= s@.subrange(
                    pos as int,
                    pos + from@.len() as int,
                ));
                assert(tail.skip(from@.len() as int) =~= s@.skip(pos + from@.len() as int));
                assert(spec_replace_all(tail, from@, to@) == to@ + spec_replace_all(
                    s@.skip(pos + from@.len() as int),
                    from@,
                    to@,
                ));
            }
            push_all(&mut out, to);
            proof {
                assert(out@ + spec_replace_all(s@.skip(pos + from@.len() as int), from@, to@)
                    =~= out0 + spec_replace_all(tail, from@, to@));
            }
            pos = pos + from.len();
        } else {
            out.push(s[pos]);
            proof {
                assert(tail.skip(1) =~= s@.skip(pos + 1));
                if tail.len() < from@.len() {
                    assert(spec_replace_all(tail, from@, to@) == tail);
                    assert(spec_replace_all(tail.skip(1), from@, to@) == tail.skip(1));
                    assert(tail =~= seq![tail[0]] + tail.skip(1));
                } else {
                    assert(tail.take(from@.len() as int) =~= s@.subrange(
                        pos as int,
                        pos + from@.len() as int,
                    ));
                    assert(spec_replace_all(tail, from@, to@) == seq![tail[0]]
                        + spec_replace_all(tail.skip(1), from@, to@));
                }
                assert(tail[0] == s@[pos as int]);
                assert(out@ + spec_replace_all(s@.skip(pos + 1), from@, to@) =~= out0
                    + spec_replace_all(tail, from@, to@));
            }
            pos = pos + 1;
        }
    }
    proof {
        assert(s@.skip(pos as int) =~= Seq::<char>::empty());
        assert(spec_replace_all(s@.skip(pos as int), from@, to@) == s@.skip(pos as int));
        assert(out@ + s@.skip(pos as int) =~= out@);
    }
    out
}

} // verus!
