//! Resolving the format template into the output string, and packaging the
//! result for a file or a text input.
//!
//! Paths are handled as plain strings with `/` as the separator, following
//! std's `Path::file_name` and `Path::set_file_name`: trailing separators
//! are ignored, a path whose last component is `.` or `..`, or that has no
//! component at all, has no filename, and replacing the filename of such a
//! path appends the new name as a fresh component. Separator runs and
//! interior `.` or `..` components are kept as written, not normalized.

use crate::chars::{chars_of, push_all, replace_all_chars, spec_replace_all, string_from_chars, subrange_vec};
use crate::processor::format::{Format, FormatPatternView, FormatType};
use vstd::prelude::*;

verus! {

/// `p` with every trailing `/` removed.
pub open spec fn spec_strip_trailing(p: Seq<char>) -> Seq<char>
    decreases p.len(),
{
    if p.len() > 0 && p.last() == '/' {
        spec_strip_trailing(p.take(p.len() - 1))
    } else {
        p
    }
}

/// The characters of `p` after its last `/`, or all of `p` when it has
/// none.
pub open spec fn spec_tail_component(p: Seq<char>) -> Seq<char>
    decreases p.len(),
{
    if p.len() == 0 {
        p
    } else if p.last() == '/' {
        Seq::empty()
    } else {
        spec_tail_component(p.take(p.len() - 1)).push(p.last())
    }
}

/// The filename component of `p`, as std's `Path::file_name` reports it:
/// trailing separators are ignored, and a path whose last component is `.`
/// or `..`, or that has no component at all, has no filename.
pub open spec fn spec_file_name(p: Seq<char>) -> Seq<char> {
    let c = spec_tail_component(spec_strip_trailing(p));
    if c == seq!['.'] || c == seq!['.', '.'] {
        Seq::empty()
    } else {
        c
    }
}

/// `p` with its filename component replaced by `name`, as std's
/// `Path::set_file_name` does it: when `p` has a filename, the prefix up to
/// and including the `/` before it is kept and trailing separators are
/// dropped; when it has none, `name` is appended as a new component.
pub open spec fn spec_with_file_name(p: Seq<char>, name: Seq<char>) -> Seq<char> {
    if spec_file_name(p).len() == 0 {
        if p.len() == 0 || p.last() == '/' {
            p + name
        } else {
            p + seq!['/'] + name
        }
    } else {
        let q = spec_strip_trailing(p);
        q.take(q.len() - spec_file_name(p).len()) + name
    }
}

/// When every position at or after `e` holds a `/` and `e` is `0` or sits
/// just after something else, stripping trailing separators keeps exactly
/// the first `e` characters.
proof fn lemma_strip_from(p: Seq<char>, e: int)
    requires
        0 <= e <= p.len(),
        forall|j: int| e <= j < p.len() ==> p[j] == '/',
        e > 0 ==> p[e - 1] != '/',
    ensures
        spec_strip_trailing(p) == p.take(e),
    decreases p.len(),
{
    if p.len() == 0 {
        assert(p.take(e) =~= p);
    } else if e == p.len() {
        assert(p.take(e) =~= p);
    } else {
        assert(p.last() == '/');
        let front = p.take(p.len() - 1);
        lemma_strip_from(front, e);
        assert(front.take(e) =~= p.take(e));
    }
}

/// When no `/` occurs at or after position `i`, and `i` is `0` or sits just
/// after a `/`, the tail component is exactly the suffix from `i`.
proof fn lemma_tail_component_from(p: Seq<char>, i: int)
    requires
        0 <= i <= p.len(),
        forall|j: int| i <= j < p.len() ==> p[j] != '/',
        i > 0 ==> p[i - 1] == '/',
    ensures
        spec_tail_component(p) == p.skip(i),
    decreases p.len(),
{
    if p.len() == 0 {
        assert(p.skip(i) =~= p);
    } else if i == p.len() {
        assert(p.skip(i) =~= Seq::<char>::empty());
        assert(p.last() == '/');
    } else {
        assert(p.last() != '/');
        let front = p.take(p.len() - 1);
        lemma_tail_component_from(front, i);
        assert(p.skip(i) =~= front.skip(i).push(p.last()));
    }
}

/// Scans `v` as a path: the returned pair `(start, end)` bounds the last
/// component, with the trailing separators at and after `end`.
fn component_bounds(v: &Vec<char>) -> (r: (usize, usize))
    ensures
        0 <= r.0 <= r.1 <= v@.len(),
        spec_strip_trailing(v@) == v@.take(r.1 as int),
        spec_tail_component(spec_strip_trailing(v@)) == v@.subrange(r.0 as int, r.1 as int),
{
    let mut end: usize = v.len();
    while end > 0 && v[end - 1] == '/'
        invariant
            0 <= end <= v@.len(),
            forall|j: int| end <= j < v@.len() ==> v@[j] == '/',
        decreases end,
    {
        end = end - 1;
    }
    let mut start: usize = end;
    while start > 0 && v[start - 1] != '/'
        invariant
            0 <= start <= end <= v@.len(),
            forall|j: int| start <= j < end ==> v@[j] != '/',
        decreases start,
    {
        start = start - 1;
    }
    proof {
        lemma_strip_from(v@, end as int);
        let q = v@.take(end as int);
        assert(forall|j: int| start <= j < end ==> q[j] != '/');
        assert(start > 0 ==> q[start - 1] == '/');
        lemma_tail_component_from(q, start as int);
        assert(q.skip(start as int) =~= v@.subrange(start as int, end as int));
    }
    (start, end)
}

/// The filename component of `path`, or the empty string when it has none.
pub fn file_name_of(path: &str) -> (r: String)
    ensures
        r@ == spec_file_name(path@),
{
    let v = chars_of(path);
    let bounds = component_bounds(&v);
    let start = bounds.0;
    let end = bounds.1;
    let ghost c = spec_tail_component(spec_strip_trailing(path@));
    let n = end - start;
    let dot = n == 1 && v[start] == '.';
    let dotdot = n == 2 && v[start] == '.' && v[start + 1] == '.';
    if dot || dotdot {
        proof {
            if dot {
                assert(c =~= seq!['.']);
            } else {
                assert(c =~= seq!['.', '.']);
            }
        }
        String::new()
    } else {
        proof {
            assert(c == v@.subrange(start as int, end as int));
            assert(c.len() == n);
            if c == seq!['.'] {
                assert(v@[start as int] == c[0]);
                assert(false);
            }
            if c == seq!['.', '.'] {
                assert(v@[start as int] == c[0] && v@[start + 1] == c[1]);
                assert(false);
            }
        }
        string_from_chars(&subrange_vec(&v, start, end))
    }
}

/// `path` with its filename component replaced by `name`; a path without a
/// filename gets `name` appended as a new component.
pub fn with_file_name(path: &str, name: &str) -> (r: String)
    ensures
        r@ == spec_with_file_name(path@, name@),
{
    let v = chars_of(path);
    let bounds = component_bounds(&v);
    let start = bounds.0;
    let end = bounds.1;
    let ghost c = spec_tail_component(spec_strip_trailing(path@));
    let rep = chars_of(name);
    let n = end - start;
    let dot = n == 1 && v[start] == '.';
    let dotdot = n == 2 && v[start] == '.' && v[start + 1] == '.';
    if n == 0 || dot || dotdot {
        proof {
            if n == 0 {
                assert(c =~= Seq::<char>::empty());
            } else if dot {
                assert(c =~= seq!['.']);
            } else {
                assert(c =~= seq!['.', '.']);
            }
            assert(spec_file_name(path@).len() == 0);
        }
        let mut out = subrange_vec(&v, 0, v.len());
        proof {
            assert(out@ =~= path@);
        }
        if v.len() > 0 && v[v.len() - 1] != '/' {
            out.push('/');
            push_all(&mut out, &rep);
            proof {
                assert(out@ =~= path@ + seq!['/'] + name@);
            }
        } else {
            push_all(&mut out, &rep);
            proof {
                assert(out@ =~= path@ + name@);
            }
        }
        string_from_chars(&out)
    } else {
        proof {
            assert(c == v@.subrange(start as int, end as int));
            assert(c.len() == n);
            if c == seq!['.'] {
                assert(v@[start as int] == c[0]);
                assert(false);
            }
            if c == seq!['.', '.'] {
                assert(v@[start as int] == c[0] && v@[start + 1] == c[1]);
                assert(false);
            }
            assert(spec_file_name(path@) == c);
            let q = spec_strip_trailing(path@);
            assert(q.len() == end);
            assert(q.take(q.len() - c.len()) =~= v@.subrange(0, start as int));
        }
        let mut out = subrange_vec(&v, 0, start);
        push_all(&mut out, &rep);
        string_from_chars(&out)
    }
}

/// The replacement value for one placeholder: the indexed entry of the
/// stage's results, or the empty string when the id is out of range or the
/// entry is empty.
pub open spec fn token_value(
    kind: FormatType,
    id: int,
    segs: Seq<Seq<char>>,
    sel: Seq<Option<Seq<char>>>,
    ext: Seq<Option<Seq<char>>>,
) -> Seq<char> {
    match kind {
        FormatType::Delimiter => if 0 <= id < segs.len() {
            segs[id]
        } else {
            Seq::empty()
        },
        FormatType::Selector => if 0 <= id < sel.len() && sel[id] is Some {
            sel[id]->0
        } else {
            Seq::empty()
        },
        FormatType::Extractor => if 0 <= id < ext.len() && ext[id] is Some {
            ext[id]->0
        } else {
            Seq::empty()
        },
    }
}

/// An id that is out of range for its stage substitutes the empty string;
/// resolution never fails on it.
pub proof fn lemma_out_of_range_empty(
    kind: FormatType,
    id: int,
    segs: Seq<Seq<char>>,
    sel: Seq<Option<Seq<char>>>,
    ext: Seq<Option<Seq<char>>>,
)
    requires
        match kind {
            FormatType::Delimiter => !(0 <= id < segs.len()),
            FormatType::Selector => !(0 <= id < sel.len()),
            FormatType::Extractor => !(0 <= id < ext.len()),
        },
    ensures
        token_value(kind, id, segs, sel, ext) == Seq::<char>::empty(),
{
}

/// The template resolved against the stage results: placeholders are taken
/// in scan order, and each replaces every occurrence of its exact text in
/// the accumulated output.
pub open spec fn spec_resolve(
    patterns: Seq<FormatPatternView>,
    acc: Seq<char>,
    segs: Seq<Seq<char>>,
    sel: Seq<Option<Seq<char>>>,
    ext: Seq<Option<Seq<char>>>,
) -> Seq<char>
    decreases patterns.len(),
{
    if patterns.len() == 0 {
        acc
    } else {
        spec_resolve(
            patterns.skip(1),
            spec_replace_all(
                acc,
                patterns[0].pattern,
                token_value(patterns[0].kind, patterns[0].id, segs, sel, ext),
            ),
            segs,
            sel,
            ext,
        )
    }
}

/// Resolves the format template against the stage results, building the
/// output string.
pub fn process_format(
    segments: &Vec<String>,
    selected: &Vec<Option<String>>,
    extracted: &Vec<Option<String>>,
    format: &Format,
) -> (r: String)
    ensures
        r@ == spec_resolve(
            format@.patterns,
            format@.value,
            segments.deep_view(),
            selected.deep_view(),
            extracted.deep_view(),
        ),
{
    let ghost segs = segments.deep_view();
    let ghost sel = selected.deep_view();
    let ghost ext = extracted.deep_view();
    let ghost allp = format@.patterns;
    let ps = format.patterns();
    let mut out: Vec<char> = chars_of(format.value());
    let mut k: usize = 0;
    proof {
        assert(allp.skip(0) =~= allp);
    }
    while k < ps.len()
        invariant
            segs == segments.deep_view(),
            sel == selected.deep_view(),
            ext == extracted.deep_view(),
            allp == ps.deep_view(),
            0 <= k <= allp.len(),
            spec_resolve(allp, format@.value, segs, sel, ext) == spec_resolve(
                allp.skip(k as int),
                out@,
                segs,
                sel,
                ext,
            ),
        decreases allp.len() - k,
    {
        let ghost p = allp[k as int];
        let id = ps[k].id();
        let rep: Vec<char> = match ps[k].format_type() {
            FormatType::Delimiter => {
                if id < segments.len() {
                    chars_of(segments[id].as_str())
                } else {
                    Vec::new()
                }
            },
            FormatType::Selector => {
                if id < selected.len() {
                    match &selected[id] {
                        Some(s) => chars_of(s.as_str()),
                        None => Vec::new(),
                    }
                } else {
                    Vec::new()
                }
            },
            FormatType::Extractor => {
                if id < extracted.len() {
                    match &extracted[id] {
                        Some(s) => chars_of(s.as_str()),
                        None => Vec::new(),
                    }
                } else {
                    Vec::new()
                }
            },
        };
        proof {
            assert(rep@ == token_value(p.kind, p.id, segs, sel, ext));
        }
        let pat = chars_of(ps[k].pattern());
        let next = replace_all_chars(&out, &pat, &rep);
        proof {
            assert(allp.skip(k as int)[0] == p);
            assert(allp.skip(k as int).skip(1) =~= allp.skip(k + 1));
            assert(spec_resolve(allp.skip(k as int), out@, segs, sel, ext) == spec_resolve(
                allp.skip(k + 1),
                spec_replace_all(out@, p.pattern, token_value(p.kind, p.id, segs, sel, ext)),
                segs,
                sel,
                ext,
            ));
        }
        out = next;
        k = k + 1;
    }
    proof {
        assert(allp.skip(k as int) =~= Seq::<FormatPatternView>::empty());
    }
    string_from_chars(&out)
}

/// A completed renaming: the original value and the resolved future value,
/// for a file or for a text input.
#[derive(Debug)]
pub enum Renamed {
    /// A renamed file, with its paths and names.
    File(RenamedFile),
    /// A transformed text value.
    Text(RenamedText),
}

/// The mathematical content of a [`Renamed`].
pub ghost enum RenamedView {
    /// A renamed file: both full paths and both filenames.
    File {
        /// The original full path.
        original_path: Seq<char>,
        /// The future full path: the original with its filename replaced.
        new_path: Seq<char>,
        /// The original filename.
        original_name: Seq<char>,
        /// The resolved future filename.
        new_name: Seq<char>,
    },
    /// A transformed text value: the original and the resolved output.
    Text {
        /// The original text.
        original: Seq<char>,
        /// The resolved output text.
        new: Seq<char>,
    },
}

/// The original value a [`Renamed`] reports.
pub open spec fn spec_renamed_original(r: RenamedView) -> Seq<char> {
    match r {
        RenamedView::File { original_name, .. } => original_name,
        RenamedView::Text { original, .. } => original,
    }
}

/// The future value a [`Renamed`] reports.
pub open spec fn spec_renamed_future(r: RenamedView) -> Seq<char> {
    match r {
        RenamedView::File { new_name, .. } => new_name,
        RenamedView::Text { new, .. } => new,
    }
}

impl View for Renamed {
    type V = RenamedView;

    open spec fn view(&self) -> RenamedView {
        match self {
            Renamed::File(f) => f@,
            Renamed::Text(t) => t@,
        }
    }
}

impl DeepView for Renamed {
    type V = RenamedView;

    open spec fn deep_view(&self) -> RenamedView {
        self.view()
    }
}

impl Renamed {
    /// The original value.
    pub fn original(&self) -> (r: &str)
        ensures
            r@ == spec_renamed_original(self@),
    {
        match self {
            Renamed::File(f) => f.original_name(),
            Renamed::Text(t) => t.original(),
        }
    }

    /// The future value the pipeline resolved.
    pub fn future(&self) -> (r: &str)
        ensures
            r@ == spec_renamed_future(self@),
    {
        match self {
            Renamed::File(f) => f.new_name(),
            Renamed::Text(t) => t.future(),
        }
    }
}

/// A renamed file: the original path, the future sibling path, and both
/// filename components. Committing the rename on the filesystem is left to
/// the caller, through [`RenamedFile::original_path`] and
/// [`RenamedFile::new_path`].
#[derive(Debug)]
pub struct RenamedFile {
    original_path: String,
    new_path: String,
    original_name: String,
    new_name: String,
}

/// The mathematical content of a [`RenamedFile`].
pub ghost struct RenamedFileView {
    /// The original full path.
    pub original_path: Seq<char>,
    /// The future full path.
    pub new_path: Seq<char>,
    /// The original filename.
    pub original_name: Seq<char>,
    /// The future filename.
    pub new_name: Seq<char>,
}

impl View for RenamedFile {
    type V = RenamedView;

    closed spec fn view(&self) -> RenamedView {
        RenamedView::File {
            original_path: self.original_path@,
            new_path: self.new_path@,
            original_name: self.original_name@,
            new_name: self.new_name@,
        }
    }
}

impl RenamedFile {
    /// Packages a rename of the file at `original_path` to the sibling named
    /// `new_name`.
    pub fn new(original_path: &str, new_name: &str) -> (r: Self)
        ensures
            r@ == (RenamedView::File {
                original_path: original_path@,
                new_path: spec_with_file_name(original_path@, new_name@),
                original_name: spec_file_name(original_path@),
                new_name: new_name@,
            }),
    {
        RenamedFile {
            original_path: original_path.to_owned(),
            new_path: with_file_name(original_path, new_name),
            original_name: file_name_of(original_path),
            new_name: new_name.to_owned(),
        }
    }

    /// The original full path.
    pub fn original_path(&self) -> (r: &str)
        ensures
            self@ matches RenamedView::File { original_path, .. } && r@ == original_path,
    {
        self.original_path.as_str()
    }

    /// The original filename.
    pub fn original_name(&self) -> (r: &str)
        ensures
            self@ matches RenamedView::File { original_name, .. } && r@ == original_name,
    {
        self.original_name.as_str()
    }

    /// The future full path.
    pub fn new_path(&self) -> (r: &str)
        ensures
            self@ matches RenamedView::File { new_path, .. } && r@ == new_path,
    {
        self.new_path.as_str()
    }

    /// The future filename.
    pub fn new_name(&self) -> (r: &str)
        ensures
            self@ matches RenamedView::File { new_name, .. } && r@ == new_name,
    {
        self.new_name.as_str()
    }
}

/// A transformed text value: the original and the resolved output. There is
/// nothing to commit for a text input.
#[derive(Debug)]
pub struct RenamedText {
    original: String,
    new: String,
}

impl View for RenamedText {
    type V = RenamedView;

    closed spec fn view(&self) -> RenamedView {
        RenamedView::Text { original: self.original@, new: self.new@ }
    }
}

impl RenamedText {
    /// Packages a transformed text value.
    pub fn new(original: &str, new: &str) -> (r: Self)
        ensures
            r@ == (RenamedView::Text { original: original@, new: new@ }),
    {
        RenamedText { original: original.to_owned(), new: new.to_owned() }
    }

    /// The original text.
    pub fn original(&self) -> (r: &str)
        ensures
            self@ matches RenamedView::Text { original, .. } && r@ == original,
    {
        self.original.as_str()
    }

    /// The resolved output text.
    pub fn future(&self) -> (r: &str)
        ensures
            self@ matches RenamedView::Text { new, .. } && r@ == new,
    {
        self.new.as_str()
    }
}

/// Holds one file input together with the stage results, ready to resolve
/// the template into a [`RenamedFile`].
#[derive(Debug)]
pub struct FileRenamer {
    segments: Vec<String>,
    selected: Vec<Option<String>>,
    extracted: Vec<Option<String>>,
    format: Format,
    original_path: String,
}

/// The mathematical content of a [`FileRenamer`].
pub ghost struct FileRenamerView {
    /// The final segment sequence.
    pub segments: Seq<Seq<char>>,
    /// The selector results, in configured order.
    pub selected: Seq<Option<Seq<char>>>,
    /// The extractor results, in configured order.
    pub extracted: Seq<Option<Seq<char>>>,
    /// The format template.
    pub format: crate::processor::format::FormatView,
    /// The original full path.
    pub original_path: Seq<char>,
}

impl View for FileRenamer {
    type V = FileRenamerView;

    closed spec fn view(&self) -> FileRenamerView {
        FileRenamerView {
            segments: self.segments.deep_view(),
            selected: self.selected.deep_view(),
            extracted: self.extracted.deep_view(),
            format: self.format@,
            original_path: self.original_path@,
        }
    }
}

impl FileRenamer {
    /// Creates a new [`FileRenamer`].
    pub fn new(
        original_path: &str,
        segments: Vec<String>,
        selected: Vec<Option<String>>,
        extracted: Vec<Option<String>>,
        format: Format,
    ) -> (r: Self)
        ensures
            r@ == (FileRenamerView {
                segments: segments.deep_view(),
                selected: selected.deep_view(),
                extracted: extracted.deep_view(),
                format: format@,
                original_path: original_path@,
            }),
    {
        FileRenamer {
            segments,
            selected,
            extracted,
            format,
            original_path: original_path.to_owned(),
        }
    }

    /// Resolves the template and packages the renamed file.
    pub fn rename(&self) -> (r: Renamed)
        ensures
            r@ == (RenamedView::File {
                original_path: self@.original_path,
                new_path: spec_with_file_name(
                    self@.original_path,
                    spec_resolve(
                        self@.format.patterns,
                        self@.format.value,
                        self@.segments,
                        self@.selected,
                        self@.extracted,
                    ),
                ),
                original_name: spec_file_name(self@.original_path),
                new_name: spec_resolve(
                    self@.format.patterns,
                    self@.format.value,
                    self@.segments,
                    self@.selected,
                    self@.extracted,
                ),
            }),
    {
        let new_name = process_format(&self.segments, &self.selected, &self.extracted, &self.format);
        Renamed::File(RenamedFile::new(self.original_path.as_str(), new_name.as_str()))
    }
}

/// Holds one text input together with the stage results, ready to resolve
/// the template into a [`RenamedText`].
#[derive(Debug)]
pub struct TextRenamer {
    segments: Vec<String>,
    selected: Vec<Option<String>>,
    extracted: Vec<Option<String>>,
    format: Format,
    original_string: String,
}

/// The mathematical content of a [`TextRenamer`].
pub ghost struct TextRenamerView {
    /// The final segment sequence.
    pub segments: Seq<Seq<char>>,
    /// The selector results, in configured order.
    pub selected: Seq<Option<Seq<char>>>,
    /// The extractor results, in configured order.
    pub extracted: Seq<Option<Seq<char>>>,
    /// The format template.
    pub format: crate::processor::format::FormatView,
    /// The original text.
    pub original_string: Seq<char>,
}

impl View for TextRenamer {
    type V = TextRenamerView;

    closed spec fn view(&self) -> TextRenamerView {
        TextRenamerView {
            segments: self.segments.deep_view(),
            selected: self.selected.deep_view(),
            extracted: self.extracted.deep_view(),
            format: self.format@,
            original_string: self.original_string@,
        }
    }
}

impl TextRenamer {
    /// Creates a new [`TextRenamer`].
    pub fn new(
        original_string: &str,
        segments: Vec<String>,
        selected: Vec<Option<String>>,
        extracted: Vec<Option<String>>,
        format: Format,
    ) -> (r: Self)
        ensures
            r@ == (TextRenamerView {
                segments: segments.deep_view(),
                selected: selected.deep_view(),
                extracted: extracted.deep_view(),
                format: format@,
                original_string: original_string@,
            }),
    {
        TextRenamer {
            segments,
            selected,
            extracted,
            format,
            original_string: original_string.to_owned(),
        }
    }

    /// Resolves the template and packages the transformed text.
    pub fn rename(&self) -> (r: Renamed)
        ensures
            r@ == (RenamedView::Text {
                original: self@.original_string,
                new: spec_resolve(
                    self@.format.patterns,
                    self@.format.value,
                    self@.segments,
                    self@.selected,
                    self@.extracted,
                ),
            }),
    {
        let new = process_format(&self.segments, &self.selected, &self.extracted, &self.format);
        Renamed::Text(RenamedText::new(self.original_string.as_str(), new.as_str()))
    }
}

/// A renamer of either sort, ready to produce a [`Renamed`].
#[derive(Debug)]
pub enum RenameProcessor {
    /// Resolves for a file input.
    File(FileRenamer),
    /// Resolves for a text input.
    Text(TextRenamer),
}

impl RenameProcessor {
    /// Resolves the template for the held input.
    pub fn rename(&self) -> (r: Renamed)
        ensures
            (self matches RenameProcessor::File(f) ==> r@ == (RenamedView::File {
                original_path: f@.original_path,
                new_path: spec_with_file_name(
                    f@.original_path,
                    spec_resolve(
                        f@.format.patterns,
                        f@.format.value,
                        f@.segments,
                        f@.selected,
                        f@.extracted,
                    ),
                ),
                original_name: spec_file_name(f@.original_path),
                new_name: spec_resolve(
                    f@.format.patterns,
                    f@.format.value,
                    f@.segments,
                    f@.selected,
                    f@.extracted,
                ),
            })),
            (self matches RenameProcessor::Text(t) ==> r@ == (RenamedView::Text {
                original: t@.original_string,
                new: spec_resolve(
                    t@.format.patterns,
                    t@.format.value,
                    t@.segments,
                    t@.selected,
                    t@.extracted,
                ),
            })),
    {
        match self {
            RenameProcessor::File(f) => f.rename(),
            RenameProcessor::Text(t) => t.rename(),
        }
    }
}

} // verus!
