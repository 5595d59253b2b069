//! The processing pipeline: an ordered configuration of stages, a set of
//! inputs, and the processing run that turns each input into a [`Renamed`].

pub(crate) mod delimiter;
pub(crate) mod extractor;
pub(crate) mod format;
pub(crate) mod inputs;
pub(crate) mod rename;
pub(crate) mod replacer;
pub(crate) mod selector;
pub(crate) mod trim;

use crate::error::Error;
use crate::patterns::re_first_match;
use crate::processor::delimiter::{spec_split, Delimiter, DelimiterView};
use crate::processor::extractor::{Extractor, ExtractorView};
use crate::processor::format::{Format, FormatView};
use crate::processor::inputs::{InputType, InputTypeView};
use crate::processor::rename::{
    file_name_of, spec_file_name, spec_resolve, spec_with_file_name, FileRenamer, RenameProcessor,
    Renamed, RenamedView, TextRenamer,
};
use crate::processor::replacer::{spec_replace_slice, Replacer, ReplacerView};
use crate::processor::selector::{spec_match_segment, Selector, SelectorView};
use crate::processor::trim::{spec_trim_slice, Trim, TrimView};
use vstd::prelude::*;

verus! {

/// The mathematical content of a [`ProcessorBuilder`]: every configured
/// stage, in order, and the deduplicated inputs in insertion order.
pub ghost struct ProcessorView {
    /// The delimiters, in configured order.
    pub delimiters: Seq<DelimiterView>,
    /// The extractors, in configured order.
    pub extractors: Seq<ExtractorView>,
    /// The format template.
    pub format: FormatView,
    /// The inputs, deduplicated, in insertion order.
    pub inputs: Seq<InputTypeView>,
    /// The replacers, in configured order.
    pub replacers: Seq<ReplacerView>,
    /// The selectors, in configured order.
    pub selectors: Seq<SelectorView>,
    /// The trims, in configured order.
    pub trims: Seq<TrimView>,
}

/// One delimiter applied to every segment, the results concatenated in
/// segment order.
pub open spec fn spec_split_all(d: DelimiterView, segs: Seq<Seq<char>>) -> Seq<Seq<char>> {
    segs.map_values(|s: Seq<char>| spec_split(d, s)).flatten()
}

/// The delimiters applied in order, each pass refining every segment the
/// previous pass produced.
pub open spec fn spec_apply_delimiters(ds: Seq<DelimiterView>, segs: Seq<Seq<char>>) -> Seq<
    Seq<char>,
>
    decreases ds.len(),
{
    if ds.len() == 0 {
        segs
    } else {
        spec_apply_delimiters(ds.skip(1), spec_split_all(ds[0], segs))
    }
}

/// The trims folded over the segment sequence, in configured order.
pub open spec fn spec_apply_trims(ts: Seq<TrimView>, segs: Seq<Seq<char>>) -> Seq<Seq<char>>
    decreases ts.len(),
{
    if ts.len() == 0 {
        segs
    } else {
        spec_apply_trims(ts.skip(1), spec_trim_slice(ts[0], segs))
    }
}

/// The replacers folded over the segment sequence, in configured order.
pub open spec fn spec_apply_replacers(rs: Seq<ReplacerView>, segs: Seq<Seq<char>>) -> Seq<
    Seq<char>,
>
    decreases rs.len(),
{
    if rs.len() == 0 {
        segs
    } else {
        spec_apply_replacers(rs.skip(1), spec_replace_slice(rs[0], segs))
    }
}

/// Each selector evaluated once against the final segment sequence.
pub open spec fn spec_select_all(ss: Seq<SelectorView>, segs: Seq<Seq<char>>) -> Seq<
    Option<Seq<char>>,
> {
    ss.map_values(|s: SelectorView| spec_match_segment(s.pattern, segs))
}

/// Each extractor evaluated once against the original, unsplit input.
pub open spec fn spec_extract_all(es: Seq<ExtractorView>, text: Seq<char>) -> Seq<
    Option<Seq<char>>,
> {
    es.map_values(|e: ExtractorView| re_first_match(e.pattern, text))
}

/// The text the stages work on: the filename component for a file input,
/// the text itself for a text input.
pub open spec fn spec_input_text(i: InputTypeView) -> Seq<char> {
    match i {
        InputTypeView::File(p) => spec_file_name(p),
        InputTypeView::Text(t) => t,
    }
}

/// The final segment sequence for one input text: delimit, then trim, then
/// replace.
pub open spec fn spec_segments(cfg: ProcessorView, text: Seq<char>) -> Seq<Seq<char>> {
    spec_apply_replacers(
        cfg.replacers,
        spec_apply_trims(cfg.trims, spec_apply_delimiters(cfg.delimiters, seq![text])),
    )
}

/// The resolved output string for one input text.
pub open spec fn spec_future_name(cfg: ProcessorView, text: Seq<char>) -> Seq<char> {
    spec_resolve(
        cfg.format.patterns,
        cfg.format.value,
        spec_segments(cfg, text),
        spec_select_all(cfg.selectors, spec_segments(cfg, text)),
        spec_extract_all(cfg.extractors, text),
    )
}

/// The result of processing one input under a configuration.
pub open spec fn spec_process_one(cfg: ProcessorView, input: InputTypeView) -> RenamedView {
    match input {
        InputTypeView::File(p) => RenamedView::File {
            original_path: p,
            new_path: spec_with_file_name(p, spec_future_name(cfg, spec_file_name(p))),
            original_name: spec_file_name(p),
            new_name: spec_future_name(cfg, spec_file_name(p)),
        },
        InputTypeView::Text(t) => RenamedView::Text { original: t, new: spec_future_name(cfg, t) },
    }
}

/// The results of processing the first `count` inputs, in input order.
pub open spec fn spec_process(cfg: ProcessorView, count: int) -> Seq<RenamedView> {
    cfg.inputs.take(count).map_values(|i: InputTypeView| spec_process_one(cfg, i))
}

/// Processing is a function of the configuration and inputs alone:
/// re-running it yields identical original/future pairs, with no hidden
/// state between runs.
pub proof fn lemma_process_idempotent(
    cfg: ProcessorView,
    count: int,
    r1: Seq<RenamedView>,
    r2: Seq<RenamedView>,
)
    requires
        r1 == spec_process(cfg, count),
        r2 == spec_process(cfg, count),
    ensures
        r1 == r2,
{
}

/// A sequence of inputs extended one by one, each appended only when not
/// already present.
pub open spec fn spec_add_inputs(cur: Seq<InputTypeView>, more: Seq<InputTypeView>) -> Seq<
    InputTypeView,
>
    decreases more.len(),
{
    if more.len() == 0 {
        cur
    } else {
        spec_add_inputs(
            if cur.contains(more[0]) {
                cur
            } else {
                cur.push(more[0])
            },
            more.skip(1),
        )
    }
}

/// Configures a renaming run and produces one [`Renamed`] per processed
/// input.
#[derive(Debug)]
pub struct ProcessorBuilder {
    delimiters: Vec<Delimiter>,
    extractors: Vec<Extractor>,
    format: Format,
    inputs: Vec<InputType>,
    replacers: Vec<Replacer>,
    selectors: Vec<Selector>,
    trims: Vec<Trim>,
}

impl View for ProcessorBuilder {
    type V = ProcessorView;

    closed spec fn view(&self) -> ProcessorView {
        ProcessorView {
            delimiters: self.delimiters.deep_view(),
            extractors: self.extractors.deep_view(),
            format: self.format@,
            inputs: self.inputs.deep_view(),
            replacers: self.replacers.deep_view(),
            selectors: self.selectors.deep_view(),
            trims: self.trims.deep_view(),
        }
    }
}

/// Whether `x` already occurs among `inputs`.
fn contains_input(inputs: &Vec<InputType>, x: &InputType) -> (r: bool)
    ensures
        r == inputs.deep_view().contains(x@),
{
    let mut k: usize = 0;
    while k < inputs.len()
        invariant
            0 <= k <= inputs@.len(),
            forall|m: int| 0 <= m < k ==> inputs.deep_view()[m] != x@,
        decreases inputs@.len() - k,
    {
        if inputs[k] == *x {
            assert(inputs.deep_view()[k as int] == x@);
            return true;
        }
        k = k + 1;
    }
    false
}

impl ProcessorBuilder {
    /// Constructs a new [`ProcessorBuilder`] around a format template.
    pub fn new(format: Format) -> (r: Self)
        ensures
            r@ == (ProcessorView {
                delimiters: Seq::empty(),
                extractors: Seq::empty(),
                format: format@,
                inputs: Seq::empty(),
                replacers: Seq::empty(),
                selectors: Seq::empty(),
                trims: Seq::empty(),
            }),
    {
        let r = ProcessorBuilder {
            delimiters: Vec::new(),
            extractors: Vec::new(),
            format,
            inputs: Vec::new(),
            replacers: Vec::new(),
            selectors: Vec::new(),
            trims: Vec::new(),
        };
        proof {
            assert(r@.delimiters =~= Seq::<DelimiterView>::empty());
            assert(r@.extractors =~= Seq::<ExtractorView>::empty());
            assert(r@.inputs =~= Seq::<InputTypeView>::empty());
            assert(r@.replacers =~= Seq::<ReplacerView>::empty());
            assert(r@.selectors =~= Seq::<SelectorView>::empty());
            assert(r@.trims =~= Seq::<TrimView>::empty());
        }
        r
    }

    /// Appends a single [`Delimiter`] to the configuration.
    pub fn delimiter(self, delimiter: Delimiter) -> (r: Self)
        ensures
            r@ == (ProcessorView { delimiters: self@.delimiters.push(delimiter@), ..self@ }),
    {
        let mut s = self;
        s.delimiters.push(delimiter);
        proof {
            assert(s@.delimiters =~= self@.delimiters.push(delimiter@));
        }
        s
    }

    /// Appends multiple [`Delimiter`] items to the configuration.
    pub fn delimiters(self, delimiters: Vec<Delimiter>) -> (r: Self)
        ensures
            r@ == (ProcessorView {
                delimiters: self@.delimiters + delimiters.deep_view(),
                ..self@
            }),
    {
        let mut s = self;
        let mut more = delimiters;
        s.delimiters.append(&mut more);
        proof {
            assert(s@.delimiters =~= self@.delimiters + delimiters.deep_view());
        }
        s
    }

    /// Appends a single [`Extractor`] to the configuration.
    pub fn extractor(self, extractor: Extractor) -> (r: Self)
        ensures
            r@ == (ProcessorView { extractors: self@.extractors.push(extractor@), ..self@ }),
    {
        let mut s = self;
        s.extractors.push(extractor);
        proof {
            assert(s@.extractors =~= self@.extractors.push(extractor@));
        }
        s
    }

    /// Appends multiple [`Extractor`] items to the configuration.
    pub fn extractors(self, extractors: Vec<Extractor>) -> (r: Self)
        ensures
            r@ == (ProcessorView {
                extractors: self@.extractors + extractors.deep_view(),
                ..self@
            }),
    {
        let mut s = self;
        let mut more = extractors;
        s.extractors.append(&mut more);
        proof {
            assert(s@.extractors =~= self@.extractors + extractors.deep_view());
        }
        s
    }

    /// Appends a single input, unless an equal one is already configured.
    pub fn input(self, input: InputType) -> (r: Self)
        ensures
            r@ == (ProcessorView {
                inputs: if self@.inputs.contains(input@) {
                    self@.inputs
                } else {
                    self@.inputs.push(input@)
                },
                ..self@
            }),
    {
        let mut s = self;
        if !contains_input(&s.inputs, &input) {
            let ghost before = s.inputs.deep_view();
            s.inputs.push(input);
            proof {
                assert(s.inputs.deep_view() =~= before.push(input@));
            }
        }
        s
    }

    /// Appends multiple inputs in order, each unless an equal one is already
    /// configured.
    pub fn inputs(self, inputs: Vec<InputType>) -> (r: Self)
        ensures
            r@ == (ProcessorView {
                inputs: spec_add_inputs(self@.inputs, inputs.deep_view()),
                ..self@
            }),
    {
        let ghost orig = self@;
        let ghost all_more = inputs.deep_view();
        let mut s = self;
        let mut more = inputs;
        while more.len() > 0
            invariant
                s@ == (ProcessorView { inputs: s@.inputs, ..orig }),
                spec_add_inputs(orig.inputs, all_more) == spec_add_inputs(
                    s@.inputs,
                    more.deep_view(),
                ),
            decreases more@.len(),
        {
            let ghost more_before = more.deep_view();
            let x = more.remove(0);
            proof {
                assert(more.deep_view() =~= more_before.skip(1));
                assert(x@ == more_before[0]);
            }
            let ghost before = s.inputs.deep_view();
            if !contains_input(&s.inputs, &x) {
                s.inputs.push(x);
                proof {
                    assert(s.inputs.deep_view() =~= before.push(x@));
                }
            }
        }
        proof {
            assert(more.deep_view() =~= Seq::<InputTypeView>::empty());
        }
        s
    }

    /// Appends a single [`Replacer`] to the configuration.
    pub fn replacer(self, replacer: Replacer) -> (r: Self)
        ensures
            r@ == (ProcessorView { replacers: self@.replacers.push(replacer@), ..self@ }),
    {
        let mut s = self;
        s.replacers.push(replacer);
        proof {
            assert(s@.replacers =~= self@.replacers.push(replacer@));
        }
        s
    }

    /// Appends multiple [`Replacer`] items to the configuration.
    pub fn replacers(self, replacers: Vec<Replacer>) -> (r: Self)
        ensures
            r@ == (ProcessorView {
                replacers: self@.replacers + replacers.deep_view(),
                ..self@
            }),
    {
        let mut s = self;
        let mut more = replacers;
        s.replacers.append(&mut more);
        proof {
            assert(s@.replacers =~= self@.replacers + replacers.deep_view());
        }
        s
    }

    /// Appends a single [`Selector`] to the configuration.
    pub fn selector(self, selector: Selector) -> (r: Self)
        ensures
            r@ == (ProcessorView { selectors: self@.selectors.push(selector@), ..self@ }),
    {
        let mut s = self;
        s.selectors.push(selector);
        proof {
            assert(s@.selectors =~= self@.selectors.push(selector@));
        }
        s
    }

    /// Appends multiple [`Selector`] items to the configuration.
    pub fn selectors(self, selectors: Vec<Selector>) -> (r: Self)
        ensures
            r@ == (ProcessorView {
                selectors: self@.selectors + selectors.deep_view(),
                ..self@
            }),
    {
        let mut s = self;
        let mut more = selectors;
        s.selectors.append(&mut more);
        proof {
            assert(s@.selectors =~= self@.selectors + selectors.deep_view());
        }
        s
    }

    /// Appends a single [`Trim`] to the configuration.
    pub fn trim(self, trim: Trim) -> (r: Self)
        ensures
            r@ == (ProcessorView { trims: self@.trims.push(trim@), ..self@ }),
    {
        let mut s = self;
        s.trims.push(trim);
        proof {
            assert(s@.trims =~= self@.trims.push(trim@));
        }
        s
    }

    /// Appends multiple [`Trim`] items to the configuration.
    pub fn trims(self, trims: Vec<Trim>) -> (r: Self)
        ensures
            r@ == (ProcessorView { trims: self@.trims + trims.deep_view(), ..self@ }),
    {
        let mut s = self;
        let mut more = trims;
        s.trims.append(&mut more);
        proof {
            assert(s@.trims =~= self@.trims + trims.deep_view());
        }
        s
    }

    /// Processes every configured input, producing one [`Renamed`] per
    /// input, in input order.
    pub fn process(&self) -> (r: Result<Vec<Renamed>, Error>)
        ensures
            r matches Ok(v) && v.deep_view() == spec_process(self@, self@.inputs.len() as int),
    {
        let renamed = self.process_inputs(None);
        Ok(renamed)
    }

    /// Processes at most `processing_limit` inputs, in input order; a zero
    /// limit is rejected.
    pub fn process_subset(&self, processing_limit: usize) -> (r: Result<Vec<Renamed>, Error>)
        ensures
            r is Ok <==> processing_limit > 0,
            (r matches Ok(v) ==> v.deep_view() == spec_process(
                self@,
                if processing_limit <= self@.inputs.len() {
                    processing_limit as int
                } else {
                    self@.inputs.len() as int
                },
            )),
            (r matches Err(e) ==> e is InvalidConfiguration),
    {
        if processing_limit == 0 {
            Err(Error::InvalidConfiguration("processing_limit must be greater than 0".to_owned()))
        } else {
            Ok(self.process_inputs(Some(processing_limit)))
        }
    }

    /// Processes the first inputs up to the limit, or all of them.
    fn process_inputs(&self, processing_limit: Option<usize>) -> (r: Vec<Renamed>)
        ensures
            r.deep_view() == spec_process(
                self@,
                match processing_limit {
                    None => self@.inputs.len() as int,
                    Some(l) => if l <= self@.inputs.len() {
                        l as int
                    } else {
                        self@.inputs.len() as int
                    },
                },
            ),
    {
        let count: usize = match processing_limit {
            None => self.inputs.len(),
            Some(l) => if l <= self.inputs.len() {
                l
            } else {
                self.inputs.len()
            },
        };
        let mut renamed: Vec<Renamed> = Vec::new();
        let mut k: usize = 0;
        while k < count
            invariant
                0 <= k <= count <= self@.inputs.len(),
                renamed.deep_view() == self@.inputs.take(k as int).map_values(
                    |i: InputTypeView| spec_process_one(self@, i),
                ),
            decreases count - k,
        {
            let ghost before = renamed.deep_view();
            let rn = self.process_one(&self.inputs[k]);
            renamed.push(rn);
            proof {
                let f = |i: InputTypeView| spec_process_one(self@, i);
                assert(renamed.deep_view() =~= before.push(f(self@.inputs[k as int])));
                assert(renamed.deep_view() =~= self@.inputs.take(k + 1).map_values(f));
            }
            k = k + 1;
        }
        renamed
    }

    /// Runs the stages for one input and resolves the template.
    fn process_one(&self, input: &InputType) -> (r: Renamed)
        ensures
            r@ == spec_process_one(self@, input@),
    {
        let process_string: String = match input {
            InputType::File(f) => file_name_of(f.value()),
            InputType::Text(t) => t.value().to_owned(),
        };
        let ghost text = spec_input_text(input@);
        let extracted = self.process_extractors(process_string.as_str());
        let mut seed: Vec<String> = Vec::new();
        seed.push(process_string);
        proof {
            assert(seed.deep_view() =~= seq![text]);
        }
        let segments = self.process_delimiters(&seed);
        let segments = self.process_trims(segments);
        let segments = self.process_replacers(segments);
        let selected = self.process_selectors(&segments);
        match input {
            InputType::File(f) => RenameProcessor::File(
                FileRenamer::new(f.value(), segments, selected, extracted, self.format.clone()),
            ).rename(),
            InputType::Text(t) => RenameProcessor::Text(
                TextRenamer::new(t.value(), segments, selected, extracted, self.format.clone()),
            ).rename(),
        }
    }

    /// Applies the delimiters in order; each pass splits every segment the
    /// previous pass produced, concatenating the results in segment order.
    fn process_delimiters(&self, values: &Vec<String>) -> (r: Vec<String>)
        ensures
            r.deep_view() == spec_apply_delimiters(self@.delimiters, values.deep_view()),
    {
        let ghost all = self@.delimiters;
        let mut current: Vec<String> = clone_strings(values);
        let mut k: usize = 0;
        proof {
            assert(all.skip(0) =~= all);
        }
        while k < self.delimiters.len()
            invariant
                0 <= k <= all.len(),
                all == self@.delimiters,
                spec_apply_delimiters(all, values.deep_view()) == spec_apply_delimiters(
                    all.skip(k as int),
                    current.deep_view(),
                ),
            decreases all.len() - k,
        {
            let ghost tail = all.skip(k as int);
            let ghost f = |s: Seq<char>| spec_split(all[k as int], s);
            let mut next: Vec<String> = Vec::new();
            let mut m: usize = 0;
            proof {
                assert(current.deep_view().take(0).map_values(f) =~= Seq::<
                    Seq<Seq<char>>,
                >::empty());
                assert(next.deep_view() =~~= current.deep_view().take(0).map_values(f).flatten());
            }
            while m < current.len()
                invariant
                    0 <= m <= current@.len(),
                    0 <= k < all.len(),
                    all == self@.delimiters,
                    f == (|s: Seq<char>| spec_split(all[k as int], s)),
                    next.deep_view() == current.deep_view().take(m as int).map_values(f).flatten(),
                decreases current@.len() - m,
            {
                let mut parts = self.delimiters[k].split(current[m].as_str());
                let ghost before = next.deep_view();
                let ghost part_views = parts.deep_view();
                next.append(&mut parts);
                proof {
                    assert(next.deep_view() =~~= before + part_views);
                    let mapped = current.deep_view().take(m as int).map_values(f);
                    assert(current.deep_view().take(m + 1).map_values(f) =~= mapped.push(
                        f(current.deep_view()[m as int]),
                    ));
                    mapped.lemma_flatten_push(f(current.deep_view()[m as int]));
                    assert(next.deep_view() =~= current.deep_view().take(m + 1).map_values(
                        f,
                    ).flatten());
                }
                m = m + 1;
            }
            proof {
                assert(current.deep_view().take(current.deep_view().len() as int) =~=
                    current.deep_view());
                assert(next.deep_view() == spec_split_all(all[k as int], current.deep_view()));
                assert(tail[0] == all[k as int]);
                assert(tail.skip(1) =~= all.skip(k + 1));
            }
            current = next;
            k = k + 1;
        }
        proof {
            assert(all.skip(k as int) =~= Seq::<DelimiterView>::empty());
        }
        current
    }

    /// Applies the trims in order, each over the whole segment sequence.
    fn process_trims(&self, segments: Vec<String>) -> (r: Vec<String>)
        ensures
            r.deep_view() == spec_apply_trims(self@.trims, segments.deep_view()),
    {
        let ghost all = self@.trims;
        let mut current = segments;
        let ghost orig = current.deep_view();
        let mut k: usize = 0;
        proof {
            assert(all.skip(0) =~= all);
        }
        while k < self.trims.len()
            invariant
                0 <= k <= all.len(),
                all == self@.trims,
                spec_apply_trims(all, orig) == spec_apply_trims(
                    all.skip(k as int),
                    current.deep_view(),
                ),
            decreases all.len() - k,
        {
            let ghost tail = all.skip(k as int);
            proof {
                assert(tail[0] == all[k as int]);
                assert(tail.skip(1) =~= all.skip(k + 1));
            }
            current = self.trims[k].trim_slice(&current);
            k = k + 1;
        }
        proof {
            assert(all.skip(k as int) =~= Seq::<TrimView>::empty());
        }
        current
    }

    /// Applies the replacers in order, each over the whole segment sequence.
    fn process_replacers(&self, segments: Vec<String>) -> (r: Vec<String>)
        ensures
            r.deep_view() == spec_apply_replacers(self@.replacers, segments.deep_view()),
    {
        let ghost all = self@.replacers;
        let mut current = segments;
        let ghost orig = current.deep_view();
        let mut k: usize = 0;
        proof {
            assert(all.skip(0) =~= all);
        }
        while k < self.replacers.len()
            invariant
                0 <= k <= all.len(),
                all == self@.replacers,
                spec_apply_replacers(all, orig) == spec_apply_replacers(
                    all.skip(k as int),
                    current.deep_view(),
                ),
            decreases all.len() - k,
        {
            let ghost tail = all.skip(k as int);
            proof {
                assert(tail[0] == all[k as int]);
                assert(tail.skip(1) =~= all.skip(k + 1));
            }
            current = self.replacers[k].replace_slice(&current);
            k = k + 1;
        }
        proof {
            assert(all.skip(k as int) =~= Seq::<ReplacerView>::empty());
        }
        current
    }

    /// Evaluates each selector once against the final segment sequence.
    fn process_selectors(&self, segments: &Vec<String>) -> (r: Vec<Option<String>>)
        ensures
            r.deep_view() == spec_select_all(self@.selectors, segments.deep_view()),
    {
        let ghost all = self@.selectors;
        let ghost f = |s: SelectorView| spec_match_segment(s.pattern, segments.deep_view());
        let mut r: Vec<Option<String>> = Vec::new();
        let mut k: usize = 0;
        proof {
            assert(r.deep_view() =~~= all.take(0).map_values(f));
        }
        while k < self.selectors.len()
            invariant
                0 <= k <= all.len(),
                all == self@.selectors,
                f == (|s: SelectorView| spec_match_segment(s.pattern, segments.deep_view())),
                r.deep_view() == all.take(k as int).map_values(f),
            decreases all.len() - k,
        {
            let ghost before = r.deep_view();
            r.push(self.selectors[k].match_segment(segments));
            proof {
                assert(r.deep_view() =~~= before.push(f(all[k as int])));
                assert(r.deep_view() =~~= all.take(k + 1).map_values(f));
            }
            k = k + 1;
        }
        proof {
            assert(all.take(all.len() as int) =~= all);
        }
        r
    }

    /// Evaluates each extractor once against the original, unsplit input.
    fn process_extractors(&self, value: &str) -> (r: Vec<Option<String>>)
        ensures
            r.deep_view() == spec_extract_all(self@.extractors, value@),
    {
        let ghost all = self@.extractors;
        let ghost f = |e: ExtractorView| re_first_match(e.pattern, value@);
        let mut r: Vec<Option<String>> = Vec::new();
        let mut k: usize = 0;
        proof {
            assert(r.deep_view() =~~= all.take(0).map_values(f));
        }
        while k < self.extractors.len()
            invariant
                0 <= k <= all.len(),
                all == self@.extractors,
                f == (|e: ExtractorView| re_first_match(e.pattern, value@)),
                r.deep_view() == all.take(k as int).map_values(f),
            decreases all.len() - k,
        {
            let ghost before = r.deep_view();
            r.push(self.extractors[k].extract(value));
            proof {
                assert(r.deep_view() =~~= before.push(f(all[k as int])));
                assert(r.deep_view() =~~= all.take(k + 1).map_values(f));
            }
            k = k + 1;
        }
        proof {
            assert(all.take(all.len() as int) =~= all);
        }
        r
    }
}

/// A copy of a string vector with the same contents.
fn clone_strings(values: &Vec<String>) -> (r: Vec<String>)
    ensures
        r.deep_view() == values.deep_view(),
{
    let mut r: Vec<String> = Vec::new();
    let mut k: usize = 0;
    while k < values.len()
        invariant
            0 <= k <= values@.len(),
            r.deep_view() == values.deep_view().take(k as int),
        decreases values@.len() - k,
    {
        let ghost before = r.deep_view();
        r.push(values[k].clone());
        proof {
            assert(r.deep_view() =~~= before.push(values@[k as int]@));
            assert(r.deep_view() =~~= values.deep_view().take(k + 1));
        }
        k = k + 1;
    }
    assert(r.deep_view() =~~= values.deep_view());
    r
}

} // verus!
