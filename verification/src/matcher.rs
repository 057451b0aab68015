//! The data model produced by a scan: `Capture`, `Line` and `Matches`,
//! together with the mathematical model that their contracts speak of.
//!
//! Offsets are byte offsets into the UTF-8 encoding of a line, as the
//! pattern engine reports them; the models therefore relate a capture to
//! its line through `encode_utf8`.

use vstd::prelude::*;
use vstd::utf8::encode_utf8;
use crate::pattern::find_captures;
use crate::pattern::occurrences_of;
use crate::pattern::Pattern;

verus! {

// ===== The mathematical model =====

/// One matched occurrence within a line: the byte span `[start, end)` of
/// the occurrence in the line's UTF-8 encoding, and the matched text.
#[verifier::ext_equal]
pub ghost struct CaptureModel {
    pub start: int,
    pub end: int,
    pub value: Seq<char>,
}

/// One matching line: its 1-based position in the whole input (when line
/// numbering is on), its raw text, and its captures in ascending order.
#[verifier::ext_equal]
pub ghost struct LineModel {
    pub number: Option<int>,
    pub value: Seq<char>,
    pub captures: Seq<CaptureModel>,
}

/// The complete result of scanning one input.
#[verifier::ext_equal]
pub ghost struct MatchesModel {
    pub path: Option<Seq<char>>,
    pub count: int,
    pub lines: Seq<LineModel>,
}

/// A capture lies within its line and its text is exactly the byte slice
/// of the line between its offsets.
pub open spec fn capture_in_line(c: CaptureModel, line: Seq<char>) -> bool {
    &&& 0 <= c.start <= c.end <= encode_utf8(line).len()
    &&& encode_utf8(c.value) == encode_utf8(line).subrange(c.start, c.end)
}

/// Captures are ordered by ascending start and mutually non-overlapping:
/// each one ends at or before the next one starts.
pub open spec fn captures_ordered(caps: Seq<CaptureModel>) -> bool {
    forall|i: int| 0 <= i && i + 1 < caps.len() ==> #[trigger] caps[i].end <= caps[i + 1].start
}

pub open spec fn captures_wf(caps: Seq<CaptureModel>, line: Seq<char>) -> bool {
    &&& captures_ordered(caps)
    &&& forall|i: int| 0 <= i < caps.len() ==> capture_in_line(#[trigger] caps[i], line)
}

pub open spec fn line_model_wf(l: LineModel) -> bool {
    captures_wf(l.captures, l.value)
}

pub open spec fn empty_matches() -> MatchesModel {
    MatchesModel { path: None, count: 0, lines: Seq::empty() }
}

// ===== The scan, as a mathematical function =====

/// The configuration a scan runs under.
#[verifier::ext_equal]
pub ghost struct ScanConfig {
    pub with_line_numbers: bool,
    pub track_lines: bool,
    pub invert: bool,
}

/// A line is a hit exactly when whether an occurrence was found differs
/// from the inversion flag.
pub open spec fn line_is_hit(caps: Seq<CaptureModel>, invert: bool) -> bool {
    (caps.len() > 0) != invert
}

/// The line a hit retains: numbered with its 1-based position exactly when
/// numbering is on, carrying the captures that were found. (Under
/// inversion a hit line has no captures by construction.)
pub open spec fn retained_line(
    cfg: ScanConfig,
    number: int,
    value: Seq<char>,
    caps: Seq<CaptureModel>,
) -> LineModel {
    LineModel {
        number: if cfg.with_line_numbers {
            Some(number)
        } else {
            None
        },
        value: value,
        captures: caps,
    }
}

/// How one hit line folds into the accumulating result: the count always
/// advances; the line itself is retained only when retention is on.
pub open spec fn record_hit(
    cfg: ScanConfig,
    m: MatchesModel,
    number: int,
    value: Seq<char>,
    caps: Seq<CaptureModel>,
) -> MatchesModel {
    if cfg.track_lines {
        MatchesModel {
            path: m.path,
            count: m.count + 1,
            lines: m.lines.push(retained_line(cfg, number, value, caps)),
        }
    } else {
        MatchesModel { path: m.path, count: m.count + 1, lines: m.lines }
    }
}

/// How one line folds into the accumulating result, hit or not.
pub open spec fn scan_step(
    cfg: ScanConfig,
    m: MatchesModel,
    number: int,
    value: Seq<char>,
    caps: Seq<CaptureModel>,
) -> MatchesModel {
    if line_is_hit(caps, cfg.invert) {
        record_hit(cfg, m, number, value, caps)
    } else {
        m
    }
}

/// The whole scan: fold every input line, in order, into an empty result.
/// `caps[i]` is what the pattern engine found on `input[i]`; line `i` is
/// read at 1-based position `i + 1`.
pub open spec fn scan(cfg: ScanConfig, input: Seq<Seq<char>>, caps: Seq<Seq<CaptureModel>>) -> MatchesModel
    decreases input.len(),
{
    if input.len() == 0 {
        empty_matches()
    } else {
        scan_step(
            cfg,
            scan(cfg, input.drop_last(), caps.drop_last()),
            input.len() as int,
            input.last(),
            caps.last(),
        )
    }
}

/// Every capture sequence is well-formed for its input line.
pub open spec fn all_captures_wf(caps: Seq<Seq<CaptureModel>>, input: Seq<Seq<char>>) -> bool {
    forall|j: int| 0 <= j < caps.len() ==> captures_wf(#[trigger] caps[j], input[j])
}

/// Every retained line is well-formed: its captures are ordered, mutually
/// non-overlapping, and each slices its line exactly.
pub open spec fn lines_wf(out: Seq<LineModel>) -> bool {
    forall|i: int| 0 <= i < out.len() ==> line_model_wf(#[trigger] out[i])
}

/// Under inversion no retained line carries a capture; otherwise every
/// retained line carries at least one.
pub open spec fn lines_capture_parity(out: Seq<LineModel>, invert: bool) -> bool {
    forall|i: int|
        0 <= i < out.len() ==> (if invert {
            (#[trigger] out[i]).captures.len() == 0
        } else {
            out[i].captures.len() > 0
        })
}

/// Every retained line is numbered with its 1-based ordinal within the
/// whole input — not just among the matches — and the numbers strictly
/// increase along the result.
pub open spec fn lines_numbered_in(out: Seq<LineModel>, input: Seq<Seq<char>>) -> bool {
    &&& forall|i: int|
        0 <= i < out.len() ==> ((#[trigger] out[i]).number matches Some(n) && 1 <= n <= input.len()
            && out[i].value == input[n - 1])
    &&& forall|i: int, j: int|
        0 <= i < j < out.len() ==> (out[i].number is Some && out[j].number is Some
            && out[i].number->0 < out[j].number->0)
}

/// No retained line is numbered, and each one's text is a line of the input.
pub open spec fn lines_unnumbered_from(out: Seq<LineModel>, input: Seq<Seq<char>>) -> bool {
    &&& forall|i: int| 0 <= i < out.len() ==> (#[trigger] out[i]).number is None
    &&& forall|i: int|
        0 <= i < out.len() ==> exists|k: int|
            0 <= k < input.len() && (#[trigger] out[i]).value == input[k]
}

/// The engine's verdict on every line of the input: what the pattern,
/// compiled under the case flag, finds on each one.
pub open spec fn line_verdicts(
    pattern: Seq<char>,
    case_insensitive: bool,
    input: Seq<Seq<char>>,
) -> Seq<Seq<CaptureModel>> {
    Seq::new(input.len(), |i: int| occurrences_of(pattern, case_insensitive, input[i]))
}

// ===== The exec data types =====

/// One matched occurrence: byte offsets into the scanned line, and the
/// matched substring itself.
#[derive(Debug, Clone)]
pub struct Capture {
    pub start: usize,
    pub end: usize,
    pub value: String,
}

impl View for Capture {
    type V = CaptureModel;

    open spec fn view(&self) -> CaptureModel {
        CaptureModel { start: self.start as int, end: self.end as int, value: self.value@ }
    }
}

impl DeepView for Capture {
    type V = CaptureModel;

    open spec fn deep_view(&self) -> CaptureModel {
        self.view()
    }
}

/// One matching line of input: its optional 1-based position, its raw text
/// (which may include the trailing line terminator), and its captures.
#[derive(Debug, Clone)]
pub struct Line {
    pub number: Option<usize>,
    pub value: String,
    pub captures: Vec<Capture>,
}

impl View for Line {
    type V = LineModel;

    open spec fn view(&self) -> LineModel {
        LineModel {
            number: match self.number {
                Some(n) => Some(n as int),
                None => None,
            },
            value: self.value@,
            captures: self.captures.deep_view(),
        }
    }
}

impl DeepView for Line {
    type V = LineModel;

    open spec fn deep_view(&self) -> LineModel {
        self.view()
    }
}

/// The complete result of scanning one input: an optional identifier of
/// the input, the number of matching lines, and the retained lines.
#[derive(Debug, Clone)]
pub struct Matches {
    pub path: Option<String>,
    pub count: usize,
    pub lines: Vec<Line>,
}

impl View for Matches {
    type V = MatchesModel;

    open spec fn view(&self) -> MatchesModel {
        MatchesModel {
            path: match self.path {
                Some(ref p) => Some(p@),
                None => None,
            },
            count: self.count as int,
            lines: self.lines.deep_view(),
        }
    }
}

impl Line {
    /// A line with the given text and captures and no position attached.
    pub fn new(value: String, captures: Vec<Capture>) -> (l: Line)
        ensures
            l@.number is None,
            l@.value == value@,
            l@.captures == captures.deep_view(),
    {
        Line { number: None, value, captures }
    }

    /// The same line with its 1-based position attached.
    pub fn line_number(self, number: usize) -> (l: Line)
        ensures
            l@.number == Some(number as int),
            l@.value == self@.value,
            l@.captures == self@.captures,
    {
        Line { number: Some(number), ..self }
    }
}

impl Matches {
    /// A scan result is born empty: no identity, no hits, no lines.
    pub fn new() -> (m: Matches)
        ensures
            m@ == empty_matches(),
    {
        let m = Matches { path: None, count: 0, lines: Vec::new() };
        proof {
            assert(m@.lines =~= empty_matches().lines);
            assert(m@ =~= empty_matches());
        }
        m
    }

    /// Whether the scan hit at all; true exactly when the count is positive.
    pub fn has_matches(&self) -> (r: bool)
        ensures
            r == (self@.count > 0),
    {
        self.count > 0
    }

    /// Tags the result with the identity of the scanned input.
    pub fn add_path(self, path: &str) -> (m: Matches)
        ensures
            m@.path == Some(path@),
            m@.count == self@.count,
            m@.lines == self@.lines,
    {
        Matches { path: Some(path.to_owned()), ..self }
    }

    /// Records one more matching line, retaining it.
    pub fn add(&mut self, line: Line)
        requires
            old(self).count < usize::MAX,
        ensures
            final(self)@.count == old(self)@.count + 1,
            final(self)@.lines == old(self)@.lines.push(line@),
            final(self)@.path == old(self)@.path,
    {
        self.increment();
        self.lines.push(line);
        proof {
            assert(self@.lines =~= old(self)@.lines.push(line@));
        }
    }

    /// Records one more matching line without retaining it.
    fn increment(&mut self)
        requires
            old(self).count < usize::MAX,
        ensures
            final(self).count == old(self).count + 1,
            final(self).path == old(self).path,
            final(self).lines == old(self).lines,
    {
        self.count = self.count + 1;
    }
}

// ===== Laws of the scan =====

/// A scan result carries no identity, its count never exceeds the number
/// of input lines, retention makes the count the number of retained lines,
/// and without retention nothing is retained.
pub proof fn lemma_scan_basics(cfg: ScanConfig, input: Seq<Seq<char>>, caps: Seq<Seq<CaptureModel>>)
    ensures
        scan(cfg, input, caps).path is None,
        0 <= scan(cfg, input, caps).count <= input.len(),
        cfg.track_lines ==> scan(cfg, input, caps).count == scan(cfg, input, caps).lines.len(),
        !cfg.track_lines ==> scan(cfg, input, caps).lines.len() == 0,
    decreases input.len(),
{
    if input.len() > 0 {
        lemma_scan_basics(cfg, input.drop_last(), caps.drop_last());
    }
}

/// Law: every line a scan retains is well-formed — its captures ordered by
/// ascending start, mutually non-overlapping, each slicing its line exactly
/// — and a retained line carries at least one capture, or none at all
/// under inversion.
pub proof fn lemma_scan_lines_wf(cfg: ScanConfig, input: Seq<Seq<char>>, caps: Seq<Seq<CaptureModel>>)
    requires
        caps.len() == input.len(),
        all_captures_wf(caps, input),
    ensures
        lines_wf(scan(cfg, input, caps).lines),
        lines_capture_parity(scan(cfg, input, caps).lines, cfg.invert),
    decreases input.len(),
{
    if input.len() > 0 {
        let inp = input.drop_last();
        let cp = caps.drop_last();
        assert(all_captures_wf(cp, inp)) by {
            assert forall|j: int| 0 <= j < cp.len() implies captures_wf(#[trigger] cp[j], inp[j]) by {
                assert(cp[j] == caps[j]);
                assert(inp[j] == input[j]);
            }
        }
        lemma_scan_lines_wf(cfg, inp, cp);
        let prev = scan(cfg, inp, cp);
        let out = scan(cfg, input, caps);
        let last_caps = caps.last();
        assert(captures_wf(last_caps, input.last())) by {
            assert(caps[caps.len() - 1] == last_caps);
        }
        if line_is_hit(last_caps, cfg.invert) && cfg.track_lines {
            let nl = retained_line(cfg, input.len() as int, input.last(), last_caps);
            assert(out.lines == prev.lines.push(nl));
            assert forall|i: int| 0 <= i < out.lines.len() implies line_model_wf(
                #[trigger] out.lines[i],
            ) by {
                if i < prev.lines.len() {
                    assert(out.lines[i] == prev.lines[i]);
                } else {
                    assert(out.lines[i] == nl);
                }
            }
            assert forall|i: int|
                0 <= i < out.lines.len() implies (if cfg.invert {
                (#[trigger] out.lines[i]).captures.len() == 0
            } else {
                out.lines[i].captures.len() > 0
            }) by {
                if i < prev.lines.len() {
                    assert(out.lines[i] == prev.lines[i]);
                } else {
                    assert(out.lines[i] == nl);
                }
            }
        } else {
            assert(out.lines == prev.lines);
        }
    }
}

/// Law: with line numbering on, every retained line is numbered with its
/// 1-based ordinal within the whole input, its text is that very input
/// line, and the numbers strictly increase along the result.
pub proof fn lemma_scan_numbering(cfg: ScanConfig, input: Seq<Seq<char>>, caps: Seq<Seq<CaptureModel>>)
    requires
        cfg.with_line_numbers,
    ensures
        lines_numbered_in(scan(cfg, input, caps).lines, input),
    decreases input.len(),
{
    if input.len() > 0 {
        let inp = input.drop_last();
        let cp = caps.drop_last();
        lemma_scan_numbering(cfg, inp, cp);
        let prev = scan(cfg, inp, cp);
        let out = scan(cfg, input, caps);
        assert forall|i: int|
            0 <= i < prev.lines.len() implies (#[trigger] prev.lines[i]).number matches Some(n) && 1
            <= n <= input.len() && prev.lines[i].value == input[n - 1] by {
            assert((#[trigger] prev.lines[i]).number matches Some(n) && 1 <= n <= inp.len()
                && prev.lines[i].value == inp[n - 1]);
        }
        if line_is_hit(caps.last(), cfg.invert) && cfg.track_lines {
            let nl = retained_line(cfg, input.len() as int, input.last(), caps.last());
            assert(out.lines == prev.lines.push(nl));
            assert(nl.value == input[input.len() - 1]);
            assert forall|i: int|
                0 <= i < out.lines.len() implies (#[trigger] out.lines[i]).number matches Some(n)
                && 1 <= n <= input.len() && out.lines[i].value == input[n - 1] by {
                if i < prev.lines.len() {
                    assert(out.lines[i] == prev.lines[i]);
                } else {
                    assert(out.lines[i] == nl);
                }
            }
            assert forall|i: int, j: int|
                0 <= i < j < out.lines.len() implies (out.lines[i].number is Some
                && out.lines[j].number is Some && out.lines[i].number->0 < out.lines[j].number->0) by {
                if j < prev.lines.len() {
                    assert(out.lines[i] == prev.lines[i]);
                    assert(out.lines[j] == prev.lines[j]);
                } else {
                    assert(out.lines[j] == nl);
                    assert(out.lines[i] == prev.lines[i]);
                    assert(prev.lines[i].number matches Some(n) && n <= inp.len());
                }
            }
        } else {
            assert(out.lines == prev.lines);
        }
    }
}

/// Law: with line numbering off, no retained line is numbered, and each
/// one's text is some line of the input.
pub proof fn lemma_scan_unnumbered(cfg: ScanConfig, input: Seq<Seq<char>>, caps: Seq<Seq<CaptureModel>>)
    requires
        !cfg.with_line_numbers,
    ensures
        lines_unnumbered_from(scan(cfg, input, caps).lines, input),
    decreases input.len(),
{
    if input.len() > 0 {
        let inp = input.drop_last();
        let cp = caps.drop_last();
        lemma_scan_unnumbered(cfg, inp, cp);
        let prev = scan(cfg, inp, cp);
        let out = scan(cfg, input, caps);
        assert forall|i: int|
            0 <= i < prev.lines.len() implies exists|k: int|
            0 <= k < input.len() && (#[trigger] prev.lines[i]).value == input[k] by {
            let k = choose|k: int| 0 <= k < inp.len() && prev.lines[i].value == inp[k];
            assert(inp[k] == input[k]);
        }
        if line_is_hit(caps.last(), cfg.invert) && cfg.track_lines {
            let nl = retained_line(cfg, input.len() as int, input.last(), caps.last());
            assert(out.lines == prev.lines.push(nl));
            assert forall|i: int| 0 <= i < out.lines.len() implies exists|k: int|
                0 <= k < input.len() && (#[trigger] out.lines[i]).value == input[k] by {
                if i < prev.lines.len() {
                    assert(out.lines[i] == prev.lines[i]);
                } else {
                    assert(out.lines[i] == nl);
                    assert(nl.value == input[input.len() - 1]);
                }
            }
            assert forall|i: int| 0 <= i < out.lines.len() implies (#[trigger] out.lines[i]).number
                is None by {
                if i < prev.lines.len() {
                    assert(out.lines[i] == prev.lines[i]);
                } else {
                    assert(out.lines[i] == nl);
                }
            }
        } else {
            assert(out.lines == prev.lines);
        }
    }
}

// ===== The matcher =====

/// The decision that follows the pattern engine's verdict on one line: the
/// line is kept, without a position, exactly when some occurrence was found.
pub fn line_from_captures(value: String, captures: Vec<Capture>) -> (r: Option<Line>)
    ensures
        captures.deep_view().len() > 0 ==> (r matches Some(l) && l@.number is None && l@.value
            == value@ && l@.captures == captures.deep_view()),
        captures.deep_view().len() == 0 ==> r is None,
{
    if captures.len() > 0 {
        Some(Line::new(value, captures))
    } else {
        None
    }
}

/// The single-use engine that performs one scan under a fixed
/// configuration, bound to one compiled pattern. Created fresh per scan,
/// configured before first use, and consumed by `collect`.
pub struct Matcher<'a> {
    pub regex: &'a Pattern,
    pub line_number: usize,
    pub matches: Matches,
    pub with_line_numbers: bool,
    pub track_lines: bool,
    pub invert: bool,
}

impl<'a> Matcher<'a> {
    /// The configuration this matcher scans under.
    pub open spec fn cfg(&self) -> ScanConfig {
        ScanConfig {
            with_line_numbers: self.with_line_numbers,
            track_lines: self.track_lines,
            invert: self.invert,
        }
    }

    /// The engine's verdict on one line, under this matcher's pattern.
    pub open spec fn verdict(&self, line: Seq<char>) -> Seq<CaptureModel> {
        occurrences_of(self.regex.spec_text(), self.regex.spec_case_insensitive(), line)
    }

    /// The engine's verdict on every line of the input.
    pub open spec fn verdicts(&self, input: Seq<Seq<char>>) -> Seq<Seq<CaptureModel>> {
        line_verdicts(self.regex.spec_text(), self.regex.spec_case_insensitive(), input)
    }

    /// A matcher that has not scanned anything yet.
    pub open spec fn is_fresh(&self) -> bool {
        self.line_number == 0 && self.matches@ == empty_matches()
    }

    /// Creates a new matcher with default values: line numbering on, line
    /// retention on, inversion off.
    pub fn new(regex: &'a Pattern) -> (m: Matcher<'a>)
        ensures
            m.is_fresh(),
            m.with_line_numbers,
            m.track_lines,
            !m.invert,
            m.regex == regex,
    {
        Matcher {
            regex,
            line_number: 0,
            matches: Matches::new(),
            with_line_numbers: true,
            track_lines: true,
            invert: false,
        }
    }

    /// Toggles attaching line numbers to the retained lines. Useful when
    /// the scanned source is not actually a file.
    pub fn with_line_numbers(self, w: bool) -> (m: Matcher<'a>)
        ensures
            m == (Matcher { with_line_numbers: w, ..self }),
    {
        Matcher { with_line_numbers: w, ..self }
    }

    /// Toggles retaining matching lines and their captures at all; when
    /// off, only the count advances.
    pub fn keep_lines(self, track_lines: bool) -> (m: Matcher<'a>)
        ensures
            m == (Matcher { track_lines, ..self }),
    {
        Matcher { track_lines, ..self }
    }

    /// Toggles whether "matching" means the pattern is found (the default)
    /// or absent.
    pub fn invert_match(self, invert: bool) -> (m: Matcher<'a>)
        ensures
            m == (Matcher { invert, ..self }),
    {
        Matcher { invert, ..self }
    }

    /// Scans one line for every occurrence of the pattern. `Some` exactly
    /// when the engine's verdict on the line is non-empty; the returned
    /// line carries the scanned text and exactly the verdict's captures,
    /// with no position.
    pub fn match_line(&self, line: &str) -> (r: Option<Line>)
        ensures
            captures_wf(self.verdict(line@), line@),
            (r is Some) == (self.verdict(line@).len() > 0),
            r matches Some(l) ==> {
                &&& l@.number is None
                &&& l@.value == line@
                &&& l@.captures == self.verdict(line@)
            },
    {
        let captures = find_captures(self.regex, line);
        line_from_captures(line.to_owned(), captures)
    }

    /// Advances the 1-based count of lines read so far.
    fn increment_line_number(&mut self)
        requires
            old(self).line_number < usize::MAX,
        ensures
            final(self).line_number == old(self).line_number + 1,
            final(self).matches == old(self).matches,
            final(self).regex == old(self).regex,
            final(self).cfg() == old(self).cfg(),
    {
        self.line_number = self.line_number + 1;
    }

    /// Folds one hit line into the accumulating result, honoring the
    /// retention and numbering configuration: exactly `record_hit` on the
    /// model, at the position of the line most recently read.
    pub fn add(&mut self, m: Line)
        requires
            old(self).matches.count < usize::MAX,
            m@.number is None,
        ensures
            final(self).matches@ == record_hit(
                old(self).cfg(),
                old(self).matches@,
                old(self).line_number as int,
                m@.value,
                m@.captures,
            ),
            final(self).matches.count == old(self).matches.count + 1,
            final(self).line_number == old(self).line_number,
            final(self).regex == old(self).regex,
            final(self).cfg() == old(self).cfg(),
    {
        if self.track_lines {
            if self.with_line_numbers {
                let n = self.line_number;
                self.matches.add(m.line_number(n));
            } else {
                self.matches.add(m);
            }
        } else {
            self.matches.increment();
        }
    }

    /// Consumes the matcher and scans the given lines, in order. The result
    /// is exactly the mathematical scan of the input under this
    /// configuration, folded over the engine's verdict on each line; every
    /// consequence the scan laws state holds of it.
    pub fn collect(self, lines: &Vec<String>) -> (m: Matches)
        requires
            self.is_fresh(),
        ensures
            m@ == scan(self.cfg(), lines.deep_view(), self.verdicts(lines.deep_view())),
            all_captures_wf(self.verdicts(lines.deep_view()), lines.deep_view()),
            m@.path is None,
            m@.count <= lines@.len(),
            self.track_lines ==> m@.count == m@.lines.len(),
            !self.track_lines ==> m@.lines.len() == 0,
            lines_wf(m@.lines),
            lines_capture_parity(m@.lines, self.invert),
            self.with_line_numbers ==> lines_numbered_in(m@.lines, lines.deep_view()),
            !self.with_line_numbers ==> lines_unnumbered_from(m@.lines, lines.deep_view()),
    {
        let ghost cfg = self.cfg();
        let ghost input = lines.deep_view();
        let mut this = self;
        let ghost mut caps: Seq<Seq<CaptureModel>> = Seq::empty();
        let mut i: usize = 0;
        proof {
            assert(input.take(0) =~= Seq::<Seq<char>>::empty());
            assert(this.matches@ == scan(cfg, input.take(0), caps));
        }
        while i < lines.len()
            invariant
                i <= lines@.len(),
                input == lines.deep_view(),
                input.len() == lines@.len(),
                this.line_number == i,
                this.cfg() == cfg,
                this.regex == self.regex,
                this.matches.count <= i,
                caps.len() == i as int,
                forall|j: int| 0 <= j < i ==> caps[j] == self.verdict(#[trigger] input[j]),
                all_captures_wf(caps, input),
                this.matches@ == scan(cfg, input.take(i as int), caps),
            decreases lines@.len() - i,
        {
            this.increment_line_number();
            let line_ref: &String = &lines[i];
            let found = this.match_line(line_ref.as_str());
            let ghost prev_matches = this.matches@;
            let ghost caps_i: Seq<CaptureModel> = this.verdict(input[i as int]);
            proof {
                assert(input[i as int] == lines@[i as int]@);
                assert(captures_wf(caps_i, input[i as int]));
                if found is None {
                    assert(caps_i =~= Seq::<CaptureModel>::empty());
                }
            }
            match found {
                Some(l) => {
                    if !this.invert {
                        this.add(l);
                    }
                },
                None => {
                    if this.invert {
                        let value = line_ref.clone();
                        let empty_caps: Vec<Capture> = Vec::new();
                        proof {
                            assert(empty_caps.deep_view() =~= Seq::<CaptureModel>::empty());
                        }
                        this.add(Line::new(value, empty_caps));
                    }
                },
            }
            proof {
                let t1 = input.take(i as int + 1);
                let c1 = caps.push(caps_i);
                assert(t1.drop_last() =~= input.take(i as int));
                assert(c1.drop_last() =~= caps);
                assert(t1.last() == input[i as int]);
                assert(t1.len() == i as int + 1);
                assert(scan(cfg, t1, c1) == scan_step(
                    cfg,
                    scan(cfg, input.take(i as int), caps),
                    i as int + 1,
                    input[i as int],
                    caps_i,
                ));
                assert(this.matches@ == scan_step(
                    cfg,
                    prev_matches,
                    i as int + 1,
                    input[i as int],
                    caps_i,
                ));
                assert(all_captures_wf(c1, input)) by {
                    assert forall|j: int| 0 <= j < c1.len() implies captures_wf(
                        #[trigger] c1[j],
                        input[j],
                    ) by {
                        if j < caps.len() {
                            assert(c1[j] == caps[j]);
                        } else {
                            assert(c1[j] == caps_i);
                        }
                    }
                }
                caps = c1;
            }
            i = i + 1;
        }
        proof {
            assert(input.take(lines@.len() as int) =~= input);
            assert(caps =~= self.verdicts(input));
            lemma_scan_basics(cfg, input, caps);
            lemma_scan_lines_wf(cfg, input, caps);
            if cfg.with_line_numbers {
                lemma_scan_numbering(cfg, input, caps);
            } else {
                lemma_scan_unnumbered(cfg, input, caps);
            }
        }
        this.matches
    }
}

/// Scans the lines in order with the default configuration: every retained
/// line is numbered with its position within the whole input.
pub fn find_matches(lines: &Vec<String>, regex: &Pattern) -> (m: Matches)
    ensures
        m@ == scan(
            (ScanConfig { with_line_numbers: true, track_lines: true, invert: false }),
            lines.deep_view(),
            line_verdicts(regex.spec_text(), regex.spec_case_insensitive(), lines.deep_view()),
        ),
        m@.path is None,
        m@.count == m@.lines.len(),
        m@.count <= lines@.len(),
        lines_wf(m@.lines),
        lines_capture_parity(m@.lines, false),
        lines_numbered_in(m@.lines, lines.deep_view()),
{
    Matcher::new(regex).collect(lines)
}

/// Scans the lines in order as `find_matches` does, but attaches no line
/// numbers — for sources that are not actually files.
pub fn find_matches_wo_line_numbers(lines: &Vec<String>, regex: &Pattern) -> (m: Matches)
    ensures
        m@ == scan(
            (ScanConfig { with_line_numbers: false, track_lines: true, invert: false }),
            lines.deep_view(),
            line_verdicts(regex.spec_text(), regex.spec_case_insensitive(), lines.deep_view()),
        ),
        m@.path is None,
        m@.count == m@.lines.len(),
        m@.count <= lines@.len(),
        lines_wf(m@.lines),
        lines_capture_parity(m@.lines, false),
        lines_unnumbered_from(m@.lines, lines.deep_view()),
{
    Matcher::new(regex).with_line_numbers(false).collect(lines)
}

/// The number of hit lines among the engine's verdicts.
pub open spec fn hit_count(invert: bool, caps: Seq<Seq<CaptureModel>>) -> int
    decreases caps.len(),
{
    if caps.len() == 0 {
        0
    } else {
        hit_count(invert, caps.drop_last()) + if line_is_hit(caps.last(), invert) {
            1int
        } else {
            0int
        }
    }
}

/// Law: whatever the configuration, the count a scan reports is exactly
/// the number of hit lines — the true number of matching lines.
pub proof fn lemma_scan_count_is_hit_count(
    cfg: ScanConfig,
    input: Seq<Seq<char>>,
    caps: Seq<Seq<CaptureModel>>,
)
    requires
        caps.len() == input.len(),
    ensures
        scan(cfg, input, caps).count == hit_count(cfg.invert, caps),
    decreases input.len(),
{
    if input.len() > 0 {
        lemma_scan_count_is_hit_count(cfg, input.drop_last(), caps.drop_last());
    }
}

/// The first sequence of lines is the second with every number erased:
/// same length, same texts, same captures, no numbers.
pub open spec fn erases_numbers(without: Seq<LineModel>, with_numbers: Seq<LineModel>) -> bool {
    &&& without.len() == with_numbers.len()
    &&& forall|i: int|
        0 <= i < without.len() ==> ((#[trigger] without[i]).value == with_numbers[i].value
            && without[i].captures == with_numbers[i].captures && without[i].number is None)
}

/// Law: numbering changes nothing but the numbers. A scan without line
/// numbers retains the same count and the same lines as the same scan with
/// them, each line equal but for its erased number.
pub proof fn lemma_scan_numbering_erasure(
    cfg: ScanConfig,
    input: Seq<Seq<char>>,
    caps: Seq<Seq<CaptureModel>>,
)
    ensures
        scan((ScanConfig { with_line_numbers: false, ..cfg }), input, caps).count == scan(
            (ScanConfig { with_line_numbers: true, ..cfg }),
            input,
            caps,
        ).count,
        erases_numbers(
            scan((ScanConfig { with_line_numbers: false, ..cfg }), input, caps).lines,
            scan((ScanConfig { with_line_numbers: true, ..cfg }), input, caps).lines,
        ),
    decreases input.len(),
{
    if input.len() > 0 {
        lemma_scan_numbering_erasure(cfg, input.drop_last(), caps.drop_last());
        let off = ScanConfig { with_line_numbers: false, ..cfg };
        let on = ScanConfig { with_line_numbers: true, ..cfg };
        let prev_off = scan(off, input.drop_last(), caps.drop_last());
        let prev_on = scan(on, input.drop_last(), caps.drop_last());
        let out_off = scan(off, input, caps);
        let out_on = scan(on, input, caps);
        if line_is_hit(caps.last(), cfg.invert) && cfg.track_lines {
            let nl_off = retained_line(off, input.len() as int, input.last(), caps.last());
            let nl_on = retained_line(on, input.len() as int, input.last(), caps.last());
            assert(out_off.lines == prev_off.lines.push(nl_off));
            assert(out_on.lines == prev_on.lines.push(nl_on));
            assert forall|i: int|
                0 <= i < out_off.lines.len() implies ((#[trigger] out_off.lines[i]).value
                == out_on.lines[i].value && out_off.lines[i].captures == out_on.lines[i].captures
                && out_off.lines[i].number is None) by {
                if i < prev_off.lines.len() {
                    assert(out_off.lines[i] == prev_off.lines[i]);
                    assert(out_on.lines[i] == prev_on.lines[i]);
                } else {
                    assert(out_off.lines[i] == nl_off);
                    assert(out_on.lines[i] == nl_on);
                }
            }
        } else {
            assert(out_off.lines == prev_off.lines);
            assert(out_on.lines == prev_on.lines);
        }
    }
}

/// Law: retention never changes the count. Scanning with retention off
/// retains nothing, yet reports exactly the count that the same scan with
/// retention on reports — the true number of matching lines.
pub proof fn lemma_count_independent_of_retention(
    cfg: ScanConfig,
    input: Seq<Seq<char>>,
    caps: Seq<Seq<CaptureModel>>,
)
    ensures
        scan((ScanConfig { track_lines: false, ..cfg }), input, caps).count == scan(
            (ScanConfig { track_lines: true, ..cfg }),
            input,
            caps,
        ).count,
        scan((ScanConfig { track_lines: false, ..cfg }), input, caps).lines.len() == 0,
    decreases input.len(),
{
    if input.len() > 0 {
        lemma_count_independent_of_retention(cfg, input.drop_last(), caps.drop_last());
    }
}

} // verus!
