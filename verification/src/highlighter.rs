//! Annotations of a line for the selection, search matches and diagnostics,
//! and their combination with the syntax annotations.
use vstd::prelude::*;

use crate::annotation::{Annotation, AnnotationType};
use crate::line::{byte_offset, find_all_spec, line_fits, pairs_nat, utf16_scan, Line};
use crate::prelude::{location_le, Location};
use crate::text::{copy_str, utf8_len};
use crate::treesitter::TreeSitterHighlighter;
use std::collections::HashMap;

verus! {

broadcast use vstd::std_specs::hash::group_hash_axioms;

// ---------------------------------------------------------------------------
// Selection
// ---------------------------------------------------------------------------

/// The part of line `idx` (text `t`) that the selection from `start` to
/// `end` (in text order) covers, as a byte range; a selection that reaches
/// the end of the line also covers the line break.
pub open spec fn selection_annotation(start: Location, end: Location, idx: usize, t: Seq<char>) -> Option<
    Annotation,
> {
    let gs = crate::text::grapheme_clusters(t);
    if idx < start.line_idx || idx > end.line_idx {
        None
    } else {
        let sg: nat = if idx == start.line_idx { start.grapheme_idx as nat } else { 0 };
        let eg: nat = if idx == end.line_idx { end.grapheme_idx as nat } else { gs.len() };
        let sb = byte_offset(gs, if sg < gs.len() { sg as int } else { gs.len() as int });
        let eb = if eg >= gs.len() { utf8_len(t) + 1 } else { byte_offset(gs, eg as int) };
        if sb >= eb {
            None
        } else {
            Some(Annotation { annotation_type: AnnotationType::Selection, start: sb as usize, end: eb as usize })
        }
    }
}

/// Highlights a selection between two locations.
#[derive(Copy, Clone, Debug)]
pub struct SelectionHighlighter {
    pub start: Location,
    pub end: Location,
}

impl SelectionHighlighter {
    /// The selection between `start` and `end`, ordered in the text.
    pub fn new(start: Location, end: Location) -> (r: Self)
        ensures
            location_le(r.start, r.end),
            (r.start == start && r.end == end) || (r.start == end && r.end == start),
            location_le(start, end) ==> r.start == start && r.end == end,
    {
        if start.is_before_or_at(&end) {
            SelectionHighlighter { start, end }
        } else {
            SelectionHighlighter { start: end, end: start }
        }
    }

    /// The selection's annotation on line `idx`, if it covers any of it.
    pub fn get_annotations(&self, idx: usize, line: &Line) -> (r: Option<Vec<Annotation>>)
        requires
            line.wf(),
        ensures
            match selection_annotation(self.start, self.end, idx, line@) {
                Some(a) => r matches Some(v) && v@ == seq![a],
                None => r is None,
            },
    {
        if idx < self.start.line_idx || idx > self.end.line_idx {
            return None;
        }
        let count = line.grapheme_count();
        let start_grapheme = if idx == self.start.line_idx { self.start.grapheme_idx } else { 0 };
        let end_grapheme = if idx == self.end.line_idx { self.end.grapheme_idx } else { count };
        let start_byte = line.grapheme_idx_to_byte_idx(start_grapheme);
        proof {
            line.lemma_wf();
            crate::text::lemma_utf8_len_upper(line@);
        }
        let end_byte = if end_grapheme >= count {
            line.len() + 1
        } else {
            line.grapheme_idx_to_byte_idx(end_grapheme)
        };
        if start_byte >= end_byte {
            return None;
        }
        let mut v = Vec::new();
        v.push(Annotation { annotation_type: AnnotationType::Selection, start: start_byte, end: end_byte });
        assert(v@ =~= seq![Annotation { annotation_type: AnnotationType::Selection, start: start_byte, end: end_byte }]);
        Some(v)
    }
}

// ---------------------------------------------------------------------------
// Search results
// ---------------------------------------------------------------------------

/// One annotation per match (byte, grapheme) of a word of `word_len` bytes
/// on line `line_idx`; the match at the selected location is marked as such.
pub open spec fn match_annotations(
    found: Seq<(nat, nat)>,
    word_len: nat,
    selected: Option<Location>,
    line_idx: usize,
) -> Seq<Annotation>
    decreases found.len(),
{
    if found.len() == 0 {
        Seq::empty()
    } else {
        let (b, g) = found.last();
        let t = if selected matches Some(loc) && loc.line_idx == line_idx && loc.grapheme_idx == g {
            AnnotationType::SelectedMatch
        } else {
            AnnotationType::Match
        };
        let end = if b + word_len <= usize::MAX { b + word_len } else { usize::MAX as nat };
        match_annotations(found.drop_last(), word_len, selected, line_idx).push(
            Annotation { annotation_type: t, start: b as usize, end: end as usize },
        )
    }
}

/// The annotations of all matches of `word` on a line with text `t`.
pub open spec fn search_annotations(t: Seq<char>, word: Seq<char>, selected: Option<Location>, line_idx: usize) -> Seq<
    Annotation,
> {
    if word.len() == 0 {
        Seq::empty()
    } else {
        match_annotations(find_all_spec(t, word, 0, utf8_len(t)), utf8_len(word), selected, line_idx)
    }
}

pub open spec fn vec_views(m: Map<usize, Vec<Annotation>>) -> Map<usize, Seq<Annotation>> {
    m.map_values(|v: Vec<Annotation>| v@)
}

/// Highlights the matches of a search word in the lines it has seen.
pub struct SearchResultHighlighter {
    matched_word: String,
    selected_match: Option<Location>,
    highlights: HashMap<usize, Vec<Annotation>>,
}

impl SearchResultHighlighter {
    pub closed spec fn word(&self) -> Seq<char> {
        self.matched_word@
    }

    pub closed spec fn selected(&self) -> Option<Location> {
        self.selected_match
    }

    /// The annotations computed so far, by line index.
    pub closed spec fn highlights_view(&self) -> Map<usize, Seq<Annotation>> {
        vec_views(self.highlights@)
    }

    pub closed spec fn wf(&self) -> bool {
        line_fits(self.matched_word@)
    }

    /// A highlighter for `matched_word`, marking the match at `selected_match`.
    pub fn new(matched_word: &str, selected_match: Option<Location>) -> (r: Self)
        requires
            line_fits(matched_word@),
        ensures
            r.wf(),
            r.word() == matched_word@,
            r.selected() == selected_match,
            r.highlights_view() == Map::<usize, Seq<Annotation>>::empty(),
    {
        let r = SearchResultHighlighter {
            matched_word: copy_str(matched_word),
            selected_match,
            highlights: HashMap::new(),
        };
        assert(r.highlights_view() =~= Map::<usize, Seq<Annotation>>::empty());
        r
    }

    /// Appends the annotations of the matches on line `line_idx` to `result`.
    fn highlight_matched_words(&self, line_idx: usize, line: &Line, result: &mut Vec<Annotation>)
        requires
            self.wf(),
            line.wf(),
        ensures
            final(result)@ == old(result)@ + search_annotations(line@, self.word(), self.selected(), line_idx),
    {
        if self.matched_word.as_str().is_empty() {
            assert(old(result)@ + Seq::<Annotation>::empty() =~= old(result)@);
            return;
        }
        proof {
            crate::text::lemma_utf8_len_upper(self.matched_word@);
        }
        let word_len = self.matched_word.as_str().len();
        let found = line.find_all(self.matched_word.as_str(), 0..line.len());
        let ghost fv = pairs_nat(found@);
        let ghost base = result@;
        let mut i: usize = 0;
        while i < found.len()
            invariant
                i <= found@.len(),
                fv == pairs_nat(found@),
                word_len == utf8_len(self.word()),
                result@ == base + match_annotations(fv.take(i as int), word_len as nat, self.selected(), line_idx),
            decreases found@.len() - i,
        {
            let (byte_idx, grapheme_idx) = found[i];
            let is_selected = match self.selected_match {
                Some(loc) => loc.line_idx == line_idx && loc.grapheme_idx == grapheme_idx,
                None => false,
            };
            let annotation_type = if is_selected {
                AnnotationType::SelectedMatch
            } else {
                AnnotationType::Match
            };
            assert(fv.take(i + 1).drop_last() =~= fv.take(i as int));
            assert(fv.take(i + 1).last() == (byte_idx as nat, grapheme_idx as nat));
            result.push(
                Annotation { annotation_type, start: byte_idx, end: byte_idx.saturating_add(word_len) },
            );
            assert(base + match_annotations(fv.take(i + 1), word_len as nat, self.selected(), line_idx) =~= (
            base + match_annotations(fv.take(i as int), word_len as nat, self.selected(), line_idx)).push(
                Annotation { annotation_type, start: byte_idx, end: byte_idx.saturating_add(word_len) },
            ));
            i = i + 1;
        }
        assert(fv.take(found@.len() as int) =~= fv);
    }

    /// Computes and remembers the annotations of line `idx`.
    pub fn highlight(&mut self, idx: usize, line: &Line)
        requires
            old(self).wf(),
            line.wf(),
        ensures
            final(self).wf(),
            final(self).word() == old(self).word(),
            final(self).selected() == old(self).selected(),
            final(self).highlights_view() == old(self).highlights_view().insert(
                idx,
                search_annotations(line@, old(self).word(), old(self).selected(), idx),
            ),
    {
        let mut result = Vec::new();
        self.highlight_matched_words(idx, line, &mut result);
        assert(Seq::<Annotation>::empty() + search_annotations(line@, self.word(), self.selected(), idx)
            =~= search_annotations(line@, self.word(), self.selected(), idx));
        self.highlights.insert(idx, result);
        assert(self.highlights_view() =~= old(self).highlights_view().insert(
            idx,
            search_annotations(line@, old(self).word(), old(self).selected(), idx),
        ));
    }

    /// The annotations remembered for line `idx`.
    pub fn get_annotations(&self, idx: usize) -> (r: Option<&Vec<Annotation>>)
        ensures
            match r {
                Some(v) => self.highlights_view().contains_key(idx) && v@ == self.highlights_view()[idx],
                None => !self.highlights_view().contains_key(idx),
            },
    {
        self.highlights.get(&idx)
    }
}

// ---------------------------------------------------------------------------
// Diagnostics
// ---------------------------------------------------------------------------

/// A problem reported for a range of a document; lines and characters count
/// from zero, characters in UTF-16 code units. The severity is the protocol's
/// number: 1 error, 2 warning, 3 information, 4 hint.
#[derive(Debug)]
pub struct Diagnostic {
    pub start_line: u32,
    pub start_character: u32,
    pub end_line: u32,
    pub end_character: u32,
    pub severity: Option<i32>,
    pub message: String,
}

/// The same range, severity and message.
pub open spec fn same_diagnostic(a: Diagnostic, b: Diagnostic) -> bool {
    &&& a.start_line == b.start_line
    &&& a.start_character == b.start_character
    &&& a.end_line == b.end_line
    &&& a.end_character == b.end_character
    &&& a.severity == b.severity
    &&& a.message@ == b.message@
}

impl Clone for Diagnostic {
    fn clone(&self) -> (r: Self)
        ensures
            same_diagnostic(r, *self),
    {
        Diagnostic {
            start_line: self.start_line,
            start_character: self.start_character,
            end_line: self.end_line,
            end_character: self.end_character,
            severity: self.severity,
            message: copy_str(self.message.as_str()),
        }
    }
}

/// A copy of a list of diagnostics.
pub fn copy_diagnostics(v: &Vec<Diagnostic>) -> (r: Vec<Diagnostic>)
    ensures
        r@.len() == v@.len(),
        forall|i: int| 0 <= i < v@.len() ==> same_diagnostic(#[trigger] r@[i], v@[i]),
{
    let mut r: Vec<Diagnostic> = Vec::new();
    let mut i: usize = 0;
    while i < v.len()
        invariant
            i <= v@.len(),
            r@.len() == i,
            forall|j: int| 0 <= j < i ==> same_diagnostic(#[trigger] r@[j], v@[j]),
        decreases v@.len() - i,
    {
        r.push(v[i].clone());
        i = i + 1;
    }
    r
}

/// Lists of diagnostics that agree entry by entry annotate alike.
pub proof fn lemma_same_diagnostics_annotate_alike(a: Seq<Diagnostic>, b: Seq<Diagnostic>, idx: usize, t: Seq<char>)
    requires
        a.len() == b.len(),
        forall|i: int| 0 <= i < a.len() ==> same_diagnostic(#[trigger] a[i], b[i]),
    ensures
        diagnostic_annotations(a, idx, t) == diagnostic_annotations(b, idx, t),
    decreases a.len(),
{
    if a.len() > 0 {
        assert forall|i: int| 0 <= i < a.drop_last().len() implies same_diagnostic(
            #[trigger] a.drop_last()[i],
            b.drop_last()[i],
        ) by {
            assert(same_diagnostic(a[i], b[i]));
        }
        lemma_same_diagnostics_annotate_alike(a.drop_last(), b.drop_last(), idx, t);
        assert(same_diagnostic(a[a.len() - 1], b[b.len() - 1]));
    }
}

/// The annotation kind for a severity; unknown severities count as errors.
pub open spec fn severity_type(s: Option<i32>) -> AnnotationType {
    match s {
        Some(2) => AnnotationType::Warning,
        Some(3) => AnnotationType::Information,
        Some(4) => AnnotationType::Hint,
        _ => AnnotationType::Error,
    }
}

/// The colour class of a diagnostic by its severity: 1 is an error, 2 a
/// warning, 3 information, 4 a hint; a missing or unknown severity counts
/// as an error.
pub proof fn lemma_severity_kinds()
    ensures
        severity_type(Some(1)) == AnnotationType::Error,
        severity_type(Some(2)) == AnnotationType::Warning,
        severity_type(Some(3)) == AnnotationType::Information,
        severity_type(Some(4)) == AnnotationType::Hint,
        severity_type(None) == AnnotationType::Error,
        forall|s: i32| (s < 1 || s > 4) ==> #[trigger] severity_type(Some(s)) == AnnotationType::Error,
{
}

/// The annotation kind for a severity.
pub fn severity_annotation_type(s: Option<i32>) -> (t: AnnotationType)
    ensures
        t == severity_type(s),
{
    match s {
        Some(2) => AnnotationType::Warning,
        Some(3) => AnnotationType::Information,
        Some(4) => AnnotationType::Hint,
        _ => AnnotationType::Error,
    }
}

/// A UTF-16 offset at or beyond this stands for the end of the line.
pub const LINE_END_UTF16: usize = 10000;

/// The part of line `idx` (text `t`) that diagnostic `d` covers, as bytes.
pub open spec fn diagnostic_annotation(d: Diagnostic, idx: usize, t: Seq<char>) -> Option<Annotation> {
    let sl = d.start_line as usize;
    let el = d.end_line as usize;
    if idx >= sl && idx <= el {
        let su: nat = if idx == sl { d.start_character as nat } else { 0 };
        let eu: nat = if idx == el { d.end_character as nat } else { LINE_END_UTF16 as nat };
        let sb = utf16_scan(t, su, 0);
        let eb = if eu >= LINE_END_UTF16 { utf8_len(t) } else { utf16_scan(t, eu, 0) };
        if sb < eb {
            Some(Annotation { annotation_type: severity_type(d.severity), start: sb as usize, end: eb as usize })
        } else {
            None
        }
    } else {
        None
    }
}

/// The annotations of the diagnostics `ds` on line `idx`, in order.
pub open spec fn diagnostic_annotations(ds: Seq<Diagnostic>, idx: usize, t: Seq<char>) -> Seq<Annotation>
    decreases ds.len(),
{
    if ds.len() == 0 {
        Seq::empty()
    } else {
        let rest = diagnostic_annotations(ds.drop_last(), idx, t);
        match diagnostic_annotation(ds.last(), idx, t) {
            Some(a) => rest.push(a),
            None => rest,
        }
    }
}

/// Highlights the ranges of diagnostics.
pub struct DiagnosticHighlighter {
    pub diagnostics: Vec<Diagnostic>,
}

impl DiagnosticHighlighter {
    pub fn new(diagnostics: Vec<Diagnostic>) -> (r: Self)
        ensures
            r.diagnostics@ == diagnostics@,
    {
        DiagnosticHighlighter { diagnostics }
    }

    /// The diagnostics' annotations on line `idx`, if there are any.
    pub fn get_annotations(&self, idx: usize, line: &Line) -> (r: Option<Vec<Annotation>>)
        requires
            line.wf(),
        ensures
            match r {
                Some(v) => v@ == diagnostic_annotations(self.diagnostics@, idx, line@) && v@.len() > 0,
                None => diagnostic_annotations(self.diagnostics@, idx, line@).len() == 0,
            },
    {
        let mut result: Vec<Annotation> = Vec::new();
        let mut i: usize = 0;
        while i < self.diagnostics.len()
            invariant
                i <= self.diagnostics@.len(),
                line.wf(),
                result@ == diagnostic_annotations(self.diagnostics@.take(i as int), idx, line@),
            decreases self.diagnostics@.len() - i,
        {
            let d = &self.diagnostics[i];
            assert(self.diagnostics@.take(i + 1).drop_last() =~= self.diagnostics@.take(i as int));
            let start_line = d.start_line as usize;
            let end_line = d.end_line as usize;
            if idx >= start_line && idx <= end_line {
                let start_utf16 = if idx == start_line { d.start_character as usize } else { 0 };
                let end_utf16 = if idx == end_line { d.end_character as usize } else { LINE_END_UTF16 };
                let start_byte = line.utf16_code_unit_to_byte_idx(start_utf16);
                let end_byte = if end_utf16 >= LINE_END_UTF16 {
                    line.len()
                } else {
                    line.utf16_code_unit_to_byte_idx(end_utf16)
                };
                if start_byte < end_byte {
                    let annotation_type = severity_annotation_type(d.severity);
                    result.push(Annotation { annotation_type, start: start_byte, end: end_byte });
                }
            }
            i = i + 1;
        }
        assert(self.diagnostics@.take(self.diagnostics@.len() as int) =~= self.diagnostics@);
        if result.len() == 0 {
            None
        } else {
            Some(result)
        }
    }
}

// ---------------------------------------------------------------------------
// All highlighters of a view
// ---------------------------------------------------------------------------

pub open spec fn opt_seq(o: Option<Seq<Annotation>>) -> Seq<Annotation> {
    match o {
        Some(s) => s,
        None => Seq::empty(),
    }
}

/// The highlighters active while a view is drawn.
pub struct Highlighter<'a> {
    pub syntax_highlighter: Option<&'a TreeSitterHighlighter>,
    pub search_result_highlighter: Option<SearchResultHighlighter>,
    pub selection_highlighter: Option<SelectionHighlighter>,
    pub diagnostic_highlighter: Option<DiagnosticHighlighter>,
}

impl<'a> Highlighter<'a> {
    pub open spec fn wf(&self) -> bool {
        self.search_result_highlighter matches Some(h) ==> h.wf()
    }

    /// Highlighters for a search word (with its selected match), a selection,
    /// diagnostics and syntax, each where given.
    pub fn new(
        matched_word: Option<&str>,
        selected_match: Option<Location>,
        selection: Option<(Location, Location)>,
        diagnostics: Option<Vec<Diagnostic>>,
        syntax_highlighter: Option<&'a TreeSitterHighlighter>,
    ) -> (r: Self)
        requires
            matched_word matches Some(w) ==> line_fits(w@),
        ensures
            r.wf(),
            r.syntax_highlighter == syntax_highlighter,
            match matched_word {
                Some(w) => r.search_result_highlighter matches Some(h) && h.word() == w@
                    && h.selected() == selected_match && h.highlights_view().len() == 0,
                None => r.search_result_highlighter is None,
            },
            match selection {
                Some((s, e)) => r.selection_highlighter matches Some(h) && ((h.start == s && h.end
                    == e) || (h.start == e && h.end == s)) && location_le(h.start, h.end) && (location_le(s, e)
                    ==> h.start == s && h.end == e),
                None => r.selection_highlighter is None,
            },
            match diagnostics {
                Some(ds) => r.diagnostic_highlighter matches Some(h) && h.diagnostics@ == ds@,
                None => r.diagnostic_highlighter is None,
            },
    {
        let search_result_highlighter = match matched_word {
            Some(w) => Some(SearchResultHighlighter::new(w, selected_match)),
            None => None,
        };
        let selection_highlighter = match selection {
            Some((start, end)) => Some(SelectionHighlighter::new(start, end)),
            None => None,
        };
        let diagnostic_highlighter = match diagnostics {
            Some(ds) => Some(DiagnosticHighlighter::new(ds)),
            None => None,
        };
        Highlighter {
            syntax_highlighter,
            search_result_highlighter,
            selection_highlighter,
            diagnostic_highlighter,
        }
    }

    /// The syntax annotations of line `idx`.
    pub open spec fn syntax_part(&self, idx: usize) -> Seq<Annotation> {
        match self.syntax_highlighter {
            Some(h) => opt_seq(h.annotations_at(idx)),
            None => Seq::empty(),
        }
    }

    /// The remembered search annotations of line `idx`.
    pub open spec fn search_part(&self, idx: usize) -> Seq<Annotation> {
        match self.search_result_highlighter {
            Some(h) => if h.highlights_view().contains_key(idx) {
                h.highlights_view()[idx]
            } else {
                Seq::empty()
            },
            None => Seq::empty(),
        }
    }

    pub open spec fn selection_part(&self, idx: usize, t: Seq<char>) -> Seq<Annotation> {
        match self.selection_highlighter {
            Some(h) => match selection_annotation(h.start, h.end, idx, t) {
                Some(a) => seq![a],
                None => Seq::empty(),
            },
            None => Seq::empty(),
        }
    }

    pub open spec fn diagnostic_part(&self, idx: usize, t: Seq<char>) -> Seq<Annotation> {
        match self.diagnostic_highlighter {
            Some(h) => diagnostic_annotations(h.diagnostics@, idx, t),
            None => Seq::empty(),
        }
    }

    /// All annotations of line `idx`: syntax, search matches, selection and
    /// diagnostics, in that order.
    pub fn get_annotations(&self, idx: usize, line: &Line) -> (r: Vec<Annotation>)
        requires
            line.wf(),
        ensures
            r@ == self.syntax_part(idx) + self.search_part(idx) + self.selection_part(idx, line@)
                + self.diagnostic_part(idx, line@),
    {
        let mut result: Vec<Annotation> = Vec::new();
        if let Some(h) = self.syntax_highlighter {
            if let Some(annotations) = h.get_annotations(idx) {
                append_all(&mut result, annotations);
            }
        }
        assert(result@ =~= self.syntax_part(idx));
        if let Some(h) = &self.search_result_highlighter {
            if let Some(annotations) = h.get_annotations(idx) {
                append_all(&mut result, annotations);
            }
        }
        assert(result@ =~= self.syntax_part(idx) + self.search_part(idx));
        if let Some(h) = &self.selection_highlighter {
            if let Some(annotations) = h.get_annotations(idx, line) {
                append_all(&mut result, &annotations);
            }
        }
        assert(result@ =~= self.syntax_part(idx) + self.search_part(idx) + self.selection_part(idx, line@));
        if let Some(h) = &self.diagnostic_highlighter {
            if let Some(annotations) = h.get_annotations(idx, line) {
                append_all(&mut result, &annotations);
            }
        }
        assert(result@ =~= self.syntax_part(idx) + self.search_part(idx) + self.selection_part(idx, line@)
            + self.diagnostic_part(idx, line@));
        result
    }

    /// Lets the search highlighter compute the annotations of line `idx`.
    pub fn highlight(&mut self, idx: usize, line: &Line)
        requires
            old(self).wf(),
            line.wf(),
        ensures
            final(self).wf(),
            final(self).syntax_highlighter == old(self).syntax_highlighter,
            final(self).selection_highlighter == old(self).selection_highlighter,
            final(self).diagnostic_highlighter == old(self).diagnostic_highlighter,
            match old(self).search_result_highlighter {
                Some(h) => final(self).search_result_highlighter matches Some(g) && g.word() == h.word()
                    && g.selected() == h.selected() && g.highlights_view() == h.highlights_view().insert(
                    idx,
                    search_annotations(line@, h.word(), h.selected(), idx),
                ),
                None => final(self).search_result_highlighter is None,
            },
    {
        if let Some(h) = &mut self.search_result_highlighter {
            h.highlight(idx, line);
        }
    }
}

/// Appends a copy of `from` to `to`.
fn append_all(to: &mut Vec<Annotation>, from: &Vec<Annotation>)
    ensures
        final(to)@ == old(to)@ + from@,
{
    let mut i: usize = 0;
    while i < from.len()
        invariant
            i <= from@.len(),
            to@ == old(to)@ + from@.take(i as int),
        decreases from@.len() - i,
    {
        to.push(from[i]);
        assert(old(to)@ + from@.take(i + 1) =~= (old(to)@ + from@.take(i as int)).push(from@[i as int]));
        i = i + 1;
    }
    assert(from@.take(from@.len() as int) =~= from@);
}

} // verus!
