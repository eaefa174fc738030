//! A line of text, segmented into grapheme clusters with their rendered widths.
use vstd::prelude::*;

use crate::annotatedstring::{
    lemma_replaced_text_len, offset_annotations, replaced, AnnotatedString, AnnotatedView,
};
use crate::annotation::{Annotation, AnnotationType};
use crate::text::{
    char_is_whitespace, is_whitespace_char, string_from_chars,
    utf16_len,
    all_whitespace, char_is_control, char_len_utf8, chars_of, copy_str, display_width, grapheme_clusters,
    grapheme_indices, is_blank, is_control_char, pair_texts, push_char, str_width, utf8_len,
};

verus! {

/// Column distance between tab stops.
pub const TAB_SIZE: usize = 8;

/// A line holds at most this many characters, so that byte offsets, columns
/// and rendered text stay far from `usize::MAX`.
pub open spec fn line_fits(s: Seq<char>) -> bool {
    s.len() <= usize::MAX / 64
}

// ---------------------------------------------------------------------------
// Rendering rules
// ---------------------------------------------------------------------------

/// How many columns a grapheme occupies on screen.
#[derive(Copy, Clone, Debug)]
pub enum GraphemeWidth {
    Half,
    Full,
    Custom(usize),
}

impl GraphemeWidth {
    /// The width in columns.
    pub open spec fn columns(self) -> nat {
        match self {
            GraphemeWidth::Half => 1,
            GraphemeWidth::Full => 2,
            GraphemeWidth::Custom(w) => w as nat,
        }
    }
}

impl From<GraphemeWidth> for usize {
    fn from(val: GraphemeWidth) -> (r: usize) {
        match val {
            GraphemeWidth::Half => 1,
            GraphemeWidth::Full => 2,
            GraphemeWidth::Custom(width) => width,
        }
    }
}

impl vstd::std_specs::convert::FromSpecImpl<GraphemeWidth> for usize {
    open spec fn obeys_from_spec() -> bool {
        true
    }

    open spec fn from_spec(v: GraphemeWidth) -> usize {
        match v {
            GraphemeWidth::Half => 1,
            GraphemeWidth::Full => 2,
            GraphemeWidth::Custom(width) => width,
        }
    }
}

/// Columns from `col` to the next tab stop.
pub open spec fn tab_stop_width(col: nat) -> nat {
    (TAB_SIZE - (col % TAB_SIZE as nat)) as nat
}

/// `n` spaces.
pub open spec fn spaces(n: nat) -> Seq<char> {
    Seq::new(n, |i: int| ' ')
}

pub open spec fn is_space_grapheme(g: Seq<char>) -> bool {
    g == seq![' ']
}

pub open spec fn is_tab_grapheme(g: Seq<char>) -> bool {
    g == seq!['\t']
}

/// Other whitespace that occupies room on screen.
pub open spec fn is_wide_blank(g: Seq<char>) -> bool {
    display_width(g) > 0 && all_whitespace(g)
}

pub open spec fn is_lone_control(g: Seq<char>) -> bool {
    g.len() == 1 && is_control_char(g[0])
}

/// The text shown in place of a grapheme starting at column `col`, if any:
/// a middle dot for a space, a bar filled up to the next tab stop for a tab,
/// an open box for other visible whitespace, a rectangle for a control
/// character.
pub open spec fn replacement_for(g: Seq<char>, col: nat) -> Option<Seq<char>> {
    if is_space_grapheme(g) {
        Some(seq!['\u{b7}'])
    } else if is_tab_grapheme(g) {
        Some(seq!['|'] + spaces((tab_stop_width(col) - 1) as nat))
    } else if is_wide_blank(g) {
        Some(seq!['\u{2423}'])
    } else if is_lone_control(g) {
        Some(seq!['\u{25af}'])
    } else {
        None
    }
}

/// The annotations that come with a replacement (byte ranges within it).
pub open spec fn replacement_annotations_for(g: Seq<char>, col: nat) -> Seq<
    (AnnotationType, usize, usize),
> {
    if is_space_grapheme(g) {
        seq![(AnnotationType::Replacement, 0usize, utf8_len(seq!['\u{b7}']) as usize)]
    } else if is_tab_grapheme(g) {
        seq![(AnnotationType::Replacement, 0usize, tab_stop_width(col) as usize)]
    } else {
        Seq::empty()
    }
}

/// The width of a grapheme starting at column `col`.
pub open spec fn width_for(g: Seq<char>, col: nat) -> GraphemeWidth {
    if is_space_grapheme(g) {
        GraphemeWidth::Custom(1)
    } else if is_tab_grapheme(g) {
        GraphemeWidth::Custom(tab_stop_width(col) as usize)
    } else if is_wide_blank(g) || is_lone_control(g) {
        GraphemeWidth::Custom(1)
    } else if display_width(g) <= 1 {
        GraphemeWidth::Half
    } else {
        GraphemeWidth::Full
    }
}

/// The column at which grapheme `i` starts, when graphemes `gs` are laid
/// out from column zero.
pub open spec fn column_at(gs: Seq<Seq<char>>, i: nat) -> nat
    decreases i,
{
    if i == 0 {
        0
    } else {
        let c = column_at(gs, (i - 1) as nat);
        c + width_for(gs[i - 1], c).columns()
    }
}

/// The width of the first `i` graphemes of `s`.
pub open spec fn text_columns_until(s: Seq<char>, i: nat) -> nat {
    let gs = grapheme_clusters(s);
    column_at(gs, if i <= gs.len() { i } else { gs.len() })
}

/// The byte offset at which grapheme `i` starts.
pub open spec fn byte_offset(gs: Seq<Seq<char>>, i: int) -> nat {
    utf8_len(gs.take(i).flatten())
}

/// Characters before grapheme `i`.
pub open spec fn char_offset(gs: Seq<Seq<char>>, i: int) -> nat {
    gs.take(i).flatten().len()
}

pub open spec fn opt_view(o: Option<String>) -> Option<Seq<char>> {
    match o {
        Some(s) => Some(s@),
        None => None,
    }
}

// ---------------------------------------------------------------------------
// Fragments
// ---------------------------------------------------------------------------

/// One grapheme of a line with how it is rendered.
#[derive(Debug)]
pub struct TextFragment {
    pub grapheme: String,
    pub rendered_width: GraphemeWidth,
    pub replacement: Option<String>,
    pub replacement_annotations: Vec<(AnnotationType, usize, usize)>,
    pub start: usize,
}

/// Fragment `i` describes grapheme `i` of `gs`.
pub open spec fn fragment_ok(f: TextFragment, gs: Seq<Seq<char>>, i: int) -> bool {
    let col = column_at(gs, i as nat);
    &&& f.grapheme@ == gs[i]
    &&& f.start == byte_offset(gs, i)
    &&& f.rendered_width == width_for(gs[i], col)
    &&& opt_view(f.replacement) == replacement_for(gs[i], col)
    &&& f.replacement_annotations@ == replacement_annotations_for(gs[i], col)
}

/// `frags` are the fragments of the text `s`.
pub open spec fn fragments_of(frags: Seq<TextFragment>, s: Seq<char>) -> bool {
    let gs = grapheme_clusters(s);
    &&& line_fits(s)
    &&& gs.flatten() == s
    &&& forall|i: int| 0 <= i < gs.len() ==> (#[trigger] gs[i]).len() > 0
    &&& frags.len() == gs.len()
    &&& forall|i: int| 0 <= i < gs.len() ==> fragment_ok(#[trigger] frags[i], gs, i)
}

// ---------------------------------------------------------------------------
// Lemmas on the layout
// ---------------------------------------------------------------------------

pub proof fn lemma_width_bounds(g: Seq<char>, col: nat)
    ensures
        1 <= width_for(g, col).columns() <= TAB_SIZE,
{
}

/// Columns grow by at least one and at most a tab stop per grapheme.
pub proof fn lemma_column_bounds(gs: Seq<Seq<char>>, i: nat, j: nat)
    requires
        i <= j,
    ensures
        column_at(gs, i) + (j - i) <= column_at(gs, j),
        column_at(gs, j) <= column_at(gs, i) + TAB_SIZE * (j - i),
    decreases j,
{
    if i < j {
        lemma_column_bounds(gs, i, (j - 1) as nat);
        let c = column_at(gs, (j - 1) as nat);
        lemma_width_bounds(gs[j - 1], c);
    }
}

/// With non-empty clusters there are no more clusters than characters.
pub proof fn lemma_cluster_count(gs: Seq<Seq<char>>)
    requires
        forall|i: int| 0 <= i < gs.len() ==> (#[trigger] gs[i]).len() > 0,
    ensures
        gs.len() <= gs.flatten().len(),
    decreases gs.len(),
{
    if gs.len() > 0 {
        assert forall|i: int| 0 <= i < gs.drop_first().len() implies (
        #[trigger] gs.drop_first()[i]).len() > 0 by {
            assert(gs.drop_first()[i] == gs[i + 1]);
        }
        lemma_cluster_count(gs.drop_first());
        assert(gs[0].len() > 0);
    }
}

/// Prefix flattening steps by one cluster.
pub proof fn lemma_take_flatten_step<A>(gs: Seq<Seq<A>>, i: int)
    requires
        0 <= i < gs.len(),
    ensures
        gs.take(i + 1).flatten() == gs.take(i).flatten() + gs[i],
{
    assert(gs.take(i + 1) =~= gs.take(i).push(gs[i]));
    gs.take(i).lemma_flatten_push(gs[i]);
}

/// A flattened sequence splits at any cluster boundary.
pub proof fn lemma_flatten_split<A>(gs: Seq<Seq<A>>, i: int)
    requires
        0 <= i <= gs.len(),
    ensures
        gs.flatten() == gs.take(i).flatten() + gs.skip(i).flatten(),
{
    assert(gs =~= gs.take(i) + gs.skip(i));
    vstd::seq_lib::lemma_flatten_concat(gs.take(i), gs.skip(i));
}

/// Prefix flattenings grow with the prefix.
pub proof fn lemma_take_flatten_prefix<A>(gs: Seq<Seq<A>>, i: int, j: int)
    requires
        0 <= i <= j <= gs.len(),
    ensures
        gs.take(j).flatten() == gs.take(i).flatten() + gs.subrange(i, j).flatten(),
        gs.take(i).flatten().len() <= gs.take(j).flatten().len(),
        gs.take(j).flatten().len() <= gs.flatten().len(),
{
    assert(gs.take(j) =~= gs.take(i) + gs.subrange(i, j));
    vstd::seq_lib::lemma_flatten_concat(gs.take(i), gs.subrange(i, j));
    lemma_flatten_split(gs, j);
}

// ---------------------------------------------------------------------------
// Line
// ---------------------------------------------------------------------------

/// A line of text with its grapheme fragments.
pub struct Line {
    fragments: Vec<TextFragment>,
    string: String,
}

/// A copy of a list of annotations.
fn copy_annotations(v: &Vec<(AnnotationType, usize, usize)>) -> (r: Vec<(AnnotationType, usize, usize)>)
    ensures
        r@ == v@,
{
    let mut r = Vec::new();
    let mut i: usize = 0;
    while i < v.len()
        invariant
            i <= v@.len(),
            r@ == v@.take(i as int),
        decreases v@.len() - i,
    {
        assert(v@.take(i + 1) =~= v@.take(i as int).push(v@[i as int]));
        r.push(v[i]);
        i = i + 1;
    }
    assert(v@.take(v@.len() as int) =~= v@);
    r
}

impl Clone for TextFragment {
    fn clone(&self) -> (r: Self)
        ensures
            r.grapheme@ == self.grapheme@,
            r.rendered_width == self.rendered_width,
            opt_view(r.replacement) == opt_view(self.replacement),
            r.replacement_annotations@ == self.replacement_annotations@,
            r.start == self.start,
    {
        TextFragment {
            grapheme: self.grapheme.clone(),
            rendered_width: self.rendered_width,
            replacement: match &self.replacement {
                Some(s) => Some(s.clone()),
                None => None,
            },
            replacement_annotations: copy_annotations(&self.replacement_annotations),
            start: self.start,
        }
    }
}

impl Clone for Line {
    fn clone(&self) -> (r: Self)
        ensures
            r@ == self@,
            self.wf() ==> r.wf(),
    {
        let mut fragments: Vec<TextFragment> = Vec::new();
        let mut i: usize = 0;
        while i < self.fragments.len()
            invariant
                i <= self.fragments@.len(),
                fragments@.len() == i,
                forall|j: int|
                    0 <= j < i ==> {
                        &&& (#[trigger] fragments@[j]).grapheme@ == self.fragments@[j].grapheme@
                        &&& fragments@[j].rendered_width == self.fragments@[j].rendered_width
                        &&& opt_view(fragments@[j].replacement) == opt_view(
                            self.fragments@[j].replacement,
                        )
                        &&& fragments@[j].replacement_annotations@
                            == self.fragments@[j].replacement_annotations@
                        &&& fragments@[j].start == self.fragments@[j].start
                    },
            decreases self.fragments@.len() - i,
        {
            fragments.push(self.fragments[i].clone());
            i = i + 1;
        }
        let r = Line { fragments, string: self.string.clone() };
        proof {
            if self.wf() {
                let gs = grapheme_clusters(self.string@);
                assert forall|j: int| 0 <= j < gs.len() implies fragment_ok(
                    #[trigger] r.fragments@[j],
                    gs,
                    j,
                ) by {
                    assert(fragment_ok(self.fragments@[j], gs, j));
                }
            }
        }
        r
    }
}

impl Default for Line {
    fn default() -> (r: Self)
        ensures
            r.wf(),
            r@ == Seq::<char>::empty(),
    {
        Line::empty()
    }
}

impl View for Line {
    type V = Seq<char>;

    open spec fn view(&self) -> Seq<char> {
        self.text()
    }
}

impl Line {
    /// The characters of the line.
    pub closed spec fn text(&self) -> Seq<char> {
        self.string@
    }

    /// The line's fragments are its grapheme clusters, laid out from column zero.
    pub closed spec fn wf(&self) -> bool {
        fragments_of(self.fragments@, self.string@)
    }

    /// The grapheme clusters of the line.
    pub open spec fn graphemes(&self) -> Seq<Seq<char>> {
        grapheme_clusters(self@)
    }

    /// The width of the line up to grapheme `i`.
    pub open spec fn columns_until(&self, i: nat) -> nat {
        text_columns_until(self@, i)
    }

    /// What a well-formed line guarantees about its clusters.
    pub proof fn lemma_wf(&self)
        requires
            self.wf(),
        ensures
            line_fits(self@),
            self.graphemes().flatten() == self@,
            forall|i: int| 0 <= i < self.graphemes().len() ==> (#[trigger] self.graphemes()[i]).len() > 0,
            self.graphemes().len() <= self@.len(),
    {
        lemma_cluster_count(self.graphemes());
    }

    /// The fragments of `line_str`.
    fn str_to_fragments(line_str: &str) -> (res: Vec<TextFragment>)
        requires
            line_fits(line_str@),
        ensures
            fragments_of(res@, line_str@),
    {
        let pairs = grapheme_indices(line_str);
        let ghost gs = grapheme_clusters(line_str@);
        proof {
            lemma_cluster_count(gs);
            assert forall|i: int| 0 <= i < gs.len() implies (#[trigger] gs[i]).len() > 0 by {
                assert(gs[i] == pairs@[i].1@);
            }
        }
        let mut fragments: Vec<TextFragment> = Vec::new();
        let mut current_col: usize = 0;
        let n = pairs.len();
        for idx in 0..n
            invariant
                n == pairs@.len(),
                gs == grapheme_clusters(line_str@),
                pair_texts(pairs@) == gs,
                gs.len() <= line_str@.len(),
                line_fits(line_str@),
                forall|i: int|
                    0 <= i < pairs@.len() ==> (#[trigger] pairs@[i]).0 == utf8_len(
                        pair_texts(pairs@).take(i).flatten(),
                    ),
                fragments@.len() == idx,
                current_col == column_at(gs, idx as nat),
                forall|i: int| 0 <= i < idx ==> fragment_ok(#[trigger] fragments@[i], gs, i),
        {
            proof {
                lemma_column_bounds(gs, 0, idx as nat);
                lemma_column_bounds(gs, idx as nat, (idx + 1) as nat);
                assert(gs[idx as int] == pairs@[idx as int].1@);
            }
            let byte_idx = pairs[idx].0;
            let grapheme: &str = pairs[idx].1.as_str();
            let (replacement, replacement_annotations, rendered_width) =
                match Self::get_replacement_character(grapheme, current_col) {
                Some((replacement, annotations, rendered_width)) => (
                    Some(replacement),
                    annotations,
                    GraphemeWidth::Custom(rendered_width),
                ),
                None => {
                    let unicode_width = str_width(grapheme);
                    let rendered_width = if unicode_width <= 1 {
                        GraphemeWidth::Half
                    } else {
                        GraphemeWidth::Full
                    };
                    (None, Vec::new(), rendered_width)
                },
            };
            let w = usize::from(rendered_width);
            fragments.push(
                TextFragment {
                    grapheme: copy_str(grapheme),
                    rendered_width,
                    replacement,
                    replacement_annotations,
                    start: byte_idx,
                },
            );
            current_col = current_col + w;
        }
        fragments
    }

    /// The replacement shown for `for_str` at column `col`, its annotations and
    /// its width, if the grapheme is shown replaced.
    fn get_replacement_character(for_str: &str, col: usize) -> (res: Option<
        (String, Vec<(AnnotationType, usize, usize)>, usize),
    >)
        requires
            col <= usize::MAX - TAB_SIZE,
        ensures
            match replacement_for(for_str@, col as nat) {
                Some(r) => res matches Some(t) && t.0@ == r && t.1@ == replacement_annotations_for(
                    for_str@,
                    col as nat,
                ) && GraphemeWidth::Custom(t.2) == width_for(for_str@, col as nat),
                None => res is None,
            },
    {
        let width = str_width(for_str);
        let cs = chars_of(for_str);
        if cs.len() == 1 && cs[0] == ' ' {
            assert(for_str@ =~= seq![' ']);
            let mut replacement = String::new();
            push_char(&mut replacement, '\u{b7}');
            let n = char_len_utf8('\u{b7}');
            assert(replacement@ =~= seq!['\u{b7}']);
            let mut annotations = Vec::new();
            annotations.push((AnnotationType::Replacement, 0usize, n));
            assert(annotations@ =~= replacement_annotations_for(for_str@, col as nat));
            Some((replacement, annotations, 1))
        } else if cs.len() == 1 && cs[0] == '\t' {
            assert(for_str@ =~= seq!['\t']);
            let spaces_to_add = TAB_SIZE - (col % TAB_SIZE);
            let mut replacement = String::new();
            push_char(&mut replacement, '|');
            let fill = spaces_to_add.saturating_sub(1);
            let mut k: usize = 0;
            while k < fill
                invariant
                    k <= fill,
                    replacement@ == seq!['|'] + spaces(k as nat),
                decreases fill - k,
            {
                push_char(&mut replacement, ' ');
                assert(seq!['|'] + spaces((k + 1) as nat) =~= (seq!['|'] + spaces(k as nat)).push(
                    ' ',
                ));
                k = k + 1;
            }
            let rendered_size = spaces_to_add;
            let mut annotations = Vec::new();
            annotations.push((AnnotationType::Replacement, 0usize, rendered_size));
            assert(annotations@ =~= replacement_annotations_for(for_str@, col as nat));
            Some((replacement, annotations, rendered_size))
        } else if width > 0 && is_blank(for_str) {
            assert(!is_space_grapheme(for_str@) && !is_tab_grapheme(for_str@)) by {
                if is_space_grapheme(for_str@) || is_tab_grapheme(for_str@) {
                    assert(cs@.len() == 1);
                }
            }
            let mut replacement = String::new();
            push_char(&mut replacement, '\u{2423}');
            assert(replacement@ =~= seq!['\u{2423}']);
            Some((replacement, Vec::new(), 1))
        } else {
            assert(!is_space_grapheme(for_str@) && !is_tab_grapheme(for_str@)) by {
                if is_space_grapheme(for_str@) || is_tab_grapheme(for_str@) {
                    assert(cs@.len() == 1);
                }
            }
            if cs.len() == 1 && char_is_control(cs[0]) {
                let mut replacement = String::new();
                push_char(&mut replacement, '\u{25af}');
                assert(replacement@ =~= seq!['\u{25af}']);
                return Some((replacement, Vec::new(), 1));
            }
            None
        }
    }

    /// A line holding `line_str`.
    pub fn from(line_str: &str) -> (res: Self)
        requires
            line_fits(line_str@),
        ensures
            res.wf(),
            res@ == line_str@,
    {
        let fragments = Self::str_to_fragments(line_str);
        Self { fragments, string: copy_str(line_str) }
    }

    /// An empty line.
    pub fn empty() -> (res: Self)
        ensures
            res.wf(),
            res@ == Seq::<char>::empty(),
    {
        let s = String::new();
        Self::from(s.as_str())
    }

    /// The number of graphemes.
    pub fn grapheme_count(&self) -> (n: usize)
        requires
            self.wf(),
        ensures
            n == self.graphemes().len(),
    {
        self.fragments.len()
    }
}


/// The first grapheme, from `i` on, that starts at or after byte `b`.
pub open spec fn first_grapheme_from_byte(gs: Seq<Seq<char>>, b: nat, i: nat) -> Option<nat>
    decreases gs.len() - i,
{
    if i >= gs.len() {
        None
    } else if byte_offset(gs, i as int) >= b {
        Some(i)
    } else {
        first_grapheme_from_byte(gs, b, i + 1)
    }
}

pub proof fn lemma_first_grapheme_from_byte(gs: Seq<Seq<char>>, b: nat, i: nat)
    ensures
        first_grapheme_from_byte(gs, b, i) matches Some(k) ==> i <= k < gs.len() && byte_offset(
            gs,
            k as int,
        ) >= b,
    decreases gs.len() - i,
{
    if i < gs.len() && byte_offset(gs, i as int) < b {
        lemma_first_grapheme_from_byte(gs, b, i + 1);
    }
}

/// The grapheme that starts at or after byte `b`, if `b` lies within the text.
pub open spec fn grapheme_of_byte(gs: Seq<Seq<char>>, b: nat) -> Option<nat> {
    if b > utf8_len(gs.flatten()) {
        None
    } else {
        first_grapheme_from_byte(gs, b, 0)
    }
}

/// The first grapheme, from `i` on, that is not all whitespace.
pub open spec fn first_non_blank_from(gs: Seq<Seq<char>>, i: nat) -> Option<nat>
    decreases gs.len() - i,
{
    if i >= gs.len() {
        None
    } else if !all_whitespace(gs[i as int]) {
        Some(i)
    } else {
        first_non_blank_from(gs, i + 1)
    }
}

/// The first grapheme, from `i` on, that ends beyond column `w`.
pub open spec fn grapheme_at_column_from(gs: Seq<Seq<char>>, w: nat, i: nat) -> nat
    decreases gs.len() - i,
{
    if i >= gs.len() {
        gs.len()
    } else if column_at(gs, i + 1) > w {
        i
    } else {
        grapheme_at_column_from(gs, w, i + 1)
    }
}

/// The characters of graphemes `[a, b)`, with both ends clamped to the line.
pub open spec fn graphemes_text(gs: Seq<Seq<char>>, a: int, b: int) -> Seq<char> {
    let s = if a <= gs.len() { a } else { gs.len() as int };
    let e = if b <= gs.len() { b } else { gs.len() as int };
    if s >= e {
        Seq::empty()
    } else {
        gs.subrange(s, e).flatten()
    }
}

/// The byte at which UTF-16 code unit `u` starts, scanning from character `k`;
/// the end of the text when `u` lies beyond it.
pub open spec fn utf16_scan(s: Seq<char>, u: nat, k: nat) -> nat
    decreases s.len() - k,
{
    if k >= s.len() {
        utf8_len(s)
    } else if utf16_len(s.take(k as int)) >= u {
        utf8_len(s.take(k as int))
    } else {
        utf16_scan(s, u, k + 1)
    }
}

pub proof fn lemma_byte_offset_bound(gs: Seq<Seq<char>>, i: int)
    requires
        0 <= i <= gs.len(),
    ensures
        byte_offset(gs, i) <= utf8_len(gs.flatten()),
        byte_offset(gs, i) <= 4 * gs.flatten().len(),
{
    lemma_flatten_split(gs, i);
    crate::text::lemma_utf8_len_concat(gs.take(i).flatten(), gs.skip(i).flatten());
    crate::text::lemma_utf8_len_upper(gs.flatten());
}

impl Line {
    /// The byte length of the line.
    pub fn len(&self) -> (n: usize)
        requires
            self.wf(),
        ensures
            n == utf8_len(self@),
    {
        proof {
            crate::text::lemma_utf8_len_upper(self.string@);
        }
        self.string.as_str().len()
    }

    /// Whether the line has no characters.
    pub fn is_empty(&self) -> (r: bool)
        ensures
            r == (self@.len() == 0),
    {
        self.string.as_str().is_empty()
    }

    /// The text of the line.
    pub fn to_string(&self) -> (s: String)
        ensures
            s@ == self@,
    {
        self.string.clone()
    }

    /// The text of the line, borrowed.
    pub fn as_str(&self) -> (s: &str)
        ensures
            s@ == self@,
    {
        self.string.as_str()
    }

    /// The characters of graphemes `[a, b)`; `a <= b <= count` and `b` positive.
    fn graphemes_between(&self, a: usize, b: usize) -> (res: String)
        requires
            self.wf(),
            a <= b <= self.graphemes().len(),
        ensures
            res@ == self.graphemes().subrange(a as int, b as int).flatten(),
    {
        let ghost gs = self.graphemes();
        let mut res = String::new();
        let mut i = a;
        assert(gs.subrange(a as int, a as int) =~= Seq::<Seq<char>>::empty());
        while i < b
            invariant
                self.wf(),
                gs == self.graphemes(),
                a <= i <= b <= gs.len(),
                res@ == gs.subrange(a as int, i as int).flatten(),
            decreases b - i,
        {
            assert(fragment_ok(self.fragments@[i as int], gs, i as int));
            assert(gs.subrange(a as int, i + 1) =~= gs.subrange(a as int, i as int).push(gs[i as int]));
            proof {
                gs.subrange(a as int, i as int).lemma_flatten_push(gs[i as int]);
            }
            res.append(self.fragments[i].grapheme.as_str());
            i = i + 1;
        }
        res
    }

    /// The text of graphemes `[range.start, range.end)`, clamped to the line.
    pub fn get_substring(&self, range: std::ops::Range<usize>) -> (res: String)
        requires
            self.wf(),
        ensures
            res@ == graphemes_text(self.graphemes(), range.start as int, range.end as int),
    {
        let count = self.grapheme_count();
        let start = if range.start < count { range.start } else { count };
        let end = if range.end < count { range.end } else { count };
        if start >= end {
            return String::new();
        }
        self.graphemes_between(start, end)
    }

    /// The first grapheme that is not whitespace, or zero if there is none.
    pub fn first_non_whitespace_grapheme(&self) -> (r: usize)
        requires
            self.wf(),
        ensures
            r == match first_non_blank_from(self.graphemes(), 0) {
                Some(i) => i,
                None => 0,
            },
    {
        let ghost gs = self.graphemes();
        let n = self.fragments.len();
        let mut i: usize = 0;
        while i < n
            invariant
                self.wf(),
                gs == self.graphemes(),
                n == gs.len(),
                i <= n,
                first_non_blank_from(gs, 0) == first_non_blank_from(gs, i as nat),
            decreases n - i,
        {
            assert(fragment_ok(self.fragments@[i as int], gs, i as int));
            if !is_blank(self.fragments[i].grapheme.as_str()) {
                return i;
            }
            i = i + 1;
        }
        0
    }

    /// The width of the first `grapheme_idx` graphemes.
    pub fn width_until(&self, grapheme_idx: usize) -> (w: usize)
        requires
            self.wf(),
        ensures
            w == self.columns_until(grapheme_idx as nat),
    {
        let ghost gs = self.graphemes();
        let n = self.fragments.len();
        let end = if grapheme_idx < n { grapheme_idx } else { n };
        let mut w: usize = 0;
        let mut i: usize = 0;
        proof {
            self.lemma_wf();
        }
        while i < end
            invariant
                self.wf(),
                gs == self.graphemes(),
                n == gs.len(),
                gs.len() <= self@.len(),
                line_fits(self@),
                end <= n,
                i <= end,
                w == column_at(gs, i as nat),
            decreases end - i,
        {
            assert(fragment_ok(self.fragments@[i as int], gs, i as int));
            proof {
                lemma_column_bounds(gs, 0, (i + 1) as nat);
            }
            w = w + usize::from(self.fragments[i].rendered_width);
            i = i + 1;
        }
        w
    }

    /// The width of the whole line.
    pub fn width(&self) -> (w: usize)
        requires
            self.wf(),
        ensures
            w == column_at(self.graphemes(), self.graphemes().len()),
    {
        self.width_until(self.grapheme_count())
    }

    /// The grapheme that covers column `width`, or the grapheme count if the
    /// line is narrower.
    pub fn grapheme_at_width(&self, width: usize) -> (r: usize)
        requires
            self.wf(),
        ensures
            r == grapheme_at_column_from(self.graphemes(), width as nat, 0),
    {
        let ghost gs = self.graphemes();
        let n = self.fragments.len();
        let mut current_width: usize = 0;
        let mut idx: usize = 0;
        proof {
            self.lemma_wf();
        }
        while idx < n
            invariant
                self.wf(),
                gs == self.graphemes(),
                n == gs.len(),
                gs.len() <= self@.len(),
                line_fits(self@),
                idx <= n,
                current_width == column_at(gs, idx as nat),
                grapheme_at_column_from(gs, width as nat, 0) == grapheme_at_column_from(
                    gs,
                    width as nat,
                    idx as nat,
                ),
            decreases n - idx,
        {
            assert(fragment_ok(self.fragments@[idx as int], gs, idx as int));
            proof {
                lemma_column_bounds(gs, 0, (idx + 1) as nat);
            }
            let fragment_width: usize = usize::from(self.fragments[idx].rendered_width);
            if current_width + fragment_width > width {
                return idx;
            }
            current_width = current_width + fragment_width;
            idx = idx + 1;
        }
        n
    }

    /// The byte at which grapheme `grapheme_idx` starts; the byte length of the
    /// line for indices at or beyond the end.
    pub fn grapheme_idx_to_byte_idx(&self, grapheme_idx: usize) -> (b: usize)
        requires
            self.wf(),
        ensures
            b == byte_offset(
                self.graphemes(),
                if grapheme_idx < self.graphemes().len() {
                    grapheme_idx as int
                } else {
                    self.graphemes().len() as int
                },
            ),
    {
        let ghost gs = self.graphemes();
        if grapheme_idx >= self.grapheme_count() {
            proof {
                self.lemma_wf();
                assert(gs.take(gs.len() as int) =~= gs);
            }
            return self.len();
        }
        assert(fragment_ok(self.fragments@[grapheme_idx as int], gs, grapheme_idx as int));
        self.fragments[grapheme_idx].start
    }

    /// The first grapheme that starts at or after byte `byte_idx`.
    fn byte_idx_to_grapheme_idx(&self, byte_idx: usize) -> (r: Option<usize>)
        requires
            self.wf(),
        ensures
            r == match grapheme_of_byte(self.graphemes(), byte_idx as nat) {
                Some(i) => Some(i as usize),
                None => None::<usize>,
            },
            r matches Some(i) ==> i < self.graphemes().len(),
            grapheme_of_byte(self.graphemes(), byte_idx as nat) matches Some(i) ==> i
                < self.graphemes().len(),
    {
        proof {
            lemma_first_grapheme_from_byte(self.graphemes(), byte_idx as nat, 0);
        }
        let ghost gs = self.graphemes();
        proof {
            self.lemma_wf();
        }
        if byte_idx > self.len() {
            return None;
        }
        let n = self.fragments.len();
        let mut i: usize = 0;
        while i < n
            invariant
                self.wf(),
                gs == self.graphemes(),
                n == gs.len(),
                i <= n,
                byte_idx as nat <= utf8_len(gs.flatten()),
                first_grapheme_from_byte(gs, byte_idx as nat, 0) == first_grapheme_from_byte(
                    gs,
                    byte_idx as nat,
                    i as nat,
                ),
            decreases n - i,
        {
            assert(fragment_ok(self.fragments@[i as int], gs, i as int));
            if self.fragments[i].start >= byte_idx {
                return Some(i);
            }
            i = i + 1;
        }
        None
    }

    /// The byte at which UTF-16 code unit `utf16_idx` starts.
    pub fn utf16_code_unit_to_byte_idx(&self, utf16_idx: usize) -> (b: usize)
        requires
            self.wf(),
        ensures
            b == utf16_scan(self@, utf16_idx as nat, 0),
    {
        let ghost s = self@;
        proof {
            self.lemma_wf();
        }
        let mut current_utf16_idx: usize = 0;
        let mut current_byte_idx: usize = 0;
        let ghost mut k: nat = 0;
        for c in it: self.string.as_str().chars()
            invariant
                it.seq() == s,
                s == self@,
                line_fits(s),
                current_utf16_idx == utf16_len(s.take(it.index() as int)),
                current_byte_idx == utf8_len(s.take(it.index() as int)),
                current_utf16_idx <= 2 * it.index(),
                utf16_scan(s, utf16_idx as nat, 0) == utf16_scan(s, utf16_idx as nat, it.index() as nat),
        {
            let ghost k = it.index() as int;
            if current_utf16_idx >= utf16_idx {
                return current_byte_idx;
            }
            proof {
                assert(s.take(k + 1) =~= s.take(k) + seq![c]);
                assert(s.take(k + 1).drop_last() =~= s.take(k));
                crate::text::lemma_utf8_len_concat(s.take(k), seq![c]);
                crate::text::lemma_utf8_len_take_mono(s, k + 1, k + 1);
                crate::text::lemma_utf8_len_upper(s);
            }
            current_utf16_idx = current_utf16_idx + crate::text::char_len_utf16(c);
            current_byte_idx = current_byte_idx + char_len_utf8(c);
        }
        proof {
            assert(s.take(s.len() as int) =~= s);
        }
        current_byte_idx
    }

    /// The grapheme at which UTF-16 code unit `utf16_idx` starts, or the
    /// grapheme count when it lies beyond the last grapheme.
    pub fn utf16_code_unit_to_grapheme_idx(&self, utf16_idx: usize) -> (g: usize)
        requires
            self.wf(),
        ensures
            g == match grapheme_of_byte(self.graphemes(), utf16_scan(self@, utf16_idx as nat, 0)) {
                Some(i) => i,
                None => self.graphemes().len(),
            },
    {
        proof {
            self.lemma_wf();
        }
        let byte_idx = self.utf16_code_unit_to_byte_idx(utf16_idx);
        let r = self.byte_idx_to_grapheme_idx(byte_idx);
        assert(byte_idx as nat == utf16_scan(self@, utf16_idx as nat, 0));
        match r {
            Some(g) => {
                assert(grapheme_of_byte(self.graphemes(), byte_idx as nat) matches Some(i) && i == g);
                g
            },
            None => self.grapheme_count(),
        }
    }
}

/// Length of `s` without trailing whitespace.
pub open spec fn trimmed_end_len(s: Seq<char>) -> nat
    decreases s.len(),
{
    if s.len() > 0 && is_whitespace_char(s.last()) {
        trimmed_end_len(s.drop_last())
    } else {
        s.len()
    }
}

/// Number of leading whitespace characters of `s`.
pub open spec fn leading_whitespace_len(s: Seq<char>) -> nat
    decreases s.len(),
{
    if s.len() > 0 && is_whitespace_char(s[0]) {
        1 + leading_whitespace_len(s.drop_first())
    } else {
        0
    }
}

/// `s` with graphemes `[a, b)` replaced by `middle`.
pub open spec fn splice_graphemes(gs: Seq<Seq<char>>, a: int, b: int, middle: Seq<char>) -> Seq<char> {
    gs.take(a).flatten() + middle + gs.skip(b).flatten()
}

pub proof fn lemma_trimmed_end_len(s: Seq<char>)
    ensures
        trimmed_end_len(s) <= s.len(),
        forall|i: int| trimmed_end_len(s) <= i < s.len() ==> is_whitespace_char(#[trigger] s[i]),
        trimmed_end_len(s) > 0 ==> !is_whitespace_char(s[trimmed_end_len(s) - 1]),
    decreases s.len(),
{
    if s.len() > 0 && is_whitespace_char(s.last()) {
        lemma_trimmed_end_len(s.drop_last());
        assert forall|i: int| trimmed_end_len(s) <= i < s.len() implies is_whitespace_char(
            #[trigger] s[i],
        ) by {
            if i < s.len() - 1 {
                assert(s.drop_last()[i] == s[i]);
            }
        }
        if trimmed_end_len(s) > 0 {
            assert(s.drop_last()[trimmed_end_len(s) - 1] == s[trimmed_end_len(s) - 1]);
        }
    }
}

pub proof fn lemma_leading_whitespace_len(s: Seq<char>)
    ensures
        leading_whitespace_len(s) <= s.len(),
        forall|i: int| 0 <= i < leading_whitespace_len(s) ==> is_whitespace_char(#[trigger] s[i]),
        leading_whitespace_len(s) < s.len() ==> !is_whitespace_char(s[leading_whitespace_len(s) as int]),
    decreases s.len(),
{
    if s.len() > 0 && is_whitespace_char(s[0]) {
        lemma_leading_whitespace_len(s.drop_first());
        assert forall|i: int| 0 <= i < leading_whitespace_len(s) implies is_whitespace_char(
            #[trigger] s[i],
        ) by {
            if i > 0 {
                assert(s.drop_first()[i - 1] == s[i]);
            }
        }
        if leading_whitespace_len(s) < s.len() {
            assert(s.drop_first()[leading_whitespace_len(s) - 1] == s[leading_whitespace_len(s) as int]);
        }
    }
}

/// A string of one character.
pub fn char_to_string(c: char) -> (s: String)
    ensures
        s@ == seq![c],
{
    let mut s = String::new();
    push_char(&mut s, c);
    assert(s@ =~= seq![c]);
    s
}

impl Line {
    /// The text with graphemes `[a, b)` replaced by `middle`.
    fn splice(&self, a: usize, b: usize, middle: &str) -> (res: String)
        requires
            self.wf(),
            a <= b <= self.graphemes().len(),
        ensures
            res@ == splice_graphemes(self.graphemes(), a as int, b as int, middle@),
            res@.len() <= self@.len() + middle@.len(),
    {
        let ghost gs = self.graphemes();
        let n = self.grapheme_count();
        let mut res = self.graphemes_between(0, a);
        res.append(middle);
        let tail = self.graphemes_between(b, n);
        res.append(tail.as_str());
        proof {
            self.lemma_wf();
            assert(gs.subrange(0, a as int) =~= gs.take(a as int));
            assert(gs.subrange(b as int, n as int) =~= gs.skip(b as int));
            lemma_take_flatten_prefix(gs, a as int, b as int);
            lemma_flatten_split(gs, b as int);
        }
        res
    }

    /// Inserts `character` before grapheme `at`, or appends it when `at` is at
    /// or beyond the end.
    pub fn insert_char(&mut self, character: char, at: usize)
        requires
            old(self).wf(),
            old(self)@.len() < usize::MAX / 64,
        ensures
            final(self).wf(),
            final(self)@ == ({
                let gs = old(self).graphemes();
                let k = if at < gs.len() { at as int } else { gs.len() as int };
                splice_graphemes(gs, k, k, seq![character])
            }),
    {
        let n = self.grapheme_count();
        let k = if at < n { at } else { n };
        let c = char_to_string(character);
        let new_string = self.splice(k, k, c.as_str());
        *self = Line::from(new_string.as_str());
    }

    /// Replaces grapheme `at` by `character`; nothing happens beyond the end.
    pub fn replace_char(&mut self, character: char, at: usize)
        requires
            old(self).wf(),
        ensures
            final(self).wf(),
            final(self)@ == (if at < old(self).graphemes().len() {
                splice_graphemes(old(self).graphemes(), at as int, at + 1, seq![character])
            } else {
                old(self)@
            }),
    {
        if at < self.grapheme_count() {
            proof {
                self.lemma_wf();
                assert(self.graphemes()[at as int].len() > 0);
                lemma_take_flatten_prefix(self.graphemes(), at as int, at + 1);
                assert(self.graphemes().subrange(at as int, at + 1) =~= seq![self.graphemes()[at as int]]);
                self.graphemes().subrange(at as int, at + 1).lemma_flatten_one_element();
                lemma_flatten_split(self.graphemes(), at + 1);
            }
            let c = char_to_string(character);
            let new_string = self.splice(at, at + 1, c.as_str());
            *self = Line::from(new_string.as_str());
        }
    }

    /// Appends `character` at the end.
    pub fn append_char(&mut self, character: char)
        requires
            old(self).wf(),
            old(self)@.len() < usize::MAX / 64,
        ensures
            final(self).wf(),
            final(self)@ == old(self)@.push(character),
    {
        proof {
            self.lemma_wf();
            let gs = self.graphemes();
            assert(gs.take(gs.len() as int) =~= gs);
            assert(gs.skip(gs.len() as int) =~= Seq::<Seq<char>>::empty());
            assert(gs.skip(gs.len() as int).flatten() =~= Seq::<char>::empty());
        }
        let n = self.grapheme_count();
        self.insert_char(character, n);
        assert(final(self)@ =~= old(self)@.push(character));
    }

    /// Removes grapheme `at`; nothing happens beyond the end.
    pub fn delete(&mut self, at: usize)
        requires
            old(self).wf(),
        ensures
            final(self).wf(),
            final(self)@ == (if at < old(self).graphemes().len() {
                splice_graphemes(old(self).graphemes(), at as int, at + 1, Seq::empty())
            } else {
                old(self)@
            }),
    {
        if at < self.grapheme_count() {
            let empty = String::new();
            let new_string = self.splice(at, at + 1, empty.as_str());
            proof {
                self.lemma_wf();
            }
            *self = Line::from(new_string.as_str());
        }
    }

    /// Removes trailing whitespace.
    pub fn trim_end(&mut self)
        requires
            old(self).wf(),
        ensures
            final(self).wf(),
            final(self)@ == old(self)@.take(trimmed_end_len(old(self)@) as int),
    {
        let ghost s = self@;
        proof {
            self.lemma_wf();
            lemma_trimmed_end_len(s);
        }
        let cs = chars_of(self.string.as_str());
        let mut end = cs.len();
        assert(s.take(end as int) =~= s);
        while end > 0 && char_is_whitespace(cs[end - 1])
            invariant
                cs@ == s,
                end <= s.len(),
                trimmed_end_len(s) == trimmed_end_len(s.take(end as int)),
            decreases end,
        {
            assert(s.take(end as int).drop_last() =~= s.take(end - 1));
            end = end - 1;
        }
        proof {
            lemma_trimmed_end_len(s.take(end as int));
            if end > 0 {
                assert(s.take(end as int).last() == s[end - 1]);
            }
        }
        let kept = string_from_chars(cs.as_slice(), 0, end);
        *self = Line::from(kept.as_str());
    }

    /// Removes leading whitespace.
    pub fn trim_start(&mut self)
        requires
            old(self).wf(),
        ensures
            final(self).wf(),
            final(self)@ == old(self)@.skip(leading_whitespace_len(old(self)@) as int),
    {
        let ghost s = self@;
        proof {
            self.lemma_wf();
            lemma_leading_whitespace_len(s);
        }
        let cs = chars_of(self.string.as_str());
        let n = cs.len();
        let mut start: usize = 0;
        assert(s.skip(0) =~= s);
        while start < n && char_is_whitespace(cs[start])
            invariant
                cs@ == s,
                n == s.len(),
                start <= n,
                leading_whitespace_len(s) == start + leading_whitespace_len(s.skip(start as int)),
            decreases n - start,
        {
            assert(s.skip(start as int).drop_first() =~= s.skip(start + 1));
            assert(s.skip(start as int)[0] == s[start as int]);
            start = start + 1;
        }
        proof {
            if start < n {
                assert(s.skip(start as int)[0] == s[start as int]);
            }
        }
        let kept = string_from_chars(cs.as_slice(), start, n);
        *self = Line::from(kept.as_str());
    }

    /// Appends the text of `other`.
    pub fn append(&mut self, other: &Self)
        requires
            old(self).wf(),
            old(self)@.len() + other@.len() <= usize::MAX / 64,
        ensures
            final(self).wf(),
            final(self)@ == old(self)@ + other@,
    {
        let mut new_string = self.string.clone();
        new_string.append(other.string.as_str());
        *self = Line::from(new_string.as_str());
    }

    /// Splits the line before grapheme `at`: the line keeps the graphemes
    /// before `at` and the rest is returned. Beyond the end the line stays as
    /// it is and an empty line is returned.
    pub fn split(&mut self, at: usize) -> (rest: Self)
        requires
            old(self).wf(),
        ensures
            final(self).wf(),
            rest.wf(),
            at < old(self).graphemes().len() ==> final(self)@ == old(self).graphemes().take(
                at as int,
            ).flatten() && rest@ == old(self).graphemes().skip(at as int).flatten(),
            at >= old(self).graphemes().len() ==> final(self)@ == old(self)@ && rest@
                == Seq::<char>::empty(),
    {
        let n = self.grapheme_count();
        if at < n {
            proof {
                self.lemma_wf();
                lemma_flatten_split(self.graphemes(), at as int);
                assert(self.graphemes().subrange(0, at as int) =~= self.graphemes().take(at as int));
                assert(self.graphemes().subrange(at as int, n as int) =~= self.graphemes().skip(at as int));
            }
            let head = self.graphemes_between(0, at);
            let tail = self.graphemes_between(at, n);
            *self = Line::from(head.as_str());
            Line::from(tail.as_str())
        } else {
            Line::empty()
        }
    }
}

// ---------------------------------------------------------------------------
// Search
// ---------------------------------------------------------------------------

/// The leftmost non-overlapping occurrences of `q` in `t`, scanning from
/// character `p` (an empty `q` occurs at every position, end included).
pub open spec fn occurrences(t: Seq<char>, q: Seq<char>, p: nat) -> Seq<nat>
    decreases t.len() + 1 - p,
{
    if p + q.len() > t.len() {
        Seq::empty()
    } else if t.subrange(p as int, (p + q.len()) as int) == q {
        seq![p] + occurrences(t, q, p + if q.len() == 0 { 1 } else { q.len() })
    } else {
        occurrences(t, q, p + 1)
    }
}

/// The character whose start, scanning from character `k`, is byte `b`
/// (the end of `s` counts as a start).
pub open spec fn char_at_byte_from(s: Seq<char>, b: nat, k: nat) -> Option<nat>
    decreases s.len() + 1 - k,
{
    if k > s.len() {
        None
    } else if utf8_len(s.take(k as int)) == b {
        Some(k)
    } else {
        char_at_byte_from(s, b, k + 1)
    }
}

/// Grapheme `g` and the following graphemes spell `q`, if the match at byte
/// `b` is aligned with the graphemes of the line.
pub open spec fn aligned_match(gs: Seq<Seq<char>>, q: Seq<char>, b: nat) -> Option<nat> {
    let qc = grapheme_clusters(q).len();
    match grapheme_of_byte(gs, b) {
        Some(g) => if g + qc <= gs.len() && gs.subrange(g as int, (g + qc) as int).flatten() == q {
            Some(g)
        } else {
            None
        },
        None => None,
    }
}

/// The matches among the byte positions `bs` that are aligned with the
/// graphemes, as (byte, grapheme) pairs.
pub open spec fn aligned_matches(gs: Seq<Seq<char>>, q: Seq<char>, bs: Seq<nat>) -> Seq<(nat, nat)>
    decreases bs.len(),
{
    if bs.len() == 0 {
        Seq::empty()
    } else {
        let rest = aligned_matches(gs, q, bs.drop_last());
        match aligned_match(gs, q, bs.last()) {
            Some(g) => rest.push((bs.last(), g)),
            None => rest,
        }
    }
}

/// All grapheme-aligned matches of `q` in the bytes `[start, end)` of the
/// text `s` (whose end is clamped to the text); none when the range does not
/// fall on character boundaries.
pub open spec fn find_all_spec(s: Seq<char>, q: Seq<char>, start: nat, end: nat) -> Seq<(nat, nat)> {
    let e = if end <= utf8_len(s) { end } else { utf8_len(s) };
    match (char_at_byte_from(s, start, 0), char_at_byte_from(s, e, 0)) {
        (Some(a), Some(z)) => if a <= z {
            aligned_matches(
                grapheme_clusters(s),
                q,
                occurrences(s.subrange(a as int, z as int), q, 0).map_values(
                    |p: nat| utf8_len(s.take((a + p) as int)),
                ),
            )
        } else {
            Seq::empty()
        },
        _ => Seq::empty(),
    }
}

/// The grapheme of the first match of `q` at or after grapheme `from` of `s`.
pub open spec fn search_forward_spec(s: Seq<char>, q: Seq<char>, from: nat) -> Option<usize> {
    let gs = grapheme_clusters(s);
    if from >= gs.len() {
        None
    } else {
        let found = find_all_spec(s, q, byte_offset(gs, from as int), utf8_len(s));
        if found.len() > 0 {
            Some(found[0].1 as usize)
        } else {
            None
        }
    }
}

/// The grapheme of the last match of `q` that starts before grapheme `from` of `s`.
pub open spec fn search_backward_spec(s: Seq<char>, q: Seq<char>, from: nat) -> Option<usize> {
    let gs = grapheme_clusters(s);
    if from == 0 {
        None
    } else {
        let end = if from >= gs.len() {
            utf8_len(s)
        } else {
            byte_offset(gs, from as int)
        };
        let found = find_all_spec(s, q, 0, end);
        if found.len() > 0 {
            Some(found.last().1 as usize)
        } else {
            None
        }
    }
}

pub open spec fn pairs_nat(v: Seq<(usize, usize)>) -> Seq<(nat, nat)> {
    v.map_values(|p: (usize, usize)| (p.0 as nat, p.1 as nat))
}

pub open spec fn usizes_nat(v: Seq<usize>) -> Seq<nat> {
    v.map_values(|p: usize| p as nat)
}

pub proof fn lemma_char_at_byte_from(s: Seq<char>, b: nat, k: nat)
    ensures
        char_at_byte_from(s, b, k) matches Some(j) ==> k <= j <= s.len() && utf8_len(s.take(j as int))
            == b,
    decreases s.len() + 1 - k,
{
    if k <= s.len() && utf8_len(s.take(k as int)) != b {
        lemma_char_at_byte_from(s, b, k + 1);
    }
}

pub proof fn lemma_occurrences_bound(t: Seq<char>, q: Seq<char>, p: nat)
    ensures
        forall|i: int| 0 <= i < occurrences(t, q, p).len() ==> p <= #[trigger] occurrences(t, q, p)[i] <= t.len(),
        occurrences(t, q, p).len() <= t.len() + 1,
    decreases t.len() + 1 - p,
{
    if p + q.len() > t.len() {
    } else {
        let step: nat = if q.len() == 0 { 1 } else { q.len() };
        if t.subrange(p as int, (p + q.len()) as int) == q {
            lemma_occurrences_bound(t, q, p + step);
            let rest = occurrences(t, q, p + step);
            assert forall|i: int| 0 <= i < occurrences(t, q, p).len() implies p <= #[trigger] occurrences(t, q, p)[i] <= t.len() by {
                if i > 0 {
                    assert(occurrences(t, q, p)[i] == rest[i - 1]);
                }
            }
            if rest.len() > 0 {
                assert(rest[0] >= p + step);
                assert(rest.len() <= t.len() + 1 - (p + step)) by {
                    lemma_occurrences_len(t, q, p + step);
                }
            }
        } else {
            lemma_occurrences_bound(t, q, p + 1);
        }
    }
}

pub proof fn lemma_occurrences_len(t: Seq<char>, q: Seq<char>, p: nat)
    ensures
        occurrences(t, q, p).len() <= if p <= t.len() + 1 { t.len() + 1 - p } else { 0 },
    decreases t.len() + 1 - p,
{
    if p + q.len() > t.len() {
    } else {
        let step: nat = if q.len() == 0 { 1 } else { q.len() };
        if t.subrange(p as int, (p + q.len()) as int) == q {
            lemma_occurrences_len(t, q, p + step);
        } else {
            lemma_occurrences_len(t, q, p + 1);
        }
    }
}

/// Byte offsets of every character boundary of `cs`.
fn prefix_bytes(cs: &Vec<char>) -> (res: Vec<usize>)
    requires
        line_fits(cs@),
    ensures
        res@.len() == cs@.len() + 1,
        forall|k: int| 0 <= k <= cs@.len() ==> #[trigger] res@[k] == utf8_len(cs@.take(k)),
{
    let mut res: Vec<usize> = Vec::new();
    let mut pos: usize = 0;
    let mut k: usize = 0;
    proof {
        crate::text::lemma_utf8_len_upper(cs@);
        assert(cs@.take(0) =~= Seq::<char>::empty());
        assert(vstd::utf8::encode_utf8(Seq::<char>::empty()) =~= Seq::<u8>::empty());
    }
    res.push(pos);
    while k < cs.len()
        invariant
            line_fits(cs@),
            k <= cs@.len(),
            res@.len() == k + 1,
            pos == utf8_len(cs@.take(k as int)),
            forall|j: int| 0 <= j <= k ==> #[trigger] res@[j] == utf8_len(cs@.take(j)),
        decreases cs@.len() - k,
    {
        proof {
            assert(cs@.take(k + 1) =~= cs@.take(k as int) + seq![cs@[k as int]]);
            crate::text::lemma_utf8_len_concat(cs@.take(k as int), seq![cs@[k as int]]);
            crate::text::lemma_utf8_len_take_mono(cs@, k + 1, k + 1);
            crate::text::lemma_utf8_len_upper(cs@);
        }
        pos = pos + char_len_utf8(cs[k]);
        res.push(pos);
        k = k + 1;
    }
    res
}

/// Whether `q` occurs in `cs` at character `p`.
fn chars_match_at(cs: &Vec<char>, p: usize, q: &Vec<char>) -> (r: bool)
    requires
        p + q@.len() <= cs@.len(),
    ensures
        r == (cs@.subrange(p as int, p + q@.len()) == q@),
{
    let mut i: usize = 0;
    let cn = cs.len();
    while i < q.len()
        invariant
            cn == cs@.len(),
            p + q@.len() <= cs@.len(),
            i <= q@.len(),
            forall|j: int| 0 <= j < i ==> cs@[p + j] == q@[j],
        decreases q@.len() - i,
    {
        if cs[p + i] != q[i] {
            assert(cs@.subrange(p as int, p + q@.len())[i as int] != q@[i as int]);
            return false;
        }
        i = i + 1;
    }
    assert(cs@.subrange(p as int, p + q@.len()) =~= q@);
    true
}

impl Line {
    /// The leftmost non-overlapping occurrences of `query` in characters
    /// `[a, z)`, as character positions relative to `a`.
    fn occurrences_between(cs: &Vec<char>, a: usize, z: usize, q: &Vec<char>) -> (res: Vec<usize>)
        requires
            a <= z <= cs@.len(),
            line_fits(cs@),
        ensures
            usizes_nat(res@) == occurrences(cs@.subrange(a as int, z as int), q@, 0),
    {
        let ghost t = cs@.subrange(a as int, z as int);
        let mut res: Vec<usize> = Vec::new();
        let mut p: usize = 0;
        let tn = z - a;
        let qn = q.len();
        proof {
            assert(usizes_nat(res@) + occurrences(t, q@, 0) =~= occurrences(t, q@, 0));
        }
        while qn <= tn && p <= tn - qn
            invariant
                t == cs@.subrange(a as int, z as int),
                a <= z <= cs@.len(),
                line_fits(cs@),
                tn == t.len(),
                qn == q@.len(),
                p <= tn + 1,
                occurrences(t, q@, 0) == usizes_nat(res@) + occurrences(t, q@, p as nat),
            decreases tn + 1 - p,
        {
            let m = chars_match_at(cs, a + p, q);
            assert(cs@.subrange(a + p, a + p + qn) =~= t.subrange(p as int, p + qn));
            if m {
                let ghost old_res = res@;
                res.push(p);
                assert(usizes_nat(res@) =~= usizes_nat(old_res) + seq![p as nat]);
                let step = if qn == 0 { 1 } else { qn };
                proof {
                    assert(occurrences(t, q@, p as nat) == seq![p as nat] + occurrences(t, q@, (p + step) as nat));
                    assert(usizes_nat(old_res) + (seq![p as nat] + occurrences(t, q@, (p + step) as nat))
                        =~= usizes_nat(res@) + occurrences(t, q@, (p + step) as nat));
                }
                p = p + step;
            } else {
                p = p + 1;
            }
        }
        proof {
            assert(occurrences(t, q@, p as nat) =~= Seq::<nat>::empty());
            assert(usizes_nat(res@) + Seq::<nat>::empty() =~= usizes_nat(res@));
        }
        res
    }

    /// The matches among the byte positions `matches` that line up with the
    /// graphemes of the line.
    fn match_grapheme_clusters(&self, matches: &Vec<usize>, query: &str) -> (res: Vec<(usize, usize)>)
        requires
            self.wf(),
        ensures
            pairs_nat(res@) == aligned_matches(self.graphemes(), query@, usizes_nat(matches@)),
    {
        let ghost gs = self.graphemes();
        let grapheme_count = grapheme_indices(query).len();
        let n = self.grapheme_count();
        let query_string = copy_str(query);
        let mut res: Vec<(usize, usize)> = Vec::new();
        let mut i: usize = 0;
        proof {
            self.lemma_wf();
            assert(usizes_nat(matches@).take(0) =~= Seq::<nat>::empty());
        }
        while i < matches.len()
            invariant
                self.wf(),
                gs == self.graphemes(),
                n == gs.len(),
                grapheme_count == grapheme_clusters(query@).len(),
                query_string@ == query@,
                i <= matches@.len(),
                pairs_nat(res@) == aligned_matches(gs, query@, usizes_nat(matches@).take(i as int)),
            decreases matches@.len() - i,
        {
            let start = matches[i];
            let ghost bs = usizes_nat(matches@).take(i + 1);
            assert(bs.drop_last() =~= usizes_nat(matches@).take(i as int));
            assert(bs.last() == start as nat);
            let ghost old_res = res@;
            match self.byte_idx_to_grapheme_idx(start) {
                Some(g) => {
                    if grapheme_count <= n - g {
                        let sub = self.graphemes_between(g, g + grapheme_count);
                        if sub == query_string {
                            res.push((start, g));
                            assert(pairs_nat(res@) =~= pairs_nat(old_res).push((start as nat, g as nat)));
                        }
                    }
                },
                None => {},
            }
            i = i + 1;
        }
        assert(usizes_nat(matches@).take(matches@.len() as int) =~= usizes_nat(matches@));
        res
    }

    /// The character at which byte `b` starts, if `b` is a character boundary.
    fn char_at_byte(bytes: &Vec<usize>, cs_len: usize, b: usize, Ghost(s): Ghost<Seq<char>>) -> (r: Option<usize>)
        requires
            bytes@.len() == cs_len + 1,
            cs_len < usize::MAX,
            s.len() == cs_len,
            forall|k: int| 0 <= k <= cs_len ==> #[trigger] bytes@[k] == utf8_len(s.take(k)),
        ensures
            r == match char_at_byte_from(s, b as nat, 0) {
                Some(j) => Some(j as usize),
                None => None::<usize>,
            },
    {
        let mut k: usize = 0;
        while k <= cs_len
            invariant
                bytes@.len() == cs_len + 1,
                cs_len < usize::MAX,
                s.len() == cs_len,
                forall|k: int| 0 <= k <= cs_len ==> #[trigger] bytes@[k] == utf8_len(s.take(k)),
                k <= cs_len + 1,
                char_at_byte_from(s, b as nat, 0) == char_at_byte_from(s, b as nat, k as nat),
            decreases cs_len + 1 - k,
        {
            if bytes[k] == b {
                return Some(k);
            }
            k = k + 1;
        }
        None
    }

    /// All grapheme-aligned matches of `query` within bytes `range` of the
    /// line, as (byte, grapheme) pairs.
    pub fn find_all(&self, query: &str, range: std::ops::Range<usize>) -> (res: Vec<(usize, usize)>)
        requires
            self.wf(),
        ensures
            pairs_nat(res@) == find_all_spec(self@, query@, range.start as nat, range.end as nat),
    {
        let ghost s = self@;
        proof {
            self.lemma_wf();
        }
        let len = self.len();
        let end = if range.end < len { range.end } else { len };
        let start = range.start;
        let cs = chars_of(self.string.as_str());
        let bytes = prefix_bytes(&cs);
        let a = Self::char_at_byte(&bytes, cs.len(), start, Ghost(s));
        let z = Self::char_at_byte(&bytes, cs.len(), end, Ghost(s));
        proof {
            lemma_char_at_byte_from(s, start as nat, 0);
            lemma_char_at_byte_from(s, end as nat, 0);
        }
        match (a, z) {
            (Some(a), Some(z)) => {
                if a <= z {
                    let ghost an: nat = a as nat;
                    let q = chars_of(query);
                    let positions = Self::occurrences_between(&cs, a, z, &q);
                    let ghost occ = occurrences(s.subrange(a as int, z as int), query@, 0);
                    proof {
                        lemma_occurrences_bound(s.subrange(a as int, z as int), query@, 0);
                    }
                    let mut potential_matches: Vec<usize> = Vec::new();
                    let mut i: usize = 0;
                    while i < positions.len()
                        invariant
                            usizes_nat(positions@) == occ,
                            forall|j: int| 0 <= j < occ.len() ==> #[trigger] occ[j] <= z - a,
                            a <= z <= s.len(),
                            an == a as nat,
                            bytes@.len() == s.len() + 1,
                            forall|k: int| 0 <= k <= s.len() ==> #[trigger] bytes@[k] == utf8_len(s.take(k)),
                            i <= positions@.len(),
                            usizes_nat(potential_matches@) == occ.take(i as int).map_values(
                                |p: nat| utf8_len(s.take((an + p) as int)),
                            ),
                        decreases positions@.len() - i,
                    {
                        assert(occ[i as int] == positions@[i as int] as nat);
                        let ghost old_pm = potential_matches@;
                        assert(bytes@[a + positions@[i as int]] == utf8_len(s.take(a + positions@[i as int])));
                        assert(occ.take(i + 1) =~= occ.take(i as int).push(occ[i as int]));
                        let bv = bytes[a + positions[i]];
                        potential_matches.push(bv);
                        assert(usizes_nat(potential_matches@) =~= usizes_nat(old_pm).push(bv as nat));
                        assert(occ.take(i + 1).map_values(|p: nat| utf8_len(s.take((an + p) as int)))
                            =~= occ.take(i as int).map_values(|p: nat| utf8_len(s.take((an + p) as int))).push(
                            utf8_len(s.take((an + occ[i as int]) as int)),
                        ));
                        i = i + 1;
                    }
                    assert(occ.take(occ.len() as int) =~= occ);
                    let r = self.match_grapheme_clusters(&potential_matches, query);
                    assert(a as nat == char_at_byte_from(s, start as nat, 0)->0);
                    assert(z as nat == char_at_byte_from(s, end as nat, 0)->0);
                    assert(usizes_nat(potential_matches@) == occ.map_values(|p: nat| utf8_len(s.take((an + p) as int))));
                    assert(s.subrange(a as int, z as int) == cs@.subrange(a as int, z as int));
                    assert(pairs_nat(r@) == find_all_spec(s, query@, range.start as nat, range.end as nat));
                    r
                } else {
                    let r: Vec<(usize, usize)> = Vec::new();
                    assert(pairs_nat(r@) =~= Seq::<(nat, nat)>::empty());
                    r
                }
            },
            _ => {
                let r: Vec<(usize, usize)> = Vec::new();
                assert(pairs_nat(r@) =~= Seq::<(nat, nat)>::empty());
                r
            },
        }
    }

    /// The first match of `query` at or after grapheme `from_grapheme_idx`.
    pub fn search_forward(&self, query: &str, from_grapheme_idx: usize) -> (r: Option<usize>)
        requires
            self.wf(),
        ensures
            r == search_forward_spec(self@, query@, from_grapheme_idx as nat),
    {
        if from_grapheme_idx >= self.grapheme_count() {
            return None;
        }
        let start = self.grapheme_idx_to_byte_idx(from_grapheme_idx);
        let found = self.find_all(query, start..self.len());
        if found.len() > 0 {
            assert(pairs_nat(found@)[0].1 == found@[0].1 as nat);
            Some(found[0].1)
        } else {
            None
        }
    }

    /// The last match of `query` before grapheme `from_grapheme_idx`.
    pub fn search_backward(&self, query: &str, from_grapheme_idx: usize) -> (r: Option<usize>)
        requires
            self.wf(),
        ensures
            r == search_backward_spec(self@, query@, from_grapheme_idx as nat),
    {
        if from_grapheme_idx == 0 {
            return None;
        }
        let end_byte_index = if from_grapheme_idx >= self.grapheme_count() {
            self.len()
        } else {
            self.grapheme_idx_to_byte_idx(from_grapheme_idx)
        };
        let found = self.find_all(query, 0..end_byte_index);
        if found.len() > 0 {
            let last = found.len() - 1;
            assert(pairs_nat(found@).last().1 == found@[last as int].1 as nat);
            Some(found[last].1)
        } else {
            None
        }
    }
}

pub proof fn lemma_graphemes_text_len(gs: Seq<Seq<char>>, a: int, b: int)
    requires
        0 <= a,
    ensures
        graphemes_text(gs, a, b).len() <= gs.flatten().len(),
{
    let s = if a <= gs.len() { a } else { gs.len() as int };
    let e = if b <= gs.len() { b } else { gs.len() as int };
    if s < e {
        lemma_take_flatten_prefix(gs, s, e);
        lemma_flatten_split(gs, e);
    }
}

impl Line {
    /// Removes the last grapheme, if there is one.
    pub fn delete_last(&mut self)
        requires
            old(self).wf(),
        ensures
            final(self).wf(),
            final(self)@ == (if old(self).graphemes().len() > 0 {
                splice_graphemes(
                    old(self).graphemes(),
                    old(self).graphemes().len() - 1,
                    old(self).graphemes().len() as int,
                    Seq::empty(),
                )
            } else {
                old(self)@
            }),
            final(self)@.len() <= old(self)@.len(),
    {
        let n = self.grapheme_count();
        if n > 0 {
            proof {
                self.lemma_wf();
                lemma_take_flatten_prefix(self.graphemes(), n - 1, n as int);
                lemma_flatten_split(self.graphemes(), n as int);
                assert(self.graphemes().skip(n as int) =~= Seq::<Seq<char>>::empty());
                assert(self.graphemes().take(n as int) =~= self.graphemes());
            }
            self.delete(n - 1);
        }
    }
}

// ---------------------------------------------------------------------------
// The visible part of a line
// ---------------------------------------------------------------------------

/// The mark shown where a grapheme is cut by the edge of the view.
pub open spec fn ellipsis() -> Seq<char> {
    seq!['\u{22ef}']
}

/// The replacements' annotations attached to a fragment starting at byte `base`.
pub open spec fn with_offset_annotations(
    v: AnnotatedView,
    extra: Seq<(AnnotationType, usize, usize)>,
    base: nat,
) -> AnnotatedView {
    (v.0, v.1 + offset_annotations(extra, base))
}

/// Processing the fragments `k - 1` down to `0` of the text `s` for the
/// column range `[rs, re)`, from the right: fragments right of the range are
/// skipped; one cut by the right edge becomes an ellipsis that ends the text;
/// one starting at the right edge ends the text; one ending at or before the
/// left edge removes everything up to its end; one cut by the left edge
/// becomes an ellipsis that starts the text; a fragment within the range is
/// shown by its replacement, if it has one.
pub open spec fn visible_from(s: Seq<char>, k: nat, v: AnnotatedView, rs: nat, re: nat) -> AnnotatedView
    decreases k,
{
    if k == 0 {
        v
    } else {
        let j = (k - 1) as int;
        let gs = grapheme_clusters(s);
        let fs = column_at(gs, j as nat);
        let fe = column_at(gs, k);
        let b0 = byte_offset(gs, j);
        let b1 = byte_offset(gs, k as int);
        if fs > re {
            visible_from(s, j as nat, v, rs, re)
        } else if fs < re && fe > re {
            visible_from(s, j as nat, replaced(v, b0, utf8_len(s), ellipsis()), rs, re)
        } else if fs == re {
            visible_from(s, j as nat, replaced(v, b0, utf8_len(v.0), Seq::empty()), rs, re)
        } else if fe <= rs {
            replaced(v, 0, b1, Seq::empty())
        } else if fs < rs && fe > rs {
            replaced(v, 0, b1, ellipsis())
        } else if fs >= rs && fe <= re && replacement_for(gs[j], fs) is Some {
            let r = replacement_for(gs[j], fs)->0;
            let v1 = replaced(v, b0, b1, r);
            visible_from(
                s,
                j as nat,
                with_offset_annotations(v1, replacement_annotations_for(gs[j], fs), b0),
                rs,
                re,
            )
        } else {
            visible_from(s, j as nat, v, rs, re)
        }
    }
}

/// The text with a virtual space for the line break, annotated, and cut at
/// that space when the range ends within the line or starts after it.
pub open spec fn visible_start(s: Seq<char>, anns: Seq<Annotation>, rs: nat, re: nat) -> AnnotatedView {
    let gs = grapheme_clusters(s);
    let w = column_at(gs, gs.len());
    let v0 = (s.push(' '), anns);
    if w >= re {
        replaced(v0, utf8_len(s), utf8_len(v0.0), Seq::empty())
    } else if w + 1 <= rs {
        replaced(v0, 0, utf8_len(s) + 1, Seq::empty())
    } else {
        v0
    }
}

/// What columns `[rs, re)` of the text `s` show, with the annotations
/// `anns` (byte ranges of the text and its virtual trailing space) carried
/// along.
pub open spec fn annotated_visible(s: Seq<char>, anns: Seq<Annotation>, rs: nat, re: nat) -> AnnotatedView {
    if rs >= re {
        (Seq::empty(), Seq::empty())
    } else {
        visible_from(s, grapheme_clusters(s).len(), visible_start(s, anns, rs, re), rs, re)
    }
}

pub open spec fn opt_annotations(a: Option<&Vec<Annotation>>) -> Seq<Annotation> {
    match a {
        Some(v) => v@,
        None => Seq::empty(),
    }
}

pub proof fn lemma_replacement_bounds(g: Seq<char>, col: nat)
    ensures
        replacement_for(g, col) matches Some(r) ==> r.len() <= TAB_SIZE,
        forall|i: int|
            0 <= i < replacement_annotations_for(g, col).len() ==> {
                &&& (#[trigger] replacement_annotations_for(g, col)[i]).1 == 0
                &&& replacement_annotations_for(g, col)[i].2 <= TAB_SIZE
            },
{
    crate::text::lemma_utf8_len_char('\u{b7}');
}

pub proof fn lemma_byte_offset_step(gs: Seq<Seq<char>>, j: int)
    requires
        0 <= j < gs.len(),
    ensures
        byte_offset(gs, j + 1) == byte_offset(gs, j) + utf8_len(gs[j]),
{
    lemma_take_flatten_step(gs, j);
    crate::text::lemma_utf8_len_concat(gs.take(j).flatten(), gs[j]);
}

impl Line {
    /// What columns `range` of the line show: each grapheme by its
    /// replacement where it has one, an ellipsis where the range cuts a
    /// grapheme, and a space for the line break if the range reaches past the
    /// end of the line; `annotations` (byte ranges of the line and its
    /// trailing space) move with the text.
    pub fn get_annotated_visible_substr(
        &self,
        range: std::ops::Range<usize>,
        annotations: Option<&Vec<Annotation>>,
    ) -> (res: AnnotatedString)
        requires
            self.wf(),
        ensures
            res.view_pair() == annotated_visible(
                self@,
                opt_annotations(annotations),
                range.start as nat,
                range.end as nat,
            ),
            res.wf(),
    {
        let rs = range.start;
        let re = range.end;
        if rs >= re {
            let r = AnnotatedString::new();
            assert(r.text() =~= Seq::<char>::empty());
            assert(r.annotations_view() =~= Seq::<Annotation>::empty());
            return r;
        }
        let ghost s = self@;
        let ghost gs = self.graphemes();
        proof {
            self.lemma_wf();
            crate::text::lemma_utf8_len_upper(s);
            crate::text::lemma_utf8_len_concat(s, seq![' ']);
            crate::text::lemma_utf8_len_char(' ');
            reveal_strlit("\u{22ef}");
        }
        let mut text = copy_str(self.string.as_str());
        push_char(&mut text, ' ');
        let mut result = AnnotatedString::from(text.as_str());
        let ghost given = opt_annotations(annotations);
        if let Some(anns) = annotations {
            let mut i: usize = 0;
            while i < anns.len()
                invariant
                    i <= anns@.len(),
                    result.text() == s.push(' '),
                    result.annotations_view() == anns@.take(i as int),
                decreases anns@.len() - i,
            {
                let a = anns[i];
                result.add_annotation(a.annotation_type, a.start, a.end);
                assert(anns@.take(i + 1) =~= anns@.take(i as int).push(a));
                i = i + 1;
            }
            assert(anns@.take(anns@.len() as int) =~= anns@);
        } else {
            assert(result.annotations_view() =~= Seq::<Annotation>::empty());
        }
        assert(result.view_pair() == (s.push(' '), given));
        let width = self.width();
        let line_len = self.len();
        if width >= re {
            result.truncate_right_from(line_len);
        } else if width + 1 <= rs {
            result.truncate_left_until(line_len + 1);
        }
        proof {
            lemma_replaced_text_len(s.push(' '), 0, utf8_len(s) + 1, Seq::empty());
            lemma_replaced_text_len(s.push(' '), utf8_len(s), utf8_len(s.push(' ')), Seq::empty());
        }
        assert(result.view_pair() == visible_start(s, given, rs as nat, re as nat));
        let ghost target = annotated_visible(s, given, rs as nat, re as nat);
        let n = self.fragments.len();
        let mut k: usize = n;
        let mut fragment_start: usize = width;
        loop
            invariant_except_break
                self.wf(),
                s == self@,
                gs == self.graphemes(),
                n == gs.len(),
                n <= s.len(),
                line_fits(s),
                line_len == utf8_len(s),
                rs < re,
                k <= n,
                fragment_start == column_at(gs, k as nat),
                target == visible_from(s, k as nat, result.view_pair(), rs as nat, re as nat),
                result.text().len() <= s.len() + 1 + TAB_SIZE * (n - k),
                ellipsis() == "\u{22ef}"@,
            ensures
                target == result.view_pair(),
                result.wf(),
            decreases k,
        {
            if k == 0 {
                break;
            }
            let j = k - 1;
            let frag = &self.fragments[j];
            proof {
                assert(fragment_ok(self.fragments@[j as int], gs, j as int));
                lemma_column_bounds(gs, j as nat, k as nat);
                lemma_byte_offset_step(gs, j as int);
                lemma_byte_offset_bound(gs, k as int);
                lemma_replacement_bounds(gs[j as int], column_at(gs, j as nat));
                crate::text::lemma_utf8_len_upper(result.text());
            }
            let fragment_end = fragment_start;
            let fs = fragment_end - usize::from(frag.rendered_width);
            let glen = frag.grapheme.as_str().len();
            let b1 = frag.start + glen;
            proof {
                lemma_replaced_text_len(result.text(), frag.start as nat, line_len as nat, ellipsis());
                lemma_replaced_text_len(result.text(), frag.start as nat, utf8_len(result.text()), Seq::empty());
                lemma_replaced_text_len(result.text(), 0, b1 as nat, Seq::empty());
                lemma_replaced_text_len(result.text(), 0, b1 as nat, ellipsis());
            }
            if fs > re {
                k = j;
                fragment_start = fs;
                continue;
            }
            if fs < re && fragment_end > re {
                result.replace(frag.start, line_len, "\u{22ef}");
                k = j;
                fragment_start = fs;
                continue;
            } else if fs == re {
                result.truncate_right_from(frag.start);
                k = j;
                fragment_start = fs;
                continue;
            }
            if fragment_end <= rs {
                result.truncate_left_until(b1);
                break;
            } else if fs < rs && fragment_end > rs {
                result.replace(0, b1, "\u{22ef}");
                break;
            }
            if fs >= rs && fragment_end <= re {
                if let Some(replacement) = &frag.replacement {
                    proof {
                        lemma_replaced_text_len(result.text(), frag.start as nat, b1 as nat, replacement@);
                    }
                    let start = frag.start;
                    result.replace(start, b1, replacement.as_str());
                    let ghost v1 = result.view_pair();
                    let ras = &frag.replacement_annotations;
                    let mut m: usize = 0;
                    while m < ras.len()
                        invariant
                            m <= ras@.len(),
                            ras@ == replacement_annotations_for(gs[j as int], column_at(gs, j as nat)),
                            forall|i: int| 0 <= i < ras@.len() ==> (#[trigger] ras@[i]).1 == 0 && ras@[i].2 <= TAB_SIZE,
                            start <= 4 * (usize::MAX / 64),
                            result.text() == v1.0,
                            result.annotations_view() == v1.1 + offset_annotations(ras@.take(m as int), start as nat),
                        decreases ras@.len() - m,
                    {
                        let (t, a, b) = ras[m];
                        assert(ras@.take(m + 1).drop_last() =~= ras@.take(m as int));
                        result.add_annotation(t, start + a, start + b);
                        assert(v1.1 + offset_annotations(ras@.take(m + 1), start as nat) =~= (v1.1
                            + offset_annotations(ras@.take(m as int), start as nat)).push(
                            Annotation { annotation_type: t, start: (start + a) as usize, end: (start + b) as usize },
                        ));
                        m = m + 1;
                    }
                    assert(ras@.take(ras@.len() as int) =~= ras@);
                }
            }
            k = j;
            fragment_start = fs;
        }
        result
    }

    /// What columns `range` of the line show, as text.
    pub fn get_visible_graphemes(&self, range: std::ops::Range<usize>) -> (s: String)
        requires
            self.wf(),
        ensures
            s@ == annotated_visible(self@, Seq::empty(), range.start as nat, range.end as nat).0,
    {
        self.get_annotated_visible_substr(range, None).to_string()
    }
}

/// Splitting a well-formed line at a grapheme and appending the part split
/// off gives the line back.
pub proof fn lemma_split_then_append(line: Line, at: nat)
    requires
        line.wf(),
        at <= line.graphemes().len(),
    ensures
        line.graphemes().take(at as int).flatten() + line.graphemes().skip(at as int).flatten() == line@,
{
    line.lemma_wf();
    lemma_flatten_split(line.graphemes(), at as int);
}


/// The graphemes of `gs` from `g` on spell `q`.
pub open spec fn spells_at(gs: Seq<Seq<char>>, q: Seq<char>, g: nat) -> bool {
    let qc = grapheme_clusters(q).len();
    g + qc <= gs.len() && gs.subrange(g as int, (g + qc) as int).flatten() == q
}

/// With non-empty clusters, a later grapheme starts at a later byte.
proof fn lemma_byte_offset_strict(gs: Seq<Seq<char>>, i: int, j: int)
    requires
        0 <= i < j <= gs.len(),
        forall|k: int| 0 <= k < gs.len() ==> (#[trigger] gs[k]).len() > 0,
    ensures
        byte_offset(gs, i) < byte_offset(gs, j),
{
    lemma_take_flatten_step(gs, i);
    lemma_take_flatten_prefix(gs, i + 1, j);
    crate::text::lemma_utf8_len_concat(gs.take(i).flatten(), gs[i]);
    crate::text::lemma_utf8_len_concat(gs.take(i + 1).flatten(), gs.subrange(i + 1, j).flatten());
    crate::text::lemma_utf8_len_lower(gs[i]);
}

/// No grapheme before the one `first_grapheme_from_byte` finds starts at or
/// after byte `b`.
proof fn lemma_first_grapheme_minimal(gs: Seq<Seq<char>>, b: nat, i: nat, j: nat)
    requires
        i <= j < gs.len(),
        byte_offset(gs, j as int) >= b,
    ensures
        first_grapheme_from_byte(gs, b, i) matches Some(k) && k <= j,
    decreases j - i,
{
    if byte_offset(gs, i as int) < b {
        lemma_first_grapheme_minimal(gs, b, i + 1, j);
    }
}

/// What `aligned_matches` keeps: pairs whose graphemes spell `q`, whose byte is
/// one of `bs` (all within `[lo, hi]`), and whose grapheme is the first that
/// starts at or after that byte.
proof fn lemma_aligned_matches_kept(gs: Seq<Seq<char>>, q: Seq<char>, bs: Seq<nat>, lo: nat, hi: nat)
    requires
        forall|k: int| 0 <= k < bs.len() ==> lo <= #[trigger] bs[k] <= hi,
    ensures
        forall|k: int|
            0 <= k < aligned_matches(gs, q, bs).len() ==> {
                let m = #[trigger] aligned_matches(gs, q, bs)[k];
                &&& spells_at(gs, q, m.1)
                &&& lo <= m.0 <= hi
                &&& grapheme_of_byte(gs, m.0) == Some(m.1)
            },
    decreases bs.len(),
{
    if bs.len() > 0 {
        let rest = bs.drop_last();
        assert forall|k: int| 0 <= k < rest.len() implies lo <= #[trigger] rest[k] <= hi by {
            assert(rest[k] == bs[k]);
        }
        lemma_aligned_matches_kept(gs, q, rest, lo, hi);
        let b = bs.last();
        assert(b == bs[bs.len() - 1]);
        let prev = aligned_matches(gs, q, rest);
        match aligned_match(gs, q, b) {
            Some(g) => {
                let all = prev.push((b, g));
                assert(aligned_matches(gs, q, bs) == all);
                assert forall|k: int| 0 <= k < all.len() implies {
                    let m = #[trigger] all[k];
                    &&& spells_at(gs, q, m.1)
                    &&& lo <= m.0 <= hi
                    &&& grapheme_of_byte(gs, m.0) == Some(m.1)
                } by {
                    if k < prev.len() {
                        assert(all[k] == prev[k]);
                    } else {
                        assert(all[k] == (b, g));
                    }
                }
            },
            None => {
                assert(aligned_matches(gs, q, bs) == prev);
            },
        }
    }
}

/// A search reports only places where the query stands: the graphemes from a
/// reported match on spell the query. A forward search reports a grapheme at
/// or after the one it starts from; a backward search one at or before it.
pub proof fn lemma_search_finds_query(line: Line, q: Seq<char>, from: nat)
    requires
        line.wf(),
    ensures
        search_forward_spec(line@, q, from) matches Some(g) ==> spells_at(line.graphemes(), q, g as nat)
            && from <= g,
        search_backward_spec(line@, q, from) matches Some(g) ==> spells_at(line.graphemes(), q, g as nat)
            && g <= from,
{
    line.lemma_wf();
    let s = line@;
    let gs = line.graphemes();
    // forward
    if from < gs.len() {
        let start = byte_offset(gs, from as int);
        let e = utf8_len(s);
        lemma_found_within(s, q, start, e);
        let found = find_all_spec(s, q, start, e);
        if found.len() > 0 {
            let g = found[0].1;
            assert(spells_at(gs, q, g));
            lemma_first_grapheme_from_byte(gs, found[0].0, 0);
            assert(byte_offset(gs, g as int) >= start);
            if g < from {
                lemma_byte_offset_strict(gs, g as int, from as int);
            }
            assert(g <= gs.len());
            assert(gs.len() <= s.len());
            assert((g as usize) as nat == g);
        }
    }
    // backward
    if from > 0 {
        let end = if from >= gs.len() { utf8_len(s) } else { byte_offset(gs, from as int) };
        lemma_found_within(s, q, 0, end);
        let found = find_all_spec(s, q, 0, end);
        if found.len() > 0 {
            let g = found.last().1;
            assert(found.last() == found[found.len() - 1]);
            assert(spells_at(gs, q, g));
            if from < gs.len() {
                lemma_first_grapheme_minimal(gs, found.last().0, 0, from);
            }
            assert(g <= gs.len());
            assert(gs.len() <= s.len());
            assert((g as usize) as nat == g);
        }
    }
}

/// Every match that `find_all_spec` reports spells `q`, lies in bytes
/// `[start, end]`, and names the first grapheme that starts at or after its byte.
proof fn lemma_found_within(s: Seq<char>, q: Seq<char>, start: nat, end: nat)
    ensures
        forall|k: int|
            0 <= k < find_all_spec(s, q, start, end).len() ==> {
                let m = #[trigger] find_all_spec(s, q, start, end)[k];
                &&& spells_at(grapheme_clusters(s), q, m.1)
                &&& start <= m.0 <= end
                &&& grapheme_of_byte(grapheme_clusters(s), m.0) == Some(m.1)
            },
{
    let e = if end <= utf8_len(s) { end } else { utf8_len(s) };
    lemma_char_at_byte_from(s, start, 0);
    lemma_char_at_byte_from(s, e, 0);
    match (char_at_byte_from(s, start, 0), char_at_byte_from(s, e, 0)) {
        (Some(a), Some(z)) => {
            if a <= z {
                let t = s.subrange(a as int, z as int);
                let occ = occurrences(t, q, 0);
                lemma_occurrences_bound(t, q, 0);
                let bs = occ.map_values(|p: nat| utf8_len(s.take((a + p) as int)));
                assert forall|k: int| 0 <= k < bs.len() implies start <= #[trigger] bs[k] <= end by {
                    assert(occ[k] <= t.len());
                    crate::text::lemma_utf8_len_take_mono(s, a as int, (a + occ[k]) as int);
                    crate::text::lemma_utf8_len_take_mono(s, (a + occ[k]) as int, z as int);
                }
                lemma_aligned_matches_kept(grapheme_clusters(s), q, bs, start, end);
            }
        },
        _ => {},
    }
}

/// From grapheme `i` on (which starts at or before column `w`), the grapheme
/// found covers `w`, or lies past the end when every grapheme ends by `w`.
proof fn lemma_grapheme_at_column_from(gs: Seq<Seq<char>>, w: nat, i: nat)
    requires
        i <= gs.len(),
        column_at(gs, i) <= w,
    ensures
        i <= grapheme_at_column_from(gs, w, i) <= gs.len(),
        column_at(gs, grapheme_at_column_from(gs, w, i)) <= w,
        grapheme_at_column_from(gs, w, i) < gs.len() ==> column_at(gs, grapheme_at_column_from(gs, w, i) + 1)
            > w,
    decreases gs.len() - i,
{
    if i < gs.len() && column_at(gs, i + 1) <= w {
        lemma_grapheme_at_column_from(gs, w, i + 1);
    }
}

/// The grapheme found at a column (`grapheme_at_width`) is the one that
/// covers it: it starts at or before the column (`width_until`) and the next
/// one starts after it, or the column lies at or past the line's end; and
/// the grapheme found at the column where grapheme `k` starts is `k`.
pub proof fn lemma_grapheme_at_width(s: Seq<char>, w: nat, k: nat)
    requires
        k <= grapheme_clusters(s).len(),
    ensures
        ({
            let gs = grapheme_clusters(s);
            let g = grapheme_at_column_from(gs, w, 0);
            &&& g <= gs.len()
            &&& text_columns_until(s, g) <= w
            &&& g < gs.len() ==> text_columns_until(s, g + 1) > w
        }),
        grapheme_at_column_from(grapheme_clusters(s), text_columns_until(s, k), 0) == k,
{
    let gs = grapheme_clusters(s);
    lemma_grapheme_at_column_from(gs, w, 0);
    let c = column_at(gs, k);
    lemma_grapheme_at_column_from(gs, c, 0);
    let r = grapheme_at_column_from(gs, c, 0);
    if r < k {
        lemma_column_bounds(gs, r + 1, k);
    } else if r > k {
        lemma_column_bounds(gs, k + 1, r);
        lemma_column_bounds(gs, k, k + 1);
    }
}

/// The first grapheme from `i` on that is not all whitespace (tabs count as
/// whitespace, as every `White_Space` character does): every grapheme before
/// it from `i` on is all whitespace; with none, every grapheme from `i` on is.
pub proof fn lemma_first_non_blank(gs: Seq<Seq<char>>, i: nat)
    ensures
        match first_non_blank_from(gs, i) {
            Some(k) => i <= k < gs.len() && !all_whitespace(gs[k as int]) && forall|j: int|
                i <= j < k ==> all_whitespace(#[trigger] gs[j]),
            None => forall|j: int| i <= j < gs.len() ==> all_whitespace(#[trigger] gs[j]),
        },
    decreases gs.len() - i,
{
    if i < gs.len() && all_whitespace(gs[i as int]) {
        lemma_first_non_blank(gs, i + 1);
    }
}

} // verus!
