//! Incremental render cache: one styled entry per text line, invalidated by
//! a single dirty-from watermark.
//!
//! Entries are computed by a resumable tokenizer whose state threads from
//! each line into the next, so an entry is valid exactly when no edit has
//! touched its row or any row before it: rows below the watermark are valid,
//! rows at or after it are stale and never handed out.
use vstd::prelude::*;

use crate::core_text::TextCore;

verus! {

/// Visual class of one rendered character.
#[derive(Clone, Copy, PartialEq, Eq, Structural, Debug)]
pub enum StyleKind {
    Plain,
    Bracket,
    Digit,
    StringLit,
    Highlight,
    Selected,
}

/// Style of one rendered character: its visual class plus whether it is
/// underlined by a diagnostic annotation.
#[derive(Clone, Copy, PartialEq, Eq, Structural, Debug)]
pub struct CharStyle {
    pub kind: StyleKind,
    pub underline: bool,
}

/// Tokenizer state at a line boundary: whether a string literal is open.
pub open spec fn next_state(st: bool, c: char) -> bool {
    if c == '"' {
        !st
    } else {
        st
    }
}

/// Style the tokenizer gives `c` when the string-literal state is `st`.
pub open spec fn style_of(st: bool, c: char) -> CharStyle {
    CharStyle {
        kind: if st || c == '"' {
            StyleKind::StringLit
        } else if '0' <= c && c <= '9' {
            StyleKind::Digit
        } else if c == '(' || c == ')' || c == '[' || c == ']' || c == '{' || c == '}' {
            StyleKind::Bracket
        } else {
            StyleKind::Plain
        },
        underline: false,
    }
}

/// Tokenizer state after the first `i` characters of `line`, entered with
/// state `st`.
pub open spec fn state_at(st: bool, line: Seq<char>, i: int) -> bool
    decreases i,
{
    if i <= 0 {
        st
    } else {
        next_state(state_at(st, line, i - 1), line[i - 1])
    }
}

/// Tokenizer state handed to the next line.
pub open spec fn line_end_state(st: bool, line: Seq<char>) -> bool {
    state_at(st, line, line.len() as int)
}

/// The styled characters of `line`, entered with state `st`.
pub open spec fn line_cells(st: bool, line: Seq<char>) -> Seq<(char, CharStyle)> {
    Seq::new(line.len(), |i: int| (line[i], style_of(state_at(st, line, i), line[i])))
}

/// Tokenizer state at the start of `row`, threading from the top of the
/// document.
pub open spec fn doc_state(lines: Seq<Seq<char>>, row: int) -> bool
    decreases row,
{
    if row <= 0 {
        false
    } else {
        line_end_state(doc_state(lines, row - 1), lines[row - 1])
    }
}

/// The styled rendering of `row` within the whole document.
pub open spec fn rendered_line(lines: Seq<Seq<char>>, row: int) -> Seq<(char, CharStyle)> {
    line_cells(doc_state(lines, row), lines[row])
}

/// A shorter prefix of two documents with a common longer prefix is itself
/// common.
proof fn lemma_prefix_of_prefix(s1: Seq<Seq<char>>, s2: Seq<Seq<char>>, n: int, m: int)
    requires
        0 <= m <= n,
        n <= s1.len(),
        n <= s2.len(),
        s2.subrange(0, n) == s1.subrange(0, n),
    ensures
        s2.subrange(0, m) == s1.subrange(0, m),
{
    assert forall|k: int| 0 <= k < m implies s2.subrange(0, m)[k] == s1.subrange(0, m)[k] by {
        assert(s2.subrange(0, n)[k] == s1.subrange(0, n)[k]);
    }
    assert(s2.subrange(0, m) =~= s1.subrange(0, m));
}

/// `doc_state` reads only rows before `row`: documents that agree below
/// `row` render it from the same incoming state.
pub proof fn lemma_doc_state_agree(lines1: Seq<Seq<char>>, lines2: Seq<Seq<char>>, row: int)
    requires
        0 <= row <= lines1.len(),
        row <= lines2.len(),
        lines2.subrange(0, row) == lines1.subrange(0, row),
    ensures
        doc_state(lines1, row) == doc_state(lines2, row),
    decreases row,
{
    if row > 0 {
        lemma_prefix_of_prefix(lines1, lines2, row, row - 1);
        lemma_doc_state_agree(lines1, lines2, row - 1);
        assert(lines2.subrange(0, row)[row - 1] == lines1.subrange(0, row)[row - 1]);
    }
}

/// Styles one line of text. Returns the styled characters and the state
/// handed to the next line.
fn tokenize_line(st: bool, line: &Vec<char>) -> (r: (Vec<(char, CharStyle)>, bool))
    ensures
        r.0@ == line_cells(st, line@),
        r.1 == line_end_state(st, line@),
{
    let mut cells: Vec<(char, CharStyle)> = Vec::new();
    let mut cur = st;
    let n = line.len();
    let mut i: usize = 0;
    while i < n
        invariant
            0 <= i <= n,
            n == line@.len(),
            cur == state_at(st, line@, i as int),
            cells@.len() == i,
            forall|j: int| 0 <= j < i ==> cells@[j] == (line@[j], style_of(
                state_at(st, line@, j),
                line@[j],
            )),
        decreases n - i,
    {
        let c = line[i];
        let kind = if cur || c == '"' {
            StyleKind::StringLit
        } else if '0' <= c && c <= '9' {
            StyleKind::Digit
        } else if c == '(' || c == ')' || c == '[' || c == ']' || c == '{' || c == '}' {
            StyleKind::Bracket
        } else {
            StyleKind::Plain
        };
        cells.push((c, CharStyle { kind, underline: false }));
        cur = if c == '"' {
            !cur
        } else {
            cur
        };
        i += 1;
    }
    proof {
        assert(cells@ =~= line_cells(st, line@));
    }
    (cells, cur)
}

/// One cached entry: the styled characters of a line and the tokenizer state
/// needed to resume on the following line.
pub struct RenderedLine {
    pub cells: Vec<(char, CharStyle)>,
    pub end_state: bool,
}

/// Reliance on std::time::Instant for the time-budgeted background fill.
#[verifier::external_type_specification]
#[verifier::external_body]
pub struct ExInstant(std::time::Instant);

/// Relies on Instant::now: an opaque reading of the monotonic clock.
#[verifier::external_body]
fn instant_now() -> std::time::Instant {
    std::time::Instant::now()
}

/// Relies on Instant::elapsed: the time since `start`; nothing is assumed of
/// its value.
#[verifier::external_body]
fn elapsed_since(start: &std::time::Instant) -> std::time::Duration {
    start.elapsed()
}

/// Relies on Duration's ordering (PartialOrd::lt, by length); nothing is
/// assumed of its outcome.
#[verifier::external_body]
fn duration_lt(a: &std::time::Duration, b: &std::time::Duration) -> bool {
    a < b
}

/// The render cache. `entries[i]` is valid exactly for `i` below the
/// watermark; stale entries above it may linger but are never handed out.
pub struct DrawCache {
    entries: Vec<RenderedLine>,
    watermark: usize,
}

impl DrawCache {
    /// The dirty-from watermark: rows below it are valid.
    pub closed spec fn wm(self) -> nat {
        self.watermark as nat
    }

    /// Structural invariant: every valid row has an entry.
    pub closed spec fn wf(self) -> bool {
        self.watermark <= self.entries.len()
    }

    /// The cached cells of `row`.
    pub closed spec fn entry_at(self, row: int) -> Seq<(char, CharStyle)> {
        self.entries[row].cells@
    }

    /// Rows below both the watermark and `upto` hold the rendering of
    /// `lines` and the tokenizer state resumed by the next row.
    pub closed spec fn valid_for(self, lines: Seq<Seq<char>>, upto: int) -> bool {
        forall|i: int| 0 <= i < self.wm() && i < upto && i < lines.len() ==> (
        #[trigger] self.entries[i]).cells@ == rendered_line(lines, i) && self.entries[i].end_state
            == doc_state(lines, i + 1)
    }

    /// The cache is fully synchronised with `lines`: every row below the
    /// watermark is valid, and the watermark lies within the document.
    pub open spec fn synced(self, lines: Seq<Seq<char>>) -> bool {
        &&& self.wf()
        &&& self.wm() <= lines.len()
        &&& self.valid_for(lines, lines.len() as int)
    }

    /// A fresh cache: empty, watermark zero, synchronised with any document.
    pub fn new() -> (r: Self)
        ensures
            r.wf(),
            r.wm() == 0,
            forall|lines: Seq<Seq<char>>| #[trigger] r.synced(lines),
    {
        DrawCache { entries: Vec::new(), watermark: 0 }
    }

    /// A cache that is synchronised up to `upto` rows is synchronised with
    /// the whole document once its watermark is at most `upto`.
    pub proof fn lemma_valid_widen(self, lines: Seq<Seq<char>>, upto: int)
        requires
            self.valid_for(lines, upto),
            self.wm() <= upto,
        ensures
            self.valid_for(lines, lines.len() as int),
    {
    }

    /// Validity survives any change that touches only rows at or after
    /// `upto`: documents that agree below `upto` validate the same entries.
    pub proof fn lemma_valid_agree(
        self,
        lines1: Seq<Seq<char>>,
        upto1: int,
        lines2: Seq<Seq<char>>,
        upto2: int,
    )
        requires
            self.valid_for(lines1, upto1),
            0 <= upto2 <= upto1,
            upto2 <= lines1.len(),
            upto2 <= lines2.len(),
            lines2.subrange(0, upto2) == lines1.subrange(0, upto2),
        ensures
            self.valid_for(lines2, upto2),
    {
        assert forall|i: int| 0 <= i < self.wm() && i < upto2 && i < lines2.len() implies (
        #[trigger] self.entries[i]).cells@ == rendered_line(lines2, i)
            && self.entries[i].end_state == doc_state(lines2, i + 1) by {
            lemma_prefix_of_prefix(lines1, lines2, upto2, i);
            lemma_prefix_of_prefix(lines1, lines2, upto2, i + 1);
            lemma_doc_state_agree(lines1, lines2, i);
            lemma_doc_state_agree(lines1, lines2, i + 1);
            assert(lines2.subrange(0, upto2)[i] == lines1.subrange(0, upto2)[i]);
            assert(self.entries[i].cells@ == rendered_line(lines1, i));
            assert(lines2[i] == lines1[i]);
        }
    }

    /// The valid rows of a synchronised cache hold exactly the document's
    /// rendering.
    pub proof fn lemma_entry_rendered(self, lines: Seq<Seq<char>>, row: int)
        requires
            self.synced(lines),
            0 <= row < self.wm(),
        ensures
            self.entry_at(row) == rendered_line(lines, row),
    {
    }

    /// Returns the cached entry of `row`, or nothing if `row` is at or after
    /// the watermark: a stale entry is never handed out.
    pub fn get_line(&self, row: usize) -> (r: Option<&Vec<(char, CharStyle)>>)
        requires
            self.wf(),
        ensures
            match r {
                Some(cells) => row < self.wm() && cells@ == self.entry_at(row as int),
                None => row >= self.wm(),
            },
    {
        if row < self.watermark {
            Some(&self.entries[row].cells)
        } else {
            None
        }
    }

    /// Lowers the watermark to `row`, invalidating exactly the rows at and
    /// after `row`; rows before it keep their entries. Lowering to a row at
    /// or above the watermark changes nothing.
    pub fn dirty_from(&mut self, row: usize)
        requires
            old(self).wf(),
        ensures
            final(self).wf(),
            final(self).wm() == vstd::math::min(old(self).wm() as int, row as int),
            forall|i: int| 0 <= i < final(self).wm() ==> final(self).entry_at(i) == old(
                self,
            ).entry_at(i),
            forall|lines: Seq<Seq<char>>, upto: int| old(self).valid_for(lines, upto)
                ==> final(self).valid_for(lines, upto),
            row >= old(self).wm() ==> *final(self) == *old(self),
    {
        if row < self.watermark {
            self.watermark = row;
        }
    }

    /// Computes the first stale row from the resumed tokenizer state and
    /// advances the watermark past it.
    fn fill_next(&mut self, core: &TextCore)
        requires
            old(self).synced(core@.lines),
            old(self).wm() < core@.lines.len(),
        ensures
            final(self).synced(core@.lines),
            final(self).wm() == old(self).wm() + 1,
            forall|i: int| 0 <= i < old(self).wm() ==> final(self).entry_at(i) == old(
                self,
            ).entry_at(i),
    {
        let row = self.watermark;
        let n = core.len_lines();
        let st = if row == 0 {
            false
        } else {
            self.entries[row - 1].end_state
        };
        proof {
            if row > 0 {
                assert(old(self).entries[row - 1].end_state == doc_state(
                    core@.lines,
                    row as int,
                ));
            }
            assert(st == doc_state(core@.lines, row as int));
            assert(row < n);
        }
        let (cells, end_state) = tokenize_line(st, core.line_at(row));
        let entry = RenderedLine { cells, end_state };
        if row < self.entries.len() {
            self.entries[row] = entry;
        } else {
            self.entries.push(entry);
        }
        self.watermark = row + 1;
    }

    /// Ensures `row`'s entry is present and valid, recomputing rows from the
    /// watermark up to `row` via the tokenizer; rows already valid are not
    /// recomputed.
    pub fn cache_line(&mut self, core: &TextCore, row: usize)
        requires
            old(self).synced(core@.lines),
            row < core@.lines.len(),
        ensures
            final(self).synced(core@.lines),
            final(self).wm() == vstd::math::max(old(self).wm() as int, row + 1),
            forall|i: int| 0 <= i < old(self).wm() ==> final(self).entry_at(i) == old(
                self,
            ).entry_at(i),
            final(self).entry_at(row as int) == rendered_line(core@.lines, row as int),
    {
        while self.watermark <= row
            invariant
                self.synced(core@.lines),
                row < core@.lines.len(),
                self.wm() >= old(self).wm() || self.wm() > row,
                self.wm() <= vstd::math::max(old(self).wm() as int, row + 1),
                vstd::math::max(self.wm() as int, row + 1) == vstd::math::max(
                    old(self).wm() as int,
                    row + 1,
                ),
                forall|i: int| 0 <= i < old(self).wm() ==> self.entry_at(i) == old(
                    self,
                ).entry_at(i),
            decreases row + 1 - self.wm(),
        {
            self.fill_next(core);
        }
        proof {
            self.lemma_entry_rendered(core@.lines, row as int);
        }
    }

    /// Cooperative, time-budgeted background fill: starting at the
    /// watermark, keeps computing forward lines until the cache is fully
    /// valid or the elapsed time exceeds `duration`, whichever comes first.
    /// With the cache already fully valid it returns immediately, without
    /// recomputation and without touching the clock.
    pub fn extend_cache_duration(&mut self, core: &TextCore, duration: std::time::Duration)
        requires
            old(self).synced(core@.lines),
        ensures
            final(self).synced(core@.lines),
            final(self).wm() >= old(self).wm(),
            forall|i: int| 0 <= i < old(self).wm() ==> final(self).entry_at(i) == old(
                self,
            ).entry_at(i),
            old(self).wm() == core@.lines.len() ==> *final(self) == *old(self),
    {
        if self.watermark >= core.len_lines() {
            return ;
        }
        let start = instant_now();
        while self.watermark < core.len_lines()
            invariant
                self.synced(core@.lines),
                self.wm() >= old(self).wm(),
                forall|i: int| 0 <= i < old(self).wm() ==> self.entry_at(i) == old(
                    self,
                ).entry_at(i),
            decreases core@.lines.len() - self.wm(),
        {
            let elapsed = elapsed_since(&start);
            if !duration_lt(&elapsed, &duration) {
                break ;
            }
            self.fill_next(core);
        }
    }
}

} // verus!
