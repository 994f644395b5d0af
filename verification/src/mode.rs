//! The modal input interpreter: one closed variant per editor mode, a
//! single `event` operation that turns an input event into buffer mutations
//! and a transition, and nothing else — modes own no I/O.
use vstd::prelude::*;
use vstd::string::StringExecFns;

use crate::buffer::Buffer;
use crate::buffer::EditState;
use crate::buffer::YankView;
use crate::buffer::chars_to_string;
use crate::buffer::guarded_delete_view;
use crate::buffer::guarded_insert_view;
use crate::core_text::CoreView;
use crate::core_text::Cursor;

verus! {

broadcast use crate::buffer::Buffer::lemma_rest_unchanged_refl;

/// One raw input event, as the terminal hands it in.
#[derive(Clone, Copy, PartialEq, Eq, Structural, Debug)]
pub enum InputEvent {
    Char(char),
    Ctrl(char),
    Esc,
    Backspace,
}

/// The active mode, carrying exactly the state needed to resume itself.
#[derive(Clone, PartialEq, Eq, Debug)]
pub enum Mode {
    /// Awaiting a command; optionally showing a status message.
    Normal { message: Option<String> },
    /// Inserting text at the cursor.
    Insert,
    /// Extending a selection from a fixed anchor.
    Visual { anchor: Cursor },
    /// Accumulating a command line entered after `:`.
    CommandLine { input: Vec<char> },
    /// Accumulating the search pattern entered after `/`.
    Search,
}

/// Mathematical state of a `Mode`.
pub enum ModeView {
    Normal { message: Option<Seq<char>> },
    Insert,
    Visual { anchor: Cursor },
    CommandLine { input: Seq<char> },
    Search,
}

impl View for Mode {
    type V = ModeView;

    open spec fn view(&self) -> ModeView {
        match self {
            Mode::Normal { message } => ModeView::Normal {
                message: match message {
                    Some(m) => Some(m@),
                    None => None,
                },
            },
            Mode::Insert => ModeView::Insert,
            Mode::Visual { anchor } => ModeView::Visual { anchor: *anchor },
            Mode::CommandLine { input } => ModeView::CommandLine { input: input@ },
            Mode::Search => ModeView::Search,
        }
    }
}

/// What the interpreter asks the session to do next.
#[derive(Debug)]
pub enum Transition {
    /// Event consumed; stay in this mode.
    Nothing,
    /// Switch to the given mode.
    Trans(Mode),
    /// Go back to Normal, optionally with a status message; the flag asks
    /// for the recorded macro to be committed.
    Return(Option<String>, bool),
    /// Switch to the given mode and start recording a macro, the
    /// triggering event included.
    RecordMacro(Mode),
    /// Replay the committed macro.
    DoMacro,
    /// Terminate the editing session.
    Exit,
}

/// Mathematical state of a `Transition`.
pub enum TransitionView {
    Nothing,
    Trans(ModeView),
    Return(Option<Seq<char>>, bool),
    RecordMacro(ModeView),
    DoMacro,
    Exit,
}

impl View for Transition {
    type V = TransitionView;

    open spec fn view(&self) -> TransitionView {
        match self {
            Transition::Nothing => TransitionView::Nothing,
            Transition::Trans(m) => TransitionView::Trans(m@),
            Transition::Return(msg, commit) => TransitionView::Return(
                match msg {
                    Some(m) => Some(m@),
                    None => None,
                },
                *commit,
            ),
            Transition::RecordMacro(m) => TransitionView::RecordMacro(m@),
            Transition::DoMacro => TransitionView::DoMacro,
            Transition::Exit => TransitionView::Exit,
        }
    }
}

/// Two editable states with equal components are equal.
proof fn lemma_es_eq(a: EditState, b: EditState)
    requires
        a.core == b.core,
        a.search == b.search,
        a.yank == b.yank,
    ensures
        a == b,
{
    assert(a =~= b);
}

/// Two core views with equal components are equal.
proof fn lemma_cv_eq(a: CoreView, b: CoreView)
    requires
        a.lines == b.lines,
        a.row == b.row,
        a.col == b.col,
        a.version == b.version,
        a.dirty_from == b.dirty_from,
    ensures
        a == b,
{
    assert(a =~= b);
}

/// Cursor one column left, stopping at the line start.
pub open spec fn move_left_view(v: CoreView) -> CoreView {
    CoreView {
        col: if v.col > 0 {
            (v.col - 1) as nat
        } else {
            0
        },
        ..v
    }
}

/// Cursor one column right, stopping just past the line end.
pub open spec fn move_right_view(v: CoreView) -> CoreView {
    CoreView {
        col: if v.col < v.lines[v.row as int].len() {
            (v.col + 1) as nat
        } else {
            v.col
        },
        ..v
    }
}

/// Cursor one row up, column clamped to the new line.
pub open spec fn move_up_view(v: CoreView) -> CoreView {
    let row = if v.row > 0 {
        (v.row - 1) as nat
    } else {
        0
    };
    CoreView { row, col: vstd::math::min(v.col as int, v.lines[row as int].len() as int) as nat, ..v }
}

/// Cursor one row down, column clamped to the new line.
pub open spec fn move_down_view(v: CoreView) -> CoreView {
    let row = if v.row + 1 < v.lines.len() {
        (v.row + 1) as nat
    } else {
        v.row
    };
    CoreView { row, col: vstd::math::min(v.col as int, v.lines[row as int].len() as int) as nat, ..v }
}

/// The cursor clamped into the current text.
pub open spec fn clamp_view(lines: Seq<Seq<char>>, c: Cursor) -> Cursor
    recommends
        lines.len() >= 1,
{
    let row = if c.row < lines.len() {
        c.row as int
    } else {
        lines.len() - 1
    };
    let col = if c.col <= lines[row].len() {
        c.col as int
    } else {
        lines[row].len() as int
    };
    Cursor { row: row as usize, col: col as usize }
}

/// The rows `a` through `b`, inclusive, joined with line breaks.
pub open spec fn joined_rows(lines: Seq<Seq<char>>, a: int, b: int) -> Seq<char>
    decreases b - a,
{
    if a > b {
        Seq::empty()
    } else if a == b {
        lines[a]
    } else {
        joined_rows(lines, a, b - 1) + seq!['\n'] + lines[b]
    }
}

/// The yank a selection from `anchor` to the cursor produces: within one
/// row the characters between the two positions, across rows the whole
/// rows joined with line breaks, marked as line-wise.
pub open spec fn yank_of_selection(core: CoreView, anchor: Cursor) -> YankView {
    let a = clamp_view(core.lines, anchor);
    let c = Cursor { row: core.row as usize, col: core.col as usize };
    let lo = if a.row < c.row || (a.row == c.row && a.col <= c.col) {
        a
    } else {
        c
    };
    let hi = if a.row < c.row || (a.row == c.row && a.col <= c.col) {
        c
    } else {
        a
    };
    if lo.row == hi.row {
        YankView {
            insert_newline: false,
            content: core.lines[lo.row as int].subrange(lo.col as int, hi.col as int),
        }
    } else {
        YankView {
            insert_newline: true,
            content: joined_rows(core.lines, lo.row as int, hi.row as int),
        }
    }
}

/// One step of the interpreter: the next mode, the transformed editable
/// state, and the transition, for the given mode, state and event.
pub open spec fn mode_event_spec(m: ModeView, s: EditState, e: InputEvent) -> (
    ModeView,
    EditState,
    TransitionView,
) {
    match m {
        ModeView::Normal { message } => match e {
            InputEvent::Char(c) => {
                if c == 'i' {
                    (m, s, TransitionView::RecordMacro(ModeView::Insert))
                } else if c == 'h' {
                    (m, EditState { core: move_left_view(s.core), ..s }, TransitionView::Nothing)
                } else if c == 'j' {
                    (m, EditState { core: move_down_view(s.core), ..s }, TransitionView::Nothing)
                } else if c == 'k' {
                    (m, EditState { core: move_up_view(s.core), ..s }, TransitionView::Nothing)
                } else if c == 'l' {
                    (m, EditState { core: move_right_view(s.core), ..s }, TransitionView::Nothing)
                } else if c == 'x' {
                    (
                        m,
                        EditState { core: guarded_delete_view(s.core), ..s },
                        TransitionView::Nothing,
                    )
                } else if c == 'v' {
                    (
                        m,
                        s,
                        TransitionView::Trans(
                            ModeView::Visual {
                                anchor: Cursor { row: s.core.row as usize, col: s.core.col as usize },
                            },
                        ),
                    )
                } else if c == ':' {
                    (m, s, TransitionView::Trans(ModeView::CommandLine { input: Seq::empty() }))
                } else if c == '/' {
                    (
                        m,
                        EditState { search: Seq::empty(), ..s },
                        TransitionView::Trans(ModeView::Search),
                    )
                } else if c == '.' {
                    (m, s, TransitionView::DoMacro)
                } else {
                    (m, s, TransitionView::Nothing)
                }
            },
            _ => (m, s, TransitionView::Nothing),
        },
        ModeView::Insert => match e {
            InputEvent::Esc => (m, s, TransitionView::Return(None, true)),
            InputEvent::Char(c) => (
                m,
                EditState { core: guarded_insert_view(s.core, c), ..s },
                TransitionView::Nothing,
            ),
            _ => (m, s, TransitionView::Nothing),
        },
        ModeView::Visual { anchor } => match e {
            InputEvent::Esc => (m, s, TransitionView::Return(None, false)),
            InputEvent::Char(c) => {
                if c == 'h' {
                    (m, EditState { core: move_left_view(s.core), ..s }, TransitionView::Nothing)
                } else if c == 'j' {
                    (m, EditState { core: move_down_view(s.core), ..s }, TransitionView::Nothing)
                } else if c == 'k' {
                    (m, EditState { core: move_up_view(s.core), ..s }, TransitionView::Nothing)
                } else if c == 'l' {
                    (m, EditState { core: move_right_view(s.core), ..s }, TransitionView::Nothing)
                } else if c == 'y' {
                    (
                        m,
                        EditState { yank: yank_of_selection(s.core, anchor), ..s },
                        TransitionView::Return(None, false),
                    )
                } else {
                    (m, s, TransitionView::Nothing)
                }
            },
            _ => (m, s, TransitionView::Nothing),
        },
        ModeView::CommandLine { input } => match e {
            InputEvent::Esc => (m, s, TransitionView::Return(None, false)),
            InputEvent::Char(c) => {
                if c == '\n' {
                    if input == seq!['q'] {
                        (m, s, TransitionView::Exit)
                    } else {
                        (m, s, TransitionView::Return(Some("unknown command"@), false))
                    }
                } else {
                    (ModeView::CommandLine { input: input.push(c) }, s, TransitionView::Nothing)
                }
            },
            InputEvent::Backspace => (
                ModeView::CommandLine {
                    input: if input.len() > 0 {
                        input.drop_last()
                    } else {
                        input
                    },
                },
                s,
                TransitionView::Nothing,
            ),
            _ => (m, s, TransitionView::Nothing),
        },
        ModeView::Search => match e {
            InputEvent::Esc => (m, s, TransitionView::Return(None, false)),
            InputEvent::Char(c) => {
                if c == '\n' {
                    (m, s, TransitionView::Return(None, false))
                } else {
                    (m, EditState { search: s.search.push(c), ..s }, TransitionView::Nothing)
                }
            },
            InputEvent::Backspace => (
                m,
                EditState {
                    search: if s.search.len() > 0 {
                        s.search.drop_last()
                    } else {
                        s.search
                    },
                    ..s
                },
                TransitionView::Nothing,
            ),
            _ => (m, s, TransitionView::Nothing),
        },
    }
}

/// Yanks the selection between `anchor` and the cursor into the buffer's
/// yank slot.
fn yank_selection(buf: &mut Buffer, anchor: Cursor)
    requires
        old(buf).wf(),
    ensures
        final(buf).wf(),
        final(buf).edit_state().core == old(buf).edit_state().core,
        final(buf).edit_state().search == old(buf).edit_state().search,
        final(buf).edit_state().yank == yank_of_selection(old(buf).edit_state().core, anchor),
        final(buf).rest_unchanged(*old(buf)),
{
    proof {
        old(buf).lemma_wf_edit();
    }
    let n = buf.len_lines();
    let arow = if anchor.row < n {
        anchor.row
    } else {
        n - 1
    };
    let acol = if anchor.col <= buf.line_len(arow) {
        anchor.col
    } else {
        buf.line_len(arow)
    };
    let cur = buf.cursor();
    let (lo_row, lo_col, hi_row, hi_col) = if arow < cur.row || (arow == cur.row && acol
        <= cur.col) {
        (arow, acol, cur.row, cur.col)
    } else {
        (cur.row, cur.col, arow, acol)
    };
    if lo_row == hi_row {
        let line = buf.line_at(lo_row);
        let mut content: Vec<char> = Vec::new();
        let mut i: usize = lo_col;
        proof {
            assert(content@ =~= line@.subrange(lo_col as int, lo_col as int));
        }
        while i < hi_col
            invariant
                lo_col <= i <= hi_col,
                hi_col <= line@.len(),
                line@ == old(buf).edit_state().core.lines[lo_row as int],
                content@ == line@.subrange(lo_col as int, i as int),
            decreases hi_col - i,
        {
            content.push(line[i]);
            proof {
                assert(content@ =~= line@.subrange(lo_col as int, i as int + 1));
            }
            i += 1;
        }
        let text = chars_to_string(&content);
        buf.set_yank(false, text);
    } else {
        let mut content: Vec<char> = Vec::new();
        let mut r: usize = lo_row;
        let ghost lines = old(buf).edit_state().core.lines;
        let first = buf.line_at(lo_row);
        let mut j: usize = 0;
        let flen = first.len();
        proof {
            assert(content@ =~= lines[lo_row as int].take(0));
        }
        while j < flen
            invariant
                0 <= j <= flen,
                flen == lines[lo_row as int].len(),
                lo_row < lines.len(),
                first@ == lines[lo_row as int],
                content@ == lines[lo_row as int].take(j as int),
            decreases flen - j,
        {
            content.push(first[j]);
            proof {
                assert(content@ =~= lines[lo_row as int].take(j as int + 1));
            }
            j += 1;
        }
        proof {
            assert(lines[lo_row as int].take(flen as int) =~= lines[lo_row as int]);
            assert(content@ == joined_rows(lines, lo_row as int, lo_row as int));
        }
        r = lo_row + 1;
        while r <= hi_row
            invariant
                lo_row < r <= hi_row + 1,
                hi_row < lines.len(),
                hi_row < usize::MAX,
                buf.wf(),
                buf.edit_state() == old(buf).edit_state(),
                buf.rest_unchanged(*old(buf)),
                lines == old(buf).edit_state().core.lines,
                content@ == joined_rows(lines, lo_row as int, r as int - 1),
            decreases hi_row + 1 - r,
        {
            content.push('\n');
            let line = buf.line_at(r);
            let llen = line.len();
            let ghost before = content@;
            let mut k: usize = 0;
            proof {
                assert(content@ =~= before + lines[r as int].take(0));
            }
            while k < llen
                invariant
                    0 <= k <= llen,
                    r < lines.len(),
                    llen == lines[r as int].len(),
                    line@ == lines[r as int],
                    content@ == before + lines[r as int].take(k as int),
                decreases llen - k,
            {
                content.push(line[k]);
                proof {
                    assert(content@ =~= before + lines[r as int].take(k as int + 1));
                }
                k += 1;
            }
            proof {
                assert(lines[r as int].take(llen as int) =~= lines[r as int]);
                assert(content@ =~= joined_rows(lines, lo_row as int, r as int));
            }
            r += 1;
        }
        let text = chars_to_string(&content);
        buf.set_yank(true, text);
    }
}

impl Mode {
    /// Interprets one input event against the buffer: possibly mutates the
    /// text, search pattern or yank, and returns the mode to resume plus
    /// the transition the session must apply.
    pub fn event(self, buf: &mut Buffer, e: InputEvent) -> (r: (Mode, Transition))
        requires
            old(buf).wf(),
        ensures
            final(buf).wf(),
            final(buf).rest_unchanged(*old(buf)),
            (r.0@, final(buf).edit_state(), r.1@) == mode_event_spec(
                self@,
                old(buf).edit_state(),
                e,
            ),
    {
        match self {
            Mode::Normal { message } => {
                let m = Mode::Normal { message };
                match e {
                    InputEvent::Char(c) => {
                        if c == 'i' {
                            (m, Transition::RecordMacro(Mode::Insert))
                        } else if c == 'h' {
                            buf.cursor_left();
                            (m, Transition::Nothing)
                        } else if c == 'j' {
                            buf.cursor_down();
                            proof {
                                lemma_cv_eq(
                                    buf.edit_state().core,
                                    move_down_view(old(buf).edit_state().core),
                                );
                                lemma_es_eq(
                                    buf.edit_state(),
                                    EditState {
                                        core: move_down_view(old(buf).edit_state().core),
                                        ..old(buf).edit_state()
                                    },
                                );
                            }
                            (m, Transition::Nothing)
                        } else if c == 'k' {
                            buf.cursor_up();
                            proof {
                                lemma_cv_eq(
                                    buf.edit_state().core,
                                    move_up_view(old(buf).edit_state().core),
                                );
                                lemma_es_eq(
                                    buf.edit_state(),
                                    EditState {
                                        core: move_up_view(old(buf).edit_state().core),
                                        ..old(buf).edit_state()
                                    },
                                );
                            }
                            (m, Transition::Nothing)
                        } else if c == 'l' {
                            buf.cursor_right();
                            proof {
                                lemma_es_eq(
                                    buf.edit_state(),
                                    EditState {
                                        core: move_right_view(old(buf).edit_state().core),
                                        ..old(buf).edit_state()
                                    },
                                );
                            }
                            (m, Transition::Nothing)
                        } else if c == 'x' {
                            buf.delete_guarded();
                            proof {
                                lemma_es_eq(
                                    buf.edit_state(),
                                    EditState {
                                        core: guarded_delete_view(old(buf).edit_state().core),
                                        ..old(buf).edit_state()
                                    },
                                );
                            }
                            (m, Transition::Nothing)
                        } else if c == 'v' {
                            let anchor = buf.cursor();
                            (m, Transition::Trans(Mode::Visual { anchor }))
                        } else if c == ':' {
                            (m, Transition::Trans(Mode::CommandLine { input: Vec::new() }))
                        } else if c == '/' {
                            buf.clear_search();
                            proof {
                                lemma_es_eq(
                                    buf.edit_state(),
                                    EditState {
                                        search: Seq::empty(),
                                        ..old(buf).edit_state()
                                    },
                                );
                            }
                            (m, Transition::Trans(Mode::Search))
                        } else if c == '.' {
                            (m, Transition::DoMacro)
                        } else {
                            (m, Transition::Nothing)
                        }
                    },
                    _ => (m, Transition::Nothing),
                }
            },
            Mode::Insert => match e {
                InputEvent::Esc => (Mode::Insert, Transition::Return(None, true)),
                InputEvent::Char(c) => {
                    buf.insert_char_guarded(c);
                    proof {
                        lemma_es_eq(
                            buf.edit_state(),
                            EditState {
                                core: guarded_insert_view(old(buf).edit_state().core, c),
                                ..old(buf).edit_state()
                            },
                        );
                    }
                    (Mode::Insert, Transition::Nothing)
                },
                _ => (Mode::Insert, Transition::Nothing),
            },
            Mode::Visual { anchor } => {
                let m = Mode::Visual { anchor };
                match e {
                    InputEvent::Esc => (m, Transition::Return(None, false)),
                    InputEvent::Char(c) => {
                        if c == 'h' {
                            buf.cursor_left();
                            proof {
                                lemma_es_eq(
                                    buf.edit_state(),
                                    EditState {
                                        core: move_left_view(old(buf).edit_state().core),
                                        ..old(buf).edit_state()
                                    },
                                );
                            }
                            (m, Transition::Nothing)
                        } else if c == 'j' {
                            buf.cursor_down();
                            proof {
                                lemma_cv_eq(
                                    buf.edit_state().core,
                                    move_down_view(old(buf).edit_state().core),
                                );
                                lemma_es_eq(
                                    buf.edit_state(),
                                    EditState {
                                        core: move_down_view(old(buf).edit_state().core),
                                        ..old(buf).edit_state()
                                    },
                                );
                            }
                            (m, Transition::Nothing)
                        } else if c == 'k' {
                            buf.cursor_up();
                            proof {
                                lemma_cv_eq(
                                    buf.edit_state().core,
                                    move_up_view(old(buf).edit_state().core),
                                );
                                lemma_es_eq(
                                    buf.edit_state(),
                                    EditState {
                                        core: move_up_view(old(buf).edit_state().core),
                                        ..old(buf).edit_state()
                                    },
                                );
                            }
                            (m, Transition::Nothing)
                        } else if c == 'l' {
                            buf.cursor_right();
                            proof {
                                lemma_es_eq(
                                    buf.edit_state(),
                                    EditState {
                                        core: move_right_view(old(buf).edit_state().core),
                                        ..old(buf).edit_state()
                                    },
                                );
                            }
                            (m, Transition::Nothing)
                        } else if c == 'y' {
                            yank_selection(buf, anchor);
                            proof {
                                lemma_es_eq(
                                    buf.edit_state(),
                                    EditState {
                                        yank: yank_of_selection(
                                            old(buf).edit_state().core,
                                            anchor,
                                        ),
                                        ..old(buf).edit_state()
                                    },
                                );
                            }
                            (m, Transition::Return(None, false))
                        } else {
                            (m, Transition::Nothing)
                        }
                    },
                    _ => (m, Transition::Nothing),
                }
            },
            Mode::CommandLine { input } => match e {
                InputEvent::Esc => (
                    Mode::CommandLine { input },
                    Transition::Return(None, false),
                ),
                InputEvent::Char(c) => {
                    if c == '\n' {
                        let is_quit = input.len() == 1 && *input_first(&input) == 'q';
                        proof {
                            if is_quit {
                                assert(input@ =~= seq!['q']);
                            } else if input@.len() == 1 {
                                assert(input@[0] != 'q');
                                assert(input@ != seq!['q']);
                            } else {
                                assert(input@.len() != seq!['q'].len());
                            }
                        }
                        if is_quit {
                            (Mode::CommandLine { input }, Transition::Exit)
                        } else {
                            (
                                Mode::CommandLine { input },
                                Transition::Return(
                                    Some(String::from_str("unknown command")),
                                    false,
                                ),
                            )
                        }
                    } else {
                        let mut input = input;
                        input.push(c);
                        (Mode::CommandLine { input }, Transition::Nothing)
                    }
                },
                InputEvent::Backspace => {
                    let mut input = input;
                    let _ = input.pop();
                    (Mode::CommandLine { input }, Transition::Nothing)
                },
                _ => (Mode::CommandLine { input }, Transition::Nothing),
            },
            Mode::Search => match e {
                InputEvent::Esc => (Mode::Search, Transition::Return(None, false)),
                InputEvent::Char(c) => {
                    if c == '\n' {
                        (Mode::Search, Transition::Return(None, false))
                    } else {
                        buf.push_search(c);
                        proof {
                            lemma_es_eq(
                                buf.edit_state(),
                                EditState {
                                    search: old(buf).edit_state().search.push(c),
                                    ..old(buf).edit_state()
                                },
                            );
                        }
                        (Mode::Search, Transition::Nothing)
                    }
                },
                InputEvent::Backspace => {
                    buf.pop_search();
                    proof {
                        lemma_es_eq(
                            buf.edit_state(),
                            EditState {
                                search: if old(buf).edit_state().search.len() > 0 {
                                    old(buf).edit_state().search.drop_last()
                                } else {
                                    old(buf).edit_state().search
                                },
                                ..old(buf).edit_state()
                            },
                        );
                    }
                    (Mode::Search, Transition::Nothing)
                },
                _ => (Mode::Search, Transition::Nothing),
            },
        }
    }
}

/// The first element of a non-empty character vector.
fn input_first(v: &Vec<char>) -> (r: &char)
    requires
        v@.len() > 0,
    ensures
        *r == v@[0],
{
    &v[0]
}

} // verus!
