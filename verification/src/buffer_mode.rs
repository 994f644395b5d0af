//! The session driver around one buffer: holds the active mode, applies
//! transitions, and records and replays macros.
//!
//! Replay re-enters the full event-dispatch path, so a macro that itself
//! replays is a valid self-referential program; an explicit nesting depth
//! bounds that recursion, and a replay at depth zero does nothing.
//! Replayed events are never recorded: a replay begun while a recording is
//! under way first stops the recording, so replaying cannot grow the
//! recording itself.
use vstd::prelude::*;

use crate::buffer::Buffer;
use crate::buffer::EditState;
use crate::buffer::guarded_insert_view;
use crate::mode::InputEvent;
use crate::mode::Mode;
use crate::mode::ModeView;
use crate::mode::Transition;
use crate::mode::TransitionView;
use crate::mode::mode_event_spec;

verus! {

broadcast use crate::buffer::Buffer::lemma_rest_unchanged_refl;

/// How deep nested macro replays may go: a replay within a replay within a
/// replay, this many levels, then replaying becomes a no-op.
pub const MACRO_REPLAY_DEPTH: u64 = 16;

/// Mathematical state of a `BufferMode`: the editable buffer state, the
/// active mode, and the two macro buffers.
#[verifier::ext_equal]
pub struct BMView {
    pub edit: EditState,
    pub mode: ModeView,
    pub is_recording: bool,
    pub dot: Seq<InputEvent>,
    pub rec: Seq<InputEvent>,
}

/// One step of the session driver at the given replay depth: the successor
/// state and whether the session ends.
///
/// The incoming event is recorded first if a recording is under way; the
/// mode interprets it; the transition is applied: a mode switch, a return
/// to Normal (committing the recording when asked and non-empty), the start
/// of a recording seeded with the triggering event, a macro replay one
/// level deeper — with the recording flag cleared first, since replayed
/// events must not be recorded — or exit.
pub open spec fn bm_step(v: BMView, e: InputEvent, depth: nat) -> (BMView, bool)
    decreases depth, 0nat, 1nat,
{
    let rec1 = if v.is_recording {
        v.rec.push(e)
    } else {
        v.rec
    };
    let (m2, s2, t) = mode_event_spec(v.mode, v.edit, e);
    let v1 = BMView { edit: s2, mode: m2, is_recording: v.is_recording, dot: v.dot, rec: rec1 };
    match t {
        TransitionView::Exit => (v1, true),
        TransitionView::Trans(m3) => (BMView { mode: m3, ..v1 }, false),
        TransitionView::Return(msg, commit) => {
            let commit_now = v.is_recording && rec1.len() > 0 && commit;
            (
                BMView {
                    mode: ModeView::Normal { message: msg },
                    is_recording: false,
                    dot: if commit_now {
                        rec1
                    } else {
                        v.dot
                    },
                    rec: if commit_now {
                        Seq::empty()
                    } else {
                        rec1
                    },
                    ..v1
                },
                false,
            )
        },
        TransitionView::RecordMacro(m3) => (
            BMView { mode: m3, is_recording: true, rec: seq![e], ..v1 },
            false,
        ),
        TransitionView::DoMacro => if depth == 0 {
            (v1, false)
        } else {
            (bm_run(BMView { is_recording: false, ..v1 }, v.dot, (depth - 1) as nat), false)
        },
        TransitionView::Nothing => (v1, false),
    }
}

/// Feeding a sequence of events through the driver, in order, at one replay
/// depth. An exit inside a replay does not stop the replay, as the driver
/// ignores the exit flag of replayed events.
pub open spec fn bm_run(v: BMView, evs: Seq<InputEvent>, depth: nat) -> BMView
    decreases depth, evs.len(), 0nat,
{
    if evs.len() == 0 {
        v
    } else {
        bm_run(bm_step(v, evs[0], depth).0, evs.skip(1), depth)
    }
}

/// Running one more event equals running the prefix and stepping once.
pub proof fn lemma_bm_run_snoc(v: BMView, es: Seq<InputEvent>, e: InputEvent, depth: nat)
    ensures
        bm_run(v, es.push(e), depth) == bm_step(bm_run(v, es, depth), e, depth).0,
    decreases es.len(),
{
    if es.len() == 0 {
        assert(es.push(e)[0] == e);
        assert(es.push(e).skip(1) =~= Seq::<InputEvent>::empty());
        assert(bm_run(v, es, depth) == v);
        assert(bm_run(v, es.push(e), depth) == bm_run(
            bm_step(v, es.push(e)[0], depth).0,
            es.push(e).skip(1),
            depth,
        ));
        assert(bm_run(bm_step(v, e, depth).0, es.push(e).skip(1), depth) == bm_step(
            v,
            e,
            depth,
        ).0);
    } else {
        assert(es.push(e)[0] == es[0]);
        assert(es.push(e).skip(1) =~= es.skip(1).push(e));
        lemma_bm_run_snoc(bm_step(v, es[0], depth).0, es.skip(1), e, depth);
    }
}

/// Running a concatenation equals running the parts in order.
pub proof fn lemma_bm_run_append(v: BMView, a: Seq<InputEvent>, b: Seq<InputEvent>, depth: nat)
    ensures
        bm_run(v, a + b, depth) == bm_run(bm_run(v, a, depth), b, depth),
    decreases a.len(),
{
    if a.len() == 0 {
        assert(a + b =~= b);
    } else {
        assert((a + b)[0] == a[0]);
        assert((a + b).skip(1) =~= a.skip(1) + b);
        lemma_bm_run_append(bm_step(v, a[0], depth).0, a.skip(1), b, depth);
    }
}

/// The session driver: one buffer, the active mode, the recording flag and
/// the two macro buffers — the committed one, replayable on demand, and the
/// one being recorded.
pub struct BufferMode {
    pub buf: Buffer,
    mode: Mode,
    is_recording: bool,
    dot_macro: Vec<InputEvent>,
    recording_macro: Vec<InputEvent>,
}

impl View for BufferMode {
    type V = BMView;

    closed spec fn view(&self) -> BMView {
        BMView {
            edit: self.buf.edit_state(),
            mode: self.mode@,
            is_recording: self.is_recording,
            dot: self.dot_macro@,
            rec: self.recording_macro@,
        }
    }
}

impl BufferMode {
    /// The structural invariant: the owned buffer's.
    pub closed spec fn wf(self) -> bool {
        self.buf.wf()
    }

    /// The owned buffer, for relating what an event leaves untouched.
    pub closed spec fn spec_buf(self) -> Buffer {
        self.buf
    }

    /// Wraps a buffer: Normal mode, no recording, empty macros.
    pub fn new(buf: Buffer) -> (r: Self)
        requires
            buf.wf(),
        ensures
            r.wf(),
            r@ == (BMView {
                edit: buf.edit_state(),
                mode: ModeView::Normal { message: None },
                is_recording: false,
                dot: Seq::empty(),
                rec: Seq::empty(),
            }),
            r.spec_buf() == buf,
    {
        let r = BufferMode {
            buf,
            mode: Mode::Normal { message: None },
            is_recording: false,
            dot_macro: Vec::new(),
            recording_macro: Vec::new(),
        };
        proof {
            assert(r@ =~= (BMView {
                edit: r.buf.edit_state(),
                mode: ModeView::Normal { message: None },
                is_recording: false,
                dot: Seq::empty(),
                rec: Seq::empty(),
            }));
        }
        r
    }

    /// The buffer being edited.
    pub fn buf(&self) -> (r: &Buffer)
        ensures
            *r == self.spec_buf(),
    {
        &self.buf
    }

    /// Feeds one input event through the driver at the full replay depth.
    /// Returns whether the session should end.
    pub fn event(&mut self, e: InputEvent) -> (r: bool)
        requires
            old(self).wf(),
        ensures
            final(self).wf(),
            final(self).spec_buf().rest_unchanged(old(self).spec_buf()),
            (final(self)@, r) == bm_step(old(self)@, e, MACRO_REPLAY_DEPTH as nat),
    {
        self.event_rec(e, MACRO_REPLAY_DEPTH)
    }

    /// Feeds one event through the driver at the given replay depth.
    fn event_rec(&mut self, e: InputEvent, depth: u64) -> (r: bool)
        requires
            old(self).wf(),
        ensures
            final(self).wf(),
            final(self).spec_buf().rest_unchanged(old(self).spec_buf()),
            (final(self)@, r) == bm_step(old(self)@, e, depth as nat),
        decreases depth,
    {
        let ghost step = bm_step(old(self)@, e, depth as nat);
        if self.is_recording {
            self.recording_macro.push(e);
        }
        let mut mode = Mode::Normal { message: None };
        core::mem::swap(&mut mode, &mut self.mode);
        let (mode2, t) = mode.event(&mut self.buf, e);
        self.mode = mode2;
        let ghost v1 = self@;
        match t {
            Transition::Exit => {
                proof {
                    assert(self@ =~= step.0);
                }
                true
            },
            Transition::Trans(m) => {
                self.mode = m;
                proof {
                    assert(self@ =~= step.0);
                }
                false
            },
            Transition::Return(msg, commit) => {
                if self.is_recording && self.recording_macro.len() > 0 && commit {
                    core::mem::swap(&mut self.dot_macro, &mut self.recording_macro);
                    self.recording_macro.clear();
                }
                self.is_recording = false;
                self.mode = Mode::Normal { message: msg };
                proof {
                    assert(self@ =~= step.0);
                }
                false
            },
            Transition::RecordMacro(m) => {
                self.is_recording = true;
                self.recording_macro.clear();
                self.recording_macro.push(e);
                self.mode = m;
                proof {
                    assert(self@.rec =~= seq![e]);
                    assert(self@ =~= step.0);
                }
                false
            },
            Transition::DoMacro => {
                if depth > 0 {
                    // replayed events are not recorded
                    self.is_recording = false;
                    let ghost v_r = self@;
                    proof {
                        assert(v_r =~= (BMView { is_recording: false, ..v1 }));
                    }
                    let evs = self.dot_macro.clone();
                    proof {
                        assert(evs@ =~= self.dot_macro@);
                    }
                    let n = evs.len();
                    let ghost old_buf = self.buf;
                    let mut i: usize = 0;
                    while i < n
                        invariant
                            0 <= i <= n,
                            depth >= 1,
                            n == evs@.len(),
                            evs@ == v_r.dot,
                            self.wf(),
                            self.spec_buf().rest_unchanged(old_buf),
                            self@ == bm_run(v_r, evs@.take(i as int), (depth - 1) as nat),
                        decreases n - i,
                    {
                        let ghost pre_buf = self.buf;
                        let _ = self.event_rec(evs[i], depth - 1);
                        proof {
                            Buffer::lemma_rest_unchanged_trans(
                                old_buf,
                                pre_buf,
                                self.spec_buf(),
                            );
                            lemma_bm_run_snoc(
                                v_r,
                                evs@.take(i as int),
                                evs@[i as int],
                                (depth - 1) as nat,
                            );
                            assert(evs@.take(i as int).push(evs@[i as int]) =~= evs@.take(
                                i as int + 1,
                            ));
                        }
                        i += 1;
                    }
                    proof {
                        Buffer::lemma_rest_unchanged_trans(
                            old(self).spec_buf(),
                            old_buf,
                            self.spec_buf(),
                        );
                        assert(evs@.take(n as int) =~= evs@);
                        assert(self@ =~= step.0);
                    }
                } else {
                    proof {
                        assert(self@ =~= step.0);
                    }
                }
                false
            },
            Transition::Nothing => {
                proof {
                    assert(self@ =~= step.0);
                }
                false
            },
        }
    }
}

/// The edits a sequence of events performs while inserting: each ordinary
/// character lands at the cursor; control events change nothing.
pub open spec fn insert_fold(s: EditState, evs: Seq<InputEvent>) -> EditState
    decreases evs.len(),
{
    if evs.len() == 0 {
        s
    } else {
        let s1 = match evs[0] {
            InputEvent::Char(c) => EditState { core: guarded_insert_view(s.core, c), ..s },
            _ => s,
        };
        insert_fold(s1, evs.skip(1))
    }
}

/// While recording in Insert mode, events short of Esc stay in Insert,
/// keep recording, append themselves to the recording in order, leave the
/// committed macro alone, and perform exactly their insertions.
pub proof fn lemma_insert_run(v: BMView, evs: Seq<InputEvent>, depth: nat)
    requires
        v.mode is Insert,
        v.is_recording,
        forall|i: int| 0 <= i < evs.len() ==> evs[i] != InputEvent::Esc,
    ensures
        bm_run(v, evs, depth) == (BMView {
            edit: insert_fold(v.edit, evs),
            rec: v.rec + evs,
            ..v
        }),
    decreases evs.len(),
{
    if evs.len() == 0 {
        assert(v.rec + evs =~= v.rec);
        assert(bm_run(v, evs, depth) =~= (BMView {
            edit: insert_fold(v.edit, evs),
            rec: v.rec + evs,
            ..v
        }));
    } else {
        let e = evs[0];
        assert(e != InputEvent::Esc);
        let s1 = match e {
            InputEvent::Char(c) => EditState { core: guarded_insert_view(v.edit.core, c), ..v.edit },
            _ => v.edit,
        };
        let v1 = bm_step(v, e, depth).0;
        assert(v1 =~= (BMView { edit: s1, rec: v.rec.push(e), ..v }));
        assert(forall|i: int| 0 <= i < evs.skip(1).len() ==> evs.skip(1)[i] != InputEvent::Esc);
        lemma_insert_run(v1, evs.skip(1), depth);
        assert(v.rec.push(e) + evs.skip(1) =~= v.rec + evs);
        assert(insert_fold(v.edit, evs) == insert_fold(s1, evs.skip(1)));
        assert(bm_run(v, evs, depth) =~= (BMView {
            edit: insert_fold(v.edit, evs),
            rec: v.rec + evs,
            ..v
        }));
    }
}

/// From Normal with no recording under way, feeding `i`, then `mids`, then
/// Esc performs exactly the insertions of `mids`, whatever the replay
/// depth.
pub proof fn lemma_normal_run_full(v: BMView, mids: Seq<InputEvent>, depth: nat)
    requires
        v.mode is Normal,
        !v.is_recording,
        forall|i: int| 0 <= i < mids.len() ==> mids[i] != InputEvent::Esc,
    ensures
        bm_run(v, seq![InputEvent::Char('i')] + mids + seq![InputEvent::Esc], depth).edit
            == insert_fold(v.edit, mids),
{
    let enter = InputEvent::Char('i');
    let esc = InputEvent::Esc;
    let full = seq![enter] + mids + seq![esc];
    lemma_bm_run_append(v, seq![enter], mids + seq![esc], depth);
    assert(seq![enter] + (mids + seq![esc]) =~= full);
    assert(seq![enter].skip(1) =~= Seq::<InputEvent>::empty());
    assert(seq![enter][0] == enter);
    let v1 = bm_step(v, enter, depth).0;
    assert(bm_run(v1, Seq::<InputEvent>::empty(), depth) == v1);
    assert(bm_run(v, seq![enter], depth) == v1);
    assert(v1.mode is Insert && v1.is_recording && v1.edit == v.edit);
    lemma_bm_run_append(v1, mids, seq![esc], depth);
    lemma_insert_run(v1, mids, depth);
    let v2 = bm_run(v1, mids, depth);
    assert(v2.edit == insert_fold(v.edit, mids));
    assert(v2.mode is Insert && v2.is_recording);
    assert(seq![esc].skip(1) =~= Seq::<InputEvent>::empty());
    assert(seq![esc][0] == esc);
    let v3 = bm_step(v2, esc, depth).0;
    assert(bm_run(v3, Seq::<InputEvent>::empty(), depth) == v3);
    assert(bm_run(v2, seq![esc], depth) == v3);
    assert(v3.edit == v2.edit);
    assert(bm_run(v, full, depth) == v3);
}

/// The macro life cycle, exactly as recorded. From Normal with no
/// recording under way: `i` starts a recording seeded with itself and
/// enters Insert; the edits that follow are recorded in order; Esc returns
/// to Normal and commits, leaving the committed macro equal to the exact
/// event sequence (triggering event included), the recording buffer empty
/// and the recording flag off. A subsequent replay command feeds exactly
/// that sequence back through the interpreter, mutating the text just as
/// feeding the recorded events in again by hand would.
pub proof fn lemma_macro_record_commit_replay(
    v0: BMView,
    mids: Seq<InputEvent>,
    depth: nat,
    replay_depth: nat,
    manual_depth: nat,
)
    requires
        v0.mode is Normal,
        !v0.is_recording,
        replay_depth >= 1,
        forall|i: int| 0 <= i < mids.len() ==> mids[i] != InputEvent::Esc,
    ensures
        ({
            let enter = InputEvent::Char('i');
            let full = seq![enter] + mids + seq![InputEvent::Esc];
            let v1 = bm_step(v0, enter, depth).0;
            let v2 = bm_run(v1, mids, depth);
            let v3 = bm_step(v2, InputEvent::Esc, depth).0;
            &&& v1.mode is Insert && v1.is_recording && v1.rec == seq![enter] && v1.edit
                == v0.edit
            &&& v2.rec == seq![enter] + mids
            &&& v3.dot == full
            &&& v3.rec == Seq::<InputEvent>::empty()
            &&& !v3.is_recording
            &&& v3.mode is Normal
            &&& v3.edit == insert_fold(v0.edit, mids)
            &&& bm_step(v3, InputEvent::Char('.'), replay_depth).0.edit == insert_fold(
                v3.edit,
                mids,
            )
            &&& bm_run(v3, full, manual_depth).edit == insert_fold(v3.edit, mids)
        }),
{
    let enter = InputEvent::Char('i');
    let esc = InputEvent::Esc;
    let full = seq![enter] + mids + seq![esc];
    let v1 = bm_step(v0, enter, depth).0;
    assert(v1.mode is Insert && v1.is_recording && v1.rec == seq![enter] && v1.edit == v0.edit
        && v1.dot == v0.dot);
    lemma_insert_run(v1, mids, depth);
    let v2 = bm_run(v1, mids, depth);
    assert(v2.rec == seq![enter] + mids);
    assert(v2.mode is Insert && v2.is_recording && v2.dot == v0.dot);
    assert(v2.edit == insert_fold(v0.edit, mids));
    let v3 = bm_step(v2, esc, depth).0;
    assert((seq![enter] + mids).push(esc) =~= full);
    assert(full.len() > 0);
    assert(v3.dot == full && v3.rec == Seq::<InputEvent>::empty() && !v3.is_recording);
    assert(v3.mode is Normal);
    assert(v3.edit == v2.edit);
    // replay: the replay command runs the committed macro one level deeper
    let vr = bm_step(v3, InputEvent::Char('.'), replay_depth).0;
    let v3a = BMView {
        edit: v3.edit,
        mode: v3.mode,
        is_recording: v3.is_recording,
        dot: v3.dot,
        rec: v3.rec,
    };
    assert(v3a =~= v3);
    assert(vr == bm_run(v3, v3.dot, (replay_depth - 1) as nat));
    lemma_normal_run_full(v3, mids, (replay_depth - 1) as nat);
    assert(vr.edit == insert_fold(v3.edit, mids));
    // feeding the same events in by hand performs the same edits
    lemma_normal_run_full(v3, mids, manual_depth);
}

/// The selection a mode styles: in Visual mode the anchor-to-cursor range
/// in reading order, elsewhere nothing.
pub open spec fn visual_selection(m: ModeView, core: crate::core_text::CoreView) -> Option<
    crate::core_text::CursorRange,
> {
    match m {
        ModeView::Visual { anchor } => {
            let cur = crate::core_text::Cursor { row: core.row as usize, col: core.col as usize };
            if anchor.row < cur.row || (anchor.row == cur.row && anchor.col <= cur.col) {
                Some(crate::core_text::CursorRange { start: anchor, end: cur })
            } else {
                Some(crate::core_text::CursorRange { start: cur, end: anchor })
            }
        },
        _ => None,
    }
}

impl BufferMode {
    /// One render pass through the active mode: in Visual mode the
    /// selection between the anchor and the cursor is styled, elsewhere
    /// nothing is selected.
    pub fn draw(&mut self, width: usize, height: usize) -> (r: (
        Vec<Vec<(char, crate::draw_cache::CharStyle)>>,
        Option<crate::core_text::Cursor>,
    ))
        requires
            old(self).wf(),
            old(self)@.edit.core.row + height <= usize::MAX,
            forall|j: int| 0 <= j < old(self)@.edit.core.lines.len() ==> (#[trigger] old(
                self,
            )@.edit.core.lines[j]).len() < usize::MAX,
        ensures
            final(self).wf(),
            final(self)@.mode == old(self)@.mode,
            final(self)@.dot == old(self)@.dot,
            final(self)@.rec == old(self)@.rec,
            final(self)@.is_recording == old(self)@.is_recording,
            final(self)@.edit.core.lines == old(self)@.edit.core.lines,
            final(self)@.edit.core.row == old(self)@.edit.core.row,
            final(self)@.edit.core.col == old(self)@.edit.core.col,
            final(self)@.edit.core.version == old(self)@.edit.core.version,
            final(self)@.edit.core.dirty_from == old(self)@.edit.core.lines.len(),
            final(self)@.edit.search == old(self)@.edit.search,
            final(self)@.edit.yank == old(self)@.edit.yank,
            final(self).spec_buf().spec_show_flag() == crate::buffer::ShowCursor::Keep,
            final(self).spec_buf().current_messages() == old(self).spec_buf().current_messages(),
            final(self).spec_buf().spec_last_result() == old(self).spec_buf().spec_last_result(),
            final(self).spec_buf().spec_last_submitted() == old(
                self,
            ).spec_buf().spec_last_submitted(),
            old(self).spec_buf().spec_show_flag() == crate::buffer::ShowCursor::Keep
                ==> final(self).spec_buf().spec_row_offset() == old(
                self,
            ).spec_buf().spec_row_offset(),
            ({
                let lines = old(self)@.edit.core.lines;
                let sel = visual_selection(old(self)@.mode, old(self)@.edit.core);
                let off = final(self).spec_buf().spec_row_offset();
                let count = if off < lines.len() {
                    vstd::math::min(height as int, lines.len() - off)
                } else {
                    0
                };
                &&& r.0@.len() == count
                &&& forall|i: int| 0 <= i < count ==> (#[trigger] r.0@[i])@
                    == crate::buffer::styled_row(
                    lines,
                    old(self)@.edit.search,
                    old(self).spec_buf().current_messages(),
                    sel,
                    (off + i) as nat,
                    width as nat,
                )
                &&& r.1 == ({
                    let cur = crate::core_text::Cursor {
                        row: old(self)@.edit.core.row as usize,
                        col: old(self)@.edit.core.col as usize,
                    };
                    if off <= cur.row < off + height && cur.col < width {
                        Some(
                            crate::core_text::Cursor { row: (cur.row - off) as usize, col: cur.col },
                        )
                    } else {
                        Option::<crate::core_text::Cursor>::None
                    }
                })
            }),
    {
        let selection = match &self.mode {
            Mode::Visual { anchor } => {
                let cur = self.buf.cursor();
                let a = *anchor;
                if a.row < cur.row || (a.row == cur.row && a.col <= cur.col) {
                    Some(crate::core_text::CursorRange { start: a, end: cur })
                } else {
                    Some(crate::core_text::CursorRange { start: cur, end: a })
                }
            },
            _ => None,
        };
        proof {
            assert(selection == visual_selection(old(self)@.mode, old(self)@.edit.core));
        }
        self.buf.draw_with_selected(width, height, selection)
    }

    /// Runs the render cache's cooperative background fill for at most the
    /// given wall-clock budget; meant to be called once per frame.
    pub fn background_task_duration(&mut self, duration: std::time::Duration)
        requires
            old(self).wf(),
        ensures
            final(self).wf(),
            final(self)@.mode == old(self)@.mode,
            final(self)@.dot == old(self)@.dot,
            final(self)@.rec == old(self)@.rec,
            final(self)@.is_recording == old(self)@.is_recording,
            final(self)@.edit.core.lines == old(self)@.edit.core.lines,
            final(self)@.edit.core.row == old(self)@.edit.core.row,
            final(self)@.edit.core.col == old(self)@.edit.core.col,
            final(self)@.edit.core.version == old(self)@.edit.core.version,
            final(self)@.edit.core.dirty_from == old(self)@.edit.core.lines.len(),
            final(self)@.edit.search == old(self)@.edit.search,
            final(self)@.edit.yank == old(self)@.edit.yank,
            final(self).spec_buf().spec_row_offset() == old(self).spec_buf().spec_row_offset(),
            final(self).spec_buf().spec_show_flag() == old(self).spec_buf().spec_show_flag(),
            final(self).spec_buf().spec_last_result() == old(self).spec_buf().spec_last_result(),
            final(self).spec_buf().spec_last_submitted() == old(
                self,
            ).spec_buf().spec_last_submitted(),
            final(self).spec_buf().spec_path() == old(self).spec_buf().spec_path(),
    {
        self.buf.extend_cache_duration(duration);
    }
}

} // verus!
