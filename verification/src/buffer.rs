//! The editor-session buffer: owns the text core, the render cache, the
//! compile pipeline and the optional protocol client, and keeps them
//! consistent with one another.
use vstd::prelude::*;

use crate::compile::CompileId;
use crate::compile::CompilePipeline;
use crate::compile::CompileResult;
use crate::compile::CompilerMessage;
use crate::core_text::CoreView;
use crate::core_text::Cursor;
use crate::core_text::CursorRange;
use crate::core_text::TextCore;
use crate::core_text::delete_at_view;
use crate::core_text::insert_char_view;
use crate::core_text::insert_newline_view;
use crate::draw_cache::CharStyle;
use crate::draw_cache::DrawCache;
use crate::draw_cache::StyleKind;
use crate::lsp::LSPClient;

verus! {

/// Text taken from the buffer by a yank, ready to be put back elsewhere.
#[derive(Debug)]
pub struct Yank {
    pub insert_newline: bool,
    pub content: String,
}

impl Default for Yank {
    /// An empty yank: no content, no leading line break.
    fn default() -> (r: Self)
        ensures
            !r.insert_newline,
            r.content@ == Seq::<char>::empty(),
    {
        Yank { insert_newline: false, content: String::new() }
    }
}

/// Mathematical state of a `Yank`.
#[verifier::ext_equal]
pub struct YankView {
    pub insert_newline: bool,
    pub content: Seq<char>,
}

/// Relies on Iterator::collect to gather characters into a `String` holding
/// exactly those characters.
#[verifier::external_body]
pub(crate) fn chars_to_string(v: &Vec<char>) -> (r: String)
    ensures
        r@ == v@,
{
    v.iter().collect()
}

/// The display column width of `c`, a function of the character alone.
pub uninterp spec fn width_of(c: char) -> Option<usize>;

/// Relies on unicode_width::UnicodeWidthChar::width: the display column
/// width of the character, or nothing for a control character.
#[verifier::external_body]
fn char_width(c: char) -> (r: Option<usize>)
    ensures
        r == width_of(c),
{
    unicode_width::UnicodeWidthChar::width(c)
}

/// Columns taken by `c` on screen; a control character takes none.
pub open spec fn char_cols(c: char) -> nat {
    match width_of(c) {
        Some(w) => w as nat,
        None => 0,
    }
}

/// Column and row of the wrapping layout after the first `i` characters of
/// `s`, on a screen `width` columns wide.
pub open spec fn wrap_state(s: Seq<char>, width: nat, i: int) -> (nat, nat)
    decreases i,
{
    if i <= 0 {
        (0, 1)
    } else {
        let (x, y) = wrap_state(s, width, i - 1);
        let w = char_cols(s[i - 1]);
        if x + w < width {
            ((x + w) as nat, y)
        } else {
            (w, (y + 1) as nat)
        }
    }
}

/// Number of screen rows the line `s` takes when wrapped at `width`
/// columns.
pub open spec fn rows_spec(s: Seq<char>, width: nat) -> nat {
    wrap_state(s, width, s.len() as int).1
}

/// Number of screen rows one text line takes when wrapped at `width`
/// columns, display widths included.
pub fn get_rows(s: &str, width: usize) -> (r: usize)
    requires
        s@.len() < usize::MAX,
    ensures
        r == rows_spec(s@, width as nat),
{
    let n = s.unicode_len();
    let mut x: usize = 0;
    let mut y: usize = 1;
    let mut i: usize = 0;
    while i < n
        invariant
            0 <= i <= n,
            n == s@.len(),
            n < usize::MAX,
            y <= 1 + i,
            (x as nat, y as nat) == wrap_state(s@, width as nat, i as int),
        decreases n - i,
    {
        let c = s.get_char(i);
        let w = match char_width(c) {
            Some(w) => w,
            None => 0,
        };
        if w < width && x < width - w {
            x = x + w;
        } else {
            y = y + 1;
            x = w;
        }
        i += 1;
    }
    y
}

/// An external compiler invocation the caller must now start: the document
/// path and the request id it answers.
#[derive(Clone, PartialEq, Eq, Debug)]
pub struct CompileTask {
    pub path: String,
    pub id: CompileId,
}

/// How the next draw should move the viewport toward the cursor.
#[derive(Clone, Copy, PartialEq, Eq, Structural, Debug)]
pub enum ShowCursor {
    Keep,
    Show,
    ShowMiddle,
}

/// One editing session's buffer: text, search pattern, yank, render cache,
/// compile pipeline and protocol client, with the render cache kept
/// consistent with the text through the dirty-from watermark.
#[verifier::ext_equal]
pub struct Buffer {
    pub core: TextCore,
    pub search: Vec<char>,
    pub yank: Yank,
    pub lsp: Option<LSPClient>,
    /// The snippet table in force for the current language, name/body
    /// pairs as the configuration merged them.
    pub snippet: Vec<(String, String)>,
    path: Option<String>,
    extension: String,
    indent_width_cfg: usize,
    pipeline: CompilePipeline,
    row_offset: usize,
    cache: DrawCache,
    buffer_update: u64,
    show_cursor_on_draw: ShowCursor,
}

/// Mathematical state of the parts of a `Buffer` that the mode interpreter
/// may read or change.
#[verifier::ext_equal]
pub struct EditState {
    pub core: CoreView,
    pub search: Seq<char>,
    pub yank: YankView,
}

impl Buffer {
    /// The editable state: text, search pattern and yank.
    pub closed spec fn edit_state(self) -> EditState {
        EditState {
            core: self.core@,
            search: self.search@,
            yank: YankView {
                insert_newline: self.yank.insert_newline,
                content: self.yank.content@,
            },
        }
    }

    /// Everything outside the editable state is untouched.
    pub closed spec fn rest_unchanged(self, other: Buffer) -> bool {
        &&& self.path == other.path
        &&& self.extension == other.extension
        &&& self.indent_width_cfg == other.indent_width_cfg
        &&& self.pipeline == other.pipeline
        &&& self.row_offset == other.row_offset
        &&& self.cache == other.cache
        &&& self.buffer_update == other.buffer_update
        &&& self.show_cursor_on_draw == other.show_cursor_on_draw
        &&& self.lsp == other.lsp
        &&& self.snippet == other.snippet
    }

    /// The structural invariant: the text core is well formed and the
    /// render cache is valid below the text's dirty watermark; when the
    /// cache was synchronised with the current version, it is valid
    /// everywhere.
    pub closed spec fn wf(self) -> bool {
        &&& self.core.wf()
        &&& self.cache.wf()
        &&& self.cache.valid_for(self.core@.lines, self.core@.dirty_from as int)
        &&& self.buffer_update <= self.core@.version
        &&& (self.buffer_update == self.core@.version ==> self.cache.synced(self.core@.lines)
            && self.core@.dirty_from == self.core@.lines.len())
    }

    /// The current viewport offset: the first visible text row.
    pub closed spec fn spec_row_offset(self) -> nat {
        self.row_offset as nat
    }

    /// The compile pipeline's most recently received result.
    pub closed spec fn spec_last_result(self) -> Option<(CompileId, CompileResult)> {
        self.pipeline.spec_last_received()
    }

    /// The compile pipeline's de-duplication key.
    pub closed spec fn spec_last_submitted(self) -> Option<CompileId> {
        self.pipeline.spec_last_submitted()
    }

    /// Count of compile invocations started and not yet delivered.
    pub closed spec fn spec_compiles_in_flight(self) -> nat {
        self.pipeline.spec_in_flight()
    }

    /// The document path, if one was set.
    pub closed spec fn spec_path(self) -> Option<String> {
        self.path
    }

    /// How the next draw will move the viewport toward the cursor.
    pub closed spec fn spec_show_flag(self) -> ShowCursor {
        self.show_cursor_on_draw
    }

    /// The installed protocol client, if one is running.
    pub closed spec fn spec_lsp(self) -> Option<LSPClient> {
        self.lsp
    }

    /// Whether the render cache was synchronised with the current text
    /// version.
    pub closed spec fn spec_synced(self) -> bool {
        self.buffer_update == self.core@.version
    }

    /// How many leading rows of the render cache are valid.
    pub closed spec fn spec_cache_valid_rows(self) -> nat {
        self.cache.wm()
    }

    /// The diagnostics of the most recently received compile, or none.
    pub closed spec fn current_messages(self) -> Seq<CompilerMessage> {
        match self.pipeline.spec_last_received() {
            Some(p) => p.1.messages@,
            None => Seq::empty(),
        }
    }

    /// A fresh buffer over an empty one-line text.
    pub fn new() -> (r: Self)
        ensures
            r.wf(),
            r.edit_state().core.lines =~= seq![Seq::<char>::empty()],
            r.edit_state().core.version == 0,
            r.edit_state().search == Seq::<char>::empty(),
            r.edit_state().yank.content == Seq::<char>::empty(),
            r.spec_last_result() is None,
            r.spec_last_submitted() is None,
            r.spec_compiles_in_flight() == 0,
            r.spec_path() is None,
            r.spec_row_offset() == 0,
            r.spec_show_flag() == ShowCursor::Keep,
            r.spec_lsp() is None,
            r.spec_snippet() == Seq::<(String, String)>::empty(),
            r.edit_state().core.dirty_from == r.edit_state().core.lines.len(),
    {
        let mut core = TextCore::new();
        core.reset_dirty();
        let r = Buffer {
            core,
            search: Vec::new(),
            yank: Yank::default(),
            lsp: None,
            snippet: Vec::new(),
            path: None,
            extension: String::new(),
            indent_width_cfg: 4,
            pipeline: CompilePipeline::new(),
            row_offset: 0,
            cache: DrawCache::new(),
            buffer_update: 0,
            show_cursor_on_draw: ShowCursor::Keep,
        };
        proof {
            assert(r.cache.synced(r.core@.lines));
        }
        r
    }

    /// The render cache stays valid when an edit only touches rows at or
    /// after the new dirty watermark.
    proof fn wf_edit_step(cache: DrawCache, v_old: CoreView, v_new: CoreView)
        requires
            cache.valid_for(v_old.lines, v_old.dirty_from as int),
            v_new.dirty_from <= v_old.dirty_from,
            v_new.dirty_from <= v_old.lines.len(),
            v_new.dirty_from <= v_new.lines.len(),
            v_new.lines.subrange(0, v_new.dirty_from as int) == v_old.lines.subrange(
                0,
                v_new.dirty_from as int,
            ),
        ensures
            cache.valid_for(v_new.lines, v_new.dirty_from as int),
    {
        cache.lemma_valid_agree(
            v_old.lines,
            v_old.dirty_from as int,
            v_new.lines,
            v_new.dirty_from as int,
        );
    }

    /// Inserts `c` at the cursor as one committed edit; the render cache
    /// keeps every row before the edited one.
    pub fn insert_char(&mut self, c: char)
        requires
            old(self).wf(),
            old(self).edit_state().core.version < u64::MAX,
            old(self).edit_state().core.lines[old(self).edit_state().core.row as int].len()
                < usize::MAX,
            old(self).edit_state().core.lines.len() < usize::MAX,
        ensures
            final(self).wf(),
            final(self).edit_state().core == if c == '\n' {
                insert_newline_view(old(self).edit_state().core)
            } else {
                insert_char_view(old(self).edit_state().core, c)
            },
            final(self).edit_state().search == old(self).edit_state().search,
            final(self).edit_state().yank == old(self).edit_state().yank,
            final(self).rest_unchanged(*old(self)),
    {
        let ghost v_old = self.core@;
        self.core.insert_char(c);
        proof {
            let v_new = self.core@;
            assert(v_new.lines.subrange(0, v_new.dirty_from as int) =~= v_old.lines.subrange(
                0,
                v_new.dirty_from as int,
            ));
            Self::wf_edit_step(self.cache, v_old, v_new);
        }
    }

    /// Deletes at the cursor as one committed edit (a no-op at the very end
    /// of the text); the render cache keeps every row before the edit.
    pub fn delete_at_cursor(&mut self)
        requires
            old(self).wf(),
            old(self).edit_state().core.version < u64::MAX,
            old(self).edit_state().core.row + 1 < old(self).edit_state().core.lines.len() ==> old(
                self,
            ).edit_state().core.lines[old(self).edit_state().core.row as int].len() + old(
                self,
            ).edit_state().core.lines[old(self).edit_state().core.row as int + 1].len()
                < usize::MAX,
        ensures
            final(self).wf(),
            final(self).edit_state().core == delete_at_view(old(self).edit_state().core),
            final(self).edit_state().search == old(self).edit_state().search,
            final(self).edit_state().yank == old(self).edit_state().yank,
            final(self).rest_unchanged(*old(self)),
    {
        let ghost v_old = self.core@;
        self.core.delete_at_cursor();
        proof {
            let v_new = self.core@;
            assert(v_new.lines.subrange(0, v_new.dirty_from as int) =~= v_old.lines.subrange(
                0,
                v_new.dirty_from as int,
            ));
            Self::wf_edit_step(self.cache, v_old, v_new);
        }
    }

    /// Moves the cursor one column left; nothing else changes.
    pub fn cursor_left(&mut self)
        requires
            old(self).wf(),
        ensures
            final(self).wf(),
            final(self).edit_state().core == (CoreView {
                col: if old(self).edit_state().core.col > 0 {
                    (old(self).edit_state().core.col - 1) as nat
                } else {
                    0
                },
                ..old(self).edit_state().core
            }),
            final(self).edit_state().search == old(self).edit_state().search,
            final(self).edit_state().yank == old(self).edit_state().yank,
            final(self).rest_unchanged(*old(self)),
    {
        self.core.cursor_left();
    }

    /// Moves the cursor one column right; nothing else changes.
    pub fn cursor_right(&mut self)
        requires
            old(self).wf(),
        ensures
            final(self).wf(),
            final(self).edit_state().core.lines == old(self).edit_state().core.lines,
            final(self).edit_state().core.version == old(self).edit_state().core.version,
            final(self).edit_state().core.dirty_from == old(self).edit_state().core.dirty_from,
            final(self).edit_state().core.row == old(self).edit_state().core.row,
            final(self).edit_state().core.col == if old(self).edit_state().core.col < old(
                self,
            ).edit_state().core.lines[old(self).edit_state().core.row as int].len() {
                (old(self).edit_state().core.col + 1) as nat
            } else {
                old(self).edit_state().core.col
            },
            final(self).edit_state().search == old(self).edit_state().search,
            final(self).edit_state().yank == old(self).edit_state().yank,
            final(self).rest_unchanged(*old(self)),
    {
        self.core.cursor_right();
    }

    /// Moves the cursor one row up, clamping the column; nothing else
    /// changes.
    pub fn cursor_up(&mut self)
        requires
            old(self).wf(),
        ensures
            final(self).wf(),
            final(self).edit_state().core.lines == old(self).edit_state().core.lines,
            final(self).edit_state().core.version == old(self).edit_state().core.version,
            final(self).edit_state().core.dirty_from == old(self).edit_state().core.dirty_from,
            final(self).edit_state().core.row == if old(self).edit_state().core.row > 0 {
                (old(self).edit_state().core.row - 1) as nat
            } else {
                0
            },
            final(self).edit_state().core.col == vstd::math::min(
                old(self).edit_state().core.col as int,
                final(self).edit_state().core.lines[final(self).edit_state().core.row as int].len() as int,
            ),
            final(self).edit_state().search == old(self).edit_state().search,
            final(self).edit_state().yank == old(self).edit_state().yank,
            final(self).rest_unchanged(*old(self)),
    {
        self.core.cursor_up();
    }

    /// Moves the cursor one row down, clamping the column; nothing else
    /// changes.
    pub fn cursor_down(&mut self)
        requires
            old(self).wf(),
        ensures
            final(self).wf(),
            final(self).edit_state().core.lines == old(self).edit_state().core.lines,
            final(self).edit_state().core.version == old(self).edit_state().core.version,
            final(self).edit_state().core.dirty_from == old(self).edit_state().core.dirty_from,
            final(self).edit_state().core.row == if old(self).edit_state().core.row + 1 < old(
                self,
            ).edit_state().core.lines.len() {
                (old(self).edit_state().core.row + 1) as nat
            } else {
                old(self).edit_state().core.row
            },
            final(self).edit_state().core.col == vstd::math::min(
                old(self).edit_state().core.col as int,
                final(self).edit_state().core.lines[final(self).edit_state().core.row as int].len() as int,
            ),
            final(self).edit_state().search == old(self).edit_state().search,
            final(self).edit_state().yank == old(self).edit_state().yank,
            final(self).rest_unchanged(*old(self)),
    {
        self.core.cursor_down();
    }

    /// The configured indent width; at least one column.
    pub fn indent_width(&self) -> (r: usize)
        ensures
            r == vstd::math::max(self.spec_indent_width_cfg() as int, 1),
    {
        if self.indent_width_cfg >= 1 {
            self.indent_width_cfg
        } else {
            1
        }
    }

    /// The document path, if one was set.
    pub fn path(&self) -> (r: Option<&String>)
        ensures
            match r {
                Some(p) => self.spec_path() == Some(*p),
                None => self.spec_path() is None,
            },
    {
        self.path.as_ref()
    }

    /// Sets the document path; the extension after the last dot selects the
    /// language.
    pub fn set_path(&mut self, path: String)
        requires
            old(self).wf(),
        ensures
            final(self).wf(),
            final(self).spec_path() == Some(path),
            final(self).spec_extension()@ == extension_spec(path@),
            final(self).edit_state() == old(self).edit_state(),
            final(self).spec_last_submitted() == old(self).spec_last_submitted(),
            final(self).spec_last_result() == old(self).spec_last_result(),
            final(self).spec_compiles_in_flight() == old(self).spec_compiles_in_flight(),
            final(self).spec_row_offset() == old(self).spec_row_offset(),
            final(self).spec_show_flag() == old(self).spec_show_flag(),
    {
        self.extension = extension_of(&path);
        self.path = Some(path);
    }

    /// Submits a compile request for the current text version. The
    /// (version, optimize) pair becomes the de-duplication key whether or
    /// not a path is set; an invocation is handed out exactly when a path
    /// is set and the pair differs from the last submitted one, and only
    /// then does the in-flight count rise. The caller must start the
    /// returned invocation, or hand it back through `decline_compile`.
    pub fn compile(&mut self, is_optimize: bool) -> (r: Option<CompileTask>)
        requires
            old(self).wf(),
            old(self).spec_compiles_in_flight() < u64::MAX,
        ensures
            final(self).wf(),
            final(self).edit_state() == old(self).edit_state(),
            ({
                let id = CompileId { id: old(self).edit_state().core.version as u64, is_optimize };
                &&& final(self).spec_last_submitted() == Some(id)
                &&& r == match old(self).spec_path() {
                    Some(p) if old(self).spec_last_submitted() != Some(id) => Some(
                        CompileTask { path: p, id },
                    ),
                    _ => Option::<CompileTask>::None,
                }
            }),
            final(self).spec_compiles_in_flight() == if r is Some {
                old(self).spec_compiles_in_flight() + 1
            } else {
                old(self).spec_compiles_in_flight()
            },
            final(self).spec_last_result() == old(self).spec_last_result(),
            final(self).spec_path() == old(self).spec_path(),
            final(self).spec_extension() == old(self).spec_extension(),
            final(self).spec_row_offset() == old(self).spec_row_offset(),
            final(self).spec_show_flag() == old(self).spec_show_flag(),
    {
        let id = CompileId { id: self.core.buffer_changed(), is_optimize };
        let started = self.pipeline.submit(id);
        match &self.path {
            Some(p) if started => Some(CompileTask { path: p.clone(), id }),
            _ => {
                if started {
                    self.pipeline.abandon();
                }
                None
            },
        }
    }

    /// Hands back a compile invocation the caller could not start (no
    /// compiler configured): it is no longer counted as running.
    pub fn decline_compile(&mut self)
        requires
            old(self).wf(),
            old(self).spec_compiles_in_flight() > 0,
        ensures
            final(self).wf(),
            final(self).edit_state() == old(self).edit_state(),
            final(self).spec_compiles_in_flight() == old(self).spec_compiles_in_flight() - 1,
            final(self).spec_last_submitted() == old(self).spec_last_submitted(),
            final(self).spec_last_result() == old(self).spec_last_result(),
            final(self).spec_path() == old(self).spec_path(),
            final(self).spec_extension() == old(self).spec_extension(),
            final(self).spec_row_offset() == old(self).spec_row_offset(),
            final(self).spec_show_flag() == old(self).spec_show_flag(),
    {
        self.pipeline.abandon();
    }

    /// Feeds the results drained from the compile workers into the
    /// pipeline, oldest first: the last one wins.
    pub fn poll_compile_message(&mut self, results: Vec<(CompileId, CompileResult)>)
        requires
            old(self).wf(),
            results@.len() <= old(self).spec_compiles_in_flight(),
        ensures
            final(self).wf(),
            final(self).edit_state() == old(self).edit_state(),
            final(self).spec_last_submitted() == old(self).spec_last_submitted(),
            final(self).spec_compiles_in_flight() == old(self).spec_compiles_in_flight()
                - results@.len(),
            final(self).spec_last_result() == if results@.len() > 0 {
                Some(results@.last())
            } else {
                old(self).spec_last_result()
            },
    {
        let mut results = results;
        let ghost all = results@;
        let n = results.len();
        let mut i: usize = 0;
        while i < n
            invariant
                0 <= i <= n,
                n == all.len(),
                n <= old(self).spec_compiles_in_flight(),
                results@ == all.skip(i as int),
                self.wf(),
                self.edit_state() == old(self).edit_state(),
                self.spec_last_submitted() == old(self).spec_last_submitted(),
                self.spec_compiles_in_flight() == old(self).spec_compiles_in_flight() - i,
                self.spec_last_result() == if i > 0 {
                    Some(all[i - 1])
                } else {
                    old(self).spec_last_result()
                },
            decreases n - i,
        {
            let (id, res) = results.remove(0);
            proof {
                assert(all.skip(i as int)[0] == all[i as int]);
                assert(all.skip(i as int).remove(0) =~= all.skip(i as int + 1));
            }
            self.pipeline.deliver(id, res);
            i += 1;
        }
    }

    /// Whether a compile invocation is still running.
    pub fn is_compiling(&self) -> (r: bool)
        ensures
            r == (self.spec_compiles_in_flight() > 0),
    {
        self.pipeline.is_running()
    }

    /// Whether the most recently received compile succeeded, if any result
    /// arrived yet.
    pub fn last_compile_success(&self) -> (r: Option<bool>)
        ensures
            r == match self.spec_last_result() {
                Some(p) => Some(p.1.success),
                None => Option::<bool>::None,
            },
    {
        match self.pipeline.poll() {
            Some(p) => Some(p.1.success),
            None => None,
        }
    }

    /// Scrolls the view up three rows, stopping at the top.
    pub fn scroll_up(&mut self)
        requires
            old(self).wf(),
        ensures
            final(self).wf(),
            final(self).edit_state() == old(self).edit_state(),
            final(self).spec_row_offset() == if old(self).spec_row_offset() < 3 {
                0
            } else {
                (old(self).spec_row_offset() - 3) as nat
            },
            final(self).spec_last_submitted() == old(self).spec_last_submitted(),
            final(self).spec_last_result() == old(self).spec_last_result(),
            final(self).spec_compiles_in_flight() == old(self).spec_compiles_in_flight(),
            final(self).spec_path() == old(self).spec_path(),
            final(self).spec_show_flag() == old(self).spec_show_flag(),
            final(self).current_messages() == old(self).current_messages(),
    {
        if self.row_offset < 3 {
            self.row_offset = 0;
        } else {
            self.row_offset = self.row_offset - 3;
        }
    }

    /// Scrolls the view down three rows, stopping at the last line.
    pub fn scroll_down(&mut self)
        requires
            old(self).wf(),
        ensures
            final(self).wf(),
            final(self).edit_state() == old(self).edit_state(),
            final(self).spec_row_offset() == vstd::math::min(
                old(self).spec_row_offset() as int + 3,
                old(self).edit_state().core.lines.len() as int - 1,
            ),
            final(self).spec_last_submitted() == old(self).spec_last_submitted(),
            final(self).spec_last_result() == old(self).spec_last_result(),
            final(self).spec_compiles_in_flight() == old(self).spec_compiles_in_flight(),
            final(self).spec_path() == old(self).spec_path(),
            final(self).spec_show_flag() == old(self).spec_show_flag(),
            final(self).current_messages() == old(self).current_messages(),
    {
        let limit = self.core.len_lines() - 1;
        if limit >= 3 && self.row_offset <= limit - 3 {
            self.row_offset = self.row_offset + 3;
        } else {
            self.row_offset = limit;
        }
    }

    /// A buffer differs from itself in nothing.
    pub broadcast proof fn lemma_rest_unchanged_refl(self)
        ensures
            #[trigger] self.rest_unchanged(self),
    {
    }

    /// What two successive changes both left untouched is untouched.
    pub proof fn lemma_rest_unchanged_trans(a: Buffer, b: Buffer, c: Buffer)
        requires
            c.rest_unchanged(b),
            b.rest_unchanged(a),
        ensures
            c.rest_unchanged(a),
    {
    }

    /// The text core is well formed whenever the buffer is.
    pub proof fn lemma_wf_edit(self)
        requires
            self.wf(),
        ensures
            self.edit_state().core.wf(),
    {
    }

    /// The current cursor position.
    pub fn cursor(&self) -> (r: Cursor)
        ensures
            r.row == self.edit_state().core.row,
            r.col == self.edit_state().core.col,
    {
        self.core.cursor()
    }

    /// Number of text lines.
    pub fn len_lines(&self) -> (r: usize)
        ensures
            r == self.edit_state().core.lines.len(),
    {
        self.core.len_lines()
    }

    /// Length of line `row`.
    pub fn line_len(&self, row: usize) -> (r: usize)
        requires
            row < self.edit_state().core.lines.len(),
        ensures
            r == self.edit_state().core.lines[row as int].len(),
    {
        self.core.line_len(row)
    }

    /// The characters of line `row`.
    pub fn line_at(&self, row: usize) -> (r: &Vec<char>)
        requires
            row < self.edit_state().core.lines.len(),
        ensures
            r@ == self.edit_state().core.lines[row as int],
    {
        self.core.line_at(row)
    }

    /// The change-version counter of the text.
    pub fn buffer_changed(&self) -> (r: u64)
        ensures
            r == self.edit_state().core.version,
    {
        self.core.buffer_changed()
    }

    /// Inserts `c` at the cursor if no machine limit is hit; at a limit the
    /// buffer is left untouched.
    pub fn insert_char_guarded(&mut self, c: char)
        requires
            old(self).wf(),
        ensures
            final(self).wf(),
            final(self).edit_state().core == guarded_insert_view(old(self).edit_state().core, c),
            final(self).edit_state().search == old(self).edit_state().search,
            final(self).edit_state().yank == old(self).edit_state().yank,
            final(self).rest_unchanged(*old(self)),
    {
        let row = self.core.cursor().row;
        if self.core.buffer_changed() < u64::MAX && self.core.line_len(row) < usize::MAX
            && self.core.len_lines() < usize::MAX {
            self.insert_char(c);
        }
    }

    /// Deletes at the cursor if no machine limit is hit; at a limit the
    /// buffer is left untouched.
    pub fn delete_guarded(&mut self)
        requires
            old(self).wf(),
        ensures
            final(self).wf(),
            final(self).edit_state().core == guarded_delete_view(old(self).edit_state().core),
            final(self).edit_state().search == old(self).edit_state().search,
            final(self).edit_state().yank == old(self).edit_state().yank,
            final(self).rest_unchanged(*old(self)),
    {
        let row = self.core.cursor().row;
        let n = self.core.len_lines();
        let join_ok = if row + 1 < n {
            let a = self.core.line_len(row);
            let b = self.core.line_len(row + 1);
            a < usize::MAX - b
        } else {
            true
        };
        if self.core.buffer_changed() < u64::MAX && join_ok {
            self.delete_at_cursor();
        }
    }

    /// Replaces the yank.
    pub fn set_yank(&mut self, insert_newline: bool, content: String)
        requires
            old(self).wf(),
        ensures
            final(self).wf(),
            final(self).edit_state().core == old(self).edit_state().core,
            final(self).edit_state().search == old(self).edit_state().search,
            final(self).edit_state().yank == (YankView { insert_newline, content: content@ }),
            final(self).rest_unchanged(*old(self)),
    {
        self.yank = Yank { insert_newline, content };
    }

    /// Appends one character to the search pattern.
    pub fn push_search(&mut self, c: char)
        requires
            old(self).wf(),
        ensures
            final(self).wf(),
            final(self).edit_state().core == old(self).edit_state().core,
            final(self).edit_state().search == old(self).edit_state().search.push(c),
            final(self).edit_state().yank == old(self).edit_state().yank,
            final(self).rest_unchanged(*old(self)),
    {
        self.search.push(c);
    }

    /// Removes the last character of the search pattern, if any.
    pub fn pop_search(&mut self)
        requires
            old(self).wf(),
        ensures
            final(self).wf(),
            final(self).edit_state().core == old(self).edit_state().core,
            final(self).edit_state().search == if old(self).edit_state().search.len() > 0 {
                old(self).edit_state().search.drop_last()
            } else {
                old(self).edit_state().search
            },
            final(self).edit_state().yank == old(self).edit_state().yank,
            final(self).rest_unchanged(*old(self)),
    {
        let _ = self.search.pop();
    }

    /// Clears the search pattern.
    pub fn clear_search(&mut self)
        requires
            old(self).wf(),
        ensures
            final(self).wf(),
            final(self).edit_state().core == old(self).edit_state().core,
            final(self).edit_state().search == Seq::<char>::empty(),
            final(self).edit_state().yank == old(self).edit_state().yank,
            final(self).rest_unchanged(*old(self)),
    {
        self.search.clear();
    }

    /// Lowers the render cache's watermark to the text's dirty row and
    /// marks the text clean: afterwards the cache is synchronised with the
    /// text.
    fn sync_cache(&mut self)
        requires
            old(self).wf(),
        ensures
            final(self).wf(),
            final(self).cache.synced(final(self).core@.lines),
            final(self).buffer_update == final(self).core@.version,
            final(self).core@.lines == old(self).core@.lines,
            final(self).core@.row == old(self).core@.row,
            final(self).core@.col == old(self).core@.col,
            final(self).core@.version == old(self).core@.version,
            final(self).core@.dirty_from == old(self).core@.lines.len(),
            final(self).search == old(self).search,
            final(self).yank == old(self).yank,
            final(self).path == old(self).path,
            final(self).extension == old(self).extension,
            final(self).indent_width_cfg == old(self).indent_width_cfg,
            final(self).pipeline == old(self).pipeline,
            final(self).row_offset == old(self).row_offset,
            final(self).show_cursor_on_draw == old(self).show_cursor_on_draw,
            final(self).lsp == old(self).lsp,
            old(self).buffer_update == old(self).core@.version ==> *final(self) == *old(self),
    {
        if self.buffer_update != self.core.buffer_changed() {
            let d = self.core.dirty_from();
            self.cache.dirty_from(d);
            proof {
                self.cache.lemma_valid_widen(self.core@.lines, d as int);
            }
            self.core.reset_dirty();
            self.buffer_update = self.core.buffer_changed();
        } else {
            proof {
                assert(self.cache.synced(self.core@.lines));
            }
        }
    }

    /// Cooperative background fill of the render cache, bounded by the
    /// given wall-clock budget; with the cache already synchronised and
    /// fully valid it returns without recomputation. Changes nothing the
    /// editor shows: text, cursor, version, search and yank stay as they
    /// are.
    pub fn extend_cache_duration(&mut self, duration: std::time::Duration)
        requires
            old(self).wf(),
        ensures
            final(self).wf(),
            final(self).edit_state().core.lines == old(self).edit_state().core.lines,
            final(self).edit_state().core.row == old(self).edit_state().core.row,
            final(self).edit_state().core.col == old(self).edit_state().core.col,
            final(self).edit_state().core.version == old(self).edit_state().core.version,
            final(self).edit_state().search == old(self).edit_state().search,
            final(self).edit_state().yank == old(self).edit_state().yank,
            final(self).edit_state().core.dirty_from == old(self).edit_state().core.lines.len(),
            final(self).spec_row_offset() == old(self).spec_row_offset(),
            final(self).spec_last_result() == old(self).spec_last_result(),
            final(self).spec_last_submitted() == old(self).spec_last_submitted(),
            final(self).spec_compiles_in_flight() == old(self).spec_compiles_in_flight(),
            final(self).spec_path() == old(self).spec_path(),
            final(self).spec_show_flag() == old(self).spec_show_flag(),
            old(self).spec_synced() && old(self).spec_cache_valid_rows() == old(
                self,
            ).edit_state().core.lines.len() ==> *final(self) == *old(self),
    {
        self.sync_cache();
        let ghost mid = *self;
        self.cache.extend_cache_duration(&self.core, duration);
        proof {
            if old(self).spec_synced() && old(self).spec_cache_valid_rows() == old(
                self,
            ).edit_state().core.lines.len() {
                assert(*self =~= mid);
            }
        }
    }

    /// Loads a document: replaces the whole text as one committed edit,
    /// remembers the path and its extension, rewinds the viewport, and
    /// submits the first compile, whose invocation the caller must start if
    /// one is returned (or hand back through `decline_compile`). The buffer
    /// holds no configuration, so language-dependent settings are re-read
    /// by a following `set_language`.
    pub fn open(&mut self, path: String, lines: Vec<Vec<char>>) -> (r: Option<CompileTask>)
        requires
            old(self).wf(),
            old(self).edit_state().core.version < u64::MAX,
            old(self).spec_compiles_in_flight() < u64::MAX,
            lines@.len() >= 1,
        ensures
            final(self).wf(),
            final(self).edit_state().core.lines == crate::core_text::lines_view(lines@),
            final(self).edit_state().core.row == 0,
            final(self).edit_state().core.col == 0,
            final(self).edit_state().core.version == old(self).edit_state().core.version + 1,
            final(self).spec_path() == Some(path),
            final(self).spec_extension()@ == extension_spec(path@),
            final(self).edit_state().core.dirty_from == 0,
            final(self).spec_row_offset() == 0,
            ({
                let id = CompileId {
                    id: (old(self).edit_state().core.version + 1) as u64,
                    is_optimize: false,
                };
                &&& final(self).spec_last_submitted() == Some(id)
                &&& r == if old(self).spec_last_submitted() != Some(id) {
                    Some(CompileTask { path, id })
                } else {
                    Option::<CompileTask>::None
                }
            }),
            final(self).spec_compiles_in_flight() == if r is Some {
                old(self).spec_compiles_in_flight() + 1
            } else {
                old(self).spec_compiles_in_flight()
            },
    {
        let ghost v_old = self.core@;
        self.core.set_content(lines);
        proof {
            assert(self.core@.lines.subrange(0, 0) =~= v_old.lines.subrange(0, 0));
            self.cache.lemma_valid_agree(
                v_old.lines,
                v_old.dirty_from as int,
                self.core@.lines,
                0,
            );
        }
        self.extension = extension_of(&path);
        self.path = Some(path);
        self.row_offset = 0;
        self.compile(false)
    }

    /// Whether any diagnostic of the most recently received compile
    /// annotates this position.
    pub open spec fn spec_is_annotate(self, c: Cursor) -> bool {
        match self.spec_last_result() {
            Some(p) => exists|k: int| 0 <= k < p.1.messages@.len()
                && (#[trigger] p.1.messages@[k]).span.spec_contains(c),
            None => false,
        }
    }

    /// Whether a diagnostic span of the last received compile covers `c`.
    pub fn is_annotate(&self, c: Cursor) -> (r: bool)
        ensures
            r == self.spec_is_annotate(c),
    {
        match self.pipeline.poll() {
            None => false,
            Some(p) => {
                let msgs = &p.1.messages;
                let n = msgs.len();
                let mut i: usize = 0;
                while i < n
                    invariant
                        0 <= i <= n,
                        n == msgs@.len(),
                        self.spec_last_result() is Some,
                        msgs@ == self.spec_last_result().unwrap().1.messages@,
                        forall|k: int| 0 <= k < i ==> !(#[trigger] msgs@[k]).span.spec_contains(
                            c,
                        ),
                    decreases n - i,
                {
                    if msgs[i].span.contains(c) {
                        proof {
                            assert(self.spec_last_result().unwrap().1.messages@[i as int].span.spec_contains(
                                c,
                            ));
                        }
                        return true;
                    }
                    i += 1;
                }
                false
            },
        }
    }

    /// The diagnostic text of the most recently received compile on the
    /// cursor's line: the first message reported for that line, if any.
    pub fn compiler_message_on_cursor(&self) -> (r: Option<&str>)
        ensures
            match self.spec_last_result() {
                Some(p) => match r {
                    Some(m) => Some(m@) == first_msg_on_line(
                        p.1.messages@,
                        self.edit_state().core.row,
                    ),
                    None => first_msg_on_line(p.1.messages@, self.edit_state().core.row) is None,
                },
                None => r is None,
            },
    {
        let row = self.core.cursor().row;
        match self.pipeline.poll() {
            None => None,
            Some(p) => {
                let msgs = &p.1.messages;
                let n = msgs.len();
                let mut i: usize = 0;
                proof {
                    assert(msgs@.skip(0) =~= msgs@);
                }
                while i < n
                    invariant
                        0 <= i <= n,
                        n == msgs@.len(),
                        row == self.edit_state().core.row,
                        self.spec_last_result() is Some,
                        msgs@ == self.spec_last_result().unwrap().1.messages@,
                        first_msg_on_line(msgs@, row as nat) == first_msg_on_line(
                            msgs@.skip(i as int),
                            row as nat,
                        ),
                    decreases n - i,
                {
                    if msgs[i].line == row {
                        proof {
                            assert(msgs@.skip(i as int)[0] == msgs@[i as int]);
                        }
                        return Some(msgs[i].message.as_str());
                    }
                    proof {
                        assert(msgs@.skip(i as int)[0] == msgs@[i as int]);
                        assert(msgs@.skip(i as int).skip(1) =~= msgs@.skip(i as int + 1));
                    }
                    i += 1;
                }
                proof {
                    assert(msgs@.skip(n as int) =~= Seq::<CompilerMessage>::empty());
                }
                None
            },
        }
    }

    /// Indents the cursor's line by the configured width as one committed
    /// edit; the render cache keeps every row before it.
    pub fn indent(&mut self)
        requires
            old(self).wf(),
            old(self).edit_state().core.version < u64::MAX,
            old(self).edit_state().core.lines[old(self).edit_state().core.row as int].len()
                + vstd::math::max(old(self).spec_indent_width_cfg() as int, 1) <= usize::MAX,
            old(self).edit_state().core.col + vstd::math::max(
                old(self).spec_indent_width_cfg() as int,
                1,
            ) <= usize::MAX,
        ensures
            final(self).wf(),
            final(self).edit_state().core == crate::core_text::indent_view(
                old(self).edit_state().core,
                if old(self).spec_indent_width_cfg() >= 1 {
                    old(self).spec_indent_width_cfg() as nat
                } else {
                    1
                },
            ),
            final(self).edit_state().search == old(self).edit_state().search,
            final(self).edit_state().yank == old(self).edit_state().yank,
            final(self).rest_unchanged(*old(self)),
    {
        let width = self.indent_width();
        let ghost v_old = self.core@;
        self.core.indent(width);
        proof {
            let v_new = self.core@;
            assert(v_new.lines.subrange(0, v_new.dirty_from as int) =~= v_old.lines.subrange(
                0,
                v_new.dirty_from as int,
            ));
            Self::wf_edit_step(self.cache, v_old, v_new);
        }
    }

    /// Re-reads the language-dependent settings for the current extension:
    /// the indent width and the snippet table. The language server itself
    /// is restarted by whoever owns the process; `restart_lsp` installs the
    /// fresh client.
    pub fn set_language(&mut self, config: &crate::config::ConfigWithDefault)
        requires
            old(self).wf(),
        ensures
            final(self).wf(),
            final(self).edit_state() == old(self).edit_state(),
            final(self).spec_path() == old(self).spec_path(),
            final(self).spec_extension() == old(self).spec_extension(),
            final(self).spec_indent_width_cfg() == match config.spec_indent_width(
                old(self).spec_extension()@,
            ) {
                Some(w) if w >= 1 => w,
                _ => 4,
            },
            final(self).spec_snippet() == config.spec_snippets(old(self).spec_extension()@),
    {
        let w = match config.get_indent_width(&self.extension) {
            Some(w) if w >= 1 => w,
            _ => 4,
        };
        self.indent_width_cfg = w;
        let snips = config.snippets(&self.extension);
        self.snippet = snips;
    }

    /// The configured indent width, as stored.
    pub closed spec fn spec_indent_width_cfg(self) -> usize {
        self.indent_width_cfg
    }

    /// The extension the path was parsed into.
    pub closed spec fn spec_extension(self) -> String {
        self.extension
    }

    /// The snippet table in force, as name/body pairs.
    pub closed spec fn spec_snippet(self) -> Seq<(String, String)> {
        self.snippet@
    }

    /// Installs a freshly started protocol client, or none when the server
    /// could not be spawned: the feature silently disables itself.
    pub fn restart_lsp(&mut self, client: Option<crate::lsp::LSPClient>)
        requires
            old(self).wf(),
        ensures
            final(self).wf(),
            final(self).spec_lsp() == client,
            final(self).edit_state() == old(self).edit_state(),
            final(self).spec_path() == old(self).spec_path(),
            final(self).spec_last_submitted() == old(self).spec_last_submitted(),
            final(self).spec_last_result() == old(self).spec_last_result(),
            final(self).spec_compiles_in_flight() == old(self).spec_compiles_in_flight(),
            final(self).spec_row_offset() == old(self).spec_row_offset(),
            final(self).spec_show_flag() == old(self).spec_show_flag(),
    {
        self.lsp = client;
    }

    /// Commits an external formatter's output: the text is replaced as one
    /// committed edit exactly when it differs from what is already there,
    /// and is left untouched (no version bump) when it does not.
    pub fn format(&mut self, formatted: Vec<Vec<char>>) -> (changed: bool)
        requires
            old(self).wf(),
            old(self).edit_state().core.version < u64::MAX,
            formatted@.len() >= 1,
        ensures
            final(self).wf(),
            changed == (crate::core_text::lines_view(formatted@) != old(
                self,
            ).edit_state().core.lines),
            changed ==> final(self).edit_state().core.lines == crate::core_text::lines_view(
                formatted@,
            ) && final(self).edit_state().core.version == old(self).edit_state().core.version + 1,
            !changed ==> final(self).edit_state() == old(self).edit_state(),
            final(self).spec_path() == old(self).spec_path(),
    {
        proof {
            self.lemma_wf_edit();
        }
        if lines_equal(&formatted, self) {
            return false;
        }
        let ghost v_old = self.core@;
        self.core.set_content(formatted);
        proof {
            assert(self.core@.lines.subrange(0, 0) =~= v_old.lines.subrange(0, 0));
            self.cache.lemma_valid_agree(v_old.lines, v_old.dirty_from as int, self.core@.lines, 0);
        }
        true
    }

    /// Asks the next draw to bring the cursor into view.
    pub fn show_cursor(&mut self)
        requires
            old(self).wf(),
        ensures
            final(self).wf(),
            final(self).edit_state() == old(self).edit_state(),
            final(self).spec_row_offset() == old(self).spec_row_offset(),
            final(self).spec_show_flag() == ShowCursor::Show,
            final(self).spec_last_submitted() == old(self).spec_last_submitted(),
            final(self).spec_last_result() == old(self).spec_last_result(),
            final(self).spec_compiles_in_flight() == old(self).spec_compiles_in_flight(),
            final(self).spec_path() == old(self).spec_path(),
            final(self).current_messages() == old(self).current_messages(),
    {
        self.show_cursor_on_draw = ShowCursor::Show;
    }

    /// Asks the next draw to centre the cursor's row.
    pub fn show_cursor_middle(&mut self)
        requires
            old(self).wf(),
        ensures
            final(self).wf(),
            final(self).edit_state() == old(self).edit_state(),
            final(self).spec_row_offset() == old(self).spec_row_offset(),
            final(self).spec_show_flag() == ShowCursor::ShowMiddle,
            final(self).spec_last_submitted() == old(self).spec_last_submitted(),
            final(self).spec_last_result() == old(self).spec_last_result(),
            final(self).spec_compiles_in_flight() == old(self).spec_compiles_in_flight(),
            final(self).spec_path() == old(self).spec_path(),
            final(self).current_messages() == old(self).current_messages(),
    {
        self.show_cursor_on_draw = ShowCursor::ShowMiddle;
    }
}


/// Insertion at the cursor, unless a machine limit (an exhausted version
/// counter, a line or line count at the address-space limit) forbids it; at
/// a limit the state is unchanged.
pub open spec fn guarded_insert_view(v: CoreView, c: char) -> CoreView {
    if v.version < u64::MAX && v.lines[v.row as int].len() < usize::MAX && v.lines.len()
        < usize::MAX {
        if c == '\n' {
            insert_newline_view(v)
        } else {
            insert_char_view(v, c)
        }
    } else {
        v
    }
}

/// Deletion at the cursor, unless a machine limit forbids the join; at a
/// limit the state is unchanged.
pub open spec fn guarded_delete_view(v: CoreView) -> CoreView {
    if v.version < u64::MAX && (v.row + 1 < v.lines.len() ==> v.lines[v.row as int].len()
        + v.lines[v.row as int + 1].len() < usize::MAX) {
        delete_at_view(v)
    } else {
        v
    }
}


/// A search match of `pat` starts at `st` in the styled line.
pub open spec fn match_at(cells: Seq<(char, CharStyle)>, pat: Seq<char>, st: int) -> bool {
    &&& 0 <= st
    &&& st + pat.len() <= cells.len()
    &&& forall|k: int| 0 <= k < pat.len() ==> (#[trigger] cells[st + k]).0 == pat[k]
}

/// Column `j` lies inside some search match.
pub open spec fn search_covered(cells: Seq<(char, CharStyle)>, pat: Seq<char>, j: int) -> bool {
    exists|st: int| match_at(cells, pat, st) && st <= j < st + pat.len()
}

/// The styled line with every search match highlighted.
pub open spec fn highlight_overlay(cells: Seq<(char, CharStyle)>, pat: Seq<char>) -> Seq<
    (char, CharStyle),
> {
    Seq::new(
        cells.len(),
        |j: int| if pat.len() > 0 && search_covered(cells, pat, j) {
            (cells[j].0, CharStyle { kind: StyleKind::Highlight, underline: cells[j].1.underline })
        } else {
            cells[j]
        },
    )
}

/// The styled line with every column inside a diagnostic span underlined.
pub open spec fn annotate_overlay(
    cells: Seq<(char, CharStyle)>,
    msgs: Seq<CompilerMessage>,
    row: nat,
) -> Seq<(char, CharStyle)> {
    Seq::new(
        cells.len(),
        |j: int| if exists|k: int| 0 <= k < msgs.len() && (#[trigger] msgs[k]).span.spec_contains(
            Cursor { row: row as usize, col: j as usize },
        ) {
            (cells[j].0, CharStyle { kind: cells[j].1.kind, underline: true })
        } else {
            cells[j]
        },
    )
}

/// The styled line with every selected column restyled as selected.
pub open spec fn selection_overlay(
    cells: Seq<(char, CharStyle)>,
    sel: Option<CursorRange>,
    row: nat,
) -> Seq<(char, CharStyle)> {
    Seq::new(
        cells.len(),
        |j: int| match sel {
            Some(rg) => if rg.spec_contains(Cursor { row: row as usize, col: j as usize }) {
                (cells[j].0, CharStyle { kind: StyleKind::Selected, underline: cells[j].1.underline })
            } else {
                cells[j]
            },
            None => cells[j],
        },
    )
}

/// Row `row` as the render pass emits it: the tokenizer's styling, search
/// highlights, diagnostic underlines and the selection, truncated to the
/// screen width.
pub open spec fn styled_row(
    lines: Seq<Seq<char>>,
    pat: Seq<char>,
    msgs: Seq<CompilerMessage>,
    sel: Option<CursorRange>,
    row: nat,
    width: nat,
) -> Seq<(char, CharStyle)> {
    let base = crate::draw_cache::rendered_line(lines, row as int);
    let h = highlight_overlay(base, pat);
    let a = annotate_overlay(h, msgs, row);
    let sl = selection_overlay(a, sel, row);
    sl.take(vstd::math::min(sl.len() as int, width as int))
}

/// Whether a search match of `pat` starts exactly at `st`.
fn is_match_at(cells: &Vec<(char, CharStyle)>, pat: &Vec<char>, st: usize) -> (r: bool)
    requires
        st + pat@.len() <= cells@.len(),
    ensures
        r == match_at(cells@, pat@, st as int),
{
    let plen = pat.len();
    let n = cells.len();
    let mut k: usize = 0;
    while k < plen
        invariant
            0 <= k <= plen,
            plen == pat@.len(),
            n == cells@.len(),
            st + plen <= n,
            forall|q: int| 0 <= q < k ==> (#[trigger] cells@[st + q]).0 == pat@[q],
        decreases plen - k,
    {
        let (c, _) = cells[st + k];
        if c != pat[k] {
            return false;
        }
        k += 1;
    }
    true
}

/// Whether column `j` lies inside a search match of the non-empty `pat`.
fn covered_at(cells: &Vec<(char, CharStyle)>, pat: &Vec<char>, j: usize) -> (r: bool)
    requires
        pat@.len() > 0,
        j < cells@.len(),
    ensures
        r == search_covered(cells@, pat@, j as int),
{
    let n = cells.len();
    let plen = pat.len();
    if plen > n {
        proof {
            assert(forall|st: int| !match_at(cells@, pat@, st));
        }
        return false;
    }
    let lo = if j + 1 >= plen {
        j + 1 - plen
    } else {
        0
    };
    let mut st = lo;
    while st <= j && plen <= n - st
        invariant
            lo <= st,
            n == cells@.len(),
            plen == pat@.len(),
            plen >= 1,
            j < n,
            lo == if j + 1 >= plen {
                (j + 1 - plen) as int
            } else {
                0
            },
            forall|q: int| lo <= q < st ==> !(match_at(cells@, pat@, q) && q <= j < q
                + pat@.len()),
        decreases j + 1 - st,
    {
        if is_match_at(cells, pat, st) {
            proof {
                assert(match_at(cells@, pat@, st as int) && st <= j < st + pat@.len());
            }
            return true;
        }
        st += 1;
    }
    proof {
        assert forall|q: int| !(match_at(cells@, pat@, q) && q <= j < q + pat@.len()) by {
            if match_at(cells@, pat@, q) && q <= j < q + pat@.len() {
                assert(q + plen <= n);
                assert(q >= lo);
                assert(q < st);
            }
        }
    }
    false
}

impl Buffer {
    /// Centres the cursor's row: the viewport starts half a screen above
    /// it.
    fn show_cursor_middle_(&mut self, rows: usize)
        requires
            old(self).wf(),
        ensures
            final(self).wf(),
            final(self).edit_state() == old(self).edit_state(),
            final(self).current_messages() == old(self).current_messages(),
            final(self).cache == old(self).cache,
            final(self).buffer_update == old(self).buffer_update,
            final(self).spec_show_flag() == old(self).spec_show_flag(),
            final(self).pipeline == old(self).pipeline,
            final(self).path == old(self).path,
            final(self).extension == old(self).extension,
            final(self).indent_width_cfg == old(self).indent_width_cfg,
            final(self).lsp == old(self).lsp,
            final(self).spec_row_offset() == if old(self).edit_state().core.row < rows / 2 {
                0
            } else {
                (old(self).edit_state().core.row - rows / 2) as nat
            },
    {
        let cur = self.core.cursor();
        if rows / 2 > cur.row {
            self.row_offset = 0;
        } else {
            self.row_offset = cur.row - rows / 2;
        }
    }
}

/// The viewport offset the greedy fit reaches: rows are taken above the
/// cursor, newest first, while their wrapped heights still fit the screen.
pub open spec fn fit_offset(lines: Seq<Seq<char>>, i: int, sum: nat, rows: nat, cols: nat) -> int
    decreases i,
{
    if i > 0 && sum + rows_spec(lines[i - 1], cols) <= rows {
        fit_offset(lines, i - 1, (sum + rows_spec(lines[i - 1], cols)) as nat, rows, cols)
    } else {
        i
    }
}

impl Buffer {
    /// Scrolls just enough that the cursor's row is on screen: up to the
    /// cursor when the viewport is below it, else down to the greedy fit of
    /// wrapped line heights above the cursor.
    fn show_cursor_(&mut self, rows: usize, cols: usize)
        requires
            old(self).wf(),
            forall|j: int| 0 <= j < old(self).edit_state().core.lines.len() ==> (#[trigger] old(
                self,
            ).edit_state().core.lines[j]).len() < usize::MAX,
        ensures
            final(self).wf(),
            final(self).edit_state() == old(self).edit_state(),
            final(self).current_messages() == old(self).current_messages(),
            final(self).cache == old(self).cache,
            final(self).buffer_update == old(self).buffer_update,
            final(self).spec_show_flag() == old(self).spec_show_flag(),
            final(self).pipeline == old(self).pipeline,
            final(self).path == old(self).path,
            final(self).extension == old(self).extension,
            final(self).indent_width_cfg == old(self).indent_width_cfg,
            final(self).lsp == old(self).lsp,
            final(self).spec_row_offset() == if old(self).spec_row_offset() >= old(
                self,
            ).edit_state().core.row {
                old(self).edit_state().core.row
            } else {
                vstd::math::max(
                    fit_offset(
                        old(self).edit_state().core.lines,
                        old(self).edit_state().core.row as int + 1,
                        0,
                        rows as nat,
                        cols as nat,
                    ),
                    old(self).spec_row_offset() as int,
                ) as nat
            },
    {
        proof {
            self.lemma_wf_edit();
        }
        let cur = self.core.cursor();
        let n = self.core.len_lines();
        proof {
            assert(cur.row < n);
        }
        if self.row_offset >= cur.row {
            self.row_offset = cur.row;
        } else {
            let ghost lines = self.core@.lines;
            let ghost snapshot = *self;
            let mut i: usize = cur.row + 1;
            let mut sum: usize = 0;
            loop
                invariant_except_break
                    0 <= i <= cur.row + 1,
                    cur.row < n,
                    n == self.core@.lines.len(),
                    lines == self.core@.lines,
                    *self == snapshot,
                    sum <= rows,
                    forall|j: int| 0 <= j < lines.len() ==> (#[trigger] lines[j]).len()
                        < usize::MAX,
                    fit_offset(lines, cur.row as int + 1, 0, rows as nat, cols as nat)
                        == fit_offset(
                        lines,
                        i as int,
                        sum as nat,
                        rows as nat,
                        cols as nat,
                    ),
                    self.wf(),
                ensures
                    *self == snapshot,
                    0 <= i <= cur.row + 1,
                    fit_offset(lines, cur.row as int + 1, 0, rows as nat, cols as nat)
                        == i as int,
                decreases i,
            {
                if i == 0 {
                    break ;
                }
                let text = chars_to_string(self.core.line_at(i - 1));
                let g = get_rows(text.as_str(), cols);
                if g > rows - sum {
                    proof {
                        assert(!(sum + rows_spec(lines[i as int - 1], cols as nat) <= rows));
                        assert(fit_offset(lines, i as int, sum as nat, rows as nat, cols as nat)
                            == i as int);
                    }
                    break ;
                }
                sum = sum + g;
                i = i - 1;
            }
            if i > self.row_offset {
                self.row_offset = i;
            }
        }
    }

    /// One render pass: synchronises the cache, honours a pending
    /// cursor-show request, recomputes exactly the stale visible rows, and
    /// emits the visible rows styled with search highlights, diagnostic
    /// underlines and the selection. Returns the rows and the cursor's
    /// on-screen position, if visible.
    pub fn draw_with_selected(&mut self, width: usize, height: usize, selected: Option<
        CursorRange,
    >) -> (r: (Vec<Vec<(char, CharStyle)>>, Option<Cursor>))
        requires
            old(self).wf(),
            old(self).edit_state().core.row + height <= usize::MAX,
            forall|j: int| 0 <= j < old(self).edit_state().core.lines.len() ==> (#[trigger] old(
                self,
            ).edit_state().core.lines[j]).len() < usize::MAX,
        ensures
            final(self).wf(),
            final(self).spec_show_flag() == ShowCursor::Keep,
            final(self).edit_state().core.lines == old(self).edit_state().core.lines,
            final(self).edit_state().core.row == old(self).edit_state().core.row,
            final(self).edit_state().core.col == old(self).edit_state().core.col,
            final(self).edit_state().core.version == old(self).edit_state().core.version,
            final(self).edit_state().search == old(self).edit_state().search,
            final(self).edit_state().yank == old(self).edit_state().yank,
            final(self).current_messages() == old(self).current_messages(),
            final(self).edit_state().core.dirty_from == old(
                self,
            ).edit_state().core.lines.len(),
            final(self).spec_last_result() == old(self).spec_last_result(),
            final(self).spec_last_submitted() == old(self).spec_last_submitted(),
            final(self).spec_compiles_in_flight() == old(self).spec_compiles_in_flight(),
            final(self).spec_path() == old(self).spec_path(),
            old(self).spec_show_flag() == ShowCursor::Keep ==> final(self).spec_row_offset()
                == old(self).spec_row_offset(),
            old(self).spec_show_flag() == ShowCursor::ShowMiddle
                ==> final(self).spec_row_offset() == (if old(self).edit_state().core.row < height
                / 2 {
                0
            } else {
                (old(self).edit_state().core.row - height / 2) as nat
            }),
            old(self).spec_show_flag() == ShowCursor::Show ==> final(self).spec_row_offset()
                == (if old(self).spec_row_offset() >= old(self).edit_state().core.row {
                old(self).edit_state().core.row
            } else {
                vstd::math::max(
                    fit_offset(
                        old(self).edit_state().core.lines,
                        old(self).edit_state().core.row as int + 1,
                        0,
                        height as nat,
                        width as nat,
                    ),
                    old(self).spec_row_offset() as int,
                ) as nat
            }),
            ({
                let lines = old(self).edit_state().core.lines;
                let off = final(self).spec_row_offset();
                let count = if off < lines.len() {
                    vstd::math::min(height as int, lines.len() - off)
                } else {
                    0
                };
                &&& r.0@.len() == count
                &&& forall|i: int| 0 <= i < count ==> (#[trigger] r.0@[i])@ == styled_row(
                    lines,
                    old(self).edit_state().search,
                    old(self).current_messages(),
                    selected,
                    (off + i) as nat,
                    width as nat,
                )
                &&& r.1 == ({
                    let cur = Cursor {
                        row: old(self).edit_state().core.row as usize,
                        col: old(self).edit_state().core.col as usize,
                    };
                    if off <= cur.row < off + height && cur.col < width {
                        Some(Cursor { row: (cur.row - off) as usize, col: cur.col })
                    } else {
                        Option::<Cursor>::None
                    }
                })
            }),
    {
        self.sync_cache();
        match self.show_cursor_on_draw {
            ShowCursor::ShowMiddle => {
                self.show_cursor_middle_(height);
            },
            ShowCursor::Show => {
                self.show_cursor_(height, width);
            },
            ShowCursor::Keep => {},
        }
        self.show_cursor_on_draw = ShowCursor::Keep;
        let off = self.row_offset;
        let n = self.core.len_lines();
        let count = if off < n {
            if height < n - off {
                height
            } else {
                n - off
            }
        } else {
            0
        };
        let mut grid: Vec<Vec<(char, CharStyle)>> = Vec::new();
        let ghost lines = self.core@.lines;
        let ghost pat = self.search@;
        let ghost msgs = self.current_messages();
        let mut i: usize = 0;
        while i < count
            invariant
                0 <= i <= count,
                count == if (off as int) < lines.len() {
                    vstd::math::min(height as int, lines.len() - off)
                } else {
                    0
                },
                n == lines.len(),
                count > 0 ==> off + count <= n,
                self.wf(),
                self.cache.synced(self.core@.lines),
                lines == self.core@.lines,
                pat == self.search@,
                msgs == self.current_messages(),
                self.core@.row == old(self).edit_state().core.row,
                self.core@.col == old(self).edit_state().core.col,
                self.core@.version == old(self).edit_state().core.version,
                self.yank.insert_newline == old(self).edit_state().yank.insert_newline,
                self.yank.content@ == old(self).edit_state().yank.content,
                self.row_offset == off,
                self.buffer_update == self.core@.version,
                self.core@.dirty_from == old(self).edit_state().core.lines.len(),
                self.show_cursor_on_draw == ShowCursor::Keep,
                self.pipeline == old(self).pipeline,
                self.path == old(self).path,
                grid@.len() == i,
                forall|q: int| 0 <= q < i ==> (#[trigger] grid@[q])@ == styled_row(
                    lines,
                    pat,
                    msgs,
                    selected,
                    (off + q) as nat,
                    width as nat,
                ),
            decreases count - i,
        {
            let row = off + i;
            self.cache.cache_line(&self.core, row);
            let cells = match self.cache.get_line(row) {
                Some(cells) => cells,
                None => {
                    proof {
                        assert(false);
                    }
                    unreached()
                },
            };
            proof {
                self.cache.lemma_entry_rendered(self.core@.lines, row as int);
                assert(cells@ == crate::draw_cache::rendered_line(lines, row as int));
            }
            let m = cells.len();
            let lim = if m < width {
                m
            } else {
                width
            };
            let mut out: Vec<(char, CharStyle)> = Vec::new();
            let ghost target = styled_row(lines, pat, msgs, selected, row as nat, width as nat);
            let mut j: usize = 0;
            while j < lim
                invariant
                    0 <= j <= lim,
                    lim == vstd::math::min(m as int, width as int),
                    m == cells@.len(),
                    cells@ == crate::draw_cache::rendered_line(lines, row as int),
                    pat == self.search@,
                    msgs == self.current_messages(),
                    target == styled_row(lines, pat, msgs, selected, row as nat, width as nat),
                    target.len() == lim,
                    out@.len() == j,
                    forall|q: int| 0 <= q < j ==> (#[trigger] out@[q]) == target[q],
                decreases lim - j,
            {
                let (c, st0) = cells[j];
                let covered = if self.search.len() > 0 {
                    covered_at(cells, &self.search, j)
                } else {
                    false
                };
                let annotated = self.is_annotate(Cursor { row, col: j });
                let sel_hit = match &selected {
                    Some(rg) => rg.contains(Cursor { row, col: j }),
                    None => false,
                };
                let kind = if sel_hit {
                    StyleKind::Selected
                } else if covered {
                    StyleKind::Highlight
                } else {
                    st0.kind
                };
                let underline = st0.underline || annotated;
                out.push((c, CharStyle { kind, underline }));
                proof {
                    let base = cells@;
                    let h = highlight_overlay(base, pat);
                    let a = annotate_overlay(h, msgs, row as nat);
                    let sl = selection_overlay(a, selected, row as nat);
                    assert(h[j as int].0 == base[j as int].0 && h[j as int].1.underline == base[
                        j as int
                    ].1.underline);
                    assert(a[j as int].0 == h[j as int].0 && a[j as int].1.kind == h[
                        j as int
                    ].1.kind);
                    assert(annotated == self.spec_is_annotate(Cursor { row, col: j }));
                    assert(target[j as int] == sl[j as int]);
                    assert(out@[j as int] == target[j as int]);
                }
                j += 1;
            }
            grid.push(out);
            proof {
                assert(out@ =~= target);
            }
            i += 1;
        }
        let cur = self.core.cursor();
        let cursor = if off <= cur.row && cur.row < off + height && cur.col < width {
            Some(Cursor { row: cur.row - off, col: cur.col })
        } else {
            None
        };
        (grid, cursor)
    }

    /// One render pass without a selection: exactly `draw_with_selected`
    /// with nothing selected.
    pub fn draw(&mut self, width: usize, height: usize) -> (r: (
        Vec<Vec<(char, CharStyle)>>,
        Option<Cursor>,
    ))
        requires
            old(self).wf(),
            old(self).edit_state().core.row + height <= usize::MAX,
            forall|j: int| 0 <= j < old(self).edit_state().core.lines.len() ==> (#[trigger] old(
                self,
            ).edit_state().core.lines[j]).len() < usize::MAX,
        ensures
            final(self).wf(),
            final(self).spec_show_flag() == ShowCursor::Keep,
            final(self).edit_state().core.lines == old(self).edit_state().core.lines,
            final(self).edit_state().core.row == old(self).edit_state().core.row,
            final(self).edit_state().core.col == old(self).edit_state().core.col,
            final(self).edit_state().core.version == old(self).edit_state().core.version,
            final(self).edit_state().search == old(self).edit_state().search,
            final(self).edit_state().yank == old(self).edit_state().yank,
            final(self).current_messages() == old(self).current_messages(),
            final(self).edit_state().core.dirty_from == old(
                self,
            ).edit_state().core.lines.len(),
            final(self).spec_last_result() == old(self).spec_last_result(),
            final(self).spec_last_submitted() == old(self).spec_last_submitted(),
            final(self).spec_compiles_in_flight() == old(self).spec_compiles_in_flight(),
            final(self).spec_path() == old(self).spec_path(),
            old(self).spec_show_flag() == ShowCursor::Keep ==> final(self).spec_row_offset()
                == old(self).spec_row_offset(),
            old(self).spec_show_flag() == ShowCursor::ShowMiddle
                ==> final(self).spec_row_offset() == (if old(self).edit_state().core.row < height
                / 2 {
                0
            } else {
                (old(self).edit_state().core.row - height / 2) as nat
            }),
            old(self).spec_show_flag() == ShowCursor::Show ==> final(self).spec_row_offset()
                == (if old(self).spec_row_offset() >= old(self).edit_state().core.row {
                old(self).edit_state().core.row
            } else {
                vstd::math::max(
                    fit_offset(
                        old(self).edit_state().core.lines,
                        old(self).edit_state().core.row as int + 1,
                        0,
                        height as nat,
                        width as nat,
                    ),
                    old(self).spec_row_offset() as int,
                ) as nat
            }),
            ({
                let lines = old(self).edit_state().core.lines;
                let off = final(self).spec_row_offset();
                let count = if off < lines.len() {
                    vstd::math::min(height as int, lines.len() - off)
                } else {
                    0
                };
                &&& r.0@.len() == count
                &&& forall|i: int| 0 <= i < count ==> (#[trigger] r.0@[i])@ == styled_row(
                    lines,
                    old(self).edit_state().search,
                    old(self).current_messages(),
                    Option::<CursorRange>::None,
                    (off + i) as nat,
                    width as nat,
                )
                &&& r.1 == ({
                    let cur = Cursor {
                        row: old(self).edit_state().core.row as usize,
                        col: old(self).edit_state().core.col as usize,
                    };
                    if off <= cur.row < off + height && cur.col < width {
                        Some(Cursor { row: (cur.row - off) as usize, col: cur.col })
                    } else {
                        Option::<Cursor>::None
                    }
                })
            }),
    {
        self.draw_with_selected(width, height, None)
    }
}


/// Whether the candidate text equals the buffer's, line for line.
fn lines_equal(candidate: &Vec<Vec<char>>, buf: &Buffer) -> (r: bool)
    requires
        buf.wf(),
        buf.edit_state().core.wf(),
    ensures
        r == (crate::core_text::lines_view(candidate@) == buf.edit_state().core.lines),
{
    let n = candidate.len();
    if n != buf.len_lines() {
        proof {
            assert(crate::core_text::lines_view(candidate@).len() != buf.edit_state().core.lines.len());
        }
        return false;
    }
    let mut i: usize = 0;
    while i < n
        invariant
            0 <= i <= n,
            n == candidate@.len(),
            n == buf.edit_state().core.lines.len(),
            buf.wf(),
            buf.edit_state().core.wf(),
            forall|q: int| 0 <= q < i ==> (#[trigger] candidate@[q])@ == buf.edit_state().core.lines[q],
        decreases n - i,
    {
        let line = buf.line_at(i);
        let m = candidate[i].len();
        if m != line.len() {
            proof {
                assert(crate::core_text::lines_view(candidate@)[i as int]
                    != buf.edit_state().core.lines[i as int]);
            }
            return false;
        }
        let mut j: usize = 0;
        while j < m
            invariant
                0 <= j <= m,
                i < candidate@.len(),
                m == candidate@[i as int]@.len(),
                m == line@.len(),
                line@ == buf.edit_state().core.lines[i as int],
                forall|q: int| 0 <= q < j ==> candidate@[i as int]@[q] == line@[q],
            decreases m - j,
        {
            if candidate[i][j] != line[j] {
                proof {
                    assert(candidate@[i as int]@[j as int] != line@[j as int]);
                    assert(crate::core_text::lines_view(candidate@)[i as int]
                        != buf.edit_state().core.lines[i as int]);
                }
                return false;
            }
            j += 1;
        }
        proof {
            assert(candidate@[i as int]@ =~= line@);
        }
        i += 1;
    }
    proof {
        assert(crate::core_text::lines_view(candidate@) =~= buf.edit_state().core.lines);
    }
    true
}

/// The first diagnostic reported on `row`, scanning in report order.
pub open spec fn first_msg_on_line(msgs: Seq<CompilerMessage>, row: nat) -> Option<Seq<char>>
    decreases msgs.len(),
{
    if msgs.len() == 0 {
        None
    } else if msgs[0].line == row {
        Some(msgs[0].message@)
    } else {
        first_msg_on_line(msgs.skip(1), row)
    }
}

/// The final component of `path`: what follows its last separator.
pub open spec fn file_name_spec(path: Seq<char>) -> Seq<char>
    decreases path.len(),
{
    if path.len() == 0 {
        Seq::empty()
    } else if path.last() == '/' {
        Seq::empty()
    } else {
        file_name_spec(path.drop_last()).push(path.last())
    }
}

/// Characters after the last dot of `name`; empty when there is no dot.
pub open spec fn dot_suffix(name: Seq<char>) -> Seq<char>
    decreases name.len(),
{
    if name.len() == 0 {
        Seq::empty()
    } else if name.last() == '.' {
        Seq::empty()
    } else if name.contains('.') {
        dot_suffix(name.drop_last()).push(name.last())
    } else {
        Seq::empty()
    }
}

/// Whether `name` has a dot after its first character: the one dot of a
/// hidden file's name marks no extension.
pub open spec fn has_late_dot(name: Seq<char>) -> bool {
    exists|k: int| 1 <= k < name.len() && name[k] == '.'
}

/// The extension of a path: what follows the last dot of its final
/// component. A component without a dot, or whose only dot leads it, has
/// none.
pub open spec fn extension_spec(path: Seq<char>) -> Seq<char> {
    let name = file_name_spec(path);
    if has_late_dot(name) {
        dot_suffix(name)
    } else {
        Seq::empty()
    }
}

/// The extension of a path, as `extension_spec` defines it.
pub fn extension_of(path: &String) -> (r: String)
    ensures
        r@ == extension_spec(path@),
{
    let s = path.as_str();
    let n = s.unicode_len();
    let mut chars: Vec<char> = Vec::new();
    let mut name_len: usize = 0;
    let mut seen_dot = false;
    let mut seen_late = false;
    let mut i: usize = 0;
    while i < n
        invariant
            0 <= i <= n,
            n == s@.len(),
            name_len <= i,
            name_len == file_name_spec(s@.take(i as int)).len(),
            seen_dot == file_name_spec(s@.take(i as int)).contains('.'),
            seen_late == has_late_dot(file_name_spec(s@.take(i as int))),
            seen_dot ==> chars@ == dot_suffix(file_name_spec(s@.take(i as int))),
            !seen_dot ==> chars@ == Seq::<char>::empty(),
        decreases n - i,
    {
        let ghost name = file_name_spec(s@.take(i as int));
        proof {
            assert(s@.take(i as int + 1).drop_last() =~= s@.take(i as int));
            assert(s@.take(i as int + 1).last() == s@[i as int]);
        }
        let c = s.get_char(i);
        if c == '/' {
            chars = Vec::new();
            name_len = 0;
            seen_dot = false;
            seen_late = false;
            proof {
                assert(file_name_spec(s@.take(i as int + 1)) =~= Seq::<char>::empty());
            }
        } else {
            let ghost name2 = name.push(c);
            proof {
                assert(file_name_spec(s@.take(i as int + 1)) == name2);
            }
            if c == '.' {
                chars = Vec::new();
                seen_dot = true;
                if name_len >= 1 {
                    seen_late = true;
                }
                name_len += 1;
                proof {
                    assert(name2[name.len() as int] == '.');
                    assert(name2.contains('.'));
                    if name.len() >= 1 {
                        assert(has_late_dot(name2));
                    } else {
                        assert(!has_late_dot(name2)) by {
                            if has_late_dot(name2) {
                                let k = choose|k: int|
                                    1 <= k < name2.len() && name2[k] == '.';
                                assert(false);
                            }
                        }
                    }
                }
            } else {
                if seen_dot {
                    chars.push(c);
                }
                name_len += 1;
                proof {
                    lemma_dot_push(name, c);
                }
            }
        }
        i += 1;
    }
    proof {
        assert(s@.take(n as int) =~= s@);
        if seen_late {
            let name = file_name_spec(s@);
            let k = choose|k: int| 1 <= k < name.len() && name[k] == '.';
            assert(name.contains('.'));
        }
    }
    if seen_late {
        chars_to_string(&chars)
    } else {
        String::new()
    }
}

/// Appending a character other than a dot or a separator keeps the dots as
/// they are: the dot suffix grows by that character once a dot was seen.
proof fn lemma_dot_push(s: Seq<char>, c: char)
    requires
        c != '.',
    ensures
        s.push(c).contains('.') == s.contains('.'),
        has_late_dot(s.push(c)) == has_late_dot(s),
        dot_suffix(s.push(c)) == if s.push(c).contains('.') {
            dot_suffix(s).push(c)
        } else {
            Seq::<char>::empty()
        },
{
    let t = s.push(c);
    assert(t.drop_last() =~= s);
    if s.contains('.') {
        let k = choose|k: int| 0 <= k < s.len() && s[k] == '.';
        assert(t[k] == '.');
        assert(t.contains('.'));
    }
    if t.contains('.') {
        let k = choose|k: int| 0 <= k < t.len() && t[k] == '.';
        assert(k < s.len() && s[k] == '.');
        assert(s.contains('.'));
    }
    if has_late_dot(s) {
        let k = choose|k: int| 1 <= k < s.len() && s[k] == '.';
        assert(t[k] == '.');
        assert(has_late_dot(t));
    }
    if has_late_dot(t) {
        let k = choose|k: int| 1 <= k < t.len() && t[k] == '.';
        assert(k < s.len() && s[k] == '.');
        assert(has_late_dot(s));
    }
}

} // verus!
