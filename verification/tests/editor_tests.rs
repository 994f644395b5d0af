use accepted::buffer::{extension_of, get_rows, Buffer};
use accepted::buffer_mode::BufferMode;
use accepted::core_text::{Cursor, CursorRange, TextCore};
use accepted::mode::InputEvent;
use accepted::next_indent_level;

fn lines_of(texts: &[&str]) -> Vec<Vec<char>> {
    texts.iter().map(|t| t.chars().collect()).collect()
}

fn buffer_text(buf: &Buffer) -> Vec<String> {
    let mut out = Vec::new();
    for row in 0..buf.len_lines() {
        out.push(buf.line_at(row).iter().collect());
    }
    out
}

#[test]
fn next_indent_level_counts_levels() {
    assert_eq!(next_indent_level("        foo", 4), 2);
    assert_eq!(next_indent_level("    foo {", 4), 2);
    assert_eq!(next_indent_level("foo(", 4), 1);
    assert_eq!(next_indent_level("foo[", 2), 1);
    assert_eq!(next_indent_level("bar", 4), 0);
    assert_eq!(next_indent_level("", 4), 0);
}

#[test]
fn get_rows_wraps_by_display_width() {
    assert_eq!(get_rows("abc", 10), 1);
    assert_eq!(get_rows("abcdef", 3), 3);
    assert_eq!(get_rows("", 5), 1);
    // a full-width character takes two columns
    assert_eq!(get_rows("\u{3042}\u{3042}", 3), 2);
}

#[test]
fn text_core_edits_bump_version_once() {
    let mut core = TextCore::new();
    assert_eq!(core.buffer_changed(), 0);
    core.insert_char('a');
    assert_eq!(core.buffer_changed(), 1);
    core.insert_char('\n');
    assert_eq!(core.buffer_changed(), 2);
    assert_eq!(core.len_lines(), 2);
    // deleting at the very end of the text is a no-op and commits nothing
    core.delete_at_cursor();
    assert_eq!(core.buffer_changed(), 2);
    core.cursor_up();
    core.delete_at_cursor();
    assert_eq!(core.buffer_changed(), 3);
    assert_eq!(core.line_at(0).len(), 0);
}

#[test]
fn cursor_range_contains_is_inclusive() {
    let rg = CursorRange {
        start: Cursor { row: 1, col: 2 },
        end: Cursor { row: 3, col: 0 },
    };
    assert!(rg.contains(Cursor { row: 1, col: 2 }));
    assert!(rg.contains(Cursor { row: 2, col: 99 }));
    assert!(rg.contains(Cursor { row: 3, col: 0 }));
    assert!(!rg.contains(Cursor { row: 1, col: 1 }));
    assert!(!rg.contains(Cursor { row: 3, col: 1 }));
}

#[test]
fn insert_mode_types_text() {
    let mut bm = BufferMode::new(Buffer::new());
    for e in [
        InputEvent::Char('i'),
        InputEvent::Char('h'),
        InputEvent::Char('e'),
        InputEvent::Char('y'),
        InputEvent::Esc,
    ] {
        assert!(!bm.event(e));
    }
    assert_eq!(buffer_text(bm.buf()), vec!["hey".to_string()]);
}

#[test]
fn macro_committed_and_replayed_matches_manual_edits() {
    // record: enter insert, type "ab", return to normal with a commit
    let mut bm = BufferMode::new(Buffer::new());
    for e in [
        InputEvent::Char('i'),
        InputEvent::Char('a'),
        InputEvent::Char('b'),
        InputEvent::Esc,
    ] {
        bm.event(e);
    }
    assert_eq!(buffer_text(bm.buf()), vec!["ab".to_string()]);
    // replay the committed macro: the same edits happen again
    bm.event(InputEvent::Char('.'));
    assert_eq!(buffer_text(bm.buf()), vec!["abab".to_string()]);
    // manual replay of the same events gives the same text
    let mut manual = BufferMode::new(Buffer::new());
    for e in [
        InputEvent::Char('i'),
        InputEvent::Char('a'),
        InputEvent::Char('b'),
        InputEvent::Esc,
        InputEvent::Char('i'),
        InputEvent::Char('a'),
        InputEvent::Char('b'),
        InputEvent::Esc,
    ] {
        manual.event(e);
    }
    assert_eq!(buffer_text(bm.buf()), buffer_text(manual.buf()));
}

#[test]
fn quit_command_exits() {
    let mut bm = BufferMode::new(Buffer::new());
    assert!(!bm.event(InputEvent::Char(':')));
    assert!(!bm.event(InputEvent::Char('q')));
    assert!(bm.event(InputEvent::Char('\n')));
}

#[test]
fn search_mode_accumulates_pattern() {
    let mut bm = BufferMode::new(Buffer::new());
    bm.event(InputEvent::Char('/'));
    bm.event(InputEvent::Char('f'));
    bm.event(InputEvent::Char('o'));
    bm.event(InputEvent::Char('o'));
    bm.event(InputEvent::Char('\n'));
    assert_eq!(bm.buf().search, vec!['f', 'o', 'o']);
}

#[test]
fn visual_yank_same_row() {
    let mut buf = Buffer::new();
    buf.open("t.txt".to_string(), lines_of(&["hello"]));
    let mut bm = BufferMode::new(buf);
    // select "ell": move to col 1, anchor, move right twice plus one, yank
    bm.event(InputEvent::Char('l'));
    bm.event(InputEvent::Char('v'));
    bm.event(InputEvent::Char('l'));
    bm.event(InputEvent::Char('l'));
    bm.event(InputEvent::Char('l'));
    bm.event(InputEvent::Char('y'));
    assert_eq!(bm.buf().yank.content, "ell".to_string());
    assert!(!bm.buf().yank.insert_newline);
}

#[test]
fn visual_yank_across_rows_is_linewise() {
    let mut buf = Buffer::new();
    buf.open("t.txt".to_string(), lines_of(&["ab", "cd"]));
    let mut bm = BufferMode::new(buf);
    bm.event(InputEvent::Char('v'));
    bm.event(InputEvent::Char('j'));
    bm.event(InputEvent::Char('y'));
    assert_eq!(bm.buf().yank.content, "ab\ncd".to_string());
    assert!(bm.buf().yank.insert_newline);
}

#[test]
fn end_to_end_edit_invalidates_from_edited_row() {
    // open a 3-line document, render it fully, move the cursor to the
    // second line, insert "x", and check version and watermark
    let mut buf = Buffer::new();
    buf.open("t.txt".to_string(), lines_of(&["one", "two", "three"]));
    let v0 = buf.buffer_changed();
    let (grid, _) = buf.draw_with_selected(80, 10, None);
    assert_eq!(grid.len(), 3);
    let mut bm = BufferMode::new(buf);
    bm.event(InputEvent::Char('j'));
    bm.event(InputEvent::Char('i'));
    bm.event(InputEvent::Char('x'));
    bm.event(InputEvent::Esc);
    // exactly one committed edit
    assert_eq!(bm.buf().buffer_changed(), v0 + 1);
    // the dirty-from watermark dropped to the edited row (0-indexed row 1)
    assert_eq!(bm.buf().core.dirty_from(), 1);
    // a render recomputes rows 1..3 and shows the edit
    let (grid2, cursor) = bm.buf.draw_with_selected(80, 10, None);
    let row1: String = grid2[1].iter().map(|c| c.0).collect();
    assert_eq!(row1, "xtwo");
    assert_eq!(cursor, Some(Cursor { row: 1, col: 1 }));
    assert_eq!(grid2.len(), 3);
}

#[test]
fn extension_is_what_follows_the_last_dot() {
    assert_eq!(extension_of(&"main.rs".to_string()), "rs".to_string());
    assert_eq!(extension_of(&"a.b.tar.gz".to_string()), "gz".to_string());
    assert_eq!(extension_of(&"Makefile".to_string()), "".to_string());
    assert_eq!(extension_of(&"dot.".to_string()), "".to_string());
    // only the final component counts, and a leading dot marks no extension
    assert_eq!(extension_of(&"src.old/main".to_string()), "".to_string());
    assert_eq!(extension_of(&"dir/lib.rs".to_string()), "rs".to_string());
    assert_eq!(extension_of(&".rs".to_string()), "".to_string());
    assert_eq!(extension_of(&"dir/.hidden".to_string()), "".to_string());
    assert_eq!(extension_of(&"..rs".to_string()), "rs".to_string());
}

#[test]
fn format_commits_only_a_real_change() {
    let mut buf = Buffer::new();
    buf.open("t.txt".to_string(), lines_of(&["a", "b"]));
    let v = buf.buffer_changed();
    // identical output: no edit committed
    assert!(!buf.format(lines_of(&["a", "b"])));
    assert_eq!(buf.buffer_changed(), v);
    // a different output replaces the text in one committed edit
    assert!(buf.format(lines_of(&["a", "b", ""])));
    assert_eq!(buf.buffer_changed(), v + 1);
    assert_eq!(buf.len_lines(), 3);
}

#[test]
fn indent_prepends_the_configured_width() {
    let mut buf = Buffer::new();
    buf.open("t.txt".to_string(), lines_of(&["fn x", "body"]));
    let v = buf.buffer_changed();
    buf.indent();
    assert_eq!(buf.buffer_changed(), v + 1);
    let row0: String = buf.line_at(0).iter().collect();
    assert_eq!(row0, "    fn x");
    assert_eq!(buf.cursor(), Cursor { row: 0, col: 4 });
}
