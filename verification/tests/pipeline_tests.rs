use accepted::buffer::Buffer;
use accepted::compile::{CompileId, CompilePipeline, CompileResult, CompilerMessage};
use accepted::core_text::{Cursor, CursorRange};

fn result_with(success: bool, line: usize, message: &str) -> CompileResult {
    CompileResult {
        success,
        messages: vec![CompilerMessage {
            line,
            span: CursorRange {
                start: Cursor { row: line, col: 0 },
                end: Cursor { row: line, col: 3 },
            },
            message: message.to_string(),
        }],
    }
}

#[test]
fn resubmitting_the_same_pair_starts_at_most_one_invocation() {
    let mut p = CompilePipeline::new();
    let id = CompileId { id: 7, is_optimize: false };
    assert!(p.submit(id));
    assert!(!p.submit(id));
    assert!(!p.submit(id));
    // a different optimization flag on the same version is a new request
    assert!(p.submit(CompileId { id: 7, is_optimize: true }));
}

#[test]
fn last_received_result_wins_whatever_its_id() {
    let mut p = CompilePipeline::new();
    let old_id = CompileId { id: 1, is_optimize: false };
    let new_id = CompileId { id: 2, is_optimize: false };
    assert!(p.submit(old_id));
    assert!(p.submit(new_id));
    assert!(p.is_running());
    // the newer id's result arrives first; the stale one later still wins
    p.deliver(new_id, result_with(true, 0, "fresh"));
    p.deliver(old_id, result_with(false, 0, "stale"));
    assert!(!p.is_running());
    let (got, res) = p.poll().unwrap();
    assert_eq!(*got, old_id);
    assert!(!res.success);
}

#[test]
fn buffer_compile_deduplicates_by_version_and_flag() {
    let mut buf = Buffer::new();
    let lines = vec![vec!['a']];
    let task = buf.open("main.rs".to_string(), lines);
    let task = task.expect("opening submits the first compile");
    assert_eq!(task.path, "main.rs".to_string());
    assert!(!task.id.is_optimize);
    // same version, same flag: no second invocation
    assert!(buf.compile(false).is_none());
    // same version, other flag: a new invocation
    let opt = buf.compile(true).expect("distinct pair compiles");
    assert!(opt.id.is_optimize);
}

#[test]
fn buffer_reports_diagnostics_on_cursor_line() {
    let mut buf = Buffer::new();
    let task = buf.open("main.rs".to_string(), vec![vec!['a'], vec!['b']]).unwrap();
    buf.poll_compile_message(vec![(task.id, result_with(false, 0, "broken here"))]);
    assert_eq!(buf.last_compile_success(), Some(false));
    assert!(!buf.is_compiling());
    // cursor is on row 0 after open
    assert_eq!(buf.compiler_message_on_cursor(), Some("broken here"));
    assert!(buf.is_annotate(Cursor { row: 0, col: 1 }));
    assert!(!buf.is_annotate(Cursor { row: 1, col: 0 }));
}

#[test]
fn pathless_compile_still_updates_the_key() {
    let mut buf = Buffer::new();
    // no path: nothing to run, but the pair becomes the key
    assert!(buf.compile(false).is_none());
    assert!(!buf.is_compiling());
    buf.set_path("late.rs".to_string());
    // the same (version, flag) pair is suppressed by the earlier submission
    assert!(buf.compile(false).is_none());
    // a distinct pair compiles now that a path is set
    assert!(buf.compile(true).is_some());
}

#[test]
fn declined_task_is_no_longer_running() {
    let mut buf = Buffer::new();
    let task = buf.open("x.c".to_string(), vec![vec!['y']]);
    assert!(task.is_some());
    assert!(buf.is_compiling());
    // the caller has no compiler to run it: hand the invocation back
    buf.decline_compile();
    assert!(!buf.is_compiling());
}
