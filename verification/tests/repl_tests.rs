use rustpython_launcher::repl::{
    prompt_text, ExecStatus, LineDisposition, ReadEvent, ReplState, SessionAction,
};

fn submits(d: LineDisposition, expect_forced: bool) -> bool {
    match d {
        LineDisposition::Submit { forced } => forced == expect_forced,
        LineDisposition::Gather => false,
    }
}

#[test]
fn simple_expression_executes_and_returns_fresh() {
    let mut st = ReplState::new();
    let d = st.absorb_line("1 + 1");
    assert!(submits(d, false));
    assert_eq!(st.buffer, "1 + 1\n");
    // the collaborator compiles and runs the buffer to completion
    let report = st.settle(false, ExecStatus::Success);
    assert!(!report);
    assert!(!st.continuing);
    assert_eq!(st.buffer, "");
    // a following empty line submits at once from the fresh state
    let d = st.absorb_line("");
    assert!(submits(d, false));
    assert_eq!(st.buffer, "\n");
}

#[test]
fn compound_header_enters_continuation() {
    let mut st = ReplState::new();
    let d = st.absorb_line("if 1:");
    assert!(submits(d, false));
    // the compiler signals incomplete input at end of stream
    let report = st.settle(false, ExecStatus::NeedsMore);
    assert!(!report);
    assert!(st.continuing);
    assert_eq!(st.buffer, "if 1:\n");

    // a non-empty line keeps gathering without a compile attempt
    let d = st.absorb_line("    x = 1");
    assert!(matches!(d, LineDisposition::Gather));
    assert!(st.continuing);
    assert_eq!(st.buffer, "if 1:\n    x = 1\n");

    // an empty line forces a compile attempt instead of waiting for more
    let d = st.absorb_line("");
    assert!(submits(d, true));
    assert!(!st.continuing);
    assert_eq!(st.buffer, "if 1:\n    x = 1\n\n");
    let report = st.settle(true, ExecStatus::Success);
    assert!(!report);
    assert!(!st.continuing);
    assert_eq!(st.buffer, "");
}

#[test]
fn forced_incomplete_is_surfaced_not_gathered() {
    let mut st = ReplState::new();
    st.absorb_line("if 1:");
    st.settle(false, ExecStatus::NeedsMore);
    let d = st.absorb_line("");
    assert!(submits(d, true));
    // still incomplete under a forced submit: surfaced like any failure
    let report = st.settle(true, ExecStatus::NeedsMore);
    assert!(report);
    assert!(!st.continuing);
    assert_eq!(st.buffer, "");
}

#[test]
fn syntax_error_reports_clears_and_stays_alive() {
    let mut st = ReplState::new();
    let d = st.absorb_line("1 +");
    assert!(submits(d, false));
    let report = st.settle(false, ExecStatus::Failure);
    assert!(report);
    assert!(!st.continuing);
    assert_eq!(st.buffer, "");
    // the loop goes on: the next line is read from a fresh state
    let d = st.absorb_line("2");
    assert!(submits(d, false));
    assert_eq!(st.buffer, "2\n");
}

#[test]
fn interrupt_clears_pending_buffer_and_returns_to_primary_prompt() {
    let mut st = ReplState::new();
    st.absorb_line("if 1:");
    st.settle(false, ExecStatus::NeedsMore);
    assert!(st.continuing);
    st.interrupt();
    assert!(!st.continuing);
    assert_eq!(st.buffer, "");
    // back on the primary prompt
    let p = prompt_text(st.continuing, Some(String::from(">>> ")), Some(String::from("... ")));
    assert_eq!(p, ">>> ");
}

#[test]
fn read_events_drive_the_session() {
    let mut st = ReplState::new();
    let a = st.handle_read(&ReadEvent::Line(String::from("if 1:")));
    assert!(matches!(a, SessionAction::Submit { forced: false }));
    assert_eq!(st.buffer, "if 1:\n");
    st.settle(false, ExecStatus::NeedsMore);
    assert!(st.continuing);

    // an interrupt during the read clears the pending buffer, is reported,
    // and the session goes on
    let a = st.handle_read(&ReadEvent::Interrupted);
    assert!(matches!(a, SessionAction::ReportInterrupt));
    assert_eq!(st.buffer, "");
    assert!(!st.continuing);

    // end of input ends the session, as does any other read failure
    let a = st.handle_read(&ReadEvent::EndOfInput);
    assert!(matches!(a, SessionAction::Shutdown));
    let a = st.handle_read(&ReadEvent::Failed);
    assert!(matches!(a, SessionAction::Shutdown));
    assert_eq!(st.buffer, "");
    assert!(!st.continuing);
}

#[test]
fn read_line_events_follow_continuation() {
    let mut st = ReplState::new();
    st.handle_read(&ReadEvent::Line(String::from("while 1:")));
    st.settle(false, ExecStatus::NeedsMore);
    let a = st.handle_read(&ReadEvent::Line(String::from("    pass")));
    assert!(matches!(a, SessionAction::ReadMore));
    let a = st.handle_read(&ReadEvent::Line(String::new()));
    assert!(matches!(a, SessionAction::Submit { forced: true }));
}

#[test]
fn prompt_choice_and_absence() {
    assert_eq!(
        prompt_text(false, Some(String::from(">>> ")), Some(String::from("... "))),
        ">>> "
    );
    assert_eq!(
        prompt_text(true, Some(String::from(">>> ")), Some(String::from("... "))),
        "... "
    );
    assert_eq!(prompt_text(false, None, Some(String::from("... "))), "");
    assert_eq!(prompt_text(true, Some(String::from(">>> ")), None), "");
}
