use nebula_term::LINE_HEIGHT_PX;
use nebula_term::Session;
use nebula_term::SessionAction;
use nebula_term::SessionEvent;
use nebula_term::SessionStatus;
use nebula_term::run;

#[test]
fn fresh_session_shows_the_banner() {
    let session = Session::new(24, 80);
    let text = session.grid().to_string();
    assert!(text.starts_with("Nebula Terminal"));
    assert_eq!(session.grid().cursor_x(), 0);
    assert_eq!(session.grid().cursor_y(), 1);
    assert!(matches!(session.status(), SessionStatus::Running));
}

#[test]
fn bytes_publish_a_snapshot_and_clear_the_dirty_flag() {
    let mut session = Session::new(24, 80);
    let out = session.on_event(&SessionEvent::Bytes(b"hi".to_vec()));
    assert!(matches!(out.action, SessionAction::Continue));
    let update = out.update.expect("a fresh grid publishes");
    assert!(update.text.contains("hi"));
    assert_eq!(update.cursor_px_x, 2 * nebula_term::CELL_WIDTH_PX);
    assert_eq!(update.cursor_px_y, LINE_HEIGHT_PX);
    // Nothing changed since the publish: the next empty batch stays quiet.
    let out = session.on_event(&SessionEvent::Bytes(Vec::new()));
    assert!(out.update.is_none());
}

#[test]
fn status_report_bytes_flow_back_to_the_writer() {
    let mut session = Session::new(24, 80);
    let out = session.on_event(&SessionEvent::Bytes(b"\x1b[6n".to_vec()));
    // The banner leaves the cursor on row 2, column 1.
    assert_eq!(out.writeback, b"\x1b[2;1R".to_vec());
}

#[test]
fn eof_prints_the_notice_and_asks_for_a_respawn() {
    let mut session = Session::new(24, 80);
    let out = session.on_event(&SessionEvent::Eof);
    assert!(matches!(out.action, SessionAction::Respawn));
    assert!(out.update.is_none());
    assert!(session.grid().to_string().contains("[Shell exited, restarting...]"));
}

#[test]
fn respawn_resets_the_grid_and_publishes_the_banner() {
    let events = vec![
        SessionEvent::Bytes(b"old output\r\n".to_vec()),
        SessionEvent::Eof,
        SessionEvent::RespawnOk,
    ];
    let (session, last) = run(24, 80, &events);
    let update = last.expect("the respawn publishes");
    assert!(update.text.starts_with("Nebula Terminal"));
    assert!(!update.text.contains("old output"));
    assert_eq!(update.cursor_px_x, 0);
    assert_eq!(update.cursor_px_y, LINE_HEIGHT_PX);
    assert_eq!(session.grid().scrollback_len(), 0);
    assert!(matches!(session.status(), SessionStatus::Running));
}

#[test]
fn respawn_failure_stops_the_session() {
    let events = vec![SessionEvent::Eof, SessionEvent::RespawnFailed];
    let (session, _) = run(24, 80, &events);
    assert!(matches!(session.status(), SessionStatus::Stopped));
    assert!(session.grid().to_string().contains("[Failed to create PTY]"));
}

#[test]
fn read_error_stops_the_session_without_respawn() {
    let mut session = Session::new(24, 80);
    let out = session.on_event(&SessionEvent::ReadError);
    assert!(matches!(out.action, SessionAction::Stop));
    assert!(matches!(session.status(), SessionStatus::Stopped));
}

#[test]
fn a_stopped_session_ignores_further_bytes() {
    let events = vec![
        SessionEvent::Bytes(b"first".to_vec()),
        SessionEvent::ReadError,
        SessionEvent::Bytes(b"second".to_vec()),
    ];
    let (session, last) = run(24, 80, &events);
    let text = session.grid().to_string();
    assert!(text.contains("first"));
    assert!(!text.contains("second"));
    let update = last.expect("the first batch published");
    assert!(update.text.contains("first"));
    assert!(!update.text.contains("second"));
}
