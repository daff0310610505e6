use serial_monitor::session::{
    command_bytes, log_failure_report, write_failure_report, Key, Phase, Session,
    BLINK_INTERVAL_MS, KEY_POLL_MS, TICK_SLEEP_MS,
};
use serial_monitor::transcript::Category;

const T0: &str = "2024-05-01T12:00:00+02:00";

fn type_text(s: &mut Session, text: &str) {
    for c in text.chars() {
        let effects = s.handle_key_at(Key::Char(c), T0);
        assert_eq!(effects.send, None);
        assert_eq!(effects.log, None);
    }
}

#[test]
fn a_new_session_runs_and_is_empty() {
    let s = Session::new(true);
    assert_eq!(s.phase(), Phase::Running);
    assert!(s.is_running());
    assert!(s.cursor_visible());
    assert!(s.logging());
    assert_eq!(s.transcript().len(), 0);
    assert_eq!(s.transcript().scroll().offset, 0);
    assert_eq!(s.editor().input().text(), "");
    assert_eq!(s.editor().history().len(), 0);
    assert!(!Session::new(false).logging());
}

#[test]
fn a_line_from_the_device_is_shown_and_logged() {
    let mut s = Session::new(true);
    let effects = s.receive_at("temp=21", T0);
    assert_eq!(effects.send, None);
    assert_eq!(
        effects.log,
        Some(String::from("[2024-05-01T12:00:00+02:00] [Arduino] temp=21\n"))
    );
    assert_eq!(s.transcript().len(), 1);
    let line = &s.transcript().lines()[0];
    assert_eq!(line.text(), "[Arduino] temp=21");
    assert_eq!(line.category(), Category::Inbound);
    assert_eq!(line.timestamp(), T0);
}

#[test]
fn a_line_with_the_error_marker_is_shown_as_an_error() {
    let mut s = Session::new(false);
    let effects = s.receive_at("ERROR: sensor", T0);
    assert_eq!(effects.log, None);
    assert_eq!(s.transcript().lines()[0].category(), Category::InboundError);
    assert_eq!(s.transcript().lines()[0].text(), "[Arduino] ERROR: sensor");
}

#[test]
fn a_submitted_line_is_sent_shown_logged_and_remembered() {
    let mut s = Session::new(true);
    type_text(&mut s, "led on");
    let effects = s.handle_key_at(Key::Enter, T0);
    assert_eq!(effects.send, Some(String::from("led on")));
    assert_eq!(
        effects.log,
        Some(String::from("[2024-05-01T12:00:00+02:00] > led on\n"))
    );
    assert_eq!(s.transcript().len(), 1);
    assert_eq!(s.transcript().lines()[0].text(), "> led on");
    assert_eq!(s.transcript().lines()[0].category(), Category::Outbound);
    assert_eq!(s.editor().input().text(), "");
    assert_eq!(s.editor().input().cursor(), 0);
    assert_eq!(s.editor().history().entries(), &[String::from("led on")]);
}

#[test]
fn without_a_log_nothing_is_logged() {
    let mut s = Session::new(false);
    type_text(&mut s, "x");
    let effects = s.handle_key_at(Key::Enter, T0);
    assert_eq!(effects.send, Some(String::from("x")));
    assert_eq!(effects.log, None);
    assert_eq!(s.transcript().len(), 1);
}

#[test]
fn a_blank_submission_touches_neither_history_nor_transcript() {
    for blank in ["", " ", " \t  "] {
        let mut s = Session::new(true);
        s.receive_at("hello", T0);
        type_text(&mut s, "cmd");
        s.handle_key_at(Key::Enter, T0);
        type_text(&mut s, blank);
        let effects = s.handle_key_at(Key::Enter, T0);
        assert_eq!(effects.send, None);
        assert_eq!(effects.log, None);
        assert_eq!(s.transcript().len(), 2);
        assert_eq!(s.editor().history().entries(), &[String::from("cmd")]);
        assert_eq!(s.editor().input().text(), blank);
        assert!(s.is_running());
    }
}

#[test]
fn editing_keys_reach_the_editor() {
    let mut s = Session::new(false);
    type_text(&mut s, "abd");
    s.handle_key_at(Key::Left, T0);
    s.handle_key_at(Key::Char('c'), T0);
    assert_eq!(s.editor().input().text(), "abcd");
    assert_eq!(s.editor().input().cursor(), 3);
    s.handle_key_at(Key::Right, T0);
    s.handle_key_at(Key::Right, T0);
    assert_eq!(s.editor().input().cursor(), 4);
    s.handle_key_at(Key::Backspace, T0);
    assert_eq!(s.editor().input().text(), "abc");
    assert_eq!(s.transcript().len(), 0);
}

#[test]
fn history_keys_walk_back_and_forth() {
    let mut s = Session::new(false);
    for cmd in ["one", "two", "three"] {
        type_text(&mut s, cmd);
        s.handle_key_at(Key::Enter, T0);
    }
    s.handle_key_at(Key::Up, T0);
    assert_eq!(s.editor().input().text(), "three");
    s.handle_key_at(Key::Up, T0);
    s.handle_key_at(Key::Up, T0);
    assert_eq!(s.editor().input().text(), "one");
    s.handle_key_at(Key::Up, T0);
    assert_eq!(s.editor().input().text(), "one");
    s.handle_key_at(Key::Down, T0);
    assert_eq!(s.editor().input().text(), "two");
    s.handle_key_at(Key::Down, T0);
    s.handle_key_at(Key::Down, T0);
    assert_eq!(s.editor().input().text(), "");
    assert_eq!(s.editor().history().recalled(), None);
    assert_eq!(s.editor().history().len(), 3);
    assert_eq!(s.transcript().len(), 3);
}

#[test]
fn page_keys_scroll_by_three() {
    let mut s = Session::new(false);
    for i in 0..10 {
        s.receive_at(&format!("l{}", i), T0);
    }
    s.handle_key_at(Key::PageUp, T0);
    assert_eq!(s.transcript().scroll().offset, 3);
    s.handle_key_at(Key::PageUp, T0);
    s.handle_key_at(Key::PageUp, T0);
    s.handle_key_at(Key::PageUp, T0);
    assert_eq!(s.transcript().scroll().offset, 9);
    s.handle_key_at(Key::PageDown, T0);
    assert_eq!(s.transcript().scroll().offset, 6);
    s.handle_key_at(Key::PageDown, T0);
    s.handle_key_at(Key::PageDown, T0);
    s.handle_key_at(Key::PageDown, T0);
    assert_eq!(s.transcript().scroll().offset, 0);
}

#[test]
fn new_lines_do_not_pull_the_view_back_down() {
    let mut s = Session::new(false);
    for i in 0..10 {
        s.receive_at(&format!("l{}", i), T0);
    }
    s.handle_key_at(Key::PageUp, T0);
    s.receive_at("more", T0);
    type_text(&mut s, "cmd");
    s.handle_key_at(Key::Enter, T0);
    assert_eq!(s.transcript().scroll().offset, 3);
}

#[test]
fn escape_ends_the_session_for_good() {
    let mut s = Session::new(true);
    s.receive_at("before", T0);
    type_text(&mut s, "draft");
    let effects = s.handle_key_at(Key::Escape, T0);
    assert_eq!(effects.send, None);
    assert_eq!(effects.log, None);
    assert_eq!(s.phase(), Phase::Terminating);
    assert!(!s.is_running());
    let visible = s.cursor_visible();
    for key in [
        Key::Char('x'),
        Key::Backspace,
        Key::Enter,
        Key::Up,
        Key::PageUp,
        Key::Escape,
        Key::Other,
    ] {
        let effects = s.handle_key_at(key, T0);
        assert_eq!(effects.send, None);
        assert_eq!(effects.log, None);
    }
    let effects = s.receive_at("after", T0);
    assert_eq!(effects.log, None);
    assert!(!s.blink(10_000));
    assert_eq!(s.cursor_visible(), visible);
    assert_eq!(s.phase(), Phase::Terminating);
    assert_eq!(s.transcript().len(), 1);
    assert_eq!(s.editor().input().text(), "draft");
    assert_eq!(s.editor().history().len(), 0);
}

#[test]
fn unused_keys_change_nothing() {
    let mut s = Session::new(true);
    type_text(&mut s, "ab");
    let effects = s.handle_key_at(Key::Other, T0);
    assert_eq!(effects.send, None);
    assert_eq!(effects.log, None);
    assert_eq!(s.editor().input().text(), "ab");
    assert_eq!(s.editor().input().cursor(), 2);
    assert!(s.is_running());
}

#[test]
fn the_cursor_blinks_every_half_second() {
    assert_eq!(BLINK_INTERVAL_MS, 500);
    let mut s = Session::new(false);
    assert!(!s.blink(0));
    assert!(!s.blink(499));
    assert!(s.cursor_visible());
    assert!(s.blink(500));
    assert!(!s.cursor_visible());
    assert!(s.blink(1200));
    assert!(s.cursor_visible());
    assert!(!s.blink(10));
    assert!(s.cursor_visible());
}

#[test]
fn a_round_polls_and_rests_ten_milliseconds() {
    assert_eq!(KEY_POLL_MS, 10);
    assert_eq!(TICK_SLEEP_MS, 10);
}

#[test]
fn a_failure_is_shown_in_the_transcript() {
    let mut s = Session::new(true);
    let effects = s.report_at("Serial write error: broken pipe", T0);
    assert_eq!(effects.send, None);
    assert_eq!(
        effects.log,
        Some(String::from(
            "[2024-05-01T12:00:00+02:00] Serial write error: broken pipe\n"
        ))
    );
    let line = &s.transcript().lines()[0];
    assert_eq!(line.text(), "Serial write error: broken pipe");
    assert_eq!(line.category(), Category::InboundError);
    assert_eq!(line.timestamp(), T0);
}

#[test]
fn failures_are_worded_by_their_source() {
    assert_eq!(write_failure_report("timed out"), "Serial write error: timed out");
    assert_eq!(log_failure_report("disk full"), "Log write error: disk full");
}

#[test]
fn a_command_goes_out_with_a_line_feed() {
    assert_eq!(command_bytes("led on"), b"led on\n".to_vec());
    assert_eq!(command_bytes(""), b"\n".to_vec());
    assert_eq!(command_bytes("µ"), vec![0xc2, 0xb5, 0x0a]);
}

#[test]
fn the_transcript_of_a_session_is_bounded() {
    let mut s = Session::new(false);
    for i in 1..=1005 {
        s.receive_at(&format!("{}", i), T0);
    }
    assert_eq!(s.transcript().len(), 1000);
    assert_eq!(s.transcript().lines()[0].text(), "[Arduino] 6");
    assert_eq!(s.transcript().lines()[999].text(), "[Arduino] 1005");
}

#[test]
fn a_failure_of_the_log_is_shown_but_not_logged() {
    let mut s = Session::new(true);
    s.report_log_failure_at("disk full", T0);
    assert_eq!(s.transcript().len(), 1);
    let line = &s.transcript().lines()[0];
    assert_eq!(line.text(), "Log write error: disk full");
    assert_eq!(line.category(), Category::InboundError);
    assert_eq!(line.timestamp(), T0);
}

#[test]
fn a_failure_of_the_log_is_not_taken_in_after_the_end() {
    let mut s = Session::new(true);
    s.handle_key_at(Key::Escape, T0);
    s.report_log_failure_at("disk full", T0);
    assert_eq!(s.transcript().len(), 0);
}

#[test]
fn only_a_submission_that_is_not_blank_makes_a_line() {
    let mut s = Session::new(false);
    assert!(!s.key_makes_line(Key::Enter));
    type_text(&mut s, "  ");
    assert!(!s.key_makes_line(Key::Enter));
    type_text(&mut s, "go");
    assert!(s.key_makes_line(Key::Enter));
    for key in [
        Key::Char('x'),
        Key::Backspace,
        Key::Left,
        Key::Right,
        Key::Up,
        Key::Down,
        Key::PageUp,
        Key::PageDown,
        Key::Escape,
        Key::Other,
    ] {
        assert!(!s.key_makes_line(key));
    }
    s.handle_key_at(Key::Escape, T0);
    assert!(!s.key_makes_line(Key::Enter));
}

#[test]
fn the_time_of_a_key_that_makes_no_line_is_not_looked_at() {
    let keys = [
        Key::Char('x'),
        Key::Backspace,
        Key::Left,
        Key::Up,
        Key::Down,
        Key::PageUp,
        Key::Enter,
        Key::Other,
    ];
    let mut with_time = Session::new(true);
    let mut without = Session::new(true);
    with_time.receive_at("hello", T0);
    without.receive_at("hello", T0);
    for key in keys {
        assert!(!without.key_makes_line(key));
        let a = with_time.handle_key_at(key, T0);
        let b = without.handle_key_at(key, "");
        assert_eq!(a.send, b.send);
        assert_eq!(a.log, b.log);
        assert_eq!(with_time.editor().input().text(), without.editor().input().text());
        assert_eq!(with_time.editor().input().cursor(), without.editor().input().cursor());
        assert_eq!(with_time.transcript().len(), without.transcript().len());
        assert_eq!(
            with_time.transcript().scroll().offset,
            without.transcript().scroll().offset
        );
    }
    assert_eq!(without.transcript().len(), 1);
}

#[test]
fn a_time_read_from_the_clock_is_kept_as_given() {
    let stamp = chrono::Local::now().to_rfc3339();
    let mut s = Session::new(true);
    let effects = s.receive_at("ready", &stamp);
    assert_eq!(s.transcript().lines()[0].timestamp(), stamp);
    assert_eq!(effects.log, Some(format!("[{}] [Arduino] ready\n", stamp)));
}
