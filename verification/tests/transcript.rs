use serial_monitor::transcript::{
    Category, TranscriptBuffer, TranscriptLine, MAX_LINES, SCROLL_STEP,
};

fn numbered(n: usize) -> TranscriptLine {
    TranscriptLine::inbound(&format!("line {}", n), "2024-05-01T12:00:00+00:00")
}

fn texts(lines: &[TranscriptLine]) -> Vec<String> {
    lines.iter().map(|l| l.text().to_string()).collect()
}

fn filled(n: usize) -> TranscriptBuffer {
    let mut t = TranscriptBuffer::new();
    for i in 1..=n {
        t.append(numbered(i));
    }
    t
}

#[test]
fn the_capacity_is_a_thousand_lines() {
    assert_eq!(MAX_LINES, 1000);
    assert_eq!(SCROLL_STEP, 3);
}

#[test]
fn a_thousand_and_five_lines_leave_the_newest_thousand() {
    let t = filled(1005);
    assert_eq!(t.len(), 1000);
    let all = t.lines();
    assert_eq!(all[0].text(), "[Arduino] line 6");
    assert_eq!(all[999].text(), "[Arduino] line 1005");
    for (i, line) in all.iter().enumerate() {
        assert_eq!(line.text(), format!("[Arduino] line {}", i + 6));
    }
}

#[test]
fn the_length_never_passes_the_capacity() {
    let mut t = TranscriptBuffer::new();
    for i in 1..=2500 {
        t.append(numbered(i));
        assert!(t.len() <= MAX_LINES);
        assert_eq!(t.len(), i.min(MAX_LINES));
    }
}

#[test]
fn eviction_drops_the_oldest_line_and_lowers_the_scroll_offset_by_one() {
    let mut t = filled(1000);
    t.scroll_up();
    t.scroll_up();
    assert_eq!(t.scroll().offset, 6);
    t.append(numbered(1001));
    assert_eq!(t.len(), 1000);
    assert_eq!(t.scroll().offset, 5);
    assert_eq!(t.lines()[0].text(), "[Arduino] line 2");
    assert_eq!(t.lines()[999].text(), "[Arduino] line 1001");
}

#[test]
fn eviction_leaves_a_scroll_offset_of_zero_at_zero() {
    let mut t = filled(1000);
    assert_eq!(t.scroll().offset, 0);
    t.append(numbered(1001));
    assert_eq!(t.scroll().offset, 0);
    assert_eq!(t.len(), 1000);
}

#[test]
fn new_lines_below_capacity_leave_the_scroll_offset_alone() {
    let mut t = filled(10);
    t.scroll_up();
    assert_eq!(t.scroll().offset, 3);
    t.append(numbered(11));
    t.append(numbered(12));
    assert_eq!(t.scroll().offset, 3);
}

#[test]
fn the_window_starts_height_plus_offset_before_the_end() {
    let t = filled(20);
    assert_eq!(
        texts(t.visible_window(5, 0)),
        vec![
            "[Arduino] line 16",
            "[Arduino] line 17",
            "[Arduino] line 18",
            "[Arduino] line 19",
            "[Arduino] line 20"
        ]
    );
    let w = t.visible_window(5, 3);
    assert_eq!(w.len(), 8);
    assert_eq!(w[0].text(), "[Arduino] line 13");
    assert_eq!(w[7].text(), "[Arduino] line 20");
}

#[test]
fn the_window_is_the_whole_transcript_when_it_is_short() {
    let t = filled(4);
    assert_eq!(t.visible_window(10, 0).len(), 4);
    assert_eq!(t.visible_window(3, 2).len(), 4);
    assert_eq!(t.visible_window(usize::MAX, usize::MAX).len(), 4);
    assert_eq!(t.visible_window(0, 0).len(), 0);
    assert_eq!(TranscriptBuffer::new().visible_window(5, 0).len(), 0);
}

#[test]
fn the_window_follows_the_scroll_state() {
    let mut t = filled(30);
    t.scroll_up();
    let w = t.visible(10);
    assert_eq!(w.len(), 13);
    assert_eq!(w[0].text(), "[Arduino] line 18");
}

#[test]
fn scrolling_up_stops_at_the_oldest_line() {
    let mut t = filled(8);
    t.scroll_up();
    assert_eq!(t.scroll().offset, 3);
    t.scroll_up();
    assert_eq!(t.scroll().offset, 6);
    t.scroll_up();
    assert_eq!(t.scroll().offset, 7);
    t.scroll_up();
    assert_eq!(t.scroll().offset, 7);
}

#[test]
fn scrolling_down_stops_at_the_newest_line() {
    let mut t = filled(8);
    t.scroll_up();
    t.scroll_up();
    t.scroll_down();
    assert_eq!(t.scroll().offset, 3);
    t.scroll_down();
    assert_eq!(t.scroll().offset, 0);
    t.scroll_down();
    assert_eq!(t.scroll().offset, 0);
}

#[test]
fn an_empty_transcript_cannot_be_scrolled() {
    let mut t = TranscriptBuffer::new();
    t.scroll_up();
    assert_eq!(t.scroll().offset, 0);
    t.scroll_down();
    assert_eq!(t.scroll().offset, 0);
}

#[test]
fn lines_from_the_device_are_marked_and_classified() {
    let ok = TranscriptLine::inbound("temp=21", "t0");
    assert_eq!(ok.text(), "[Arduino] temp=21");
    assert_eq!(ok.category(), Category::Inbound);
    assert_eq!(ok.timestamp(), "t0");
    let bad = TranscriptLine::inbound("sensor ERROR 4", "t1");
    assert_eq!(bad.text(), "[Arduino] sensor ERROR 4");
    assert_eq!(bad.category(), Category::InboundError);
    assert_eq!(TranscriptLine::inbound("ERROR", "t").category(), Category::InboundError);
    assert_eq!(TranscriptLine::inbound("xERRORx", "t").category(), Category::InboundError);
    assert_eq!(TranscriptLine::inbound("error", "t").category(), Category::Inbound);
    assert_eq!(TranscriptLine::inbound("ERRO", "t").category(), Category::Inbound);
    assert_eq!(TranscriptLine::inbound("ERR OR", "t").category(), Category::Inbound);
    assert_eq!(TranscriptLine::inbound("", "t").category(), Category::Inbound);
    assert_eq!(TranscriptLine::inbound("EERRORR", "t").category(), Category::InboundError);
}

#[test]
fn lines_from_the_operator_are_marked() {
    let line = TranscriptLine::outbound("led on", "t2");
    assert_eq!(line.text(), "> led on");
    assert_eq!(line.category(), Category::Outbound);
    assert_eq!(line.timestamp(), "t2");
    assert_eq!(TranscriptLine::outbound("ERROR", "t").category(), Category::Outbound);
}

#[test]
fn a_log_entry_is_the_time_in_brackets_then_the_text() {
    let line = TranscriptLine::inbound("ready", "1996-12-19T16:39:57-08:00");
    assert_eq!(line.log_entry(), "[1996-12-19T16:39:57-08:00] [Arduino] ready\n");
    let line = TranscriptLine::outbound("go", "2024-01-01T00:00:00+00:00");
    assert_eq!(line.log_entry(), "[2024-01-01T00:00:00+00:00] > go\n");
}

#[test]
fn a_line_can_be_made_from_its_parts() {
    let line = TranscriptLine::new("note", Category::Outbound, "t9");
    assert_eq!(line.text(), "note");
    assert_eq!(line.category(), Category::Outbound);
    assert_eq!(line.timestamp(), "t9");
    assert_eq!(line.log_entry(), "[t9] note\n");
    let copy = line.clone();
    assert_eq!(copy.text(), "note");
}
