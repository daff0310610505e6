use serial_monitor::layout::{cursor_column, input_scroll, transcript_height};

#[test]
fn the_border_takes_two_rows() {
    assert_eq!(transcript_height(24), 22);
    assert_eq!(transcript_height(3), 1);
    assert_eq!(transcript_height(2), 0);
    assert_eq!(transcript_height(1), 0);
    assert_eq!(transcript_height(0), 0);
    assert_eq!(transcript_height(u16::MAX), 65533);
}

#[test]
fn the_input_line_scrolls_once_the_cursor_reaches_the_edge() {
    assert_eq!(input_scroll(0, 80), 0);
    assert_eq!(input_scroll(77, 80), 0);
    assert_eq!(input_scroll(78, 80), 1);
    assert_eq!(input_scroll(100, 80), 23);
    assert_eq!(input_scroll(5, 0), 5);
    assert_eq!(input_scroll(5, 2), 5);
    assert_eq!(input_scroll(5, 3), 5);
    assert_eq!(input_scroll(5, 4), 4);
    assert_eq!(input_scroll(65536 + 90, 80), 13);
}

#[test]
fn the_cursor_is_drawn_inside_the_border() {
    assert_eq!(cursor_column(1, 0, 0), 2);
    assert_eq!(cursor_column(1, 10, 0), 12);
    assert_eq!(cursor_column(1, 100, 23), 79);
    assert_eq!(cursor_column(4, 3, 10), 5);
    assert_eq!(cursor_column(u16::MAX, 3, 0), u16::MAX);
    assert_eq!(cursor_column(60000, 60000, 0), u16::MAX);
    assert_eq!(cursor_column(0, 65536 + 7, 0), 8);
}
