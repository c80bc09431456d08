use tailview::clock::{now, ClockTime};
use tailview::cursor::CursorInfo;
use tailview::escape::scan_escape;
use tailview::noecho::{without_echo, NoEcho};
use tailview::terminal::{
    alternative_screen_buffer, clear_screen, goto, push_decimal, repeat_ascii, show_cursor,
};
use tailview::viewer::{display_name, TimeLabel, Viewer};
use tailview::width::{char_width, str_width};

fn chars(s: &str) -> Vec<char> {
    s.chars().collect()
}

fn text(v: &[char]) -> String {
    v.iter().collect()
}

fn viewer(cols: usize, rows: usize, timestamps: bool) -> Viewer {
    Viewer::new("log.txt".to_string(), timestamps, false, cols, rows)
}

fn noon() -> ClockTime {
    ClockTime::new(12, 34, 56)
}

fn rows_ended(s: &str) -> usize {
    s.matches("\x1b[K\n").count()
}

#[test]
fn width_of_ascii_wide_and_combining() {
    assert_eq!(char_width('a'), 1);
    assert_eq!(char_width('中'), 2);
    assert_eq!(char_width('\u{301}'), 0);
    assert_eq!(char_width('\u{7}'), 1);
    assert_eq!(str_width(&chars("a中b")), 4);
    assert_eq!(str_width(&chars("")), 0);
}

#[test]
fn escape_span_ends_after_final_byte() {
    let line = chars("\x1b[1;31mX");
    assert_eq!(scan_escape(&line, 0), 7);
    let line = chars("ab\x1b[Kc");
    assert_eq!(scan_escape(&line, 2), 5);
}

#[test]
fn escape_span_cut_at_end_of_line() {
    assert_eq!(scan_escape(&chars("\x1b[12"), 0), 4);
    assert_eq!(scan_escape(&chars("\x1b"), 0), 1);
    assert_eq!(scan_escape(&chars("\x1b["), 0), 2);
}

#[test]
fn cursor_newline_pins_at_last_row() {
    let mut c = CursorInfo::new(80, 3);
    assert_eq!(c.term_lines, 2);
    c.add(5);
    c.newline();
    assert_eq!((c.cursor_line, c.cursor_col), (1, 0));
    c.newline();
    c.newline();
    assert_eq!((c.cursor_line, c.cursor_col), (2, 0));
}

#[test]
fn cursor_fits_leaves_last_column() {
    let mut c = CursorInfo::new(10, 5);
    c.add(8);
    assert!(c.fits(1));
    assert!(!c.fits(2));
    c.clear();
    assert_eq!((c.cursor_line, c.cursor_col), (0, 0));
}

#[test]
fn cursor_save_restore_moves_back() {
    let mut c = CursorInfo::new(10, 5);
    c.newline();
    c.add(3);
    c.save();
    c.newline();
    let mut out = Vec::new();
    c.restore(&mut out);
    assert_eq!((c.cursor_line, c.cursor_col), (1, 3));
    assert_eq!(text(&out), "\x1b[2;4H");
}

#[test]
fn terminal_sequences() {
    let mut out = Vec::new();
    goto(&mut out, 0, 119);
    assert_eq!(text(&out), "\x1b[1;120H");
    let mut out = Vec::new();
    clear_screen(&mut out, true);
    assert_eq!(text(&out), "\x1b[2J\x1b[3J\x1b[1;1H");
    let mut out = Vec::new();
    clear_screen(&mut out, false);
    show_cursor(&mut out, false);
    show_cursor(&mut out, true);
    alternative_screen_buffer(&mut out, true);
    alternative_screen_buffer(&mut out, false);
    assert_eq!(
        text(&out),
        "\x1b[2J\x1b[1;1H\x1b[?25l\x1b[?25h\x1b[?1049h\x1b[?1049l"
    );
    let mut out = Vec::new();
    push_decimal(&mut out, 0);
    push_decimal(&mut out, 4096);
    assert_eq!(text(&out), "04096");
    assert_eq!(text(&repeat_ascii(' ', 3)), "   ");
    assert_eq!(repeat_ascii('-', 0).len(), 0);
}

#[test]
fn echo_flag_cleared_others_kept() {
    assert_eq!(without_echo(0o17), 0o7);
    assert_eq!(without_echo(0o7), 0o7);
}

#[test]
fn no_echo_guard_begins_and_ends() {
    let guard = NoEcho::begin();
    drop(guard);
}

#[test]
fn clock_now_is_a_time_of_day() {
    let t = now();
    assert!(t.hour < 24 && t.minute < 60 && t.second < 60);
}

#[test]
fn bytes_without_line_feed_are_buffered() {
    let mut v = viewer(80, 24, false);
    v.add_bytes(b"abc", noon());
    v.add_bytes(b"d\re", noon());
    assert!(v.take_output().is_empty());
    assert_eq!(text(&v.line), "abcde");
    assert_eq!((v.cursor.cursor_line, v.cursor.cursor_col), (0, 0));
}

#[test]
fn invalid_bytes_become_replacement_characters() {
    let mut v = viewer(80, 24, false);
    v.add_bytes(&[b'a', 0xff, b'b'], noon());
    assert_eq!(text(&v.line), "a\u{fffd}b");
}

#[test]
fn hello_round_trip() {
    let mut v = viewer(80, 24, false);
    v.time = noon();
    v.add_bytes(b"hello\n", noon());
    let out = text(&v.take_output());
    assert!(out.starts_with("hello\x1b[K\n\x1b[7m"));
    assert_eq!(rows_ended(&out), 1);
    assert!(out.ends_with("Started at 12:34:56\x1b[27m\x1b[2;1H"));
    assert_eq!((v.cursor.cursor_line, v.cursor.cursor_col), (1, 0));
    assert!(v.line.is_empty());
}

#[test]
fn round_trip_on_last_row_stays_there() {
    let mut v = viewer(80, 2, false);
    v.add_bytes(b"one\ntwo\n", noon());
    assert_eq!((v.cursor.cursor_line, v.cursor.cursor_col), (1, 0));
}

#[test]
fn empty_line_still_ends_a_row() {
    let mut v = viewer(80, 24, false);
    v.add_bytes(b"\n", noon());
    let out = text(&v.take_output());
    assert!(out.starts_with("\x1b[K\n"));
    assert_eq!(v.cursor.cursor_line, 1);
}

#[test]
fn timestamp_prefix_is_dimmed() {
    let mut v = viewer(80, 24, true);
    v.add_bytes(b"x\n", ClockTime::new(7, 5, 9));
    let out = text(&v.take_output());
    assert!(out.starts_with("\x1b[2m07:05:09 \x1b[0mx\x1b[K\n"));
}

#[test]
fn short_line_takes_one_row() {
    let mut v = viewer(20, 24, false);
    v.add_bytes(b"0123456789abcdefghi\n", noon());
    let out = text(&v.take_output());
    assert_eq!(rows_ended(&out), 1);
    assert_eq!(v.cursor.cursor_line, 1);
}

#[test]
fn wide_line_wraps_into_rows() {
    let mut v = viewer(10, 24, false);
    v.add_bytes(&[b'x'; 20], noon());
    v.add_bytes(b"\n", noon());
    let out = text(&v.take_output());
    // 20 columns over rows of 9 usable columns
    assert_eq!(rows_ended(&out), 3);
    assert!(out.starts_with("xxxxxxxxx\x1b[K\nxxxxxxxxx\x1b[K\nxx\x1b[K\n"));
    assert_eq!(v.cursor.cursor_line, 3);
}

#[test]
fn continuation_rows_indented_by_timestamp_width() {
    let mut v = viewer(20, 24, true);
    v.add_bytes(&[b'y'; 15], noon());
    v.add_bytes(b"\n", noon());
    let out = text(&v.take_output());
    assert!(out.starts_with(
        "\x1b[2m12:34:56 \x1b[0myyyyyyyyyy\x1b[K\n         yyyyy\x1b[K\n"
    ));
}

#[test]
fn wide_characters_wrap_whole() {
    let mut v = viewer(5, 24, false);
    v.add_bytes("中中中\n".as_bytes(), noon());
    let out = text(&v.take_output());
    assert!(out.starts_with("中中\x1b[K\n中\x1b[K\n"));
}

#[test]
fn character_wider_than_terminal_is_still_written() {
    let mut v = viewer(2, 24, false);
    v.add_bytes("中\n".as_bytes(), noon());
    let out = text(&v.take_output());
    assert!(out.starts_with("\x1b[K\n中\x1b[K\n"));
}

#[test]
fn escape_sequence_never_split_by_wrap() {
    let mut v = viewer(4, 24, false);
    v.add_bytes(b"abc\x1b[31mde\n", noon());
    let out = text(&v.take_output());
    assert!(out.starts_with("abc\x1b[31m\x1b[K\nde\x1b[K\n"));
}

#[test]
fn escape_sequences_take_no_columns() {
    let mut v = viewer(6, 24, false);
    v.add_bytes(b"\x1b[1mabcde\x1b[0m\n", noon());
    let out = text(&v.take_output());
    assert_eq!(rows_ended(&out), 1);
}

#[test]
fn truncation_resets_cursor_and_drops_partial_line() {
    let mut v = viewer(80, 24, false);
    v.add_bytes(b"first\n", noon());
    v.add_bytes(b"partial", noon());
    v.take_output();
    let t = ClockTime::new(1, 2, 3);
    v.on_change_at(&[], 13, 0, t);
    assert_eq!((v.cursor.cursor_line, v.cursor.cursor_col), (0, 0));
    assert!(v.line.is_empty());
    assert_eq!(v.what_time, TimeLabel::Created);
    assert_eq!(v.time, t);
    let out = text(&v.take_output());
    assert!(out.starts_with("\x1b[2J\x1b[1;1H\x1b[7m"));
    assert!(out.contains("   File truncated"));
    assert!(out.contains("Created at 01:02:03"));
    assert!(!out.contains("partial"));
}

#[test]
fn truncation_discards_scrollback_when_asked() {
    let mut v = Viewer::new("log.txt".to_string(), false, true, 80, 24);
    v.on_change_at(&[], 4, 0, noon());
    assert!(text(&v.take_output()).starts_with("\x1b[2J\x1b[3J\x1b[1;1H"));
}

#[test]
fn empty_file_from_start_is_no_truncation() {
    let mut v = viewer(80, 24, false);
    v.on_change_at(b"", 0, 0, noon());
    assert!(v.take_output().is_empty());
    assert_eq!(v.what_time, TimeLabel::Started);
}

#[test]
fn growth_is_appended() {
    let mut v = viewer(80, 24, false);
    v.on_change_at(b"ab\ncd", 0, 5, noon());
    assert_eq!(v.cursor.cursor_line, 1);
    assert_eq!(text(&v.line), "cd");
}

#[test]
fn header_layout() {
    let mut v = viewer(40, 10, false);
    v.time = noon();
    v.print_header(false);
    let out = text(&v.take_output());
    let blanks = " ".repeat(40);
    let expected = format!(
        "\x1b[7m\x1b[10;1H{}\x1b[10;2HViewing \x1b[1mlog.txt\x1b[22m\x1b[10;21HStarted at 12:34:56\x1b[27m\x1b[1;1H",
        blanks
    );
    assert_eq!(out, expected);
}

#[test]
fn header_on_narrow_terminal_starts_at_first_column() {
    let mut v = viewer(10, 10, false);
    v.print_header(false);
    let out = text(&v.take_output());
    assert!(out.contains("\x1b[10;1HStarted at "));
}

#[test]
fn header_twice_is_identical() {
    let mut v = viewer(50, 10, false);
    v.add_bytes(b"line\nmore", noon());
    v.take_output();
    let before = (v.cursor.cursor_line, v.cursor.cursor_col);
    v.print_header(false);
    let first = v.take_output();
    v.print_header(false);
    let second = v.take_output();
    assert_eq!(first, second);
    assert_eq!((v.cursor.cursor_line, v.cursor.cursor_col), before);
}

#[test]
fn new_at_stores_start_time() {
    let t = ClockTime::new(23, 59, 58);
    let mut v = Viewer::new_at("a.log".to_string(), true, false, 80, 24, t);
    assert_eq!(v.time, t);
    assert_eq!(v.what_time, TimeLabel::Started);
    assert_eq!((v.cursor.cursor_line, v.cursor.cursor_col), (0, 0));
    assert!(v.line.is_empty());
    v.print_header(false);
    assert!(text(&v.take_output()).contains("Started at 23:59:58"));
}

#[test]
fn home_directory_abbreviated() {
    assert_eq!(display_name("/home/ann/logs/app.log", Some("/home/ann")), "~/logs/app.log");
    assert_eq!(display_name("/var/log/syslog", Some("/home/ann")), "/var/log/syslog");
    assert_eq!(display_name("/home/ann/x", None), "/home/ann/x");
}
