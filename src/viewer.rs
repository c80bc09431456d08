//! The viewer: assembles appended bytes into lines, renders them through the
//! layout rules and keeps the status bar on the last terminal row.
use vstd::prelude::*;
use crate::clock::{hms_text, now, push_hms, ClockTime};
use crate::cursor::CursorInfo;
use crate::escape::{escape_end, scan_escape};
use crate::layout::{
    count_line_feeds, lemma_count_line_feeds_add, lemma_count_no_line_feed, lemma_render_line_feeds,
    fits_after_indent, lemma_render_rows_advance, lemma_short_line_no_wrap, lemma_wide_line_rows, render_from, row_end, spaces,
    visible_width,
};
use crate::terminal::{clear_screen, clear_screen_seq, goto, goto_seq, push_slice, push_text, repeat_ascii};
use crate::width::{char_width, is_printable_ascii, lemma_ascii_width, seq_width, str_width};

verus! {

/// What the time shown in the status bar stands for.
#[derive(Clone, Copy, Debug, PartialEq, Eq)]
pub enum TimeLabel {
    /// The viewer was started then.
    Started,
    /// The file was found truncated then.
    Created,
}

/// The word shown for a label in the status bar.
pub open spec fn label_text(l: TimeLabel) -> Seq<char> {
    match l {
        TimeLabel::Started => "Started"@,
        TimeLabel::Created => "Created"@,
    }
}

/// What `String::from_utf8_lossy` decodes a byte sequence to.
pub uninterp spec fn utf8_lossy(b: Seq<u8>) -> Seq<char>;

/// Relies on `String::from_utf8_lossy`: bytes decoded as UTF-8, each invalid
/// sequence replaced by U+FFFD. A line feed only ever comes from the byte
/// 0x0A, and no bytes decode to no characters.
#[verifier::external_body]
fn decode_lossy(data: &[u8]) -> (r: Vec<char>)
    ensures
        r@ == utf8_lossy(data@),
        data@.len() == 0 ==> r@.len() == 0,
        !data@.contains(10u8) ==> !r@.contains('\n'),
{
    String::from_utf8_lossy(data).chars().collect()
}

/// What `str::replace` returns for a text, a pattern and a replacement.
pub uninterp spec fn replaced(s: Seq<char>, from: Seq<char>, to: Seq<char>) -> Seq<char>;

/// Relies on `str::replace`: every non-overlapping match of `from` in `s`,
/// from left to right, replaced by `to`.
#[verifier::external_body]
fn replace_all(s: &str, from: &str, to: &str) -> (r: String)
    ensures
        r@ == replaced(s@, from@, to@),
{
    s.replace(from, to)
}

/// The watched file's name as shown in the status bar: where the home
/// directory `home` is known, each occurrence of it in `path` is written `~`.
pub fn display_name(path: &str, home: Option<&str>) -> (r: String)
    ensures
        r@ == (match home {
            Some(h) => replaced(path@, h@, "~"@),
            None => path@,
        }),
{
    match home {
        Some(h) => replace_all(path, h, "~"),
        None => String::from_str(path),
    }
}

/// The viewer's state: the watched file's display name, settings, the
/// line not yet written, the cursor record, the status-bar time and the
/// terminal output produced and not yet taken.
pub struct Viewer {
    pub file_name: String,
    pub timestamps: bool,
    pub discard_old: bool,
    pub line: Vec<char>,
    pub cursor: CursorInfo,
    pub time: ClockTime,
    pub what_time: TimeLabel,
    pub out: Vec<char>,
}

/// The viewer's state as values.
pub struct ViewerView {
    pub file_name: Seq<char>,
    pub timestamps: bool,
    pub discard_old: bool,
    pub line: Seq<char>,
    pub cursor: CursorInfo,
    pub time: ClockTime,
    pub what_time: TimeLabel,
    pub out: Seq<char>,
}

impl View for Viewer {
    type V = ViewerView;

    open spec fn view(&self) -> ViewerView {
        ViewerView {
            file_name: self.file_name@,
            timestamps: self.timestamps,
            discard_old: self.discard_old,
            line: self.line@,
            cursor: self.cursor,
            time: self.time,
            what_time: self.what_time,
            out: self.out@,
        }
    }
}

/// `HH:MM:SS ` as put before a line.
pub open spec fn stamp_text(t: ClockTime) -> Seq<char> {
    hms_text(t).push(' ')
}

/// The timestamp before a line, dimmed.
pub open spec fn prefix_text(t: ClockTime) -> Seq<char> {
    "\x1b[2m"@ + stamp_text(t) + "\x1b[0m"@
}

/// Column at which a status-bar time text of length `len` starts, so that
/// one column stays free after it; 0 where the row is too narrow.
pub open spec fn time_column(cols: nat, len: nat) -> nat {
    if len < cols {
        (cols - len - 1) as nat
    } else {
        0
    }
}

impl ViewerView {
    /// The cursor is within the scrolling region at the start of a row,
    /// the pending line holds no line terminator, the time is valid.
    pub open spec fn wf(self) -> bool {
        &&& self.cursor.wf()
        &&& self.cursor.cursor_col == 0
        &&& self.time.wf()
        &&& forall|k: int| 0 <= k < self.line.len() ==> self.line[k] != '\n' && self.line[k] != '\r'
    }

    /// `<Started|Created> at HH:MM:SS`.
    pub open spec fn time_text(self) -> Seq<char> {
        label_text(self.what_time) + " at "@ + hms_text(self.time)
    }

    /// The status bar in reverse video on the row below the scrolling
    /// region.
    pub open spec fn bar_text(self, truncated: bool) -> Seq<char> {
        let row = self.cursor.term_lines as nat;
        let cols = self.cursor.term_cols as nat;
        "\x1b[7m"@ + goto_seq(row, 0) + spaces(cols) + goto_seq(row, 1) + "Viewing \x1b[1m"@
            + self.file_name + "\x1b[22m"@ + (if truncated {
            "   File truncated"@
        } else {
            Seq::empty()
        }) + goto_seq(row, time_column(cols, self.time_text().len())) + self.time_text()
            + "\x1b[27m"@
    }

    /// The status bar, then the cursor moved back to where it was.
    pub open spec fn header_text(self, truncated: bool) -> Seq<char> {
        self.bar_text(truncated) + goto_seq(self.cursor.cursor_line as nat, self.cursor.cursor_col as nat)
    }

    /// The state after the status bar was drawn.
    pub open spec fn after_header(self, truncated: bool) -> ViewerView {
        ViewerView {
            out: self.out + self.header_text(truncated),
            cursor: self.cursor.after_save(),
            ..self
        }
    }

    /// Width of the timestamp before each row of a line written at `t`.
    pub open spec fn indent(self, t: ClockTime) -> nat {
        if self.timestamps {
            seq_width(stamp_text(t))
        } else {
            0
        }
    }

    /// Layout of the pending line written at `t`, after its timestamp.
    pub open spec fn line_layout(self, t: ClockTime) -> (Seq<char>, CursorInfo, nat) {
        let indent = self.indent(t);
        render_from(self.line, 0, indent, self.cursor.after_add(indent))
    }

    /// What writing the pending line at `t` puts before the status bar:
    /// timestamp, laid-out content and a row end.
    pub open spec fn line_text(self, t: ClockTime) -> Seq<char> {
        (if self.timestamps {
            prefix_text(t)
        } else {
            Seq::empty()
        }) + self.line_layout(t).0 + row_end()
    }

    /// The state after the pending line was written at `t`, then the
    /// status bar.
    pub open spec fn after_print_line(self, t: ClockTime) -> ViewerView {
        ViewerView {
            out: self.out + self.line_text(t),
            line: Seq::empty(),
            cursor: self.line_layout(t).1.after_newline(),
            ..self
        }.after_header(false)
    }

    /// The state after the file was found truncated at `t`: screen cleared,
    /// pending line dropped, cursor home, status bar redrawn as truncated.
    pub open spec fn after_truncate(self, t: ClockTime) -> ViewerView {
        ViewerView {
            time: t,
            what_time: TimeLabel::Created,
            out: self.out + clear_screen_seq(self.discard_old),
            line: Seq::empty(),
            cursor: CursorInfo { cursor_line: 0, cursor_col: 0, ..self.cursor },
            ..self
        }.after_header(true)
    }

    /// The state after one decoded character: a line feed writes the
    /// pending line, a carriage return is dropped, anything else is kept.
    pub open spec fn after_char(self, c: char, t: ClockTime) -> ViewerView {
        if c == '\n' {
            self.after_print_line(t)
        } else if c == '\r' {
            self
        } else {
            ViewerView { line: self.line.push(c), ..self }
        }
    }

    /// The state after the characters `cs`, in order.
    pub open spec fn after_chars(self, cs: Seq<char>, t: ClockTime) -> ViewerView
        decreases cs.len(),
    {
        if cs.len() == 0 {
            self
        } else {
            self.after_chars(cs.drop_last(), t).after_char(cs.last(), t)
        }
    }

    /// The state after a change of the file: a truncation when the end
    /// moved to 0 from elsewhere, otherwise the new bytes appended.
    pub open spec fn after_change(self, data: Seq<u8>, old_position: u64, new_position: u64, t: ClockTime) -> ViewerView {
        if new_position == 0 && old_position != 0 {
            self.after_truncate(t)
        } else {
            self.after_chars(utf8_lossy(data), t)
        }
    }
}

impl Viewer {
    /// A viewer of the file shown as `file_name`, on a terminal of
    /// `term_rows` rows and `term_cols` columns, started at time `t`.
    pub fn new_at(
        file_name: String,
        timestamps: bool,
        discard_old: bool,
        term_cols: usize,
        term_rows: usize,
        t: ClockTime,
    ) -> (r: Viewer)
        requires
            term_rows >= 1,
            t.wf(),
        ensures
            r@.wf(),
            r@.file_name == file_name@,
            r@.timestamps == timestamps,
            r@.discard_old == discard_old,
            r@.line.len() == 0,
            r@.cursor == CursorInfo::new_spec(term_cols, term_rows),
            r@.time == t,
            r@.what_time == TimeLabel::Started,
            r@.out.len() == 0,
    {
        Viewer {
            file_name,
            timestamps,
            discard_old,
            line: Vec::new(),
            cursor: CursorInfo::new(term_cols, term_rows),
            time: t,
            what_time: TimeLabel::Started,
            out: Vec::new(),
        }
    }

    /// A viewer started now.
    pub fn new(file_name: String, timestamps: bool, discard_old: bool, term_cols: usize, term_rows: usize) -> (r: Viewer)
        requires
            term_rows >= 1,
        ensures
            r@.wf(),
            r@.file_name == file_name@,
            r@.timestamps == timestamps,
            r@.discard_old == discard_old,
            r@.line.len() == 0,
            r@.cursor == CursorInfo::new_spec(term_cols, term_rows),
            r@.what_time == TimeLabel::Started,
            r@.out.len() == 0,
    {
        Viewer::new_at(file_name, timestamps, discard_old, term_cols, term_rows, now())
    }

    /// Hands out the terminal output produced so far.
    pub fn take_output(&mut self) -> (r: Vec<char>)
        ensures
            r@ == old(self)@.out,
            final(self)@ == (ViewerView { out: Seq::empty(), ..old(self)@ }),
    {
        let mut r: Vec<char> = Vec::new();
        std::mem::swap(&mut r, &mut self.out);
        r
    }

    /// Writes the control sequence that starts at `i` of the pending line
    /// as it stands and returns the index just past it.
    fn print_escape(&mut self, i: usize) -> (r: usize)
        requires
            i < old(self).line@.len(),
        ensures
            r == escape_end(old(self).line@, i as int),
            i < r <= old(self).line@.len(),
            final(self)@ == (ViewerView { out: old(self)@.out + old(self).line@.subrange(i as int, r as int), ..old(self)@ }),
    {
        let end = scan_escape(&self.line, i);
        push_slice(&mut self.out, &self.line, i, end);
        end
    }

    /// Ends the current row.
    fn newline(&mut self)
        requires
            old(self).cursor.wf(),
        ensures
            final(self)@ == (ViewerView { out: old(self)@.out + row_end(), cursor: old(self).cursor.after_newline(), ..old(self)@ }),
            final(self).cursor.wf(),
    {
        self.out.push('\x1b');
        self.out.push('[');
        self.out.push('K');
        self.out.push('\n');
        self.cursor.newline();
        assert(self.out@ =~= old(self)@.out + row_end());
    }

    /// The status bar's characters.
    fn bar(&self, truncated: bool) -> (r: Vec<char>)
        requires
            self.cursor.wf(),
            self.time.wf(),
        ensures
            r@ == self@.bar_text(truncated),
    {
        let row = self.cursor.term_lines;
        let cols = self.cursor.term_cols;
        let mut time: Vec<char> = Vec::new();
        match self.what_time {
            TimeLabel::Started => push_text(&mut time, "Started"),
            TimeLabel::Created => push_text(&mut time, "Created"),
        }
        push_text(&mut time, " at ");
        push_hms(&mut time, self.time);
        assert(time@ == self@.time_text());
        let col = if time.len() < cols {
            cols - time.len() - 1
        } else {
            0
        };
        let mut h: Vec<char> = Vec::new();
        push_text(&mut h, "\x1b[7m");
        goto(&mut h, row, 0);
        let blanks = repeat_ascii(' ', cols);
        push_slice(&mut h, &blanks, 0, blanks.len());
        assert(blanks@.subrange(0, blanks@.len() as int) =~= spaces(cols as nat));
        goto(&mut h, row, 1);
        push_text(&mut h, "Viewing \x1b[1m");
        push_text(&mut h, self.file_name.as_str());
        push_text(&mut h, "\x1b[22m");
        let ghost before_flag = h@;
        if truncated {
            push_text(&mut h, "   File truncated");
        }
        assert(h@ == before_flag + (if truncated {
            "   File truncated"@
        } else {
            Seq::<char>::empty()
        }));
        goto(&mut h, row, col);
        push_slice(&mut h, &time, 0, time.len());
        assert(time@.subrange(0, time@.len() as int) =~= time@);
        push_text(&mut h, "\x1b[27m");
        h
    }

    /// Draws the status bar without moving the scrolling cursor.
    pub fn print_header(&mut self, truncated: bool)
        requires
            old(self).cursor.wf(),
            old(self).cursor.cursor_col < usize::MAX,
            old(self).time.wf(),
        ensures
            final(self)@ == old(self)@.after_header(truncated),
    {
        let ghost start = self@;
        self.cursor.save();
        let h = self.bar(truncated);
        push_slice(&mut self.out, &h, 0, h.len());
        assert(h@.subrange(0, h@.len() as int) =~= h@);
        self.cursor.restore(&mut self.out);
        assert(self@.out =~= start.out + start.header_text(truncated));
    }

    /// Writes the pending line at time `t`: the timestamp when enabled,
    /// the content wrapped before the last column with continuation rows
    /// indented by the timestamp's width, a row end, then the status bar.
    #[verifier::rlimit(30)]
    pub fn print_line_at(&mut self, t: ClockTime)
        requires
            old(self)@.wf(),
            t.wf(),
        ensures
            final(self)@ == old(self)@.after_print_line(t),
            final(self)@.wf(),
    {
        let ghost start = self@;
        let mut timestamp_size: usize = 0;
        if self.timestamps {
            let mut stamp: Vec<char> = Vec::new();
            push_hms(&mut stamp, t);
            stamp.push(' ');
            push_text(&mut self.out, "\x1b[2m");
            push_slice(&mut self.out, &stamp, 0, stamp.len());
            push_text(&mut self.out, "\x1b[0m");
            assert(stamp@.subrange(0, stamp@.len() as int) =~= stamp@);
            timestamp_size = str_width(&stamp);
            self.cursor.add(timestamp_size);
        }
        let ghost indent = start.indent(t);
        let ghost base = self@.out;
        let ghost full = start.line_layout(t);
        assert(base == start.out + (if start.timestamps {
            prefix_text(t)
        } else {
            Seq::<char>::empty()
        }));
        let timestamp_space = repeat_ascii(' ', timestamp_size);
        let mut i: usize = 0;
        while i < self.line.len()
            invariant
                self.line@ == start.line,
                self.file_name@ == start.file_name,
                self.timestamps == start.timestamps,
                self.discard_old == start.discard_old,
                self.time == start.time,
                self.what_time == start.what_time,
                self.cursor.wf(),
                self.cursor.term_lines == start.cursor.term_lines,
                self.cursor.term_cols == start.cursor.term_cols,
                i <= self.line@.len(),
                timestamp_size == indent,
                indent <= 27,
                timestamp_space@ == spaces(indent),
                self.cursor.cursor_col < self.cursor.term_cols || self.cursor.cursor_col <= indent + 3,
                self.out@ + render_from(self.line@, i as int, indent, self.cursor).0 == base + full.0,
                render_from(self.line@, i as int, indent, self.cursor).1 == full.1,
            decreases self.line@.len() - i,
        {
            let ghost before = self@;
            let ghost here = render_from(self.line@, i as int, indent, self.cursor);
            let c = self.line[i];
            if c == '\x1b' {
                i = self.print_escape(i);
                assert(self.out@ + render_from(self.line@, i as int, indent, self.cursor).0 =~= before.out + here.0);
            } else {
                let w = char_width(c);
                if !self.cursor.fits(w) {
                    self.newline();
                    push_slice(&mut self.out, &timestamp_space, 0, timestamp_space.len());
                    assert(timestamp_space@.subrange(0, timestamp_space@.len() as int) =~= spaces(indent));
                    self.cursor.add(timestamp_size);
                }
                self.out.push(c);
                self.cursor.add(w);
                i = i + 1;
                assert(self.out@ + render_from(self.line@, i as int, indent, self.cursor).0 =~= before.out + here.0);
            }
        }
        assert(render_from(self.line@, i as int, indent, self.cursor).0 =~= Seq::<char>::empty());
        assert(self.out@ =~= base + full.0);
        self.newline();
        self.line.clear();
        self.print_header(false);
        assert(base + full.0 + row_end() =~= start.out + start.line_text(t));
        assert(self@.out =~= start.after_print_line(t).out);
        assert(self@.line =~= start.after_print_line(t).line);
    }

    /// Writes the pending line, timestamped with the current time.
    pub fn print_line(&mut self)
        requires
            old(self)@.wf(),
        ensures
            exists|t: ClockTime| t.wf() && #[trigger] old(self)@.after_print_line(t) == final(self)@,
            final(self)@.wf(),
    {
        let t = now();
        self.print_line_at(t);
    }

    /// Handles a truncation found at time `t`: the status time becomes the
    /// creation time `t`, the screen is cleared, the pending line dropped
    /// and the status bar redrawn as truncated.
    pub fn truncate_at(&mut self, t: ClockTime)
        requires
            old(self)@.wf(),
            t.wf(),
        ensures
            final(self)@ == old(self)@.after_truncate(t),
            final(self)@.wf(),
    {
        let ghost start = self@;
        self.time = t;
        self.what_time = TimeLabel::Created;
        clear_screen(&mut self.out, self.discard_old);
        self.line.clear();
        self.cursor.clear();
        self.print_header(true);
        assert(self@.line =~= start.after_truncate(t).line);
    }

    /// Handles a truncation found now.
    pub fn truncate(&mut self)
        requires
            old(self)@.wf(),
        ensures
            exists|t: ClockTime| t.wf() && #[trigger] old(self)@.after_truncate(t) == final(self)@,
            final(self)@.wf(),
    {
        let t = now();
        self.truncate_at(t);
    }

    /// Feeds decoded characters; lines completed by them are written with
    /// the timestamp `t`.
    pub fn add_chars_at(&mut self, chars: &Vec<char>, t: ClockTime)
        requires
            old(self)@.wf(),
            t.wf(),
        ensures
            final(self)@ == old(self)@.after_chars(chars@, t),
            final(self)@.wf(),
    {
        let ghost start = self@;
        let mut i: usize = 0;
        while i < chars.len()
            invariant
                i <= chars@.len(),
                t.wf(),
                self@.wf(),
                self@ == start.after_chars(chars@.subrange(0, i as int), t),
            decreases chars@.len() - i,
        {
            let c = chars[i];
            assert(chars@.subrange(0, i + 1).drop_last() =~= chars@.subrange(0, i as int));
            if c == '\n' {
                self.print_line_at(t);
            } else if c != '\r' {
                self.line.push(c);
            }
            i = i + 1;
        }
        assert(chars@.subrange(0, i as int) =~= chars@);
    }

    /// Feeds bytes appended to the file, decoded as UTF-8 with invalid
    /// sequences replaced; lines completed by them carry the timestamp `t`.
    pub fn add_bytes(&mut self, data: &[u8], t: ClockTime)
        requires
            old(self)@.wf(),
            t.wf(),
        ensures
            final(self)@ == old(self)@.after_chars(utf8_lossy(data@), t),
            final(self)@.wf(),
            !data@.contains(10u8) ==> final(self)@.out == old(self)@.out && final(self)@.cursor == old(self)@.cursor
                && final(self)@.line == old(self)@.line + utf8_lossy(data@).filter(|c: char| c != '\r'),
            data@.len() == 0 ==> final(self)@ == old(self)@,
    {
        let chars = decode_lossy(data);
        proof {
            if !data@.contains(10u8) {
                lemma_no_flush_without_line_feed(self@, chars@, t);
            }
        }
        proof {
            if data@.len() == 0 {
                assert(chars@ =~= Seq::<char>::empty());
            }
        }
        self.add_chars_at(&chars, t);
    }

    /// Handles a change of the file, given the bytes read from the previous
    /// read offset `old_position` and the end offset `new_position` found
    /// after them; `t` is the time of the change.
    pub fn on_change_at(&mut self, data: &[u8], old_position: u64, new_position: u64, t: ClockTime)
        requires
            old(self)@.wf(),
            t.wf(),
        ensures
            final(self)@ == old(self)@.after_change(data@, old_position, new_position, t),
            final(self)@.wf(),
    {
        if new_position == 0 && old_position != 0 {
            self.truncate_at(t);
        } else {
            self.add_bytes(data, t);
        }
    }

    /// Handles a change of the file at the current time.
    pub fn on_change(&mut self, data: &[u8], old_position: u64, new_position: u64)
        requires
            old(self)@.wf(),
        ensures
            exists|t: ClockTime| t.wf() && #[trigger] old(self)@.after_change(data@, old_position, new_position, t) == final(self)@,
            final(self)@.wf(),
    {
        let t = now();
        self.on_change_at(data, old_position, new_position, t);
    }
}

/// Characters without a line feed never write a line: the output and the
/// cursor stay as they were, and every character but carriage returns is
/// kept in the pending line.
pub proof fn lemma_no_flush_without_line_feed(v: ViewerView, cs: Seq<char>, t: ClockTime)
    requires
        !cs.contains('\n'),
    ensures
        v.after_chars(cs, t).out == v.out,
        v.after_chars(cs, t).cursor == v.cursor,
        v.after_chars(cs, t).line == v.line + cs.filter(|c: char| c != '\r'),
        v.after_chars(cs, t) == (ViewerView { line: v.line + cs.filter(|c: char| c != '\r'), ..v }),
    decreases cs.len(),
{
    reveal_with_fuel(Seq::filter, 1);
    if cs.len() == 0 {
        assert(v.line + cs.filter(|c: char| c != '\r') =~= v.line);
    } else {
        let init = cs.drop_last();
        assert(!init.contains('\n')) by {
            if init.contains('\n') {
                let k = choose|k: int| 0 <= k < init.len() && init[k] == '\n';
                assert(cs[k] == '\n');
            }
        }
        assert(cs.last() != '\n') by {
            assert(cs[cs.len() - 1] == cs.last());
        }
        lemma_no_flush_without_line_feed(v, init, t);
        if cs.last() == '\r' {
        } else {
            assert(v.line + cs.filter(|c: char| c != '\r') =~= (v.line + init.filter(|c: char| c != '\r')).push(cs.last()));
        }
    }
}

/// A change that leaves the file empty after a non-zero read offset is a
/// truncation: the cursor goes home, the pending line is dropped without
/// being written, and the status bar shows the creation time `t`. The only
/// output is the screen clear and the status bar.
pub proof fn lemma_truncation_resets(v: ViewerView, data: Seq<u8>, old_position: u64, t: ClockTime)
    requires
        old_position != 0,
    ensures
        ({
            let w = v.after_change(data, old_position, 0, t);
            &&& w.cursor.cursor_line == 0
            &&& w.cursor.cursor_col == 0
            &&& w.line.len() == 0
            &&& w.what_time == TimeLabel::Created
            &&& w.time == t
            &&& w.out == v.out + clear_screen_seq(v.discard_old) + w.header_text(true)
        }),
{
    let w = v.after_change(data, old_position, 0, t);
    let c = ViewerView {
        time: t,
        what_time: TimeLabel::Created,
        out: v.out + clear_screen_seq(v.discard_old),
        line: Seq::empty(),
        cursor: CursorInfo { cursor_line: 0, cursor_col: 0, ..v.cursor },
        ..v
    };
    assert(w == c.after_header(true));
    assert(w.header_text(true) == c.header_text(true));
}

/// Drawing the status bar twice in a row writes the same characters both
/// times, and neither drawing moves the scrolling cursor.
pub proof fn lemma_header_idempotent(v: ViewerView, truncated: bool)
    ensures
        v.after_header(truncated).header_text(truncated) == v.header_text(truncated),
        v.after_header(truncated).after_header(truncated).cursor == v.after_header(truncated).cursor,
        v.after_header(truncated).cursor.cursor_line == v.cursor.cursor_line,
        v.after_header(truncated).cursor.cursor_col == v.cursor.cursor_col,
        v.after_header(truncated).cursor.term_lines == v.cursor.term_lines,
        v.after_header(truncated).cursor.term_cols == v.cursor.term_cols,
        v.after_header(truncated).cursor.save_line == v.cursor.cursor_line,
        v.after_header(truncated).cursor.save_col == v.cursor.cursor_col,
        v.after_header(truncated).out == v.out + v.header_text(truncated),
{
}

/// The timestamp `HH:MM:SS ` is nine columns wide.
pub proof fn lemma_timestamp_width(t: ClockTime)
    requires
        t.wf(),
    ensures
        seq_width(stamp_text(t)) == 9,
{
    let s = stamp_text(t);
    assert(s.len() == 9);
    assert forall|k: int| 0 <= k < s.len() implies is_printable_ascii(#[trigger] s[k]) by {}
    lemma_ascii_width(s);
}

/// Writing a line ends one row per forced wrap plus the final one: the
/// text before the status bar holds `wraps + 1` line feeds.
pub proof fn lemma_line_rows(v: ViewerView, t: ClockTime)
    requires
        v.wf(),
        t.wf(),
    ensures
        count_line_feeds(v.line_text(t)) == v.line_layout(t).2 + 1,
{
    let indent = v.indent(t);
    let pre = if v.timestamps {
        prefix_text(t)
    } else {
        Seq::<char>::empty()
    };
    if v.timestamps {
        reveal_strlit("\x1b[2m");
        reveal_strlit("\x1b[0m");
        let dim = "\x1b[2m"@;
        let plain = "\x1b[0m"@;
        assert(dim =~= seq!['\x1b', '[', '2', 'm']);
        assert(plain =~= seq!['\x1b', '[', '0', 'm']);
        assert forall|k: int| 0 <= k < dim.len() implies dim[k] != '\n' by {}
        assert forall|k: int| 0 <= k < plain.len() implies plain[k] != '\n' by {}
        let st = stamp_text(t);
        assert forall|k: int| 0 <= k < st.len() implies st[k] != '\n' by {}
        lemma_count_no_line_feed(dim);
        lemma_count_no_line_feed(plain);
        lemma_count_no_line_feed(st);
        lemma_count_line_feeds_add(dim, st);
        lemma_count_line_feeds_add(dim + st, plain);
    } else {
        lemma_count_no_line_feed(pre);
    }
    lemma_render_line_feeds(v.line, 0, indent, v.cursor.after_add(indent));
    lemma_count_line_feeds_add(pre, v.line_layout(t).0);
    lemma_count_line_feeds_add(pre + v.line_layout(t).0, row_end());
    reveal_with_fuel(count_line_feeds, 5);
}

/// A line whose printable content fits on the row after its timestamp
/// (nine columns with timestamps, none without) is written on exactly one
/// row: one line feed before the status bar, and the cursor one row down
/// unless already on the last scrolling row.
pub proof fn lemma_short_line_one_row(v: ViewerView, t: ClockTime)
    requires
        v.wf(),
        t.wf(),
        v.indent(t) + visible_width(v.line, 0) < v.cursor.term_cols,
    ensures
        v.indent(t) == (if v.timestamps {
            9nat
        } else {
            0nat
        }),
        count_line_feeds(v.line_text(t)) == 1,
        v.after_print_line(t).cursor.cursor_line == (if v.cursor.cursor_line < v.cursor.term_lines {
            v.cursor.cursor_line + 1
        } else {
            v.cursor.term_lines as int
        }),
        v.after_print_line(t).cursor.cursor_col == 0,
{
    lemma_timestamp_width(t);
    let indent = v.indent(t);
    lemma_short_line_no_wrap(v.line, 0, indent, v.cursor.after_add(indent));
    lemma_line_rows(v, t);
}

/// A line wider than a row spans at least `ceil(width / (term_cols - 1))`
/// rows: the rows ended before the status bar, of at most `term_cols - 1`
/// columns each, cover its timestamp (nine columns, or none) and its
/// printable content, provided every character fits on a continuation row
/// after the indent.
pub proof fn lemma_wide_line_spans_rows(v: ViewerView, t: ClockTime)
    requires
        v.wf(),
        t.wf(),
        v.indent(t) < v.cursor.term_cols,
        fits_after_indent(v.line, 0, v.indent(t), v.cursor.term_cols as nat),
    ensures
        v.indent(t) == (if v.timestamps {
            9nat
        } else {
            0nat
        }),
        v.indent(t) + visible_width(v.line, 0) <= (v.cursor.term_cols - 1) * count_line_feeds(
            v.line_text(t),
        ),
        v.after_print_line(t).cursor.cursor_line == (if v.cursor.cursor_line + count_line_feeds(v.line_text(t))
            < v.cursor.term_lines {
            v.cursor.cursor_line + count_line_feeds(v.line_text(t))
        } else {
            v.cursor.term_lines as int
        }),
        v.after_print_line(t).cursor.cursor_col == 0,
{
    lemma_render_rows_advance(v.line, 0, v.indent(t), v.cursor.after_add(v.indent(t)));
    lemma_timestamp_width(t);
    let indent = v.indent(t);
    lemma_wide_line_rows(v.line, 0, indent, v.cursor.after_add(indent));
    lemma_line_rows(v, t);
}

/// Feeding `hello` and a line feed to a viewer without timestamps and with
/// nothing pending writes exactly `hello` and one row end before the status
/// bar; the cursor moves one row down (or stays on the last scrolling row)
/// at the first column, and nothing stays pending.
pub proof fn lemma_hello_round_trip(v: ViewerView, t: ClockTime)
    requires
        v.wf(),
        v.line.len() == 0,
        !v.timestamps,
        v.cursor.term_cols > 5,
    ensures
        ({
            let w = v.after_chars(seq!['h', 'e', 'l', 'l', 'o', '\n'], t);
            let flushed = ViewerView {
                out: v.out + seq!['h', 'e', 'l', 'l', 'o'] + row_end(),
                line: Seq::empty(),
                cursor: v.cursor.after_newline(),
                ..v
            };
            &&& w == flushed.after_header(false)
            &&& w.cursor.cursor_line == (if v.cursor.cursor_line < v.cursor.term_lines {
                v.cursor.cursor_line + 1
            } else {
                v.cursor.term_lines as int
            })
            &&& w.cursor.cursor_col == 0
            &&& w.line.len() == 0
        }),
{
    let hello = seq!['h', 'e', 'l', 'l', 'o'];
    let input = seq!['h', 'e', 'l', 'l', 'o', '\n'];
    assert(input.drop_last() =~= hello);
    lemma_hello_buffered(v, t);
    let p = v.after_chars(hello, t);
    assert(v.after_chars(input, t) == p.after_char('\n', t));
    assert(p.cursor.after_add(0) == v.cursor);
    lemma_hello_layout(v.cursor);
    assert(p.line_text(t) =~= hello + row_end());
    assert(p.line_layout(t).1.after_newline() == v.cursor.after_newline());
    assert(v.out + p.line_text(t) =~= v.out + hello + row_end());
}

proof fn lemma_hello_buffered(v: ViewerView, t: ClockTime)
    requires
        v.line.len() == 0,
    ensures
        v.after_chars(seq!['h', 'e', 'l', 'l', 'o'], t) == (ViewerView { line: seq!['h', 'e', 'l', 'l', 'o'], ..v }),
{
    let hello = seq!['h', 'e', 'l', 'l', 'o'];
    assert forall|k: int| 0 <= k < hello.len() implies hello[k] != '\n' && hello[k] != '\r' by {}
    lemma_keeps_all(hello);
    lemma_no_flush_without_line_feed(v, hello, t);
    assert(v.line + hello =~= hello);
}

/// Dropping carriage returns keeps a sequence that has none.
proof fn lemma_keeps_all(cs: Seq<char>)
    requires
        forall|k: int| 0 <= k < cs.len() ==> cs[k] != '\n' && cs[k] != '\r',
    ensures
        cs.filter(|c: char| c != '\r') == cs,
        !cs.contains('\n'),
    decreases cs.len(),
{
    reveal_with_fuel(Seq::filter, 1);
    if cs.len() > 0 {
        let init = cs.drop_last();
        assert forall|k: int| 0 <= k < init.len() implies init[k] != '\n' && init[k] != '\r' by {
            assert(init[k] == cs[k]);
        }
        lemma_keeps_all(init);
        assert(cs.last() == cs[cs.len() - 1]);
        assert(init.push(cs.last()) =~= cs);
    } else {
        assert(cs.filter(|c: char| c != '\r') =~= cs);
    }
}

proof fn lemma_hello_layout(c: CursorInfo)
    requires
        c.cursor_col == 0,
        c.term_cols > 5,
    ensures
        render_from(seq!['h', 'e', 'l', 'l', 'o'], 0, 0, c).0 == seq!['h', 'e', 'l', 'l', 'o'],
        render_from(seq!['h', 'e', 'l', 'l', 'o'], 0, 0, c).1 == (CursorInfo { cursor_col: 5, ..c }),
{
    let hello = seq!['h', 'e', 'l', 'l', 'o'];
    reveal_with_fuel(render_from, 6);
    assert(render_from(hello, 0, 0, c).0 =~= hello);
}

} // verus!
