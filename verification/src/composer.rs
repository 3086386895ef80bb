//! Geometry of the multi-line composer: how many visual rows a buffer takes
//! at a given width, where the cursor lands, and which rows are scrolled into
//! a capped window.

use vstd::prelude::*;
use crate::chars::{char_count, str_chars};
use crate::width::{str_width, str_width_spec};
use crate::width::{cells, char_cells};

verus! {

/// The terminal columns reserved by the composer's `▸ ` prefix.
pub const COMPOSER_LEFT_PAD: u16 = 3;
/// The terminal column reserved by the composer's right-side block padding.
pub const COMPOSER_RIGHT_PAD: u16 = 1;

/// `u16` saturating arithmetic, as a mathematical function.
pub open spec fn sat16(x: int) -> int {
    if x > u16::MAX { u16::MAX as int } else if x < 0 { 0 } else { x }
}

/// Returns the width available after the composer prefix and block padding.
pub fn composer_content_width(terminal_width: u16) -> (w: u16)
    ensures
        w == (if terminal_width >= 5 { terminal_width - 4 } else { 1 }),
{
    let w = terminal_width.saturating_sub(COMPOSER_LEFT_PAD).saturating_sub(COMPOSER_RIGHT_PAD);
    if w < 1 { 1 } else { w }
}

/// One greedy wrapping step: a character that does not fit after some used
/// cells opens a new row.
pub open spec fn wrap_step(used: int, rows: int, c: char, width: int) -> (int, int) {
    if sat16(used + cells(c)) > width && used > 0 {
        (cells(c) as int, sat16(rows + 1))
    } else {
        (sat16(used + cells(c)), rows)
    }
}

/// Scanning `s`: `(rows of the finished newline-separated lines, cells used on
/// the current row, rows of the current line)`.
pub open spec fn rows_scan(s: Seq<char>, width: int) -> (int, int, int)
    decreases s.len(),
{
    if s.len() == 0 {
        (0, 0, 1)
    } else {
        let (done, used, cur) = rows_scan(s.drop_last(), width);
        let c = s.last();
        if c == '\n' {
            (sat16(done + cur), 0, 1)
        } else {
            let (u2, r2) = wrap_step(used, cur, c, width);
            (done, u2, r2)
        }
    }
}

/// Visual rows a buffer takes at `width` cells (each newline-separated line
/// takes at least one row).
pub open spec fn visual_rows(s: Seq<char>, width: int) -> int {
    if width == 0 {
        1
    } else {
        let (done, _used, cur) = rows_scan(s, width);
        sat16(done + cur)
    }
}

/// Counts the visual content rows occupied by `buffer` at the given cell width.
pub fn input_line_count_with_width(buffer: &str, width: u16) -> (n: u16)
    ensures
        n == visual_rows(buffer@, width as int),
{
    if width == 0 {
        return 1;
    }
    let mut done: u16 = 0;
    let mut used: u16 = 0;
    let mut cur: u16 = 1;
    let chars = str_chars(buffer);
    let mut i: usize = 0;
    while i < chars.len()
        invariant
            chars@ == buffer@,
            i <= chars@.len(),
            width > 0,
            rows_scan(chars@.take(i as int), width as int) == (done as int, used as int, cur as int),
        decreases chars@.len() - i,
    {
        let ch = chars[i];
        proof {
            assert(chars@.take(i + 1).drop_last() == chars@.take(i as int));
        }
        if ch == '\n' {
            done = done.saturating_add(cur);
            used = 0;
            cur = 1;
        } else {
            let cw = char_cells(ch) as u16;
            if used.saturating_add(cw) > width && used > 0 {
                used = cw;
                cur = cur.saturating_add(1);
            } else {
                used = used.saturating_add(cw);
            }
        }
        i = i + 1;
    }
    proof {
        assert(chars@.take(i as int) == buffer@);
    }
    done.saturating_add(cur)
}

/// Scanning `s` for the cursor: `(row, cells used on that row)`.
pub open spec fn cursor_scan(s: Seq<char>, width: int) -> (int, int)
    decreases s.len(),
{
    if s.len() == 0 {
        (0, 0)
    } else {
        let (row, used) = cursor_scan(s.drop_last(), width);
        let c = s.last();
        if c == '\n' {
            (sat16(row + 1), 0)
        } else {
            let (u2, r2) = wrap_step(used, row, c, width);
            (r2, u2)
        }
    }
}

/// The visual `(row, column)` of a cursor placed after `s` at `width` cells;
/// a cursor exactly at the right edge moves to the start of the next row.
pub open spec fn cursor_position(s: Seq<char>, width: int) -> (int, int) {
    if width == 0 {
        (0, 0)
    } else {
        let (row, col) = cursor_scan(s, width);
        if col == width {
            (sat16(row + 1), 0)
        } else {
            (row, col)
        }
    }
}

/// Returns the visual cursor row and column at the given content width.
pub fn cursor_line_col_with_width(buffer_before_cursor: &str, width: u16) -> (p: (u16, u16))
    ensures
        (p.0 as int, p.1 as int) == cursor_position(buffer_before_cursor@, width as int),
{
    if width == 0 {
        return (0, 0);
    }
    let mut row: u16 = 0;
    let mut used: u16 = 0;
    let chars = str_chars(buffer_before_cursor);
    let mut i: usize = 0;
    while i < chars.len()
        invariant
            chars@ == buffer_before_cursor@,
            i <= chars@.len(),
            width > 0,
            cursor_scan(chars@.take(i as int), width as int) == (row as int, used as int),
        decreases chars@.len() - i,
    {
        let ch = chars[i];
        proof {
            assert(chars@.take(i + 1).drop_last() == chars@.take(i as int));
        }
        if ch == '\n' {
            row = row.saturating_add(1);
            used = 0;
        } else {
            let cw = char_cells(ch) as u16;
            if used.saturating_add(cw) > width && used > 0 {
                row = row.saturating_add(1);
                used = cw;
            } else {
                used = used.saturating_add(cw);
            }
        }
        i = i + 1;
    }
    proof {
        assert(chars@.take(i as int) == buffer_before_cursor@);
    }
    if used == width {
        (row.saturating_add(1), 0)
    } else {
        (row, used)
    }
}

/// The first visual row shown by a window of `max_lines` rows over a buffer
/// of `content_rows` rows whose cursor sits on `cursor_row`.
pub open spec fn scroll_offset_spec(content_rows: int, cursor_row: int, max_lines: int) -> int {
    let visible = if content_rows >= sat16(cursor_row + 1) {
        content_rows
    } else {
        sat16(cursor_row + 1)
    };
    if visible <= max_lines {
        0
    } else {
        let offset = visible - max_lines;
        if cursor_row < offset {
            cursor_row
        } else if cursor_row >= sat16(offset + max_lines) {
            sat16(sat16(cursor_row - max_lines) + 1)
        } else {
            offset
        }
    }
}

/// Returns the first visual row shown by a capped composer while keeping its
/// cursor visible.
pub fn composer_scroll_offset(
    buffer_before_cursor: &str,
    buffer: &str,
    width: u16,
    max_lines: u16,
) -> (o: u16)
    ensures
        o == scroll_offset_spec(
            visual_rows(buffer@, width as int),
            cursor_position(buffer_before_cursor@, width as int).0,
            max_lines as int,
        ),
{
    let content_rows = input_line_count_with_width(buffer, width);
    let cursor_row = cursor_line_col_with_width(buffer_before_cursor, width).0;
    let cursor_next = cursor_row.saturating_add(1);
    let visible_rows = if content_rows >= cursor_next { content_rows } else { cursor_next };
    if visible_rows <= max_lines {
        return 0;
    }
    let mut offset = visible_rows - max_lines;
    if cursor_row < offset {
        offset = cursor_row;
    } else if cursor_row >= offset.saturating_add(max_lines) {
        offset = cursor_row.saturating_sub(max_lines).saturating_add(1);
    }
    offset
}

/// The capped composer window always contains the cursor row: the first
/// shown row is at or above the cursor, and the cursor is among the
/// `max_lines` rows shown.
pub proof fn composer_window_keeps_cursor_visible(content_rows: u16, cursor_row: u16, max_lines: u16)
    requires
        max_lines >= 1,
        cursor_row < u16::MAX,
    ensures
        scroll_offset_spec(content_rows as int, cursor_row as int, max_lines as int) <= cursor_row,
        cursor_row < scroll_offset_spec(content_rows as int, cursor_row as int, max_lines as int)
            + max_lines,
{
}

/// Number of newline characters in `s`.
pub open spec fn newline_count(s: Seq<char>) -> nat
    decreases s.len(),
{
    if s.len() == 0 {
        0
    } else {
        newline_count(s.drop_last()) + (if s.last() == '\n' { 1nat } else { 0 })
    }
}

/// Logical lines of a buffer (newline count plus one), truncated to `u16`.
pub fn input_line_count(buffer: &str) -> (n: u16)
    ensures
        n == ((newline_count(buffer@) + 1) as u16),
{
    let mut count: u128 = 1;
    let chars = str_chars(buffer);
    let mut i: usize = 0;
    while i < chars.len()
        invariant
            chars@ == buffer@,
            i <= chars@.len(),
            count == newline_count(chars@.take(i as int)) + 1,
            count <= i + 1,
        decreases chars@.len() - i,
    {
        proof {
            assert(chars@.take(i + 1).drop_last() == chars@.take(i as int));
        }
        if chars[i] == '\n' {
            count = count + 1;
        }
        i = i + 1;
    }
    proof {
        assert(chars@.take(i as int) == buffer@);
    }
    count as u16
}

/// The masked display of a credential buffer: a placeholder when empty,
/// otherwise one bullet per character, never the secret itself.
pub open spec fn credential_display_spec(buffer: Seq<char>) -> Seq<char> {
    if buffer.len() == 0 {
        "Enter API key…"@
    } else {
        Seq::new(buffer.len(), |_i: int| '•')
    }
}

pub fn credential_display_text(buffer: &str) -> (d: String)
    ensures
        d@ == credential_display_spec(buffer@),
{
    let mut out = String::new();
    let mut any = false;
    for _ch in it: buffer.chars()
        invariant
            it.seq() == buffer@,
            out@ == Seq::new(it.index() as nat, |_i: int| '•'),
            any == (it.index() > 0),
    {
        out.push('•');
        any = true;
    }
    if !any {
        return String::from_str("Enter API key…");
    }
    proof {
        assert(out@ =~= Seq::new(buffer@.len(), |_i: int| '•'));
    }
    out
}

/// Cursor column inside the credential field: after the three-column
/// prompt and one cell per typed character.
pub fn credential_cursor_col(buffer: &str) -> (c: u16)
    ensures
        c == sat16(3 + (buffer@.len() as u16)),
{
    let count = char_count(buffer);
    3u16.saturating_add(count as u16)
}

/// The prefix drawn before a composer row.
pub fn input_prefix_for_line(line_index: usize) -> (p: &'static str)
    ensures
        line_index == 0 ==> p@ == " > "@,
        line_index != 0 ==> p@ == "   "@,
{
    if line_index == 0 { " > " } else { "   " }
}

/// The characters after the last newline of `s` (all of `s` without one).
pub open spec fn last_line(s: Seq<char>) -> Seq<char>
    decreases s.len(),
{
    if s.len() == 0 {
        Seq::empty()
    } else if s.last() == '\n' {
        Seq::empty()
    } else {
        last_line(s.drop_last()).push(s.last())
    }
}

/// The unwrapped cursor position after `s`: the number of newlines and the
/// display width of the last line.
pub fn cursor_line_col(buffer_before_cursor: &str) -> (p: (u16, u16))
    ensures
        p.0 == newline_count(buffer_before_cursor@) as u16,
        p.1 == str_width_spec(last_line(buffer_before_cursor@)) as u16,
{
    let chars = str_chars(buffer_before_cursor);
    let mut rows: usize = 0;
    let mut line = String::new();
    let mut i: usize = 0;
    while i < chars.len()
        invariant
            chars@ == buffer_before_cursor@,
            i <= chars@.len(),
            rows == newline_count(chars@.take(i as int)),
            rows <= i,
            line@ == last_line(chars@.take(i as int)),
        decreases chars@.len() - i,
    {
        let ch = chars[i];
        proof {
            let t = chars@.take(i + 1);
            assert(t.drop_last() =~= chars@.take(i as int));
            assert(t.last() == ch);
        }
        if ch == '\n' {
            rows = rows + 1;
            line = String::new();
        } else {
            line.push(ch);
        }
        i = i + 1;
    }
    proof {
        assert(chars@.take(i as int) =~= buffer_before_cursor@);
    }
    (rows as u16, str_width(line.as_str()) as u16)
}

/// Scanning `s` into visual lines at `width` cells: `(finished lines, the
/// current line, cells used on it)`. A newline ends a line; a character
/// that would overflow a non-empty line starts a new one.
pub open spec fn line_scan(s: Seq<char>, width: int) -> (Seq<Seq<char>>, Seq<char>, int)
    decreases s.len(),
{
    if s.len() == 0 {
        (Seq::empty(), Seq::empty(), 0)
    } else {
        let (done, cur, used) = line_scan(s.drop_last(), width);
        let c = s.last();
        if c == '\n' {
            (done.push(cur), Seq::empty(), 0)
        } else if sat16(used + cells(c)) > width && used > 0 {
            (done.push(cur), seq![c], sat16(cells(c) as int))
        } else {
            (done, cur.push(c), sat16(used + cells(c)))
        }
    }
}

/// The visual lines of `s` at `width` cells.
pub open spec fn visual_lines(s: Seq<char>, width: int) -> Seq<Seq<char>> {
    let (done, cur, _) = line_scan(s, width);
    done.push(cur)
}

/// `v` cut or padded with empty lines to `n` lines.
pub open spec fn resize_lines(v: Seq<Seq<char>>, n: int) -> Seq<Seq<char>> {
    if v.len() >= n {
        v.take(n)
    } else {
        v + Seq::new((n - v.len()) as nat, |_i: int| Seq::<char>::empty())
    }
}

/// The rows a composer shows: at least every content row, and the cursor
/// row.
pub open spec fn composer_total_rows(buffer: Seq<char>, before_cursor: Seq<char>, width: int) -> int {
    let content = visual_rows(buffer, width);
    let next = sat16(cursor_position(before_cursor, width).0 + 1);
    if content >= next { content } else { next }
}

/// The composer window of at most `max_height` rows scrolled to keep the
/// cursor visible: each shown row's absolute index and text.
pub open spec fn composer_window_spec(
    buffer: Seq<char>,
    before_cursor: Seq<char>,
    width: int,
    max_height: int,
) -> Seq<(int, Seq<char>)> {
    let total = composer_total_rows(buffer, before_cursor, width);
    let offset = scroll_offset_spec(
        visual_rows(buffer, width),
        cursor_position(before_cursor, width).0,
        max_height,
    );
    let left = if total > offset { total - offset } else { 0 };
    let visible = if left < max_height { left } else { max_height };
    let shown = resize_lines(visual_lines(buffer, width), total).skip(offset);
    let count = if visible < shown.len() { visible } else { shown.len() as int };
    Seq::new(count as nat, |i: int| (offset + i, shown[i]))
}

/// The visible composer rows for an allocated height, each with its prompt
/// prefix (`" > "` on the first buffer row, blanks after it) and its text.
pub fn composer_window(
    buffer: &str,
    buffer_before_cursor: &str,
    width: u16,
    max_height: u16,
) -> (rows: Vec<(&'static str, String)>)
    ensures
        rows@.len() == composer_window_spec(buffer@, buffer_before_cursor@, width as int, max_height as int).len(),
        forall|i: int|
            0 <= i < rows@.len() ==> {
                let (abs, text) = composer_window_spec(buffer@, buffer_before_cursor@, width as int, max_height as int)[i];
                &&& (#[trigger] rows@[i]).1@ == text
                &&& (abs == 0 ==> rows@[i].0@ == " > "@)
                &&& (abs != 0 ==> rows@[i].0@ == "   "@)
            },
{
    let content_rows = input_line_count_with_width(buffer, width);
    let (cursor_row, _) = cursor_line_col_with_width(buffer_before_cursor, width);
    let offset = composer_scroll_offset(buffer_before_cursor, buffer, width, max_height);
    let next = cursor_row.saturating_add(1);
    let total_rows = if content_rows >= next { content_rows } else { next };
    let left = total_rows.saturating_sub(offset);
    let visible_rows = if left < max_height { left } else { max_height };
    let chars = str_chars(buffer);
    let mut lines: Vec<Vec<char>> = Vec::new();
    let mut current: Vec<char> = Vec::new();
    let mut used: u16 = 0;
    let mut i: usize = 0;
    while i < chars.len()
        invariant
            chars@ == buffer@,
            i <= chars@.len(),
            lines@.len() == line_scan(chars@.take(i as int), width as int).0.len(),
            forall|t: int| 0 <= t < lines@.len() ==> (#[trigger] lines@[t])@ == line_scan(chars@.take(i as int), width as int).0[t],
            current@ == line_scan(chars@.take(i as int), width as int).1,
            used == line_scan(chars@.take(i as int), width as int).2,
        decreases chars@.len() - i,
    {
        let ch = chars[i];
        proof {
            let t = chars@.take(i + 1);
            assert(t.drop_last() =~= chars@.take(i as int));
            assert(t.last() == ch);
        }
        if ch == '\n' {
            let finished = current;
            lines.push(finished);
            current = Vec::new();
            used = 0;
            proof {
                assert(current@ =~= Seq::<char>::empty());
            }
        } else {
            let cw = char_cells(ch) as u16;
            if used.saturating_add(cw) > width && used > 0 {
                let finished = current;
                lines.push(finished);
                current = Vec::new();
                current.push(ch);
                used = cw;
                proof {
                    assert(current@ =~= seq![ch]);
                }
            } else {
                current.push(ch);
                used = used.saturating_add(cw);
            }
        }
        i = i + 1;
    }
    lines.push(current);
    proof {
        assert(chars@.take(chars@.len() as int) =~= buffer@);
    }
    let ghost all = visual_lines(buffer@, width as int);
    let ghost resized = resize_lines(all, total_rows as int);
    let ghost shown = resized.skip(offset as int);
    let ghost spec_rows = composer_window_spec(buffer@, buffer_before_cursor@, width as int, max_height as int);
    proof {
        assert(total_rows == composer_total_rows(buffer@, buffer_before_cursor@, width as int));
    }
    let mut rows: Vec<(&'static str, String)> = Vec::new();
    let mut k: usize = 0;
    let limit: usize = visible_rows as usize;
    let stop: usize = total_rows as usize;
    proof {
        assert(lines@.len() == all.len());
        assert(resized.len() == total_rows);
        assert(limit as int == (if (if total_rows > offset { total_rows - offset } else { 0 }) < max_height {
            if total_rows > offset { total_rows - offset } else { 0 }
        } else {
            max_height as int
        }));
        if offset <= total_rows {
            assert(shown.len() == total_rows - offset);
        }
    }
    while k < limit && (offset as usize) + k < stop
        invariant
            lines@.len() == all.len(),
            forall|t: int| 0 <= t < lines@.len() ==> (#[trigger] lines@[t])@ == all[t],
            resized == resize_lines(all, total_rows as int),
            resized.len() == total_rows,
            shown == resized.skip(offset as int),
            limit == visible_rows,
            stop == total_rows,
            k <= limit,
            rows@.len() == k,
            spec_rows == composer_window_spec(buffer@, buffer_before_cursor@, width as int, max_height as int),
            spec_rows.len() == (if (limit as int) < shown.len() { limit as int } else { shown.len() as int }),
            offset <= total_rows ==> shown.len() == total_rows - offset,
            limit <= (if total_rows > offset { total_rows - offset } else { 0 }),
            total_rows == composer_total_rows(buffer@, buffer_before_cursor@, width as int),
            offset == scroll_offset_spec(
                visual_rows(buffer@, width as int),
                cursor_position(buffer_before_cursor@, width as int).0,
                max_height as int,
            ),
            all == visual_lines(buffer@, width as int),
            forall|t: int| 0 <= t < k ==> {
                let (abs, text) = spec_rows[t];
                &&& (#[trigger] rows@[t]).1@ == text
                &&& (abs == 0 ==> rows@[t].0@ == " > "@)
                &&& (abs != 0 ==> rows@[t].0@ == "   "@)
            },
        decreases limit - k,
    {
        let index = offset as usize + k;
        let text: String = if index < lines.len() {
            let mut s = String::new();
            let line = &lines[index];
            let mut j: usize = 0;
            while j < line.len()
                invariant
                    j <= line@.len(),
                    s@ == line@.take(j as int),
                decreases line@.len() - j,
            {
                s.push(line[j]);
                proof {
                    assert(line@.take(j + 1) =~= line@.take(j as int).push(line@[j as int]));
                }
                j = j + 1;
            }
            proof {
                assert(line@.take(line@.len() as int) =~= line@);
            }
            s
        } else {
            String::new()
        };
        let prefix = input_prefix_for_line(index);
        proof {
            assert(shown[k as int] == resized[index as int]);
            if (index as int) < all.len() {
                assert(resized[index as int] == all[index as int]);
            } else {
                assert(resized[index as int] =~= Seq::<char>::empty());
                assert(text@ =~= Seq::<char>::empty());
            }
            assert(k < spec_rows.len());
            let cnt = spec_rows.len();
            let f = |i: int| (offset as int + i, shown[i]);
            assert(spec_rows =~= Seq::new(cnt, f));
            assert(spec_rows[k as int] == f(k as int));
            assert(spec_rows[k as int] == (index as int, shown[k as int]));
        }
        rows.push((prefix, text));
        k = k + 1;
    }
    proof {
        if offset > total_rows {
            assert(limit == 0);
        }
    }
    rows
}

/// The most rows the composer grows to.
pub const MAX_COMPOSER_LINES: u16 = 10;

/// The height the composer asks for at a terminal width: its rows (every
/// content row and the cursor row, at the content width) capped at
/// `MAX_COMPOSER_LINES` and at the height it was allotted.
pub open spec fn composer_height_spec(buffer: Seq<char>, before_cursor: Seq<char>, terminal_width: int, max_height: int) -> int {
    let width = if terminal_width >= 5 { terminal_width - 4 } else { 1 };
    let rows = composer_total_rows(buffer, before_cursor, width);
    let capped = if rows < MAX_COMPOSER_LINES { rows } else { MAX_COMPOSER_LINES as int };
    if capped < max_height { capped } else { max_height }
}

/// The height the composer asks for (see `composer_height_spec`).
pub fn composer_height(buffer: &str, buffer_before_cursor: &str, terminal_width: u16, max_height: u16) -> (h: u16)
    ensures
        h == composer_height_spec(buffer@, buffer_before_cursor@, terminal_width as int, max_height as int),
{
    let width = composer_content_width(terminal_width);
    let content_rows = input_line_count_with_width(buffer, width);
    let (cursor_row, _) = cursor_line_col_with_width(buffer_before_cursor, width);
    let next = cursor_row.saturating_add(1);
    let rows = if content_rows >= next { content_rows } else { next };
    let capped = if rows < MAX_COMPOSER_LINES { rows } else { MAX_COMPOSER_LINES };
    if capped < max_height { capped } else { max_height }
}

} // verus!
