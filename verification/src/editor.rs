//! The composer's editing state: a character buffer with a cursor, the
//! submitted-input history with its browsing cursor and saved draft, and
//! the double Ctrl+C exit confirmation.

use vstd::prelude::*;
use vstd::string::StringExecFns;
use crate::chars::str_chars;

verus! {

/// The editing state as mathematical values.
pub struct InputModel {
    pub buffer: Seq<char>,
    pub cursor: int,
    pub history: Seq<Seq<char>>,
    pub history_cursor: Option<int>,
    pub draft: Seq<char>,
}

/// The composer's input: the buffer (a character sequence), the cursor as
/// a character index, the submitted inputs (oldest first), which of them is
/// being browsed (`None` while editing the live draft), and the draft saved
/// while browsing.
pub struct InputState {
    pub buffer: Vec<char>,
    pub cursor_pos: usize,
    pub input_history: Vec<String>,
    pub history_cursor: Option<usize>,
    pub draft_input: Vec<char>,
}

/// The views of the history entries.
pub open spec fn history_view(h: Seq<String>) -> Seq<Seq<char>> {
    h.map_values(|s: String| s@)
}

impl InputState {
    pub open spec fn model(&self) -> InputModel {
        InputModel {
            buffer: self.buffer@,
            cursor: self.cursor_pos as int,
            history: history_view(self.input_history@),
            history_cursor: match self.history_cursor {
                Some(i) => Some(i as int),
                None => None,
            },
            draft: self.draft_input@,
        }
    }

    /// The cursor lies within the buffer and the browsed entry exists.
    pub open spec fn wf(&self) -> bool {
        self.model().wf()
    }
}

impl InputModel {
    pub open spec fn wf(self) -> bool {
        &&& 0 <= self.cursor <= self.buffer.len()
        &&& (self.history_cursor matches Some(i) ==> 0 <= i < self.history.len())
    }

    /// Inserting `ch` at the cursor and moving past it.
    pub open spec fn append_char(self, ch: char) -> InputModel {
        InputModel { buffer: self.buffer.insert(self.cursor, ch), cursor: self.cursor + 1, ..self }
    }

    /// Deleting the character before the cursor, if any.
    pub open spec fn backspace(self) -> InputModel {
        if self.cursor > 0 {
            InputModel { buffer: self.buffer.remove(self.cursor - 1), cursor: self.cursor - 1, ..self }
        } else {
            self
        }
    }

    /// Loading history entry `i` into the buffer, cursor at its end.
    pub open spec fn load(self, i: int) -> InputModel {
        InputModel {
            buffer: self.history[i],
            cursor: self.history[i].len() as int,
            history_cursor: Some(i),
            ..self
        }
    }

    /// One step towards older entries: from the draft (saving it) to the
    /// newest entry, from an entry to the one before it; nothing at the
    /// oldest entry or without history.
    pub open spec fn history_prev(self) -> InputModel {
        if self.history.len() == 0 {
            self
        } else {
            match self.history_cursor {
                None => InputModel { draft: self.buffer, ..self }.load(self.history.len() - 1),
                Some(i) => if i == 0 {
                    self
                } else {
                    self.load(i - 1)
                },
            }
        }
    }

    /// One step towards newer entries: past the newest entry the saved
    /// draft comes back (and is cleared); nothing while editing the draft.
    pub open spec fn history_next(self) -> InputModel {
        match self.history_cursor {
            None => self,
            Some(i) => if i + 1 >= self.history.len() {
                InputModel {
                    buffer: self.draft,
                    cursor: self.draft.len() as int,
                    history_cursor: None,
                    draft: Seq::empty(),
                    ..self
                }
            } else {
                self.load(i + 1)
            },
        }
    }

    /// Records a submitted input unless it repeats the newest entry.
    pub open spec fn record(self, input: Seq<char>) -> InputModel {
        if self.history.len() > 0 && self.history.last() == input {
            self
        } else {
            InputModel { history: self.history.push(input), ..self }
        }
    }

    /// Submitting: the buffer is recorded (when non-empty), then the buffer,
    /// cursor, browsing position and draft are reset.
    pub open spec fn submit(self) -> InputModel {
        let recorded = if self.buffer.len() > 0 { self.record(self.buffer) } else { self };
        InputModel {
            buffer: Seq::empty(),
            cursor: 0,
            history_cursor: None,
            draft: Seq::empty(),
            ..recorded
        }
    }
}

/// The start of the line the cursor is on: just after the newline before
/// it, or the buffer start.
pub open spec fn line_start(s: Seq<char>, pos: int) -> int
    decreases pos,
{
    if pos <= 0 {
        0
    } else if s[pos - 1] == '\n' {
        pos
    } else {
        line_start(s, pos - 1)
    }
}

/// The end of the line the cursor is on: the next newline, or the buffer
/// end.
pub open spec fn line_end(s: Seq<char>, pos: int) -> int
    decreases s.len() - pos,
{
    if pos >= s.len() {
        s.len() as int
    } else if s[pos] == '\n' {
        pos
    } else {
        line_end(s, pos + 1)
    }
}

/// Number of UTF-8 bytes of `c`.
pub open spec fn utf8_len(c: char) -> nat {
    if (c as u32) < 0x80 {
        1
    } else if (c as u32) < 0x800 {
        2
    } else if (c as u32) < 0x10000 {
        3
    } else {
        4
    }
}

/// Number of UTF-8 bytes of a character sequence.
pub open spec fn utf8_bytes(s: Seq<char>) -> nat
    decreases s.len(),
{
    if s.len() == 0 {
        0
    } else {
        utf8_bytes(s.drop_last()) + utf8_len(s.last())
    }
}

/// No two consecutive entries are equal.
pub open spec fn no_consecutive_duplicates(h: Seq<Seq<char>>) -> bool {
    forall|i: int| 0 <= i < h.len() - 1 ==> #[trigger] h[i] != h[i + 1]
}

fn string_of(chars: &Vec<char>) -> (s: String)
    ensures
        s@ == chars@,
{
    let mut s = String::new();
    let mut k: usize = 0;
    while k < chars.len()
        invariant
            k <= chars@.len(),
            s@ == chars@.take(k as int),
        decreases chars@.len() - k,
    {
        s.push(chars[k]);
        proof {
            assert(chars@.take(k + 1) =~= chars@.take(k as int).push(chars@[k as int]));
        }
        k = k + 1;
    }
    proof {
        assert(chars@.take(chars@.len() as int) =~= chars@);
    }
    s
}

impl InputState {
    /// An empty buffer with no history.
    pub fn new() -> (s: Self)
        ensures
            s.wf(),
            s.model().buffer.len() == 0,
            s.model().cursor == 0,
            s.model().history.len() == 0,
            s.model().history_cursor is None,
            s.model().draft.len() == 0,
    {
        InputState {
            buffer: Vec::new(),
            cursor_pos: 0,
            input_history: Vec::new(),
            history_cursor: None,
            draft_input: Vec::new(),
        }
    }

    /// The buffer as text.
    pub fn text(&self) -> (s: String)
        ensures
            s@ == self.buffer@,
    {
        string_of(&self.buffer)
    }

    /// The saved draft as text.
    pub fn draft_text(&self) -> (s: String)
        ensures
            s@ == self.draft_input@,
    {
        string_of(&self.draft_input)
    }

    /// Inserts `ch` at the cursor and moves the cursor past it.
    pub fn input_append_char(&mut self, ch: char)
        requires
            old(self).wf(),
            old(self).buffer@.len() < usize::MAX,
        ensures
            final(self).wf(),
            final(self).model() == old(self).model().append_char(ch),
    {
        self.buffer.insert(self.cursor_pos, ch);
        self.cursor_pos = self.cursor_pos + 1;
    }

    /// Inserts the characters of `text` at the cursor, one after another.
    pub fn input_append_str(&mut self, text: &str)
        requires
            old(self).wf(),
            old(self).buffer@.len() + text@.len() < usize::MAX,
        ensures
            final(self).wf(),
            final(self).model() == (InputModel {
                buffer: old(self).buffer@.take(old(self).cursor_pos as int) + text@ + old(self).buffer@.skip(
                    old(self).cursor_pos as int,
                ),
                cursor: old(self).cursor_pos + text@.len(),
                ..old(self).model()
            }),
    {
        let chars = str_chars(text);
        let ghost b0 = self.buffer@;
        let ghost c0 = self.cursor_pos as int;
        let mut i: usize = 0;
        proof {
            assert(b0.take(c0) + text@.take(0) + b0.skip(c0) =~= b0);
        }
        while i < chars.len()
            invariant
                chars@ == text@,
                i <= chars@.len(),
                self.wf(),
                b0.len() + text@.len() < usize::MAX,
                0 <= c0 <= b0.len(),
                self.buffer@ == b0.take(c0) + text@.take(i as int) + b0.skip(c0),
                self.cursor_pos == c0 + i,
                self.model().history == old(self).model().history,
                self.model().history_cursor == old(self).model().history_cursor,
                self.model().draft == old(self).model().draft,
            decreases chars@.len() - i,
        {
            self.input_append_char(chars[i]);
            proof {
                assert(self.buffer@ =~= b0.take(c0) + text@.take(i + 1) + b0.skip(c0));
            }
            i = i + 1;
        }
        proof {
            assert(text@.take(text@.len() as int) =~= text@);
        }
    }

    /// Deletes the character before the cursor, if any.
    pub fn input_backspace(&mut self)
        requires
            old(self).wf(),
        ensures
            final(self).wf(),
            final(self).model() == old(self).model().backspace(),
    {
        if self.cursor_pos > 0 {
            self.cursor_pos = self.cursor_pos - 1;
            self.buffer.remove(self.cursor_pos);
        }
    }

    /// Moves the cursor one character left, stopping at the start.
    pub fn input_cursor_left(&mut self)
        requires
            old(self).wf(),
        ensures
            final(self).wf(),
            final(self).model() == (InputModel {
                cursor: if old(self).cursor_pos > 0 { old(self).cursor_pos - 1 } else { 0 },
                ..old(self).model()
            }),
    {
        if self.cursor_pos > 0 {
            self.cursor_pos = self.cursor_pos - 1;
        }
    }

    /// Moves the cursor one character right, stopping at the end.
    pub fn input_cursor_right(&mut self)
        requires
            old(self).wf(),
        ensures
            final(self).wf(),
            final(self).model() == (InputModel {
                cursor: if old(self).cursor_pos < old(self).buffer@.len() {
                    old(self).cursor_pos + 1
                } else {
                    old(self).cursor_pos as int
                },
                ..old(self).model()
            }),
    {
        if self.cursor_pos < self.buffer.len() {
            self.cursor_pos = self.cursor_pos + 1;
        }
    }

    /// Moves the cursor to the start of its line.
    pub fn input_cursor_to_line_start(&mut self)
        requires
            old(self).wf(),
        ensures
            final(self).wf(),
            final(self).model() == (InputModel {
                cursor: line_start(old(self).buffer@, old(self).cursor_pos as int),
                ..old(self).model()
            }),
    {
        let mut pos = self.cursor_pos;
        while pos > 0 && self.buffer[pos - 1] != '\n'
            invariant
                pos <= self.cursor_pos <= self.buffer@.len(),
                line_start(self.buffer@, self.cursor_pos as int) == line_start(self.buffer@, pos as int),
            decreases pos,
        {
            pos = pos - 1;
        }
        self.cursor_pos = pos;
    }

    /// Moves the cursor to the end of its line.
    pub fn input_cursor_to_line_end(&mut self)
        requires
            old(self).wf(),
        ensures
            final(self).wf(),
            final(self).model() == (InputModel {
                cursor: line_end(old(self).buffer@, old(self).cursor_pos as int),
                ..old(self).model()
            }),
    {
        let total = self.buffer.len();
        let mut pos = self.cursor_pos;
        while pos < total && self.buffer[pos] != '\n'
            invariant
                total == self.buffer@.len(),
                self.cursor_pos <= pos <= total,
                line_end(self.buffer@, self.cursor_pos as int) == line_end(self.buffer@, pos as int),
            decreases total - pos,
        {
            pos = pos + 1;
        }
        self.cursor_pos = pos;
    }

    /// Empties the buffer.
    pub fn input_clear(&mut self)
        requires
            old(self).wf(),
        ensures
            final(self).wf(),
            final(self).model() == (InputModel { buffer: Seq::empty(), cursor: 0, ..old(self).model() }),
    {
        self.buffer = Vec::new();
        self.cursor_pos = 0;
    }

    /// Replaces the buffer with `command`, cursor at its end.
    pub fn input_insert_command(&mut self, command: &str)
        requires
            old(self).wf(),
            command@.len() < usize::MAX,
        ensures
            final(self).wf(),
            final(self).model() == (InputModel {
                buffer: command@,
                cursor: command@.len() as int,
                ..old(self).model()
            }),
    {
        self.input_clear();
        self.input_append_str(command);
        proof {
            assert(Seq::<char>::empty().take(0) + command@ + Seq::<char>::empty().skip(0) =~= command@);
        }
    }

    /// Records a submitted input unless it repeats the newest entry.
    pub fn record_history(&mut self, input: &str)
        requires
            old(self).wf(),
        ensures
            final(self).wf(),
            final(self).model() == old(self).model().record(input@),
    {
        let entry = String::from_str(input);
        let n = self.input_history.len();
        if n > 0 && self.input_history[n - 1] == entry {
            proof {
                assert(history_view(self.input_history@).last() == self.input_history@[n - 1]@);
            }
            return;
        }
        self.input_history.push(entry);
        proof {
            assert(history_view(self.input_history@) =~= history_view(old(self).input_history@).push(input@));
        }
    }

    /// Submits the buffer: records it when non-empty, clears it and stops
    /// browsing. Returns the submitted text.
    pub fn input_submit(&mut self) -> (content: String)
        requires
            old(self).wf(),
        ensures
            final(self).wf(),
            content@ == old(self).buffer@,
            final(self).model() == old(self).model().submit(),
    {
        let content = string_of(&self.buffer);
        if self.buffer.len() > 0 {
            self.record_history(content.as_str());
        }
        self.input_clear();
        self.history_cursor = None;
        self.draft_input = Vec::new();
        content
    }

    fn load_history_entry(&mut self, i: usize)
        requires
            old(self).wf(),
            i < old(self).input_history@.len(),
        ensures
            final(self).wf(),
            final(self).model() == old(self).model().load(i as int),
    {
        self.buffer = str_chars(self.input_history[i].as_str());
        self.cursor_pos = self.buffer.len();
        self.history_cursor = Some(i);
    }

    /// Browses one entry back (see `InputModel::history_prev`).
    pub fn history_prev(&mut self)
        requires
            old(self).wf(),
        ensures
            final(self).wf(),
            final(self).model() == old(self).model().history_prev(),
    {
        let n = self.input_history.len();
        if n == 0 {
            return;
        }
        match self.history_cursor {
            None => {
                self.draft_input = self.buffer.clone();
                self.load_history_entry(n - 1);
            },
            Some(i) => {
                if i == 0 {
                    return;
                }
                self.load_history_entry(i - 1);
            },
        }
    }

    /// Browses one entry forward (see `InputModel::history_next`).
    pub fn history_next(&mut self)
        requires
            old(self).wf(),
        ensures
            final(self).wf(),
            final(self).model() == old(self).model().history_next(),
    {
        proof {
            assert(history_view(self.input_history@).len() == self.input_history@.len());
        }
        match self.history_cursor {
            None => {},
            Some(i) => {
                proof {
                    assert(self.model().history_cursor == Some(i as int));
                    assert(self.model().history.len() == self.input_history@.len());
                }
                let n = self.input_history.len();
                if n - i <= 1 {
                    self.history_cursor = None;
                    self.buffer = self.draft_input.clone();
                    self.draft_input = Vec::new();
                    self.cursor_pos = self.buffer.len();
                } else {
                    self.load_history_entry(i + 1);
                }
            },
        }
    }

    /// The byte offset of the cursor in the UTF-8 text of the buffer.
    pub fn cursor_byte_pos(&self) -> (b: usize)
        requires
            self.wf(),
            utf8_bytes(self.buffer@) <= usize::MAX,
        ensures
            b == utf8_bytes(self.buffer@.take(self.cursor_pos as int)),
    {
        let mut total: usize = 0;
        let mut k: usize = 0;
        while k < self.cursor_pos
            invariant
                self.wf(),
                k <= self.cursor_pos,
                total == utf8_bytes(self.buffer@.take(k as int)),
                utf8_bytes(self.buffer@) <= usize::MAX,
            decreases self.cursor_pos - k,
        {
            let c = self.buffer[k];
            let w: usize = if (c as u32) < 0x80 {
                1
            } else if (c as u32) < 0x800 {
                2
            } else if (c as u32) < 0x10000 {
                3
            } else {
                4
            };
            proof {
                let t = self.buffer@.take(k + 1);
                assert(t.drop_last() =~= self.buffer@.take(k as int));
                utf8_bytes_prefix_le(self.buffer@, k + 1);
            }
            total = total + w;
            k = k + 1;
        }
        total
    }
}

/// Byte counts grow with the prefix taken.
proof fn utf8_bytes_prefix_le(s: Seq<char>, k: int)
    requires
        0 <= k <= s.len(),
    ensures
        utf8_bytes(s.take(k)) <= utf8_bytes(s),
    decreases s.len() - k,
{
    if k < s.len() {
        utf8_bytes_prefix_le(s, k + 1);
        let t = s.take(k + 1);
        assert(t.drop_last() =~= s.take(k));
    } else {
        assert(s.take(k) =~= s);
    }
}

/// Deleting right after inserting restores the buffer and the cursor:
/// backspace undoes typing a character.
pub proof fn backspace_undoes_append(m: InputModel, ch: char)
    requires
        m.wf(),
    ensures
        m.append_char(ch).backspace() == m,
{
    assert(m.buffer.insert(m.cursor, ch).remove(m.cursor) =~= m.buffer);
}

/// Every editing operation keeps the cursor within the buffer and the
/// browsed entry within the history.
pub proof fn editing_keeps_the_state_well_formed(m: InputModel, ch: char)
    requires
        m.wf(),
    ensures
        m.append_char(ch).wf(),
        m.backspace().wf(),
        m.history_prev().wf(),
        m.history_next().wf(),
        m.submit().wf(),
{
}

/// `k` steps back through the history.
pub open spec fn prev_times(m: InputModel, k: nat) -> InputModel
    decreases k,
{
    if k == 0 {
        m
    } else {
        prev_times(m, (k - 1) as nat).history_prev()
    }
}

/// `k` steps forward through the history.
pub open spec fn next_times(m: InputModel, k: nat) -> InputModel
    decreases k,
{
    if k == 0 {
        m
    } else {
        next_times(m, (k - 1) as nat).history_next()
    }
}

proof fn prev_times_shape(m: InputModel, k: nat)
    requires
        m.history_cursor is None,
        1 <= k <= m.history.len(),
    ensures
        prev_times(m, k) == (InputModel {
            buffer: m.history[m.history.len() - k],
            cursor: m.history[m.history.len() - k].len() as int,
            history: m.history,
            history_cursor: Some(m.history.len() - k),
            draft: m.buffer,
        }),
    decreases k,
{
    if k > 1 {
        prev_times_shape(m, (k - 1) as nat);
    } else {
        assert(prev_times(m, 0) == m);
    }
}

proof fn next_times_shape(m: InputModel, j: nat, k: nat)
    requires
        1 <= k <= m.history.len(),
        j < k,
        m.history_cursor == Some(m.history.len() - k),
    ensures
        next_times(m, j) == (InputModel {
            buffer: if j == 0 { m.buffer } else { m.history[m.history.len() - k + j] },
            cursor: if j == 0 { m.cursor } else { m.history[m.history.len() - k + j].len() as int },
            history: m.history,
            history_cursor: Some(m.history.len() - k + j),
            draft: m.draft,
        }),
    decreases j,
{
    if j > 0 {
        next_times_shape(m, (j - 1) as nat, k);
    }
}

/// Browsing `k` entries back and then `k` forward brings back the draft
/// exactly as it was typed, with the cursor at its end, and stops
/// browsing.
pub proof fn history_roundtrip_restores_draft(m: InputModel, k: nat)
    requires
        m.wf(),
        m.history_cursor is None,
        1 <= k <= m.history.len(),
    ensures
        next_times(prev_times(m, k), k).buffer == m.buffer,
        next_times(prev_times(m, k), k).cursor == m.buffer.len(),
        next_times(prev_times(m, k), k).history_cursor is None,
        next_times(prev_times(m, k), k).history == m.history,
        next_times(prev_times(m, k), k).draft.len() == 0,
{
    prev_times_shape(m, k);
    let p = prev_times(m, k);
    next_times_shape(p, (k - 1) as nat, k);
}

/// Submitting never records an input equal to the newest entry, so a
/// history without consecutive duplicates keeps that property.
pub proof fn submit_keeps_history_free_of_repeats(m: InputModel)
    requires
        no_consecutive_duplicates(m.history),
    ensures
        no_consecutive_duplicates(m.submit().history),
{
    let h = m.submit().history;
    if h.len() > m.history.len() {
        assert forall|i: int| 0 <= i < h.len() - 1 implies #[trigger] h[i] != h[i + 1] by {
            if i < m.history.len() - 1 {
                assert(h[i] == m.history[i]);
                assert(h[i + 1] == m.history[i + 1]);
            }
        }
    }
}

/// The state of the double Ctrl+C exit confirmation.
#[derive(Debug, Clone, Copy, PartialEq, Eq, Structural)]
pub enum CtrlCState {
    /// No recent press.
    Idle,
    /// Pressed at the given time (milliseconds).
    Waiting(u64),
}

/// The window within which a second Ctrl+C exits, in milliseconds.
pub const DOUBLE_CTRL_C_WINDOW_MS: u64 = 2000;

/// How long the exit hint stays visible, in milliseconds.
pub const EXIT_HINT_TTL_MS: u64 = 2000;

/// What a Ctrl+C press leads to.
#[derive(Debug, Clone, PartialEq, Eq)]
pub struct CtrlCOutcome {
    /// The new confirmation state.
    pub state: CtrlCState,
    /// Whether the application exits.
    pub exit: bool,
    /// The hint to show, if any.
    pub hint: Option<String>,
}

/// The hint for a first press.
pub open spec fn first_press_hint(is_processing: bool) -> Seq<char> {
    if is_processing {
        "Turn cancelled. Press Ctrl+C again to exit."@
    } else {
        "Press Ctrl+C again within 2 seconds to exit."@
    }
}

/// A Ctrl+C press at `now`: a second press within the window exits;
/// otherwise the press starts (or restarts) the window and shows the hint.
pub fn handle_ctrl_c(state: CtrlCState, now: u64, is_processing: bool) -> (o: CtrlCOutcome)
    ensures
        (o.state, o.exit) == ctrl_c_step(state, now),
        o.exit ==> o.hint is None,
        !o.exit ==> (o.hint matches Some(h) && h@ == first_press_hint(is_processing && state == CtrlCState::Idle)),
{
    match state {
        CtrlCState::Idle => {
            let text = if is_processing {
                String::from_str("Turn cancelled. Press Ctrl+C again to exit.")
            } else {
                String::from_str("Press Ctrl+C again within 2 seconds to exit.")
            };
            CtrlCOutcome { state: CtrlCState::Waiting(now), exit: false, hint: Some(text) }
        },
        CtrlCState::Waiting(at) => {
            if now >= at && now - at < DOUBLE_CTRL_C_WINDOW_MS {
                CtrlCOutcome { state, exit: true, hint: None }
            } else {
                CtrlCOutcome {
                    state: CtrlCState::Waiting(now),
                    exit: false,
                    hint: Some(String::from_str("Press Ctrl+C again within 2 seconds to exit.")),
                }
            }
        },
    }
}

/// Whether a tip created at `created_at` with lifetime `ttl` has expired at
/// `now` (all in milliseconds).
pub fn tip_expired(created_at: u64, ttl: u64, now: u64) -> (b: bool)
    ensures
        b == (now >= created_at && now - created_at >= ttl),
{
    now >= created_at && now - created_at >= ttl
}

/// The confirmation state and exit decision after a press at `now`.
pub open spec fn ctrl_c_step(state: CtrlCState, now: u64) -> (CtrlCState, bool) {
    match state {
        CtrlCState::Waiting(at) => if now >= at && now - at < DOUBLE_CTRL_C_WINDOW_MS {
            (state, true)
        } else {
            (CtrlCState::Waiting(now), false)
        },
        CtrlCState::Idle => (CtrlCState::Waiting(now), false),
    }
}

/// A first press never exits; a second press within the window after it
/// exits, and one at or after the window's end starts a new window instead.
pub proof fn second_press_within_window_exits(first: u64, second: u64)
    requires
        first <= second,
    ensures
        !ctrl_c_step(CtrlCState::Idle, first).1,
        ctrl_c_step(ctrl_c_step(CtrlCState::Idle, first).0, second).1 <==> second - first
            < DOUBLE_CTRL_C_WINDOW_MS,
        !ctrl_c_step(ctrl_c_step(CtrlCState::Idle, first).0, second).1 ==> ctrl_c_step(
            ctrl_c_step(CtrlCState::Idle, first).0,
            second,
        ).0 == CtrlCState::Waiting(second),
{
}

} // verus!
