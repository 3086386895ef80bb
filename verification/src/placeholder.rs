//! Holding back a standalone "Calling tools…" marker line in assistant text
//! until the response shows whether a structured tool call follows: the
//! marker is dropped when the call is confirmed and released otherwise.

use vstd::prelude::*;
use vstd::string::StringExecFns;
use crate::chars::{chars_eq, str_chars, take_string};
use crate::text::{char_is_ws, is_ws, lead_ws, leading_ws, trim, trim_spec};

verus! {

/// The marker with a horizontal ellipsis.
pub open spec fn marker_unicode() -> Seq<char> {
    "Calling tools…"@
}

/// The marker with three dots.
pub open spec fn marker_ascii() -> Seq<char> {
    "Calling tools..."@
}

/// `s` begins with `p`.
pub open spec fn starts_with(s: Seq<char>, p: Seq<char>) -> bool {
    p.len() <= s.len() && s.take(p.len() as int) == p
}

/// `t` (after its leading whitespace) may still become, or already is, a
/// standalone marker: it is empty, a prefix of a marker, or a marker
/// followed only by whitespace.
pub open spec fn marker_prefix_with(t: Seq<char>, m: Seq<char>) -> bool {
    let tr = t.skip(lead_ws(t) as int);
    starts_with(m, tr) || (starts_with(tr, m) && trim_spec(tr.skip(m.len() as int)).len() == 0)
}

pub open spec fn is_placeholder_prefix_spec(t: Seq<char>) -> bool {
    lead_ws(t) >= t.len() || marker_prefix_with(t, marker_unicode()) || marker_prefix_with(t, marker_ascii())
}

/// `t` is a marker up to surrounding whitespace.
pub open spec fn is_exact_placeholder_spec(t: Seq<char>) -> bool {
    trim_spec(t) == marker_unicode() || trim_spec(t) == marker_ascii()
}

/// Whether `chars[from..]` begins with `p`.
fn starts_with_at(chars: &Vec<char>, from: usize, p: &Vec<char>) -> (b: bool)
    requires
        from <= chars@.len(),
    ensures
        b == starts_with(chars@.skip(from as int), p@),
{
    let n = chars.len();
    if p.len() > n - from {
        return false;
    }
    let mut j: usize = 0;
    while j < p.len()
        invariant
            n == chars@.len(),
            from + p@.len() <= n,
            j <= p@.len(),
            forall|t: int| 0 <= t < j ==> chars@[from + t] == p@[t],
        decreases p@.len() - j,
    {
        if chars[from + j] != p[j] {
            proof {
                assert(chars@.skip(from as int).take(p@.len() as int)[j as int] != p@[j as int]);
            }
            return false;
        }
        j = j + 1;
    }
    proof {
        assert(chars@.skip(from as int).take(p@.len() as int) =~= p@);
    }
    true
}

/// Whether `p[..]` begins with `chars[from..]`.
fn is_prefix_of(chars: &Vec<char>, from: usize, p: &Vec<char>) -> (b: bool)
    requires
        from <= chars@.len(),
    ensures
        b == starts_with(p@, chars@.skip(from as int)),
{
    let n = chars.len();
    let len = n - from;
    if len > p.len() {
        return false;
    }
    let mut j: usize = 0;
    while j < len
        invariant
            n == chars@.len(),
            len == n - from,
            len <= p@.len(),
            j <= len,
            forall|t: int| 0 <= t < j ==> chars@[from + t] == p@[t],
        decreases len - j,
    {
        if chars[from + j] != p[j] {
            proof {
                assert(p@.take(len as int)[j as int] != chars@.skip(from as int)[j as int]);
            }
            return false;
        }
        j = j + 1;
    }
    proof {
        assert(p@.take(len as int) =~= chars@.skip(from as int));
    }
    true
}

fn prefix_with(chars: &Vec<char>, lead: usize, m: &Vec<char>) -> (b: bool)
    requires
        lead == lead_ws(chars@),
        lead <= chars@.len(),
    ensures
        b == marker_prefix_with(chars@, m@),
{
    proof {
        assert(chars@.skip(0) =~= chars@);
    }
    if is_prefix_of(chars, lead, m) {
        return true;
    }
    if !starts_with_at(chars, lead, m) {
        return false;
    }
    let n = chars.len();
    proof {
        assert(m@.len() <= chars@.skip(lead as int).len());
        assert(lead + m@.len() <= n);
    }
    let rest = lead + m.len();
    let k = leading_ws(chars, rest);
    proof {
        let tr = chars@.skip(lead as int);
        assert(tr.skip(m@.len() as int) =~= chars@.skip(rest as int));
        crate::text::trim_empty_iff(chars@.skip(rest as int));
    }
    proof {
        assert(rest + k <= n);
    }
    rest + k == n
}

/// Whether `text` may still become, or is, a standalone marker line.
pub fn is_placeholder_prefix(text: &str) -> (b: bool)
    ensures
        b == is_placeholder_prefix_spec(text@),
{
    let chars = str_chars(text);
    let lead = leading_ws(&chars, 0);
    proof {
        assert(chars@.skip(0) =~= chars@);
    }
    if lead == chars.len() {
        return true;
    }
    let m1 = str_chars("Calling tools…");
    let m2 = str_chars("Calling tools...");
    prefix_with(&chars, lead, &m1) || prefix_with(&chars, lead, &m2)
}

/// Whether `text` is a marker up to surrounding whitespace.
pub fn is_exact_placeholder(text: &str) -> (b: bool)
    ensures
        b == is_exact_placeholder_spec(text@),
{
    let t = str_chars(trim(text).as_str());
    let m1 = str_chars("Calling tools…");
    let m2 = str_chars("Calling tools...");
    chars_eq(&t, &m1) || chars_eq(&t, &m2)
}

/// The filter's state as plain values.
pub struct GateModel {
    pub enabled: bool,
    pub at_line_start: bool,
    pub candidate: Seq<char>,
    pub held: Seq<char>,
}

/// Feeding one character to an enabled filter: the new state and the text
/// released.
///
/// - While a marker is held, whitespace joins it; anything else releases
///   it first.
/// - At a line start the character joins the line candidate; as long as the
///   candidate may still be a marker it is kept (and a newline after an
///   exact marker moves it to the held marker); otherwise the candidate is
///   released.
/// - Elsewhere the character is released at once.
pub open spec fn gate_step(m: GateModel, ch: char) -> (GateModel, Seq<char>) {
    if m.held.len() > 0 && is_ws(ch) {
        (
            GateModel { held: m.held.push(ch), at_line_start: ch == '\n' || m.at_line_start, ..m },
            Seq::empty(),
        )
    } else {
        let released = m.held;
        let m1 = GateModel { held: Seq::empty(), ..m };
        if m1.at_line_start {
            let cand = m1.candidate.push(ch);
            if is_placeholder_prefix_spec(cand) {
                if ch == '\n' && is_exact_placeholder_spec(cand) {
                    (GateModel { held: cand, candidate: Seq::empty(), at_line_start: true, ..m1 }, released)
                } else {
                    (GateModel { candidate: cand, ..m1 }, released)
                }
            } else {
                (GateModel { candidate: Seq::empty(), at_line_start: ch == '\n', ..m1 }, released + cand)
            }
        } else {
            (GateModel { at_line_start: ch == '\n' || m1.at_line_start, ..m1 }, released.push(ch))
        }
    }
}

/// Feeding a whole text, character by character.
pub open spec fn gate_push(m: GateModel, s: Seq<char>) -> (GateModel, Seq<char>)
    decreases s.len(),
{
    if s.len() == 0 {
        (m, Seq::empty())
    } else {
        let (m1, o1) = gate_push(m, s.drop_last());
        let (m2, o2) = gate_step(m1, s.last());
        (m2, o1 + o2)
    }
}

/// The filter's bookkeeping: a held marker leaves no candidate, and off a
/// line start there is no candidate.
pub open spec fn gate_inv(m: GateModel) -> bool {
    &&& (m.held.len() > 0 ==> m.candidate.len() == 0)
    &&& (!m.at_line_start ==> m.candidate.len() == 0)
}

/// What the filter still holds back, in input order.
pub open spec fn pending(m: GateModel) -> Seq<char> {
    m.held + m.candidate
}

/// The filter releases or keeps every character, in order: what it released
/// followed by what it still holds is what it held before followed by the
/// character.
proof fn gate_step_conserves(m: GateModel, ch: char)
    requires
        gate_inv(m),
    ensures
        gate_inv(gate_step(m, ch).0),
        gate_step(m, ch).1 + pending(gate_step(m, ch).0) == pending(m).push(ch),
{
    let (m2, o) = gate_step(m, ch);
    if m.held.len() > 0 && is_ws(ch) {
        assert(o + pending(m2) =~= pending(m).push(ch));
    } else if m.at_line_start {
        let cand = m.candidate.push(ch);
        assert(o + pending(m2) =~= pending(m).push(ch));
    } else {
        assert(o + pending(m2) =~= pending(m).push(ch));
    }
}

/// Feeding a text keeps the bookkeeping and loses nothing.
pub proof fn gate_push_conserves(m: GateModel, s: Seq<char>)
    requires
        gate_inv(m),
    ensures
        gate_inv(gate_push(m, s).0),
        gate_push(m, s).1 + pending(gate_push(m, s).0) == pending(m) + s,
    decreases s.len(),
{
    if s.len() > 0 {
        gate_push_conserves(m, s.drop_last());
        let (m1, o1) = gate_push(m, s.drop_last());
        gate_step_conserves(m1, s.last());
        let (m2, o2) = gate_step(m1, s.last());
        assert(o1 + o2 + pending(m2) =~= o1 + (o2 + pending(m2)));
        assert(s.drop_last().push(s.last()) =~= s);
        assert(pending(m) + s =~= (pending(m) + s.drop_last()).push(s.last()));
    } else {
        assert(pending(m) + s =~= pending(m));
        assert(gate_push(m, s).1 + pending(gate_push(m, s).0) =~= pending(m));
    }
}

/// The filter only delays text: without a confirmed tool call, everything
/// fed to a freshly started filter comes back, in order, once the filter is
/// flushed.
pub proof fn flushing_returns_everything(s: Seq<char>)
    ensures
        ({
            let start = GateModel {
                enabled: true,
                at_line_start: true,
                candidate: Seq::empty(),
                held: Seq::empty(),
            };
            let (m, out) = gate_push(start, s);
            out + pending(m) == s
        }),
{
    let start = GateModel { enabled: true, at_line_start: true, candidate: Seq::empty(), held: Seq::empty() };
    gate_push_conserves(start, s);
    assert(pending(start) + s =~= s);
}

/// The end of a message's content: an exact marker left on the line joins
/// the held marker, any other candidate is released.
pub open spec fn gate_finish(m: GateModel) -> (GateModel, Seq<char>) {
    if is_exact_placeholder_spec(m.candidate) {
        (GateModel { held: m.held + m.candidate, candidate: Seq::empty(), ..m }, Seq::empty())
    } else {
        (GateModel { candidate: Seq::empty(), ..m }, m.candidate)
    }
}

/// One call on a running filter.
pub enum GateCall {
    Push(Seq<char>),
    FinishContent,
}

/// A series of calls on an enabled filter: its final state and everything
/// it released, in call order.
pub open spec fn gate_calls(m: GateModel, calls: Seq<GateCall>) -> (GateModel, Seq<char>)
    decreases calls.len(),
{
    if calls.len() == 0 {
        (m, Seq::empty())
    } else {
        let (m1, o1) = gate_calls(m, calls.drop_last());
        let (m2, o2) = match calls.last() {
            GateCall::Push(s) => gate_push(m1, s),
            GateCall::FinishContent => gate_finish(m1),
        };
        (m2, o1 + o2)
    }
}

/// The text pushed by a series of calls, in order.
pub open spec fn pushed_text(calls: Seq<GateCall>) -> Seq<char>
    decreases calls.len(),
{
    if calls.len() == 0 {
        Seq::empty()
    } else {
        pushed_text(calls.drop_last()) + match calls.last() {
            GateCall::Push(s) => s,
            GateCall::FinishContent => Seq::empty(),
        }
    }
}

/// Pushes interleaved with ends of content, with no confirmed tool call in
/// between, drop, duplicate and reorder nothing: what the filter released
/// followed by what it still holds is what it held before followed by every
/// pushed text.
pub proof fn interleaved_calls_conserve_text(m: GateModel, calls: Seq<GateCall>)
    requires
        gate_inv(m),
    ensures
        gate_inv(gate_calls(m, calls).0),
        gate_calls(m, calls).0.enabled == m.enabled,
        gate_calls(m, calls).1 + pending(gate_calls(m, calls).0) == pending(m) + pushed_text(calls),
    decreases calls.len(),
{
    if calls.len() > 0 {
        interleaved_calls_conserve_text(m, calls.drop_last());
        let (m1, o1) = gate_calls(m, calls.drop_last());
        let t1 = pushed_text(calls.drop_last());
        match calls.last() {
            GateCall::Push(s) => {
                gate_push_conserves(m1, s);
                gate_push_keeps_enabled(m1, s);
                let (m2, o2) = gate_push(m1, s);
                assert(o1 + o2 + pending(m2) =~= o1 + (o2 + pending(m2)));
                assert(pending(m) + (t1 + s) =~= pending(m) + t1 + s);
            },
            GateCall::FinishContent => {
                let (m2, o2) = gate_finish(m1);
                assert(o2 + pending(m2) =~= pending(m1));
                assert(o1 + o2 + pending(m2) =~= o1 + (o2 + pending(m2)));
                assert(t1 + Seq::<char>::empty() =~= t1);
            },
        }
    } else {
        assert(pending(m) + Seq::<char>::empty() =~= pending(m));
        assert(Seq::<char>::empty() + pending(m) =~= pending(m));
    }
}

proof fn gate_push_keeps_enabled(m: GateModel, s: Seq<char>)
    ensures
        gate_push(m, s).0.enabled == m.enabled,
    decreases s.len(),
{
    if s.len() > 0 {
        gate_push_keeps_enabled(m, s.drop_last());
    }
}

/// From a freshly started filter, the text released by pushes and ends of
/// content, followed by the final flush, is every pushed text in order.
pub proof fn started_filter_returns_every_pushed_text(calls: Seq<GateCall>)
    ensures
        ({
            let start = GateModel {
                enabled: true,
                at_line_start: true,
                candidate: Seq::empty(),
                held: Seq::empty(),
            };
            let (m, out) = gate_calls(start, calls);
            out + pending(m) == pushed_text(calls)
        }),
{
    let start = GateModel { enabled: true, at_line_start: true, candidate: Seq::empty(), held: Seq::empty() };
    interleaved_calls_conserve_text(start, calls);
    assert(pending(start) + pushed_text(calls) =~= pushed_text(calls));
}

/// The placeholder filter of one streamed message.
#[derive(Debug, Clone)]
pub struct ToolPlaceholderGate {
    pub enabled: bool,
    pub at_line_start: bool,
    pub line_candidate: String,
    pub held_marker: String,
}

impl ToolPlaceholderGate {
    pub open spec fn model(&self) -> GateModel {
        GateModel {
            enabled: self.enabled,
            at_line_start: self.at_line_start,
            candidate: self.line_candidate@,
            held: self.held_marker@,
        }
    }

    /// A disabled filter holding nothing.
    pub fn new() -> (g: Self)
        ensures
            !g.model().enabled,
            g.model().at_line_start == false,
            g.model().candidate.len() == 0,
            g.model().held.len() == 0,
    {
        ToolPlaceholderGate {
            enabled: false,
            at_line_start: false,
            line_candidate: String::new(),
            held_marker: String::new(),
        }
    }

    /// Starts a message: only assistant text is held back.
    pub fn start(&mut self, is_assistant: bool)
        ensures
            final(self).model() == (GateModel {
                enabled: is_assistant,
                at_line_start: true,
                candidate: Seq::empty(),
                held: Seq::empty(),
            }),
    {
        self.enabled = is_assistant;
        self.at_line_start = true;
        self.line_candidate = String::new();
        self.held_marker = String::new();
    }

    /// Feeds streamed text and returns what may be shown now.
    pub fn push(&mut self, text: &str) -> (out: String)
        requires
            gate_inv(old(self).model()),
        ensures
            gate_inv(final(self).model()),
            !old(self).enabled ==> out@ == text@ && final(self).model() == old(self).model(),
            old(self).enabled ==> (final(self).model(), out@) == gate_push(old(self).model(), text@),
    {
        if !self.enabled {
            return String::from_str(text);
        }
        let chars = str_chars(text);
        let mut output = String::new();
        let ghost m0 = self.model();
        let mut i: usize = 0;
        proof {
            assert(text@.take(0) =~= Seq::<char>::empty());
            assert(output@ =~= Seq::<char>::empty());
        }
        while i < chars.len()
            invariant
                chars@ == text@,
                i <= chars@.len(),
                self.enabled,
                m0.enabled,
                gate_inv(self.model()),
                (self.model(), output@) == gate_push(m0, text@.take(i as int)),
            decreases chars@.len() - i,
        {
            let ch = chars[i];
            let ghost before = self.model();
            let ghost out_before = output@;
            let (released, _) = self.step(ch);
            output.append(released.as_str());
            proof {
                let t = text@.take(i + 1);
                assert(t.drop_last() =~= text@.take(i as int));
                assert(t.last() == ch);
                gate_step_conserves(before, ch);
            }
            i = i + 1;
        }
        proof {
            assert(text@.take(text@.len() as int) =~= text@);
        }
        output
    }

    fn step(&mut self, ch: char) -> (r: (String, bool))
        requires
            old(self).enabled,
            gate_inv(old(self).model()),
        ensures
            final(self).enabled,
            (final(self).model(), r.0@) == gate_step(old(self).model(), ch),
    {
        let mut released = String::new();
        if !self.held_marker.as_str().is_empty() {
            proof {
                assert(self.held_marker@.len() > 0);
            }
            if char_is_ws(ch) {
                self.held_marker.push(ch);
                self.at_line_start = ch == '\n' || self.at_line_start;
                return (released, false);
            }
            released = take_string(&mut self.held_marker);
        }
        proof {
            if old(self).held_marker@.len() == 0 {
                assert(released@ =~= old(self).held_marker@);
                assert(self.held_marker@ =~= Seq::<char>::empty());
            }
            assert(released@ == old(self).held_marker@);
            assert(self.held_marker@ == Seq::<char>::empty());
        }
        if self.at_line_start {
            self.line_candidate.push(ch);
            if is_placeholder_prefix(self.line_candidate.as_str()) {
                if ch == '\n' && is_exact_placeholder(self.line_candidate.as_str()) {
                    self.held_marker = take_string(&mut self.line_candidate);
                    self.at_line_start = true;
                }
                return (released, false);
            }
            let candidate = take_string(&mut self.line_candidate);
            self.at_line_start = ch == '\n';
            released.append(candidate.as_str());
            (released, true)
        } else {
            released.push(ch);
            if ch == '\n' {
                self.at_line_start = true;
            }
            (released, true)
        }
    }

    /// The message's content ended: an exact marker left on the line moves
    /// to the held marker; any other candidate is released.
    pub fn finish_content(&mut self) -> (out: String)
        ensures
            is_exact_placeholder_spec(old(self).line_candidate@) ==> out@.len() == 0
                && final(self).held_marker@ == old(self).held_marker@ + old(self).line_candidate@,
            !is_exact_placeholder_spec(old(self).line_candidate@) ==> out@ == old(self).line_candidate@
                && final(self).held_marker@ == old(self).held_marker@,
            final(self).line_candidate@.len() == 0,
            final(self).enabled == old(self).enabled,
            final(self).at_line_start == old(self).at_line_start,
            (final(self).model(), out@) == gate_finish(old(self).model()),
    {
        let candidate = take_string(&mut self.line_candidate);
        if is_exact_placeholder(candidate.as_str()) {
            self.held_marker.append(candidate.as_str());
            String::new()
        } else {
            candidate
        }
    }

    /// A structured tool call followed: the held marker and an exact marker
    /// candidate are dropped, any other candidate is released, and the filter
    /// is disabled.
    pub fn confirm_tool_call(&mut self) -> (out: String)
        ensures
            out@ == (if is_exact_placeholder_spec(old(self).line_candidate@) {
                Seq::empty()
            } else {
                old(self).line_candidate@
            }),
            final(self).held_marker@.len() == 0,
            final(self).line_candidate@.len() == 0,
            !final(self).enabled,
            final(self).at_line_start == old(self).at_line_start,
    {
        let candidate = take_string(&mut self.line_candidate);
        let output = if is_exact_placeholder(candidate.as_str()) {
            String::new()
        } else {
            candidate
        };
        self.held_marker = String::new();
        self.enabled = false;
        output
    }

    /// Whether a marker is held back.
    pub fn is_pending(&self) -> (b: bool)
        ensures
            b == (self.held_marker@.len() > 0),
    {
        !self.held_marker.as_str().is_empty()
    }

    /// No tool call followed: everything held back is released and the
    /// filter is disabled.
    pub fn flush(&mut self) -> (out: String)
        ensures
            out@ == pending(old(self).model()),
            final(self).held_marker@.len() == 0,
            final(self).line_candidate@.len() == 0,
            !final(self).enabled,
            final(self).at_line_start == old(self).at_line_start,
    {
        self.enabled = false;
        let mut output = take_string(&mut self.held_marker);
        let candidate = take_string(&mut self.line_candidate);
        output.append(candidate.as_str());
        output
    }
}

} // verus!
