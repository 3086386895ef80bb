//! Terminal session lifecycle: entering the interactive terminal modes in a
//! fixed order, rolling back exactly what was entered when a step fails, and
//! restoring every mode that is still active.

use vstd::prelude::*;

verus! {

/// One terminal mode change.
#[derive(Clone, Copy, Debug, PartialEq, Eq, Structural)]
pub enum TerminalAction {
    EnableRawMode,
    PushKeyboardEnhancement,
    EnterAlternateScreen,
    HideCursor,
    EnableBracketedPaste,
    EnableMouseCapture,
    ClearFrame,
    DisableMouseCapture,
    DisableBracketedPaste,
    ShowCursor,
    LeaveAlternateScreen,
    PopKeyboardEnhancement,
    DisableRawMode,
}

/// What the lifecycle asked of the terminal: a mode change, or the keyboard
/// capability probe.
#[derive(Clone, Copy, Debug, PartialEq, Eq, Structural)]
pub enum LifecycleEvent {
    Action(TerminalAction),
    KeyboardProbe,
}

/// Which terminal modes are currently entered.
#[derive(Clone, Copy, Debug, PartialEq, Eq, Structural)]
pub struct TerminalLifecycleState {
    pub raw_mode: bool,
    pub alternate_screen: bool,
    pub cursor_hidden: bool,
    pub bracketed_paste: bool,
    pub mouse_capture: bool,
    pub keyboard_enhancement: bool,
}

impl TerminalLifecycleState {
    /// No mode entered.
    pub fn new() -> (s: Self)
        ensures
            s == Self::none(),
    {
        TerminalLifecycleState {
            raw_mode: false,
            alternate_screen: false,
            cursor_hidden: false,
            bracketed_paste: false,
            mouse_capture: false,
            keyboard_enhancement: false,
        }
    }

    pub open spec fn none() -> Self {
        TerminalLifecycleState {
            raw_mode: false,
            alternate_screen: false,
            cursor_hidden: false,
            bracketed_paste: false,
            mouse_capture: false,
            keyboard_enhancement: false,
        }
    }
}

/// The terminal the lifecycle drives: it answers the keyboard capability
/// probe and performs mode changes, reporting failures with its own error.
pub trait TerminalBackend {
    type Error;

    /// Asks whether keyboard enhancement should be enabled.
    fn keyboard_enhancement_requested(&mut self) -> bool;

    /// Performs one mode change.
    fn run(&mut self, action: TerminalAction) -> Result<(), Self::Error>;
}

/// A terminal together with the history of what was asked of it, what it
/// answered (for a mode change whether it succeeded, for the probe its
/// answer) and the errors it reported, in order, which the lifecycle's
/// contracts speak about.
pub struct TracedTerminal<B: TerminalBackend> {
    pub backend: B,
    pub trace: Ghost<Seq<LifecycleEvent>>,
    pub answers: Ghost<Seq<bool>>,
    pub failures: Ghost<Seq<B::Error>>,
}

impl<B: TerminalBackend> TracedTerminal<B> {
    /// Starts tracing `backend` with an empty history.
    pub fn new(backend: B) -> (t: Self)
        ensures
            t.issued() == Seq::<LifecycleEvent>::empty(),
            t.answers@ == Seq::<bool>::empty(),
            t.failures@ == Seq::<B::Error>::empty(),
    {
        TracedTerminal { backend, trace: Ghost(Seq::empty()), answers: Ghost(Seq::empty()), failures: Ghost(Seq::empty()) }
    }

    /// Everything asked of the terminal so far, in order.
    pub open spec fn issued(&self) -> Seq<LifecycleEvent> {
        self.trace@
    }

    /// Asks the capability probe and records it with its answer.
    pub fn keyboard_enhancement_requested(&mut self) -> (b: bool)
        ensures
            final(self).issued() == old(self).issued().push(LifecycleEvent::KeyboardProbe),
            final(self).answers@ == old(self).answers@.push(b),
            final(self).failures@ == old(self).failures@,
    {
        let b = self.backend.keyboard_enhancement_requested();
        self.trace = Ghost(self.trace@.push(LifecycleEvent::KeyboardProbe));
        self.answers = Ghost(self.answers@.push(b));
        b
    }

    /// Performs one mode change and records it with its outcome; a failure's
    /// error is recorded too.
    pub fn run(&mut self, action: TerminalAction) -> (r: Result<(), B::Error>)
        ensures
            final(self).issued() == old(self).issued().push(LifecycleEvent::Action(action)),
            final(self).answers@ == old(self).answers@.push(r is Ok),
            r is Ok ==> final(self).failures@ == old(self).failures@,
            r matches Err(e) ==> final(self).failures@ == old(self).failures@.push(e),
    {
        let r = self.backend.run(action);
        self.trace = Ghost(self.trace@.push(LifecycleEvent::Action(action)));
        self.answers = Ghost(self.answers@.push(r is Ok));
        match &r {
            Ok(()) => {},
            Err(e) => {
                self.failures = Ghost(self.failures@.push(*e));
            },
        }
        r
    }
}

/// `std::io::Error`, the error of a failed capability query; it is only
/// carried, never inspected.
#[verifier::external_type_specification]
#[verifier::external_body]
pub struct ExIoError(std::io::Error);

/// A negative capability answer is authoritative, but a failed query is
/// not: enhancement is then requested on a best-effort basis.
pub fn keyboard_enhancement_requested(result: std::io::Result<bool>) -> (b: bool)
    ensures
        b == !(result matches Ok(false)),
{
    match result {
        Ok(false) => false,
        _ => true,
    }
}

/// The restore event for one mode: present exactly when the mode is entered.
#[verifier::opaque]
pub open spec fn restore_step(entered: bool, action: TerminalAction) -> Seq<LifecycleEvent> {
    if entered {
        seq![LifecycleEvent::Action(action)]
    } else {
        seq![]
    }
}

/// The restore actions for the entered modes, in restore order: mouse
/// capture, bracketed paste, cursor, keyboard enhancement, alternate screen,
/// raw mode.
pub open spec fn restore_events(s: TerminalLifecycleState) -> Seq<LifecycleEvent> {
    restore_step(s.mouse_capture, TerminalAction::DisableMouseCapture)
        + restore_step(s.bracketed_paste, TerminalAction::DisableBracketedPaste)
        + restore_step(s.cursor_hidden, TerminalAction::ShowCursor)
        + restore_step(s.keyboard_enhancement, TerminalAction::PopKeyboardEnhancement)
        + restore_step(s.alternate_screen, TerminalAction::LeaveAlternateScreen)
        + restore_step(s.raw_mode, TerminalAction::DisableRawMode)
}

/// Restoring only clears modes; a mode whose restore failed stays entered.
pub open spec fn restore_outcome_ok(before: TerminalLifecycleState, after: TerminalLifecycleState) -> bool {
    &&& after.mouse_capture ==> before.mouse_capture
    &&& after.bracketed_paste ==> before.bracketed_paste
    &&& after.cursor_hidden ==> before.cursor_hidden
    &&& after.keyboard_enhancement ==> before.keyboard_enhancement
    &&& after.alternate_screen ==> before.alternate_screen
    &&& after.raw_mode ==> before.raw_mode
}

/// One restore step over the answers: an entered mode consumes the next
/// answer and stays entered when it is a failure; a mode not entered
/// consumes nothing.
pub open spec fn restore_step_answer(entered: bool, ans: Seq<bool>) -> (bool, Seq<bool>) {
    if entered {
        (!ans[0], ans.skip(1))
    } else {
        (false, ans)
    }
}

/// The modes still entered after a restore of `s` whose actions were
/// answered `ans`, in restore order: exactly the entered modes whose restore
/// failed.
pub open spec fn restored(s: TerminalLifecycleState, ans: Seq<bool>) -> TerminalLifecycleState {
    let (m, a1) = restore_step_answer(s.mouse_capture, ans);
    let (p, a2) = restore_step_answer(s.bracketed_paste, a1);
    let (c, a3) = restore_step_answer(s.cursor_hidden, a2);
    let (k, a4) = restore_step_answer(s.keyboard_enhancement, a3);
    let (alt, a5) = restore_step_answer(s.alternate_screen, a4);
    let (raw, _a6) = restore_step_answer(s.raw_mode, a5);
    TerminalLifecycleState {
        mouse_capture: m,
        bracketed_paste: p,
        cursor_hidden: c,
        keyboard_enhancement: k,
        alternate_screen: alt,
        raw_mode: raw,
    }
}

/// The answers a restore step appends: its outcome when the mode is entered.
#[verifier::opaque]
pub open spec fn step_answers(enabled: bool, still: bool) -> Seq<bool> {
    if enabled {
        seq![!still]
    } else {
        Seq::empty()
    }
}

/// The first error of this restore, when there is one, is the first
/// failure recorded from position `n` on.
pub open spec fn first_error_at<E>(fe: Option<E>, fails: Seq<E>, n: int) -> bool {
    match fe {
        None => fails.len() == n,
        Some(e) => fails.len() > n && e == fails[n],
    }
}

proof fn lemma_step_answer(enabled: bool, still: bool, rest: Seq<bool>)
    requires
        still ==> enabled,
    ensures
        restore_step_answer(enabled, step_answers(enabled, still) + rest) == (still, rest),
{
    reveal(step_answers);
    if enabled {
        assert((seq![!still] + rest).skip(1) =~= rest);
    } else {
        assert(Seq::<bool>::empty() + rest =~= rest);
    }
}

/// Restoring nothing entered leaves nothing entered, whatever the answers.
pub proof fn restored_none(ans: Seq<bool>)
    ensures
        restored(TerminalLifecycleState::none(), ans) == TerminalLifecycleState::none(),
{
}

/// Whether every answer in `ans` is a success.
pub open spec fn all_succeeded(ans: Seq<bool>) -> bool {
    forall|i: int| 0 <= i < ans.len() ==> #[trigger] ans[i]
}

proof fn lemma_step_succeeded(entered: bool, ans: Seq<bool>)
    requires
        all_succeeded(ans),
        entered ==> ans.len() >= 1,
    ensures
        !restore_step_answer(entered, ans).0,
        all_succeeded(restore_step_answer(entered, ans).1),
        restore_step_answer(entered, ans).1.len() == ans.len() - if entered { 1int } else { 0int },
{
    if entered {
        assert(ans[0]);
        assert forall|i: int| 0 <= i < ans.skip(1).len() implies #[trigger] ans.skip(1)[i] by {
            assert(ans[i + 1]);
        }
    }
}

/// A restore never enters a mode, and when the terminal accepted every
/// restore action nothing is left entered, so a retry issues nothing.
pub proof fn restore_keeps_only_failed_modes(s: TerminalLifecycleState, ans: Seq<bool>)
    ensures
        restore_outcome_ok(s, restored(s, ans)),
        all_succeeded(ans) && ans.len() >= restore_events(s).len() ==> restored(s, ans)
            == TerminalLifecycleState::none(),
{
    if all_succeeded(ans) && ans.len() >= restore_events(s).len() {
        reveal(restore_step);
        let (m, a1) = restore_step_answer(s.mouse_capture, ans);
        lemma_step_succeeded(s.mouse_capture, ans);
        let (p, a2) = restore_step_answer(s.bracketed_paste, a1);
        lemma_step_succeeded(s.bracketed_paste, a1);
        let (c, a3) = restore_step_answer(s.cursor_hidden, a2);
        lemma_step_succeeded(s.cursor_hidden, a2);
        let (k, a4) = restore_step_answer(s.keyboard_enhancement, a3);
        lemma_step_succeeded(s.keyboard_enhancement, a3);
        let (alt, a5) = restore_step_answer(s.alternate_screen, a4);
        lemma_step_succeeded(s.alternate_screen, a4);
        lemma_step_succeeded(s.raw_mode, a5);
    }
}

pub open spec fn flag(b: bool) -> int {
    if b { 1 } else { 0 }
}

proof fn lemma_step_general(entered: bool, ans: Seq<bool>, k: int, full: Seq<bool>)
    requires
        0 <= k <= full.len(),
        ans == full.skip(k),
        entered ==> k < full.len(),
    ensures
        restore_step_answer(entered, ans).0 == (entered && !full[k]),
        restore_step_answer(entered, ans).1 == full.skip(k + flag(entered)),
{
    if entered {
        assert(ans.skip(1) =~= full.skip(k + 1));
    }
}

/// After a restore whose actions were answered `ans`, in restore order, a
/// mode stays entered exactly when it was entered and its own restore
/// failed: the `j`-th answer belongs to the `j`-th entered mode. So a
/// second restore retries exactly the failed restore actions, in the same
/// order (see `restore_events`).
pub proof fn restore_leaves_exactly_the_failed_modes(s: TerminalLifecycleState, ans: Seq<bool>)
    requires
        ans.len() >= restore_events(s).len(),
    ensures
        ({
            let k1 = flag(s.mouse_capture);
            let k2 = k1 + flag(s.bracketed_paste);
            let k3 = k2 + flag(s.cursor_hidden);
            let k4 = k3 + flag(s.keyboard_enhancement);
            let k5 = k4 + flag(s.alternate_screen);
            let r = restored(s, ans);
            &&& r.mouse_capture == (s.mouse_capture && !ans[0])
            &&& r.bracketed_paste == (s.bracketed_paste && !ans[k1])
            &&& r.cursor_hidden == (s.cursor_hidden && !ans[k2])
            &&& r.keyboard_enhancement == (s.keyboard_enhancement && !ans[k3])
            &&& r.alternate_screen == (s.alternate_screen && !ans[k4])
            &&& r.raw_mode == (s.raw_mode && !ans[k5])
        }),
{
    reveal(restore_step);
    let k1 = flag(s.mouse_capture);
    let k2 = k1 + flag(s.bracketed_paste);
    let k3 = k2 + flag(s.cursor_hidden);
    let k4 = k3 + flag(s.keyboard_enhancement);
    let k5 = k4 + flag(s.alternate_screen);
    assert(restore_events(s).len() == k5 + flag(s.raw_mode));
    assert(ans.skip(0) =~= ans);
    lemma_step_general(s.mouse_capture, ans, 0, ans);
    let a1 = restore_step_answer(s.mouse_capture, ans).1;
    lemma_step_general(s.bracketed_paste, a1, k1, ans);
    let a2 = restore_step_answer(s.bracketed_paste, a1).1;
    lemma_step_general(s.cursor_hidden, a2, k2, ans);
    let a3 = restore_step_answer(s.cursor_hidden, a2).1;
    lemma_step_general(s.keyboard_enhancement, a3, k3, ans);
    let a4 = restore_step_answer(s.keyboard_enhancement, a3).1;
    lemma_step_general(s.alternate_screen, a4, k4, ans);
    let a5 = restore_step_answer(s.alternate_screen, a4).1;
    lemma_step_general(s.raw_mode, a5, k5, ans);
}

/// Runs `action` if its mode is entered, clearing the mode on success and
/// keeping the first error.
fn attempt_restore<B: TerminalBackend>(
    enabled: bool,
    action: TerminalAction,
    backend: &mut TracedTerminal<B>,
    first_error: &mut Option<B::Error>,
    Ghost(n): Ghost<int>,
) -> (still_enabled: bool)
    requires
        0 <= n <= old(backend).failures@.len(),
        first_error_at(*old(first_error), old(backend).failures@, n),
    ensures
        first_error_at(*final(first_error), final(backend).failures@, n),
        final(backend).failures@.take(n) == old(backend).failures@.take(n),
        n <= final(backend).failures@.len(),
        final(backend).issued() == old(backend).issued() + restore_step(enabled, action),
        final(backend).answers@ == old(backend).answers@ + step_answers(enabled, still_enabled),
        still_enabled ==> enabled,
        !still_enabled ==> final(backend).failures@ == old(backend).failures@,
        still_enabled ==> final(backend).failures@.len() == old(backend).failures@.len() + 1
            && final(backend).failures@.take(old(backend).failures@.len() as int) == old(backend).failures@,
        old(first_error).is_some() ==> *final(first_error) == *old(first_error),
        old(first_error).is_none() ==> (final(first_error).is_some() <==> still_enabled),
        old(first_error).is_none() && still_enabled ==> *final(first_error) == Some(
            final(backend).failures@.last(),
        ),
{
    proof {
        reveal(restore_step);
        reveal(step_answers);
    }
    if !enabled {
        proof {
            assert(backend.issued() =~= old(backend).issued() + restore_step(enabled, action));
            assert(backend.answers@ =~= old(backend).answers@ + step_answers(enabled, false));
        }
        return false;
    }
    let r = backend.run(action);
    proof {
        assert(backend.issued() =~= old(backend).issued() + restore_step(enabled, action));
    }
    match r {
        Ok(()) => {
            proof {
                assert(backend.answers@ =~= old(backend).answers@ + step_answers(enabled, false));
            }
            false
        },
        Err(error) => {
            proof {
                assert(backend.answers@ =~= old(backend).answers@ + step_answers(enabled, true));
                assert(backend.failures@.take(old(backend).failures@.len() as int) =~= old(backend).failures@);
                assert(backend.failures@.take(n) =~= old(backend).failures@.take(n));
                assert(backend.failures@[n] == old(backend).failures@.push(error)[n]);
            }
            if first_error.is_none() {
                *first_error = Some(error);
            }
            true
        },
    }
}

/// The answers a restore appends, in restore order, given which modes were
/// entered before it and which are still entered after it.
pub open spec fn restore_answers(s0: TerminalLifecycleState, st: TerminalLifecycleState) -> Seq<bool> {
    step_answers(s0.mouse_capture, st.mouse_capture) + (step_answers(s0.bracketed_paste, st.bracketed_paste) + (
    step_answers(s0.cursor_hidden, st.cursor_hidden) + (step_answers(s0.keyboard_enhancement, st.keyboard_enhancement)
        + (step_answers(s0.alternate_screen, st.alternate_screen) + step_answers(s0.raw_mode, st.raw_mode)))))
}

proof fn lemma_restore_trace(
    s0: TerminalLifecycleState,
    st: TerminalLifecycleState,
    start: Seq<LifecycleEvent>,
    issued: Seq<LifecycleEvent>,
    ans0: Seq<bool>,
    ans: Seq<bool>,
)
    requires
        restore_outcome_ok(s0, st),
        issued == start + restore_step(s0.mouse_capture, TerminalAction::DisableMouseCapture) + restore_step(
            s0.bracketed_paste,
            TerminalAction::DisableBracketedPaste,
        ) + restore_step(s0.cursor_hidden, TerminalAction::ShowCursor) + restore_step(
            s0.keyboard_enhancement,
            TerminalAction::PopKeyboardEnhancement,
        ) + restore_step(s0.alternate_screen, TerminalAction::LeaveAlternateScreen) + restore_step(
            s0.raw_mode,
            TerminalAction::DisableRawMode,
        ),
        ans == ans0 + step_answers(s0.mouse_capture, st.mouse_capture) + step_answers(
            s0.bracketed_paste,
            st.bracketed_paste,
        ) + step_answers(s0.cursor_hidden, st.cursor_hidden) + step_answers(
            s0.keyboard_enhancement,
            st.keyboard_enhancement,
        ) + step_answers(s0.alternate_screen, st.alternate_screen) + step_answers(s0.raw_mode, st.raw_mode),
    ensures
        issued == start + restore_events(s0),
        ans.len() == ans0.len() + restore_events(s0).len(),
        ans.take(ans0.len() as int) == ans0,
        st == restored(s0, ans.skip(ans0.len() as int)),
        st == TerminalLifecycleState::none() <==> !st.mouse_capture && !st.bracketed_paste && !st.cursor_hidden
            && !st.keyboard_enhancement && !st.alternate_screen && !st.raw_mode,
{
    lemma_restore_issued(s0, start, issued);
    lemma_restore_len(s0, st);
    let d1 = step_answers(s0.mouse_capture, st.mouse_capture);
    let d2 = step_answers(s0.bracketed_paste, st.bracketed_paste);
    let d3 = step_answers(s0.cursor_hidden, st.cursor_hidden);
    let d4 = step_answers(s0.keyboard_enhancement, st.keyboard_enhancement);
    let d5 = step_answers(s0.alternate_screen, st.alternate_screen);
    let d6 = step_answers(s0.raw_mode, st.raw_mode);
    lemma_regroup(ans0, d1, d2, d3, d4, d5, d6);
    let d = restore_answers(s0, st);
    assert(ans == ans0 + d);
    assert(ans.skip(ans0.len() as int) =~= d);
    assert(ans.take(ans0.len() as int) =~= ans0);
    lemma_restored_answers(s0, st);
}

proof fn lemma_assoc(p: Seq<bool>, q: Seq<bool>, r: Seq<bool>)
    ensures
        p + q + r == p + (q + r),
{
    assert(p + q + r =~= p + (q + r));
}

proof fn lemma_regroup(
    a: Seq<bool>,
    b: Seq<bool>,
    c: Seq<bool>,
    d: Seq<bool>,
    e: Seq<bool>,
    f: Seq<bool>,
    g: Seq<bool>,
)
    ensures
        a + b + c + d + e + f + g == a + (b + (c + (d + (e + (f + g))))),
{
    lemma_assoc(a + b + c + d + e, f, g);
    lemma_assoc(a + b + c + d, e, f + g);
    lemma_assoc(a + b + c, d, e + (f + g));
    lemma_assoc(a + b, c, d + (e + (f + g)));
    lemma_assoc(a, b, c + (d + (e + (f + g))));
}

proof fn lemma_restore_issued(s0: TerminalLifecycleState, start: Seq<LifecycleEvent>, issued: Seq<LifecycleEvent>)
    requires
        issued == start + restore_step(s0.mouse_capture, TerminalAction::DisableMouseCapture) + restore_step(
            s0.bracketed_paste,
            TerminalAction::DisableBracketedPaste,
        ) + restore_step(s0.cursor_hidden, TerminalAction::ShowCursor) + restore_step(
            s0.keyboard_enhancement,
            TerminalAction::PopKeyboardEnhancement,
        ) + restore_step(s0.alternate_screen, TerminalAction::LeaveAlternateScreen) + restore_step(
            s0.raw_mode,
            TerminalAction::DisableRawMode,
        ),
    ensures
        issued == start + restore_events(s0),
{
    assert(issued =~= start + restore_events(s0));
}

proof fn lemma_restore_len(s0: TerminalLifecycleState, st: TerminalLifecycleState)
    ensures
        restore_answers(s0, st).len() == restore_events(s0).len(),
{
    reveal(restore_step);
    reveal(step_answers);
}

proof fn lemma_restored_answers(s0: TerminalLifecycleState, st: TerminalLifecycleState)
    requires
        restore_outcome_ok(s0, st),
    ensures
        st == restored(s0, restore_answers(s0, st)),
{
    let d1 = step_answers(s0.mouse_capture, st.mouse_capture);
    let d2 = step_answers(s0.bracketed_paste, st.bracketed_paste);
    let d3 = step_answers(s0.cursor_hidden, st.cursor_hidden);
    let d4 = step_answers(s0.keyboard_enhancement, st.keyboard_enhancement);
    let d5 = step_answers(s0.alternate_screen, st.alternate_screen);
    let d6 = step_answers(s0.raw_mode, st.raw_mode);
    lemma_step_answer(s0.mouse_capture, st.mouse_capture, d2 + (d3 + (d4 + (d5 + d6))));
    lemma_step_answer(s0.bracketed_paste, st.bracketed_paste, d3 + (d4 + (d5 + d6)));
    lemma_step_answer(s0.cursor_hidden, st.cursor_hidden, d4 + (d5 + d6));
    lemma_step_answer(s0.keyboard_enhancement, st.keyboard_enhancement, d5 + d6);
    lemma_step_answer(s0.alternate_screen, st.alternate_screen, d6);
    lemma_step_answer(s0.raw_mode, st.raw_mode, Seq::<bool>::empty());
    assert(d6 + Seq::<bool>::empty() =~= d6);
}

/// Leaves every entered mode, attempting all of them even after a failure,
/// and reports the first failure. Exactly the modes whose restore failed
/// stay recorded as entered, so that a later restore retries only those;
/// the result is `Ok` exactly when every restore succeeded.
pub fn restore_lifecycle<B: TerminalBackend>(
    lifecycle: &mut TerminalLifecycleState,
    backend: &mut TracedTerminal<B>,
) -> (r: Result<(), B::Error>)
    ensures
        final(backend).issued() == old(backend).issued() + restore_events(*old(lifecycle)),
        final(backend).answers@.len() == old(backend).answers@.len() + restore_events(*old(lifecycle)).len(),
        final(backend).answers@.take(old(backend).answers@.len() as int) == old(backend).answers@,
        *final(lifecycle) == restored(*old(lifecycle), final(backend).answers@.skip(old(backend).answers@.len() as int)),
        restore_outcome_ok(*old(lifecycle), *final(lifecycle)),
        r is Ok <==> *final(lifecycle) == TerminalLifecycleState::none(),
        final(backend).failures@.len() >= old(backend).failures@.len(),
        final(backend).failures@.take(old(backend).failures@.len() as int) == old(backend).failures@,
        r is Ok ==> final(backend).failures@ == old(backend).failures@,
        r matches Err(e) ==> final(backend).failures@.len() > old(backend).failures@.len() && e
            == final(backend).failures@[old(backend).failures@.len() as int],
{
    let mut first_error: Option<B::Error> = None;
    let ghost start = backend.issued();
    let ghost ans0 = backend.answers@;
    let ghost f0 = backend.failures@;
    let ghost s0 = *lifecycle;
    let ghost n = f0.len() as int;
    proof {
        assert(f0.take(n) =~= f0);
    }
    lifecycle.mouse_capture = attempt_restore(
        lifecycle.mouse_capture,
        TerminalAction::DisableMouseCapture,
        backend,
        &mut first_error,
        Ghost(n),
    );
    lifecycle.bracketed_paste = attempt_restore(
        lifecycle.bracketed_paste,
        TerminalAction::DisableBracketedPaste,
        backend,
        &mut first_error,
        Ghost(n),
    );
    lifecycle.cursor_hidden = attempt_restore(
        lifecycle.cursor_hidden,
        TerminalAction::ShowCursor,
        backend,
        &mut first_error,
        Ghost(n),
    );
    lifecycle.keyboard_enhancement = attempt_restore(
        lifecycle.keyboard_enhancement,
        TerminalAction::PopKeyboardEnhancement,
        backend,
        &mut first_error,
        Ghost(n),
    );
    lifecycle.alternate_screen = attempt_restore(
        lifecycle.alternate_screen,
        TerminalAction::LeaveAlternateScreen,
        backend,
        &mut first_error,
        Ghost(n),
    );
    lifecycle.raw_mode = attempt_restore(
        lifecycle.raw_mode,
        TerminalAction::DisableRawMode,
        backend,
        &mut first_error,
        Ghost(n),
    );
    proof {
        lemma_restore_trace(s0, *lifecycle, start, backend.issued(), ans0, backend.answers@);
    }
    match first_error {
        None => Ok(()),
        Some(e) => Err(e),
    }
}

/// The mode changes of terminal setup, in order. Keyboard enhancement is
/// pushed right after entering the alternate screen, whose key events are
/// the ones read.
pub open spec fn setup_steps(keyboard: bool) -> Seq<TerminalAction> {
    seq![TerminalAction::EnableRawMode, TerminalAction::EnterAlternateScreen] + (if keyboard {
        seq![TerminalAction::PushKeyboardEnhancement]
    } else {
        seq![]
    }) + seq![
        TerminalAction::HideCursor,
        TerminalAction::EnableBracketedPaste,
        TerminalAction::EnableMouseCapture,
        TerminalAction::ClearFrame,
    ]
}

/// The mode a successful setup step enters.
pub open spec fn enter(s: TerminalLifecycleState, a: TerminalAction) -> TerminalLifecycleState {
    match a {
        TerminalAction::EnableRawMode => TerminalLifecycleState { raw_mode: true, ..s },
        TerminalAction::EnterAlternateScreen => TerminalLifecycleState { alternate_screen: true, ..s },
        TerminalAction::PushKeyboardEnhancement => TerminalLifecycleState { keyboard_enhancement: true, ..s },
        TerminalAction::HideCursor => TerminalLifecycleState { cursor_hidden: true, ..s },
        TerminalAction::EnableBracketedPaste => TerminalLifecycleState { bracketed_paste: true, ..s },
        TerminalAction::EnableMouseCapture => TerminalLifecycleState { mouse_capture: true, ..s },
        _ => s,
    }
}

/// The modes entered once the first `k` setup steps succeeded.
pub open spec fn entered_after(keyboard: bool, k: int) -> TerminalLifecycleState
    decreases k,
{
    if k <= 0 {
        TerminalLifecycleState::none()
    } else {
        enter(entered_after(keyboard, k - 1), setup_steps(keyboard)[k - 1])
    }
}

/// What setup asks of the terminal when it attempts its first `m` steps:
/// raw mode first, then the keyboard probe (in raw mode, as the event reader
/// will run), then the remaining steps.
pub open spec fn setup_events(keyboard: bool, m: int) -> Seq<LifecycleEvent>
    decreases m,
{
    if m <= 0 {
        Seq::empty()
    } else if m == 1 {
        seq![LifecycleEvent::Action(TerminalAction::EnableRawMode)]
    } else if m == 2 {
        seq![
            LifecycleEvent::Action(TerminalAction::EnableRawMode),
            LifecycleEvent::KeyboardProbe,
            LifecycleEvent::Action(setup_steps(keyboard)[1]),
        ]
    } else {
        setup_events(keyboard, m - 1).push(LifecycleEvent::Action(setup_steps(keyboard)[m - 1]))
    }
}

/// What the terminal answered during setup when its first `m` steps were
/// attempted: raw mode succeeded and the probe said `keyboard` (once setup
/// got past raw mode), every later step but the last succeeded, and the last
/// attempted step's outcome is `last_ok`.
pub open spec fn setup_answers(keyboard: bool, m: int, last_ok: bool) -> Seq<bool> {
    if m <= 1 {
        seq![last_ok]
    } else {
        seq![true, keyboard] + Seq::new((m - 2) as nat, |i: int| true) + seq![last_ok]
    }
}

/// A failed setup: the step's error, and the first error of the rollback
/// if the rollback failed too.
#[derive(Debug)]
pub struct SetupFailure<E> {
    pub setup: E,
    pub rollback: Option<E>,
}

proof fn lemma_setup_answers_push(keyboard: bool, i: int, last_ok: bool)
    requires
        1 <= i,
    ensures
        (if i == 1 {
            seq![true, keyboard]
        } else {
            setup_answers(keyboard, i, true)
        }).push(last_ok) == setup_answers(keyboard, i + 1, last_ok),
{
    if i == 1 {
        assert(seq![true, keyboard].push(last_ok) =~= setup_answers(keyboard, i + 1, last_ok));
    } else {
        assert(setup_answers(keyboard, i, true).push(last_ok) =~= setup_answers(keyboard, i + 1, last_ok));
    }
}

/// Enters the interactive terminal modes. Setup succeeds exactly when every
/// step succeeds, with every mode entered (keyboard enhancement as the probe
/// answered); when a step fails, the modes entered so far are restored, in
/// restore order, and setup fails with that step's error and, if the
/// rollback failed too, the rollback's first error.
pub fn initialize_lifecycle<B: TerminalBackend>(backend: &mut TracedTerminal<B>) -> (r: Result<
    TerminalLifecycleState,
    SetupFailure<B::Error>,
>)
    ensures
        r matches Ok(s) ==> exists|kb: bool|
            #![trigger setup_steps(kb)]
            s == entered_after(kb, setup_steps(kb).len() as int) && s.keyboard_enhancement == kb
                && final(backend).issued() == old(backend).issued() + setup_events(kb, setup_steps(kb).len() as int)
                && final(backend).answers@ == old(backend).answers@ + setup_answers(
                kb,
                setup_steps(kb).len() as int,
                true,
            ) && final(backend).failures@ == old(backend).failures@,
        r matches Err(f) ==> exists|kb: bool, m: int|
            #![trigger setup_events(kb, m)]
            {
                let tried = setup_events(kb, m).len() as int;
                let n0 = old(backend).answers@.len() as int;
                let f0 = old(backend).failures@.len() as int;
                let rolled = entered_after(kb, m - 1);
                &&& 1 <= m <= setup_steps(kb).len()
                &&& final(backend).issued() == old(backend).issued() + setup_events(kb, m) + restore_events(rolled)
                &&& final(backend).answers@.len() == n0 + tried + restore_events(rolled).len()
                &&& final(backend).answers@.take(n0 + tried) == old(backend).answers@ + setup_answers(kb, m, false)
                &&& (f.rollback is None <==> restored(rolled, final(backend).answers@.skip(n0 + tried))
                    == TerminalLifecycleState::none())
                &&& final(backend).failures@.len() > f0
                &&& final(backend).failures@.take(f0) == old(backend).failures@
                &&& f.setup == final(backend).failures@[f0]
                &&& f.rollback is None ==> final(backend).failures@.len() == f0 + 1
                &&& f.rollback matches Some(e) ==> final(backend).failures@.len() > f0 + 1 && e
                    == final(backend).failures@[f0 + 1]
            },
{
    let ghost start = backend.issued();
    let ghost a0 = backend.answers@;
    let ghost f0 = backend.failures@;
    let mut lifecycle = TerminalLifecycleState::new();
    match backend.run(TerminalAction::EnableRawMode) {
        Ok(()) => {},
        Err(e) => {
            proof {
                let kb = false;
                reveal(restore_step);
                assert(entered_after(kb, 0) == TerminalLifecycleState::none());
                assert(restore_events(TerminalLifecycleState::none()) =~= Seq::<LifecycleEvent>::empty());
                assert(backend.issued() =~= start + setup_events(kb, 1) + restore_events(entered_after(kb, 0)));
                assert(backend.answers@.take(a0.len() + 1int) =~= a0 + setup_answers(kb, 1, false));
                assert(backend.failures@.take(f0.len() as int) =~= f0);
                restored_none(backend.answers@.skip(a0.len() + 1int));
                assert(setup_events(kb, 1).len() == 1);
            }
            return Err(SetupFailure { setup: e, rollback: None });
        },
    }
    lifecycle.raw_mode = true;
    let keyboard = backend.keyboard_enhancement_requested();
    let ghost steps = setup_steps(keyboard);
    let mut plan: Vec<TerminalAction> = Vec::new();
    plan.push(TerminalAction::EnableRawMode);
    plan.push(TerminalAction::EnterAlternateScreen);
    if keyboard {
        plan.push(TerminalAction::PushKeyboardEnhancement);
    }
    plan.push(TerminalAction::HideCursor);
    plan.push(TerminalAction::EnableBracketedPaste);
    plan.push(TerminalAction::EnableMouseCapture);
    plan.push(TerminalAction::ClearFrame);
    proof {
        assert(plan@ =~= steps);
        assert(steps[0] == TerminalAction::EnableRawMode);
        reveal_with_fuel(entered_after, 2);
        assert(entered_after(keyboard, 1) == lifecycle);
        assert(backend.answers@ =~= a0 + seq![true, keyboard]);
    }
    let mut i: usize = 1;
    while i < plan.len()
        invariant
            plan@ == steps,
            start == old(backend).issued(),
            a0 == old(backend).answers@,
            f0 == old(backend).failures@,
            steps == setup_steps(keyboard),
            1 <= i <= plan@.len(),
            lifecycle == entered_after(keyboard, i as int),
            i == 1 ==> backend.issued() == start + seq![
                LifecycleEvent::Action(TerminalAction::EnableRawMode),
                LifecycleEvent::KeyboardProbe,
            ],
            i == 1 ==> backend.answers@ == a0 + seq![true, keyboard],
            i > 1 ==> backend.issued() == start + setup_events(keyboard, i as int),
            i > 1 ==> backend.answers@ == a0 + setup_answers(keyboard, i as int, true),
            backend.failures@ == f0,
        decreases plan@.len() - i,
    {
        let action = plan[i];
        proof {
            lemma_setup_answers_push(keyboard, i as int, true);
            lemma_setup_answers_push(keyboard, i as int, false);
            keyboard_probe_follows_raw_mode(keyboard, i + 1);
        }
        match backend.run(action) {
            Ok(()) => {
                match action {
                    TerminalAction::EnterAlternateScreen => lifecycle.alternate_screen = true,
                    TerminalAction::PushKeyboardEnhancement => lifecycle.keyboard_enhancement = true,
                    TerminalAction::HideCursor => lifecycle.cursor_hidden = true,
                    TerminalAction::EnableBracketedPaste => lifecycle.bracketed_paste = true,
                    TerminalAction::EnableMouseCapture => lifecycle.mouse_capture = true,
                    _ => {},
                }
                proof {
                    assert(lifecycle == enter(entered_after(keyboard, i as int), steps[i as int]));
                    assert(backend.issued() =~= start + setup_events(keyboard, i + 1));
                    assert(backend.answers@ =~= a0 + setup_answers(keyboard, i + 1, true));
                }
            },
            Err(e) => {
                let ghost failed_at = backend.issued();
                let ghost mid = backend.answers@;
                let ghost fmid = backend.failures@;
                proof {
                    assert(failed_at =~= start + setup_events(keyboard, i + 1));
                    assert(mid =~= a0 + setup_answers(keyboard, i + 1, false));
                    assert(fmid == f0.push(e));
                }
                let rollback = restore_lifecycle(&mut lifecycle, backend);
                let rollback_error = match rollback {
                    Ok(()) => None,
                    Err(c) => Some(c),
                };
                proof {
                    let m: int = i + 1;
                    let tried = setup_events(keyboard, m).len() as int;
                    assert(backend.issued() =~= start + setup_events(keyboard, m) + restore_events(
                        entered_after(keyboard, m - 1),
                    ));
                    assert(mid.len() == a0.len() + tried);
                    assert(backend.failures@.take(f0.len() as int) =~= fmid.take(f0.len() as int));
                    assert(fmid.take(f0.len() as int) =~= f0);
                    assert(backend.failures@[f0.len() as int] == fmid[f0.len() as int]);
                    assert(setup_events(keyboard, m).len() == m + 1);
                }
                return Err(SetupFailure { setup: e, rollback: rollback_error });
            },
        }
        i = i + 1;
    }
    proof {
        assert(lifecycle == entered_after(keyboard, setup_steps(keyboard).len() as int));
        assert(backend.issued() == start + setup_events(keyboard, setup_steps(keyboard).len() as int));
        reveal_with_fuel(entered_after, 8);
        assert(lifecycle.keyboard_enhancement == keyboard);
    }
    Ok(lifecycle)
}

/// A completed setup has entered raw mode, the alternate screen, a hidden
/// cursor, bracketed paste and mouse capture, and keyboard enhancement
/// exactly when it was requested.
pub proof fn completed_setup_enters_every_mode(kb: bool)
    ensures
        entered_after(kb, setup_steps(kb).len() as int) == (TerminalLifecycleState {
            raw_mode: true,
            alternate_screen: true,
            cursor_hidden: true,
            bracketed_paste: true,
            mouse_capture: true,
            keyboard_enhancement: kb,
        }),
{
    reveal_with_fuel(entered_after, 8);
}

/// The keyboard probe runs only after raw mode was entered: whenever setup
/// gets past its first step, its first event is entering raw mode and its
/// second is the probe.
pub proof fn keyboard_probe_follows_raw_mode(kb: bool, m: int)
    requires
        2 <= m <= setup_steps(kb).len(),
    ensures
        setup_events(kb, m)[0] == LifecycleEvent::Action(TerminalAction::EnableRawMode),
        setup_events(kb, m)[1] == LifecycleEvent::KeyboardProbe,
        setup_events(kb, m).len() == m + 1,
    decreases m,
{
    if m > 2 {
        keyboard_probe_follows_raw_mode(kb, m - 1);
    }
}

/// After the first `k` setup steps succeeded, exactly the modes those
/// steps enter are entered: raw mode, the alternate screen, keyboard
/// enhancement (when the probe asked for it), the hidden cursor, bracketed
/// paste and mouse capture, in that order. A rollback (`restore_events`)
/// therefore undoes exactly the succeeded steps, in reverse order.
pub proof fn setup_enters_modes_in_order(kb: bool, k: int)
    requires
        0 <= k <= setup_steps(kb).len(),
    ensures
        ({
            let s = entered_after(kb, k);
            let push = flag(kb);
            &&& s.raw_mode <==> k >= 1
            &&& s.alternate_screen <==> k >= 2
            &&& s.keyboard_enhancement <==> kb && k >= 3
            &&& s.cursor_hidden <==> k >= 3 + push
            &&& s.bracketed_paste <==> k >= 4 + push
            &&& s.mouse_capture <==> k >= 5 + push
        }),
{
    reveal_with_fuel(entered_after, 8);
    if kb {
        assert(setup_steps(kb) =~= seq![
            TerminalAction::EnableRawMode,
            TerminalAction::EnterAlternateScreen,
            TerminalAction::PushKeyboardEnhancement,
            TerminalAction::HideCursor,
            TerminalAction::EnableBracketedPaste,
            TerminalAction::EnableMouseCapture,
            TerminalAction::ClearFrame,
        ]);
    } else {
        assert(setup_steps(kb) =~= seq![
            TerminalAction::EnableRawMode,
            TerminalAction::EnterAlternateScreen,
            TerminalAction::HideCursor,
            TerminalAction::EnableBracketedPaste,
            TerminalAction::EnableMouseCapture,
            TerminalAction::ClearFrame,
        ]);
    }
}

/// The alternate screen is left during a rollback exactly when entering it
/// had succeeded, i.e. when the failing step came after it.
pub proof fn rollback_leaves_alternate_screen_only_if_entered(kb: bool, m: int)
    requires
        1 <= m <= setup_steps(kb).len(),
    ensures
        entered_after(kb, m - 1).alternate_screen <==> m - 1 >= 2,
        entered_after(kb, m - 1).raw_mode <==> m - 1 >= 1,
{
    reveal_with_fuel(entered_after, 8);
    assert(setup_steps(kb)[0] == TerminalAction::EnableRawMode);
    assert(setup_steps(kb)[1] == TerminalAction::EnterAlternateScreen);
    assert(forall|i: int| 2 <= i < setup_steps(kb).len() ==> setup_steps(kb)[i] != TerminalAction::EnterAlternateScreen
        && setup_steps(kb)[i] != TerminalAction::EnableRawMode);
}

proof fn restore_step_contains(entered: bool, action: TerminalAction, x: LifecycleEvent)
    ensures
        restore_step(entered, action).contains(x) <==> entered && x == LifecycleEvent::Action(action),
{
    broadcast use vstd::seq_lib::lemma_seq_contains;
    reveal(restore_step);
    if entered {
        assert(restore_step(entered, action)[0] == LifecycleEvent::Action(action));
    }
}

/// A restore targets exactly the entered modes: each mode's restore action
/// is issued if and only if that mode is entered, so a restore after a fully
/// successful restore issues nothing.
pub proof fn restore_targets_only_entered_modes(s: TerminalLifecycleState, a: TerminalAction)
    ensures
        restore_events(TerminalLifecycleState::none()).len() == 0,
        restore_events(s).contains(LifecycleEvent::Action(a)) <==> {
            ||| a == TerminalAction::DisableMouseCapture && s.mouse_capture
            ||| a == TerminalAction::DisableBracketedPaste && s.bracketed_paste
            ||| a == TerminalAction::ShowCursor && s.cursor_hidden
            ||| a == TerminalAction::PopKeyboardEnhancement && s.keyboard_enhancement
            ||| a == TerminalAction::LeaveAlternateScreen && s.alternate_screen
            ||| a == TerminalAction::DisableRawMode && s.raw_mode
        },
{
    broadcast use vstd::seq_lib::lemma_seq_concat_contains_all_elements;
    let x = LifecycleEvent::Action(a);
    reveal(restore_step);
    assert(restore_events(TerminalLifecycleState::none()) =~= Seq::<LifecycleEvent>::empty());
    restore_step_contains(s.mouse_capture, TerminalAction::DisableMouseCapture, x);
    restore_step_contains(s.bracketed_paste, TerminalAction::DisableBracketedPaste, x);
    restore_step_contains(s.cursor_hidden, TerminalAction::ShowCursor, x);
    restore_step_contains(s.keyboard_enhancement, TerminalAction::PopKeyboardEnhancement, x);
    restore_step_contains(s.alternate_screen, TerminalAction::LeaveAlternateScreen, x);
    restore_step_contains(s.raw_mode, TerminalAction::DisableRawMode, x);
}

} // verus!
