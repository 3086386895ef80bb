//! The reducer of agent output events: how streamed content, whole blocks,
//! tool calls and status changes open, feed and close transcript streams.
//! Streamed assistant text passes the tool placeholder filter; a stream's
//! opening lines appear only once it shows text, set off by a blank line
//! when a stream came before it.

use vstd::prelude::*;
use crate::hydration::MessageSource;
use crate::status::{merge_status, merged_status, StatusFields};
use crate::placeholder::{gate_finish, gate_inv, gate_push, pending, GateModel, ToolPlaceholderGate};

verus! {

/// An output event of the agent, as far as the transcript's streams go.
/// Streamed text arrives already through the tool-syntax text filter, with
/// whether the filter saw a tool call start.
#[derive(Debug, Clone)]
pub enum UiEvent {
    ContentStart { source: MessageSource },
    ContentDelta { text: String, tool_call_started: bool },
    ContentEnd,
    ContentBlock { source: MessageSource, text: String },
    StreamStart { source: MessageSource },
    Reasoning { text: String },
    ToolCallStarted,
    ToolCall,
    ToolResult,
    ThinkingPreview { text: Option<String> },
    /// A status snapshot, and whether a turn is processing.
    Status { snapshot: StatusFields, is_processing: bool },
    HydrateHistory,
    Exit,
    /// An event that leaves the streams alone.
    Other,
}

/// What the transcript receives, in order.
#[derive(Debug, Clone)]
pub enum OutputEffect {
    /// The renderer starts a stream from `source`; its opening is held back.
    StartStream { source: MessageSource },
    /// The held-back opening is shown, after a blank line when `separated`.
    OpenStream { separated: bool },
    /// Text goes to the renderer.
    Text { text: String },
    /// The stream ends; its remaining lines are shown only when it showed
    /// text (`shown`), else its opening is dropped.
    FinishStream { shown: bool },
    /// A whole message rendered as a stream of its own.
    Block { source: MessageSource, text: String, separated: bool },
    /// The tool call is recorded in the transcript.
    ToolCall,
    /// The tool result is recorded in the transcript.
    ToolResult,
    /// The transcript is committed and the history replayed.
    Hydrate,
}

/// Plain view of an effect.
pub enum EffectView {
    StartStream { source: MessageSource },
    OpenStream { separated: bool },
    Text { text: Seq<char> },
    FinishStream { shown: bool },
    Block { source: MessageSource, text: Seq<char>, separated: bool },
    ToolCall,
    ToolResult,
    Hydrate,
}

impl OutputEffect {
    pub open spec fn view(&self) -> EffectView {
        match self {
            OutputEffect::StartStream { source } => EffectView::StartStream { source: *source },
            OutputEffect::OpenStream { separated } => EffectView::OpenStream { separated: *separated },
            OutputEffect::Text { text } => EffectView::Text { text: text@ },
            OutputEffect::FinishStream { shown } => EffectView::FinishStream { shown: *shown },
            OutputEffect::Block { source, text, separated } => EffectView::Block {
                source: *source,
                text: text@,
                separated: *separated,
            },
            OutputEffect::ToolCall => EffectView::ToolCall,
            OutputEffect::ToolResult => EffectView::ToolResult,
            OutputEffect::Hydrate => EffectView::Hydrate,
        }
    }
}

pub open spec fn effects_view(v: Seq<OutputEffect>) -> Seq<EffectView> {
    v.map_values(|e: OutputEffect| e@)
}

/// The stream bookkeeping of the interface.
pub struct OutputState {
    /// A raw stream is being read.
    pub active_stream: bool,
    /// Ordered content (started by a content start) is open.
    pub ordered_content_open: bool,
    /// The current stream's opening is held back until it shows text.
    pub opening_pending: bool,
    /// Streams shown so far.
    pub stream_count: usize,
    pub gate: ToolPlaceholderGate,
    pub thinking_preview: Option<String>,
    pub should_exit: bool,
    /// The status bar's fields.
    pub status: StatusFields,
    pub is_processing: bool,
}

/// The state as plain values.
pub struct OutputModel {
    pub active: bool,
    pub ordered: bool,
    pub opening_pending: bool,
    pub count: int,
    pub gate: GateModel,
    pub thinking: Option<Seq<char>>,
    pub should_exit: bool,
    pub status: StatusFields,
    pub is_processing: bool,
}

pub open spec fn opt_view(o: Option<String>) -> Option<Seq<char>> {
    match o {
        Some(s) => Some(s@),
        None => None,
    }
}

impl OutputState {
    pub open spec fn model(&self) -> OutputModel {
        OutputModel {
            active: self.active_stream,
            ordered: self.ordered_content_open,
            opening_pending: self.opening_pending,
            count: self.stream_count as int,
            gate: self.gate.model(),
            thinking: opt_view(self.thinking_preview),
            should_exit: self.should_exit,
            status: self.status,
            is_processing: self.is_processing,
        }
    }

    /// The filter's bookkeeping holds.
    pub open spec fn wf(&self) -> bool {
        gate_inv(self.gate.model())
    }

    /// No stream, no content, nothing filtered, no turn processing; the
    /// status bar shows `status`.
    pub fn new(status: StatusFields) -> (s: Self)
        ensures
            s.wf(),
            !s.active_stream && !s.ordered_content_open && !s.opening_pending,
            s.stream_count == 0,
            s.thinking_preview is None,
            !s.should_exit,
            s.status == status,
            !s.is_processing,
    {
        OutputState {
            active_stream: false,
            ordered_content_open: false,
            opening_pending: false,
            stream_count: 0,
            gate: ToolPlaceholderGate::new(),
            thinking_preview: None,
            should_exit: false,
            status,
            is_processing: false,
        }
    }
}

pub type Step = (OutputModel, Seq<EffectView>);

/// Visible text reaches the renderer; the first text of a stream shows its
/// held-back opening first and counts the stream.
pub open spec fn append_visible(m: OutputModel, t: Seq<char>) -> Step {
    if t.len() == 0 {
        (m, Seq::empty())
    } else if m.opening_pending {
        (
            OutputModel { opening_pending: false, count: m.count + 1, ..m },
            seq![EffectView::OpenStream { separated: m.count > 0 }, EffectView::Text { text: t }],
        )
    } else {
        (m, seq![EffectView::Text { text: t }])
    }
}

/// The raw stream ends.
pub open spec fn finalize_active(m: OutputModel) -> Step {
    (
        OutputModel { opening_pending: false, active: false, ..m },
        seq![EffectView::FinishStream { shown: !m.opening_pending }],
    )
}

/// The filter releases everything it holds and is disabled.
pub open spec fn flushed(g: GateModel) -> GateModel {
    GateModel { enabled: false, held: Seq::empty(), candidate: Seq::empty(), ..g }
}

/// Open ordered content ends: the filter is flushed into it, then the
/// stream ends.
pub open spec fn finalize_ordered(m: OutputModel) -> Step {
    if !m.ordered {
        (m, Seq::empty())
    } else {
        let (m1, e1) = append_visible(OutputModel { gate: flushed(m.gate), ..m }, pending(m.gate));
        (
            OutputModel { opening_pending: false, ordered: false, ..m1 },
            e1 + seq![EffectView::FinishStream { shown: !m1.opening_pending }],
        )
    }
}

/// Two steps in turn.
pub open spec fn chain(a: Step, f: spec_fn(OutputModel) -> Step) -> Step {
    let (m2, e2) = f(a.0);
    (m2, a.1 + e2)
}

/// A streamed chunk: a tool call starting ends the raw stream, then the
/// text passes the placeholder filter (when it is enabled) and what it
/// releases is shown.
pub open spec fn consume_chunk(m: OutputModel, text: Seq<char>, started: bool) -> Step {
    let a = if started && m.active { finalize_active(m) } else { (m, Seq::empty()) };
    chain(
        a,
        |m1: OutputModel|
            {
                let (g, out) = if m1.gate.enabled { gate_push(m1.gate, text) } else { (m1.gate, text) };
                append_visible(OutputModel { gate: g, ..m1 }, out)
            },
    )
}

/// Ends the raw stream when there is one.
pub open spec fn end_active(m: OutputModel) -> Step {
    if m.active { finalize_active(m) } else { (m, Seq::empty()) }
}

/// A whole block rendered as its own stream.
pub open spec fn block(m: OutputModel, source: MessageSource, text: Seq<char>) -> Step {
    (
        OutputModel { count: m.count + 1, ..m },
        seq![EffectView::Block { source, text, separated: m.count > 0 }],
    )
}

/// One output event: the next state, the effects, and whether the
/// interface exits.
pub open spec fn ui_step(m: OutputModel, e: UiEvent) -> (OutputModel, Seq<EffectView>, bool) {
    match e {
        UiEvent::ContentStart { source } => {
            let (m1, e1) = chain(end_active(m), |x: OutputModel| finalize_ordered(x));
            (
                OutputModel {
                    gate: GateModel {
                        enabled: source == MessageSource::Assistant,
                        at_line_start: true,
                        candidate: Seq::empty(),
                        held: Seq::empty(),
                    },
                    opening_pending: true,
                    ordered: true,
                    ..m1
                },
                e1.push(EffectView::StartStream { source }),
                false,
            )
        },
        UiEvent::ContentDelta { text, tool_call_started } => {
            let (m1, e1) = if m.ordered { consume_chunk(m, text@, tool_call_started) } else { (m, Seq::empty()) };
            (m1, e1, false)
        },
        UiEvent::ContentEnd => {
            let (g, t) = gate_finish(m.gate);
            let (m1, e1) = chain(
                append_visible(OutputModel { gate: g, ..m }, t),
                |x: OutputModel| if x.gate.held.len() == 0 { finalize_ordered(x) } else { (x, Seq::empty()) },
            );
            (m1, e1, false)
        },
        UiEvent::ContentBlock { source, text } => {
            let (m1, e1) = chain(
                chain(end_active(m), |x: OutputModel| finalize_ordered(x)),
                |x: OutputModel| block(x, source, text@),
            );
            (m1, e1, false)
        },
        UiEvent::StreamStart { source } => {
            let (m1, e1) = chain(finalize_ordered(m), |x: OutputModel| end_active(x));
            (
                OutputModel { opening_pending: true, active: true, ..m1 },
                e1.push(EffectView::StartStream { source }),
                false,
            )
        },
        UiEvent::Reasoning { text } => {
            let (m1, e1) = block(m, MessageSource::Reasoning, text@);
            (m1, e1, false)
        },
        UiEvent::ToolCallStarted => {
            let (m1, e1) = chain(
                if m.gate.held.len() == 0 { finalize_ordered(m) } else { (m, Seq::empty()) },
                |x: OutputModel| end_active(x),
            );
            (m1, e1, false)
        },
        UiEvent::ToolCall => {
            let released = if is_exact(m.gate.candidate) { Seq::empty() } else { m.gate.candidate };
            let g = GateModel { enabled: false, held: Seq::empty(), candidate: Seq::empty(), ..m.gate };
            let (m1, e1) = chain(
                append_visible(OutputModel { gate: g, ..m }, released),
                |x: OutputModel| finalize_ordered(x),
            );
            (m1, e1.push(EffectView::ToolCall), false)
        },
        UiEvent::ToolResult => {
            let (m1, e1) = finalize_ordered(m);
            (m1, e1.push(EffectView::ToolResult), false)
        },
        UiEvent::ThinkingPreview { text } => (OutputModel { thinking: opt_view(text), ..m }, Seq::empty(), false),
        UiEvent::Status { snapshot, is_processing } => {
            let (m1, e1) = if !is_processing { finalize_ordered(m) } else { (m, Seq::empty()) };
            (OutputModel { status: merged_status(m1.status, snapshot), is_processing, ..m1 }, e1, false)
        },
        UiEvent::HydrateHistory => {
            let (m1, e1) = chain(finalize_ordered(m), |x: OutputModel| finalize_active(x));
            (m1, e1.push(EffectView::Hydrate), false)
        },
        UiEvent::Exit => {
            let (m1, e1) = finalize_ordered(m);
            (OutputModel { should_exit: true, ..m1 }, e1, true)
        },
        UiEvent::Other => (m, Seq::empty(), false),
    }
}

/// The new state, effects and exit flag are those of `ui_step`.
pub open spec fn step_holds(
    m0: OutputModel,
    m1: OutputModel,
    e0: Seq<EffectView>,
    e1: Seq<EffectView>,
    exit: bool,
    event: UiEvent,
) -> bool {
    let (m, e, x) = ui_step(m0, event);
    &&& m1 == m
    &&& e1 == e0 + e
    &&& exit == x
}

pub open spec fn is_exact(t: Seq<char>) -> bool {
    crate::placeholder::is_exact_placeholder_spec(t)
}

/// How many streams the effects show: openings and whole blocks.
pub open spec fn streams_shown(es: Seq<EffectView>) -> nat
    decreases es.len(),
{
    if es.len() == 0 {
        0
    } else {
        streams_shown(es.drop_last()) + if es.last() is OpenStream || es.last() is Block {
            1nat
        } else {
            0nat
        }
    }
}

proof fn lemma_shown_add(a: Seq<EffectView>, b: Seq<EffectView>)
    ensures
        streams_shown(a + b) == streams_shown(a) + streams_shown(b),
    decreases b.len(),
{
    if b.len() == 0 {
        assert(a + b =~= a);
    } else {
        lemma_shown_add(a, b.drop_last());
        assert((a + b).drop_last() =~= a + b.drop_last());
    }
}

proof fn lemma_shown_small(x: EffectView, y: EffectView)
    ensures
        streams_shown(Seq::empty()) == 0,
        streams_shown(seq![x]) == if x is OpenStream || x is Block { 1nat } else { 0nat },
        streams_shown(seq![x, y]) == streams_shown(seq![x]) + if y is OpenStream || y is Block { 1nat } else { 0nat },
{
    assert(seq![x].drop_last() =~= Seq::<EffectView>::empty());
    assert(seq![x, y].drop_last() =~= seq![x]);
}

/// A step counts exactly the streams its effects show.
pub open spec fn counts_streams(m: OutputModel, r: Step) -> bool {
    r.0.count == m.count + streams_shown(r.1)
}

proof fn lemma_chain_counts(m: OutputModel, a: Step, f: spec_fn(OutputModel) -> Step)
    requires
        counts_streams(m, a),
        counts_streams(a.0, f(a.0)),
    ensures
        counts_streams(m, chain(a, f)),
{
    lemma_shown_add(a.1, f(a.0).1);
}

proof fn lemma_pieces_count(m: OutputModel, t: Seq<char>, x: EffectView)
    ensures
        counts_streams(m, append_visible(m, t)),
        counts_streams(m, finalize_active(m)),
        counts_streams(m, end_active(m)),
        counts_streams(m, finalize_ordered(m)),
{
    lemma_shown_small(EffectView::OpenStream { separated: m.count > 0 }, EffectView::Text { text: t });
    lemma_shown_small(EffectView::Text { text: t }, x);
    lemma_shown_small(EffectView::FinishStream { shown: !m.opening_pending }, x);
    if m.ordered {
        let m0 = OutputModel { gate: flushed(m.gate), ..m };
        let (m1, e1) = append_visible(m0, pending(m.gate));
        lemma_shown_small(EffectView::OpenStream { separated: m0.count > 0 }, EffectView::Text { text: pending(m.gate) });
        lemma_shown_small(EffectView::Text { text: pending(m.gate) }, x);
        lemma_shown_small(EffectView::FinishStream { shown: !m1.opening_pending }, x);
        lemma_shown_add(e1, seq![EffectView::FinishStream { shown: !m1.opening_pending }]);
    }
}

/// Every output event counts exactly the streams it shows (each opening
/// shown and each whole block), so the blank line that sets a stream off
/// appears exactly after the first stream.
#[verifier::spinoff_prover]
#[verifier::rlimit(100)]
pub proof fn output_counts_every_stream_shown(m: OutputModel, e: UiEvent)
    ensures
        ui_step(m, e).0.count == m.count + streams_shown(ui_step(m, e).1),
{
    let x = EffectView::ToolCall;
    lemma_pieces_count(m, Seq::empty(), x);
    match e {
        UiEvent::ContentStart { source } => {
            let a = end_active(m);
            lemma_pieces_count(a.0, Seq::empty(), x);
            lemma_chain_counts(m, a, |y: OutputModel| finalize_ordered(y));
            let (m1, e1) = chain(a, |y: OutputModel| finalize_ordered(y));
            lemma_shown_add(e1, seq![EffectView::StartStream { source }]);
            assert(e1.push(EffectView::StartStream { source }) =~= e1 + seq![EffectView::StartStream { source }]);
            lemma_shown_small(EffectView::StartStream { source }, x);
            assert(ui_step(m, e).0.count == m.count + streams_shown(ui_step(m, e).1));
        },
        UiEvent::ContentDelta { text, tool_call_started } => {
            if m.ordered {
                let a = if tool_call_started && m.active { finalize_active(m) } else { (m, Seq::empty()) };
                let m1 = a.0;
                let (g, out) = if m1.gate.enabled { gate_push(m1.gate, text@) } else { (m1.gate, text@) };
                lemma_pieces_count(OutputModel { gate: g, ..m1 }, out, x);
                lemma_chain_counts(
                    m,
                    a,
                    |m1: OutputModel|
                        {
                            let (g, out) = if m1.gate.enabled { gate_push(m1.gate, text@) } else { (m1.gate, text@) };
                            append_visible(OutputModel { gate: g, ..m1 }, out)
                        },
                );
            }
            assert(ui_step(m, e).0.count == m.count + streams_shown(ui_step(m, e).1));
        },
        UiEvent::ContentEnd => {
            let (g, t) = gate_finish(m.gate);
            let m0 = OutputModel { gate: g, ..m };
            lemma_pieces_count(m0, t, x);
            let a = append_visible(m0, t);
            lemma_pieces_count(a.0, t, x);
            lemma_chain_counts(
                m0,
                a,
                |y: OutputModel| if y.gate.held.len() == 0 { finalize_ordered(y) } else { (y, Seq::empty()) },
            );
            assert(ui_step(m, e).0.count == m.count + streams_shown(ui_step(m, e).1));
        },
        UiEvent::ContentBlock { source, text } => {
            let a = end_active(m);
            lemma_pieces_count(a.0, Seq::empty(), x);
            lemma_chain_counts(m, a, |y: OutputModel| finalize_ordered(y));
            let b = chain(a, |y: OutputModel| finalize_ordered(y));
            lemma_shown_small(EffectView::Block { source, text: text@, separated: b.0.count > 0 }, x);
            lemma_chain_counts(m, b, |y: OutputModel| block(y, source, text@));
            assert(ui_step(m, e).0.count == m.count + streams_shown(ui_step(m, e).1));
        },
        UiEvent::StreamStart { source } => {
            let a = finalize_ordered(m);
            lemma_pieces_count(a.0, Seq::empty(), x);
            lemma_chain_counts(m, a, |y: OutputModel| end_active(y));
            let (m1, e1) = chain(a, |y: OutputModel| end_active(y));
            lemma_shown_add(e1, seq![EffectView::StartStream { source }]);
            assert(e1.push(EffectView::StartStream { source }) =~= e1 + seq![EffectView::StartStream { source }]);
            lemma_shown_small(EffectView::StartStream { source }, x);
            assert(ui_step(m, e).0.count == m.count + streams_shown(ui_step(m, e).1));
        },
        UiEvent::Reasoning { text } => {
            lemma_shown_small(EffectView::Block { source: MessageSource::Reasoning, text: text@, separated: m.count > 0 }, x);
            assert(ui_step(m, e).0.count == m.count + streams_shown(ui_step(m, e).1));
        },
        UiEvent::ToolCallStarted => {
            let a = if m.gate.held.len() == 0 { finalize_ordered(m) } else { (m, Seq::empty()) };
            lemma_pieces_count(a.0, Seq::empty(), x);
            lemma_chain_counts(m, a, |y: OutputModel| end_active(y));
            assert(ui_step(m, e).0.count == m.count + streams_shown(ui_step(m, e).1));
        },
        UiEvent::ToolCall => {
            let released = if is_exact(m.gate.candidate) { Seq::empty() } else { m.gate.candidate };
            let g = GateModel { enabled: false, held: Seq::empty(), candidate: Seq::empty(), ..m.gate };
            let m0 = OutputModel { gate: g, ..m };
            lemma_pieces_count(m0, released, x);
            let a = append_visible(m0, released);
            lemma_pieces_count(a.0, released, x);
            lemma_chain_counts(m0, a, |y: OutputModel| finalize_ordered(y));
            let (m1, e1) = chain(a, |y: OutputModel| finalize_ordered(y));
            lemma_shown_add(e1, seq![EffectView::ToolCall]);
            assert(e1.push(EffectView::ToolCall) =~= e1 + seq![EffectView::ToolCall]);
            lemma_shown_small(EffectView::ToolCall, x);
            assert(ui_step(m, e).0.count == m.count + streams_shown(ui_step(m, e).1));
        },
        UiEvent::ToolResult => {
            let (m1, e1) = finalize_ordered(m);
            lemma_shown_add(e1, seq![EffectView::ToolResult]);
            assert(e1.push(EffectView::ToolResult) =~= e1 + seq![EffectView::ToolResult]);
            lemma_shown_small(EffectView::ToolResult, x);
            assert(ui_step(m, e).0.count == m.count + streams_shown(ui_step(m, e).1));
        },
        UiEvent::HydrateHistory => {
            let a = finalize_ordered(m);
            lemma_pieces_count(a.0, Seq::empty(), x);
            lemma_chain_counts(m, a, |y: OutputModel| finalize_active(y));
            let (m1, e1) = chain(a, |y: OutputModel| finalize_active(y));
            lemma_shown_add(e1, seq![EffectView::Hydrate]);
            assert(e1.push(EffectView::Hydrate) =~= e1 + seq![EffectView::Hydrate]);
            lemma_shown_small(EffectView::Hydrate, x);
            assert(ui_step(m, e).0.count == m.count + streams_shown(ui_step(m, e).1));
        },
        _ => {},
    }
}

fn push_effect(effects: &mut Vec<OutputEffect>, e: OutputEffect)
    ensures
        effects_view(final(effects)@) == effects_view(old(effects)@).push(e@),
{
    effects.push(e);
    proof {
        assert(effects_view(final(effects)@) =~= effects_view(old(effects)@).push(e@));
    }
}

impl OutputState {
    fn append_visible(&mut self, t: String, effects: &mut Vec<OutputEffect>)
        requires
            old(self).stream_count < usize::MAX,
        ensures
            ({
                let (m, e) = append_visible(old(self).model(), t@);
                final(self).model() == m && effects_view(final(effects)@) == effects_view(old(effects)@) + e
            }),
            final(self).stream_count <= old(self).stream_count + 1,
            final(self).gate == old(self).gate,
    {
        let ghost e0 = effects_view(effects@);
        if t.as_str().is_empty() {
            proof {
                assert(effects_view(effects@) =~= e0 + Seq::<EffectView>::empty());
            }
            return;
        }
        if self.opening_pending {
            push_effect(effects, OutputEffect::OpenStream { separated: self.stream_count > 0 });
            self.opening_pending = false;
            self.stream_count = self.stream_count + 1;
        }
        let ghost tv = t@;
        push_effect(effects, OutputEffect::Text { text: t });
        proof {
            let (m, e) = append_visible(old(self).model(), tv);
            assert(effects_view(effects@) =~= e0 + e);
        }
    }

    fn finalize_active(&mut self, effects: &mut Vec<OutputEffect>)
        ensures
            ({
                let (m, e) = finalize_active(old(self).model());
                final(self).model() == m && effects_view(final(effects)@) == effects_view(old(effects)@) + e
            }),
            final(self).stream_count == old(self).stream_count,
            final(self).gate == old(self).gate,
    {
        let ghost e0 = effects_view(effects@);
        push_effect(effects, OutputEffect::FinishStream { shown: !self.opening_pending });
        self.opening_pending = false;
        self.active_stream = false;
        proof {
            assert(effects_view(effects@) =~= e0 + seq![EffectView::FinishStream { shown: !old(self).opening_pending }]);
        }
    }

    fn end_active(&mut self, effects: &mut Vec<OutputEffect>)
        ensures
            ({
                let (m, e) = end_active(old(self).model());
                final(self).model() == m && effects_view(final(effects)@) == effects_view(old(effects)@) + e
            }),
            final(self).stream_count == old(self).stream_count,
            final(self).gate == old(self).gate,
    {
        if self.active_stream {
            self.finalize_active(effects);
        } else {
            proof {
                assert(effects_view(effects@) =~= effects_view(old(effects)@) + Seq::<EffectView>::empty());
            }
        }
    }

    fn finalize_ordered(&mut self, effects: &mut Vec<OutputEffect>)
        requires
            old(self).stream_count < usize::MAX,
            old(self).wf(),
        ensures
            ({
                let (m, e) = finalize_ordered(old(self).model());
                final(self).model() == m && effects_view(final(effects)@) == effects_view(old(effects)@) + e
            }),
            final(self).stream_count <= old(self).stream_count + 1,
            final(self).wf(),
    {
        let ghost e0 = effects_view(effects@);
        if !self.ordered_content_open {
            proof {
                assert(effects_view(effects@) =~= e0 + Seq::<EffectView>::empty());
            }
            return;
        }
        let ghost g0 = self.gate.model();
        let text = self.gate.flush();
        proof {
            assert(self.gate.model() == flushed(g0)) by {
                assert(self.gate.held_marker@ =~= Seq::<char>::empty());
                assert(self.gate.line_candidate@ =~= Seq::<char>::empty());
            }
        }
        self.append_visible(text, effects);
        push_effect(effects, OutputEffect::FinishStream { shown: !self.opening_pending });
        self.opening_pending = false;
        self.ordered_content_open = false;
        proof {
            let (m1, x1) = append_visible(OutputModel { gate: flushed(g0), ..old(self).model() }, pending(g0));
            assert(effects_view(effects@) =~= e0 + (x1 + seq![EffectView::FinishStream { shown: !m1.opening_pending }]));
        }
    }

    fn consume_chunk(&mut self, text: String, started: bool, effects: &mut Vec<OutputEffect>)
        requires
            old(self).stream_count < usize::MAX,
            old(self).wf(),
        ensures
            ({
                let (m, e) = consume_chunk(old(self).model(), text@, started);
                final(self).model() == m && effects_view(final(effects)@) == effects_view(old(effects)@) + e
            }),
            final(self).stream_count <= old(self).stream_count + 1,
            final(self).wf(),
    {
        let ghost e0 = effects_view(effects@);
        if started && self.active_stream {
            self.finalize_active(effects);
        } else {
            proof {
                assert(effects_view(effects@) =~= e0 + Seq::<EffectView>::empty());
            }
        }
        let ghost m1 = self.model();
        let ghost e1 = effects_view(effects@);
        let out = self.gate.push(text.as_str());
        self.append_visible(out, effects);
        proof {
            let (g, o) = if m1.gate.enabled { gate_push(m1.gate, text@) } else { (m1.gate, text@) };
            let (m2, x2) = append_visible(OutputModel { gate: g, ..m1 }, o);
            assert(effects_view(effects@) =~= e0 + ((e1.skip(e0.len() as int)) + x2));
        }
    }

    fn on_content_start(&mut self, source: MessageSource, effects: &mut Vec<OutputEffect>) -> (exit: bool)
        requires
            old(self).wf(),
            old(self).stream_count + 2 <= usize::MAX,
        ensures
            final(self).wf(),
            step_holds(old(self).model(), final(self).model(), effects_view(old(effects)@), effects_view(final(effects)@), exit, UiEvent::ContentStart { source }),
    {
        let ghost ev = UiEvent::ContentStart { source };
        let ghost e_start = effects_view(effects@);
        self.end_active(effects);
        self.finalize_ordered(effects);
        self.gate.start(source == MessageSource::Assistant);
        push_effect(effects, OutputEffect::StartStream { source });
        self.opening_pending = true;
        self.ordered_content_open = true;
        proof {
            let (m, e, x) = ui_step(old(self).model(), ev);
            assert(effects_view(effects@) =~= e_start + e);
        }
        false
    }

    fn on_content_delta(&mut self, text: String, tool_call_started: bool, effects: &mut Vec<OutputEffect>) -> (exit: bool)
        requires
            old(self).wf(),
            old(self).stream_count + 2 <= usize::MAX,
        ensures
            final(self).wf(),
            step_holds(old(self).model(), final(self).model(), effects_view(old(effects)@), effects_view(final(effects)@), exit, UiEvent::ContentDelta { text, tool_call_started }),
    {
        if self.ordered_content_open {
            self.consume_chunk(text, tool_call_started, effects);
        } else {
            proof {
                assert(effects_view(effects@) =~= effects_view(old(effects)@) + Seq::<EffectView>::empty());
            }
        }
        false
    }

    #[verifier::rlimit(40)]
    fn on_content_end(&mut self, effects: &mut Vec<OutputEffect>) -> (exit: bool)
        requires
            old(self).wf(),
            old(self).stream_count + 2 <= usize::MAX,
        ensures
            final(self).wf(),
            step_holds(old(self).model(), final(self).model(), effects_view(old(effects)@), effects_view(final(effects)@), exit, UiEvent::ContentEnd),
    {
        let ghost ev = UiEvent::ContentEnd;
        let ghost e_start = effects_view(effects@);
        let ghost g0 = self.gate.model();
        let t = self.gate.finish_content();
        proof {
            assert(self.gate.model() == gate_finish(g0).0) by {
                assert(self.gate.line_candidate@ =~= Seq::<char>::empty());
            }
        }
        self.append_visible(t, effects);
        if !self.gate.is_pending() {
            self.finalize_ordered(effects);
        } else {
            proof {
                assert(effects_view(effects@) =~= effects_view(effects@) + Seq::<EffectView>::empty());
            }
        }
        proof {
            let (m, e, x) = ui_step(old(self).model(), ev);
            assert(effects_view(effects@) =~= e_start + e);
        }
        false
    }

    fn on_content_block(&mut self, source: MessageSource, text: String, effects: &mut Vec<OutputEffect>) -> (exit: bool)
        requires
            old(self).wf(),
            old(self).stream_count + 2 <= usize::MAX,
        ensures
            final(self).wf(),
            step_holds(old(self).model(), final(self).model(), effects_view(old(effects)@), effects_view(final(effects)@), exit, UiEvent::ContentBlock { source, text }),
    {
        let ghost ev = UiEvent::ContentBlock { source, text };
        let ghost e_start = effects_view(effects@);
        self.end_active(effects);
        self.finalize_ordered(effects);
        push_effect(effects, OutputEffect::Block { source, text, separated: self.stream_count > 0 });
        self.stream_count = self.stream_count + 1;
        proof {
            let (m, e, x) = ui_step(old(self).model(), ev);
            assert(effects_view(effects@) =~= e_start + e);
        }
        false
    }

    fn on_stream_start(&mut self, source: MessageSource, effects: &mut Vec<OutputEffect>) -> (exit: bool)
        requires
            old(self).wf(),
            old(self).stream_count + 2 <= usize::MAX,
        ensures
            final(self).wf(),
            step_holds(old(self).model(), final(self).model(), effects_view(old(effects)@), effects_view(final(effects)@), exit, UiEvent::StreamStart { source }),
    {
        let ghost ev = UiEvent::StreamStart { source };
        let ghost e_start = effects_view(effects@);
        self.finalize_ordered(effects);
        self.end_active(effects);
        push_effect(effects, OutputEffect::StartStream { source });
        self.opening_pending = true;
        self.active_stream = true;
        proof {
            let (m, e, x) = ui_step(old(self).model(), ev);
            assert(effects_view(effects@) =~= e_start + e);
        }
        false
    }

    fn on_tool_call_started(&mut self, effects: &mut Vec<OutputEffect>) -> (exit: bool)
        requires
            old(self).wf(),
            old(self).stream_count + 2 <= usize::MAX,
        ensures
            final(self).wf(),
            step_holds(old(self).model(), final(self).model(), effects_view(old(effects)@), effects_view(final(effects)@), exit, UiEvent::ToolCallStarted),
    {
        let ghost ev = UiEvent::ToolCallStarted;
        let ghost e_start = effects_view(effects@);
        if !self.gate.is_pending() {
            self.finalize_ordered(effects);
        } else {
            proof {
                assert(effects_view(effects@) =~= effects_view(old(effects)@) + Seq::<EffectView>::empty());
            }
        }
        self.end_active(effects);
        proof {
            let (m, e, x) = ui_step(old(self).model(), ev);
            assert(effects_view(effects@) =~= e_start + e);
        }
        false
    }

    fn on_tool_call(&mut self, effects: &mut Vec<OutputEffect>) -> (exit: bool)
        requires
            old(self).wf(),
            old(self).stream_count + 2 <= usize::MAX,
        ensures
            final(self).wf(),
            step_holds(old(self).model(), final(self).model(), effects_view(old(effects)@), effects_view(final(effects)@), exit, UiEvent::ToolCall),
    {
        let ghost ev = UiEvent::ToolCall;
        let ghost e_start = effects_view(effects@);
        let t = self.gate.confirm_tool_call();
        proof {
            assert(self.gate.held_marker@ =~= Seq::<char>::empty());
            assert(self.gate.line_candidate@ =~= Seq::<char>::empty());
        }
        self.append_visible(t, effects);
        self.finalize_ordered(effects);
        push_effect(effects, OutputEffect::ToolCall);
        proof {
            let (m, e, x) = ui_step(old(self).model(), ev);
            assert(effects_view(effects@) =~= e_start + e);
        }
        false
    }

    fn on_tool_result(&mut self, effects: &mut Vec<OutputEffect>) -> (exit: bool)
        requires
            old(self).wf(),
            old(self).stream_count + 2 <= usize::MAX,
        ensures
            final(self).wf(),
            step_holds(old(self).model(), final(self).model(), effects_view(old(effects)@), effects_view(final(effects)@), exit, UiEvent::ToolResult),
    {
        self.finalize_ordered(effects);
        push_effect(effects, OutputEffect::ToolResult);
        false
    }

    fn on_status(&mut self, snapshot: StatusFields, is_processing: bool, effects: &mut Vec<OutputEffect>) -> (exit: bool)
        requires
            old(self).wf(),
            old(self).stream_count + 2 <= usize::MAX,
        ensures
            final(self).wf(),
            step_holds(old(self).model(), final(self).model(), effects_view(old(effects)@), effects_view(final(effects)@), exit, UiEvent::Status { snapshot, is_processing }),
    {
        if !is_processing {
            self.finalize_ordered(effects);
        } else {
            proof {
                assert(effects_view(effects@) =~= effects_view(old(effects)@) + Seq::<EffectView>::empty());
            }
        }
        merge_status(&mut self.status, snapshot);
        self.is_processing = is_processing;
        false
    }

    fn on_hydrate(&mut self, effects: &mut Vec<OutputEffect>) -> (exit: bool)
        requires
            old(self).wf(),
            old(self).stream_count + 2 <= usize::MAX,
        ensures
            final(self).wf(),
            step_holds(old(self).model(), final(self).model(), effects_view(old(effects)@), effects_view(final(effects)@), exit, UiEvent::HydrateHistory),
    {
        let ghost ev = UiEvent::HydrateHistory;
        let ghost e_start = effects_view(effects@);
        self.finalize_ordered(effects);
        self.finalize_active(effects);
        push_effect(effects, OutputEffect::Hydrate);
        proof {
            let (m, e, x) = ui_step(old(self).model(), ev);
            assert(effects_view(effects@) =~= e_start + e);
        }
        false
    }

    fn on_exit(&mut self, effects: &mut Vec<OutputEffect>) -> (exit: bool)
        requires
            old(self).wf(),
            old(self).stream_count + 2 <= usize::MAX,
        ensures
            final(self).wf(),
            step_holds(old(self).model(), final(self).model(), effects_view(old(effects)@), effects_view(final(effects)@), exit, UiEvent::Exit),
    {
        self.finalize_ordered(effects);
        self.should_exit = true;
        true
    }

    /// Applies one output event (see `ui_step`), appending its effects in
    /// order; returns whether the interface exits.
    pub fn apply_ui_event(&mut self, event: UiEvent, effects: &mut Vec<OutputEffect>) -> (exit: bool)
        requires
            old(self).wf(),
            old(self).stream_count + 2 <= usize::MAX,
        ensures
            final(self).wf(),
            ({
                let (m, e, x) = ui_step(old(self).model(), event);
                &&& final(self).model() == m
                &&& effects_view(final(effects)@) == effects_view(old(effects)@) + e
                &&& exit == x
            }),
    {
        match event {
            UiEvent::ContentStart { source } => self.on_content_start(source, effects),
            UiEvent::ContentDelta { text, tool_call_started } => self.on_content_delta(text, tool_call_started, effects),
            UiEvent::ContentEnd => self.on_content_end(effects),
            UiEvent::ContentBlock { source, text } => self.on_content_block(source, text, effects),
            UiEvent::StreamStart { source } => self.on_stream_start(source, effects),
            UiEvent::Reasoning { text } => self.on_content_block_reasoning(text, effects),
            UiEvent::ToolCallStarted => self.on_tool_call_started(effects),
            UiEvent::ToolCall => self.on_tool_call(effects),
            UiEvent::ToolResult => self.on_tool_result(effects),
            UiEvent::ThinkingPreview { text } => {
                self.thinking_preview = text;
                proof {
                    assert(effects_view(effects@) =~= effects_view(old(effects)@) + Seq::<EffectView>::empty());
                }
                false
            },
            UiEvent::Status { snapshot, is_processing } => self.on_status(snapshot, is_processing, effects),
            UiEvent::HydrateHistory => self.on_hydrate(effects),
            UiEvent::Exit => self.on_exit(effects),
            UiEvent::Other => {
                proof {
                    assert(effects_view(effects@) =~= effects_view(old(effects)@) + Seq::<EffectView>::empty());
                }
                false
            },
        }
    }

    fn on_content_block_reasoning(&mut self, text: String, effects: &mut Vec<OutputEffect>) -> (exit: bool)
        requires
            old(self).wf(),
            old(self).stream_count + 2 <= usize::MAX,
        ensures
            final(self).wf(),
            step_holds(old(self).model(), final(self).model(), effects_view(old(effects)@), effects_view(final(effects)@), exit, UiEvent::Reasoning { text }),
    {
        let ghost ev = UiEvent::Reasoning { text };
        let ghost e_start = effects_view(effects@);
        push_effect(effects, OutputEffect::Block { source: MessageSource::Reasoning, text, separated: self.stream_count > 0 });
        self.stream_count = self.stream_count + 1;
        proof {
            let (m, e, x) = ui_step(old(self).model(), ev);
            assert(effects_view(effects@) =~= e_start + e);
        }
        false
    }
}

} // verus!
