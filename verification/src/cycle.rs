//! One response cycle: the frames of a reply are decoded, classified and
//! rendered in arrival order, and the latest usage snapshot is kept.
//!
//! The caller owns the transport. It hands every frame it receives to
//! [`ResponseCycle::on_frame`], writes and flushes the text that comes back,
//! and writes [`ResponseCycle::finish`] when the stream has ended. A frame
//! that carries no fragment is skipped: it writes nothing and changes
//! nothing, and the frames after it are processed as usual.

use vstd::prelude::*;
use vstd::string::*;
use crate::delta::{classified, classify, DeltaView};
use crate::fragment::{decode_frame, frame_fragment, FragmentView, StreamFragment, Usage};
use crate::palette::{Palette, PaletteView};
use crate::render::{
    close_marker, inside_after, joined, lemma_close_once_before_first_answer,
    lemma_ops_text_concat, lemma_reasoning_opens_once, lemma_step_text, lemma_trace_concat,
    open_marker, ops_text, render_usage, step_inside, step_ops, step_text, texts_of, trace,
    usage_line, RenderOp, RenderState,
};

verus! {

/// What a frame contributes to the rendered reply: the class of its
/// fragment, and nothing where it carries no fragment.
pub open spec fn event_delta(event: Option<FragmentView>) -> DeltaView {
    match event {
        Some(fragment) => classified(fragment),
        None => DeltaView::Empty,
    }
}

/// The usage snapshot held after a frame: the one the frame's fragment
/// carries, and otherwise the one held before.
pub open spec fn event_usage(held: Usage, event: Option<FragmentView>) -> Usage {
    match event {
        Some(fragment) => match fragment.usage {
            Some(snapshot) => snapshot,
            None => held,
        },
        None => held,
    }
}

/// Whether a frame delivers a usage snapshot.
pub open spec fn has_snapshot(event: Option<FragmentView>) -> bool {
    event matches Some(fragment) && fragment.usage is Some
}

/// What the frames of a stream carry, frame by frame.
pub open spec fn frame_events(frames: Seq<Seq<u8>>) -> Seq<Option<FragmentView>> {
    frames.map_values(|frame: Seq<u8>| frame_fragment(frame))
}

/// What the events of a stream contribute to the rendered reply, event by
/// event.
pub open spec fn event_deltas(events: Seq<Option<FragmentView>>) -> Seq<DeltaView> {
    events.map_values(|event: Option<FragmentView>| event_delta(event))
}

/// The usage snapshot held after a sequence of events: the last one
/// delivered, and `held` where none was.
pub open spec fn usage_after(held: Usage, events: Seq<Option<FragmentView>>) -> Usage
    decreases events.len(),
{
    if events.len() == 0 {
        held
    } else {
        event_usage(usage_after(held, events.drop_last()), events.last())
    }
}

/// The state of a response cycle: where the renderer stands, and the latest
/// usage snapshot.
#[derive(Clone, Copy, Debug, PartialEq, Eq, Structural)]
pub struct ResponseCycle {
    pub render: RenderState,
    pub usage: Usage,
}

/// The state in which every response cycle starts: outside a reasoning
/// block, with all counts at zero.
pub open spec fn initial_cycle() -> ResponseCycle {
    ResponseCycle { render: RenderState { inside_reasoning: false }, usage: Usage::spec_zero() }
}

/// The state after one event.
pub open spec fn cycle_step(cycle: ResponseCycle, event: Option<FragmentView>) -> ResponseCycle {
    ResponseCycle {
        render: RenderState {
            inside_reasoning: step_inside(cycle.render.inside_reasoning, event_delta(event)),
        },
        usage: event_usage(cycle.usage, event),
    }
}

/// The state after a sequence of events.
pub open spec fn cycle_after(
    cycle: ResponseCycle,
    events: Seq<Option<FragmentView>>,
) -> ResponseCycle {
    ResponseCycle {
        render: RenderState {
            inside_reasoning: inside_after(cycle.render.inside_reasoning, event_deltas(events)),
        },
        usage: usage_after(cycle.usage, events),
    }
}

/// Everything that is emitted for a sequence of events.
pub open spec fn cycle_trace(
    cycle: ResponseCycle,
    events: Seq<Option<FragmentView>>,
) -> Seq<RenderOp> {
    trace(cycle.render.inside_reasoning, event_deltas(events))
}

/// The whole output of a response cycle: the rendered reply, then the usage
/// line.
pub open spec fn cycle_output(events: Seq<Option<FragmentView>>, palette: PaletteView) -> Seq<
    char,
> {
    ops_text(cycle_trace(initial_cycle(), events), palette) + usage_line(
        usage_after(Usage::spec_zero(), events),
        palette,
    )
}

/// Processing one more event extends the state and the trace by one step.
pub proof fn lemma_cycle_push(
    cycle: ResponseCycle,
    events: Seq<Option<FragmentView>>,
    event: Option<FragmentView>,
)
    ensures
        cycle_after(cycle, events.push(event)) == cycle_step(cycle_after(cycle, events), event),
        cycle_trace(cycle, events.push(event)) == cycle_trace(cycle, events) + step_ops(
            cycle_after(cycle, events).render.inside_reasoning,
            event_delta(event),
        ),
{
    let longer = events.push(event);
    assert(longer.drop_last() =~= events);
    assert(event_deltas(longer).drop_last() =~= event_deltas(events));
    assert(event_deltas(longer).last() == event_delta(event));
}

impl ResponseCycle {
    /// The state at the start of a response cycle.
    pub fn begin() -> (cycle: ResponseCycle)
        ensures
            cycle == initial_cycle(),
    {
        ResponseCycle { render: RenderState::new(), usage: Usage::zero() }
    }

    /// Processes one decoded fragment: keeps its usage snapshot if it has
    /// one, classifies it and renders the delta. Returns the text to write.
    pub fn on_fragment(&mut self, fragment: &StreamFragment, palette: &Palette) -> (text: String)
        ensures
            *final(self) == cycle_step(*old(self), Some(fragment@)),
            text@ == step_text(old(self).render.inside_reasoning, classified(fragment@), palette@),
    {
        match fragment.usage {
            Some(snapshot) => {
                self.usage = snapshot;
            },
            None => {},
        }
        let delta = classify(fragment);
        self.render.render(&delta, palette)
    }

    /// Processes one frame of the stream. A frame that carries a fragment is
    /// processed as [`ResponseCycle::on_fragment`] does; any other frame is
    /// skipped, with no text and no change of state.
    pub fn on_frame(&mut self, frame: &[u8], palette: &Palette) -> (text: String)
        ensures
            *final(self) == cycle_step(*old(self), frame_fragment(frame@)),
            text@ == step_text(
                old(self).render.inside_reasoning,
                event_delta(frame_fragment(frame@)),
                palette@,
            ),
            frame_fragment(frame@) is None ==> *final(self) == *old(self) && text@.len() == 0,
    {
        match decode_frame(frame) {
            Some(fragment) => self.on_fragment(&fragment, palette),
            None => String::new(),
        }
    }

    /// The usage line that ends the cycle: it reports the snapshot held, which
    /// is the last one the stream delivered, or all zeros if it delivered
    /// none. A reasoning block that is still open is not closed.
    pub fn finish(&self, palette: &Palette) -> (text: String)
        ensures
            text@ == usage_line(self.usage, palette@),
    {
        render_usage(&self.usage, palette)
    }
}

/// The frames of a stream as byte sequences.
pub open spec fn frame_views(frames: Seq<Vec<u8>>) -> Seq<Seq<u8>> {
    frames.map_values(|frame: Vec<u8>| frame@)
}

/// What a whole response cycle produced.
#[derive(Clone, Debug, PartialEq, Eq)]
pub struct CycleReport {
    /// Everything written to the terminal: the rendered reply, then the
    /// usage line.
    pub output: String,
    /// The usage snapshot reported in the usage line.
    pub usage: Usage,
}

/// Runs a whole response cycle over the frames of a stream, in arrival
/// order: every frame is processed, whether or not the frames before it
/// carried a fragment, and the usage line follows the last frame.
pub fn render_stream(frames: &Vec<Vec<u8>>, palette: &Palette) -> (report: CycleReport)
    ensures
        report.usage == usage_after(Usage::spec_zero(), frame_events(frame_views(frames@))),
        report.output@ == cycle_output(frame_events(frame_views(frames@)), palette@),
{
    let ghost events = frame_events(frame_views(frames@));
    let mut cycle = ResponseCycle::begin();
    let mut output = String::new();
    let mut i: usize = 0;
    assert(events.take(0) =~= Seq::empty());
    assert(event_deltas(Seq::empty()) =~= Seq::empty());
    while i < frames.len()
        invariant
            i <= frames.len(),
            events == frame_events(frame_views(frames@)),
            cycle == cycle_after(initial_cycle(), events.take(i as int)),
            output@ == ops_text(cycle_trace(initial_cycle(), events.take(i as int)), palette@),
        decreases frames.len() - i,
    {
        let ghost before = events.take(i as int);
        let ghost event = events[i as int];
        let ghost inside = cycle.render.inside_reasoning;
        let text = cycle.on_frame(frames[i].as_slice(), palette);
        output.append(text.as_str());
        proof {
            assert(event == frame_fragment(frames@[i as int]@));
            assert(events.take(i + 1) =~= before.push(event));
            lemma_cycle_push(initial_cycle(), before, event);
            lemma_ops_text_concat(
                cycle_trace(initial_cycle(), before),
                step_ops(inside, event_delta(event)),
                palette@,
            );
            lemma_step_text(inside, event_delta(event), palette@);
        }
        i += 1;
    }
    assert(events.take(i as int) =~= events);
    let line = cycle.finish(palette);
    output.append(line.as_str());
    CycleReport { output, usage: cycle.usage }
}

/// Processing two runs of events one after the other is processing the
/// first and then processing the second from the state that the first
/// leaves.
pub proof fn lemma_cycle_concat(
    cycle: ResponseCycle,
    a: Seq<Option<FragmentView>>,
    b: Seq<Option<FragmentView>>,
)
    ensures
        cycle_after(cycle, a + b) == cycle_after(cycle_after(cycle, a), b),
        cycle_trace(cycle, a + b) == cycle_trace(cycle, a) + cycle_trace(cycle_after(cycle, a), b),
{
    assert(event_deltas(a + b) =~= event_deltas(a) + event_deltas(b));
    lemma_trace_concat(cycle.render.inside_reasoning, event_deltas(a), event_deltas(b));
    lemma_usage_concat(cycle.usage, a, b);
}

/// The snapshot held after two runs of events is the one held after the
/// second, started from what the first left.
pub proof fn lemma_usage_concat(
    held: Usage,
    a: Seq<Option<FragmentView>>,
    b: Seq<Option<FragmentView>>,
)
    ensures
        usage_after(held, a + b) == usage_after(usage_after(held, a), b),
    decreases b.len(),
{
    if b.len() == 0 {
        assert(a + b =~= a);
    } else {
        assert((a + b).drop_last() =~= a + b.drop_last());
        assert((a + b).last() == b.last());
        lemma_usage_concat(held, a, b.drop_last());
    }
}

/// Events that deliver no snapshot leave the held snapshot as it is. A
/// stream that never delivers one therefore ends with the snapshot the
/// cycle started with, which is all zeros.
pub proof fn lemma_usage_kept_without_snapshot(held: Usage, events: Seq<Option<FragmentView>>)
    requires
        forall|j: int| 0 <= j < events.len() ==> !has_snapshot(events[j]),
    ensures
        usage_after(held, events) == held,
    decreases events.len(),
{
    if events.len() > 0 {
        lemma_usage_kept_without_snapshot(held, events.drop_last());
    }
}

/// Last write wins: the snapshot held after a stream is the one that the
/// last snapshot-bearing event delivered, whatever was held or delivered
/// before it.
pub proof fn lemma_usage_is_last_snapshot(
    held: Usage,
    events: Seq<Option<FragmentView>>,
    last: int,
)
    requires
        0 <= last < events.len(),
        has_snapshot(events[last]),
        forall|j: int| last < j < events.len() ==> !has_snapshot(events[j]),
    ensures
        usage_after(held, events) == events[last]->0.usage->0,
{
    let upto = events.take(last + 1);
    let rest = events.skip(last + 1);
    assert(events =~= upto + rest);
    lemma_usage_concat(held, upto, rest);
    assert(upto.last() == events[last]);
    lemma_usage_kept_without_snapshot(usage_after(held, upto), rest);
}

/// The usage reported at the end of a response cycle: the last snapshot
/// seen in the stream, or all zeros if the stream delivered none.
pub proof fn lemma_reported_usage(events: Seq<Option<FragmentView>>)
    ensures
        (forall|j: int| 0 <= j < events.len() ==> !has_snapshot(events[j])) ==> usage_after(
            Usage::spec_zero(),
            events,
        ) == Usage::spec_zero(),
        forall|last: int|
            0 <= last < events.len() && has_snapshot(#[trigger] events[last]) && (forall|j: int|
                last < j < events.len() ==> !has_snapshot(events[j])) ==> usage_after(
                Usage::spec_zero(),
                events,
            ) == events[last]->0.usage->0,
{
    if forall|j: int| 0 <= j < events.len() ==> !has_snapshot(events[j]) {
        lemma_usage_kept_without_snapshot(Usage::spec_zero(), events);
    }
    assert forall|last: int|
        0 <= last < events.len() && has_snapshot(#[trigger] events[last]) && (forall|j: int|
            last < j < events.len() ==> !has_snapshot(events[j])) implies usage_after(
        Usage::spec_zero(),
        events,
    ) == events[last]->0.usage->0 by {
        lemma_usage_is_last_snapshot(Usage::spec_zero(), events, last);
    }
}

/// A frame that fails to decode does not end the processing of the stream
/// and leaves no trace: the stream with the frame gives the same emissions,
/// the same output and the same usage as the stream without it, so every
/// frame after it is processed as if the frame had not been there.
pub proof fn lemma_undecodable_frame_is_skipped(
    before: Seq<Seq<u8>>,
    frame: Seq<u8>,
    after: Seq<Seq<u8>>,
    palette: PaletteView,
)
    requires
        frame_fragment(frame) is None,
    ensures
        cycle_trace(initial_cycle(), frame_events(before + seq![frame] + after)) == cycle_trace(
            initial_cycle(),
            frame_events(before + after),
        ),
        cycle_after(initial_cycle(), frame_events(before + seq![frame] + after)) == cycle_after(
            initial_cycle(),
            frame_events(before + after),
        ),
        cycle_output(frame_events(before + seq![frame] + after), palette) == cycle_output(
            frame_events(before + after),
            palette,
        ),
{
    let start = initial_cycle();
    let head = frame_events(before);
    let skipped = seq![None::<FragmentView>];
    let tail = frame_events(after);
    assert(frame_events(before + seq![frame] + after) =~= head + skipped + tail);
    assert(frame_events(before + after) =~= head + tail);
    lemma_cycle_concat(start, head + skipped, tail);
    lemma_cycle_concat(start, head, skipped);
    lemma_cycle_concat(start, head, tail);
    let reached = cycle_after(start, head);
    let none = Seq::<Option<FragmentView>>::empty();
    assert(skipped =~= none.push(None));
    assert(event_deltas(none) =~= Seq::empty());
    lemma_cycle_push(reached, none, None);
    assert(cycle_after(reached, none) == reached);
    assert(cycle_after(reached, skipped) == reached);
    assert(cycle_trace(reached, skipped) =~= Seq::empty());
    assert(cycle_trace(start, head + skipped) =~= cycle_trace(start, head));
}

/// Whether an event is a fragment in which only the reasoning text is set.
pub open spec fn carries_reasoning_only(event: Option<FragmentView>) -> bool {
    event matches Some(fragment) && fragment.deltas.len() > 0 && fragment.deltas[0].content is None
        && fragment.deltas[0].reasoning_content is Some
}

/// Whether an event is a fragment in which the answer text is set.
pub open spec fn carries_answer(event: Option<FragmentView>) -> bool {
    event matches Some(fragment) && fragment.deltas.len() > 0 && fragment.deltas[0].content is Some
}

/// A stream that starts with fragments in which only the reasoning text is
/// set: the output begins with the opening marker, which is emitted exactly
/// once and before any reasoning text, however many such fragments arrive
/// in a row.
pub proof fn lemma_reasoning_fragments_open_once(
    events: Seq<Option<FragmentView>>,
    palette: PaletteView,
)
    requires
        events.len() > 0,
        forall|i: int| 0 <= i < events.len() ==> carries_reasoning_only(events[i]),
    ensures
        cycle_trace(initial_cycle(), events) == seq![RenderOp::OpenReasoning] + texts_of(
            event_deltas(events),
        ),
        ops_text(cycle_trace(initial_cycle(), events), palette) == open_marker(palette) + joined(
            event_deltas(events),
        ),
        cycle_after(initial_cycle(), events).render.inside_reasoning,
{
    lemma_reasoning_opens_once(event_deltas(events), palette);
}

/// Reasoning fragments followed by answer fragments: the closing marker is
/// emitted exactly once, directly before the first answer text, not
/// earlier, and not again for the answer fragments that follow.
pub proof fn lemma_answer_fragments_close_once(
    reasoning: Seq<Option<FragmentView>>,
    answers: Seq<Option<FragmentView>>,
    palette: PaletteView,
)
    requires
        reasoning.len() > 0,
        forall|i: int| 0 <= i < reasoning.len() ==> carries_reasoning_only(reasoning[i]),
        answers.len() > 0,
        forall|i: int| 0 <= i < answers.len() ==> carries_answer(answers[i]),
    ensures
        cycle_trace(initial_cycle(), reasoning + answers) == seq![RenderOp::OpenReasoning]
            + texts_of(event_deltas(reasoning)) + seq![RenderOp::CloseReasoning] + texts_of(
            event_deltas(answers),
        ),
        ops_text(cycle_trace(initial_cycle(), reasoning + answers), palette) == open_marker(palette)
            + joined(event_deltas(reasoning)) + close_marker(palette) + joined(
            event_deltas(answers),
        ),
        !cycle_after(initial_cycle(), reasoning + answers).render.inside_reasoning,
{
    assert(event_deltas(reasoning + answers) =~= event_deltas(reasoning) + event_deltas(answers));
    lemma_close_once_before_first_answer(event_deltas(reasoning), event_deltas(answers), palette);
}

} // verus!
