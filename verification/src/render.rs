//! The render state machine: turns classified deltas into terminal text,
//! wrapping the reasoning in a pair of markers.

use vstd::prelude::*;
use vstd::string::*;
use crate::decimal::{decimal, push_decimal};
use crate::delta::{Delta, DeltaView};
use crate::fragment::Usage;
use crate::palette::{Palette, PaletteView};

verus! {

/// One thing the renderer emits.
pub enum RenderOp {
    /// The marker that opens a reasoning block.
    OpenReasoning,
    /// The marker that closes a reasoning block.
    CloseReasoning,
    /// Text of the reply, verbatim.
    Text(Seq<char>),
}

/// The text of the marker that opens a reasoning block.
pub open spec fn open_marker(palette: PaletteView) -> Seq<char> {
    palette.reasoning + "<think>\n"@
}

/// The text of the marker that closes a reasoning block.
pub open spec fn close_marker(palette: PaletteView) -> Seq<char> {
    "\n</think>\n"@ + palette.reset + "\n"@
}

/// The text that one emission puts on the terminal.
pub open spec fn op_text(op: RenderOp, palette: PaletteView) -> Seq<char> {
    match op {
        RenderOp::OpenReasoning => open_marker(palette),
        RenderOp::CloseReasoning => close_marker(palette),
        RenderOp::Text(text) => text,
    }
}

/// The text that a sequence of emissions puts on the terminal.
pub open spec fn ops_text(ops: Seq<RenderOp>, palette: PaletteView) -> Seq<char>
    decreases ops.len(),
{
    if ops.len() == 0 {
        Seq::empty()
    } else {
        ops_text(ops.drop_last(), palette) + op_text(ops.last(), palette)
    }
}

/// What the renderer emits for `delta` when `inside` says whether a
/// reasoning block is open.
pub open spec fn step_ops(inside: bool, delta: DeltaView) -> Seq<RenderOp> {
    match delta {
        DeltaView::ReasoningText(text) => if inside {
            seq![RenderOp::Text(text)]
        } else {
            seq![RenderOp::OpenReasoning, RenderOp::Text(text)]
        },
        DeltaView::AnswerText(text) => if inside {
            seq![RenderOp::CloseReasoning, RenderOp::Text(text)]
        } else {
            seq![RenderOp::Text(text)]
        },
        DeltaView::Empty => Seq::empty(),
    }
}

/// Whether a reasoning block is open after `delta`.
pub open spec fn step_inside(inside: bool, delta: DeltaView) -> bool {
    match delta {
        DeltaView::ReasoningText(_) => true,
        DeltaView::AnswerText(_) => false,
        DeltaView::Empty => inside,
    }
}

/// The text that the renderer writes for `delta`.
pub open spec fn step_text(inside: bool, delta: DeltaView, palette: PaletteView) -> Seq<char> {
    match delta {
        DeltaView::ReasoningText(text) => if inside {
            text
        } else {
            open_marker(palette) + text
        },
        DeltaView::AnswerText(text) => if inside {
            close_marker(palette) + text
        } else {
            text
        },
        DeltaView::Empty => Seq::empty(),
    }
}

/// The text of a step is the text of what the step emits.
pub proof fn lemma_step_text(inside: bool, delta: DeltaView, palette: PaletteView)
    ensures
        ops_text(step_ops(inside, delta), palette) == step_text(inside, delta, palette),
{
    let ops = step_ops(inside, delta);
    reveal_with_fuel(ops_text, 3);
    if ops.len() == 1 {
        assert(ops.drop_last() =~= Seq::empty());
        assert(ops_text(ops, palette) =~= op_text(ops[0], palette));
    } else if ops.len() == 2 {
        assert(ops.drop_last() =~= seq![ops[0]]);
        assert(ops.drop_last().drop_last() =~= Seq::empty());
        assert(ops_text(ops, palette) =~= op_text(ops[0], palette) + op_text(ops[1], palette));
    }
}

/// Answer text is never written inside a reasoning block: where a block is
/// open, the closing marker comes first, and the text follows it directly;
/// either way the block is closed afterwards.
pub proof fn lemma_answer_is_written_outside(inside: bool, text: Seq<char>)
    ensures
        inside ==> step_ops(inside, DeltaView::AnswerText(text)) == seq![
            RenderOp::CloseReasoning,
            RenderOp::Text(text),
        ],
        !inside ==> step_ops(inside, DeltaView::AnswerText(text)) == seq![RenderOp::Text(text)],
        !step_inside(inside, DeltaView::AnswerText(text)),
{
}

/// Whether the terminal is inside a reasoning block. A response cycle starts
/// outside.
#[derive(Clone, Copy, Debug, PartialEq, Eq, Structural)]
pub struct RenderState {
    pub inside_reasoning: bool,
}

impl RenderState {
    /// The state at the start of a response cycle.
    pub fn new() -> (state: RenderState)
        ensures
            !state.inside_reasoning,
    {
        RenderState { inside_reasoning: false }
    }

    /// Renders one delta: returns the text to write, which the caller
    /// flushes at once, and moves to the next state.
    ///
    /// Reasoning text opens a block unless one is open; answer text closes
    /// the block if one is open; either is then written verbatim. An empty
    /// delta writes nothing and changes nothing.
    pub fn render(&mut self, delta: &Delta, palette: &Palette) -> (text: String)
        ensures
            final(self).inside_reasoning == step_inside(old(self).inside_reasoning, delta@),
            text@ == step_text(old(self).inside_reasoning, delta@, palette@),
            text@ == ops_text(step_ops(old(self).inside_reasoning, delta@), palette@),
    {
        proof {
            lemma_step_text(self.inside_reasoning, delta@, palette@);
        }
        let mut text = String::new();
        match delta {
            Delta::ReasoningText(reasoning) => {
                if !self.inside_reasoning {
                    self.inside_reasoning = true;
                    text.append(palette.reasoning.as_str());
                    text.append("<think>\n");
                }
                text.append(reasoning.as_str());
            },
            Delta::AnswerText(answer) => {
                if self.inside_reasoning {
                    self.inside_reasoning = false;
                    text.append("\n</think>\n");
                    text.append(palette.reset.as_str());
                    text.append("\n");
                }
                text.append(answer.as_str());
            },
            Delta::Empty => {},
        }
        assert(text@ =~= step_text(old(self).inside_reasoning, delta@, palette@));
        text
    }
}

/// The line that heads a response cycle: a rocket and the name of the model
/// that answers.
pub open spec fn banner_line(model: Seq<char>) -> Seq<char> {
    "🚀 "@ + model + "\n"@
}

/// Writes the line that heads a response cycle.
pub fn render_banner(model: &str) -> (text: String)
    ensures
        text@ == banner_line(model@),
{
    let mut text = String::new();
    text.append("🚀 ");
    text.append(model);
    text.append("\n");
    assert(text@ =~= banner_line(model@));
    text
}

/// The line that reports the token counts at the end of a response cycle.
pub open spec fn usage_line(usage: Usage, palette: PaletteView) -> Seq<char> {
    "\n"@ + palette.summary + "total tokens: "@ + decimal(usage.total_tokens as nat) + " = "@
        + decimal(usage.prompt_tokens as nat) + " + "@ + decimal(usage.completion_tokens as nat)
        + palette.reset + "\n"@
}

/// Writes the line that reports the token counts: the total, then the
/// prompt and completion counts that add up to it.
pub fn render_usage(usage: &Usage, palette: &Palette) -> (text: String)
    ensures
        text@ == usage_line(*usage, palette@),
{
    let mut text = String::new();
    text.append("\n");
    text.append(palette.summary.as_str());
    text.append("total tokens: ");
    push_decimal(&mut text, usage.total_tokens);
    text.append(" = ");
    push_decimal(&mut text, usage.prompt_tokens);
    text.append(" + ");
    push_decimal(&mut text, usage.completion_tokens);
    text.append(palette.reset.as_str());
    text.append("\n");
    assert(text@ =~= usage_line(*usage, palette@));
    text
}

/// Whether a reasoning block is open after a sequence of deltas, rendered
/// in order from the state `inside`.
pub open spec fn inside_after(inside: bool, deltas: Seq<DeltaView>) -> bool
    decreases deltas.len(),
{
    if deltas.len() == 0 {
        inside
    } else {
        step_inside(inside_after(inside, deltas.drop_last()), deltas.last())
    }
}

/// Everything the renderer emits for a sequence of deltas, rendered in
/// order from the state `inside`.
pub open spec fn trace(inside: bool, deltas: Seq<DeltaView>) -> Seq<RenderOp>
    decreases deltas.len(),
{
    if deltas.len() == 0 {
        Seq::empty()
    } else {
        trace(inside, deltas.drop_last()) + step_ops(
            inside_after(inside, deltas.drop_last()),
            deltas.last(),
        )
    }
}

/// The text that a delta carries.
pub open spec fn delta_text(delta: DeltaView) -> Seq<char> {
    match delta {
        DeltaView::AnswerText(text) => text,
        DeltaView::ReasoningText(text) => text,
        DeltaView::Empty => Seq::empty(),
    }
}

/// The texts of a sequence of deltas, each as one emission.
pub open spec fn texts_of(deltas: Seq<DeltaView>) -> Seq<RenderOp> {
    Seq::new(deltas.len(), |i: int| RenderOp::Text(delta_text(deltas[i])))
}

/// The texts of a sequence of deltas, one after the other.
pub open spec fn joined(deltas: Seq<DeltaView>) -> Seq<char>
    decreases deltas.len(),
{
    if deltas.len() == 0 {
        Seq::empty()
    } else {
        joined(deltas.drop_last()) + delta_text(deltas.last())
    }
}

/// How many opening markers a sequence of emissions holds.
pub open spec fn opens(ops: Seq<RenderOp>) -> nat
    decreases ops.len(),
{
    if ops.len() == 0 {
        0
    } else {
        opens(ops.drop_last()) + if ops.last() is OpenReasoning {
            1nat
        } else {
            0nat
        }
    }
}

/// How many closing markers a sequence of emissions holds.
pub open spec fn closes(ops: Seq<RenderOp>) -> nat
    decreases ops.len(),
{
    if ops.len() == 0 {
        0
    } else {
        closes(ops.drop_last()) + if ops.last() is CloseReasoning {
            1nat
        } else {
            0nat
        }
    }
}

/// The text of two runs of emissions is the text of the first followed by
/// the text of the second.
pub proof fn lemma_ops_text_concat(a: Seq<RenderOp>, b: Seq<RenderOp>, palette: PaletteView)
    ensures
        ops_text(a + b, palette) == ops_text(a, palette) + ops_text(b, palette),
    decreases b.len(),
{
    if b.len() == 0 {
        assert(a + b =~= a);
        assert(ops_text(a, palette) + ops_text(b, palette) =~= ops_text(a, palette));
    } else {
        assert((a + b).drop_last() =~= a + b.drop_last());
        assert((a + b).last() == b.last());
        lemma_ops_text_concat(a, b.drop_last(), palette);
        assert(ops_text(a + b, palette) =~= ops_text(a, palette) + ops_text(b, palette));
    }
}

/// Rendering two runs of deltas one after the other is rendering the first
/// and then rendering the second from the state that the first leaves.
pub proof fn lemma_trace_concat(inside: bool, a: Seq<DeltaView>, b: Seq<DeltaView>)
    ensures
        inside_after(inside, a + b) == inside_after(inside_after(inside, a), b),
        trace(inside, a + b) == trace(inside, a) + trace(inside_after(inside, a), b),
    decreases b.len(),
{
    if b.len() == 0 {
        assert(a + b =~= a);
        assert(trace(inside, a) + trace(inside_after(inside, a), b) =~= trace(inside, a));
    } else {
        assert((a + b).drop_last() =~= a + b.drop_last());
        assert((a + b).last() == b.last());
        lemma_trace_concat(inside, a, b.drop_last());
        assert(trace(inside, a + b) =~= trace(inside, a) + trace(inside_after(inside, a), b));
    }
}

/// A run of reasoning deltas opens the reasoning block at most once: before
/// its first text where the run starts outside a block, and not at all where
/// it starts inside one. The texts follow in order, and nothing else is
/// emitted, however long the run is.
pub proof fn lemma_reasoning_run(inside: bool, deltas: Seq<DeltaView>)
    requires
        forall|i: int| 0 <= i < deltas.len() ==> deltas[i] is ReasoningText,
    ensures
        trace(inside, deltas) == if inside || deltas.len() == 0 {
            texts_of(deltas)
        } else {
            seq![RenderOp::OpenReasoning] + texts_of(deltas)
        },
        inside_after(inside, deltas) == (inside || deltas.len() > 0),
    decreases deltas.len(),
{
    if deltas.len() == 0 {
        assert(texts_of(deltas) =~= Seq::empty());
    } else {
        let init = deltas.drop_last();
        lemma_reasoning_run(inside, init);
        assert(texts_of(deltas) =~= texts_of(init).push(RenderOp::Text(delta_text(deltas.last()))));
        if inside || init.len() > 0 {
            assert(trace(inside, deltas) =~= trace(inside, init).push(
                RenderOp::Text(delta_text(deltas.last())),
            ));
        } else {
            assert(texts_of(init) =~= Seq::empty());
            assert(trace(inside, deltas) =~= seq![RenderOp::OpenReasoning] + texts_of(deltas));
        }
    }
}

/// A run of answer deltas closes the reasoning block at most once: before
/// its first text where the run starts inside a block, and not at all where
/// it starts outside one. The texts follow in order, and nothing else is
/// emitted, however long the run is.
pub proof fn lemma_answer_run(inside: bool, deltas: Seq<DeltaView>)
    requires
        forall|i: int| 0 <= i < deltas.len() ==> deltas[i] is AnswerText,
    ensures
        trace(inside, deltas) == if inside && deltas.len() > 0 {
            seq![RenderOp::CloseReasoning] + texts_of(deltas)
        } else {
            texts_of(deltas)
        },
        inside_after(inside, deltas) == (inside && deltas.len() == 0),
    decreases deltas.len(),
{
    if deltas.len() == 0 {
        assert(texts_of(deltas) =~= Seq::empty());
    } else {
        let init = deltas.drop_last();
        lemma_answer_run(inside, init);
        assert(texts_of(deltas) =~= texts_of(init).push(RenderOp::Text(delta_text(deltas.last()))));
        if inside && init.len() == 0 {
            assert(texts_of(init) =~= Seq::empty());
            assert(trace(inside, deltas) =~= seq![RenderOp::CloseReasoning] + texts_of(deltas));
        } else {
            assert(trace(inside, deltas) =~= trace(inside, init).push(
                RenderOp::Text(delta_text(deltas.last())),
            ));
        }
    }
}

/// Reasoning deltas at the start of a response cycle: the output begins
/// with the opening marker, which is emitted exactly once and before any
/// reasoning text, however many reasoning deltas arrive in a row. What is
/// written is the marker followed by the texts.
pub proof fn lemma_reasoning_opens_once(deltas: Seq<DeltaView>, palette: PaletteView)
    requires
        deltas.len() > 0,
        forall|i: int| 0 <= i < deltas.len() ==> deltas[i] is ReasoningText,
    ensures
        trace(false, deltas) == seq![RenderOp::OpenReasoning] + texts_of(deltas),
        trace(false, deltas)[0] is OpenReasoning,
        opens(trace(false, deltas)) == 1,
        closes(trace(false, deltas)) == 0,
        inside_after(false, deltas),
        ops_text(trace(false, deltas), palette) == open_marker(palette) + joined(deltas),
{
    lemma_reasoning_run(false, deltas);
    lemma_texts_hold_no_marker(deltas);
    lemma_count_concat(seq![RenderOp::OpenReasoning], texts_of(deltas));
    lemma_count_one(RenderOp::OpenReasoning);
    lemma_ops_text_concat(seq![RenderOp::OpenReasoning], texts_of(deltas), palette);
    lemma_ops_text_one(RenderOp::OpenReasoning, palette);
    lemma_texts_are_joined(deltas, palette);
}

/// Reasoning followed by the answer: the closing marker is emitted exactly
/// once, directly before the first answer text. It does not come earlier,
/// and further answer fragments do not repeat it.
pub proof fn lemma_close_once_before_first_answer(
    reasoning: Seq<DeltaView>,
    answers: Seq<DeltaView>,
    palette: PaletteView,
)
    requires
        reasoning.len() > 0,
        forall|i: int| 0 <= i < reasoning.len() ==> reasoning[i] is ReasoningText,
        answers.len() > 0,
        forall|i: int| 0 <= i < answers.len() ==> answers[i] is AnswerText,
    ensures
        trace(false, reasoning + answers) == seq![RenderOp::OpenReasoning] + texts_of(reasoning)
            + seq![RenderOp::CloseReasoning] + texts_of(answers),
        trace(false, reasoning + answers)[reasoning.len() as int + 1] is CloseReasoning,
        trace(false, reasoning + answers)[reasoning.len() as int + 2] == RenderOp::Text(
            delta_text(answers[0]),
        ),
        closes(trace(false, reasoning + answers)) == 1,
        !inside_after(false, reasoning + answers),
        ops_text(trace(false, reasoning + answers), palette) == open_marker(palette) + joined(
            reasoning,
        ) + close_marker(palette) + joined(answers),
{
    lemma_trace_concat(false, reasoning, answers);
    lemma_reasoning_run(false, reasoning);
    lemma_answer_run(true, answers);
    let head = seq![RenderOp::OpenReasoning] + texts_of(reasoning);
    let tail = seq![RenderOp::CloseReasoning] + texts_of(answers);
    assert(trace(false, reasoning + answers) =~= head + tail);
    assert(head + tail =~= seq![RenderOp::OpenReasoning] + texts_of(reasoning)
        + seq![RenderOp::CloseReasoning] + texts_of(answers));
    lemma_texts_hold_no_marker(reasoning);
    lemma_texts_hold_no_marker(answers);
    lemma_count_one(RenderOp::OpenReasoning);
    lemma_count_one(RenderOp::CloseReasoning);
    lemma_count_concat(seq![RenderOp::OpenReasoning], texts_of(reasoning));
    lemma_count_concat(seq![RenderOp::CloseReasoning], texts_of(answers));
    lemma_count_concat(head, tail);
    lemma_ops_text_concat(head, tail, palette);
    lemma_ops_text_concat(seq![RenderOp::OpenReasoning], texts_of(reasoning), palette);
    lemma_ops_text_concat(seq![RenderOp::CloseReasoning], texts_of(answers), palette);
    lemma_ops_text_one(RenderOp::OpenReasoning, palette);
    lemma_ops_text_one(RenderOp::CloseReasoning, palette);
    lemma_texts_are_joined(reasoning, palette);
    lemma_texts_are_joined(answers, palette);
    assert(ops_text(trace(false, reasoning + answers), palette) =~= open_marker(palette) + joined(
        reasoning,
    ) + close_marker(palette) + joined(answers));
}

/// An answer that no reasoning precedes is written without any marker: what
/// is written is the texts and nothing else.
pub proof fn lemma_answer_without_reasoning(deltas: Seq<DeltaView>, palette: PaletteView)
    requires
        forall|i: int| 0 <= i < deltas.len() ==> deltas[i] is AnswerText,
    ensures
        trace(false, deltas) == texts_of(deltas),
        opens(trace(false, deltas)) == 0,
        closes(trace(false, deltas)) == 0,
        ops_text(trace(false, deltas), palette) == joined(deltas),
{
    lemma_answer_run(false, deltas);
    lemma_texts_hold_no_marker(deltas);
    lemma_texts_are_joined(deltas, palette);
}

/// The text of a single emission.
proof fn lemma_ops_text_one(op: RenderOp, palette: PaletteView)
    ensures
        ops_text(seq![op], palette) == op_text(op, palette),
{
    reveal_with_fuel(ops_text, 2);
    assert(seq![op].drop_last() =~= Seq::empty());
    assert(ops_text(seq![op], palette) =~= op_text(op, palette));
}

/// Texts are written verbatim, one after the other.
proof fn lemma_texts_are_joined(deltas: Seq<DeltaView>, palette: PaletteView)
    ensures
        ops_text(texts_of(deltas), palette) == joined(deltas),
    decreases deltas.len(),
{
    if deltas.len() > 0 {
        assert(texts_of(deltas).drop_last() =~= texts_of(deltas.drop_last()));
        lemma_texts_are_joined(deltas.drop_last(), palette);
    }
}

/// From the start of a response cycle the markers pair up, whatever the
/// deltas are: each closing marker closes a block that was opened, no block
/// is opened while one is open, and the block that is open at the end, if
/// any, is the one opening marker without a partner.
pub proof fn lemma_markers_pair_up(deltas: Seq<DeltaView>)
    ensures
        opens(trace(false, deltas)) == closes(trace(false, deltas)) + if inside_after(
            false,
            deltas,
        ) {
            1nat
        } else {
            0nat
        },
    decreases deltas.len(),
{
    if deltas.len() > 0 {
        let init = deltas.drop_last();
        lemma_markers_pair_up(init);
        let step = step_ops(inside_after(false, init), deltas.last());
        lemma_count_concat(trace(false, init), step);
        lemma_count_step(inside_after(false, init), deltas.last());
    }
}

/// The markers that one step emits.
proof fn lemma_count_step(inside: bool, delta: DeltaView)
    ensures
        opens(step_ops(inside, delta)) == if !inside && delta is ReasoningText {
            1nat
        } else {
            0nat
        },
        closes(step_ops(inside, delta)) == if inside && delta is AnswerText {
            1nat
        } else {
            0nat
        },
{
    let ops = step_ops(inside, delta);
    reveal_with_fuel(opens, 3);
    reveal_with_fuel(closes, 3);
    if ops.len() == 1 {
        assert(ops.drop_last() =~= Seq::empty());
    } else if ops.len() == 2 {
        assert(ops.drop_last() =~= seq![ops[0]]);
        assert(ops.drop_last().drop_last() =~= Seq::empty());
    }
}

/// The markers of a single emission.
proof fn lemma_count_one(op: RenderOp)
    ensures
        opens(seq![op]) == if op is OpenReasoning {
            1nat
        } else {
            0nat
        },
        closes(seq![op]) == if op is CloseReasoning {
            1nat
        } else {
            0nat
        },
{
    reveal_with_fuel(opens, 2);
    reveal_with_fuel(closes, 2);
    assert(seq![op].drop_last() =~= Seq::empty());
}

/// Markers are counted run by run.
proof fn lemma_count_concat(a: Seq<RenderOp>, b: Seq<RenderOp>)
    ensures
        opens(a + b) == opens(a) + opens(b),
        closes(a + b) == closes(a) + closes(b),
    decreases b.len(),
{
    if b.len() == 0 {
        assert(a + b =~= a);
    } else {
        assert((a + b).drop_last() =~= a + b.drop_last());
        assert((a + b).last() == b.last());
        lemma_count_concat(a, b.drop_last());
    }
}

/// Texts are no markers.
proof fn lemma_texts_hold_no_marker(deltas: Seq<DeltaView>)
    ensures
        opens(texts_of(deltas)) == 0,
        closes(texts_of(deltas)) == 0,
    decreases deltas.len(),
{
    if deltas.len() > 0 {
        assert(texts_of(deltas).drop_last() =~= texts_of(deltas.drop_last()));
        lemma_texts_hold_no_marker(deltas.drop_last());
    }
}

} // verus!
