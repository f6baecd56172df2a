//! The classifier: what a fragment contributes to the rendered reply.

use vstd::prelude::*;
use crate::fragment::{FragmentView, RawDelta, RawDeltaView, StreamFragment};

verus! {

/// What one fragment contributes: text of the answer, text of the reasoning
/// that precedes the answer, or nothing.
#[derive(Clone, Debug, PartialEq, Eq)]
pub enum Delta {
    AnswerText(String),
    ReasoningText(String),
    Empty,
}

/// The mathematical model of a [`Delta`].
pub enum DeltaView {
    AnswerText(Seq<char>),
    ReasoningText(Seq<char>),
    Empty,
}

impl View for Delta {
    type V = DeltaView;

    open spec fn view(&self) -> DeltaView {
        match self {
            Delta::AnswerText(text) => DeltaView::AnswerText(text@),
            Delta::ReasoningText(text) => DeltaView::ReasoningText(text@),
            Delta::Empty => DeltaView::Empty,
        }
    }
}

/// The class of a delta as it stands on the wire. Answer text wins over
/// reasoning text; a text that is present counts even where it is empty.
pub open spec fn classified_delta(raw: RawDeltaView) -> DeltaView {
    match raw.content {
        Some(text) => DeltaView::AnswerText(text),
        None => match raw.reasoning_content {
            Some(text) => DeltaView::ReasoningText(text),
            None => DeltaView::Empty,
        },
    }
}

/// The class of a fragment: that of its first delta, and `Empty` for a
/// fragment without deltas.
pub open spec fn classified(fragment: FragmentView) -> DeltaView {
    if fragment.deltas.len() == 0 {
        DeltaView::Empty
    } else {
        classified_delta(fragment.deltas[0])
    }
}

/// Classifies a delta as it stands on the wire.
pub fn classify_delta(raw: &RawDelta) -> (delta: Delta)
    ensures
        delta@ == classified_delta(raw@),
{
    match &raw.content {
        Some(text) => Delta::AnswerText(text.clone()),
        None => match &raw.reasoning_content {
            Some(text) => Delta::ReasoningText(text.clone()),
            None => Delta::Empty,
        },
    }
}

/// Classifies a fragment by its first delta. A fragment without deltas is
/// classified as `Empty`.
pub fn classify(fragment: &StreamFragment) -> (delta: Delta)
    ensures
        delta@ == classified(fragment@),
{
    if fragment.deltas.len() == 0 {
        Delta::Empty
    } else {
        classify_delta(&fragment.deltas[0])
    }
}

} // verus!
