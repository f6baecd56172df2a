//! Stream fragments and the decoder that reads them off the wire.
//!
//! A frame of the event stream is a fixed marker of six bytes followed by a
//! payload. A payload that is a JSON object of the shape
//!
//! ```text
//! { "choices": [ { "delta": { "content"?: string, "reasoning_content"?: string } }, ... ],
//!   "usage"?: { "total_tokens": n, "prompt_tokens": n, "completion_tokens": n } }
//! ```
//!
//! is a fragment. Anything else (text that is no JSON, such as the `[DONE]`
//! terminator, or JSON of another shape) is no fragment, and the caller
//! skips it. A member written `?` may be missing or `null`.

use vstd::prelude::*;
use crate::json;
use crate::json::{json_model, json_models, json_text, JsonValue};

verus! {

/// The number of bytes that precede the payload in every frame: the length
/// of the marker `data: `.
pub const EVENT_PREFIX_LEN: usize = 6;

/// A snapshot of the token counts, as the server reports them.
#[derive(Clone, Copy, Debug, PartialEq, Eq, Structural)]
pub struct Usage {
    pub total_tokens: u64,
    pub prompt_tokens: u64,
    pub completion_tokens: u64,
}

impl Usage {
    /// The snapshot that is reported when the stream delivered none.
    pub open spec fn spec_zero() -> Usage {
        Usage { total_tokens: 0, prompt_tokens: 0, completion_tokens: 0 }
    }

    /// The snapshot that is reported when the stream delivered none.
    #[verifier::when_used_as_spec(spec_zero)]
    pub fn zero() -> (usage: Usage)
        ensures
            usage == Usage::spec_zero(),
    {
        Usage { total_tokens: 0, prompt_tokens: 0, completion_tokens: 0 }
    }
}

/// A delta as it stands on the wire: two optional texts.
#[derive(Clone, Debug, PartialEq, Eq)]
pub struct RawDelta {
    pub content: Option<String>,
    pub reasoning_content: Option<String>,
}

/// The mathematical model of a [`RawDelta`].
pub struct RawDeltaView {
    pub content: Option<Seq<char>>,
    pub reasoning_content: Option<Seq<char>>,
}

/// The model of an optional string.
pub open spec fn text_view(text: Option<String>) -> Option<Seq<char>> {
    match text {
        Some(s) => Some(s@),
        None => None,
    }
}

impl View for RawDelta {
    type V = RawDeltaView;

    open spec fn view(&self) -> RawDeltaView {
        RawDeltaView {
            content: text_view(self.content),
            reasoning_content: text_view(self.reasoning_content),
        }
    }
}

/// One decoded unit of the stream: its deltas, in wire order, and the usage
/// snapshot if it carries one.
#[derive(Clone, Debug, PartialEq, Eq)]
pub struct StreamFragment {
    pub deltas: Vec<RawDelta>,
    pub usage: Option<Usage>,
}

/// The mathematical model of a [`StreamFragment`].
pub struct FragmentView {
    pub deltas: Seq<RawDeltaView>,
    pub usage: Option<Usage>,
}

/// The models of a sequence of deltas, one by one.
pub open spec fn delta_views(deltas: Seq<RawDelta>) -> Seq<RawDeltaView> {
    deltas.map_values(|d: RawDelta| d@)
}

impl View for StreamFragment {
    type V = FragmentView;

    open spec fn view(&self) -> FragmentView {
        FragmentView { deltas: delta_views(self.deltas@), usage: self.usage }
    }
}

/// The model of an optional fragment.
pub open spec fn fragment_view(fragment: Option<StreamFragment>) -> Option<FragmentView> {
    match fragment {
        Some(f) => Some(f@),
        None => None,
    }
}

/// What an optional text member of `object` holds: `Some(None)` where the
/// member is missing or `null`, `Some(Some(text))` where it is a string, and
/// `None` where it is anything else, which makes the document malformed.
pub open spec fn optional_text(object: JsonValue, key: Seq<char>) -> Option<Option<Seq<char>>> {
    match object.member(key) {
        None => Some(None),
        Some(JsonValue::Null) => Some(None),
        Some(JsonValue::String(text)) => Some(Some(text)),
        Some(_) => None,
    }
}

/// The delta of one element of `choices`: the element has a member `delta`
/// that is an object, whose two texts are optional.
pub open spec fn delta_of(choice: JsonValue) -> Option<RawDeltaView> {
    match choice.member("delta"@) {
        Some(delta) => if delta is Object {
            match (optional_text(delta, "content"@), optional_text(delta, "reasoning_content"@)) {
                (Some(content), Some(reasoning_content)) => Some(
                    RawDeltaView { content, reasoning_content },
                ),
                _ => None,
            }
        } else {
            None
        },
        None => None,
    }
}

/// The deltas of all elements of `choices`, provided every one is well
/// formed.
pub open spec fn deltas_of(choices: Seq<JsonValue>) -> Option<Seq<RawDeltaView>> {
    if forall|i: int| 0 <= i < choices.len() ==> (#[trigger] delta_of(choices[i])) is Some {
        Some(Seq::new(choices.len(), |i: int| delta_of(choices[i])->0))
    } else {
        None
    }
}

/// The usage snapshot that `usage` holds: an object with the three counts,
/// each an unsigned integer of at most 64 bits.
pub open spec fn usage_of(usage: JsonValue) -> Option<Usage> {
    match (
        usage.member("total_tokens"@),
        usage.member("prompt_tokens"@),
        usage.member("completion_tokens"@),
    ) {
        (Some(total), Some(prompt), Some(completion)) => match (
            total.unsigned(),
            prompt.unsigned(),
            completion.unsigned(),
        ) {
            (Some(total_tokens), Some(prompt_tokens), Some(completion_tokens)) => Some(
                Usage { total_tokens, prompt_tokens, completion_tokens },
            ),
            _ => None,
        },
        _ => None,
    }
}

/// What the optional member `usage` of `document` holds: `Some(None)` where
/// it is missing or `null`, `Some(Some(snapshot))` where it is a well-formed
/// snapshot, `None` where it is malformed.
pub open spec fn optional_usage(document: JsonValue) -> Option<Option<Usage>> {
    match document.member("usage"@) {
        None => Some(None),
        Some(JsonValue::Null) => Some(None),
        Some(usage) => match usage_of(usage) {
            Some(snapshot) => Some(Some(snapshot)),
            None => None,
        },
    }
}

/// The fragment that `document` is, or `None` where its shape is not that of
/// a fragment.
pub open spec fn fragment_of(document: JsonValue) -> Option<FragmentView> {
    match document.member("choices"@) {
        Some(JsonValue::Array(choices)) => match (deltas_of(choices), optional_usage(document)) {
            (Some(deltas), Some(usage)) => Some(FragmentView { deltas, usage }),
            _ => None,
        },
        _ => None,
    }
}

/// The fragment that the bytes of a payload encode, or `None` where they are
/// no JSON or JSON of another shape.
pub open spec fn payload_fragment(payload: Seq<u8>) -> Option<FragmentView> {
    match json_text(payload) {
        Some(document) => fragment_of(document),
        None => None,
    }
}

/// The payload of a frame: what follows its first six bytes. A frame
/// shorter than that has none.
pub open spec fn frame_payload(frame: Seq<u8>) -> Option<Seq<u8>> {
    if frame.len() >= EVENT_PREFIX_LEN {
        Some(frame.skip(EVENT_PREFIX_LEN as int))
    } else {
        None
    }
}

/// The fragment that a frame carries, if any.
pub open spec fn frame_fragment(frame: Seq<u8>) -> Option<FragmentView> {
    match frame_payload(frame) {
        Some(payload) => payload_fragment(payload),
        None => None,
    }
}

/// Reads an optional text member of `object`.
fn read_optional_text(object: &serde_json::Value, key: &str) -> (r: Option<Option<String>>)
    ensures
        match r {
            Some(text) => optional_text(json_model(*object), key@) == Some(text_view(text)),
            None => optional_text(json_model(*object), key@) is None,
        },
{
    match json::get(object, key) {
        None => Some(None),
        Some(member) => {
            if json::is_null(member) {
                Some(None)
            } else {
                match json::as_str(member) {
                    Some(text) => Some(Some(text.to_owned())),
                    None => None,
                }
            }
        },
    }
}

/// Reads the delta of one element of `choices`.
fn read_delta(choice: &serde_json::Value) -> (r: Option<RawDelta>)
    ensures
        match r {
            Some(delta) => delta_of(json_model(*choice)) == Some(delta@),
            None => delta_of(json_model(*choice)) is None,
        },
{
    let delta = match json::get(choice, "delta") {
        Some(delta) => delta,
        None => {
            return None;
        },
    };
    if !json::is_object(delta) {
        return None;
    }
    let content = match read_optional_text(delta, "content") {
        Some(content) => content,
        None => {
            return None;
        },
    };
    let reasoning_content = match read_optional_text(delta, "reasoning_content") {
        Some(reasoning_content) => reasoning_content,
        None => {
            return None;
        },
    };
    Some(RawDelta { content, reasoning_content })
}

/// Reads the deltas of all elements of `choices`, in order.
fn read_deltas(choices: &Vec<serde_json::Value>) -> (r: Option<Vec<RawDelta>>)
    ensures
        match r {
            Some(deltas) => deltas_of(json_models(choices@)) == Some(delta_views(deltas@)),
            None => deltas_of(json_models(choices@)) is None,
        },
{
    let ghost models = json_models(choices@);
    let mut deltas: Vec<RawDelta> = Vec::new();
    let mut i: usize = 0;
    while i < choices.len()
        invariant
            i <= choices.len(),
            models == json_models(choices@),
            deltas.len() == i,
            forall|k: int| 0 <= k < i ==> delta_of(models[k]) == Some(#[trigger] deltas@[k]@),
        decreases choices.len() - i,
    {
        match read_delta(&choices[i]) {
            Some(delta) => {
                deltas.push(delta);
            },
            None => {
                assert(delta_of(models[i as int]) is None);
                return None;
            },
        }
        i += 1;
    }
    assert forall|k: int| 0 <= k < models.len() implies (#[trigger] delta_of(models[k])) is Some by {
        assert(delta_of(models[k]) == Some(deltas@[k]@));
    }
    assert(delta_views(deltas@) =~= Seq::new(models.len(), |k: int| delta_of(models[k])->0));
    Some(deltas)
}

/// Reads one count of a usage snapshot.
fn read_count(usage: &serde_json::Value, key: &str) -> (r: Option<u64>)
    ensures
        r == match json_model(*usage).member(key@) {
            Some(count) => count.unsigned(),
            None => None,
        },
{
    match json::get(usage, key) {
        Some(count) => json::as_u64(count),
        None => None,
    }
}

/// Reads a usage snapshot.
fn read_usage(usage: &serde_json::Value) -> (r: Option<Usage>)
    ensures
        r == usage_of(json_model(*usage)),
{
    let total_tokens = match read_count(usage, "total_tokens") {
        Some(count) => count,
        None => {
            return None;
        },
    };
    let prompt_tokens = match read_count(usage, "prompt_tokens") {
        Some(count) => count,
        None => {
            return None;
        },
    };
    let completion_tokens = match read_count(usage, "completion_tokens") {
        Some(count) => count,
        None => {
            return None;
        },
    };
    Some(Usage { total_tokens, prompt_tokens, completion_tokens })
}

/// Reads the optional member `usage` of a document.
fn read_optional_usage(document: &serde_json::Value) -> (r: Option<Option<Usage>>)
    ensures
        r == optional_usage(json_model(*document)),
{
    match json::get(document, "usage") {
        None => Some(None),
        Some(usage) => {
            if json::is_null(usage) {
                Some(None)
            } else {
                match read_usage(usage) {
                    Some(snapshot) => Some(Some(snapshot)),
                    None => None,
                }
            }
        },
    }
}

/// Reads a parsed JSON document as a fragment. Returns the fragment where
/// the document has the shape of one, and `None` for every other document.
pub fn fragment_from_json(document: &serde_json::Value) -> (r: Option<StreamFragment>)
    ensures
        fragment_view(r) == fragment_of(json_model(*document)),
{
    let choices = match json::get(document, "choices") {
        Some(choices) => choices,
        None => {
            return None;
        },
    };
    let choices = match json::as_array(choices) {
        Some(choices) => choices,
        None => {
            return None;
        },
    };
    let deltas = match read_deltas(choices) {
        Some(deltas) => deltas,
        None => {
            return None;
        },
    };
    let usage = match read_optional_usage(document) {
        Some(usage) => usage,
        None => {
            return None;
        },
    };
    Some(StreamFragment { deltas, usage })
}

/// Decodes the payload of one frame. Returns the fragment that the bytes
/// encode; bytes that are no JSON, or JSON of another shape, give `None`.
pub fn decode_payload(payload: &[u8]) -> (r: Option<StreamFragment>)
    ensures
        fragment_view(r) == payload_fragment(payload@),
{
    match json::parse(payload) {
        Ok(document) => fragment_from_json(&document),
        Err(_) => None,
    }
}

/// Strips the marker that starts every frame. Returns `None` for a frame
/// that is shorter than the marker.
pub fn strip_event_prefix(frame: &[u8]) -> (r: Option<&[u8]>)
    ensures
        match r {
            Some(payload) => frame_payload(frame@) == Some(payload@),
            None => frame_payload(frame@) is None,
        },
{
    if frame.len() >= EVENT_PREFIX_LEN {
        Some(&frame[EVENT_PREFIX_LEN..frame.len()])
    } else {
        None
    }
}

/// Decodes one frame of the stream: strips the marker and decodes the
/// payload. A frame that carries no fragment gives `None`.
pub fn decode_frame(frame: &[u8]) -> (r: Option<StreamFragment>)
    ensures
        fragment_view(r) == frame_fragment(frame@),
{
    match strip_event_prefix(frame) {
        Some(payload) => decode_payload(payload),
        None => None,
    }
}

} // verus!
