//! The conversation that is sent with every request: an ordered list of
//! turns, oldest first, which only grows.

use vstd::prelude::*;
use vstd::string::*;

verus! {

/// Who speaks in a turn.
#[derive(Clone, Copy, Debug, PartialEq, Eq, Structural)]
pub enum Role {
    User,
    Assistant,
    System,
}

/// One turn of the conversation.
#[derive(Clone, Debug, PartialEq, Eq)]
pub struct Turn {
    pub role: Role,
    pub content: String,
}

/// The mathematical model of a [`Turn`].
pub struct TurnView {
    pub role: Role,
    pub content: Seq<char>,
}

impl View for Turn {
    type V = TurnView;

    open spec fn view(&self) -> TurnView {
        TurnView { role: self.role, content: self.content@ }
    }
}

impl Turn {
    /// A turn spoken by the user.
    pub fn user(content: String) -> (turn: Turn)
        ensures
            turn@ == (TurnView { role: Role::User, content: content@ }),
    {
        Turn { role: Role::User, content }
    }
}

/// The body of a request: the model asked, whether the reply is to be
/// streamed, and the conversation so far.
#[derive(Clone, Debug, PartialEq, Eq)]
pub struct Payload {
    pub messages: Vec<Turn>,
    pub model: String,
    pub stream: bool,
}

/// The mathematical model of a [`Payload`].
pub struct PayloadView {
    pub messages: Seq<TurnView>,
    pub model: Seq<char>,
    pub stream: bool,
}

impl View for Payload {
    type V = PayloadView;

    open spec fn view(&self) -> PayloadView {
        PayloadView {
            messages: self.messages@.map_values(|t: Turn| t@),
            model: self.model@,
            stream: self.stream,
        }
    }
}

impl Payload {
    /// A request body for `model` with an empty conversation.
    pub fn new(model: String, stream: bool) -> (payload: Payload)
        ensures
            payload@ == (PayloadView { messages: Seq::empty(), model: model@, stream }),
    {
        let payload = Payload { model, stream, messages: Vec::new() };
        assert(payload@.messages =~= Seq::empty());
        payload
    }

    /// Appends what the user said as the newest turn. Model, streaming flag
    /// and the earlier turns stay as they are.
    pub fn push_user(&mut self, content: String)
        ensures
            final(self)@ == (PayloadView {
                messages: old(self)@.messages.push(
                    TurnView { role: Role::User, content: content@ },
                ),
                ..old(self)@
            }),
    {
        self.messages.push(Turn::user(content));
        assert(self@.messages =~= old(self)@.messages.push(
            TurnView { role: Role::User, content: content@ },
        ));
    }
}

/// The value of the header that authorizes a request: the bearer scheme
/// followed by the key.
pub open spec fn bearer(api_key: Seq<char>) -> Seq<char> {
    "Bearer "@ + api_key
}

/// The value of the header that authorizes a request.
pub fn authorization(api_key: &str) -> (value: String)
    ensures
        value@ == bearer(api_key@),
{
    let mut value = String::new();
    value.append("Bearer ");
    value.append(api_key);
    assert(value@ =~= bearer(api_key@));
    value
}

} // verus!
