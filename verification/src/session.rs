//! The decisions of the session loop that surround a response cycle: how
//! the lines of the user's input are gathered, and whether the input ends
//! the session or becomes the next turn of the conversation.

use vstd::prelude::*;
use vstd::string::*;
use crate::conversation::{Payload, PayloadView, Role, TurnView};

verus! {

/// What `str::trim` returns for `text`: the text without the white space at
/// its start and at its end.
pub uninterp spec fn trimmed(text: Seq<char>) -> Seq<char>;

/// Whether `part` is a contiguous part of `whole`.
pub open spec fn is_part_of(part: Seq<char>, whole: Seq<char>) -> bool {
    exists|from: int, to: int|
        0 <= from <= to <= whole.len() && part == #[trigger] whole.subrange(from, to)
}

/// `str::trim`: a slice of `text` from which leading and trailing white
/// space is removed. The result depends on `text` alone; the contract names
/// it and says that it is a contiguous part of `text`.
#[verifier::external_body]
fn trim(text: &str) -> (r: &str)
    ensures
        r@ == trimmed(text@),
        is_part_of(r@, text@),
{
    text.trim()
}

/// What reading one line of input gave.
#[derive(Clone, Debug, PartialEq, Eq)]
pub enum LineEvent {
    /// A line of text.
    Line(String),
    /// The user interrupted the input.
    Interrupted,
    /// The input has ended.
    EndOfInput,
    /// Reading failed for another reason.
    Failed,
}

/// What to do after one line of input.
#[derive(Clone, Copy, Debug, PartialEq, Eq, Structural)]
pub enum InputAction {
    /// Read another line.
    ReadMore,
    /// The input is complete: submit what was gathered.
    Submit,
    /// End the program at once.
    Abort,
}

/// The action that follows `event`.
pub open spec fn action_after(event: LineEvent, multi_lines: bool) -> InputAction {
    match event {
        LineEvent::Line(_) => if multi_lines {
            InputAction::ReadMore
        } else {
            InputAction::Submit
        },
        LineEvent::Interrupted => InputAction::Abort,
        LineEvent::EndOfInput => InputAction::Submit,
        LineEvent::Failed => InputAction::Submit,
    }
}

/// The input gathered after `event`: a line is appended as it is, with
/// nothing put between the lines; any other event adds nothing.
pub open spec fn input_after(input: Seq<char>, event: LineEvent) -> Seq<char> {
    match event {
        LineEvent::Line(line) => input + line@,
        _ => input,
    }
}

/// Takes in what reading one line gave. In single-line mode the first line
/// completes the input; in multi-line mode lines are gathered until the
/// input ends or reading fails. An interrupt ends the program.
pub fn absorb_line(input: &mut String, event: &LineEvent, multi_lines: bool) -> (action:
    InputAction)
    ensures
        final(input)@ == input_after(old(input)@, *event),
        action == action_after(*event, multi_lines),
{
    match event {
        LineEvent::Line(line) => {
            input.append(line.as_str());
            if multi_lines {
                InputAction::ReadMore
            } else {
                InputAction::Submit
            }
        },
        LineEvent::Interrupted => InputAction::Abort,
        LineEvent::EndOfInput => InputAction::Submit,
        LineEvent::Failed => InputAction::Submit,
    }
}

/// Whether trimmed input ends the session: the sentinel `q`, or nothing at
/// all.
pub open spec fn is_exit_command(line: Seq<char>) -> bool {
    line.len() == 0 || line == seq!['q']
}

/// Whether trimmed input ends the session.
pub fn ends_session(line: &str) -> (r: bool)
    ensures
        r == is_exit_command(line@),
{
    let n = line.unicode_len();
    if n == 0 {
        true
    } else if n == 1 {
        let c = line.get_char(0);
        assert(line@ =~= seq![c]);
        c == 'q'
    } else {
        false
    }
}

/// What the session loop does with a complete input.
#[derive(Clone, Copy, Debug, PartialEq, Eq, Structural)]
pub enum SessionStep {
    /// End the session; no request is dispatched.
    Terminate,
    /// Dispatch a request with the conversation as it now stands.
    Dispatch,
}

/// The step that trimmed input leads to.
pub open spec fn step_for(line: Seq<char>) -> SessionStep {
    if is_exit_command(line) {
        SessionStep::Terminate
    } else {
        SessionStep::Dispatch
    }
}

/// The conversation after trimmed input: input that ends the session leaves
/// it as it is; any other input is appended as a turn of the user.
pub open spec fn conversation_after(payload: PayloadView, line: Seq<char>) -> PayloadView {
    if is_exit_command(line) {
        payload
    } else {
        PayloadView {
            messages: payload.messages.push(TurnView { role: Role::User, content: line }),
            ..payload
        }
    }
}

/// Decides on input that is already trimmed: the sentinel `q` and the empty
/// input end the session and leave the conversation untouched; anything else
/// becomes the newest turn, and a request is to be dispatched.
pub fn submit_line(payload: &mut Payload, line: &str) -> (step: SessionStep)
    ensures
        step == step_for(line@),
        final(payload)@ == conversation_after(old(payload)@, line@),
{
    if ends_session(line) {
        SessionStep::Terminate
    } else {
        payload.push_user(line.to_owned());
        SessionStep::Dispatch
    }
}

/// Decides on a complete input: trims it, then decides as
/// [`submit_line`] does. The bare sentinel `q` and the empty input end the
/// session whatever trimming makes of them.
pub fn submit_input(payload: &mut Payload, input: &str) -> (step: SessionStep)
    ensures
        step == step_for(trimmed(input@)),
        final(payload)@ == conversation_after(old(payload)@, trimmed(input@)),
        is_exit_command(input@) ==> step == SessionStep::Terminate,
{
    let line = trim(input);
    proof {
        if is_exit_command(input@) {
            lemma_part_of_exit_command(line@, input@);
        }
    }
    submit_line(payload, line)
}

/// A contiguous part of the sentinel `q`, or of the empty text, is one of
/// the two itself.
proof fn lemma_part_of_exit_command(part: Seq<char>, whole: Seq<char>)
    requires
        is_part_of(part, whole),
        is_exit_command(whole),
    ensures
        is_exit_command(part),
{
    let (from, to) = choose|from: int, to: int|
        0 <= from <= to <= whole.len() && part == #[trigger] whole.subrange(from, to);
    if to - from == 1 {
        assert(part =~= whole);
    }
}

/// Input that is the sentinel `q` once trimmed, and input that is empty once
/// trimmed, end the session: no request is dispatched and the conversation
/// stays as it is.
pub proof fn lemma_exit_commands(payload: PayloadView, input: Seq<char>)
    requires
        trimmed(input) == seq!['q'] || trimmed(input).len() == 0,
    ensures
        step_for(trimmed(input)) == SessionStep::Terminate,
        conversation_after(payload, trimmed(input)) == payload,
{
}

} // verus!
