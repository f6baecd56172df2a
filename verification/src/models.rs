//! The table of model codes: short names that stand for the identifiers of
//! the models the service offers.

use vstd::prelude::*;
use vstd::string::*;

verus! {

/// The code that is used where the user names none.
pub const DEFAULT_CODE: &'static str = "ds-8";

/// The model that is used where the code is unknown.
pub const FALLBACK_MODEL: &'static str = "deepseek-ai/DeepSeek-R1-Distill-Llama-8B";

/// The model that `code` stands for, if the table has the code.
pub open spec fn model_for(code: Seq<char>) -> Option<Seq<char>> {
    if code == "r1"@ {
        Some("deepseek-ai/DeepSeek-R1"@)
    } else if code == "q2_5-7"@ {
        Some("Qwen/Qwen2-7B-Instruct"@)
    } else if code == "ds-8"@ {
        Some("deepseek-ai/DeepSeek-R1-Distill-Llama-8B"@)
    } else {
        None
    }
}

/// Whether two texts are the same.
fn same_text(a: &str, b: &str) -> (r: bool)
    ensures
        r == (a@ == b@),
{
    let a = a.to_owned();
    let b = b.to_owned();
    a == b
}

/// A choice of model: `Ok` with the model that a known code stands for,
/// `Err` with the model that is used in place of an unknown one.
pub open spec fn choice_view(choice: Result<&'static str, &'static str>) -> Result<
    Seq<char>,
    Seq<char>,
> {
    match choice {
        Ok(model) => Ok(model@),
        Err(model) => Err(model@),
    }
}

/// The choice that `code` leads to.
pub open spec fn resolved(code: Seq<char>) -> Result<Seq<char>, Seq<char>> {
    match model_for(code) {
        Some(model) => Ok(model),
        None => Err(FALLBACK_MODEL@),
    }
}

/// Looks a code up in the table: `Ok` with the model it stands for, and
/// `Err` with the fallback model for a code that the table lacks.
pub fn resolve_model(code: &str) -> (choice: Result<&'static str, &'static str>)
    ensures
        choice_view(choice) == resolved(code@),
{
    if same_text(code, "r1") {
        Ok("deepseek-ai/DeepSeek-R1")
    } else if same_text(code, "q2_5-7") {
        Ok("Qwen/Qwen2-7B-Instruct")
    } else if same_text(code, "ds-8") {
        Ok("deepseek-ai/DeepSeek-R1-Distill-Llama-8B")
    } else {
        Err(FALLBACK_MODEL)
    }
}

/// The code that a request for a model amounts to: the one requested, or
/// the default.
pub open spec fn requested_code(requested: Option<&str>) -> Seq<char> {
    match requested {
        Some(code) => code@,
        None => DEFAULT_CODE@,
    }
}

/// Picks the model for a session: looks up the code the user asked for, or
/// the default code where the user asked for none.
pub fn select_model(requested: Option<&str>) -> (choice: Result<&'static str, &'static str>)
    ensures
        choice_view(choice) == resolved(requested_code(requested)),
{
    match requested {
        Some(code) => resolve_model(code),
        None => resolve_model(DEFAULT_CODE),
    }
}

/// What is announced once the model is picked.
pub open spec fn model_notice(choice: Result<Seq<char>, Seq<char>>) -> Seq<char> {
    match choice {
        Ok(model) => model,
        Err(model) => "Unknown model. Using "@ + model + " by default"@,
    }
}

/// The line that announces the model: its name, or a note that the code was
/// unknown and which model is used in its place.
pub fn announce_model(choice: &Result<&'static str, &'static str>) -> (text: String)
    ensures
        text@ == model_notice(choice_view(*choice)),
{
    let mut text = String::new();
    match choice {
        Ok(model) => {
            text.append(model);
        },
        Err(model) => {
            text.append("Unknown model. Using ");
            text.append(model);
            text.append(" by default");
        },
    }
    assert(text@ =~= model_notice(choice_view(*choice)));
    text
}

/// The default code is in the table, so a session for which the user names
/// no model runs on a known one.
pub proof fn lemma_default_is_known()
    ensures
        resolved(requested_code(None)) == Ok::<Seq<char>, Seq<char>>(FALLBACK_MODEL@),
{
    reveal_strlit("r1");
    reveal_strlit("q2_5-7");
    reveal_strlit("ds-8");
    assert("ds-8"@.len() == 4 && "r1"@.len() == 2 && "q2_5-7"@.len() == 6);
}

} // verus!
