//! The script of the demo client: which command comes next, and what makes
//! the client give up. Connecting, sending and waiting are the caller's part.

use vstd::prelude::*;
use crate::decimal::{decimal, format_decimal};

verus! {

/// The first and the last sequence number that the client fetches.
pub const FIRST_MESSAGE: u32 = 1;

pub const LAST_MESSAGE: u32 = 20;

/// The data items that the client asks for with each `FETCH`.
pub const FETCH_ITEMS: &'static str = "(FLAGS INTERNALDATE RFC822.SIZE BODY.PEEK[])";

/// What the client does next.
#[derive(Clone, Copy, Debug, PartialEq, Eq, Structural)]
pub enum Step {
    Login,
    Select,
    /// Fetch the message with this sequence number, and read every item of
    /// the response before going on.
    Fetch(u32),
    Logout,
    /// Nothing is left to do.
    Done,
}

/// Why the client gave up.
#[derive(Clone, Copy, Debug, PartialEq, Eq, Structural)]
pub enum ScriptError {
    /// The command of this step failed.
    StepFailed(Step),
    /// An item of a `FETCH` response came without a message.
    MissingBody,
}

/// The step that follows `step` once `step` has succeeded.
pub open spec fn following(step: Step) -> Step {
    match step {
        Step::Login => Step::Select,
        Step::Select => Step::Fetch(FIRST_MESSAGE),
        Step::Fetch(id) => if id < LAST_MESSAGE {
            Step::Fetch((id + 1) as u32)
        } else {
            Step::Logout
        },
        Step::Logout => Step::Done,
        Step::Done => Step::Done,
    }
}

/// The step that the client has reached after `n` steps that succeeded.
pub open spec fn step_at(n: nat) -> Step
    decreases n,
{
    if n == 0 {
        Step::Login
    } else {
        following(step_at((n - 1) as nat))
    }
}

/// The client logs in, selects the mailbox, fetches the messages from the
/// first to the last in order, one at a time, logs out, and is done.
pub proof fn lemma_script_order(n: nat)
    ensures
        step_at(n) == if n == 0 {
            Step::Login
        } else if n == 1 {
            Step::Select
        } else if n <= 1 + LAST_MESSAGE {
            Step::Fetch((n - 1) as u32)
        } else if n == 2 + LAST_MESSAGE {
            Step::Logout
        } else {
            Step::Done
        },
    decreases n,
{
    if n > 0 {
        lemma_script_order((n - 1) as nat);
    }
}

/// The step that a client begins with.
pub fn first_step() -> (step: Step)
    ensures
        step == step_at(0),
{
    Step::Login
}

/// The step to take after `step`, given whether the command of `step`
/// succeeded. A failure ends the script.
pub fn advance(step: Step, succeeded: bool) -> (r: Result<Step, ScriptError>)
    ensures
        r == if succeeded {
            Ok::<Step, ScriptError>(following(step))
        } else {
            Err::<Step, ScriptError>(ScriptError::StepFailed(step))
        },
{
    if !succeeded {
        return Err(ScriptError::StepFailed(step));
    }
    match step {
        Step::Login => Ok(Step::Select),
        Step::Select => Ok(Step::Fetch(FIRST_MESSAGE)),
        Step::Fetch(id) => if id < LAST_MESSAGE {
            Ok(Step::Fetch(id + 1))
        } else {
            Ok(Step::Logout)
        },
        Step::Logout => Ok(Step::Done),
        Step::Done => Ok(Step::Done),
    }
}

/// Looks at one item of a `FETCH` response: the length of its message, if it
/// has one. An item without a message ends the script.
pub fn check_item(body_len: Option<usize>) -> (r: Result<usize, ScriptError>)
    ensures
        r == match body_len {
            Some(len) => Ok::<usize, ScriptError>(len),
            None => Err::<usize, ScriptError>(ScriptError::MissingBody),
        },
{
    match body_len {
        Some(len) => Ok(len),
        None => Err(ScriptError::MissingBody),
    }
}

/// How a `FETCH` names the message with sequence number `id`: by its numeral.
pub fn sequence_set(id: u32) -> (set: Vec<u8>)
    ensures
        set@ == decimal(id as nat),
{
    format_decimal(id as u64)
}

} // verus!
