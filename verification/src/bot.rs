//! The checks of the bot service's routes.

use vstd::prelude::*;

verus! {

/// The HTTP status code of an expectation that failed.
pub const EXPECTATION_FAILED: u16 = 417;

/// The HTTP status code of an internal failure.
pub const INTERNAL_SERVER_ERROR: u16 = 500;

/// The answer of a route that rejects a request.
#[derive(Debug, Clone, PartialEq, Eq)]
pub struct Status {
    pub code: u16,
    pub message: String,
}

/// Why a bot route rejects a request.
#[derive(Debug, Clone, Copy, PartialEq, Eq, Structural)]
pub enum BotFailure {
    /// The body is no valid bot.
    InvalidBot,
    /// The bot's program could not be transpiled.
    TranspileFailed,
    /// The bot could not be saved.
    SaveFailed,
}

/// The status code that a bot route answers a failure with.
pub fn failure_code(failure: BotFailure) -> (code: u16)
    ensures
        failure == BotFailure::InvalidBot ==> code == 417,
        failure != BotFailure::InvalidBot ==> code == 500,
        code == match failure {
            BotFailure::InvalidBot => EXPECTATION_FAILED,
            _ => INTERNAL_SERVER_ERROR,
        },
{
    match failure {
        BotFailure::InvalidBot => EXPECTATION_FAILED,
        BotFailure::TranspileFailed => INTERNAL_SERVER_ERROR,
        BotFailure::SaveFailed => INTERNAL_SERVER_ERROR,
    }
}

/// The rejection of a failure, carrying the failure's message.
pub fn reject(failure: BotFailure, message: String) -> (status: Status)
    ensures
        status.code == failure_code_spec(failure),
        failure == BotFailure::InvalidBot ==> status.code == 417,
        failure != BotFailure::InvalidBot ==> status.code == 500,
        status.message == message,
{
    Status { code: failure_code(failure), message }
}

pub open spec fn failure_code_spec(failure: BotFailure) -> u16 {
    match failure {
        BotFailure::InvalidBot => EXPECTATION_FAILED,
        _ => INTERNAL_SERVER_ERROR,
    }
}

/// An invalid bot is answered "417 Expectation Failed"; a failure to
/// transpile or to save the bot is answered "500 Internal Server Error".
pub proof fn lemma_failure_codes()
    ensures
        failure_code_spec(BotFailure::InvalidBot) == 417,
        failure_code_spec(BotFailure::TranspileFailed) == 500,
        failure_code_spec(BotFailure::SaveFailed) == 500,
{
}

/// A bot may be modified under the id of the path only where the bot carries
/// that same id; otherwise the request is rejected as an id mismatch.
pub fn check_bot_id(path_id: &String, bot_id: &Option<String>) -> (result: Result<(), Status>)
    ensures
        result is Ok <==> (bot_id matches Some(b) && b@ == path_id@),
        result matches Err(s) ==> s.code == EXPECTATION_FAILED && s.message@ == "ID mismatch"@,
{
    match bot_id {
        Some(b) => {
            if *b == *path_id {
                return Ok(());
            }
        },
        None => {},
    }
    Err(Status { code: EXPECTATION_FAILED, message: String::from_str("ID mismatch") })
}

} // verus!
