use vstd::prelude::*;

verus! {

/// Why the authentication service turned a login ticket down.
#[derive(Clone, Copy, Debug, PartialEq, Eq, Structural)]
pub enum AuthSessionError {
    InvalidTicket,
    DuplicateRequest,
    InvalidVersion,
    GameMismatch,
    ExpiredTicket,
}

/// The verdict text sent back to the server: empty for an accepted ticket,
/// else the reason.
pub open spec fn verdict_text(result: Result<(), AuthSessionError>) -> Seq<char> {
    match result {
        Ok(()) => ""@,
        Err(AuthSessionError::InvalidTicket) => "Invalid Ticket"@,
        Err(AuthSessionError::DuplicateRequest) => "Duplicate Request"@,
        Err(AuthSessionError::InvalidVersion) => "Invalid Version"@,
        Err(AuthSessionError::GameMismatch) => "Game Mismatch"@,
        Err(AuthSessionError::ExpiredTicket) => "Expired Ticket"@,
    }
}

/// The verdict text for the outcome of checking a login ticket: empty when it
/// was accepted, else the reason it was turned down.
pub fn auth_error_message(result: Result<(), AuthSessionError>) -> (msg: &'static str)
    ensures
        msg@ == verdict_text(result),
{
    match result {
        Ok(()) => "",
        Err(err) => match err {
            AuthSessionError::InvalidTicket => "Invalid Ticket",
            AuthSessionError::DuplicateRequest => "Duplicate Request",
            AuthSessionError::InvalidVersion => "Invalid Version",
            AuthSessionError::GameMismatch => "Game Mismatch",
            AuthSessionError::ExpiredTicket => "Expired Ticket",
        },
    }
}

} // verus!
