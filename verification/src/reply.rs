use vstd::prelude::*;
use crate::errors::{DatabaseError, GameError};
use crate::models::UserRequest;
use crate::text::{join, lowercase, same, to_lower};

verus! {

/// The kinds of game.
#[derive(Debug, Clone, Copy, PartialEq, Eq, Structural)]
pub enum GameKind {
    WordGuess,
    GroupThem,
}

/// The status of a reply that went well.
pub const OK: u16 = 200;

/// The status of a reply to a request that cannot be served as it is.
pub const BAD_REQUEST: u16 = 400;

/// The status of a reply where the service itself failed.
pub const INTERNAL_SERVER_ERROR: u16 = 500;

/// What a caller shows of itself, from the two tokens of its request:
/// both, or nothing where either is missing.
pub fn request_of(stale_token: Option<String>, fresh_token: Option<String>) -> (out: UserRequest)
    ensures
        out == match (stale_token, fresh_token) {
            (Some(stale_token), Some(fresh_token)) => UserRequest::Tokens {
                stale_token,
                fresh_token,
            },
            _ => UserRequest::NewUser,
        },
{
    match (stale_token, fresh_token) {
        (Some(stale_token), Some(fresh_token)) => UserRequest::Tokens { stale_token, fresh_token },
        _ => UserRequest::NewUser,
    }
}

/// The status of the reply to a guess that was turned down. A game that
/// is won is no fault of the caller; a puzzle that could not be had is a
/// failure of the service; every other error is a bad request.
pub open spec fn game_status_spec(error: GameError) -> u16 {
    match error {
        GameError::GameOver => OK,
        GameError::NetworkError(_) => INTERNAL_SERVER_ERROR,
        _ => BAD_REQUEST,
    }
}

/// The status of the reply to a guess that was turned down.
pub fn game_status(error: &GameError) -> (out: u16)
    ensures
        out == game_status_spec(*error),
{
    match error {
        GameError::GameOver => OK,
        GameError::NetworkError(_) => INTERNAL_SERVER_ERROR,
        _ => BAD_REQUEST,
    }
}

/// The words that tell a caller of a stored state that cannot be read.
pub const CORRUPTED: &'static str = "Your game has been corrupted. Please wait for tomorrow: ";

/// The status and the body of the reply where the store failed: a bad
/// request with the words of the store, or, for a stored state that cannot
/// be read, a failure of the service that says so.
pub open spec fn database_reply_spec(error: DatabaseError) -> (u16, Seq<char>) {
    match error {
        DatabaseError::FromSQLError(text) => (BAD_REQUEST, text@),
        DatabaseError::GameStatusParseError(text) => (INTERNAL_SERVER_ERROR, CORRUPTED@ + text@),
    }
}

/// The status and the body of the reply where the store failed.
pub fn database_reply(error: &DatabaseError) -> (out: (u16, String))
    ensures
        out.0 == database_reply_spec(*error).0,
        out.1@ == database_reply_spec(*error).1,
{
    match error {
        DatabaseError::FromSQLError(text) => (BAD_REQUEST, text.clone()),
        DatabaseError::GameStatusParseError(text) => (
            INTERNAL_SERVER_ERROR,
            join(CORRUPTED, text.as_str()),
        ),
    }
}

/// The kind of game that a lower-case name stands for.
pub open spec fn named_kind(name: Seq<char>) -> Option<GameKind> {
    if name == "wordguess"@ {
        Some(GameKind::WordGuess)
    } else if name == "groupthem"@ {
        Some(GameKind::GroupThem)
    } else {
        None
    }
}

/// The kind of game whose request shape is asked for: the one that the
/// name stands for once it is put in lower case.
pub fn schema_kind(path: &str) -> (out: Option<GameKind>)
    ensures
        out == named_kind(lowercase(path@)),
{
    let name = to_lower(path);
    if same(name.as_str(), "wordguess") {
        Some(GameKind::WordGuess)
    } else if same(name.as_str(), "groupthem") {
        Some(GameKind::GroupThem)
    } else {
        None
    }
}

} // verus!
