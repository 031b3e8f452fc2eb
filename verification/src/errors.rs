use vstd::prelude::*;
use crate::text::join;

verus! {

/// Why a guess was turned down.
#[derive(Debug, Clone)]
pub enum GameError {
    /// The game is lost: no guesses are left.
    MaximumGuesses,
    /// The game is won: nothing is left to guess.
    GameOver,
    /// The raw input is not a guess of this game; the text says why.
    InvalidGuess(String),
    /// The named word belongs to a group that is already complete.
    AlreadyUsedWord(String),
    /// The same guess was made before.
    DuplicateGuess,
    /// The puzzle of the day could not be had; the text says why.
    NetworkError(String),
}

/// The shape of a `GameError` with its texts as sequences of characters.
pub enum GameErrorView {
    MaximumGuesses,
    GameOver,
    InvalidGuess(Seq<char>),
    AlreadyUsedWord(Seq<char>),
    DuplicateGuess,
    NetworkError(Seq<char>),
}

impl View for GameError {
    type V = GameErrorView;

    open spec fn view(&self) -> GameErrorView {
        match self {
            GameError::MaximumGuesses => GameErrorView::MaximumGuesses,
            GameError::GameOver => GameErrorView::GameOver,
            GameError::InvalidGuess(s) => GameErrorView::InvalidGuess(s@),
            GameError::AlreadyUsedWord(s) => GameErrorView::AlreadyUsedWord(s@),
            GameError::DuplicateGuess => GameErrorView::DuplicateGuess,
            GameError::NetworkError(s) => GameErrorView::NetworkError(s@),
        }
    }
}

impl GameError {
    /// The sentence shown to the player for this error.
    pub open spec fn text_spec(self) -> Seq<char> {
        match self {
            GameError::MaximumGuesses => "You have reached the maximum number of guesses"@,
            GameError::GameOver => "You won today's challenge! Try again tomorrow!"@,
            GameError::InvalidGuess(s) => s@,
            GameError::AlreadyUsedWord(w) => "Word has already been correctly used: "@ + w@,
            GameError::DuplicateGuess => "Guess already made."@,
            GameError::NetworkError(s) => s@,
        }
    }

    /// The sentence shown to the player for this error.
    pub fn to_text(&self) -> (out: String)
        ensures
            out@ == self.text_spec(),
    {
        match self {
            GameError::MaximumGuesses => String::from_str(
                "You have reached the maximum number of guesses",
            ),
            GameError::GameOver => String::from_str(
                "You won today's challenge! Try again tomorrow!",
            ),
            GameError::InvalidGuess(s) => s.clone(),
            GameError::AlreadyUsedWord(w) => join(
                "Word has already been correctly used: ",
                w.as_str(),
            ),
            GameError::DuplicateGuess => String::from_str("Guess already made."),
            GameError::NetworkError(s) => s.clone(),
        }
    }
}

/// Why the store could not serve.
#[derive(Debug, Clone)]
pub enum DatabaseError {
    /// The store failed; the text is what it said.
    FromSQLError(String),
    /// A stored state cannot be read; the text says why.
    GameStatusParseError(String),
}

impl DatabaseError {
    /// The sentence that goes with this error.
    pub open spec fn text_spec(self) -> Seq<char> {
        match self {
            DatabaseError::FromSQLError(text) => "There's an issue with the request: "@ + text@,
            DatabaseError::GameStatusParseError(text) => "Unable to parse game status: "@ + text@,
        }
    }

    /// The sentence that goes with this error.
    pub fn to_text(&self) -> (out: String)
        ensures
            out@ == self.text_spec(),
    {
        match self {
            DatabaseError::FromSQLError(text) => join(
                "There's an issue with the request: ",
                text.as_str(),
            ),
            DatabaseError::GameStatusParseError(text) => join(
                "Unable to parse game status: ",
                text.as_str(),
            ),
        }
    }
}

} // verus!
