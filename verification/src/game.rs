use vstd::prelude::*;

verus! {

/// Where a game stands: still open, or closed by a win or a loss.
#[derive(Debug, Clone, Copy, PartialEq, Eq, Structural)]
pub enum Phase {
    InProgress,
    Won,
    Lost,
}

/// What every puzzle offers: a raw guess of type `T` is cleaned into a
/// guess of type `U`, which is then played against the state.
///
/// No method changes the state it is called on; `guess` hands back the
/// state that follows.
pub trait Game<T, U> {
    type State;

    type GameError;

    type GameResult;

    /// Checks a raw guess against the rules and the state.
    fn clean(&self, guess: T) -> Result<U, Self::GameError>;

    /// Plays a cleaned guess and returns what came of it.
    fn process(&self, guess: U) -> Result<Self::GameResult, Self::GameError>;

    /// Cleans and plays a raw guess; returns the state that follows.
    fn guess(&self, guess: T) -> Result<Self::State, Self::GameError>;
}

} // verus!
