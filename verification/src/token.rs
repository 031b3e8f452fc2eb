use vstd::prelude::*;
use rand::distributions::{Alphanumeric, DistString};

verus! {

/// The number of characters in a token.
pub const TOKEN_LENGTH: usize = 32;

/// The most characters that are asked of the random source at once.
pub const MAXIMUM_LENGTH: usize = 4096;

/// A character that a token is made of: a letter of the basic alphabet or
/// a digit.
pub open spec fn token_char(c: char) -> bool {
    ('a' <= c && c <= 'z') || ('A' <= c && c <= 'Z') || ('0' <= c && c <= '9')
}

/// A text of the length of a token, made of token characters.
pub open spec fn is_token(text: Seq<char>) -> bool {
    &&& text.len() == TOKEN_LENGTH
    &&& forall|i: int| 0 <= i < text.len() ==> token_char(#[trigger] text[i])
}

/// Calls `rand::distributions::Alphanumeric.sample_string` on
/// `rand::thread_rng()`: a text of the given length whose characters are
/// drawn, each by itself, from the letters `a` to `z`, `A` to `Z` and the
/// digits. Which characters come is chance, so nothing is said of them
/// but their kind.
#[verifier::external_body]
fn random_text(length: usize) -> (out: String)
    requires
        length <= MAXIMUM_LENGTH,
    ensures
        out@.len() == length,
        forall|i: int| 0 <= i < out@.len() ==> token_char(#[trigger] out@[i]),
{
    Alphanumeric.sample_string(&mut rand::thread_rng(), length)
}

/// Draws a new token from the random source: a name for a new session, or
/// the fresh token that takes the place of the one before.
pub fn create_token() -> (out: String)
    ensures
        is_token(out@),
{
    random_text(TOKEN_LENGTH)
}

} // verus!
