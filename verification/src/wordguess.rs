use vstd::prelude::*;
use crate::errors::{GameError, GameErrorView};
use crate::game::{Game, Phase};
use crate::text::{all_alphabetic, is_word, lowercase, same, to_lower};

verus! {

/// The answer that a new game is played against.
pub const WORD_OF_THE_DAY: &'static str = "orate";

/// The number of guesses after which the game is lost.
pub const MAXIMUM_GUESSES: usize = 6;

/// The number of letters in a guess.
pub const LETTERS: usize = 5;

/// What a guessed letter is to the answer.
#[derive(PartialEq, Eq, Structural, Debug, Clone, Copy)]
pub enum Condition {
    /// The letter does not occur in the answer.
    NotFound,
    /// The letter occurs in the answer, but not at this place.
    Missplaced,
    /// The answer has this letter at this place.
    Correct,
}

/// A guessed letter and what it is to the answer.
#[derive(PartialEq, Eq, Structural, Debug, Clone, Copy)]
pub struct Letter {
    pub value: char,
    pub condition: Condition,
}

/// One guess, letter by letter.
#[derive(Debug, Clone)]
pub struct WordResult {
    pub letters: Vec<Letter>,
}

/// A game of guessing one word.
#[derive(Debug, Clone)]
pub struct WordGuess {
    pub guesses: Vec<WordResult>,
    pub answer: String,
    pub maximum_guesses: usize,
}

/// A game as plain values: its guesses in order, and its answer.
pub struct WordGuessView {
    pub guesses: Seq<Seq<(char, Condition)>>,
    pub answer: Seq<char>,
    pub maximum_guesses: usize,
}

impl View for Letter {
    type V = (char, Condition);

    open spec fn view(&self) -> (char, Condition) {
        (self.value, self.condition)
    }
}

impl View for WordResult {
    type V = Seq<(char, Condition)>;

    open spec fn view(&self) -> Seq<(char, Condition)> {
        Seq::new(self.letters@.len(), |i: int| self.letters@[i]@)
    }
}

/// The guesses of a history, each as its letters.
pub open spec fn outcomes(history: Seq<WordResult>) -> Seq<Seq<(char, Condition)>> {
    Seq::new(history.len(), |i: int| history[i]@)
}

impl View for WordGuess {
    type V = WordGuessView;

    open spec fn view(&self) -> WordGuessView {
        WordGuessView {
            guesses: outcomes(self.guesses@),
            answer: self.answer@,
            maximum_guesses: self.maximum_guesses,
        }
    }
}

/// The word that a guess spells.
pub open spec fn spelled(letters: Seq<(char, Condition)>) -> Seq<char> {
    Seq::new(letters.len(), |i: int| letters[i].0)
}

/// What the letter `c`, guessed at place `i`, is to the answer.
pub open spec fn condition_at(answer: Seq<char>, i: int, c: char) -> Condition {
    if 0 <= i < answer.len() && answer[i] == c {
        Condition::Correct
    } else if answer.contains(c) {
        Condition::Missplaced
    } else {
        Condition::NotFound
    }
}

/// A guess held against the answer, place by place. Each place is judged
/// by itself: a letter that the answer holds once is `Missplaced` wherever
/// else the guess has it.
pub open spec fn classify(answer: Seq<char>, guess: Seq<char>) -> Seq<(char, Condition)> {
    Seq::new(
        guess.len(),
        |i: int| (guess[i], condition_at(answer, i, guess[i])),
    )
}

/// Every letter of the guess is `Correct`.
pub open spec fn all_correct(letters: Seq<(char, Condition)>) -> bool {
    forall|i: int| 0 <= i < letters.len() ==> (#[trigger] letters[i]).1 == Condition::Correct
}

/// The last guess of the history has every letter `Correct`.
pub open spec fn won(guesses: Seq<Seq<(char, Condition)>>) -> bool {
    guesses.len() > 0 && all_correct(guesses.last())
}

/// The history is full.
pub open spec fn lost(guesses: Seq<Seq<(char, Condition)>>) -> bool {
    guesses.len() >= MAXIMUM_GUESSES
}

/// Where a history stands. A win counts before a loss.
pub open spec fn phase_of(guesses: Seq<Seq<(char, Condition)>>) -> Phase {
    if won(guesses) {
        Phase::Won
    } else if lost(guesses) {
        Phase::Lost
    } else {
        Phase::InProgress
    }
}

/// Some earlier guess spells, in lower case, the given word.
pub open spec fn seen(guesses: Seq<Seq<(char, Condition)>>, word: Seq<char>) -> bool {
    exists|i: int| 0 <= i < guesses.len() && lowercase(spelled(#[trigger] guesses[i])) == word
}

/// The verdict on a guess, from what was found out about it: its length,
/// whether it is made of letters only, whether it was made before, and its
/// lower-case form. The checks come in a fixed order, and the first that
/// fails gives the error.
pub open spec fn verdict(
    guesses: Seq<Seq<(char, Condition)>>,
    length: nat,
    letters_only: bool,
    repeated: bool,
    lowered: Seq<char>,
) -> Result<Seq<char>, GameErrorView> {
    if length != LETTERS {
        Err(GameErrorView::InvalidGuess("Guess must be 5 letters"@))
    } else if won(guesses) {
        Err(GameErrorView::GameOver)
    } else if lost(guesses) {
        Err(GameErrorView::MaximumGuesses)
    } else if !letters_only {
        Err(GameErrorView::InvalidGuess("Guess must be a word"@))
    } else if repeated {
        Err(GameErrorView::DuplicateGuess)
    } else {
        Ok(lowered)
    }
}

/// The verdict on a raw guess: the error that turns it down, or its
/// lower-case form.
pub open spec fn clean_spec(guesses: Seq<Seq<(char, Condition)>>, raw: Seq<char>) -> Result<
    Seq<char>,
    GameErrorView,
> {
    verdict(
        guesses,
        raw.len(),
        all_alphabetic(raw),
        seen(guesses, lowercase(raw)),
        lowercase(raw),
    )
}

/// The game after a raw guess: the same answer, and one more guess in the
/// history; or the error that turns the guess down. Lower case may change
/// the number of characters of a text. A cleaned guess that no longer has
/// `LETTERS` letters cannot be held against the answer place by place and
/// is not played: every guess of a history has `LETTERS` letters.
pub open spec fn guess_spec(game: WordGuessView, raw: Seq<char>) -> Result<
    WordGuessView,
    GameErrorView,
> {
    match clean_spec(game.guesses, raw) {
        Ok(word) => if word.len() == LETTERS {
            Ok(
                WordGuessView {
                    guesses: game.guesses.push(classify(game.answer, word)),
                    answer: game.answer,
                    maximum_guesses: game.maximum_guesses,
                },
            )
        } else {
            Err(GameErrorView::InvalidGuess("Guess must be 5 letters"@))
        },
        Err(e) => Err(e),
    }
}

impl Condition {
    /// The name of the condition in plain words.
    pub fn to_str(&self) -> (out: &'static str)
        ensures
            out@ == match *self {
                Condition::NotFound => "Not Found"@,
                Condition::Missplaced => "Missplaced"@,
                Condition::Correct => "Correct"@,
            },
    {
        match self {
            Condition::NotFound => "Not Found",
            Condition::Missplaced => "Missplaced",
            Condition::Correct => "Correct",
        }
    }
}

/// Tells whether the text holds the character.
pub fn has_char(text: &str, c: char) -> (out: bool)
    ensures
        out == text@.contains(c),
{
    let n: usize = text.unicode_len();
    let mut i: usize = 0;
    while i < n
        invariant
            n == text@.len(),
            i <= n,
            forall|j: int| 0 <= j < i ==> text@[j] != c,
        decreases n - i,
    {
        if text.get_char(i) == c {
            return true;
        }
        i += 1;
    }
    false
}

impl WordResult {
    /// The word that the guess spells.
    pub fn to_text(&self) -> (out: String)
        ensures
            out@ == spelled(self@),
    {
        let mut out = String::new();
        let mut i: usize = 0;
        while i < self.letters.len()
            invariant
                i <= self.letters.len(),
                out@ == spelled(self@).take(i as int),
            decreases self.letters.len() - i,
        {
            out.push(self.letters[i].value);
            assert(spelled(self@).take(i + 1) == spelled(self@).take(i as int).push(
                self.letters[i as int].value,
            ));
            i += 1;
        }
        assert(spelled(self@).take(i as int) =~= spelled(self@));
        out
    }

    /// Tells whether every letter of the guess is `Correct`.
    pub fn is_correct(&self) -> (out: bool)
        ensures
            out == all_correct(self@),
    {
        let mut i: usize = 0;
        while i < self.letters.len()
            invariant
                i <= self.letters.len(),
                forall|j: int| 0 <= j < i ==> (#[trigger] self@[j]).1 == Condition::Correct,
            decreases self.letters.len() - i,
        {
            if self.letters[i].condition != Condition::Correct {
                assert(self@[i as int].1 != Condition::Correct);
                return false;
            }
            i += 1;
        }
        true
    }

    /// A copy of the guess.
    pub fn copy(&self) -> (out: WordResult)
        ensures
            out@ == self@,
    {
        let mut letters: Vec<Letter> = Vec::new();
        let mut i: usize = 0;
        while i < self.letters.len()
            invariant
                i <= self.letters.len(),
                letters@ == self.letters@.take(i as int),
            decreases self.letters.len() - i,
        {
            letters.push(self.letters[i]);
            assert(self.letters@.take(i + 1) == self.letters@.take(i as int).push(
                self.letters@[i as int],
            ));
            i += 1;
        }
        assert(self.letters@.take(i as int) =~= self.letters@);
        let out = WordResult { letters };
        assert(out@ =~= self@);
        out
    }
}

impl WordGuess {
    /// A new game against the word of the day.
    pub fn new() -> (out: WordGuess)
        ensures
            out@.guesses == Seq::<Seq<(char, Condition)>>::empty(),
            out@.answer == WORD_OF_THE_DAY@,
            out@.maximum_guesses == MAXIMUM_GUESSES,
    {
        WordGuess::with_answer(WORD_OF_THE_DAY)
    }

    /// A new game against the given answer.
    pub fn with_answer(answer: &str) -> (out: WordGuess)
        ensures
            out@.guesses == Seq::<Seq<(char, Condition)>>::empty(),
            out@.answer == answer@,
            out@.maximum_guesses == MAXIMUM_GUESSES,
    {
        let out = WordGuess {
            guesses: Vec::new(),
            answer: String::from_str(answer),
            maximum_guesses: MAXIMUM_GUESSES,
        };
        assert(out@.guesses =~= Seq::<Seq<(char, Condition)>>::empty());
        out
    }

    /// The words guessed so far, in order.
    pub fn to_vec(&self) -> (out: Vec<String>)
        ensures
            out@.len() == self@.guesses.len(),
            forall|i: int| 0 <= i < out@.len() ==> (#[trigger] out@[i])@ == spelled(self@.guesses[i]),
    {
        let mut out: Vec<String> = Vec::new();
        let mut i: usize = 0;
        while i < self.guesses.len()
            invariant
                i <= self.guesses.len(),
                out@.len() == i,
                forall|j: int| 0 <= j < i ==> (#[trigger] out@[j])@ == spelled(self@.guesses[j]),
            decreases self.guesses.len() - i,
        {
            out.push(self.guesses[i].to_text());
            i += 1;
        }
        out
    }

    /// Tells whether the game is won.
    pub fn is_won(&self) -> (out: bool)
        ensures
            out == won(self@.guesses),
    {
        let n: usize = self.guesses.len();
        if n == 0 {
            false
        } else {
            assert(self@.guesses.last() == self.guesses@[n - 1]@);
            self.guesses[n - 1].is_correct()
        }
    }

    /// Tells whether the game is lost for want of guesses.
    pub fn is_lost(&self) -> (out: bool)
        ensures
            out == lost(self@.guesses),
    {
        self.guesses.len() >= MAXIMUM_GUESSES
    }

    /// Where the game stands.
    pub fn phase(&self) -> (out: Phase)
        ensures
            out == phase_of(self@.guesses),
    {
        if self.is_won() {
            Phase::Won
        } else if self.is_lost() {
            Phase::Lost
        } else {
            Phase::InProgress
        }
    }

    /// Tells whether some earlier guess spells, in lower case, the word.
    pub fn was_guessed(&self, word: &str) -> (out: bool)
        ensures
            out == seen(self@.guesses, word@),
    {
        let mut i: usize = 0;
        while i < self.guesses.len()
            invariant
                i <= self.guesses.len(),
                forall|j: int|
                    0 <= j < i ==> lowercase(spelled(#[trigger] self@.guesses[j])) != word@,
            decreases self.guesses.len() - i,
        {
            let earlier = to_lower(self.guesses[i].to_text().as_str());
            if same(earlier.as_str(), word) {
                assert(lowercase(spelled(self@.guesses[i as int])) == word@);
                return true;
            }
            i += 1;
        }
        false
    }

    /// Decides on a guess from what was found out about it: its length in
    /// characters, whether it is made of letters only, whether it was made
    /// before, and its lower-case form.
    pub fn judge(&self, length: usize, letters_only: bool, repeated: bool, lowered: String) -> (out:
        Result<String, GameError>)
        ensures
            verdict(self@.guesses, length as nat, letters_only, repeated, lowered@) == match out {
                Ok(word) => Ok::<Seq<char>, GameErrorView>(word@),
                Err(e) => Err(e@),
            },
    {
        if length != LETTERS {
            Err(GameError::InvalidGuess(String::from_str("Guess must be 5 letters")))
        } else if self.is_won() {
            Err(GameError::GameOver)
        } else if self.is_lost() {
            Err(GameError::MaximumGuesses)
        } else if !letters_only {
            Err(GameError::InvalidGuess(String::from_str("Guess must be a word")))
        } else if repeated {
            Err(GameError::DuplicateGuess)
        } else {
            Ok(lowered)
        }
    }

    /// A copy of the game.
    pub fn copy(&self) -> (out: WordGuess)
        ensures
            out@ == self@,
    {
        WordGuess {
            guesses: self.copy_guesses(),
            answer: self.answer.clone(),
            maximum_guesses: self.maximum_guesses,
        }
    }

    /// A copy of the history.
    fn copy_guesses(&self) -> (out: Vec<WordResult>)
        ensures
            outcomes(out@) == self@.guesses,
    {
        let mut out: Vec<WordResult> = Vec::new();
        let mut i: usize = 0;
        while i < self.guesses.len()
            invariant
                i <= self.guesses.len(),
                out@.len() == i,
                forall|j: int| 0 <= j < i ==> (#[trigger] out@[j])@ == self.guesses@[j]@,
            decreases self.guesses.len() - i,
        {
            out.push(self.guesses[i].copy());
            i += 1;
        }
        assert(outcomes(out@) =~= self@.guesses);
        out
    }
}

/// Holds a guess against the answer, place by place.
pub fn compare(answer: &str, guess: &str) -> (out: WordResult)
    ensures
        out@ == classify(answer@, guess@),
{
    let n: usize = guess.unicode_len();
    let m: usize = answer.unicode_len();
    let mut letters: Vec<Letter> = Vec::new();
    let mut i: usize = 0;
    while i < n
        invariant
            n == guess@.len(),
            m == answer@.len(),
            i <= n,
            letters@.len() == i,
            forall|j: int| 0 <= j < i ==> (#[trigger] letters@[j])@ == classify(answer@, guess@)[j],
        decreases n - i,
    {
        let c = guess.get_char(i);
        let condition = if i < m && answer.get_char(i) == c {
            Condition::Correct
        } else if has_char(answer, c) {
            Condition::Missplaced
        } else {
            Condition::NotFound
        };
        letters.push(Letter { value: c, condition });
        i += 1;
    }
    let out = WordResult { letters };
    assert(out@ =~= classify(answer@, guess@));
    out
}

impl<'a> Game<&'a str, String> for WordGuess {
    type State = WordGuess;

    type GameError = GameError;

    type GameResult = WordResult;

    /// Turns a raw guess down, or returns it in lower case. The checks run
    /// in this order: the length, a game already won, a game already lost,
    /// letters only, a guess made before.
    fn clean(&self, guess: &'a str) -> (out: Result<String, GameError>)
        ensures
            clean_spec(self@.guesses, guess@) == match out {
                Ok(word) => Ok::<Seq<char>, GameErrorView>(word@),
                Err(e) => Err(e@),
            },
    {
        let length: usize = guess.unicode_len();
        if length != LETTERS {
            return self.judge(length, false, false, String::new());
        }
        let lowered = to_lower(guess);
        let repeated = self.was_guessed(lowered.as_str());
        self.judge(length, is_word(guess), repeated, lowered)
    }

    /// Holds a cleaned guess against the answer.
    fn process(&self, guess: String) -> (out: Result<WordResult, GameError>)
        ensures
            out is Ok,
            out->Ok_0@ == classify(self@.answer, guess@),
    {
        Ok(compare(self.answer.as_str(), guess.as_str()))
    }

    /// Plays a raw guess: cleans it and, where the cleaned guess has
    /// `LETTERS` letters, holds it against the answer. The game itself is
    /// left as it was; the result is the game with one more guess in its
    /// history, or the error.
    fn guess(&self, guess: &'a str) -> (out: Result<WordGuess, GameError>)
        ensures
            guess_spec(self@, guess@) == match out {
                Ok(next) => Ok::<WordGuessView, GameErrorView>(next@),
                Err(e) => Err(e@),
            },
    {
        match self.clean(guess) {
            Err(e) => Err(e),
            Ok(word) => {
                if word.as_str().unicode_len() != LETTERS {
                    return Err(
                        GameError::InvalidGuess(String::from_str("Guess must be 5 letters")),
                    );
                }
                let result = compare(self.answer.as_str(), word.as_str());
                let mut guesses = self.copy_guesses();
                guesses.push(result);
                let next = WordGuess {
                    guesses,
                    answer: self.answer.clone(),
                    maximum_guesses: self.maximum_guesses,
                };
                assert(next@.guesses =~= self@.guesses.push(classify(self@.answer, word@)));
                Ok(next)
            },
        }
    }
}

/// What a call of `guess` hands back, as plain values.
pub open spec fn played(out: Result<WordGuess, GameError>) -> Result<WordGuessView, GameErrorView> {
    match out {
        Ok(next) => Ok(next@),
        Err(e) => Err(e@),
    }
}

/// Two plays of the same raw guess on the same game come to the same
/// result: the same game after it, or the same error.
pub proof fn guess_is_repeatable(
    game: WordGuess,
    raw: Seq<char>,
    first: Result<WordGuess, GameError>,
    second: Result<WordGuess, GameError>,
)
    requires
        guess_spec(game@, raw) == played(first),
        guess_spec(game@, raw) == played(second),
    ensures
        played(first) == played(second),
{
}

/// A game that is won turns down every guess of the right length with
/// `GameOver`.
pub proof fn won_game_stays_won(game: WordGuessView, raw: Seq<char>)
    requires
        phase_of(game.guesses) == Phase::Won,
        raw.len() == LETTERS,
    ensures
        guess_spec(game, raw) == Err::<WordGuessView, GameErrorView>(GameErrorView::GameOver),
{
}

/// A game that is lost turns down every guess of the right length with
/// `MaximumGuesses`.
pub proof fn lost_game_stays_lost(game: WordGuessView, raw: Seq<char>)
    requires
        phase_of(game.guesses) == Phase::Lost,
        raw.len() == LETTERS,
    ensures
        guess_spec(game, raw) == Err::<WordGuessView, GameErrorView>(
            GameErrorView::MaximumGuesses,
        ),
{
}

/// Only a game in progress takes a guess, and only a guess of `LETTERS`
/// letters is taken. A guess that is taken adds one entry to the history,
/// which has `LETTERS` letters and spells the guess in lower case, and
/// changes nothing else.
pub proof fn taken_guess_extends_history(game: WordGuessView, raw: Seq<char>)
    requires
        guess_spec(game, raw) is Ok,
    ensures
        phase_of(game.guesses) == Phase::InProgress,
        guess_spec(game, raw)->Ok_0.answer == game.answer,
        guess_spec(game, raw)->Ok_0.guesses.len() == game.guesses.len() + 1,
        guess_spec(game, raw)->Ok_0.guesses.drop_last() == game.guesses,
        guess_spec(game, raw)->Ok_0.maximum_guesses == game.maximum_guesses,
        guess_spec(game, raw)->Ok_0.guesses.last().len() == LETTERS,
        spelled(guess_spec(game, raw)->Ok_0.guesses.last()) == lowercase(raw),
        raw.len() == LETTERS,
        all_alphabetic(raw),
{
    let next = guess_spec(game, raw)->Ok_0;
    assert(next.guesses.drop_last() =~= game.guesses);
    assert(spelled(next.guesses.last()) =~= lowercase(raw));
}

/// A word held against itself is `Correct` at every place.
pub proof fn answer_is_all_correct(answer: Seq<char>)
    ensures
        all_correct(classify(answer, answer)),
{
}

/// A guess that is taken and spells the answer wins the game.
pub proof fn guessing_the_answer_wins(game: WordGuessView, raw: Seq<char>)
    requires
        guess_spec(game, raw) is Ok,
        spelled(guess_spec(game, raw)->Ok_0.guesses.last()) == game.answer,
    ensures
        phase_of(guess_spec(game, raw)->Ok_0.guesses) == Phase::Won,
{
    taken_guess_extends_history(game, raw);
    answer_is_all_correct(game.answer);
}

/// A game that is won or lost takes no guess, whatever the guess is.
pub proof fn closed_game_takes_no_guess(game: WordGuessView, raw: Seq<char>)
    requires
        phase_of(game.guesses) != Phase::InProgress,
    ensures
        guess_spec(game, raw) is Err,
{
}

/// A guess of `LETTERS` letters that was not made before is cleaned by
/// every open game, and comes back in lower case.
pub proof fn open_game_cleans_new_guess(guesses: Seq<Seq<(char, Condition)>>, raw: Seq<char>)
    requires
        phase_of(guesses) == Phase::InProgress,
        raw.len() == LETTERS,
        all_alphabetic(raw),
        !seen(guesses, lowercase(raw)),
    ensures
        clean_spec(guesses, raw) == Ok::<Seq<char>, GameErrorView>(lowercase(raw)),
{
}

/// A guess is taken exactly when it is cleaned and still has `LETTERS`
/// letters in lower case.
pub proof fn guess_is_taken_when_cleaned(game: WordGuessView, raw: Seq<char>)
    ensures
        guess_spec(game, raw) is Ok <==> clean_spec(game.guesses, raw) is Ok && lowercase(raw).len()
            == LETTERS,
        clean_spec(game.guesses, raw) is Err ==> guess_spec(game, raw) == Err::<
            WordGuessView,
            GameErrorView,
        >(clean_spec(game.guesses, raw)->Err_0),
{
}

/// What holds of every game that was played from a new one: the history
/// is no longer than the most guesses, every guess has `LETTERS` letters,
/// and no guess but the last is all `Correct`.
pub open spec fn sound(guesses: Seq<Seq<(char, Condition)>>) -> bool {
    &&& guesses.len() <= MAXIMUM_GUESSES
    &&& forall|i: int| 0 <= i < guesses.len() ==> (#[trigger] guesses[i]).len() == LETTERS
    &&& forall|i: int| 0 <= i < guesses.len() - 1 ==> !all_correct(#[trigger] guesses[i])
}

/// A game without guesses is sound.
pub proof fn new_game_is_sound()
    ensures
        sound(Seq::<Seq<(char, Condition)>>::empty()),
{
}

/// A guess that is taken by a sound game leaves a sound game.
pub proof fn taken_guess_keeps_game_sound(game: WordGuessView, raw: Seq<char>)
    requires
        sound(game.guesses),
        guess_spec(game, raw) is Ok,
    ensures
        sound(guess_spec(game, raw)->Ok_0.guesses),
{
    taken_guess_extends_history(game, raw);
    let next = guess_spec(game, raw)->Ok_0.guesses;
    assert forall|i: int| 0 <= i < next.len() implies (#[trigger] next[i]).len() == LETTERS by {
        if i < game.guesses.len() {
            assert(next[i] == game.guesses[i]);
        }
    }
    assert forall|i: int| 0 <= i < next.len() - 1 implies !all_correct(#[trigger] next[i]) by {
        assert(next[i] == game.guesses[i]);
        if i == game.guesses.len() - 1 {
            assert(game.guesses.last() == game.guesses[i]);
        }
    }
}

} // verus!
