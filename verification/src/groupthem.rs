use vstd::prelude::*;
use crate::errors::{GameError, GameErrorView};
use crate::game::{Game, Phase};
use crate::models::{
    copy_words, lookup, lookup_in_both, one_group, share_group, texts_of, unknown_word, word_views,
    ApproxColor, GroupResult, GroupResultView, Word, WordView,
};
use crate::text::{holds, lowercase, same, texts, to_lower};

verus! {

/// The number of incomplete guesses after which the game is lost.
pub const MAXIMUM_BAD_GUESSES: u8 = 4;

/// The number of groups in a puzzle.
pub const GROUPS: u8 = 4;

/// The number of words in a group, and in a guess.
pub const ITEMS_PER_GROUP: usize = 4;

/// A game of sorting sixteen words into four groups.
#[derive(Debug, Clone)]
pub struct GroupThem {
    pub guesses: Vec<GroupResult>,
    pub available_words: Vec<Word>,
}

/// A game as plain values: its guesses in order, and the words that are
/// still to be grouped.
pub struct GroupThemView {
    pub guesses: Seq<GroupResultView>,
    pub available_words: Seq<WordView>,
}

/// The guesses of a history as plain values.
pub open spec fn result_views(history: Seq<GroupResult>) -> Seq<GroupResultView> {
    Seq::new(history.len(), |i: int| history[i]@)
}

impl View for GroupThem {
    type V = GroupThemView;

    open spec fn view(&self) -> GroupThemView {
        GroupThemView {
            guesses: result_views(self.guesses@),
            available_words: word_views(self.available_words@),
        }
    }
}

/// The number of complete groups in a history.
pub open spec fn good_count(guesses: Seq<GroupResultView>) -> nat
    decreases guesses.len(),
{
    if guesses.len() == 0 {
        0
    } else {
        good_count(guesses.drop_last()) + if one_group(guesses.last().words) {
            1nat
        } else {
            0nat
        }
    }
}

/// The number of incomplete guesses in a history.
pub open spec fn bad_count(guesses: Seq<GroupResultView>) -> nat
    decreases guesses.len(),
{
    if guesses.len() == 0 {
        0
    } else {
        bad_count(guesses.drop_last()) + if one_group(guesses.last().words) {
            0nat
        } else {
            1nat
        }
    }
}

/// The complete groups of a history, each as the texts of its words.
pub open spec fn good_texts(guesses: Seq<GroupResultView>) -> Seq<Seq<Seq<char>>>
    decreases guesses.len(),
{
    if guesses.len() == 0 {
        Seq::empty()
    } else if one_group(guesses.last().words) {
        good_texts(guesses.drop_last()).push(texts_of(guesses.last().words))
    } else {
        good_texts(guesses.drop_last())
    }
}

/// The words of the complete groups of a history, in the order in which
/// they were guessed.
pub open spec fn used_words(guesses: Seq<GroupResultView>) -> Seq<WordView>
    decreases guesses.len(),
{
    if guesses.len() == 0 {
        Seq::empty()
    } else if one_group(guesses.last().words) {
        used_words(guesses.drop_last()) + guesses.last().words
    } else {
        used_words(guesses.drop_last())
    }
}

/// The words that a guess may name: those still to be grouped, then those
/// of the complete groups.
pub open spec fn known_words(game: GroupThemView) -> Seq<WordView> {
    game.available_words + used_words(game.guesses)
}

/// Where a history stands. A win counts before a loss.
pub open spec fn phase_of(guesses: Seq<GroupResultView>) -> Phase {
    if good_count(guesses) == GROUPS {
        Phase::Won
    } else if bad_count(guesses) >= MAXIMUM_BAD_GUESSES {
        Phase::Lost
    } else {
        Phase::InProgress
    }
}

/// Each text in lower case.
pub open spec fn lowered(raw: Seq<Seq<char>>) -> Seq<Seq<char>> {
    Seq::new(raw.len(), |i: int| lowercase(raw[i]))
}

/// The texts of a list without repeats: each text stays where it first
/// stood.
pub open spec fn distinct(list: Seq<Seq<char>>) -> Seq<Seq<char>>
    decreases list.len(),
{
    if list.len() == 0 {
        Seq::empty()
    } else if distinct(list.drop_last()).contains(list.last()) {
        distinct(list.drop_last())
    } else {
        distinct(list.drop_last()).push(list.last())
    }
}

/// The first of the tokens that no known word has.
pub open spec fn first_unknown(known: Seq<WordView>, tokens: Seq<Seq<char>>) -> Option<Seq<char>>
    decreases tokens.len(),
{
    if tokens.len() == 0 {
        None
    } else if lookup(known, tokens[0]) is None {
        Some(tokens[0])
    } else {
        first_unknown(known, tokens.skip(1))
    }
}

/// The known word for each token.
pub open spec fn resolved(known: Seq<WordView>, tokens: Seq<Seq<char>>) -> Seq<WordView> {
    Seq::new(tokens.len(), |i: int| lookup(known, tokens[i])->Some_0)
}

/// The first text of the list that is among the tokens.
pub open spec fn first_common(list: Seq<Seq<char>>, tokens: Seq<Seq<char>>) -> Option<Seq<char>>
    decreases list.len(),
{
    if list.len() == 0 {
        None
    } else if tokens.contains(list[0]) {
        Some(list[0])
    } else {
        first_common(list.skip(1), tokens)
    }
}

/// Two lists hold the same texts, in whatever order.
pub open spec fn same_texts(a: Seq<Seq<char>>, b: Seq<Seq<char>>) -> bool {
    &&& forall|i: int| 0 <= i < a.len() ==> b.contains(#[trigger] a[i])
    &&& forall|i: int| 0 <= i < b.len() ==> a.contains(#[trigger] b[i])
}

/// Some earlier guess named the same words as the tokens.
pub open spec fn repeated(guesses: Seq<GroupResultView>, tokens: Seq<Seq<char>>) -> bool {
    exists|i: int|
        0 <= i < guesses.len() && same_texts(texts_of((#[trigger] guesses[i]).words), tokens)
}

/// The words of the list whose text is not among the given texts.
pub open spec fn without(words: Seq<WordView>, taken: Seq<Seq<char>>) -> Seq<WordView>
    decreases words.len(),
{
    if words.len() == 0 {
        Seq::empty()
    } else if taken.contains(words.last().text) {
        without(words.drop_last(), taken)
    } else {
        without(words.drop_last(), taken).push(words.last())
    }
}

/// The verdict on the tokens of a guess, which are in lower case and
/// without repeats: the error that turns the guess down, or the word for
/// each token. The checks come in a fixed order, and the first that fails
/// gives the error.
pub open spec fn check_spec(game: GroupThemView, tokens: Seq<Seq<char>>) -> Result<
    Seq<WordView>,
    GameErrorView,
> {
    if tokens.len() != ITEMS_PER_GROUP {
        Err(GameErrorView::InvalidGuess("You have to guess 4 words"@))
    } else if good_count(game.guesses) == GROUPS {
        Err(GameErrorView::GameOver)
    } else if bad_count(game.guesses) >= MAXIMUM_BAD_GUESSES {
        Err(GameErrorView::MaximumGuesses)
    } else if first_unknown(known_words(game), tokens) is Some {
        Err(
            GameErrorView::InvalidGuess(
                unknown_word(first_unknown(known_words(game), tokens)->Some_0),
            ),
        )
    } else if first_common(texts_of(used_words(game.guesses)), tokens) is Some {
        Err(
            GameErrorView::AlreadyUsedWord(
                first_common(texts_of(used_words(game.guesses)), tokens)->Some_0,
            ),
        )
    } else if repeated(game.guesses, tokens) {
        Err(GameErrorView::DuplicateGuess)
    } else {
        Ok(resolved(known_words(game), tokens))
    }
}

/// The verdict on a raw guess: its texts are put in lower case, repeats
/// are dropped, and the tokens that are left are checked.
pub open spec fn clean_spec(game: GroupThemView, raw: Seq<Seq<char>>) -> Result<
    Seq<WordView>,
    GameErrorView,
> {
    check_spec(game, distinct(lowered(raw)))
}

/// The words that are still to be grouped after a guess: a complete group
/// leaves the list, an incomplete guess changes nothing.
pub open spec fn process_spec(available: Seq<WordView>, guess: Seq<WordView>) -> Seq<WordView> {
    if one_group(guess) {
        without(available, texts_of(guess))
    } else {
        available
    }
}

/// The game after a raw guess that is given the colour: one more guess in
/// the history, and the words that are still to be grouped; or the error
/// that turns the guess down.
pub open spec fn guess_spec(game: GroupThemView, raw: Seq<Seq<char>>, color: ApproxColor) -> Result<
    GroupThemView,
    GameErrorView,
> {
    match clean_spec(game, raw) {
        Ok(words) => Ok(
            GroupThemView {
                guesses: game.guesses.push(GroupResultView { words, color }),
                available_words: process_spec(game.available_words, words),
            },
        ),
        Err(e) => Err(e),
    }
}

/// The texts of each list of strings.
pub open spec fn text_lists(lists: Seq<Vec<String>>) -> Seq<Seq<Seq<char>>> {
    Seq::new(lists.len(), |i: int| texts(lists[i]@))
}

/// The texts of a list of words, each as a string.
pub fn word_texts(words: &[Word]) -> (out: Vec<String>)
    ensures
        texts(out@) == texts_of(word_views(words@)),
{
    let mut out: Vec<String> = Vec::new();
    let mut i: usize = 0;
    while i < words.len()
        invariant
            i <= words.len(),
            out@.len() == i,
            forall|j: int| 0 <= j < i ==> (#[trigger] out@[j])@ == words@[j].text@,
        decreases words.len() - i,
    {
        out.push(words[i].text.clone());
        i += 1;
    }
    assert(texts(out@) =~= texts_of(word_views(words@)));
    out
}

/// Tells whether some word of the list has the text.
pub fn has_text(words: &[Word], text: &str) -> (out: bool)
    ensures
        out == texts_of(word_views(words@)).contains(text@),
{
    let mut i: usize = 0;
    while i < words.len()
        invariant
            i <= words.len(),
            forall|j: int| 0 <= j < i ==> #[trigger] texts_of(word_views(words@))[j] != text@,
        decreases words.len() - i,
    {
        if same(words[i].text.as_str(), text) {
            assert(texts_of(word_views(words@))[i as int] == text@);
            return true;
        }
        i += 1;
    }
    false
}

/// Puts each text in lower case and drops the repeats.
pub fn tokens_of(raw: &Vec<String>) -> (out: Vec<String>)
    ensures
        texts(out@) == distinct(lowered(texts(raw@))),
{
    let ghost all = lowered(texts(raw@));
    let mut out: Vec<String> = Vec::new();
    let mut i: usize = 0;
    assert(texts(out@) =~= distinct(all.take(0)));
    while i < raw.len()
        invariant
            i <= raw.len(),
            all == lowered(texts(raw@)),
            texts(out@) == distinct(all.take(i as int)),
        decreases raw.len() - i,
    {
        let token = to_lower(raw[i].as_str());
        assert(all.take(i + 1).drop_last() =~= all.take(i as int));
        assert(all.take(i + 1).last() == token@);
        if !holds(&out, token.as_str()) {
            let ghost before = texts(out@);
            out.push(token);
            assert(texts(out@) =~= before.push(token@));
        }
        i += 1;
    }
    assert(all.take(i as int) =~= all);
    out
}

impl GroupThem {
    /// A new game with the given words to group.
    pub fn new(words: &[Word]) -> (out: GroupThem)
        ensures
            out@.guesses == Seq::<GroupResultView>::empty(),
            out@.available_words == word_views(words@),
    {
        let out = GroupThem { guesses: Vec::new(), available_words: copy_words(words) };
        assert(out@.guesses =~= Seq::<GroupResultView>::empty());
        out
    }

    /// The number of incomplete guesses made so far.
    pub fn count_bad_guesses(&self) -> (out: usize)
        ensures
            out == bad_count(self@.guesses),
    {
        let ghost all = self@.guesses;
        let mut count: usize = 0;
        let mut i: usize = 0;
        while i < self.guesses.len()
            invariant
                i <= self.guesses.len(),
                all == self@.guesses,
                count == bad_count(all.take(i as int)),
                count <= i,
            decreases self.guesses.len() - i,
        {
            assert(all.take(i + 1).drop_last() =~= all.take(i as int));
            assert(all.take(i + 1).last() == self.guesses@[i as int]@);
            if !self.guesses[i].is_group() {
                count += 1;
            }
            i += 1;
        }
        assert(all.take(i as int) =~= all);
        count
    }

    /// The number of complete groups found so far.
    pub fn count_good_guesses(&self) -> (out: usize)
        ensures
            out == good_count(self@.guesses),
    {
        let ghost all = self@.guesses;
        let mut count: usize = 0;
        let mut i: usize = 0;
        while i < self.guesses.len()
            invariant
                i <= self.guesses.len(),
                all == self@.guesses,
                count == good_count(all.take(i as int)),
                count <= i,
            decreases self.guesses.len() - i,
        {
            assert(all.take(i + 1).drop_last() =~= all.take(i as int));
            assert(all.take(i + 1).last() == self.guesses@[i as int]@);
            if self.guesses[i].is_group() {
                count += 1;
            }
            i += 1;
        }
        assert(all.take(i as int) =~= all);
        count
    }

    /// The complete groups found so far, each as the texts of its words.
    pub fn good_guesses(&self) -> (out: Vec<Vec<String>>)
        ensures
            text_lists(out@) == good_texts(self@.guesses),
    {
        let ghost all = self@.guesses;
        let mut out: Vec<Vec<String>> = Vec::new();
        let mut i: usize = 0;
        assert(text_lists(out@) =~= good_texts(all.take(0)));
        while i < self.guesses.len()
            invariant
                i <= self.guesses.len(),
                all == self@.guesses,
                text_lists(out@) == good_texts(all.take(i as int)),
            decreases self.guesses.len() - i,
        {
            assert(all.take(i + 1).drop_last() =~= all.take(i as int));
            assert(all.take(i + 1).last() == self.guesses@[i as int]@);
            if self.guesses[i].is_group() {
                let ghost before = text_lists(out@);
                let group = word_texts(self.guesses[i].words.as_slice());
                out.push(group);
                assert(text_lists(out@) =~= before.push(texts_of(all[i as int].words)));
            }
            i += 1;
        }
        assert(all.take(i as int) =~= all);
        out
    }

    /// The words of the complete groups found so far.
    pub fn used(&self) -> (out: Vec<Word>)
        ensures
            word_views(out@) == used_words(self@.guesses),
    {
        let ghost all = self@.guesses;
        let mut out: Vec<Word> = Vec::new();
        let mut i: usize = 0;
        assert(word_views(out@) =~= used_words(all.take(0)));
        while i < self.guesses.len()
            invariant
                i <= self.guesses.len(),
                all == self@.guesses,
                word_views(out@) == used_words(all.take(i as int)),
            decreases self.guesses.len() - i,
        {
            assert(all.take(i + 1).drop_last() =~= all.take(i as int));
            assert(all.take(i + 1).last() == self.guesses@[i as int]@);
            if self.guesses[i].is_group() {
                let ghost before = word_views(out@);
                let group = &self.guesses[i].words;
                let mut j: usize = 0;
                while j < group.len()
                    invariant
                        j <= group.len(),
                        word_views(out@) == before + word_views(group@).take(j as int),
                    decreases group.len() - j,
                {
                    let ghost sofar = word_views(out@);
                    out.push(group[j].copy());
                    assert(word_views(out@) =~= sofar.push(group@[j as int]@));
                    assert(word_views(group@).take(j + 1) =~= word_views(group@).take(j as int).push(
                        group@[j as int]@,
                    ));
                    j += 1;
                }
                assert(word_views(group@).take(j as int) =~= word_views(group@));
            }
            i += 1;
        }
        assert(all.take(i as int) =~= all);
        out
    }

    /// Where the game stands.
    pub fn phase(&self) -> (out: Phase)
        ensures
            out == phase_of(self@.guesses),
    {
        if self.count_good_guesses() == GROUPS as usize {
            Phase::Won
        } else if self.count_bad_guesses() >= MAXIMUM_BAD_GUESSES as usize {
            Phase::Lost
        } else {
            Phase::InProgress
        }
    }
}

/// Finds the word for each token among the words still to be grouped and,
/// failing that, among the used ones. The first token that neither list
/// has is an invalid guess.
pub fn find_words(available: &[Word], used: &[Word], tokens: &Vec<String>) -> (out: Result<
    Vec<Word>,
    GameError,
>)
    ensures
        match out {
            Ok(words) => first_unknown(
                word_views(available@) + word_views(used@),
                texts(tokens@),
            ) is None && word_views(words@) == resolved(
                word_views(available@) + word_views(used@),
                texts(tokens@),
            ),
            Err(e) => first_unknown(
                word_views(available@) + word_views(used@),
                texts(tokens@),
            ) is Some && e@ == GameErrorView::InvalidGuess(
                unknown_word(
                    first_unknown(
                        word_views(available@) + word_views(used@),
                        texts(tokens@),
                    )->Some_0,
                ),
            ),
        },
{
    let ghost known = word_views(available@) + word_views(used@);
    let ghost all = texts(tokens@);
    let mut words: Vec<Word> = Vec::new();
    let mut i: usize = 0;
    assert(all.skip(0) =~= all);
    while i < tokens.len()
        invariant
            i <= tokens.len(),
            known == word_views(available@) + word_views(used@),
            all == texts(tokens@),
            first_unknown(known, all) == first_unknown(known, all.skip(i as int)),
            words@.len() == i,
            forall|j: int| 0 <= j < i ==> lookup(known, all[j]) == Some((#[trigger] words@[j])@),
        decreases tokens.len() - i,
    {
        let token = tokens[i].as_str();
        proof {
            assert(all.skip(i as int)[0] == token@);
            assert(all.skip(i as int).skip(1) =~= all.skip(i + 1));
            lookup_in_both(word_views(available@), word_views(used@), token@);
        }
        match Word::try_from(token, available) {
            Ok(word) => {
                words.push(word);
            },
            Err(_) => {
                match Word::try_from(token, used) {
                    Ok(word) => {
                        words.push(word);
                    },
                    Err(e) => {
                        return Err(e);
                    },
                }
            },
        }
        i += 1;
    }
    assert(all.skip(i as int).len() == 0);
    assert(word_views(words@) =~= resolved(known, all));
    Ok(words)
}

/// The text of the first word of the list that is among the tokens.
pub fn first_shared(words: &[Word], tokens: &Vec<String>) -> (out: Option<String>)
    ensures
        first_common(texts_of(word_views(words@)), texts(tokens@)) == match out {
            Some(text) => Some(text@),
            None => None::<Seq<char>>,
        },
{
    let ghost list = texts_of(word_views(words@));
    let mut i: usize = 0;
    assert(list.skip(0) =~= list);
    while i < words.len()
        invariant
            i <= words.len(),
            list == texts_of(word_views(words@)),
            first_common(list, texts(tokens@)) == first_common(
                list.skip(i as int),
                texts(tokens@),
            ),
        decreases words.len() - i,
    {
        assert(list.skip(i as int)[0] == words@[i as int].text@);
        assert(list.skip(i as int).skip(1) =~= list.skip(i + 1));
        if holds(tokens, words[i].text.as_str()) {
            return Some(words[i].text.clone());
        }
        i += 1;
    }
    assert(list.skip(i as int).len() == 0);
    None
}

/// Tells whether the words and the tokens hold the same texts.
pub fn same_words(words: &[Word], tokens: &Vec<String>) -> (out: bool)
    ensures
        out == same_texts(texts_of(word_views(words@)), texts(tokens@)),
{
    let ghost a = texts_of(word_views(words@));
    let ghost b = texts(tokens@);
    let mut i: usize = 0;
    while i < words.len()
        invariant
            i <= words.len(),
            a == texts_of(word_views(words@)),
            b == texts(tokens@),
            forall|j: int| 0 <= j < i ==> b.contains(#[trigger] a[j]),
        decreases words.len() - i,
    {
        if !holds(tokens, words[i].text.as_str()) {
            assert(!b.contains(a[i as int]));
            return false;
        }
        i += 1;
    }
    let mut k: usize = 0;
    while k < tokens.len()
        invariant
            k <= tokens.len(),
            a == texts_of(word_views(words@)),
            b == texts(tokens@),
            forall|j: int| 0 <= j < a.len() ==> b.contains(#[trigger] a[j]),
            forall|j: int| 0 <= j < k ==> a.contains(#[trigger] b[j]),
        decreases tokens.len() - k,
    {
        if !has_text(words, tokens[k].as_str()) {
            assert(!a.contains(b[k as int]));
            return false;
        }
        k += 1;
    }
    true
}

/// The words of the list whose text is not among the texts of the guess.
pub fn remove_words(available: &[Word], guess: &[Word]) -> (out: Vec<Word>)
    ensures
        word_views(out@) == without(word_views(available@), texts_of(word_views(guess@))),
{
    let ghost all = word_views(available@);
    let ghost taken = texts_of(word_views(guess@));
    let mut out: Vec<Word> = Vec::new();
    let mut i: usize = 0;
    assert(word_views(out@) =~= without(all.take(0), taken));
    while i < available.len()
        invariant
            i <= available.len(),
            all == word_views(available@),
            taken == texts_of(word_views(guess@)),
            word_views(out@) == without(all.take(i as int), taken),
        decreases available.len() - i,
    {
        assert(all.take(i + 1).drop_last() =~= all.take(i as int));
        assert(all.take(i + 1).last() == available@[i as int]@);
        if !has_text(guess, available[i].text.as_str()) {
            let ghost before = word_views(out@);
            out.push(available[i].copy());
            assert(word_views(out@) =~= before.push(available@[i as int]@));
        }
        i += 1;
    }
    assert(all.take(i as int) =~= all);
    out
}

impl GroupThem {
    /// Tells whether some earlier guess named the same words as the tokens.
    pub fn was_guessed(&self, tokens: &Vec<String>) -> (out: bool)
        ensures
            out == repeated(self@.guesses, texts(tokens@)),
    {
        let mut i: usize = 0;
        while i < self.guesses.len()
            invariant
                i <= self.guesses.len(),
                forall|j: int|
                    0 <= j < i ==> !same_texts(
                        texts_of((#[trigger] self@.guesses[j]).words),
                        texts(tokens@),
                    ),
            decreases self.guesses.len() - i,
        {
            if same_words(self.guesses[i].words.as_slice(), tokens) {
                assert(same_texts(texts_of(self@.guesses[i as int].words), texts(tokens@)));
                return true;
            }
            i += 1;
        }
        false
    }

    /// Checks the tokens of a guess, which are in lower case and without
    /// repeats, and finds the word for each. The checks run in this order:
    /// the number of tokens, a game already won, a game already lost, a
    /// token that is no known word, a word of a complete group, a guess
    /// made before.
    pub fn check(&self, tokens: &Vec<String>) -> (out: Result<Vec<Word>, GameError>)
        ensures
            check_spec(self@, texts(tokens@)) == match out {
                Ok(words) => Ok::<Seq<WordView>, GameErrorView>(word_views(words@)),
                Err(e) => Err(e@),
            },
    {
        assert(texts(tokens@).len() == tokens@.len());
        if tokens.len() != ITEMS_PER_GROUP {
            return Err(GameError::InvalidGuess(String::from_str("You have to guess 4 words")));
        }
        if self.count_good_guesses() == GROUPS as usize {
            return Err(GameError::GameOver);
        }
        if self.count_bad_guesses() >= MAXIMUM_BAD_GUESSES as usize {
            return Err(GameError::MaximumGuesses);
        }
        let used = self.used();
        match find_words(self.available_words.as_slice(), used.as_slice(), tokens) {
            Err(e) => Err(e),
            Ok(words) => {
                match first_shared(used.as_slice(), tokens) {
                    Some(text) => Err(GameError::AlreadyUsedWord(text)),
                    None => {
                        if self.was_guessed(tokens) {
                            Err(GameError::DuplicateGuess)
                        } else {
                            Ok(words)
                        }
                    },
                }
            },
        }
    }

    /// A copy of the game.
    pub fn copy(&self) -> (out: GroupThem)
        ensures
            out@ == self@,
    {
        GroupThem {
            guesses: self.copy_guesses(),
            available_words: copy_words(self.available_words.as_slice()),
        }
    }

    /// A copy of the history.
    fn copy_guesses(&self) -> (out: Vec<GroupResult>)
        ensures
            result_views(out@) == self@.guesses,
    {
        let mut out: Vec<GroupResult> = Vec::new();
        let mut i: usize = 0;
        while i < self.guesses.len()
            invariant
                i <= self.guesses.len(),
                out@.len() == i,
                forall|j: int| 0 <= j < i ==> (#[trigger] out@[j])@ == self.guesses@[j]@,
            decreases self.guesses.len() - i,
        {
            out.push(self.guesses[i].copy());
            i += 1;
        }
        assert(result_views(out@) =~= self@.guesses);
        out
    }
}

impl Game<(Vec<String>, ApproxColor), Vec<Word>> for GroupThem {
    type State = GroupThem;

    type GameError = GameError;

    type GameResult = Vec<Word>;

    /// Turns a raw guess down, or finds the word for each of its texts.
    /// The texts are put in lower case and repeats are dropped first; the
    /// colour plays no part.
    fn clean(&self, guess: (Vec<String>, ApproxColor)) -> (out: Result<Vec<Word>, GameError>)
        ensures
            clean_spec(self@, texts(guess.0@)) == match out {
                Ok(words) => Ok::<Seq<WordView>, GameErrorView>(word_views(words@)),
                Err(e) => Err(e@),
            },
    {
        let tokens = tokens_of(&guess.0);
        self.check(&tokens)
    }

    /// The words that are still to be grouped after the guess.
    fn process(&self, guess: Vec<Word>) -> (out: Result<Vec<Word>, GameError>)
        ensures
            out is Ok,
            word_views(out->Ok_0@) == process_spec(self@.available_words, word_views(guess@)),
    {
        if share_group(guess.as_slice()) {
            Ok(remove_words(self.available_words.as_slice(), guess.as_slice()))
        } else {
            Ok(copy_words(self.available_words.as_slice()))
        }
    }

    /// Plays a raw guess and gives it the colour. The game itself is left
    /// as it was; the result is the game with one more guess in its
    /// history, or the error.
    fn guess(&self, guess: (Vec<String>, ApproxColor)) -> (out: Result<GroupThem, GameError>)
        ensures
            guess_spec(self@, texts(guess.0@), guess.1) == match out {
                Ok(next) => Ok::<GroupThemView, GameErrorView>(next@),
                Err(e) => Err(e@),
            },
    {
        let tokens = tokens_of(&guess.0);
        match self.check(&tokens) {
            Err(e) => Err(e),
            Ok(words) => {
                let available_words = if share_group(words.as_slice()) {
                    remove_words(self.available_words.as_slice(), words.as_slice())
                } else {
                    copy_words(self.available_words.as_slice())
                };
                let mut guesses = self.copy_guesses();
                let ghost played = GroupResultView { words: word_views(words@), color: guess.1 };
                guesses.push(GroupResult { words, color: guess.1 });
                let next = GroupThem { guesses, available_words };
                assert(next@.guesses =~= self@.guesses.push(played));
                Ok(next)
            },
        }
    }
}

/// What a call of `guess` hands back, as plain values.
pub open spec fn played(out: Result<GroupThem, GameError>) -> Result<GroupThemView, GameErrorView> {
    match out {
        Ok(next) => Ok(next@),
        Err(e) => Err(e@),
    }
}

/// Two plays of the same raw guess on the same game with the same colour
/// come to the same result.
pub proof fn guess_is_repeatable(
    game: GroupThem,
    raw: Seq<Seq<char>>,
    color: ApproxColor,
    first: Result<GroupThem, GameError>,
    second: Result<GroupThem, GameError>,
)
    requires
        guess_spec(game@, raw, color) == played(first),
        guess_spec(game@, raw, color) == played(second),
    ensures
        played(first) == played(second),
{
}

/// The colour decides nothing: two plays of the same raw guess on the same
/// game end in the same error, or in games that differ in nothing but the
/// colour of the last guess.
pub proof fn colour_is_decoration(
    game: GroupThemView,
    raw: Seq<Seq<char>>,
    one: ApproxColor,
    other: ApproxColor,
)
    ensures
        guess_spec(game, raw, one) is Err ==> guess_spec(game, raw, other) == guess_spec(
            game,
            raw,
            one,
        ),
        guess_spec(game, raw, one) is Ok ==> {
            let a = guess_spec(game, raw, one)->Ok_0;
            let b = guess_spec(game, raw, other)->Ok_0;
            &&& guess_spec(game, raw, other) is Ok
            &&& a.available_words == b.available_words
            &&& a.guesses.len() == b.guesses.len()
            &&& a.guesses.drop_last() == b.guesses.drop_last()
            &&& a.guesses.last().words == b.guesses.last().words
            &&& a.guesses.last().color == one
            &&& b.guesses.last().color == other
        },
{
    if guess_spec(game, raw, one) is Ok {
        let a = guess_spec(game, raw, one)->Ok_0;
        let b = guess_spec(game, raw, other)->Ok_0;
        assert(a.guesses.drop_last() =~= game.guesses);
        assert(b.guesses.drop_last() =~= game.guesses);
    }
}

/// A game that is won turns down every guess of four different words with
/// `GameOver`.
pub proof fn won_game_stays_won(game: GroupThemView, raw: Seq<Seq<char>>, color: ApproxColor)
    requires
        phase_of(game.guesses) == Phase::Won,
        distinct(lowered(raw)).len() == ITEMS_PER_GROUP,
    ensures
        guess_spec(game, raw, color) == Err::<GroupThemView, GameErrorView>(
            GameErrorView::GameOver,
        ),
{
}

/// A game that is lost turns down every guess of four different words with
/// `MaximumGuesses`.
pub proof fn lost_game_stays_lost(game: GroupThemView, raw: Seq<Seq<char>>, color: ApproxColor)
    requires
        phase_of(game.guesses) == Phase::Lost,
        distinct(lowered(raw)).len() == ITEMS_PER_GROUP,
    ensures
        guess_spec(game, raw, color) == Err::<GroupThemView, GameErrorView>(
            GameErrorView::MaximumGuesses,
        ),
{
}

/// A game that is won or lost takes no guess, whatever the guess is.
pub proof fn closed_game_takes_no_guess(game: GroupThemView, raw: Seq<Seq<char>>, color: ApproxColor)
    requires
        phase_of(game.guesses) != Phase::InProgress,
    ensures
        guess_spec(game, raw, color) is Err,
{
}

/// What is left of a list holds none of the texts taken out, and every
/// other word of the list.
pub proof fn without_takes_exactly(words: Seq<WordView>, taken: Seq<Seq<char>>)
    ensures
        forall|w: WordView|
            without(words, taken).contains(w) <==> words.contains(w) && !taken.contains(w.text),
    decreases words.len(),
{
    if words.len() == 0 {
    } else {
        let rest = words.drop_last();
        let last = words.last();
        without_takes_exactly(rest, taken);
        assert forall|w: WordView|
            without(words, taken).contains(w) <==> words.contains(w) && !taken.contains(
                w.text,
            ) by {
            if words.contains(w) {
                let i = choose|i: int| 0 <= i < words.len() && words[i] == w;
                if i < rest.len() {
                    assert(rest[i] == w);
                }
            }
            if rest.contains(w) {
                let i = choose|i: int| 0 <= i < rest.len() && rest[i] == w;
                assert(words[i] == w);
            }
            let kept = without(rest, taken);
            if !taken.contains(last.text) {
                assert(without(words, taken) == kept.push(last));
                if kept.push(last).contains(w) {
                    let i = choose|i: int| 0 <= i < kept.push(last).len() && kept.push(last)[i] == w;
                    if i < kept.len() {
                        assert(kept[i] == w);
                    }
                }
                if kept.contains(w) {
                    let i = choose|i: int| 0 <= i < kept.len() && kept[i] == w;
                    assert(kept.push(last)[i] == w);
                }
                assert(kept.push(last)[kept.len() as int] == last);
            }
        }
    }
}

/// Only a game in progress takes a guess. A guess that is taken adds one
/// entry to the history. If its words form a group, one more group is
/// complete and exactly those words leave the list of words still to be
/// grouped; if not, one more guess is incomplete and the list stays as it
/// was.
pub proof fn taken_guess_moves_game(game: GroupThemView, raw: Seq<Seq<char>>, color: ApproxColor)
    requires
        guess_spec(game, raw, color) is Ok,
    ensures
        phase_of(game.guesses) == Phase::InProgress,
        ({
            let next = guess_spec(game, raw, color)->Ok_0;
            let entry = next.guesses.last();
            &&& next.guesses.len() == game.guesses.len() + 1
            &&& next.guesses.drop_last() == game.guesses
            &&& entry.color == color
            &&& entry.words.len() == ITEMS_PER_GROUP
            &&& texts_of(entry.words) == distinct(lowered(raw))
            &&& one_group(entry.words) ==> {
                &&& good_count(next.guesses) == good_count(game.guesses) + 1
                &&& bad_count(next.guesses) == bad_count(game.guesses)
                &&& forall|w: WordView|
                    next.available_words.contains(w) <==> game.available_words.contains(w)
                        && !texts_of(entry.words).contains(w.text)
            }
            &&& !one_group(entry.words) ==> {
                &&& good_count(next.guesses) == good_count(game.guesses)
                &&& bad_count(next.guesses) == bad_count(game.guesses) + 1
                &&& next.available_words == game.available_words
            }
        }),
{
    let next = guess_spec(game, raw, color)->Ok_0;
    let entry = next.guesses.last();
    let tokens = distinct(lowered(raw));
    let known = known_words(game);
    assert(next.guesses.drop_last() =~= game.guesses);
    without_takes_exactly(game.available_words, texts_of(entry.words));
    resolved_has_tokens(known, tokens);
}

/// Where every token is a known word, the words found for the tokens have
/// the texts of the tokens.
pub proof fn resolved_has_tokens(known: Seq<WordView>, tokens: Seq<Seq<char>>)
    requires
        first_unknown(known, tokens) is None,
    ensures
        texts_of(resolved(known, tokens)) == tokens,
        forall|i: int| 0 <= i < tokens.len() ==> lookup(known, #[trigger] tokens[i]) is Some,
{
    all_tokens_known(known, tokens);
    assert forall|i: int| 0 <= i < tokens.len() implies texts_of(resolved(known, tokens))[i]
        == tokens[i] by {
        crate::models::lookup_finds_text(known, tokens[i]);
    }
    assert(texts_of(resolved(known, tokens)) =~= tokens);
}

/// Where no token is unknown, a lookup finds each of them.
pub proof fn all_tokens_known(known: Seq<WordView>, tokens: Seq<Seq<char>>)
    requires
        first_unknown(known, tokens) is None,
    ensures
        forall|i: int| 0 <= i < tokens.len() ==> lookup(known, #[trigger] tokens[i]) is Some,
    decreases tokens.len(),
{
    if tokens.len() > 0 {
        all_tokens_known(known, tokens.skip(1));
        assert forall|i: int| 0 <= i < tokens.len() implies lookup(known, #[trigger] tokens[i])
            is Some by {
            if i > 0 {
                assert(tokens.skip(1)[i - 1] == tokens[i]);
            }
        }
    }
}

/// No text stands twice in the list.
pub open spec fn no_repeats(list: Seq<Seq<char>>) -> bool {
    forall|i: int, j: int| 0 <= i < j < list.len() ==> list[i] != list[j]
}

/// What holds of every game that was played from a new one: no more
/// groups are complete than there are, no more guesses are incomplete
/// than are borne, every guess names `ITEMS_PER_GROUP` different words,
/// and no word of a complete group is still to be grouped.
pub open spec fn sound(game: GroupThemView) -> bool {
    &&& good_count(game.guesses) <= GROUPS
    &&& bad_count(game.guesses) <= MAXIMUM_BAD_GUESSES
    &&& forall|i: int|
        0 <= i < game.guesses.len() ==> (#[trigger] game.guesses[i]).words.len() == ITEMS_PER_GROUP
            && no_repeats(texts_of(game.guesses[i].words))
    &&& forall|i: int|
        0 <= i < game.available_words.len() ==> !texts_of(used_words(game.guesses)).contains(
            (#[trigger] game.available_words[i]).text,
        )
}

/// A list without repeats has none.
pub proof fn distinct_has_no_repeats(list: Seq<Seq<char>>)
    ensures
        no_repeats(distinct(list)),
    decreases list.len(),
{
    if list.len() > 0 {
        distinct_has_no_repeats(list.drop_last());
    }
}

/// A text among the texts of two lists of words, one after the other, is
/// among the texts of one of them.
pub proof fn text_is_in_one(first: Seq<WordView>, second: Seq<WordView>, text: Seq<char>)
    requires
        texts_of(first + second).contains(text),
    ensures
        texts_of(first).contains(text) || texts_of(second).contains(text),
{
    let i = choose|i: int| 0 <= i < (first + second).len() && texts_of(first + second)[i] == text;
    if i < first.len() {
        assert(texts_of(first)[i] == text);
    } else {
        assert(texts_of(second)[i - first.len()] == text);
    }
}

/// A game without guesses is sound, whatever words it has.
pub proof fn new_game_is_sound(words: Seq<WordView>)
    ensures
        sound(GroupThemView { guesses: Seq::empty(), available_words: words }),
{
    assert(texts_of(used_words(Seq::<GroupResultView>::empty())) =~= Seq::<Seq<char>>::empty());
}

/// A guess that is taken by a sound game leaves a sound game.
pub proof fn taken_guess_keeps_game_sound(game: GroupThemView, raw: Seq<Seq<char>>, color: ApproxColor)
    requires
        sound(game),
        guess_spec(game, raw, color) is Ok,
    ensures
        sound(guess_spec(game, raw, color)->Ok_0),
{
    taken_guess_moves_game(game, raw, color);
    distinct_has_no_repeats(lowered(raw));
    let next = guess_spec(game, raw, color)->Ok_0;
    let entry = next.guesses.last();
    assert(next.guesses.drop_last() =~= game.guesses);
    assert forall|i: int| 0 <= i < next.guesses.len() implies (#[trigger] next.guesses[i]).words.len()
        == ITEMS_PER_GROUP && no_repeats(texts_of(next.guesses[i].words)) by {
        if i < game.guesses.len() {
            assert(next.guesses[i] == game.guesses[i]);
        }
    }
    assert forall|i: int| 0 <= i < next.available_words.len() implies !texts_of(
        used_words(next.guesses),
    ).contains((#[trigger] next.available_words[i]).text) by {
        let word = next.available_words[i];
        assert(next.available_words.contains(word));
        if one_group(entry.words) {
            assert(game.available_words.contains(word));
            let k = choose|k: int|
                0 <= k < game.available_words.len() && game.available_words[k] == word;
            assert(!texts_of(used_words(game.guesses)).contains(game.available_words[k].text));
            if texts_of(used_words(next.guesses)).contains(word.text) {
                text_is_in_one(used_words(game.guesses), entry.words, word.text);
            }
        } else {
            assert(next.available_words[i] == game.available_words[i]);
        }
    }
}

} // verus!
