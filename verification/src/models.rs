use vstd::prelude::*;
use vstd::std_specs::cmp::PartialEqSpecImpl;
use crate::errors::{GameError, GameErrorView};
use crate::groupthem::{GroupThem, GroupThemView};
use crate::text::{join, same};
use crate::wordguess::{WordGuess, WordGuessView};

verus! {

/// How hard a group is to find.
#[derive(Debug, PartialEq, Eq, Structural, Hash, Clone, Copy)]
pub enum Ranking {
    Easy,
    Medium,
    Hard,
    VeryDifficult,
}

/// A colour as red, green and blue, each from 0 to 255.
#[derive(Debug, PartialEq, Eq, Structural, Hash, Clone, Copy)]
pub struct ApproxColor {
    pub red: u8,
    pub green: u8,
    pub blue: u8,
}

/// The brightness of a strong colour channel.
pub const STRONG: u8 = 204;

impl Ranking {
    /// The ranking as a number, from 0 for `Easy` to 3.
    pub open spec fn index(self) -> nat {
        match self {
            Ranking::Easy => 0,
            Ranking::Medium => 1,
            Ranking::Hard => 2,
            Ranking::VeryDifficult => 3,
        }
    }

    /// The name of the ranking in plain words.
    pub fn to_str(&self) -> (out: &'static str)
        ensures
            out@ == match *self {
                Ranking::Easy => "Easy"@,
                Ranking::Medium => "Medium"@,
                Ranking::Hard => "Hard"@,
                Ranking::VeryDifficult => "Very Difficult"@,
            },
    {
        match self {
            Ranking::Easy => "Easy",
            Ranking::Medium => "Medium",
            Ranking::Hard => "Hard",
            Ranking::VeryDifficult => "Very Difficult",
        }
    }

    /// The ranking with the given number; `Easy` for a number above 3.
    pub fn from_index(index: usize) -> (out: Ranking)
        ensures
            index <= 3 ==> out.index() == index,
            index > 3 ==> out == Ranking::Easy,
    {
        match index {
            0 => Ranking::Easy,
            1 => Ranking::Medium,
            2 => Ranking::Hard,
            3 => Ranking::VeryDifficult,
            _ => Ranking::Easy,
        }
    }

    /// The colour that stands for the ranking: green, blue, red, grey.
    pub open spec fn shade_spec(self) -> ApproxColor {
        match self {
            Ranking::Easy => ApproxColor { red: 0, green: STRONG, blue: 0 },
            Ranking::Medium => ApproxColor { red: 0, green: 0, blue: STRONG },
            Ranking::Hard => ApproxColor { red: STRONG, green: 0, blue: 0 },
            Ranking::VeryDifficult => ApproxColor { red: STRONG, green: STRONG, blue: STRONG },
        }
    }

    /// The colour that stands for the ranking.
    pub fn shade(&self) -> (out: ApproxColor)
        ensures
            out == self.shade_spec(),
    {
        match self {
            Ranking::Easy => ApproxColor { red: 0, green: STRONG, blue: 0 },
            Ranking::Medium => ApproxColor { red: 0, green: 0, blue: STRONG },
            Ranking::Hard => ApproxColor { red: STRONG, green: 0, blue: 0 },
            Ranking::VeryDifficult => ApproxColor { red: STRONG, green: STRONG, blue: STRONG },
        }
    }
}

impl ApproxColor {
    /// Black.
    pub fn new() -> (out: ApproxColor)
        ensures
            out == (ApproxColor { red: 0, green: 0, blue: 0 }),
    {
        ApproxColor { red: 0, green: 0, blue: 0 }
    }
}

/// A group of words: its name and how hard it is to find.
#[derive(Debug, Eq, Hash, Clone)]
pub struct Group {
    pub name: String,
    pub ranking: Ranking,
}

/// A group as plain values.
pub struct GroupView {
    pub name: Seq<char>,
    pub ranking: Ranking,
}

impl View for Group {
    type V = GroupView;

    open spec fn view(&self) -> GroupView {
        GroupView { name: self.name@, ranking: self.ranking }
    }
}

impl PartialEq for Group {
    fn eq(&self, other: &Group) -> (out: bool) {
        self.matches(other)
    }
}

impl PartialEqSpecImpl for Group {
    open spec fn obeys_eq_spec() -> bool {
        true
    }

    open spec fn eq_spec(&self, other: &Group) -> bool {
        self.name@ == other.name@ && self.ranking == other.ranking
    }
}

impl Group {
    /// Tells whether two groups have the same name and ranking.
    pub fn matches(&self, other: &Group) -> (out: bool)
        ensures
            out == (self@ == other@),
    {
        same(self.name.as_str(), other.name.as_str()) && self.ranking == other.ranking
    }

    /// A copy of the group.
    pub fn copy(&self) -> (out: Group)
        ensures
            out == *self,
    {
        Group { name: self.name.clone(), ranking: self.ranking }
    }
}

/// A word of the puzzle and the group that owns it.
#[derive(Debug, Eq, Hash, Clone)]
pub struct Word {
    pub text: String,
    pub group: Group,
}

/// A word as plain values.
pub struct WordView {
    pub text: Seq<char>,
    pub group: GroupView,
}

impl View for Word {
    type V = WordView;

    open spec fn view(&self) -> WordView {
        WordView { text: self.text@, group: self.group@ }
    }
}

impl PartialEq for Word {
    fn eq(&self, other: &Word) -> (out: bool) {
        same(self.text.as_str(), other.text.as_str()) && self.group.matches(&other.group)
    }
}

impl PartialEqSpecImpl for Word {
    open spec fn obeys_eq_spec() -> bool {
        true
    }

    open spec fn eq_spec(&self, other: &Word) -> bool {
        self.text@ == other.text@ && self.group.name@ == other.group.name@ && self.group.ranking
            == other.group.ranking
    }
}

/// The words of a list as plain values.
pub open spec fn word_views(words: Seq<Word>) -> Seq<WordView> {
    Seq::new(words.len(), |i: int| words[i]@)
}

/// The texts of a list of words.
pub open spec fn texts_of(words: Seq<WordView>) -> Seq<Seq<char>> {
    Seq::new(words.len(), |i: int| words[i].text)
}

/// The first word of the list with the given text, if there is one.
pub open spec fn lookup(words: Seq<WordView>, text: Seq<char>) -> Option<WordView>
    decreases words.len(),
{
    if words.len() == 0 {
        None
    } else if words[0].text == text {
        Some(words[0])
    } else {
        lookup(words.skip(1), text)
    }
}

/// A lookup finds a word exactly when the list holds the text, and the
/// word found is in the list and has the text.
pub proof fn lookup_finds_text(words: Seq<WordView>, text: Seq<char>)
    ensures
        lookup(words, text) is Some <==> texts_of(words).contains(text),
        lookup(words, text) is Some ==> lookup(words, text)->Some_0.text == text && words.contains(
            lookup(words, text)->Some_0,
        ),
    decreases words.len(),
{
    if words.len() == 0 {
    } else if words[0].text == text {
        assert(texts_of(words)[0] == text);
    } else {
        let rest = words.skip(1);
        lookup_finds_text(rest, text);
        if texts_of(rest).contains(text) {
            let i = choose|i: int| 0 <= i < rest.len() && texts_of(rest)[i] == text;
            assert(texts_of(words)[i + 1] == text);
        }
        if texts_of(words).contains(text) {
            let i = choose|i: int| 0 <= i < words.len() && texts_of(words)[i] == text;
            assert(texts_of(rest)[i - 1] == text);
        }
        if lookup(words, text) is Some {
            let found = lookup(rest, text)->Some_0;
            let i = choose|i: int| 0 <= i < rest.len() && rest[i] == found;
            assert(words[i + 1] == found);
        }
    }
}

/// A lookup in two lists, one after the other, is a lookup in the first
/// and, where that finds nothing, in the second.
pub proof fn lookup_in_both(first: Seq<WordView>, second: Seq<WordView>, text: Seq<char>)
    ensures
        lookup(first + second, text) == if lookup(first, text) is Some {
            lookup(first, text)
        } else {
            lookup(second, text)
        },
    decreases first.len(),
{
    if first.len() == 0 {
        assert(first + second =~= second);
    } else {
        assert((first + second).skip(1) =~= first.skip(1) + second);
        lookup_in_both(first.skip(1), second, text);
    }
}

/// In a list that gives each text one group, a word of the list comes back
/// whole from its text alone: the lookup finds the same text and the same
/// group.
pub proof fn word_comes_back(all: Seq<WordView>, word: WordView)
    requires
        all.contains(word),
        forall|i: int, j: int|
            0 <= i < all.len() && 0 <= j < all.len() && all[i].text == all[j].text ==> all[i].group
                == all[j].group,
    ensures
        lookup(all, word.text) == Some(word),
{
    lookup_finds_text(all, word.text);
    let i = choose|i: int| 0 <= i < all.len() && all[i] == word;
    assert(texts_of(all)[i] == word.text);
    let found = lookup(all, word.text)->Some_0;
    let j = choose|j: int| 0 <= j < all.len() && all[j] == found;
    assert(all[i].group == all[j].group);
}

/// The sentence that turns an unknown word down.
pub open spec fn unknown_word(text: Seq<char>) -> Seq<char> {
    "`"@ + text + "` is not a valid word"@
}

impl Word {
    /// A copy of the word.
    pub fn copy(&self) -> (out: Word)
        ensures
            out == *self,
    {
        Word { text: self.text.clone(), group: self.group.copy() }
    }

    /// Looks a text up in a list of words and returns a copy of the first
    /// word that has it, with the group of that word. A text that no word
    /// of the list has is an invalid guess.
    pub fn try_from(text: &str, all: &[Word]) -> (out: Result<Word, GameError>)
        ensures
            match out {
                Ok(word) => lookup(word_views(all@), text@) == Some(word@),
                Err(e) => lookup(word_views(all@), text@) is None && e@
                    == GameErrorView::InvalidGuess(unknown_word(text@)),
            },
    {
        let ghost views = word_views(all@);
        assert(views.skip(0) =~= views);
        let mut i: usize = 0;
        while i < all.len()
            invariant
                i <= all.len(),
                views == word_views(all@),
                lookup(views, text@) == lookup(views.skip(i as int), text@),
            decreases all.len() - i,
        {
            assert(views.skip(i as int)[0] == all@[i as int]@);
            assert(views.skip(i as int).skip(1) =~= views.skip(i + 1));
            if same(all[i].text.as_str(), text) {
                return Ok(all[i].copy());
            }
            i += 1;
        }
        assert(views.skip(i as int).len() == 0);
        let head = join("`", text);
        Err(GameError::InvalidGuess(join(head.as_str(), "` is not a valid word")))
    }
}

/// Four words guessed together, and the colour given to the guess.
#[derive(Debug, PartialEq, Eq, Hash, Clone)]
pub struct GroupResult {
    pub words: Vec<Word>,
    pub color: ApproxColor,
}

/// A guess as plain values.
pub struct GroupResultView {
    pub words: Seq<WordView>,
    pub color: ApproxColor,
}

impl View for GroupResult {
    type V = GroupResultView;

    open spec fn view(&self) -> GroupResultView {
        GroupResultView { words: word_views(self.words@), color: self.color }
    }
}

/// Every word of the list belongs to the group of the first.
pub open spec fn one_group(words: Seq<WordView>) -> bool {
    forall|i: int| 0 <= i < words.len() ==> (#[trigger] words[i]).group == words[0].group
}

/// Copies a list of words.
pub fn copy_words(words: &[Word]) -> (out: Vec<Word>)
    ensures
        out@ == words@,
{
    let mut out: Vec<Word> = Vec::new();
    let mut i: usize = 0;
    while i < words.len()
        invariant
            i <= words.len(),
            out@.len() == i,
            forall|j: int| 0 <= j < i ==> #[trigger] out@[j] == words@[j],
        decreases words.len() - i,
    {
        out.push(words[i].copy());
        i += 1;
    }
    assert(out@ =~= words@);
    out
}

/// Tells whether every word of the list belongs to the group of the first.
pub fn share_group(words: &[Word]) -> (out: bool)
    ensures
        out == one_group(word_views(words@)),
{
    let ghost views = word_views(words@);
    let mut i: usize = 0;
    while i < words.len()
        invariant
            i <= words.len(),
            views == word_views(words@),
            forall|j: int| 0 <= j < i ==> (#[trigger] views[j]).group == views[0].group,
        decreases words.len() - i,
    {
        if !words[i].group.matches(&words[0].group) {
            assert(views[i as int].group != views[0].group);
            return false;
        }
        i += 1;
    }
    true
}

impl GroupResult {
    /// Tells whether the guess is a complete group: whether all its words
    /// belong to one group.
    pub fn is_group(&self) -> (out: bool)
        ensures
            out == one_group(self@.words),
    {
        share_group(self.words.as_slice())
    }

    /// A copy of the guess.
    pub fn copy(&self) -> (out: GroupResult)
        ensures
            out@ == self@,
    {
        GroupResult { words: copy_words(self.words.as_slice()), color: self.color }
    }
}

/// The words of a puzzle.
#[derive(Debug, PartialEq, Eq, Hash, Clone)]
pub struct GroupData {
    pub words: Vec<Word>,
}

/// The body of a request to play the grouping game.
#[derive(Debug, Clone)]
pub struct GroupThemRequest {
    pub guess: Vec<String>,
}

/// The body of a request to play the word game.
#[derive(Debug, Clone)]
pub struct WordGuessRequest {
    pub guess: String,
}

/// A raw guess for either game.
#[derive(Debug, Clone)]
pub enum GuessInput {
    Single(String),
    Multiple(Vec<String>),
}

/// The two tokens of a session: the one that names it for good, and the
/// one that is replaced with every change.
#[derive(Debug, Clone)]
pub struct Token {
    pub stale: String,
    pub fresh: String,
}

/// What a caller shows of itself: both tokens, or nothing.
#[derive(Debug, Clone)]
pub enum UserRequest {
    Tokens { stale_token: String, fresh_token: String },
    NewUser,
}

/// The state of one game of either kind.
#[derive(Debug, Clone)]
pub enum GameStatus {
    WordGuess(WordGuess),
    GroupThem(GroupThem),
}

/// The state of one game as plain values.
pub enum GameStatusView {
    WordGuess(WordGuessView),
    GroupThem(GroupThemView),
}

impl View for GameStatus {
    type V = GameStatusView;

    open spec fn view(&self) -> GameStatusView {
        match self {
            GameStatus::WordGuess(game) => GameStatusView::WordGuess(game@),
            GameStatus::GroupThem(game) => GameStatusView::GroupThem(game@),
        }
    }
}

impl GameStatusView {
    /// The name of the kind of game, under which its state is kept.
    pub open spec fn kind(self) -> Seq<char> {
        match self {
            GameStatusView::WordGuess(_) => "word_guess"@,
            GameStatusView::GroupThem(_) => "group_them"@,
        }
    }
}

impl GameStatus {
    /// The name of the kind of game, under which its state is kept.
    pub fn to_text(&self) -> (out: String)
        ensures
            out@ == self@.kind(),
    {
        match self {
            GameStatus::WordGuess(_) => String::from_str("word_guess"),
            GameStatus::GroupThem(_) => String::from_str("group_them"),
        }
    }

    /// A copy of the state.
    pub fn copy(&self) -> (out: GameStatus)
        ensures
            out@ == self@,
    {
        match self {
            GameStatus::WordGuess(game) => GameStatus::WordGuess(game.copy()),
            GameStatus::GroupThem(game) => GameStatus::GroupThem(game.copy()),
        }
    }
}

/// The state of one game, under the name of its kind.
#[derive(Debug, Clone)]
pub struct GameSlot {
    pub kind: String,
    pub status: GameStatus,
}

/// The states of a session's games, one for each kind that was played.
#[derive(Debug, Clone)]
pub struct GameTable {
    pub slots: Vec<GameSlot>,
}

/// The slots of a table as pairs of plain values.
pub open spec fn slot_views(slots: Seq<GameSlot>) -> Seq<(Seq<char>, GameStatusView)> {
    Seq::new(slots.len(), |i: int| (slots[i].kind@, slots[i].status@))
}

/// The map that a list of slots stands for. Where two slots have the same
/// kind, the earlier one counts.
pub open spec fn table_of(slots: Seq<(Seq<char>, GameStatusView)>) -> Map<
    Seq<char>,
    GameStatusView,
>
    decreases slots.len(),
{
    if slots.len() == 0 {
        Map::empty()
    } else {
        table_of(slots.skip(1)).insert(slots[0].0, slots[0].1)
    }
}

impl View for GameTable {
    type V = Map<Seq<char>, GameStatusView>;

    open spec fn view(&self) -> Map<Seq<char>, GameStatusView> {
        table_of(slot_views(self.slots@))
    }
}

/// A session: its two tokens and the states of its games. A session that
/// was never stored has no fresh token.
#[derive(Debug, Clone)]
pub struct User {
    pub stale_token: String,
    pub fresh_token: Option<String>,
    pub game_status: GameTable,
}

/// A session as plain values.
pub struct UserView {
    pub stale_token: Seq<char>,
    pub fresh_token: Option<Seq<char>>,
    pub game_status: Map<Seq<char>, GameStatusView>,
}

impl View for User {
    type V = UserView;

    open spec fn view(&self) -> UserView {
        UserView {
            stale_token: self.stale_token@,
            fresh_token: match self.fresh_token {
                Some(token) => Some(token@),
                None => None,
            },
            game_status: self.game_status@,
        }
    }
}

} // verus!
