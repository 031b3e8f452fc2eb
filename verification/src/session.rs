use vstd::prelude::*;
use crate::errors::{GameError, GameErrorView};
use crate::game::Game;
use crate::groupthem::{GroupThem, GroupThemView};
use crate::models::{
    slot_views, table_of, word_views, ApproxColor, GameSlot, GameStatus, GameStatusView, GameTable,
    User, UserRequest, UserView, Word,
};
use crate::text::{same, texts};
use crate::wordguess::{WordGuess, WordGuessView, MAXIMUM_GUESSES, WORD_OF_THE_DAY};

verus! {

/// The first slot of a kind is what the table holds for that kind.
pub proof fn table_holds_first(slots: Seq<(Seq<char>, GameStatusView)>, kind: Seq<char>, i: int)
    requires
        0 <= i < slots.len(),
        slots[i].0 == kind,
        forall|j: int| 0 <= j < i ==> slots[j].0 != kind,
    ensures
        table_of(slots).contains_key(kind),
        table_of(slots)[kind] == slots[i].1,
    decreases i,
{
    if i > 0 {
        assert(slots[0].0 != kind);
        let rest = slots.skip(1);
        assert(rest[i - 1] == slots[i]);
        assert forall|j: int| 0 <= j < i - 1 implies rest[j].0 != kind by {
            assert(rest[j] == slots[j + 1]);
        }
        table_holds_first(rest, kind, i - 1);
    }
}

/// A kind that no slot has is not in the table.
pub proof fn table_lacks_absent(slots: Seq<(Seq<char>, GameStatusView)>, kind: Seq<char>)
    requires
        forall|j: int| 0 <= j < slots.len() ==> slots[j].0 != kind,
    ensures
        !table_of(slots).contains_key(kind),
    decreases slots.len(),
{
    if slots.len() > 0 {
        let rest = slots.skip(1);
        assert(slots[0].0 != kind);
        assert forall|j: int| 0 <= j < rest.len() implies rest[j].0 != kind by {
            assert(rest[j] == slots[j + 1]);
        }
        table_lacks_absent(rest, kind);
    }
}

/// Replacing the first slot of a kind is an insert into the table.
pub proof fn table_after_replace(
    slots: Seq<(Seq<char>, GameStatusView)>,
    i: int,
    kind: Seq<char>,
    status: GameStatusView,
)
    requires
        0 <= i < slots.len(),
        slots[i].0 == kind,
        forall|j: int| 0 <= j < i ==> slots[j].0 != kind,
    ensures
        table_of(slots.update(i, (kind, status))) == table_of(slots).insert(kind, status),
    decreases i,
{
    let after = slots.update(i, (kind, status));
    if i == 0 {
        assert(after.skip(1) =~= slots.skip(1));
        assert(table_of(after) =~= table_of(slots).insert(kind, status));
    } else {
        let rest = slots.skip(1);
        assert(slots[0].0 != kind);
        assert(rest[i - 1] == slots[i]);
        assert forall|j: int| 0 <= j < i - 1 implies rest[j].0 != kind by {
            assert(rest[j] == slots[j + 1]);
        }
        table_after_replace(rest, i - 1, kind, status);
        assert(after.skip(1) =~= rest.update(i - 1, (kind, status)));
        assert(after[0] == slots[0]);
        assert(table_of(after) =~= table_of(slots).insert(kind, status));
    }
}

/// Adding a slot of a kind that no slot has is an insert into the table.
pub proof fn table_after_push(
    slots: Seq<(Seq<char>, GameStatusView)>,
    kind: Seq<char>,
    status: GameStatusView,
)
    requires
        forall|j: int| 0 <= j < slots.len() ==> slots[j].0 != kind,
    ensures
        table_of(slots.push((kind, status))) == table_of(slots).insert(kind, status),
    decreases slots.len(),
{
    let after = slots.push((kind, status));
    if slots.len() == 0 {
        assert(after.skip(1) =~= slots);
        assert(table_of(after) =~= table_of(slots).insert(kind, status));
    } else {
        let rest = slots.skip(1);
        assert(slots[0].0 != kind);
        assert forall|j: int| 0 <= j < rest.len() implies rest[j].0 != kind by {
            assert(rest[j] == slots[j + 1]);
        }
        table_after_push(rest, kind, status);
        assert(after.skip(1) =~= rest.push((kind, status)));
        assert(after[0] == slots[0]);
        assert(table_of(after) =~= table_of(slots).insert(kind, status));
    }
}

impl GameTable {
    /// A table without any state.
    pub fn new() -> (out: GameTable)
        ensures
            out@ == Map::<Seq<char>, GameStatusView>::empty(),
    {
        let out = GameTable { slots: Vec::new() };
        assert(slot_views(out.slots@) =~= Seq::empty());
        out
    }

    /// The place of the first slot of the kind.
    fn position(&self, kind: &str) -> (out: Option<usize>)
        ensures
            match out {
                Some(i) => i < self.slots@.len() && self.slots@[i as int].kind@ == kind@
                    && forall|j: int| 0 <= j < i ==> self.slots@[j].kind@ != kind@,
                None => forall|j: int| 0 <= j < self.slots@.len() ==> self.slots@[j].kind@ != kind@,
            },
    {
        let mut i: usize = 0;
        while i < self.slots.len()
            invariant
                i <= self.slots.len(),
                forall|j: int| 0 <= j < i ==> self.slots@[j].kind@ != kind@,
            decreases self.slots.len() - i,
        {
            if same(self.slots[i].kind.as_str(), kind) {
                return Some(i);
            }
            i += 1;
        }
        None
    }

    /// The state kept for a kind of game, if there is one.
    pub fn get(&self, kind: &str) -> (out: Option<&GameStatus>)
        ensures
            match out {
                Some(status) => self@.contains_key(kind@) && self@[kind@] == status@,
                None => !self@.contains_key(kind@),
            },
    {
        match self.position(kind) {
            Some(i) => {
                proof {
                    table_holds_first(slot_views(self.slots@), kind@, i as int);
                }
                Some(&self.slots[i].status)
            },
            None => {
                proof {
                    table_lacks_absent(slot_views(self.slots@), kind@);
                }
                None
            },
        }
    }

    /// Keeps a state under a kind of game, in place of the one kept before.
    /// The states of other kinds stay as they are.
    pub fn insert(&mut self, kind: String, status: GameStatus)
        ensures
            final(self)@ == old(self)@.insert(kind@, status@),
    {
        let ghost before = slot_views(self.slots@);
        match self.position(kind.as_str()) {
            Some(i) => {
                proof {
                    table_after_replace(before, i as int, kind@, status@);
                }
                self.slots.set(i, GameSlot { kind, status });
                assert(slot_views(self.slots@) =~= before.update(i as int, (kind@, status@)));
            },
            None => {
                proof {
                    table_after_push(before, kind@, status@);
                }
                self.slots.push(GameSlot { kind, status });
                assert(slot_views(self.slots@) =~= before.push((kind@, status@)));
            },
        }
    }

    /// A copy of the table.
    pub fn copy(&self) -> (out: GameTable)
        ensures
            out@ == self@,
    {
        let mut slots: Vec<GameSlot> = Vec::new();
        let mut i: usize = 0;
        while i < self.slots.len()
            invariant
                i <= self.slots.len(),
                slots@.len() == i,
                forall|j: int|
                    0 <= j < i ==> (#[trigger] slots@[j]).kind@ == self.slots@[j].kind@
                        && slots@[j].status@ == self.slots@[j].status@,
            decreases self.slots.len() - i,
        {
            slots.push(GameSlot { kind: self.slots[i].kind.clone(), status: self.slots[i].status.copy() });
            i += 1;
        }
        assert(slot_views(slots@) =~= slot_views(self.slots@));
        GameTable { slots }
    }
}

/// The session that a caller gets who shows nothing, or tokens that the
/// store does not hold: a new one under the given name, without a fresh
/// token and without any state.
pub open spec fn new_session(name: Seq<char>) -> UserView {
    UserView { stale_token: name, fresh_token: None, game_status: Map::empty() }
}

/// The caller shows both tokens, and they are the two that the store
/// holds for that session.
pub open spec fn accepted(request: UserRequest, stored: Option<UserView>) -> bool {
    match (request, stored) {
        (UserRequest::Tokens { stale_token, fresh_token }, Some(row)) => {
            row.stale_token == stale_token@ && row.fresh_token == Some(fresh_token@)
        },
        _ => false,
    }
}

/// The session that a request is served as: the stored one where the
/// tokens are accepted, a new one in every other case.
pub open spec fn resolve_spec(request: UserRequest, stored: Option<UserView>, name: Seq<char>) -> UserView {
    if accepted(request, stored) {
        stored->Some_0
    } else {
        new_session(name)
    }
}

/// The session as it is stored after a change: the same name, the new
/// fresh token, and the table with the new state under its kind.
pub open spec fn commit_spec(
    stored: Option<Map<Seq<char>, GameStatusView>>,
    stale_token: Seq<char>,
    status: GameStatusView,
    validator: Seq<char>,
) -> UserView {
    UserView {
        stale_token,
        fresh_token: Some(validator),
        game_status: match stored {
            Some(table) => table.insert(status.kind(), status),
            None => Map::empty().insert(status.kind(), status),
        },
    }
}

/// What the store holds for a session, as plain values.
pub open spec fn row_view(stored: Option<User>) -> Option<UserView> {
    match stored {
        Some(row) => Some(row@),
        None => None,
    }
}

/// What the store holds of a session's games, as plain values.
pub open spec fn table_view(stored: Option<GameTable>) -> Option<Map<Seq<char>, GameStatusView>> {
    match stored {
        Some(table) => Some(table@),
        None => None,
    }
}

/// Decides which session a request is served as. `stored` is what the
/// store holds under the stale token that the caller shows; `name` is a
/// name for a new session. A caller whose tokens are not the stored ones
/// is not turned away: it is served as a new session.
pub fn resolve(request: &UserRequest, stored: Option<User>, name: String) -> (out: User)
    ensures
        out@ == resolve_spec(*request, row_view(stored), name@),
{
    match (request, stored) {
        (UserRequest::Tokens { stale_token, fresh_token }, Some(row)) => {
            let known = match &row.fresh_token {
                Some(token) => same(token.as_str(), fresh_token.as_str()),
                None => false,
            };
            if known && same(row.stale_token.as_str(), stale_token.as_str()) {
                row
            } else {
                User { stale_token: name, fresh_token: None, game_status: GameTable::new() }
            }
        },
        _ => User { stale_token: name, fresh_token: None, game_status: GameTable::new() },
    }
}

/// Makes the session that is stored after a change. `stored` is the table
/// that the store holds for the session, if it holds one. The whole table
/// is written back with the new state under its kind, and the new fresh
/// token takes the place of the one before.
pub fn commit(stored: Option<GameTable>, stale_token: &str, status: GameStatus, validator: String) -> (out:
    User)
    ensures
        out@ == commit_spec(table_view(stored), stale_token@, status@, validator@),
{
    let mut table = match stored {
        Some(table) => table,
        None => GameTable::new(),
    };
    let kind = status.to_text();
    table.insert(kind, status);
    User {
        stale_token: String::from_str(stale_token),
        fresh_token: Some(validator),
        game_status: table,
    }
}

/// A word game before the first guess, as plain values.
pub open spec fn new_word_guess() -> WordGuessView {
    WordGuessView {
        guesses: Seq::empty(),
        answer: WORD_OF_THE_DAY@,
        maximum_guesses: MAXIMUM_GUESSES,
    }
}

/// The word game of a session: the stored one, or a new one.
pub open spec fn load_word_guess_spec(table: Map<Seq<char>, GameStatusView>) -> WordGuessView {
    if table.contains_key("word_guess"@) {
        match table["word_guess"@] {
            GameStatusView::WordGuess(game) => game,
            _ => new_word_guess(),
        }
    } else {
        new_word_guess()
    }
}

/// The grouping game of a session: the stored one, or a new one with the
/// words of the day.
pub open spec fn load_group_them_spec(
    table: Map<Seq<char>, GameStatusView>,
    words: Seq<crate::models::WordView>,
) -> GroupThemView {
    if table.contains_key("group_them"@) {
        match table["group_them"@] {
            GameStatusView::GroupThem(game) => game,
            _ => GroupThemView { guesses: Seq::empty(), available_words: words },
        }
    } else {
        GroupThemView { guesses: Seq::empty(), available_words: words }
    }
}

/// The word game of a session: the stored one, or a new one where none is
/// stored. Nothing is stored by this.
pub fn load_word_guess(user: &User) -> (out: WordGuess)
    ensures
        out@ == load_word_guess_spec(user@.game_status),
{
    match user.game_status.get("word_guess") {
        Some(GameStatus::WordGuess(game)) => game.copy(),
        _ => WordGuess::new(),
    }
}

/// The grouping game of a session: the stored one, or a new one with the
/// words of the day where none is stored. Nothing is stored by this.
pub fn load_group_them(user: &User, words: &[Word]) -> (out: GroupThem)
    ensures
        out@ == load_group_them_spec(user@.game_status, word_views(words@)),
{
    match user.game_status.get("group_them") {
        Some(GameStatus::GroupThem(game)) => game.copy(),
        _ => GroupThem::new(words),
    }
}

/// Plays a raw guess on the word game of a session and returns the state
/// to store, or the error that leaves the store as it is.
pub fn play_word_guess(user: &User, raw: &str) -> (out: Result<GameStatus, GameError>)
    ensures
        match out {
            Ok(status) => crate::wordguess::guess_spec(
                load_word_guess_spec(user@.game_status),
                raw@,
            ) == Ok::<WordGuessView, GameErrorView>(status@->WordGuess_0) && status is WordGuess,
            Err(e) => crate::wordguess::guess_spec(load_word_guess_spec(user@.game_status), raw@)
                == Err::<WordGuessView, GameErrorView>(e@),
        },
{
    let game = load_word_guess(user);
    match game.guess(raw) {
        Ok(next) => Ok(GameStatus::WordGuess(next)),
        Err(e) => Err(e),
    }
}

/// Plays a raw guess on the grouping game of a session, gives it the
/// colour, and returns the state to store, or the error that leaves the
/// store as it is.
pub fn play_group_them(user: &User, words: &[Word], raw: Vec<String>, color: ApproxColor) -> (out:
    Result<GameStatus, GameError>)
    ensures
        match out {
            Ok(status) => crate::groupthem::guess_spec(
                load_group_them_spec(user@.game_status, word_views(words@)),
                texts(raw@),
                color,
            ) == Ok::<GroupThemView, GameErrorView>(status@->GroupThem_0) && status is GroupThem,
            Err(e) => crate::groupthem::guess_spec(
                load_group_them_spec(user@.game_status, word_views(words@)),
                texts(raw@),
                color,
            ) == Err::<GroupThemView, GameErrorView>(e@),
        },
{
    let game = load_group_them(user, words);
    match game.guess((raw, color)) {
        Ok(next) => Ok(GameStatus::GroupThem(next)),
        Err(e) => Err(e),
    }
}

/// After a change is stored, a caller who shows any other fresh token than
/// the new one is served as a new session.
pub proof fn old_validator_is_rejected(
    stored: Option<Map<Seq<char>, GameStatusView>>,
    status: GameStatusView,
    validator: String,
    request: UserRequest,
    name: Seq<char>,
)
    requires
        request is Tokens,
        request->fresh_token@ != validator@,
    ensures
        resolve_spec(
            request,
            Some(commit_spec(stored, request->stale_token@, status, validator@)),
            name,
        ) == new_session(name),
{
}

/// After a change is stored, the caller who shows the new fresh token is
/// served as the stored session, with the state that was stored.
pub proof fn new_validator_is_accepted(
    stored: Option<Map<Seq<char>, GameStatusView>>,
    status: GameStatusView,
    request: UserRequest,
    name: Seq<char>,
)
    requires
        request is Tokens,
    ensures
        resolve_spec(
            request,
            Some(commit_spec(stored, request->stale_token@, status, request->fresh_token@)),
            name,
        ) == commit_spec(stored, request->stale_token@, status, request->fresh_token@),
        resolve_spec(
            request,
            Some(commit_spec(stored, request->stale_token@, status, request->fresh_token@)),
            name,
        ).game_status[status.kind()] == status,
{
}

/// A fresh token serves once: after the next change is stored under
/// another fresh token, the caller who still shows the first is served as
/// a new session.
pub proof fn validator_serves_once(
    stored: Option<Map<Seq<char>, GameStatusView>>,
    first: GameStatusView,
    second: GameStatusView,
    next: Seq<char>,
    request: UserRequest,
    name: Seq<char>,
)
    requires
        request is Tokens,
        request->fresh_token@ != next,
    ensures
        ({
            let once = commit_spec(stored, request->stale_token@, first, request->fresh_token@);
            let twice = commit_spec(Some(once.game_status), request->stale_token@, second, next);
            &&& resolve_spec(request, Some(once), name) == once
            &&& resolve_spec(request, Some(twice), name) == new_session(name)
        }),
{
}

/// A change rewrites the whole table, yet touches one kind only: the state
/// of every other kind is stored as it was.
pub proof fn commit_keeps_other_games(
    stored: Map<Seq<char>, GameStatusView>,
    stale_token: Seq<char>,
    status: GameStatusView,
    validator: Seq<char>,
    kind: Seq<char>,
)
    requires
        kind != status.kind(),
    ensures
        ({
            let after = commit_spec(Some(stored), stale_token, status, validator).game_status;
            &&& after.contains_key(kind) == stored.contains_key(kind)
            &&& stored.contains_key(kind) ==> after[kind] == stored[kind]
            &&& after[status.kind()] == status
        }),
{
}

/// What is stored for a game is what is loaded for it afterwards: the
/// word game comes back from the table it was committed to, and so does
/// the grouping game, whatever words the day has.
pub proof fn stored_game_is_loaded(
    stored: Option<Map<Seq<char>, GameStatusView>>,
    stale_token: Seq<char>,
    validator: Seq<char>,
    word_game: WordGuessView,
    group_game: GroupThemView,
    words: Seq<crate::models::WordView>,
)
    ensures
        load_word_guess_spec(
            commit_spec(
                stored,
                stale_token,
                GameStatusView::WordGuess(word_game),
                validator,
            ).game_status,
        ) == word_game,
        load_group_them_spec(
            commit_spec(
                stored,
                stale_token,
                GameStatusView::GroupThem(group_game),
                validator,
            ).game_status,
            words,
        ) == group_game,
{
}

} // verus!
