use wordgames::errors::{DatabaseError, GameError};
use wordgames::game::Game;
use wordgames::groupthem::GroupThem;
use wordgames::models::{
    ApproxColor, GameStatus, GameTable, Group, Ranking, User, UserRequest, Word,
};
use wordgames::reply::{database_reply, game_status, request_of, schema_kind, GameKind};
use wordgames::session::{
    commit, load_group_them, load_word_guess, play_group_them, play_word_guess, resolve,
};
use wordgames::token::{create_token, TOKEN_LENGTH};
use wordgames::wordguess::WordGuess;

fn words() -> Vec<Word> {
    let texts = ["cake", "pie", "pudding", "cookie", "pen", "notebook", "stapler", "envelope"];
    texts
        .iter()
        .enumerate()
        .map(|(i, text)| Word {
            text: text.to_string(),
            group: Group { name: format!("group {}", i / 4), ranking: Ranking::from_index(i / 4) },
        })
        .collect()
}

fn tokens(stale: &str, fresh: &str) -> UserRequest {
    UserRequest::Tokens { stale_token: stale.to_string(), fresh_token: fresh.to_string() }
}

fn kinds(table: &GameTable) -> Vec<String> {
    table.slots.iter().map(|slot| slot.kind.clone()).collect()
}

#[test]
fn caller_without_tokens_is_a_new_session() {
    let user = resolve(&UserRequest::NewUser, None, "fresh-name".to_string());
    assert_eq!(user.stale_token, "fresh-name");
    assert!(user.fresh_token.is_none());
    assert!(user.game_status.slots.is_empty());
}

#[test]
fn caller_with_unknown_tokens_is_a_new_session() {
    let user = resolve(&tokens("invalid_stale", "invalid_fresh"), None, "n1".to_string());
    assert_eq!(user.stale_token, "n1");
    assert!(user.fresh_token.is_none());
    assert!(user.game_status.slots.is_empty());
}

#[test]
fn caller_with_the_stored_tokens_is_the_stored_session() {
    let stored = commit(None, "id-1", GameStatus::WordGuess(WordGuess::new()), "v1".to_string());
    let user = resolve(&tokens("id-1", "v1"), Some(stored), "n1".to_string());
    assert_eq!(user.stale_token, "id-1");
    assert_eq!(user.fresh_token, Some("v1".to_string()));
    assert_eq!(kinds(&user.game_status), vec!["word_guess"]);
}

#[test]
fn caller_with_a_wrong_fresh_token_is_a_new_session() {
    let stored = commit(None, "id-1", GameStatus::WordGuess(WordGuess::new()), "v1".to_string());
    let user = resolve(&tokens("id-1", "invalid_fresh"), Some(stored.clone()), "n1".to_string());
    assert_eq!(user.stale_token, "n1");
    assert!(user.fresh_token.is_none());
    assert!(user.game_status.slots.is_empty());
    let other = resolve(&tokens("id-2", "v1"), Some(stored.clone()), "n2".to_string());
    assert_eq!(other.stale_token, "n2");
    let none = resolve(&UserRequest::NewUser, Some(stored), "n3".to_string());
    assert_eq!(none.stale_token, "n3");
}

#[test]
fn fresh_token_serves_once() {
    let first = commit(None, "id-1", GameStatus::WordGuess(WordGuess::new()), "v1".to_string());
    // the token that was handed out is accepted
    let user = resolve(&tokens("id-1", "v1"), Some(first.clone()), "n1".to_string());
    assert_eq!(user.stale_token, "id-1");
    // the next change rotates it
    let game = load_word_guess(&user).guess("adieu").unwrap();
    let second = commit(
        Some(first.game_status.clone()),
        "id-1",
        GameStatus::WordGuess(game),
        "v2".to_string(),
    );
    assert_eq!(second.fresh_token, Some("v2".to_string()));
    // a retry with the old one is a new session
    let retry = resolve(&tokens("id-1", "v1"), Some(second.clone()), "n2".to_string());
    assert_eq!(retry.stale_token, "n2");
    assert!(retry.game_status.slots.is_empty());
    // the new one is the session
    let again = resolve(&tokens("id-1", "v2"), Some(second), "n3".to_string());
    assert_eq!(again.stale_token, "id-1");
    assert_eq!(load_word_guess(&again).to_vec(), vec!["adieu".to_string()]);
}

#[test]
fn commit_keeps_the_games_of_other_kinds() {
    let all = words();
    let one = commit(None, "id", GameStatus::WordGuess(WordGuess::new()), "a".to_string());
    let two = commit(
        Some(one.game_status),
        "id",
        GameStatus::GroupThem(GroupThem::new(&all)),
        "b".to_string(),
    );
    assert_eq!(kinds(&two.game_status), vec!["word_guess", "group_them"]);
    let played = WordGuess::new().guess("steep").unwrap();
    let three =
        commit(Some(two.game_status), "id", GameStatus::WordGuess(played), "c".to_string());
    assert_eq!(kinds(&three.game_status), vec!["word_guess", "group_them"]);
    assert_eq!(three.fresh_token, Some("c".to_string()));
    assert_eq!(three.stale_token, "id");
    assert_eq!(load_word_guess(&three).to_vec(), vec!["steep".to_string()]);
    assert_eq!(load_group_them(&three, &[]).available_words, all);
}

#[test]
fn table_keeps_one_state_for_each_kind() {
    let mut table = GameTable::new();
    assert!(table.get("word_guess").is_none());
    table.insert("word_guess".to_string(), GameStatus::WordGuess(WordGuess::new()));
    table.insert("group_them".to_string(), GameStatus::GroupThem(GroupThem::new(&words())));
    table.insert(
        "word_guess".to_string(),
        GameStatus::WordGuess(WordGuess::with_answer("peets")),
    );
    assert_eq!(table.slots.len(), 2);
    match table.get("word_guess") {
        Some(GameStatus::WordGuess(game)) => assert_eq!(game.answer, "peets"),
        other => panic!("{:?}", other),
    }
    assert!(matches!(table.get("group_them"), Some(GameStatus::GroupThem(_))));
    assert!(table.get("other").is_none());
    let copy = table.copy();
    assert_eq!(kinds(&copy), kinds(&table));
}

#[test]
fn earlier_slot_of_a_kind_counts() {
    let table = GameTable {
        slots: vec![
            wordgames::models::GameSlot {
                kind: "word_guess".to_string(),
                status: GameStatus::WordGuess(WordGuess::with_answer("first")),
            },
            wordgames::models::GameSlot {
                kind: "word_guess".to_string(),
                status: GameStatus::WordGuess(WordGuess::with_answer("later")),
            },
        ],
    };
    match table.get("word_guess") {
        Some(GameStatus::WordGuess(game)) => assert_eq!(game.answer, "first"),
        other => panic!("{:?}", other),
    }
}

#[test]
fn load_gives_a_new_game_where_none_is_stored() {
    let user = resolve(&UserRequest::NewUser, None, "n".to_string());
    let word = load_word_guess(&user);
    assert!(word.guesses.is_empty());
    assert_eq!(word.answer, "orate");
    let group = load_group_them(&user, &words());
    assert!(group.guesses.is_empty());
    assert_eq!(group.available_words, words());
    // nothing was stored by loading
    assert!(user.game_status.slots.is_empty());
}

#[test]
fn load_ignores_a_state_of_the_wrong_kind() {
    let mut table = GameTable::new();
    table.insert("word_guess".to_string(), GameStatus::GroupThem(GroupThem::new(&words())));
    let user = User { stale_token: "id".to_string(), fresh_token: None, game_status: table };
    assert_eq!(load_word_guess(&user).answer, "orate");
    assert!(load_word_guess(&user).guesses.is_empty());
}

#[test]
fn play_returns_the_state_to_store_or_the_error() {
    let user = resolve(&UserRequest::NewUser, None, "n".to_string());
    match play_word_guess(&user, "adieu").unwrap() {
        GameStatus::WordGuess(game) => assert_eq!(game.to_vec(), vec!["adieu".to_string()]),
        other => panic!("{:?}", other),
    }
    assert!(matches!(play_word_guess(&user, "no"), Err(GameError::InvalidGuess(_))));
    let raw: Vec<String> = ["cake", "pie", "pudding", "cookie"].iter().map(|s| s.to_string()).collect();
    let color = ApproxColor { red: 5, green: 6, blue: 7 };
    match play_group_them(&user, &words(), raw, color).unwrap() {
        GameStatus::GroupThem(game) => {
            assert_eq!(game.guesses.len(), 1);
            assert_eq!(game.guesses[0].color, color);
            assert_eq!(game.available_words.len(), 4);
        },
        other => panic!("{:?}", other),
    }
    assert!(matches!(
        play_group_them(&user, &words(), vec!["cake".to_string()], color),
        Err(GameError::InvalidGuess(_))
    ));
}

#[test]
fn names_of_the_kinds() {
    assert_eq!(GameStatus::WordGuess(WordGuess::new()).to_text(), "word_guess");
    assert_eq!(GameStatus::GroupThem(GroupThem::new(&[])).to_text(), "group_them");
    let copy = GameStatus::WordGuess(WordGuess::with_answer("peets")).copy();
    assert!(matches!(copy, GameStatus::WordGuess(game) if game.answer == "peets"));
}

#[test]
fn tokens_are_drawn_anew() {
    let one = create_token();
    let two = create_token();
    assert_eq!(one.chars().count(), TOKEN_LENGTH);
    assert_eq!(TOKEN_LENGTH, 32);
    assert!(one.chars().all(|c| c.is_ascii_alphanumeric()));
    assert!(two.chars().all(|c| c.is_ascii_alphanumeric()));
    assert_ne!(one, two);
}

#[test]
fn request_needs_both_tokens() {
    assert!(matches!(request_of(None, None), UserRequest::NewUser));
    assert!(matches!(request_of(Some("a".to_string()), None), UserRequest::NewUser));
    assert!(matches!(request_of(None, Some("b".to_string())), UserRequest::NewUser));
    match request_of(Some("a".to_string()), Some("b".to_string())) {
        UserRequest::Tokens { stale_token, fresh_token } => {
            assert_eq!(stale_token, "a");
            assert_eq!(fresh_token, "b");
        },
        other => panic!("{:?}", other),
    }
}

#[test]
fn statuses_of_replies() {
    assert_eq!(game_status(&GameError::MaximumGuesses), 400);
    assert_eq!(game_status(&GameError::GameOver), 200);
    assert_eq!(game_status(&GameError::InvalidGuess("x".to_string())), 400);
    assert_eq!(game_status(&GameError::AlreadyUsedWord("x".to_string())), 400);
    assert_eq!(game_status(&GameError::DuplicateGuess), 400);
    assert_eq!(game_status(&GameError::NetworkError("x".to_string())), 500);
    assert_eq!(
        database_reply(&DatabaseError::FromSQLError("no such table".to_string())),
        (400, "no such table".to_string())
    );
    assert_eq!(
        database_reply(&DatabaseError::GameStatusParseError("eof".to_string())),
        (500, "Your game has been corrupted. Please wait for tomorrow: eof".to_string())
    );
    assert_eq!(
        DatabaseError::FromSQLError("x".to_string()).to_text(),
        "There's an issue with the request: x"
    );
    assert_eq!(
        DatabaseError::GameStatusParseError("y".to_string()).to_text(),
        "Unable to parse game status: y"
    );
}

#[test]
fn schema_is_named_in_any_case() {
    assert_eq!(schema_kind("wordguess"), Some(GameKind::WordGuess));
    assert_eq!(schema_kind("WordGuess"), Some(GameKind::WordGuess));
    assert_eq!(schema_kind("GROUPTHEM"), Some(GameKind::GroupThem));
    assert_eq!(schema_kind("group_them"), None);
    assert_eq!(schema_kind(""), None);
}
