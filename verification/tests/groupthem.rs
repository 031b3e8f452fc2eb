use wordgames::errors::GameError;
use wordgames::game::{Game, Phase};
use wordgames::groupthem::{GroupThem, GROUPS, ITEMS_PER_GROUP, MAXIMUM_BAD_GUESSES};
use wordgames::models::{ApproxColor, Group, Ranking, Word};

fn setup() -> (Vec<Group>, Vec<Word>) {
    let groups = [
        Group { name: "common desserts".to_string(), ranking: Ranking::Easy },
        Group { name: "items found in a stationery store".to_string(), ranking: Ranking::Medium },
        Group { name: "famous detectives in literature".to_string(), ranking: Ranking::Hard },
        Group {
            name: "mythical creatures with human traits".to_string(),
            ranking: Ranking::VeryDifficult,
        },
    ];
    let texts = [
        "cake", "pie", "pudding", "cookie", "pen", "notebook", "stapler", "envelope", "holmes",
        "poirot", "marple", "spade", "centaur", "mermaid", "minotaur", "sphinx",
    ];
    let all_words: Vec<Word> = texts
        .iter()
        .enumerate()
        .map(|(i, text)| Word { text: text.to_string(), group: groups[i / 4].clone() })
        .collect();
    (groups.to_vec(), all_words)
}

fn plain(words: Vec<String>) -> (Vec<String>, ApproxColor) {
    (words, ApproxColor::new())
}

fn four(a: &str, b: &str, c: &str, d: &str) -> (Vec<String>, ApproxColor) {
    plain(vec![a.to_string(), b.to_string(), c.to_string(), d.to_string()])
}

#[test]
fn test_decode_html_entities() {
    let result = html_escape::decode_html_entities("&amp;").to_string();
    let result_2 = html_escape::decode_html_entities("pandora&rsquo;s box").to_string();
    println!("{:?}", result);
    println!("{:?}", result_2);
    assert_eq!(result, "&".to_string());
    assert_eq!(result_2, "pandora’s box".to_string());
}

#[test]
fn test_try_bad_word() {
    let (_, all_words) = setup();
    let result = Word::try_from("sdfasfasdfasdfsadfasd", &all_words);
    assert!(result.is_err());

    let bad_words = vec!["sdfasfasdfasdfsadfasd".to_string(), "sdfasfasdfasdfsadfasd".to_string()];
    let game = GroupThem::new(&all_words);
    let result = game.guess(plain(bad_words));

    assert!(result.is_err());
}

#[test]
fn test_guess_correct_group() {
    let (_, all_words) = setup();
    let game = GroupThem::new(&all_words);
    let result = game.guess(plain(vec![
        "cake".to_string(),
        "pie".to_string(),
        "pudding".to_string(),
        "cookie".to_string(),
    ]));
    assert!(result.is_ok());

    let result = result.unwrap();
    assert_eq!(result.guesses.len(), 1);

    let good_guesses = result.good_guesses();
    assert_eq!(good_guesses.len(), 1);
}

#[test]
fn test_guess_incorrect_group() {
    let (_, all_words) = setup();
    let game = GroupThem::new(&all_words);
    let result = game.guess(plain(vec![
        "cake".to_string(),
        "pie".to_string(),
        "pudding".to_string(),
        "pen".to_string(),
    ]));
    assert!(result.is_ok());

    let result = result.unwrap();
    assert_eq!(result.guesses.len(), 1);

    let bad_guesses = result.count_bad_guesses();
    assert_eq!(1, bad_guesses);
}

#[test]
fn test_guess_one_correct_one_incorrect() {
    let guesses = [
        vec!["cake".to_string(), "pie".to_string(), "pudding".to_string(), "cookie".to_string()],
        vec![
            "sphinx".to_string(),
            "minotaur".to_string(),
            "mermaid".to_string(),
            "envelope".to_string(),
        ],
    ];

    let (_, all_words) = setup();
    let mut game = GroupThem::new(&all_words);
    for guess in guesses.iter() {
        game.guesses
            .push(game.guess(plain(guess.to_owned())).unwrap().guesses.last().unwrap().clone());
    }

    assert_eq!(game.guesses.len(), 2);

    let good_guesses = game.count_good_guesses();
    assert_eq!(1, good_guesses);

    let bad_guesses = game.count_bad_guesses();
    assert_eq!(bad_guesses, 1);
}

#[test]
fn test_repeat_guess() {
    let (_, all_words) = setup();
    let mut game = GroupThem::new(&all_words);

    let result = game
        .guess(plain(vec![
            "cake".to_string(),
            "pie".to_string(),
            "pudding".to_string(),
            "sphinx".to_string(),
        ]))
        .unwrap()
        .guesses
        .last()
        .unwrap()
        .clone();

    game.guesses.push(result);

    assert_eq!(game.guesses.len(), 1);

    // Confirm is bad
    let bad_guesses = game.count_bad_guesses();
    assert_eq!(bad_guesses, 1);

    // Make the same guess again
    let result = game.guess(plain(vec![
        "cake".to_string(),
        "pie".to_string(),
        "pudding".to_string(),
        "sphinx".to_string(),
    ]));

    println!("{:?}", result);

    assert!(result.is_err());
}

#[test]
fn test_ran_out_of_guesses() {
    let (_, all_words) = setup();
    let mut game = GroupThem::new(&all_words);

    for i in 0..MAXIMUM_BAD_GUESSES {
        let result = game
            .guess(plain(vec![
                all_words[0].text.clone(),
                all_words[1].text.clone(),
                all_words[2].text.clone(),
                all_words[all_words.len() - 1 - i as usize].text.clone(),
            ]))
            .unwrap()
            .guesses
            .last()
            .unwrap()
            .clone();

        game.guesses.push(result);
    }

    assert_eq!(game.guesses.len(), MAXIMUM_BAD_GUESSES as usize);

    // Make a bad guess
    let result = game.guess(plain(vec![
        "sphinx".to_string(),
        "minotaur".to_string(),
        "mermaid".to_string(),
        "envelope".to_string(),
    ]));

    assert!(result.is_err());
}

#[test]
fn test_guess_already_guessed_word() {
    let (_, all_words) = setup();
    let game = GroupThem::new(&all_words);
    let result = game.guess(plain(vec![
        "cake".to_string(),
        "pie".to_string(),
        "pudding".to_string(),
        "cookie".to_string(),
    ]));
    assert!(result.is_ok());

    let result = result.unwrap();
    assert_eq!(result.guesses.len(), 1);

    // Confirm is good
    let good_guesses = result.count_good_guesses();
    assert_eq!(good_guesses, 1);

    // Make a guess with `cookie` again
    let result = result.guess(plain(vec![
        "cookie".to_string(),
        "minotaur".to_string(),
        "mermaid".to_string(),
        "sphinx".to_string(),
    ]));

    assert!(result.is_err());
}

#[test]
fn test_game_over() {
    let (_, all_words) = setup();
    let mut game = GroupThem::new(&all_words);

    for i in 0..GROUPS {
        let result = game
            .guess(plain(vec![
                all_words[i as usize * ITEMS_PER_GROUP].text.clone(),
                all_words[i as usize * ITEMS_PER_GROUP + 1].text.clone(),
                all_words[i as usize * ITEMS_PER_GROUP + 2].text.clone(),
                all_words[i as usize * ITEMS_PER_GROUP + 3].text.clone(),
            ]))
            .unwrap()
            .guesses
            .last()
            .unwrap()
            .clone();

        game.guesses.push(result);
    }

    assert_eq!(game.guesses.len(), GROUPS as usize);

    // Make a bad guess
    let result = game.guess(plain(vec![
        "sphinx".to_string(),
        "minotaur".to_string(),
        "mermaid".to_string(),
        "envelope".to_string(),
    ]));

    assert!(result.is_err());
}

#[test]
fn complete_group_leaves_the_words_to_group() {
    let (groups, all_words) = setup();
    let game = GroupThem::new(&all_words);
    let color = ApproxColor { red: 1, green: 2, blue: 3 };
    let next = game
        .guess((
            vec!["Cake".to_string(), "PIE".to_string(), "pudding".to_string(), "cookie".to_string()],
            color,
        ))
        .unwrap();
    assert_eq!(next.guesses.len(), 1);
    assert!(next.guesses[0].is_group());
    assert_eq!(next.guesses[0].color, color);
    let guessed: Vec<&str> = next.guesses[0].words.iter().map(|w| w.text.as_str()).collect();
    assert_eq!(guessed, vec!["cake", "pie", "pudding", "cookie"]);
    assert!(next.guesses[0].words.iter().all(|w| w.group == groups[0]));
    let left: Vec<&str> = next.available_words.iter().map(|w| w.text.as_str()).collect();
    assert_eq!(
        left,
        vec![
            "pen", "notebook", "stapler", "envelope", "holmes", "poirot", "marple", "spade",
            "centaur", "mermaid", "minotaur", "sphinx",
        ]
    );
    assert_eq!(next.count_good_guesses(), 1);
    assert_eq!(next.count_bad_guesses(), 0);
    assert_eq!(next.good_guesses(), vec![vec!["cake", "pie", "pudding", "cookie"]]);
    assert_eq!(next.used().len(), 4);
    // the game that was played on is as it was
    assert_eq!(game.available_words.len(), 16);
    assert!(game.guesses.is_empty());
}

#[test]
fn guess_across_two_groups_changes_no_words() {
    let (_, all_words) = setup();
    let game = GroupThem::new(&all_words);
    let next = game.guess(four("cake", "pie", "pen", "notebook")).unwrap();
    assert_eq!(next.available_words, all_words);
    assert_eq!(next.guesses.len(), 1);
    assert!(!next.guesses[0].is_group());
    assert_eq!(next.count_bad_guesses(), 1);
    assert_eq!(next.count_good_guesses(), 0);
    assert!(next.good_guesses().is_empty());
    assert_eq!(next.phase(), Phase::InProgress);
}

#[test]
fn fifth_guess_after_four_bad_ones_is_turned_down() {
    let (_, all_words) = setup();
    let mut game = GroupThem::new(&all_words);
    for last in ["pen", "notebook", "stapler", "envelope"] {
        assert_eq!(game.phase(), Phase::InProgress);
        game = game.guess(four("cake", "pie", "pudding", last)).unwrap();
    }
    assert_eq!(game.count_bad_guesses(), 4);
    assert_eq!(game.phase(), Phase::Lost);
    assert!(matches!(
        game.guess(four("cake", "pie", "pudding", "cookie")),
        Err(GameError::MaximumGuesses)
    ));
    assert!(matches!(
        game.guess(four("holmes", "poirot", "marple", "sphinx")),
        Err(GameError::MaximumGuesses)
    ));
    assert!(matches!(game.guess(four("a", "b", "c", "d")), Err(GameError::MaximumGuesses)));
    assert_eq!(game.guesses.len(), 4);
    assert_eq!(game.available_words.len(), 16);
}

#[test]
fn guess_after_four_groups_is_turned_down() {
    let (_, all_words) = setup();
    let mut game = GroupThem::new(&all_words);
    for i in 0..4 {
        game = game
            .guess(plain(all_words[i * 4..i * 4 + 4].iter().map(|w| w.text.clone()).collect()))
            .unwrap();
    }
    assert_eq!(game.count_good_guesses(), 4);
    assert!(game.available_words.is_empty());
    assert_eq!(game.phase(), Phase::Won);
    assert!(matches!(
        game.guess(four("cake", "pie", "pudding", "cookie")),
        Err(GameError::GameOver)
    ));
    assert!(matches!(game.guess(four("a", "b", "c", "d")), Err(GameError::GameOver)));
    assert_eq!(game.guesses.len(), 4);
}

#[test]
fn number_of_words_is_checked_first() {
    let (_, all_words) = setup();
    let game = GroupThem::new(&all_words);
    let three = plain(vec!["cake".to_string(), "pie".to_string(), "pudding".to_string()]);
    let five = plain(
        ["cake", "pie", "pudding", "cookie", "pen"].iter().map(|s| s.to_string()).collect(),
    );
    let repeat = four("cake", "pie", "pudding", "CAKE");
    for raw in [three, five, repeat, plain(Vec::new())] {
        match game.guess(raw) {
            Err(GameError::InvalidGuess(text)) => assert_eq!(text, "You have to guess 4 words"),
            other => panic!("{:?}", other),
        }
    }
}

#[test]
fn repeats_in_a_guess_are_dropped_before_counting() {
    let (_, all_words) = setup();
    let game = GroupThem::new(&all_words);
    let raw = plain(
        ["cake", "pie", "CAKE", "pudding", "cookie", "Pie"].iter().map(|s| s.to_string()).collect(),
    );
    let words = game.clean(raw).unwrap();
    let texts: Vec<&str> = words.iter().map(|w| w.text.as_str()).collect();
    assert_eq!(texts, vec!["cake", "pie", "pudding", "cookie"]);
}

#[test]
fn unknown_word_is_invalid() {
    let (_, all_words) = setup();
    let game = GroupThem::new(&all_words);
    match game.guess(four("cake", "pie", "zebra", "yak")) {
        Err(GameError::InvalidGuess(text)) => assert_eq!(text, "`zebra` is not a valid word"),
        other => panic!("{:?}", other),
    }
    match Word::try_from("zebra", &all_words) {
        Err(GameError::InvalidGuess(text)) => assert_eq!(text, "`zebra` is not a valid word"),
        other => panic!("{:?}", other),
    }
}

#[test]
fn word_of_a_complete_group_is_already_used() {
    let (_, all_words) = setup();
    let game = GroupThem::new(&all_words).guess(four("cake", "pie", "pudding", "cookie")).unwrap();
    match game.guess(four("sphinx", "cookie", "pie", "mermaid")) {
        Err(GameError::AlreadyUsedWord(text)) => assert_eq!(text, "pie"),
        other => panic!("{:?}", other),
    }
    // an unknown word is reported before a used one
    match game.guess(four("sphinx", "cookie", "zebra", "mermaid")) {
        Err(GameError::InvalidGuess(text)) => assert_eq!(text, "`zebra` is not a valid word"),
        other => panic!("{:?}", other),
    }
}

#[test]
fn same_words_in_another_order_are_a_duplicate() {
    let (_, all_words) = setup();
    let game = GroupThem::new(&all_words).guess(four("cake", "pie", "pen", "sphinx")).unwrap();
    assert!(matches!(
        game.guess(four("sphinx", "PEN", "pie", "cake")),
        Err(GameError::DuplicateGuess)
    ));
    assert!(game.guess(four("sphinx", "pen", "pie", "cookie")).is_ok());
    assert_eq!(game.guesses.len(), 1);
}

#[test]
fn colour_changes_nothing_but_the_colour() {
    let (_, all_words) = setup();
    let game = GroupThem::new(&all_words);
    let raw = vec!["pen".to_string(), "notebook".to_string(), "stapler".to_string(), "envelope".to_string()];
    let one = game.guess((raw.clone(), ApproxColor { red: 9, green: 8, blue: 7 })).unwrap();
    let two = game.guess((raw.clone(), ApproxColor { red: 1, green: 1, blue: 1 })).unwrap();
    let again = game.guess((raw, ApproxColor { red: 9, green: 8, blue: 7 })).unwrap();
    assert_eq!(one.available_words, two.available_words);
    assert_eq!(one.guesses[0].words, two.guesses[0].words);
    assert_ne!(one.guesses[0].color, two.guesses[0].color);
    assert_eq!(one.guesses, again.guesses);
    assert_eq!(one.available_words, again.available_words);
}

#[test]
fn process_gives_the_words_that_are_left() {
    let (_, all_words) = setup();
    let game = GroupThem::new(&all_words);
    let good = game.clean(four("holmes", "poirot", "marple", "spade")).unwrap();
    let left = game.process(good).unwrap();
    assert_eq!(left.len(), 12);
    assert!(left.iter().all(|w| w.group.ranking != Ranking::Hard));
    let bad = game.clean(four("holmes", "poirot", "marple", "cake")).unwrap();
    assert_eq!(game.process(bad).unwrap(), all_words);
}

#[test]
fn word_comes_back_from_its_text() {
    let (_, all_words) = setup();
    for word in all_words.iter() {
        let text = word.text.clone();
        let back = Word::try_from(&text, &all_words).unwrap();
        assert_eq!(back.text, word.text);
        assert_eq!(back.group, word.group);
        assert_eq!(&back, word);
    }
}

#[test]
fn rankings_and_colours() {
    assert_eq!(Ranking::from_index(0), Ranking::Easy);
    assert_eq!(Ranking::from_index(1), Ranking::Medium);
    assert_eq!(Ranking::from_index(2), Ranking::Hard);
    assert_eq!(Ranking::from_index(3), Ranking::VeryDifficult);
    assert_eq!(Ranking::from_index(4), Ranking::Easy);
    assert_eq!(Ranking::from_index(usize::MAX), Ranking::Easy);
    assert_eq!(Ranking::Easy.to_str(), "Easy");
    assert_eq!(Ranking::Medium.to_str(), "Medium");
    assert_eq!(Ranking::Hard.to_str(), "Hard");
    assert_eq!(Ranking::VeryDifficult.to_str(), "Very Difficult");
    assert_eq!(ApproxColor::new(), ApproxColor { red: 0, green: 0, blue: 0 });
    assert_eq!(Ranking::Easy.shade(), ApproxColor { red: 0, green: 204, blue: 0 });
    assert_eq!(Ranking::Medium.shade(), ApproxColor { red: 0, green: 0, blue: 204 });
    assert_eq!(Ranking::Hard.shade(), ApproxColor { red: 204, green: 0, blue: 0 });
    assert_eq!(Ranking::VeryDifficult.shade(), ApproxColor { red: 204, green: 204, blue: 204 });
}

#[test]
fn every_grouping_game_played_from_a_new_one_is_sound() {
    let (_, all_words) = setup();
    let mut game = GroupThem::new(&all_words);
    let guesses = [
        four("cake", "pie", "pudding", "cookie"),
        four("cake", "pen", "holmes", "sphinx"),
        four("pen", "notebook", "holmes", "sphinx"),
        four("pen", "notebook", "stapler", "envelope"),
        four("holmes", "poirot", "pen", "sphinx"),
        four("holmes", "poirot", "marple", "sphinx"),
        four("holmes", "poirot", "marple", "spade"),
        four("centaur", "mermaid", "minotaur", "holmes"),
        four("centaur", "mermaid", "minotaur", "spade"),
        four("centaur", "mermaid", "minotaur", "poirot"),
        four("centaur", "mermaid", "minotaur", "sphinx"),
    ];
    for raw in guesses {
        if let Ok(next) = game.guess(raw) {
            assert_eq!(next.guesses.len(), game.guesses.len() + 1);
            game = next;
        }
        assert!(game.count_good_guesses() <= GROUPS as usize);
        assert!(game.count_bad_guesses() <= MAXIMUM_BAD_GUESSES as usize);
        let used = game.used();
        for guess in game.guesses.iter() {
            assert_eq!(guess.words.len(), ITEMS_PER_GROUP);
            for (i, word) in guess.words.iter().enumerate() {
                assert!(guess.words[..i].iter().all(|other| other.text != word.text));
            }
        }
        for word in game.available_words.iter() {
            assert!(used.iter().all(|other| other.text != word.text));
        }
        assert_eq!(game.available_words.len() + used.len(), 16);
    }
    assert_eq!(game.count_good_guesses(), 4);
    assert_eq!(game.count_bad_guesses(), 2);
    assert_eq!(game.guesses.len(), 6);
    assert_eq!(game.phase(), Phase::Won);
}
