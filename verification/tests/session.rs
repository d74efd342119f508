use wordle::session::{
    first_unplayed, is_valid_word, is_word_line, next_target, shuffled_targets, valid_word_list,
};
use wordle::words::{contains_word, distinct_words, insert_word};
use wordle::{Move, Session, StartError, State, Wordle, WordleError};

fn words(list: &[&str]) -> Vec<String> {
    list.iter().map(|w| w.to_string()).collect()
}

#[test]
fn word_lists_hold_each_word_once() {
    let mut list = words(&["alpha", "beta"]);
    insert_word(&mut list, "beta".to_string());
    insert_word(&mut list, "gamma".to_string());
    insert_word(&mut list, "Beta".to_string());
    assert_eq!(list, words(&["alpha", "beta", "gamma", "Beta"]));
    assert!(contains_word(&list, &"gamma".to_string()));
    assert!(!contains_word(&list, &"delta".to_string()));
    assert!(!contains_word(&Vec::new(), &"alpha".to_string()));
}

#[test]
fn distinct_words_keep_the_first_of_each() {
    assert_eq!(
        distinct_words(&words(&["b", "a", "b", "c", "a", "b"])),
        words(&["b", "a", "c"])
    );
    assert_eq!(distinct_words(&Vec::new()), Vec::<String>::new());
}

#[test]
fn comment_and_blank_lines_hold_no_word() {
    assert!(is_word_line("hello"));
    assert!(is_word_line("  hello  "));
    assert!(is_word_line(" #hello"));
    assert!(is_word_line("a#"));
    assert!(!is_word_line("#hello"));
    assert!(!is_word_line("#"));
    assert!(!is_word_line(""));
    assert!(!is_word_line("   "));
    assert!(!is_word_line("\t \u{a0}\u{2003}"));
}

#[test]
fn every_word_is_valid_without_a_list() {
    assert!(is_valid_word(&Vec::new(), "qwert"));
    assert!(is_valid_word(&Vec::new(), ""));
}

#[test]
fn validity_goes_by_the_ascii_lower_case_form() {
    let valid = words(&["hello", "world", "été"]);
    assert!(is_valid_word(&valid, "hello"));
    assert!(is_valid_word(&valid, "HELLO"));
    assert!(is_valid_word(&valid, "WoRlD"));
    assert!(is_valid_word(&valid, "été"));
    assert!(!is_valid_word(&valid, "ÉTÉ"));
    assert!(!is_valid_word(&valid, "bello"));
    assert!(!is_valid_word(&words(&["HELLO"]), "hello"));
}

#[test]
fn valid_list_takes_in_the_target_words() {
    assert_eq!(
        valid_word_list(&words(&["hello", "world", "hello"]), &words(&["CRANE", "World", "Été"])),
        words(&["hello", "world", "crane", "Été"])
    );
    assert_eq!(
        valid_word_list(&Vec::new(), &words(&["Hello", "HELLO"])),
        words(&["hello"])
    );
}

#[test]
fn first_unplayed_goes_by_the_ascii_upper_case_form() {
    let targets = words(&["hello", "world", "crane"]);
    assert_eq!(first_unplayed(&targets, &Vec::new()), Some(0));
    assert_eq!(first_unplayed(&targets, &words(&["HELLO"])), Some(1));
    assert_eq!(first_unplayed(&targets, &words(&["WORLD", "HELLO"])), Some(2));
    assert_eq!(first_unplayed(&targets, &words(&["hello"])), Some(0));
    assert_eq!(first_unplayed(&targets, &words(&["CRANE", "WORLD", "HELLO"])), None);
    assert_eq!(first_unplayed(&Vec::new(), &words(&["HELLO"])), None);
}

#[test]
fn next_target_is_the_first_unplayed_word_in_upper_case() {
    let targets = words(&["hello", "world"]);
    assert_eq!(next_target(&targets, &Vec::new()), Some("HELLO".to_string()));
    assert_eq!(next_target(&targets, &words(&["HELLO"])), Some("WORLD".to_string()));
    assert_eq!(next_target(&Vec::new(), &Vec::new()), None);
}

#[test]
fn next_target_is_drawn_from_the_list_once_all_are_played() {
    let targets = words(&["hello", "world", "crane"]);
    let played = words(&["HELLO", "WORLD", "CRANE"]);
    for _ in 0..50 {
        let target = next_target(&targets, &played).unwrap();
        assert!(played.contains(&target), "{target}");
    }
    assert_eq!(next_target(&words(&["hello"]), &words(&["HELLO"])), Some("HELLO".to_string()));
}

#[test]
fn shuffling_keeps_the_words() {
    let targets = words(&["e", "a", "d", "a", "c", "b"]);
    let mut shuffled = shuffled_targets(targets.clone()).unwrap();
    assert_eq!(shuffled.len(), 6);
    shuffled.sort();
    assert_eq!(shuffled, words(&["a", "a", "b", "c", "d", "e"]));
    assert_eq!(shuffled_targets(Vec::new()), Err(StartError::NoTargetWords));
    assert_eq!(shuffled_targets(words(&["one"])), Ok(words(&["one"])));
}

#[test]
fn shuffling_changes_the_order() {
    let targets: Vec<String> = (0..64).map(|i| format!("w{i}")).collect();
    let moved = (0..20).any(|_| shuffled_targets(targets.clone()).unwrap() != targets);
    assert!(moved);
}

#[test]
fn a_new_session_holds_no_game() {
    let session = Session::new();
    assert!(session.wordle.is_none());
    assert!(session.played_words.is_empty());
    assert!(session.won_words.is_empty());
    assert!(!session.is_playing());
    let session = Session::default();
    assert!(session.wordle.is_none());
    assert!(!session.is_playing());
}

#[test]
fn start_game_picks_words_in_order_and_lists_them() {
    let targets = words(&["hello", "world"]);
    let mut session = Session::new();
    assert_eq!(session.start_game(&targets), Ok("HELLO".to_string()));
    assert!(session.is_playing());
    assert_eq!(session.wordle.as_ref().unwrap().target_word, "HELLO");
    assert!(session.wordle.as_ref().unwrap().attempts.is_empty());
    assert_eq!(session.played_words, words(&["HELLO"]));

    assert_eq!(session.start_game(&targets), Ok("WORLD".to_string()));
    assert_eq!(session.wordle.as_ref().unwrap().target_word, "WORLD");
    assert_eq!(session.played_words, words(&["HELLO", "WORLD"]));

    let third = session.start_game(&targets).unwrap();
    assert!(third == "HELLO" || third == "WORLD");
    assert_eq!(session.wordle.as_ref().unwrap().target_word, third);
    assert_eq!(session.played_words, words(&["HELLO", "WORLD"]));
    assert!(session.won_words.is_empty());
}

#[test]
fn start_game_fails_without_target_words() {
    let mut session = Session::new();
    assert_eq!(session.start_game(&Vec::new()), Err(StartError::NoTargetWords));
    assert!(session.wordle.is_none());
    assert!(session.played_words.is_empty());
}

#[test]
fn start_game_fails_on_a_short_word_and_keeps_the_session() {
    let mut session = Session::new();
    session.start_game(&words(&["hello"])).unwrap();
    session.play_turn(&Vec::new(), "bello").unwrap();
    assert_eq!(session.start_game(&words(&["hello", "hi"])), Err(StartError::TooShort));
    assert_eq!(session.wordle.as_ref().unwrap().target_word, "HELLO");
    assert_eq!(session.wordle.as_ref().unwrap().attempts, words(&["BELLO"]));
    assert_eq!(session.played_words, words(&["HELLO"]));
}

#[test]
fn play_turn_answers_each_kind_of_word() {
    let valid = words(&["hello", "bello", "cello", "hi"]);
    let mut session = Session::new();
    session.start_game(&words(&["hello"])).unwrap();

    assert_eq!(session.play_turn(&valid, "jello"), Ok(Move::InvalidWord));
    assert_eq!(session.play_turn(&valid, "hi"), Ok(Move::InvalidLength));
    assert!(session.wordle.as_ref().unwrap().attempts.is_empty());

    assert_eq!(session.play_turn(&valid, "Bello"), Ok(Move::Valid));
    assert_eq!(session.wordle.as_ref().unwrap().attempts, words(&["BELLO"]));
    assert!(session.won_words.is_empty());
    assert!(session.is_playing());

    assert_eq!(session.play_turn(&valid, "hello"), Ok(Move::Won));
    assert_eq!(session.wordle.as_ref().unwrap().attempts, words(&["BELLO", "HELLO"]));
    assert_eq!(session.won_words, words(&["HELLO"]));
    assert_eq!(session.played_words, words(&["HELLO"]));
    assert!(!session.is_playing());

    assert_eq!(session.play_turn(&valid, "cello"), Err(WordleError::GameOver));
    assert_eq!(session.play_turn(&valid, "jello"), Ok(Move::InvalidWord));
    assert_eq!(session.wordle.as_ref().unwrap().attempts.len(), 2);
}

#[test]
fn the_sixth_miss_is_answered_as_lost() {
    let mut session = Session::new();
    session.start_game(&words(&["hello"])).unwrap();
    for _ in 0..5 {
        assert_eq!(session.play_turn(&Vec::new(), "bello"), Ok(Move::Valid));
    }
    assert_eq!(session.play_turn(&Vec::new(), "bello"), Ok(Move::Lost));
    assert!(!session.is_playing());
    assert!(session.won_words.is_empty());
    assert_eq!(session.wordle.as_ref().unwrap().status(), State::Lost);
    assert_eq!(session.play_turn(&Vec::new(), "hello"), Err(WordleError::GameOver));
}

#[test]
fn a_word_won_twice_is_listed_once() {
    let mut session = Session::new();
    for _ in 0..2 {
        session.start_game(&words(&["hello"])).unwrap();
        assert_eq!(session.play_turn(&Vec::new(), "hello"), Ok(Move::Won));
    }
    assert_eq!(session.won_words, words(&["HELLO"]));
    assert_eq!(session.played_words, words(&["HELLO"]));
}

#[test]
fn restore_takes_the_saved_lists_and_game() {
    let mut session = Session::new();
    session.start_game(&words(&["hello"])).unwrap();
    let saved = Wordle {
        target_word: "CRANE".to_string(),
        attempts: words(&["BRAIN"]),
    };
    session.restore(
        &words(&["HELLO", "HELLO"]),
        &words(&["HELLO", "WORLD", "HELLO", "CRANE"]),
        Some(saved),
    );
    assert_eq!(session.won_words, words(&["HELLO"]));
    assert_eq!(session.played_words, words(&["HELLO", "WORLD", "CRANE"]));
    assert_eq!(session.wordle.as_ref().unwrap().target_word, "CRANE");
    assert_eq!(session.wordle.as_ref().unwrap().attempts, words(&["BRAIN"]));
    assert!(session.is_playing());

    session.restore(&Vec::new(), &Vec::new(), None);
    assert!(session.won_words.is_empty());
    assert!(session.played_words.is_empty());
    assert!(session.wordle.is_none());
}

#[test]
fn restore_takes_the_won_words_as_played_where_fewer_were_listed() {
    let mut session = Session::new();
    session.restore(&words(&["HELLO", "WORLD"]), &words(&["CRANE"]), None);
    assert_eq!(session.won_words, words(&["HELLO", "WORLD"]));
    assert_eq!(session.played_words, words(&["HELLO", "WORLD"]));

    session.restore(&words(&["HELLO", "WORLD"]), &words(&["CRANE"]), None);
    assert_eq!(session.played_words, words(&["CRANE"]));

    session.restore(&words(&["HELLO", "WORLD", "WORLD"]), &words(&["BRAIN"]), None);
    assert_eq!(session.won_words, words(&["HELLO", "WORLD"]));
    assert_eq!(session.played_words, words(&["HELLO", "WORLD"]));
}

#[test]
fn restore_into_a_new_session_without_wins_takes_the_played_words() {
    let mut session = Session::new();
    session.restore(&Vec::new(), &words(&["CRANE", "BRAIN", "CRANE"]), None);
    assert!(session.won_words.is_empty());
    assert_eq!(session.played_words, words(&["CRANE", "BRAIN"]));
}

#[test]
fn the_length_of_the_word_as_sent_decides_on_invalid_length() {
    let mut session = Session::new();
    session.start_game(&words(&["straße"])).unwrap();
    assert_eq!(session.wordle.as_ref().unwrap().target_word, "STRASSE");
    assert_eq!(session.play_turn(&Vec::new(), "straße"), Ok(Move::InvalidLength));
    assert_eq!(session.play_turn(&Vec::new(), "straßen"), Err(WordleError::LengthMismatch));
    assert!(session.wordle.as_ref().unwrap().attempts.is_empty());
    assert_eq!(session.play_turn(&Vec::new(), "strasse"), Ok(Move::Won));
}
