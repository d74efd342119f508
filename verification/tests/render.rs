use wordle::commands::{is_admin, parse_command, Command};
use wordle::render::{emoji_letter, render_game};
use wordle::{Game, Letter, State, Wordle};

#[test]
fn letters_in_place_are_shown_as_regional_indicators() {
    assert_eq!(emoji_letter('A'), '\u{1F1E6}');
    assert_eq!(emoji_letter('Z'), '\u{1F1FF}');
    assert_eq!(emoji_letter('a'), '\u{1F1E6}');
    assert_eq!(emoji_letter('h'), '\u{1F1ED}');
    assert_eq!(emoji_letter('H'), '\u{1F1ED}');
}

#[test]
fn other_characters_are_shifted_alike_or_shown_as_a_question_mark() {
    assert_eq!(emoji_letter('0'), '\u{1F1D5}');
    assert_eq!(emoji_letter('É'), '\u{1F26E}');
    assert_eq!(emoji_letter('\u{10FFFF}'), '?');
    assert_eq!(emoji_letter('\u{F0E5A}'), '\u{10FFFF}');
    assert_eq!(emoji_letter('\u{F0E5B}'), '?');
}

#[test]
fn an_empty_board_is_the_heading_alone() {
    let game = Game {
        state: State::Playing,
        attempts: vec![],
    };
    assert_eq!(render_game(&game), "Your attempts:\n\n");
}

#[test]
fn each_verdict_has_its_own_look() {
    let game = Game {
        state: State::Playing,
        attempts: vec![vec![
            Letter::Wrong('B'),
            Letter::CorrectButWrongPosition('O'),
            Letter::Correct('L'),
        ]],
    };
    assert_eq!(
        render_game(&game),
        "Your attempts:\n\n || ~B~ ||   * `O` *   \u{1F1F1}\n\n"
    );
}

#[test]
fn rows_follow_each_other_with_an_empty_line_between() {
    let mut wordle = Wordle::new("hello".to_string()).unwrap();
    wordle.play_turn("bolle").unwrap();
    let game = wordle.play_turn("hello").unwrap();
    assert_eq!(
        render_game(&game),
        "Your attempts:\n\n || ~B~ ||   * `O` *   \u{1F1F1} \u{1F1F1} * `E` *  \n\n \
         \u{1F1ED} \u{1F1EA} \u{1F1F1} \u{1F1F1} \u{1F1F4}\n\n"
    );
}

#[test]
fn an_empty_row_is_an_empty_line() {
    let game = Game {
        state: State::Playing,
        attempts: vec![vec![], vec![Letter::Wrong('x')]],
    };
    assert_eq!(render_game(&game), "Your attempts:\n\n\n\n || ~x~ ||  \n\n");
}

#[test]
fn commands_are_read_exactly() {
    assert_eq!(parse_command("/help"), Command::Help);
    assert_eq!(parse_command("/new"), Command::New);
    assert_eq!(parse_command("/start"), Command::New);
    assert_eq!(parse_command("/admin"), Command::Admin);
    assert_eq!(parse_command("/score"), Command::Score);
    assert_eq!(parse_command("/Help"), Command::Unknown);
    assert_eq!(parse_command("/help "), Command::Unknown);
    assert_eq!(parse_command("help"), Command::Unknown);
    assert_eq!(parse_command("/"), Command::Unknown);
    assert_eq!(parse_command(""), Command::Unknown);
    assert_eq!(parse_command("/news"), Command::Unknown);
}

#[test]
fn the_admin_is_known_by_name() {
    assert!(is_admin(&Some("alice".to_string()), "alice"));
    assert!(!is_admin(&Some("alice".to_string()), "Alice"));
    assert!(!is_admin(&Some("alice".to_string()), "bob"));
    assert!(!is_admin(&Some("alice".to_string()), ""));
    assert!(!is_admin(&None, "alice"));
    assert!(!is_admin(&None, ""));
    assert!(is_admin(&Some(String::new()), ""));
}
