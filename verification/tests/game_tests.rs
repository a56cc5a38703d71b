use wordle_game::feedback::Mark;
use wordle_game::game::{
    extract_guess, is_well_formed, Event, GameState, MAX_ATTEMPTS, WORD_LENGTH,
};
use wordle_game::words::{SourceError, WordSource};

fn dictionary() -> WordSource {
    WordSource::Content(
        br#"["CRANE", "TRACE", "REACT", "MOLDY", "crate", "hello", "h-e-l-l-o-s", "world"]"#
            .to_vec(),
    )
}

fn playing(secret: &str, attempts: u8) -> GameState {
    GameState::InProgress { secret_word: secret.to_string(), attempts_remaining: attempts }
}

fn word_list(words: &[&str]) -> Vec<String> {
    words.iter().map(|w| w.to_string()).collect()
}

#[test]
fn constants_of_the_game() {
    assert_eq!(MAX_ATTEMPTS, 5);
    assert_eq!(WORD_LENGTH, 5);
}

#[test]
fn a_session_begins_idle() {
    assert_eq!(GameState::new(), GameState::Idle);
    assert_eq!(GameState::default(), GameState::Idle);
    assert!(GameState::new().is_idle());
    assert!(!playing("CRANE", 5).is_idle());
}

#[test]
fn extract_guess_removes_the_command_and_trims() {
    let text = |s: &str| -> Vec<char> { s.chars().collect() };
    assert_eq!(extract_guess("!guess hello"), text("hello"));
    assert_eq!(extract_guess("!guess   hello  \n"), text("hello"));
    assert_eq!(extract_guess("!guesshello"), text("hello"));
    assert_eq!(extract_guess("!guess"), text(""));
    assert_eq!(extract_guess("!guess two words"), text("two words"));
    assert_eq!(extract_guess("  hello "), text("hello"));
    assert_eq!(extract_guess("!guess !guess x"), text("!guess x"));
}

#[test]
fn guess_while_idle_is_turned_away() {
    let mut state = GameState::Idle;
    let event = state.submit_guess("!guess hello", &dictionary());
    assert_eq!(event, Event::NoGameInProgress);
    assert_eq!(state, GameState::Idle);
}

#[test]
fn wrong_guess_on_the_last_attempt_loses() {
    let mut state = playing("CRANE", 1);
    let event = state.submit_guess("!guess TRACE", &dictionary());
    assert_eq!(event, Event::LostRevealWord("CRANE".to_string()));
    assert_eq!(state, GameState::Idle);
}

#[test]
fn guess_with_a_digit_is_rejected() {
    let mut state = playing("CRANE", 3);
    let event = state.submit_guess("!guess cr4ne", &dictionary());
    assert_eq!(event, Event::InvalidCharacters);
    assert_eq!(state, playing("CRANE", 3));
}

#[test]
fn guess_with_other_characters_is_rejected() {
    for raw in ["!guess two words", "!guess cran!", "!guess cr-ne", "!guess \"crane\""] {
        let mut state = playing("CRANE", 2);
        assert_eq!(state.submit_guess(raw, &dictionary()), Event::InvalidCharacters, "{raw}");
        assert_eq!(state, playing("CRANE", 2));
    }
}

#[test]
fn characters_are_checked_before_the_length() {
    let mut state = playing("CRANE", 2);
    assert_eq!(state.submit_guess("!guess ab1", &dictionary()), Event::InvalidCharacters);
    assert_eq!(state.submit_guess("!guess abcdefg8", &dictionary()), Event::InvalidCharacters);
    assert_eq!(state, playing("CRANE", 2));
}

#[test]
fn guess_of_another_length_is_rejected() {
    for raw in ["!guess", "!guess   ", "!guess cran", "!guess cranes", "!guess hellos"] {
        let mut state = playing("CRANE", 4);
        assert_eq!(state.submit_guess(raw, &dictionary()), Event::InvalidLength, "{raw}");
        assert_eq!(state, playing("CRANE", 4));
    }
}

#[test]
fn length_counts_letters() {
    let source = WordSource::Content("[\"\u{e9}t\u{e9}s\", \"\u{e9}cart\"]".as_bytes().to_vec());
    let mut state = playing("CRANE", 4);
    assert_eq!(state.submit_guess("!guess \u{e9}t\u{e9}s", &source), Event::InvalidLength);
    assert_eq!(
        state.submit_guess("!guess \u{e9}cart", &source),
        Event::IncorrectGuess(
            3,
            vec![Mark::Miss, Mark::Miss, Mark::Miss, Mark::Miss, Mark::Miss]
        )
    );
}

#[test]
fn guess_that_is_not_listed_is_rejected() {
    let mut state = playing("CRANE", 5);
    assert_eq!(state.submit_guess("!guess zzzzz", &dictionary()), Event::NotInDictionary);
    assert_eq!(state.submit_guess("!guess CARET", &dictionary()), Event::NotInDictionary);
    assert_eq!(state, playing("CRANE", 5));
}

#[test]
fn secret_word_that_is_not_listed_cannot_be_guessed() {
    let mut state = playing("ZZZZZ", 5);
    assert_eq!(state.submit_guess("!guess zzzzz", &dictionary()), Event::NotInDictionary);
    assert_eq!(state, playing("ZZZZZ", 5));
}

#[test]
fn guess_is_rejected_where_the_source_fails() {
    let mut state = playing("CRANE", 5);
    assert_eq!(state.submit_guess("!guess crane", &WordSource::Unreadable), Event::NotInDictionary);
    let broken = WordSource::Content(b"[\"crane\"".to_vec());
    assert_eq!(state.submit_guess("!guess crane", &broken), Event::NotInDictionary);
    assert_eq!(state, playing("CRANE", 5));
}

#[test]
fn secret_word_wins_in_whatever_case() {
    for raw in ["!guess CRANE", "!guess crane", "!guess  CrAnE ", "!guesscrane"] {
        let mut state = playing("CRANE", 2);
        assert_eq!(state.submit_guess(raw, &dictionary()), Event::Won, "{raw}");
        assert_eq!(state, GameState::Idle);
    }
}

#[test]
fn secret_word_wins_on_the_last_attempt() {
    let mut state = playing("hello", 1);
    assert_eq!(state.submit_guess("!guess HELLO", &dictionary()), Event::Won);
    assert_eq!(state, GameState::Idle);
}

#[test]
fn wrong_guess_costs_one_attempt_and_is_marked() {
    let mut state = playing("CRANE", 5);
    let event = state.submit_guess("!guess TRACE", &dictionary());
    assert_eq!(
        event,
        Event::IncorrectGuess(
            4,
            vec![Mark::Miss, Mark::Hit, Mark::Hit, Mark::Present, Mark::Hit]
        )
    );
    assert_eq!(state, playing("CRANE", 4));
}

#[test]
fn marks_compare_letters_as_they_stand() {
    let mut state = playing("CRANE", 5);
    let event = state.submit_guess("!guess trace", &dictionary());
    assert_eq!(event, Event::IncorrectGuess(4, vec![Mark::Miss; 5]));
    assert_eq!(state, playing("CRANE", 4));
}

#[test]
fn attempts_run_down_to_the_end_of_the_game() {
    let mut state = playing("CRANE", 5);
    for left in [4u8, 3, 2, 1] {
        let event = state.submit_guess("!guess MOLDY", &dictionary());
        assert_eq!(event, Event::IncorrectGuess(left, vec![Mark::Miss; 5]));
        assert_eq!(state, playing("CRANE", left));
    }
    let event = state.submit_guess("!guess MOLDY", &dictionary());
    assert_eq!(event, Event::LostRevealWord("CRANE".to_string()));
    assert_eq!(state, GameState::Idle);
    assert_eq!(state.submit_guess("!guess MOLDY", &dictionary()), Event::NoGameInProgress);
}

#[test]
fn attempts_never_fall_below_zero() {
    let mut state = playing("CRANE", 0);
    let event = state.submit_guess("!guess MOLDY", &dictionary());
    assert_eq!(event, Event::LostRevealWord("CRANE".to_string()));
    assert_eq!(state, GameState::Idle);
}

#[test]
fn rejected_guesses_cost_nothing() {
    let mut state = playing("CRANE", 1);
    assert_eq!(state.submit_guess("!guess 12345", &dictionary()), Event::InvalidCharacters);
    assert_eq!(state.submit_guess("!guess abc", &dictionary()), Event::InvalidLength);
    assert_eq!(state.submit_guess("!guess abcde", &dictionary()), Event::NotInDictionary);
    assert_eq!(state, playing("CRANE", 1));
}

#[test]
fn guess_with_checks_against_the_given_list() {
    let words = word_list(&["crane", "trace"]);
    let mut state = playing("crane", 2);
    assert_eq!(state.guess_with("!guess react", &words), Event::NotInDictionary);
    assert_eq!(
        state.guess_with("!guess trace", &words),
        Event::IncorrectGuess(
            1,
            vec![Mark::Miss, Mark::Hit, Mark::Hit, Mark::Present, Mark::Hit]
        )
    );
    assert_eq!(state.guess_with("!guess TRACE", &words), Event::LostRevealWord("crane".to_string()));
    assert_eq!(state, GameState::Idle);
    assert_eq!(state.guess_with("!guess crane", &words), Event::NoGameInProgress);
}

#[test]
fn guess_with_agrees_with_submit_guess() {
    let words = word_list(&["CRANE", "TRACE", "REACT", "MOLDY", "crate", "hello", "hellos", "world"]);
    for raw in ["!guess crane", "!guess trace", "!guess zzzzz", "!guess a1", "!guess", "hello"] {
        for attempts in [1u8, 2, 5] {
            let mut with_list = playing("CRANE", attempts);
            let mut with_source = playing("CRANE", attempts);
            assert_eq!(
                with_list.guess_with(raw, &words),
                with_source.submit_guess(raw, &dictionary()),
                "{raw}"
            );
            assert_eq!(with_list, with_source);
        }
    }
}

#[test]
fn start_with_a_drawn_word_starts_a_game() {
    let mut state = GameState::Idle;
    assert_eq!(state.start_with(Ok("CRANE".to_string())), Event::GameStarted);
    assert_eq!(state, playing("CRANE", 5));
}

#[test]
fn start_with_a_failure_stays_idle() {
    for reason in [SourceError::ReadError, SourceError::ParseError, SourceError::EmptyListError] {
        let mut state = GameState::Idle;
        assert_eq!(state.start_with(Err(reason)), Event::StartFailed(reason));
        assert_eq!(state, GameState::Idle);
    }
}

#[test]
fn start_with_is_rejected_while_a_game_is_played() {
    let mut state = playing("CRANE", 3);
    assert_eq!(state.start_with(Ok("TRACE".to_string())), Event::StartRejected);
    assert_eq!(state, playing("CRANE", 3));
    assert_eq!(state.start_with(Err(SourceError::ReadError)), Event::StartRejected);
    assert_eq!(state, playing("CRANE", 3));
}

#[test]
fn start_game_draws_a_word_and_gives_five_attempts() {
    let words = ["CRANE", "TRACE", "REACT", "MOLDY", "crate", "hello", "hellos", "world"];
    for _ in 0..20 {
        let mut state = GameState::Idle;
        assert_eq!(state.start_game(&dictionary()), Event::GameStarted);
        match state {
            GameState::InProgress { secret_word, attempts_remaining } => {
                assert_eq!(attempts_remaining, 5);
                assert!(words.contains(&secret_word.as_str()), "{secret_word}");
            }
            GameState::Idle => panic!("no game was started"),
        }
    }
}

#[test]
fn second_start_is_rejected() {
    let mut state = GameState::Idle;
    assert_eq!(state.start_game(&dictionary()), Event::GameStarted);
    let _ = state.submit_guess("!guess world", &dictionary());
    let before = state.clone();
    for _ in 0..20 {
        assert_eq!(state.start_game(&dictionary()), Event::StartRejected);
        assert_eq!(state, before);
    }
}

#[test]
fn start_game_is_rejected_with_attempts_kept() {
    let mut state = playing("CRANE", 2);
    assert_eq!(state.start_game(&dictionary()), Event::StartRejected);
    assert_eq!(state, playing("CRANE", 2));
    assert_eq!(state.start_game(&WordSource::Unreadable), Event::StartRejected);
    assert_eq!(state, playing("CRANE", 2));
}

#[test]
fn start_game_fails_with_the_reason() {
    let cases = [
        (WordSource::Unreadable, SourceError::ReadError),
        (WordSource::Content(b"not json".to_vec()), SourceError::ParseError),
        (WordSource::Content(b"{\"a\": []}".to_vec()), SourceError::ParseError),
        (WordSource::Content(b"[]".to_vec()), SourceError::EmptyListError),
        (WordSource::Content(b"[\"\", \"42\"]".to_vec()), SourceError::EmptyListError),
    ];
    for (source, reason) in cases {
        let mut state = GameState::Idle;
        assert_eq!(state.start_game(&source), Event::StartFailed(reason));
        assert_eq!(state, GameState::Idle);
    }
}

#[test]
fn start_can_be_tried_again_after_a_failure() {
    let mut state = GameState::Idle;
    assert_eq!(state.start_game(&WordSource::Unreadable), Event::StartFailed(SourceError::ReadError));
    assert_eq!(state.start_game(&dictionary()), Event::GameStarted);
    assert!(!state.is_idle());
}

#[test]
fn a_whole_game_from_start_to_win() {
    let source = WordSource::Content(b"[\"crane\"]".to_vec());
    let mut state = GameState::new();
    assert_eq!(state.start_game(&source), Event::GameStarted);
    assert_eq!(state, playing("crane", 5));
    assert_eq!(state.submit_guess("!guess trace", &source), Event::NotInDictionary);
    assert_eq!(state.submit_guess("!guess Crane", &source), Event::Won);
    assert_eq!(state, GameState::Idle);
    assert_eq!(state.start_game(&source), Event::GameStarted);
    assert_eq!(state, playing("crane", 5));
}

#[test]
fn well_formed_guesses_have_five_letters() {
    let text = |s: &str| -> Vec<char> { s.chars().collect() };
    assert!(is_well_formed(&text("crane")));
    assert!(is_well_formed(&text("CRANE")));
    assert!(is_well_formed(&text("\u{e9}cart")));
    assert!(!is_well_formed(&text("cran")));
    assert!(!is_well_formed(&text("cranes")));
    assert!(!is_well_formed(&text("cr4ne")));
    assert!(!is_well_formed(&text("cr ne")));
    assert!(!is_well_formed(&text("")));
}
