use app_core::games::GameMsg;
use app_core::games::GameState;
use app_core::rng::Rng;

fn fresh_game(target: i32) -> GameState {
    let mut rng = Rng::new(7);
    let mut gs = GameState::new(&mut rng);
    gs.guess_target = target;
    gs
}

#[test]
fn new_game_starts_with_prompt_and_zero_attempts() {
    let mut rng = Rng::new(1);
    let gs = GameState::new(&mut rng);
    assert_eq!(gs.guess_attempts, 0);
    assert!(!gs.guess_game_over);
    assert_eq!(gs.guess_message, "Guess a number between 1 and 100!");
    assert_eq!(gs.guess_input, "");
    assert!(gs.guess_target >= 1 && gs.guess_target <= 100);
}

#[test]
fn out_of_range_text_rejected_without_counting() {
    // An integer above 100 is rejected: attempts untouched, buffer
    // cleared, the out-of-range message shown.
    let mut gs = fresh_game(42);
    let mut rng = Rng::new(0);
    gs.update(GameMsg::GuessInputChanged("150".to_string()), &mut rng)
        .unwrap();
    gs.update(GameMsg::SubmitGuess, &mut rng).unwrap();
    assert_eq!(gs.guess_attempts, 0);
    assert_eq!(gs.guess_message, "Please enter a number between 1 and 100!");
    assert_eq!(gs.guess_input, "");
    assert!(!gs.guess_game_over);
    assert_eq!(gs.guess_target, 42);
}

#[test]
fn malformed_text_rejected_without_counting() {
    let mut gs = fresh_game(42);
    let mut rng = Rng::new(0);
    for bad in ["abc", "", "12x", "--4", "4.5", "999999999999999999999"] {
        gs.update(GameMsg::GuessInputChanged(bad.to_string()), &mut rng)
            .unwrap();
        gs.update(GameMsg::SubmitGuess, &mut rng).unwrap();
        assert_eq!(gs.guess_attempts, 0);
        assert_eq!(gs.guess_message, "Please enter a valid number!");
        assert_eq!(gs.guess_input, "");
    }
}

#[test]
fn value_outside_i32_is_malformed_not_out_of_range() {
    let mut gs = fresh_game(42);
    let mut rng = Rng::new(0);
    gs.update(GameMsg::GuessInputChanged("2147483648".to_string()), &mut rng)
        .unwrap();
    gs.update(GameMsg::SubmitGuess, &mut rng).unwrap();
    assert_eq!(gs.guess_message, "Please enter a valid number!");
}

#[test]
fn negative_guess_is_out_of_range() {
    let mut gs = fresh_game(42);
    let mut rng = Rng::new(0);
    gs.update(GameMsg::GuessInputChanged("-5".to_string()), &mut rng)
        .unwrap();
    gs.update(GameMsg::SubmitGuess, &mut rng).unwrap();
    assert_eq!(gs.guess_message, "Please enter a number between 1 and 100!");
    assert_eq!(gs.guess_attempts, 0);
}

#[test]
fn whitespace_is_trimmed_before_parsing() {
    let mut gs = fresh_game(42);
    let mut rng = Rng::new(0);
    gs.update(GameMsg::GuessInputChanged("  30 \t".to_string()), &mut rng)
        .unwrap();
    gs.update(GameMsg::SubmitGuess, &mut rng).unwrap();
    assert_eq!(gs.guess_attempts, 1);
    assert_eq!(gs.guess_message, "Too low! Try a higher number.");
}

#[test]
fn too_low_and_too_high_messages() {
    let mut gs = fresh_game(50);
    let mut rng = Rng::new(0);
    gs.update(GameMsg::GuessInputChanged("10".to_string()), &mut rng)
        .unwrap();
    gs.update(GameMsg::SubmitGuess, &mut rng).unwrap();
    assert_eq!(gs.guess_message, "Too low! Try a higher number.");
    assert_eq!(gs.guess_attempts, 1);
    gs.update(GameMsg::GuessInputChanged("90".to_string()), &mut rng)
        .unwrap();
    gs.update(GameMsg::SubmitGuess, &mut rng).unwrap();
    assert_eq!(gs.guess_message, "Too high! Try a lower number.");
    assert_eq!(gs.guess_attempts, 2);
    assert!(!gs.guess_game_over);
}

#[test]
fn exact_guess_ends_the_game_with_counts_in_message() {
    let mut gs = fresh_game(42);
    let mut rng = Rng::new(0);
    gs.update(GameMsg::GuessInputChanged("41".to_string()), &mut rng)
        .unwrap();
    gs.update(GameMsg::SubmitGuess, &mut rng).unwrap();
    gs.update(GameMsg::GuessInputChanged("42".to_string()), &mut rng)
        .unwrap();
    gs.update(GameMsg::SubmitGuess, &mut rng).unwrap();
    assert!(gs.guess_game_over);
    assert_eq!(gs.guess_attempts, 2);
    assert_eq!(gs.guess_message, "Correct! You found 42 in 2 attempts!");
    assert_eq!(gs.guess_input, "");
}

#[test]
fn quick_pick_counts_as_valid_attempt() {
    let mut gs = fresh_game(50);
    let mut rng = Rng::new(0);
    gs.update(GameMsg::GuessNumber(25), &mut rng).unwrap();
    assert_eq!(gs.guess_attempts, 1);
    assert_eq!(gs.guess_message, "Too low! Try a higher number.");
    gs.update(GameMsg::GuessNumber(50), &mut rng).unwrap();
    assert!(gs.guess_game_over);
    assert_eq!(gs.guess_attempts, 2);
    assert_eq!(gs.guess_message, "Correct! You found 50 in 2 attempts!");
}

#[test]
fn finished_game_accepts_no_further_guesses() {
    let mut gs = fresh_game(50);
    let mut rng = Rng::new(0);
    gs.update(GameMsg::GuessNumber(50), &mut rng).unwrap();
    assert!(gs.guess_game_over);
    let message = gs.guess_message.clone();
    gs.update(GameMsg::GuessNumber(25), &mut rng).unwrap();
    assert_eq!(gs.guess_attempts, 1);
    assert_eq!(gs.guess_message, message);
    gs.update(GameMsg::GuessInputChanged("30".to_string()), &mut rng)
        .unwrap();
    gs.update(GameMsg::SubmitGuess, &mut rng).unwrap();
    assert_eq!(gs.guess_attempts, 1);
    assert_eq!(gs.guess_message, message);
}

#[test]
fn new_guess_game_resets_the_session() {
    let mut gs = fresh_game(50);
    let mut rng = Rng::new(0);
    gs.update(GameMsg::GuessNumber(50), &mut rng).unwrap();
    assert!(gs.guess_game_over);
    gs.update(GameMsg::NewGuessGame, &mut rng).unwrap();
    assert!(!gs.guess_game_over);
    assert_eq!(gs.guess_attempts, 0);
    assert_eq!(gs.guess_message, "Guess a number between 1 and 100!");
    assert_eq!(gs.guess_input, "");
    assert!(gs.guess_target >= 1 && gs.guess_target <= 100);
}

#[test]
fn boundary_guesses_are_accepted() {
    let mut gs = fresh_game(1);
    let mut rng = Rng::new(0);
    gs.update(GameMsg::GuessInputChanged("1".to_string()), &mut rng)
        .unwrap();
    gs.update(GameMsg::SubmitGuess, &mut rng).unwrap();
    assert!(gs.guess_game_over);
    assert_eq!(gs.guess_message, "Correct! You found 1 in 1 attempts!");

    let mut gs = fresh_game(100);
    gs.update(GameMsg::GuessInputChanged("100".to_string()), &mut rng)
        .unwrap();
    gs.update(GameMsg::SubmitGuess, &mut rng).unwrap();
    assert!(gs.guess_game_over);
    assert_eq!(gs.guess_message, "Correct! You found 100 in 1 attempts!");
}
