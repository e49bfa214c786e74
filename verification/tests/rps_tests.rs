use app_core::games::GameState;
use app_core::games::GameMsg;
use app_core::rng::Rng;

#[test]
fn rps_all_nine_pairs() {
    let win = "You win!";
    let lose = "Computer wins!";
    let tie = "It's a tie!";
    assert_eq!(GameState::determine_rps_winner("rock", "rock"), tie);
    assert_eq!(GameState::determine_rps_winner("rock", "paper"), lose);
    assert_eq!(GameState::determine_rps_winner("rock", "scissors"), win);
    assert_eq!(GameState::determine_rps_winner("paper", "rock"), win);
    assert_eq!(GameState::determine_rps_winner("paper", "paper"), tie);
    assert_eq!(GameState::determine_rps_winner("paper", "scissors"), lose);
    assert_eq!(GameState::determine_rps_winner("scissors", "rock"), lose);
    assert_eq!(GameState::determine_rps_winner("scissors", "paper"), win);
    assert_eq!(GameState::determine_rps_winner("scissors", "scissors"), tie);
}

#[test]
fn rps_unknown_choice_is_a_tie() {
    assert_eq!(GameState::determine_rps_winner("lizard", "rock"), "It's a tie!");
    assert_eq!(GameState::determine_rps_winner("", "scissors"), "It's a tie!");
}

#[test]
fn rps_computer_choice_is_one_of_three() {
    for seed in 0..50u64 {
        let mut rng = Rng::new(seed);
        let c = GameState::get_rps_computer_choice(&mut rng);
        assert!(c == "rock" || c == "paper" || c == "scissors");
    }
}

#[test]
fn rps_computer_choice_replays_with_the_seed() {
    let mut a = Rng::new(77);
    let mut b = Rng::new(77);
    for _ in 0..20 {
        assert_eq!(
            GameState::get_rps_computer_choice(&mut a),
            GameState::get_rps_computer_choice(&mut b)
        );
    }
}

#[test]
fn rps_tie_leaves_score_unchanged() {
    // Discover the computer's first choice for this seed, then replay the
    // same seed and mirror it.
    let mut probe = Rng::new(123);
    let mirrored = GameState::get_rps_computer_choice(&mut probe);

    let mut rng = Rng::new(99);
    let mut gs = GameState::new(&mut rng);
    let mut rng = Rng::new(123);
    gs.update(GameMsg::RockPaperScissorsPlay(mirrored.clone()), &mut rng)
        .unwrap();
    assert_eq!(gs.rps_score, (0, 0));
    assert_eq!(gs.rps_player_choice.as_deref(), Some(mirrored.as_str()));
    assert_eq!(gs.rps_computer_choice.as_deref(), Some(mirrored.as_str()));
    assert_eq!(gs.rps_result.as_deref(), Some("It's a tie!"));
}

#[test]
fn rps_win_increments_player_score_once() {
    let mut probe = Rng::new(5);
    let computer = GameState::get_rps_computer_choice(&mut probe);
    let beats = match computer.as_str() {
        "rock" => "paper",
        "paper" => "scissors",
        _ => "rock",
    };

    let mut rng = Rng::new(1);
    let mut gs = GameState::new(&mut rng);
    let mut rng = Rng::new(5);
    gs.update(GameMsg::RockPaperScissorsPlay(beats.to_string()), &mut rng)
        .unwrap();
    assert_eq!(gs.rps_score, (1, 0));
    assert_eq!(gs.rps_result.as_deref(), Some("You win!"));
}

#[test]
fn rps_score_never_exceeds_rounds_played() {
    let mut rng = Rng::new(2024);
    let mut gs = GameState::new(&mut rng);
    let choices = ["rock", "paper", "scissors"];
    let mut rounds = 0i32;
    for i in 0..60 {
        let before = gs.rps_score;
        gs.update(
            GameMsg::RockPaperScissorsPlay(choices[i % 3].to_string()),
            &mut rng,
        )
        .unwrap();
        rounds += 1;
        // Scores never decrease, and rise by at most one per round.
        assert!(gs.rps_score.0 >= before.0);
        assert!(gs.rps_score.1 >= before.1);
        assert!(gs.rps_score.0 + gs.rps_score.1 <= before.0 + before.1 + 1);
        assert!(gs.rps_score.0 + gs.rps_score.1 <= rounds);
    }
}
