use app_core::games::Card;
use app_core::games::GameError;
use app_core::games::GameMsg;
use app_core::games::GameState;
use app_core::rng::Rng;

fn symbols(cards: &[Card]) -> Vec<char> {
    cards.iter().map(|c| c.symbol).collect()
}

fn game_with_board(draws: &[usize]) -> GameState {
    let mut rng = Rng::new(11);
    let mut gs = GameState::new(&mut rng);
    gs.memory_cards = GameState::initialize_memory_cards(&draws.to_vec());
    gs
}

/// The draw sequence whose swaps lay the pairs out as
/// A B A C B D C D E F E F G H G H.
const LAID_OUT: [usize; 16] = [0, 2, 2, 4, 4, 6, 6, 7, 8, 10, 10, 11, 12, 14, 14, 15];

#[test]
fn deterministic_draws_produce_known_board() {
    let board = GameState::initialize_memory_cards(&LAID_OUT.to_vec());
    assert_eq!(
        symbols(&board),
        vec!['A', 'B', 'A', 'C', 'B', 'D', 'C', 'D', 'E', 'F', 'E', 'F', 'G', 'H', 'G', 'H']
    );
    assert!(board.iter().all(|c| !c.revealed && !c.matched));
}

#[test]
fn matching_pair_is_kept_and_counted() {
    // Selecting index 0 then index 2 (both A) yields one match in one
    // move, both cards matched, and the selection cleared.
    let mut gs = game_with_board(&LAID_OUT);
    gs.memory_card_click(0).unwrap();
    gs.memory_card_click(2).unwrap();
    assert_eq!(gs.memory_matches, 1);
    assert_eq!(gs.memory_moves, 1);
    assert!(gs.memory_cards[0].matched && gs.memory_cards[0].revealed);
    assert!(gs.memory_cards[2].matched && gs.memory_cards[2].revealed);
    assert_eq!(gs.memory_first_card, None);
    assert_eq!(gs.memory_second_card, None);
    assert!(!gs.memory_showing_pair);
    assert!(!gs.memory_game_over);
}

#[test]
fn started_board_has_eight_symbols_twice_each() {
    let mut rng = Rng::new(99);
    let mut gs = GameState::new(&mut rng);
    gs.update(GameMsg::StartMemoryGame, &mut rng).unwrap();
    assert_eq!(gs.memory_cards.len(), 16);
    for sym in ['A', 'B', 'C', 'D', 'E', 'F', 'G', 'H'] {
        let n = gs.memory_cards.iter().filter(|c| c.symbol == sym).count();
        assert_eq!(n, 2, "symbol {} must appear exactly twice", sym);
    }
    assert!(gs.memory_cards.iter().all(|c| !c.revealed && !c.matched));
    assert_eq!(gs.memory_moves, 0);
    assert_eq!(gs.memory_matches, 0);
    assert!(!gs.memory_game_over);
}

#[test]
fn same_seed_shuffles_the_same_board() {
    let mut rng_a = Rng::new(4242);
    let mut a = GameState::new(&mut rng_a);
    a.update(GameMsg::StartMemoryGame, &mut rng_a).unwrap();
    let mut rng_b = Rng::new(4242);
    let mut b = GameState::new(&mut rng_b);
    b.update(GameMsg::StartMemoryGame, &mut rng_b).unwrap();
    assert_eq!(symbols(&a.memory_cards), symbols(&b.memory_cards));
}

#[test]
fn selecting_same_index_twice_is_no_match() {
    let mut gs = game_with_board(&LAID_OUT);
    gs.memory_card_click(0).unwrap();
    assert_eq!(gs.memory_first_card, Some(0));
    gs.memory_card_click(0).unwrap();
    // The second click lands on an already revealed card: a defined
    // no-op, never a self-pairing.
    assert_eq!(gs.memory_first_card, Some(0));
    assert_eq!(gs.memory_second_card, None);
    assert_eq!(gs.memory_moves, 0);
    assert_eq!(gs.memory_matches, 0);
}

#[test]
fn mismatched_pair_stays_shown_until_next_click() {
    let mut gs = game_with_board(&LAID_OUT);
    gs.memory_card_click(0).unwrap(); // A
    gs.memory_card_click(1).unwrap(); // B
    assert_eq!(gs.memory_moves, 1);
    assert_eq!(gs.memory_matches, 0);
    assert!(gs.memory_showing_pair);
    assert!(gs.memory_cards[0].revealed && gs.memory_cards[1].revealed);
    // The pair hides lazily, on the next selection.
    gs.memory_card_click(3).unwrap(); // C
    assert!(!gs.memory_cards[0].revealed);
    assert!(!gs.memory_cards[1].revealed);
    assert!(gs.memory_cards[3].revealed);
    assert_eq!(gs.memory_first_card, Some(3));
    assert!(!gs.memory_showing_pair);
}

#[test]
fn explicit_hide_clears_a_shown_pair() {
    let mut gs = game_with_board(&LAID_OUT);
    gs.memory_card_click(0).unwrap();
    gs.memory_card_click(1).unwrap();
    gs.update(GameMsg::HideMemoryCards, &mut Rng::new(0)).unwrap();
    assert!(!gs.memory_cards[0].revealed);
    assert!(!gs.memory_cards[1].revealed);
    assert_eq!(gs.memory_first_card, None);
    assert_eq!(gs.memory_second_card, None);
    assert!(!gs.memory_showing_pair);
}

#[test]
fn hide_never_hides_matched_cards() {
    let mut gs = game_with_board(&LAID_OUT);
    gs.memory_card_click(0).unwrap();
    gs.memory_card_click(2).unwrap(); // matched A pair stays revealed
    gs.update(GameMsg::HideMemoryCards, &mut Rng::new(0)).unwrap();
    assert!(gs.memory_cards[0].revealed);
    assert!(gs.memory_cards[2].revealed);
}

#[test]
fn matching_all_eight_pairs_wins() {
    let mut gs = game_with_board(&LAID_OUT);
    let pairs = [(0, 2), (1, 4), (3, 6), (5, 7), (8, 10), (9, 11), (12, 14), (13, 15)];
    for (a, b) in pairs {
        gs.memory_card_click(a).unwrap();
        gs.memory_card_click(b).unwrap();
    }
    assert_eq!(gs.memory_matches, 8);
    assert_eq!(gs.memory_moves, 8);
    assert!(gs.memory_game_over);
    assert!(gs.memory_cards.iter().all(|c| c.matched && c.revealed));
    // Nothing can push the count past eight: every further click lands
    // on a matched card and is a no-op.
    gs.memory_card_click(0).unwrap();
    gs.memory_card_click(5).unwrap();
    assert_eq!(gs.memory_matches, 8);
    assert_eq!(gs.memory_moves, 8);
}

#[test]
fn click_without_board_is_rejected() {
    let mut rng = Rng::new(3);
    let mut gs = GameState::new(&mut rng);
    assert_eq!(
        gs.update(GameMsg::MemoryCardClick(0), &mut rng),
        Err(GameError::BoardNotStarted)
    );
}

#[test]
fn click_outside_board_is_rejected() {
    let mut gs = game_with_board(&LAID_OUT);
    assert_eq!(gs.memory_card_click(16), Err(GameError::CardOutOfRange));
    assert_eq!(gs.memory_card_click(usize::MAX), Err(GameError::CardOutOfRange));
    // The rejected click changed nothing.
    assert_eq!(gs.memory_moves, 0);
    assert!(gs.memory_cards.iter().all(|c| !c.revealed));
}

#[test]
fn reset_returns_to_idle() {
    let mut gs = game_with_board(&LAID_OUT);
    gs.memory_card_click(0).unwrap();
    gs.memory_card_click(2).unwrap();
    gs.update(GameMsg::ResetMemoryGame, &mut Rng::new(0)).unwrap();
    assert!(gs.memory_cards.is_empty());
    assert_eq!(gs.memory_moves, 0);
    assert_eq!(gs.memory_matches, 0);
    assert_eq!(gs.memory_first_card, None);
    assert_eq!(gs.memory_second_card, None);
    assert!(!gs.memory_showing_pair);
    assert!(!gs.memory_game_over);
}
