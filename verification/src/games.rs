//! The mini-game engines and their shared state: rock-paper-scissors,
//! number guessing, and memory-card matching. One `GameState` value owns
//! all three; `update` routes an intent message to the engine that owns it.

use vstd::prelude::*;
use vstd::string::StringExecFns;
use crate::parse::{parse_i32, parse_i32_spec};
use crate::rng::{Rng, rng_next, rng_state_after, rng_val};
use crate::strutil::{decimal, str_eq, u32_to_string};

verus! {

/// The intent messages the game engines consume.
#[derive(Debug, Clone, PartialEq)]
pub enum GameMsg {
    RockPaperScissorsPlay(String),
    GuessNumber(i32),
    GuessInputChanged(String),
    SubmitGuess,
    NewGuessGame,
    MemoryCardClick(usize),
    StartMemoryGame,
    ResetMemoryGame,
    HideMemoryCards,
}

/// How a message that asks the impossible is rejected.
#[derive(Debug, Clone, Copy, PartialEq, Eq, Structural)]
pub enum GameError {
    /// A card was selected while no board exists.
    BoardNotStarted,
    /// A card index lies outside the board.
    CardOutOfRange,
}

/// One memory card: a symbol, face up or down, and whether its pair has
/// been found.
#[derive(Debug, Clone, Copy, PartialEq, Eq, Structural)]
pub struct Card {
    pub symbol: char,
    pub revealed: bool,
    pub matched: bool,
}

/// The state of all three games.
#[derive(Debug)]
pub struct GameState {
    // Rock-paper-scissors
    pub rps_player_choice: Option<String>,
    pub rps_computer_choice: Option<String>,
    pub rps_result: Option<String>,
    /// (player wins, computer wins)
    pub rps_score: (i32, i32),
    // Number guessing
    pub guess_target: i32,
    pub guess_attempts: i32,
    pub guess_message: String,
    pub guess_game_over: bool,
    pub guess_input: String,
    // Memory cards
    pub memory_cards: Vec<Card>,
    pub memory_moves: i32,
    pub memory_matches: i32,
    pub memory_first_card: Option<usize>,
    pub memory_game_over: bool,
    pub memory_second_card: Option<usize>,
    pub memory_showing_pair: bool,
}

/// The mathematical model of `GameState`.
#[verifier::ext_equal]
pub struct GameModel {
    pub rps_player: Option<Seq<char>>,
    pub rps_computer: Option<Seq<char>>,
    pub rps_result: Option<Seq<char>>,
    pub player_wins: int,
    pub computer_wins: int,
    pub target: int,
    pub attempts: int,
    pub message: Seq<char>,
    pub guess_over: bool,
    pub input: Seq<char>,
    pub board: Seq<Card>,
    pub moves: int,
    pub matches: int,
    pub first: Option<int>,
    pub second: Option<int>,
    pub showing_pair: bool,
    pub memory_over: bool,
}

pub open spec fn view_opt_string(s: Option<String>) -> Option<Seq<char>> {
    match s {
        Some(v) => Some(v@),
        None => None,
    }
}

impl View for GameState {
    type V = GameModel;

    open spec fn view(&self) -> GameModel {
        GameModel {
            rps_player: view_opt_string(self.rps_player_choice),
            rps_computer: view_opt_string(self.rps_computer_choice),
            rps_result: view_opt_string(self.rps_result),
            player_wins: self.rps_score.0 as int,
            computer_wins: self.rps_score.1 as int,
            target: self.guess_target as int,
            attempts: self.guess_attempts as int,
            message: self.guess_message@,
            guess_over: self.guess_game_over,
            input: self.guess_input@,
            board: self.memory_cards@,
            moves: self.memory_moves as int,
            matches: self.memory_matches as int,
            first: match self.memory_first_card {
                Some(i) => Some(i as int),
                None => None,
            },
            second: match self.memory_second_card {
                Some(i) => Some(i as int),
                None => None,
            },
            showing_pair: self.memory_showing_pair,
            memory_over: self.memory_game_over,
        }
    }
}

// ------------------------------------------------------------------
// Rock-paper-scissors
// ------------------------------------------------------------------
/// A well-formed choice string.
pub open spec fn is_choice(s: Seq<char>) -> bool {
    s == "rock"@ || s == "paper"@ || s == "scissors"@
}

/// The choice drawn for the computer from a draw in `[0, 2]`.
pub open spec fn rps_choice_seq(k: int) -> Seq<char> {
    if k == 0 {
        "rock"@
    } else if k == 1 {
        "paper"@
    } else {
        "scissors"@
    }
}

/// The three pairs the player wins.
pub open spec fn rps_player_beats(p: Seq<char>, c: Seq<char>) -> bool {
    ||| (p == "rock"@ && c == "scissors"@)
    ||| (p == "paper"@ && c == "rock"@)
    ||| (p == "scissors"@ && c == "paper"@)
}

/// The three pairs the computer wins.
pub open spec fn rps_computer_beats(p: Seq<char>, c: Seq<char>) -> bool {
    ||| (p == "scissors"@ && c == "rock"@)
    ||| (p == "rock"@ && c == "paper"@)
    ||| (p == "paper"@ && c == "scissors"@)
}

/// The announced outcome of one round; every pair outside the two win
/// tables is a tie.
pub open spec fn rps_result_text(p: Seq<char>, c: Seq<char>) -> Seq<char> {
    if rps_player_beats(p, c) {
        "You win!"@
    } else if rps_computer_beats(p, c) {
        "Computer wins!"@
    } else {
        "It's a tie!"@
    }
}

/// One round of rock-paper-scissors: the round record is replaced
/// wholesale and the winner's score rises by exactly one.
pub open spec fn rps_play_model(g: GameModel, p: Seq<char>, c: Seq<char>) -> GameModel {
    GameModel {
        rps_player: Some(p),
        rps_computer: Some(c),
        rps_result: Some(rps_result_text(p, c)),
        player_wins: g.player_wins + if rps_player_beats(p, c) {
            1int
        } else {
            0int
        },
        computer_wins: g.computer_wins + if rps_computer_beats(p, c) {
            1int
        } else {
            0int
        },
        ..g
    }
}

/// The two win tables never overlap: no pair is both a player win and a
/// computer win.
pub proof fn lemma_rps_tables_disjoint(p: Seq<char>, c: Seq<char>)
    ensures
        !(rps_player_beats(p, c) && rps_computer_beats(p, c)),
{
    reveal_strlit("rock");
    reveal_strlit("paper");
    reveal_strlit("scissors");
    assert("rock"@.len() == 4);
    assert("paper"@.len() == 5);
    assert("scissors"@.len() == 8);
}

impl GameState {
    /// Decides one round: the fixed lookup over the nine choice pairs.
    pub fn determine_rps_winner(player: &str, computer: &str) -> (r: String)
        ensures
            r@ == rps_result_text(player@, computer@),
    {
        if (str_eq(player, "rock") && str_eq(computer, "scissors")) || (str_eq(player, "paper")
            && str_eq(computer, "rock")) || (str_eq(player, "scissors") && str_eq(
            computer,
            "paper",
        )) {
            String::from_str("You win!")
        } else if (str_eq(player, "scissors") && str_eq(computer, "rock")) || (str_eq(
            player,
            "rock",
        ) && str_eq(computer, "paper")) || (str_eq(player, "paper") && str_eq(
            computer,
            "scissors",
        )) {
            String::from_str("Computer wins!")
        } else {
            String::from_str("It's a tie!")
        }
    }

    /// Draws the computer's choice uniformly from the three options.
    pub fn get_rps_computer_choice(rng: &mut Rng) -> (r: String)
        ensures
            r@ == rps_choice_seq(rng_val(old(rng).state, 0, 2)),
            final(rng).state == rng_next(old(rng).state),
    {
        let index = rng.random_number(0, 2);
        if index == 0 {
            String::from_str("rock")
        } else if index == 1 {
            String::from_str("paper")
        } else {
            String::from_str("scissors")
        }
    }

    /// Plays one round against a freshly drawn computer choice.
    pub fn play_rps(&mut self, player_choice: String, rng: &mut Rng)
        requires
            old(self).rps_score.0 < i32::MAX,
            old(self).rps_score.1 < i32::MAX,
        ensures
            final(self)@ == rps_play_model(
                old(self)@,
                player_choice@,
                rps_choice_seq(rng_val(old(rng).state, 0, 2)),
            ),
            final(rng).state == rng_next(old(rng).state),
    {
        let computer_choice = Self::get_rps_computer_choice(rng);
        let result = Self::determine_rps_winner(player_choice.as_str(), computer_choice.as_str());
        let player_won = (str_eq(player_choice.as_str(), "rock") && str_eq(
            computer_choice.as_str(),
            "scissors",
        )) || (str_eq(player_choice.as_str(), "paper") && str_eq(computer_choice.as_str(), "rock"))
            || (str_eq(player_choice.as_str(), "scissors") && str_eq(
            computer_choice.as_str(),
            "paper",
        ));
        let computer_won = (str_eq(player_choice.as_str(), "scissors") && str_eq(
            computer_choice.as_str(),
            "rock",
        )) || (str_eq(player_choice.as_str(), "rock") && str_eq(computer_choice.as_str(), "paper"))
            || (str_eq(player_choice.as_str(), "paper") && str_eq(
            computer_choice.as_str(),
            "scissors",
        ));
        if player_won {
            self.rps_score.0 = self.rps_score.0 + 1;
        } else if computer_won {
            self.rps_score.1 = self.rps_score.1 + 1;
        }
        self.rps_player_choice = Some(player_choice);
        self.rps_computer_choice = Some(computer_choice);
        self.rps_result = Some(result);
        proof {
            lemma_rps_tables_disjoint(player_choice@, computer_choice@);
            assert(self@ =~~= rps_play_model(
                old(self)@,
                player_choice@,
                rps_choice_seq(rng_val(old(rng).state, 0, 2)),
            ));
        }
    }
}

// ------------------------------------------------------------------
// Number guessing
// ------------------------------------------------------------------
/// The opening prompt.
pub open spec fn prompt_msg() -> Seq<char> {
    "Guess a number between 1 and 100!"@
}

/// Announced when a valid guess lies strictly below the target.
pub open spec fn too_low_msg() -> Seq<char> {
    "Too low! Try a higher number."@
}

/// Announced when a valid guess lies strictly above the target.
pub open spec fn too_high_msg() -> Seq<char> {
    "Too high! Try a lower number."@
}

/// Announced when the input is not an integer at all.
pub open spec fn invalid_msg() -> Seq<char> {
    "Please enter a valid number!"@
}

/// Announced when the input is an integer outside [1, 100].
pub open spec fn out_of_range_msg() -> Seq<char> {
    "Please enter a number between 1 and 100!"@
}

/// Announced when the target is found, with the target and the attempt
/// count rendered in decimal.
pub open spec fn correct_msg(target: int, attempts: int) -> Seq<char> {
    "Correct! You found "@ + decimal(target) + " in "@ + decimal(attempts) + " attempts!"@
}

/// Well-formedness of the guessing session.
pub open spec fn guess_wf(g: GameModel) -> bool {
    &&& 1 <= g.target <= 100
    &&& 0 <= g.attempts
}

/// One validated guess: counts the attempt, clears the input buffer, and
/// announces one of the three outcomes; the game ends exactly on the
/// target.
pub open spec fn guess_apply_model(g: GameModel, n: int) -> GameModel {
    let attempts = g.attempts + 1;
    if n == g.target {
        GameModel {
            attempts: attempts,
            input: Seq::empty(),
            message: correct_msg(g.target, attempts),
            guess_over: true,
            ..g
        }
    } else if n < g.target {
        GameModel { attempts: attempts, input: Seq::empty(), message: too_low_msg(), ..g }
    } else {
        GameModel { attempts: attempts, input: Seq::empty(), message: too_high_msg(), ..g }
    }
}

/// A direct-value guess; once the game is over only a new game changes
/// the session.
pub open spec fn guess_number_model(g: GameModel, n: int) -> GameModel {
    if g.guess_over {
        g
    } else {
        guess_apply_model(g, n)
    }
}

/// A submitted free-text guess: parse failure or an out-of-range value
/// clears the input and sets an error message without counting an
/// attempt or touching the target.
pub open spec fn submit_model(g: GameModel) -> GameModel {
    if g.guess_over {
        g
    } else {
        match parse_i32_spec(g.input) {
            Some(n) => if 1 <= n <= 100 {
                guess_apply_model(g, n)
            } else {
                GameModel { input: Seq::empty(), message: out_of_range_msg(), ..g }
            },
            None => GameModel { input: Seq::empty(), message: invalid_msg(), ..g },
        }
    }
}

/// A fresh session around the freshly drawn target `t`.
pub open spec fn new_guess_model(g: GameModel, t: int) -> GameModel {
    GameModel {
        target: t,
        attempts: 0,
        message: prompt_msg(),
        guess_over: false,
        input: Seq::empty(),
        ..g
    }
}

/// The pending free-text input replaced by `v`.
pub open spec fn input_changed_model(g: GameModel, v: Seq<char>) -> GameModel {
    GameModel { input: v, ..g }
}

/// The winning announcement for a found target.
fn correct_message(target: i32, attempts: i32) -> (r: String)
    requires
        0 <= target,
        0 <= attempts,
    ensures
        r@ == correct_msg(target as int, attempts as int),
{
    let mut m = String::from_str("Correct! You found ");
    let t = u32_to_string(target as u32);
    m.append(t.as_str());
    m.append(" in ");
    let a = u32_to_string(attempts as u32);
    m.append(a.as_str());
    m.append(" attempts!");
    proof {
        assert(m@ =~= correct_msg(target as int, attempts as int));
    }
    m
}

impl GameState {
    /// Replaces the pending free-text input.
    pub fn set_guess_input(&mut self, value: String)
        ensures
            final(self)@ == input_changed_model(old(self)@, value@),
    {
        self.guess_input = value;
        proof {
            assert(self@ =~~= input_changed_model(old(self)@, self.guess_input@));
        }
    }

    /// Applies a direct-value guess; quick-pick values skip text parsing
    /// but follow the same comparison logic and always count as one
    /// attempt.
    pub fn guess_number(&mut self, guess: i32)
        requires
            guess_wf(old(self)@),
            old(self).guess_attempts < i32::MAX,
        ensures
            final(self)@ == guess_number_model(old(self)@, guess as int),
            guess_wf(final(self)@),
    {
        if self.guess_game_over {
            return ;
        }
        self.guess_attempts = self.guess_attempts + 1;
        self.guess_input = String::new();
        if guess == self.guess_target {
            self.guess_message = correct_message(self.guess_target, self.guess_attempts);
            self.guess_game_over = true;
        } else if guess < self.guess_target {
            self.guess_message = String::from_str("Too low! Try a higher number.");
        } else {
            self.guess_message = String::from_str("Too high! Try a lower number.");
        }
        proof {
            assert(self@ =~~= guess_number_model(old(self)@, guess as int));
        }
    }

    /// Parses and applies the pending free-text guess.
    pub fn submit_guess(&mut self)
        requires
            guess_wf(old(self)@),
            old(self).guess_attempts < i32::MAX,
        ensures
            final(self)@ == submit_model(old(self)@),
            guess_wf(final(self)@),
    {
        if self.guess_game_over {
            return ;
        }
        match parse_i32(self.guess_input.as_str()) {
            Some(num) => {
                if num >= 1 && num <= 100 {
                    self.guess_number(num);
                } else {
                    self.guess_input = String::new();
                    self.guess_message = String::from_str(
                        "Please enter a number between 1 and 100!",
                    );
                }
            },
            None => {
                self.guess_input = String::new();
                self.guess_message = String::from_str("Please enter a valid number!");
            },
        }
        proof {
            assert(self@ =~~= submit_model(old(self)@));
        }
    }

    /// Starts a fresh guessing session with a newly drawn target.
    pub fn new_guess_game(&mut self, rng: &mut Rng)
        ensures
            final(self)@ == new_guess_model(old(self)@, rng_val(old(rng).state, 1, 100)),
            final(rng).state == rng_next(old(rng).state),
            guess_wf(final(self)@),
    {
        self.guess_target = rng.random_number(1, 100);
        self.guess_attempts = 0;
        self.guess_message = String::from_str("Guess a number between 1 and 100!");
        self.guess_game_over = false;
        self.guess_input = String::new();
        proof {
            assert(self@ =~~= new_guess_model(old(self)@, rng_val(old(rng).state, 1, 100)));
        }
    }
}

// ------------------------------------------------------------------
// Memory cards
// ------------------------------------------------------------------
/// The symbol of the `k`-th pair.
pub open spec fn symbol_char(k: int) -> char {
    if k == 0 {
        'A'
    } else if k == 1 {
        'B'
    } else if k == 2 {
        'C'
    } else if k == 3 {
        'D'
    } else if k == 4 {
        'E'
    } else if k == 5 {
        'F'
    } else if k == 6 {
        'G'
    } else {
        'H'
    }
}

/// A face-down, unmatched card of the `k`-th pair.
pub open spec fn card_of(k: int) -> Card {
    Card { symbol: symbol_char(k), revealed: false, matched: false }
}

/// The unshuffled board: eight symbols, each twice, in order.
pub open spec fn fresh_board() -> Seq<Card> {
    Seq::new(16, |i: int| card_of(i / 2))
}

/// The sequence with positions `i` and `j` exchanged.
pub open spec fn swap_seq<T>(s: Seq<T>, i: int, j: int) -> Seq<T>
    recommends
        0 <= i < s.len(),
        0 <= j < s.len(),
{
    s.update(i, s[j]).update(j, s[i])
}

/// The board after the first `n` shuffle swaps: position `k` is swapped
/// with position `draws[k]`, in order.
pub open spec fn shuffle_step(s: Seq<Card>, draws: Seq<usize>, n: int) -> Seq<Card>
    decreases n,
{
    if n <= 0 {
        s
    } else {
        swap_seq(shuffle_step(s, draws, n - 1), n - 1, draws[n - 1] as int)
    }
}

/// The freshly shuffled board for one draw sequence.
pub open spec fn shuffled_board(draws: Seq<usize>) -> Seq<Card> {
    shuffle_step(fresh_board(), draws, 16)
}

/// How many cards of the board are matched.
pub open spec fn matched_count(b: Seq<Card>) -> int
    decreases b.len(),
{
    if b.len() == 0 {
        0
    } else {
        matched_count(b.drop_last()) + if b.last().matched {
            1int
        } else {
            0int
        }
    }
}

/// Well-formedness of the memory session. A board exists with sixteen
/// cards or not at all; the match counter mirrors the matched cards; a
/// recorded selection is a revealed, unmatched card; and the game is over
/// exactly when all eight pairs are found.
pub open spec fn memory_wf(g: GameModel) -> bool {
    &&& (g.board.len() == 16 || g.board.len() == 0)
    &&& (g.board.len() == 0 ==> g.first is None && g.second is None && !g.showing_pair
        && g.matches == 0 && !g.memory_over)
    &&& 2 * g.matches == matched_count(g.board)
    &&& 0 <= g.moves
    &&& (match g.first {
        Some(i) => 0 <= i < g.board.len() && g.board[i].revealed && !g.board[i].matched,
        None => true,
    })
    &&& (match g.second {
        Some(j) => 0 <= j < g.board.len() && g.board[j].revealed && !g.board[j].matched,
        None => true,
    })
    &&& (g.second is Some <==> g.showing_pair)
    &&& (g.second is Some ==> g.first is Some && g.first != g.second)
    &&& (forall|i: int|
        0 <= i < g.board.len() ==> (#[trigger] g.board[i].matched ==> g.board[i].revealed))
    &&& (g.memory_over <==> g.matches == 8)
}

/// Hiding a still-shown non-matching pair: both cards turn face down and
/// the selection clears. Matched cards are never hidden.
pub open spec fn hide_model(g: GameModel) -> GameModel {
    let b = match (g.first, g.second) {
        (Some(fi), Some(si)) => if !g.board[fi].matched && !g.board[si].matched {
            g.board.update(fi, Card { revealed: false, ..g.board[fi] }).update(
                si,
                Card { revealed: false, ..g.board[si] },
            )
        } else {
            g.board
        },
        _ => g.board,
    };
    GameModel { board: b, first: None, second: None, showing_pair: false, ..g }
}

/// Selecting the card at `i`: a no-op on a revealed or matched card;
/// otherwise any still-shown pair is hidden first, the card is revealed,
/// and a second selection of a turn is evaluated as a pair.
pub open spec fn select_model(g: GameModel, i: int) -> GameModel
    recommends
        0 <= i < g.board.len(),
{
    if g.board[i].revealed || g.board[i].matched {
        g
    } else {
        let g1 = if g.showing_pair {
            hide_model(g)
        } else {
            g
        };
        let b2 = g1.board.update(i, Card { revealed: true, ..g1.board[i] });
        match g1.first {
            None => GameModel { board: b2, first: Some(i), ..g1 },
            Some(fi) => {
                let moves = g1.moves + 1;
                if g1.board[fi].symbol == g1.board[i].symbol {
                    let b3 = b2.update(fi, Card { matched: true, ..b2[fi] }).update(
                        i,
                        Card { matched: true, ..b2[i] },
                    );
                    let matches = g1.matches + 1;
                    GameModel {
                        board: b3,
                        moves: moves,
                        matches: matches,
                        first: None,
                        second: None,
                        showing_pair: false,
                        memory_over: g1.memory_over || matches >= 8,
                        ..g1
                    }
                } else {
                    GameModel {
                        board: b2,
                        moves: moves,
                        second: Some(i),
                        showing_pair: true,
                        ..g1
                    }
                }
            },
        }
    }
}

/// A fresh sixteen-card game around one shuffled board.
pub open spec fn start_model(g: GameModel, draws: Seq<usize>) -> GameModel {
    GameModel {
        board: shuffled_board(draws),
        moves: 0,
        matches: 0,
        first: None,
        second: None,
        showing_pair: false,
        memory_over: false,
        ..g
    }
}

/// Back to the idle state: no board, all counters cleared.
pub open spec fn reset_model(g: GameModel) -> GameModel {
    GameModel {
        board: Seq::empty(),
        moves: 0,
        matches: 0,
        first: None,
        second: None,
        showing_pair: false,
        memory_over: false,
        ..g
    }
}

proof fn lemma_matched_count_update(b: Seq<Card>, i: int, c: Card)
    requires
        0 <= i < b.len(),
    ensures
        matched_count(b.update(i, c)) == matched_count(b) - (if b[i].matched {
            1int
        } else {
            0int
        }) + (if c.matched {
            1int
        } else {
            0int
        }),
    decreases b.len(),
{
    let b2 = b.update(i, c);
    if i == b.len() - 1 {
        assert(b2.drop_last() =~= b.drop_last());
    } else {
        assert(b2.drop_last() =~= b.drop_last().update(i, c));
        assert(b2.last() == b.last());
        lemma_matched_count_update(b.drop_last(), i, c);
    }
}

proof fn lemma_matched_count_bounds(b: Seq<Card>)
    ensures
        0 <= matched_count(b) <= b.len(),
    decreases b.len(),
{
    if b.len() > 0 {
        lemma_matched_count_bounds(b.drop_last());
    }
}

proof fn lemma_matched_count_below(b: Seq<Card>, k: int)
    requires
        0 <= k < b.len(),
        !b[k].matched,
    ensures
        matched_count(b) < b.len(),
    decreases b.len(),
{
    lemma_matched_count_bounds(b.drop_last());
    if k < b.len() - 1 {
        lemma_matched_count_below(b.drop_last(), k);
    }
}

proof fn lemma_matched_count_zero(b: Seq<Card>)
    requires
        forall|i: int| 0 <= i < b.len() ==> !(#[trigger] b[i]).matched,
    ensures
        matched_count(b) == 0,
    decreases b.len(),
{
    if b.len() > 0 {
        assert(forall|i: int| 0 <= i < b.drop_last().len() ==> b.drop_last()[i] == b[i]);
        lemma_matched_count_zero(b.drop_last());
    }
}

/// Hiding a pair preserves well-formedness and changes no match.
pub proof fn lemma_hide_preserves_wf(g: GameModel)
    requires
        memory_wf(g),
    ensures
        memory_wf(hide_model(g)),
        hide_model(g).matches == g.matches,
        hide_model(g).board.len() == g.board.len(),
        forall|k: int|
            0 <= k < g.board.len() ==> (#[trigger] hide_model(g).board[k]).matched
                == g.board[k].matched,
{
    let h = hide_model(g);
    match (g.first, g.second) {
        (Some(fi), Some(si)) => {
            if !g.board[fi].matched && !g.board[si].matched {
                let b1 = g.board.update(fi, Card { revealed: false, ..g.board[fi] });
                lemma_matched_count_update(g.board, fi, Card { revealed: false, ..g.board[fi] });
                lemma_matched_count_update(b1, si, Card { revealed: false, ..b1[si] });
                assert(h.board == b1.update(si, Card { revealed: false, ..g.board[si] }));
                assert(matched_count(h.board) == matched_count(g.board));
            }
        },
        _ => {},
    }
}

/// Law: selecting any card of a well-formed board keeps the board
/// well-formed; the match count can never pass eight pairs, and the game
/// is over exactly when all eight are found.
pub proof fn lemma_select_preserves_wf(g: GameModel, i: int)
    requires
        memory_wf(g),
        0 <= i < g.board.len(),
    ensures
        memory_wf(select_model(g, i)),
        select_model(g, i).matches <= 8,
        select_model(g, i).memory_over <==> select_model(g, i).matches == 8,
        select_model(g, i).board.len() == g.board.len(),
{
    let s = select_model(g, i);
    if g.board[i].revealed || g.board[i].matched {
        lemma_matched_count_bounds(g.board);
    } else {
        lemma_matched_count_below(g.board, i);
        // matched_count < 16, so fewer than eight pairs are matched and
        // the game cannot already be over.
        let g1 = if g.showing_pair {
            hide_model(g)
        } else {
            g
        };
        if g.showing_pair {
            lemma_hide_preserves_wf(g);
        }
        assert(g1.board[i] == g.board[i]);
        let c2 = Card { revealed: true, ..g1.board[i] };
        let b2 = g1.board.update(i, c2);
        lemma_matched_count_update(g1.board, i, c2);
        match g1.first {
            None => {},
            Some(fi) => {
                assert(fi != i);
                if g1.board[fi].symbol == g1.board[i].symbol {
                    let cf = Card { matched: true, ..b2[fi] };
                    let b3a = b2.update(fi, cf);
                    let ci = Card { matched: true, ..b3a[i] };
                    lemma_matched_count_update(b2, fi, cf);
                    lemma_matched_count_update(b3a, i, ci);
                    assert(s.board == b3a.update(i, Card { matched: true, ..b2[i] }));
                    assert(matched_count(s.board) == matched_count(g1.board) + 2);
                } else {
                }
            },
        }
    }
}

impl GameState {
    /// Builds the shuffled sixteen-card board: eight symbols pushed in
    /// pairs, then one swap per position against the given draws.
    pub fn initialize_memory_cards(draws: &Vec<usize>) -> (r: Vec<Card>)
        requires
            draws@.len() == 16,
            forall|k: int| 0 <= k < 16 ==> (#[trigger] draws@[k]) < 16,
        ensures
            r@ == shuffled_board(draws@),
    {
        let mut cards: Vec<Card> = Vec::new();
        let mut s: usize = 0;
        while s < 8
            invariant
                0 <= s <= 8,
                cards@ =~= fresh_board().take(2 * s as int),
            decreases 8 - s,
        {
            let c = symbol_char_exec(s);
            cards.push(Card { symbol: c, revealed: false, matched: false });
            cards.push(Card { symbol: c, revealed: false, matched: false });
            proof {
                assert(cards@ =~= fresh_board().take(2 * (s + 1) as int));
            }
            s = s + 1;
        }
        proof {
            assert(cards@ =~= fresh_board());
        }
        let mut i: usize = 0;
        while i < 16
            invariant
                0 <= i <= 16,
                cards@.len() == 16,
                cards@ == shuffle_step(fresh_board(), draws@, i as int),
                draws@.len() == 16,
                forall|k: int| 0 <= k < 16 ==> (#[trigger] draws@[k]) < 16,
            decreases 16 - i,
        {
            let j: usize = draws[i];
            let a = cards[i];
            let b = cards[j];
            cards[i] = b;
            cards[j] = a;
            proof {
                assert(cards@ =~= shuffle_step(fresh_board(), draws@, i + 1));
            }
            i = i + 1;
        }
        cards
    }
}

/// The sixteen shuffle draws produced from generator state `s`: the
/// `k`-th draw is taken uniformly from the remaining suffix `[k, 15]`,
/// the standard unbiased shuffle.
pub open spec fn board_draws(s: u64) -> Seq<usize> {
    Seq::new(16, |k: int| rng_val(rng_state_after(s, k), k, 15) as usize)
}

/// All games in their initial state around the freshly drawn guessing
/// target `t`.
pub open spec fn initial_model(t: int) -> GameModel {
    GameModel {
        rps_player: None,
        rps_computer: None,
        rps_result: None,
        player_wins: 0,
        computer_wins: 0,
        target: t,
        attempts: 0,
        message: prompt_msg(),
        guess_over: false,
        input: Seq::empty(),
        board: Seq::empty(),
        moves: 0,
        matches: 0,
        first: None,
        second: None,
        showing_pair: false,
        memory_over: false,
    }
}

/// Well-formedness of the whole game state.
pub open spec fn wf(g: GameModel) -> bool {
    guess_wf(g) && memory_wf(g)
}

impl GameState {
    /// A fresh game state: empty round record, a newly drawn guessing
    /// target, and no memory board.
    pub fn new(rng: &mut Rng) -> (r: GameState)
        ensures
            r@ == initial_model(rng_val(old(rng).state, 1, 100)),
            final(rng).state == rng_next(old(rng).state),
            wf(r@),
    {
        let target = rng.random_number(1, 100);
        let r = GameState {
            rps_player_choice: None,
            rps_computer_choice: None,
            rps_result: None,
            rps_score: (0, 0),
            guess_target: target,
            guess_attempts: 0,
            guess_message: String::from_str("Guess a number between 1 and 100!"),
            guess_game_over: false,
            guess_input: String::new(),
            memory_cards: Vec::new(),
            memory_moves: 0,
            memory_matches: 0,
            memory_first_card: None,
            memory_game_over: false,
            memory_second_card: None,
            memory_showing_pair: false,
        };
        proof {
            assert(r@ =~~= initial_model(rng_val(old(rng).state, 1, 100)));
        }
        r
    }

    /// Starts a fresh memory game on a newly shuffled board.
    pub fn start_memory_game(&mut self, rng: &mut Rng)
        ensures
            final(self)@ == start_model(old(self)@, board_draws(old(rng).state)),
            final(rng).state == rng_state_after(old(rng).state, 16),
            memory_wf(final(self)@),
    {
        let ghost s0: u64 = rng.state;
        let mut draws: Vec<usize> = Vec::new();
        let mut k: usize = 0;
        while k < 16
            invariant
                0 <= k <= 16,
                rng.state == rng_state_after(s0, k as int),
                draws@ =~= board_draws(s0).take(k as int),
                forall|j: int| 0 <= j < k ==> (#[trigger] draws@[j]) < 16,
            decreases 16 - k,
        {
            let d = rng.random_number(k as i32, 15);
            draws.push(d as usize);
            proof {
                assert(draws@ =~= board_draws(s0).take(k + 1));
            }
            k = k + 1;
        }
        proof {
            assert(draws@ =~= board_draws(s0));
        }
        let cards = Self::initialize_memory_cards(&draws);
        proof {
            lemma_board_all_fresh(draws@);
            lemma_matched_count_zero(cards@);
        }
        self.memory_cards = cards;
        self.memory_moves = 0;
        self.memory_matches = 0;
        self.memory_first_card = None;
        self.memory_game_over = false;
        self.memory_second_card = None;
        self.memory_showing_pair = false;
        proof {
            assert(self@ =~~= start_model(old(self)@, board_draws(s0)));
        }
    }

    /// Selects the card at `index`: rejected with a typed error while no
    /// board exists or when the index lies outside it, a no-op on a
    /// revealed or matched card, and otherwise one step of the pair
    /// logic.
    pub fn memory_card_click(&mut self, index: usize) -> (r: Result<(), GameError>)
        requires
            memory_wf(old(self)@),
            old(self).memory_moves < i32::MAX,
        ensures
            memory_wf(final(self)@),
            old(self).memory_cards@.len() == 0 ==> r == Err::<(), GameError>(
                GameError::BoardNotStarted,
            ) && final(self)@ == old(self)@,
            old(self).memory_cards@.len() > 0 && index >= old(self).memory_cards@.len() ==> r
                == Err::<(), GameError>(GameError::CardOutOfRange) && final(self)@ == old(self)@,
            index < old(self).memory_cards@.len() ==> r == Ok::<(), GameError>(()) && final(self)@
                == select_model(old(self)@, index as int),
    {
        if self.memory_cards.len() == 0 {
            return Err(GameError::BoardNotStarted);
        }
        if index >= self.memory_cards.len() {
            return Err(GameError::CardOutOfRange);
        }
        proof {
            lemma_select_preserves_wf(old(self)@, index as int);
        }
        let card = self.memory_cards[index];
        if card.revealed || card.matched {
            // Selecting an already face-up or matched card is a defined
            // no-op.
            return Ok(());
        }
        if self.memory_showing_pair {
            self.hide_memory_cards();
        }
        let c0 = self.memory_cards[index];
        self.memory_cards[index] = Card { symbol: c0.symbol, revealed: true, matched: c0.matched };
        match self.memory_first_card {
            None => {
                self.memory_first_card = Some(index);
            },
            Some(first_index) => {
                self.memory_second_card = Some(index);
                self.memory_moves = self.memory_moves + 1;
                self.memory_showing_pair = true;
                if self.memory_cards[first_index].symbol == self.memory_cards[index].symbol {
                    let cf = self.memory_cards[first_index];
                    self.memory_cards[first_index] = Card {
                        symbol: cf.symbol,
                        revealed: cf.revealed,
                        matched: true,
                    };
                    let ci = self.memory_cards[index];
                    self.memory_cards[index] = Card {
                        symbol: ci.symbol,
                        revealed: ci.revealed,
                        matched: true,
                    };
                    self.memory_matches = self.memory_matches + 1;
                    self.memory_first_card = None;
                    self.memory_second_card = None;
                    self.memory_showing_pair = false;
                    if self.memory_matches >= 8 {
                        self.memory_game_over = true;
                    }
                }
            },
        }
        proof {
            assert(self@ =~~= select_model(old(self)@, index as int));
        }
        Ok(())
    }

    /// Hides a still-shown non-matching pair without selecting a new
    /// card.
    pub fn hide_memory_cards(&mut self)
        requires
            memory_wf(old(self)@),
        ensures
            final(self)@ == hide_model(old(self)@),
            memory_wf(final(self)@),
    {
        proof {
            lemma_hide_preserves_wf(old(self)@);
        }
        match (self.memory_first_card, self.memory_second_card) {
            (Some(first_index), Some(second_index)) => {
                if !self.memory_cards[first_index].matched
                    && !self.memory_cards[second_index].matched {
                    let cf = self.memory_cards[first_index];
                    self.memory_cards[first_index] = Card {
                        symbol: cf.symbol,
                        revealed: false,
                        matched: cf.matched,
                    };
                    let cs = self.memory_cards[second_index];
                    self.memory_cards[second_index] = Card {
                        symbol: cs.symbol,
                        revealed: false,
                        matched: cs.matched,
                    };
                }
            },
            _ => {},
        }
        self.memory_first_card = None;
        self.memory_second_card = None;
        self.memory_showing_pair = false;
        proof {
            assert(self@ =~~= hide_model(old(self)@));
        }
    }

    /// Clears the board entirely, back to the idle state.
    pub fn reset_memory_game(&mut self)
        ensures
            final(self)@ == reset_model(old(self)@),
            memory_wf(final(self)@),
    {
        self.memory_cards = Vec::new();
        self.memory_moves = 0;
        self.memory_matches = 0;
        self.memory_first_card = None;
        self.memory_game_over = false;
        self.memory_second_card = None;
        self.memory_showing_pair = false;
        proof {
            assert(self@ =~~= reset_model(old(self)@));
        }
    }
}

/// Every card of a freshly shuffled board is face down and unmatched.
proof fn lemma_board_all_fresh(draws: Seq<usize>)
    requires
        draws.len() == 16,
        forall|k: int| 0 <= k < 16 ==> (#[trigger] draws[k]) < 16,
    ensures
        shuffled_board(draws).len() == 16,
        forall|i: int|
            0 <= i < 16 ==> !(#[trigger] shuffled_board(draws)[i]).revealed && !shuffled_board(
                draws,
            )[i].matched,
{
    lemma_shuffle_step_fresh(draws, 16);
}

/// Flags survive any number of shuffle swaps of the fresh board.
proof fn lemma_shuffle_step_fresh(draws: Seq<usize>, n: int)
    requires
        draws.len() == 16,
        forall|k: int| 0 <= k < 16 ==> (#[trigger] draws[k]) < 16,
        0 <= n <= 16,
    ensures
        shuffle_step(fresh_board(), draws, n).len() == 16,
        forall|i: int|
            0 <= i < 16 ==> !(#[trigger] shuffle_step(fresh_board(), draws, n)[i]).revealed
                && !shuffle_step(fresh_board(), draws, n)[i].matched,
    decreases n,
{
    if n > 0 {
        lemma_shuffle_step_fresh(draws, n - 1);
    }
}

/// The state every game message leads to, as a function of the state,
/// the message, and the generator state `s` at the moment of dispatch. A
/// card selection that the engine rejects leaves the state untouched.
pub open spec fn update_model(g: GameModel, msg: GameMsg, s: u64) -> GameModel {
    match msg {
        GameMsg::RockPaperScissorsPlay(p) => rps_play_model(g, p@, rps_choice_seq(rng_val(s, 0, 2))),
        GameMsg::GuessNumber(n) => guess_number_model(g, n as int),
        GameMsg::GuessInputChanged(v) => input_changed_model(g, v@),
        GameMsg::SubmitGuess => submit_model(g),
        GameMsg::NewGuessGame => new_guess_model(g, rng_val(s, 1, 100)),
        GameMsg::StartMemoryGame => start_model(g, board_draws(s)),
        GameMsg::MemoryCardClick(i) => if g.board.len() == 0 || i >= g.board.len() {
            g
        } else {
            select_model(g, i as int)
        },
        GameMsg::HideMemoryCards => hide_model(g),
        GameMsg::ResetMemoryGame => reset_model(g),
    }
}

/// The generator state after dispatching one game message.
pub open spec fn update_rng_model(s: u64, msg: GameMsg) -> u64 {
    match msg {
        GameMsg::RockPaperScissorsPlay(_) => rng_next(s),
        GameMsg::NewGuessGame => rng_next(s),
        GameMsg::StartMemoryGame => rng_state_after(s, 16),
        _ => s,
    }
}

/// Which game messages are rejected, and how: a card selection without
/// a board or outside it; everything else is accepted.
pub open spec fn update_result_model(g: GameModel, msg: GameMsg) -> Result<(), GameError> {
    match msg {
        GameMsg::MemoryCardClick(i) => if g.board.len() == 0 {
            Err(GameError::BoardNotStarted)
        } else if i >= g.board.len() {
            Err(GameError::CardOutOfRange)
        } else {
            Ok(())
        },
        _ => Ok(()),
    }
}

impl GameState {
    /// Routes one intent message to the engine that owns it. No engine
    /// calls another; only this dispatcher sequences them.
    pub fn update(&mut self, msg: GameMsg, rng: &mut Rng) -> (r: Result<(), GameError>)
        requires
            wf(old(self)@),
            old(self).rps_score.0 < i32::MAX,
            old(self).rps_score.1 < i32::MAX,
            old(self).guess_attempts < i32::MAX,
            old(self).memory_moves < i32::MAX,
        ensures
            wf(final(self)@),
            r == update_result_model(old(self)@, msg),
            r is Ok ==> final(self)@ == update_model(old(self)@, msg, old(rng).state),
            r is Err ==> final(self)@ == old(self)@,
            final(rng).state == update_rng_model(old(rng).state, msg),
    {
        match msg {
            GameMsg::RockPaperScissorsPlay(player_choice) => {
                self.play_rps(player_choice, rng);
                Ok(())
            },
            GameMsg::GuessInputChanged(value) => {
                self.set_guess_input(value);
                Ok(())
            },
            GameMsg::SubmitGuess => {
                self.submit_guess();
                Ok(())
            },
            GameMsg::GuessNumber(guess) => {
                self.guess_number(guess);
                Ok(())
            },
            GameMsg::NewGuessGame => {
                self.new_guess_game(rng);
                Ok(())
            },
            GameMsg::StartMemoryGame => {
                self.start_memory_game(rng);
                Ok(())
            },
            GameMsg::MemoryCardClick(index) => self.memory_card_click(index),
            GameMsg::HideMemoryCards => {
                self.hide_memory_cards();
                Ok(())
            },
            GameMsg::ResetMemoryGame => {
                self.reset_memory_game();
                Ok(())
            },
        }
    }
}

// ------------------------------------------------------------------
// Laws
// ------------------------------------------------------------------
/// Law: for every pair of valid choices the round has exactly one of the
/// three outcomes, and the pair ties exactly when the choices are equal.
pub proof fn lemma_rps_outcome_exhaustive(p: Seq<char>, c: Seq<char>)
    requires
        is_choice(p),
        is_choice(c),
    ensures
        rps_result_text(p, c) == "You win!"@ || rps_result_text(p, c) == "Computer wins!"@
            || rps_result_text(p, c) == "It's a tie!"@,
        rps_result_text(p, c) == "You win!"@ <==> rps_player_beats(p, c),
        rps_result_text(p, c) == "Computer wins!"@ <==> rps_computer_beats(p, c),
        rps_result_text(p, c) == "It's a tie!"@ <==> p == c,
{
    reveal_strlit("rock");
    reveal_strlit("paper");
    reveal_strlit("scissors");
    reveal_strlit("You win!");
    reveal_strlit("Computer wins!");
    reveal_strlit("It's a tie!");
    assert("rock"@.len() == 4);
    assert("paper"@.len() == 5);
    assert("scissors"@.len() == 8);
    assert("You win!"@.len() == 8);
    assert("Computer wins!"@.len() == 14);
    assert("It's a tie!"@.len() == 11);
    assert("You win!"@[0] == 'Y' && "scissors"@[0] == 's');
}

/// The state after a whole sequence of rounds, each against the recorded
/// computer choice.
pub open spec fn rps_fold(g: GameModel, plays: Seq<(Seq<char>, Seq<char>)>) -> GameModel
    decreases plays.len(),
{
    if plays.len() == 0 {
        g
    } else {
        rps_play_model(rps_fold(g, plays.drop_last()), plays.last().0, plays.last().1)
    }
}

/// Law: across any sequence of rounds the two score counters never
/// decrease, and together they rise by at most one per round, so the
/// wins and losses can never outnumber the rounds played.
pub proof fn lemma_score_invariant(g: GameModel, plays: Seq<(Seq<char>, Seq<char>)>)
    ensures
        rps_fold(g, plays).player_wins >= g.player_wins,
        rps_fold(g, plays).computer_wins >= g.computer_wins,
        rps_fold(g, plays).player_wins + rps_fold(g, plays).computer_wins <= g.player_wins
            + g.computer_wins + plays.len(),
    decreases plays.len(),
{
    if plays.len() > 0 {
        lemma_score_invariant(g, plays.drop_last());
        lemma_rps_tables_disjoint(plays.last().0, plays.last().1);
    }
}

/// Law: a validated guess ends the game exactly when it equals the
/// target and raises the attempt count by exactly one; rejected input
/// raises it by zero and leaves the target unchanged.
pub proof fn lemma_guess_rules(g: GameModel, n: int)
    requires
        !g.guess_over,
    ensures
        guess_apply_model(g, n).guess_over <==> n == g.target,
        guess_apply_model(g, n).attempts == g.attempts + 1,
        guess_apply_model(g, n).target == g.target,
        parse_i32_spec(g.input) is None ==> submit_model(g).attempts == g.attempts
            && submit_model(g).target == g.target && submit_model(g).message == invalid_msg(),
        forall|v: int|
            parse_i32_spec(g.input) == Some(v) && !(1 <= v <= 100) ==> submit_model(g).attempts
                == g.attempts && submit_model(g).target == g.target && submit_model(g).message
                == out_of_range_msg(),
{
}

/// Law: selecting the index already recorded as the first pick of the
/// turn changes nothing, so a card can never be paired with itself.
pub proof fn lemma_no_self_pairing(g: GameModel, i: int)
    requires
        memory_wf(g),
        g.first == Some(i),
    ensures
        select_model(g, i) == g,
{
}

/// The state after a whole sequence of card selections.
pub open spec fn select_fold(g: GameModel, picks: Seq<int>) -> GameModel
    decreases picks.len(),
{
    if picks.len() == 0 {
        g
    } else {
        select_model(select_fold(g, picks.drop_last()), picks.last())
    }
}

/// Law: after any sequence of in-range selections on a well-formed
/// board, the state is still well-formed, the match count never exceeds
/// the eight pairs, and the game is over exactly when all eight are
/// found - so a run that matches every pair always ends with
/// `memory_over`, and none can push `matches` past eight.
pub proof fn lemma_selections_invariant(g: GameModel, picks: Seq<int>)
    requires
        memory_wf(g),
        forall|k: int| 0 <= k < picks.len() ==> 0 <= #[trigger] picks[k] < g.board.len(),
    ensures
        memory_wf(select_fold(g, picks)),
        select_fold(g, picks).matches <= 8,
        select_fold(g, picks).memory_over <==> select_fold(g, picks).matches == 8,
        select_fold(g, picks).board.len() == g.board.len(),
    decreases picks.len(),
{
    if picks.len() == 0 {
        lemma_matched_count_bounds(g.board);
    } else {
        lemma_selections_invariant(g, picks.drop_last());
        lemma_select_preserves_wf(select_fold(g, picks.drop_last()), picks.last());
    }
}

/// Law: a freshly started board holds the eight distinct symbols each on
/// exactly two of its sixteen cards, all face down and unmatched.
pub proof fn lemma_board_pairs(draws: Seq<usize>)
    requires
        draws.len() == 16,
        forall|k: int| 0 <= k < 16 ==> (#[trigger] draws[k]) < 16,
    ensures
        shuffled_board(draws).len() == 16,
        forall|i: int|
            0 <= i < 16 ==> !(#[trigger] shuffled_board(draws)[i]).revealed && !shuffled_board(
                draws,
            )[i].matched,
        forall|k: int|
            0 <= k < 8 ==> shuffled_board(draws).to_multiset().count(#[trigger] card_of(k)) == 2,
        forall|a: int, b: int| 0 <= a < b < 8 ==> card_of(a) != card_of(b),
{
    lemma_board_all_fresh(draws);
    lemma_shuffle_step_multiset(draws, 16);
    lemma_fresh_board_counts();
}

/// The shuffle permutes the cards: the multiset of cards is untouched.
proof fn lemma_shuffle_step_multiset(draws: Seq<usize>, n: int)
    requires
        draws.len() == 16,
        forall|k: int| 0 <= k < 16 ==> (#[trigger] draws[k]) < 16,
        0 <= n <= 16,
    ensures
        shuffle_step(fresh_board(), draws, n).to_multiset() == fresh_board().to_multiset(),
    decreases n,
{
    broadcast use vstd::seq_lib::group_to_multiset_ensures;
    broadcast use vstd::multiset::group_multiset_axioms;

    if n > 0 {
        lemma_shuffle_step_multiset(draws, n - 1);
        lemma_shuffle_step_fresh(draws, n - 1);
        let t = shuffle_step(fresh_board(), draws, n - 1);
        let i = n - 1;
        let j = draws[n - 1] as int;
        let u = t.update(i, t[j]);
        assert(t.contains(t[i]));
        assert(t.contains(t[j]));
        assert(u[j] == t[j]);
        assert(u.update(j, t[i]).to_multiset() == u.to_multiset().insert(t[i]).remove(t[j]));
        assert(u.to_multiset() == t.to_multiset().insert(t[j]).remove(t[i]));
        assert(u.update(j, t[i]).to_multiset() =~= t.to_multiset());
    }
}

/// The unshuffled board counts every pair symbol exactly twice.
proof fn lemma_fresh_board_counts()
    ensures
        forall|k: int|
            0 <= k < 8 ==> fresh_board().to_multiset().count(#[trigger] card_of(k)) == 2,
        forall|a: int, b: int| 0 <= a < b < 8 ==> card_of(a) != card_of(b),
{
    broadcast use vstd::seq_lib::group_to_multiset_ensures;
    broadcast use vstd::multiset::group_multiset_axioms;
    broadcast use vstd::multiset::group_multiset_properties;

    let s0 = Seq::<Card>::empty();
    let s1 = s0.push(card_of(0)).push(card_of(0));
    let s2 = s1.push(card_of(1)).push(card_of(1));
    let s3 = s2.push(card_of(2)).push(card_of(2));
    let s4 = s3.push(card_of(3)).push(card_of(3));
    let s5 = s4.push(card_of(4)).push(card_of(4));
    let s6 = s5.push(card_of(5)).push(card_of(5));
    let s7 = s6.push(card_of(6)).push(card_of(6));
    let s8 = s7.push(card_of(7)).push(card_of(7));
    assert(fresh_board() =~= s8);
    assert(forall|x: Card| !s0.contains(x));
    assert(forall|x: Card| s0.to_multiset().count(x) == 0);
    assert forall|k: int| 0 <= k < 8 implies s8.to_multiset().count(#[trigger] card_of(k))
        == 2 by {
        assert(s8.to_multiset().count(card_of(k)) == 2);
    }
}

/// The symbol of the `k`-th pair.
fn symbol_char_exec(k: usize) -> (c: char)
    requires
        k < 8,
    ensures
        c == symbol_char(k as int),
{
    if k == 0 {
        'A'
    } else if k == 1 {
        'B'
    } else if k == 2 {
        'C'
    } else if k == 3 {
        'D'
    } else if k == 4 {
        'E'
    } else if k == 5 {
        'F'
    } else if k == 6 {
        'G'
    } else {
        'H'
    }
}

} // verus!
