//! The game state: board occupancy, reserves, turn, roll and outcome, with
//! the move validator, the move executor and the turn state machine.
use vstd::prelude::*;

use crate::model::{
    count_in, decode_square, dice_of, initial, lemma_count_bounds, lemma_initial_wf,
    lemma_moved_wf, lemma_successes_bounds, snapshot, square_code, successes, winner_of,
    GameModel, PIECES,
};
use crate::path::{index_of, path_of, BOARD_SIZE, PATH_OFF};
use crate::player::Player;

verus! {

/// One square of the track, empty or holding a single piece.
#[derive(Clone, Copy, Debug, PartialEq, Eq)]
pub struct Square {
    pub piece: Option<Player>,
}

impl Default for Square {
    fn default() -> (r: Self)
        ensures
            r.piece is None,
    {
        Square { piece: None }
    }
}

/// A game in progress.
#[derive(Clone, Copy, Debug)]
pub struct GameState {
    board: [Square; 20],
    light_pieces_off: u8,
    dark_pieces_off: u8,
    light_pieces_start: u8,
    dark_pieces_start: u8,
    current_player: Player,
    dice_value: u8,
    game_over: bool,
    winner: Option<Player>,
}

impl View for GameState {
    type V = GameModel;

    closed spec fn view(&self) -> GameModel {
        GameModel {
            board: self.board@.map_values(|s: Square| s.piece),
            light_off: self.light_pieces_off as int,
            dark_off: self.dark_pieces_off as int,
            light_start: self.light_pieces_start as int,
            dark_start: self.dark_pieces_start as int,
            current: self.current_player,
            dice: self.dice_value as int,
            game_over: self.game_over,
            winner: self.winner,
        }
    }
}

impl GameState {
    #[verifier::type_invariant]
    spec fn inv(self) -> bool {
        self@.wf()
    }

    /// A fresh game: full reserves, empty board, Light to roll.
    pub fn new() -> (r: GameState)
        ensures
            r@ == initial(),
            r@.wf(),
    {
        let empty = Square::default();
        let board = [empty;20];
        proof {
            lemma_initial_wf();
            assert(board@.map_values(|s: Square| s.piece) =~= initial().board);
        }
        let r = GameState {
            board,
            light_pieces_off: 0,
            dark_pieces_off: 0,
            light_pieces_start: PIECES,
            dark_pieces_start: PIECES,
            current_player: Player::Light,
            dice_value: 0,
            game_over: false,
            winner: None,
        };
        r
    }

    /// Rebuilds a game from a snapshot: the code of each square (0 empty,
    /// 1 Light, 2 Dark), the reserve and borne-off counts, the side to move
    /// and the pending roll (0 for none). Returns `None` where a code is not
    /// one of these or the snapshot is not a consistent game.
    pub fn from_snapshot(
        board: [u8; 20],
        light_start: u8,
        dark_start: u8,
        light_off: u8,
        dark_off: u8,
        current: Player,
        dice: u8,
    ) -> (r: Option<GameState>)
        ensures
            r is Some <==> (forall|i: int| 0 <= i < BOARD_SIZE ==> #[trigger] board@[i] <= 2)
                && snapshot(
                board@,
                light_start as int,
                dark_start as int,
                light_off as int,
                dark_off as int,
                current,
                dice as int,
            ).wf(),
            r matches Some(g) ==> g@ == snapshot(
                board@,
                light_start as int,
                dark_start as int,
                light_off as int,
                dark_off as int,
                current,
                dice as int,
            ),
    {
        let ghost decoded = board@.map_values(|c: u8| decode_square(c));
        let empty = Square::default();
        let mut squares = [empty;20];
        let mut light_count: u8 = 0;
        let mut dark_count: u8 = 0;
        let mut i: usize = 0;
        while i < BOARD_SIZE
            invariant
                0 <= i <= BOARD_SIZE,
                decoded == board@.map_values(|c: u8| decode_square(c)),
                forall|k: int| 0 <= k < i ==> #[trigger] board@[k] <= 2,
                forall|k: int| 0 <= k < i ==> #[trigger] squares@[k].piece == decoded[k],
                light_count as int == count_in(decoded.take(i as int), Player::Light),
                dark_count as int == count_in(decoded.take(i as int), Player::Dark),
                light_count <= i,
                dark_count <= i,
            decreases BOARD_SIZE - i,
        {
            proof {
                assert(decoded.take(i as int + 1).drop_last() =~= decoded.take(i as int));
            }
            let code = board[i];
            if code > 2 {
                return None;
            }
            let piece = if code == 1 {
                Some(Player::Light)
            } else if code == 2 {
                Some(Player::Dark)
            } else {
                None
            };
            match piece {
                Some(Player::Light) => light_count = light_count + 1,
                Some(Player::Dark) => dark_count = dark_count + 1,
                None => {},
            }
            squares[i] = Square { piece };
            i = i + 1;
        }
        proof {
            assert(decoded.take(BOARD_SIZE as int) =~= decoded);
            assert(squares@.map_values(|s: Square| s.piece) =~= decoded);
        }
        if light_start as u16 + light_count as u16 + light_off as u16 != PIECES as u16 {
            return None;
        }
        if dark_start as u16 + dark_count as u16 + dark_off as u16 != PIECES as u16 {
            return None;
        }
        if dice > 4 {
            return None;
        }
        if light_off == PIECES && dark_off == PIECES {
            return None;
        }
        let winner = Self::check_win_condition(light_off, dark_off);
        if winner.is_some() && dice != 0 {
            return None;
        }
        Some(
            GameState {
                board: squares,
                light_pieces_off: light_off,
                dark_pieces_off: dark_off,
                light_pieces_start: light_start,
                dark_pieces_start: dark_start,
                current_player: current,
                dice_value: dice,
                game_over: winner.is_some(),
                winner,
            },
        )
    }

    /// The path position of board square `square_index` for `player`, or
    /// `None` where the square is off that player's route.
    pub fn board_index_to_path(&self, square_index: usize, player: Player) -> (r: Option<usize>)
        ensures
            match r {
                Some(j) => path_of(square_index as int, player) == Some(j as int),
                None => path_of(square_index as int, player) is None,
            },
    {
        if square_index >= 4 && square_index <= 7 {
            Some(square_index + 1)
        } else if square_index >= 12 && square_index <= 13 {
            Some(square_index - 3)
        } else if square_index >= 16 && square_index <= 17 {
            Some(square_index - 2)
        } else {
            match player {
                Player::Light => {
                    if square_index <= 3 {
                        Some(4 - square_index)
                    } else if square_index >= 14 && square_index <= 15 {
                        Some(34 - square_index)
                    } else {
                        None
                    }
                },
                Player::Dark => {
                    if square_index >= 8 && square_index <= 11 {
                        Some(12 - square_index)
                    } else if square_index >= 18 && square_index <= 19 {
                        Some(38 - square_index)
                    } else {
                        None
                    }
                },
            }
        }
    }

    /// The board square of path position `path_pos` for `player`, or `None`
    /// for the reserve, for a borne-off position and for a position without
    /// a square.
    pub(crate) fn path_to_board_index(&self, path_pos: usize, player: Player) -> (r: Option<usize>)
        ensures
            match r {
                Some(i) => {
                    &&& index_of(path_pos as int, player) == Some(i as int)
                    &&& i < BOARD_SIZE
                    &&& path_of(i as int, player) == Some(path_pos as int)
                },
                None => index_of(path_pos as int, player) is None,
            },
    {
        if path_pos >= 5 && path_pos <= 8 {
            Some(path_pos - 1)
        } else if path_pos >= 9 && path_pos <= 10 {
            Some(path_pos + 3)
        } else if path_pos >= 14 && path_pos <= 15 {
            Some(path_pos + 2)
        } else if path_pos == 0 || path_pos > 20 || (path_pos > 4 && path_pos < 19) {
            None
        } else {
            match player {
                Player::Light => {
                    if path_pos <= 4 {
                        Some(4 - path_pos)
                    } else {
                        Some(34 - path_pos)
                    }
                },
                Player::Dark => {
                    if path_pos <= 4 {
                        Some(12 - path_pos)
                    } else {
                        Some(38 - path_pos)
                    }
                },
            }
        }
    }

    /// Whether the current player may move the piece at path position
    /// `from_path_pos` (0 for a piece from the reserve) with the current roll.
    pub fn can_move(&self, from_path_pos: usize) -> (r: bool)
        ensures
            r == self@.legal(from_path_pos as int),
    {
        proof {
            use_type_invariant(self);
        }
        if self.game_over || self.dice_value == 0 {
            return false;
        }
        let player = self.current_player;
        if from_path_pos == 0 {
            let pieces_in_start = match player {
                Player::Light => self.light_pieces_start,
                Player::Dark => self.dark_pieces_start,
            };
            if pieces_in_start == 0 {
                return false;
            }
            if self.dice_value == 0 || self.dice_value > 4 {
                return false;
            }
            let to_board_idx: usize = match player {
                Player::Light => (4 - self.dice_value) as usize,
                Player::Dark => (12 - self.dice_value) as usize,
            };
            if let Some(piece_player) = self.board[to_board_idx].piece {
                if piece_player == player {
                    return false;
                }
            }
            return true;
        }
        let from_board = self.path_to_board_index(from_path_pos, player);
        let from_board_idx = match from_board {
            None => {
                return false;
            },
            Some(i) => i,
        };
        if let Some(piece_player) = self.board[from_board_idx].piece {
            if piece_player != player {
                return false;
            }
        } else {
            return false;
        }
        let to_path_pos = from_path_pos + self.dice_value as usize;
        if to_path_pos >= PATH_OFF {
            return true;
        }
        let to_board = self.path_to_board_index(to_path_pos, player);
        if let Some(board_idx) = to_board {
            match self.board_index_to_path(board_idx, player) {
                Some(j) => {
                    if j != to_path_pos {
                        return false;
                    }
                },
                None => {
                    return false;
                },
            }
            if let Some(piece_player) = self.board[board_idx].piece {
                if piece_player == player {
                    return false;
                }
            }
            return true;
        }
        false
    }

    /// Moves the current player's piece at path position `from_path_pos`
    /// (0 for a piece from the reserve) by the current roll. An illegal move
    /// changes nothing and returns false. A legal one captures an opposing
    /// piece on the destination, bears the piece off when the roll reaches
    /// past the route, clears the roll, settles the winner, and passes the
    /// turn unless the game has ended.
    pub fn make_move(&mut self, from_path_pos: usize) -> (r: bool)
        ensures
            r == old(self)@.legal(from_path_pos as int),
            r ==> final(self)@ == old(self)@.moved(from_path_pos as int),
            !r ==> final(self)@ == old(self)@,
            final(self)@.wf(),
    {
        proof {
            use_type_invariant(&*self);
        }
        if !self.can_move(from_path_pos) {
            return false;
        }
        let ghost before = self@;
        let player = self.current_player;
        let mut board = self.board;
        let mut light_start = self.light_pieces_start;
        let mut dark_start = self.dark_pieces_start;
        let mut light_off = self.light_pieces_off;
        let mut dark_off = self.dark_pieces_off;
        proof {
            lemma_moved_wf(before, from_path_pos as int);
            lemma_count_bounds(before.board, Player::Light);
            lemma_count_bounds(before.board, Player::Dark);
        }
        if from_path_pos == 0 {
            match player {
                Player::Light => light_start = light_start - 1,
                Player::Dark => dark_start = dark_start - 1,
            }
            let to_board_idx: usize = match player {
                Player::Light => (4 - self.dice_value) as usize,
                Player::Dark => (12 - self.dice_value) as usize,
            };
            if let Some(opponent) = board[to_board_idx].piece {
                if opponent != player {
                    match opponent {
                        Player::Light => light_start = light_start + 1,
                        Player::Dark => dark_start = dark_start + 1,
                    }
                }
            }
            board[to_board_idx] = Square { piece: Some(player) };
        } else {
            let from_board = self.path_to_board_index(from_path_pos, player).unwrap();
            let to_path_pos = from_path_pos + self.dice_value as usize;
            if to_path_pos >= PATH_OFF {
                board[from_board] = Square { piece: None };
                match player {
                    Player::Light => light_off = light_off + 1,
                    Player::Dark => dark_off = dark_off + 1,
                }
            } else {
                let to_board = self.path_to_board_index(to_path_pos, player).unwrap();
                if let Some(opponent) = board[to_board].piece {
                    if opponent != player {
                        match opponent {
                            Player::Light => light_start = light_start + 1,
                            Player::Dark => dark_start = dark_start + 1,
                        }
                    }
                }
                board[from_board] = Square { piece: None };
                board[to_board] = Square { piece: Some(player) };
            }
        }
        let winner = Self::check_win_condition(light_off, dark_off);
        let next = if winner.is_some() {
            player
        } else {
            player.other()
        };
        proof {
            let after = before.moved(from_path_pos as int);
            assert(board@.map_values(|s: Square| s.piece) =~= after.board);
        }
        *self =
        GameState {
            board,
            light_pieces_off: light_off,
            dark_pieces_off: dark_off,
            light_pieces_start: light_start,
            dark_pieces_start: dark_start,
            current_player: next,
            dice_value: 0,
            game_over: winner.is_some(),
            winner,
        };
        true
    }

    /// The side that has borne off all its pieces, if any.
    fn check_win_condition(light_off: u8, dark_off: u8) -> (r: Option<Player>)
        ensures
            r == winner_of(light_off as int, dark_off as int),
    {
        if light_off == PIECES {
            Some(Player::Light)
        } else if dark_off == PIECES {
            Some(Player::Dark)
        } else {
            None
        }
    }

    /// Hands the turn to the other side.
    fn switch_player(&mut self)
        ensures
            final(self)@ == (GameModel { current: old(self)@.current.opponent(), ..old(self)@ }),
    {
        proof {
            use_type_invariant(&*self);
        }
        self.current_player = self.current_player.other();
    }

    /// Gives up the pending roll: when a roll is pending in a game still in
    /// progress, clears it and hands the turn over; otherwise changes nothing.
    pub fn pass_turn(&mut self)
        ensures
            final(self)@ == old(self)@.passed(),
            old(self)@.game_over ==> final(self)@ == old(self)@,
            final(self)@.wf(),
    {
        proof {
            use_type_invariant(&*self);
        }
        if self.dice_value != 0 && !self.game_over {
            self.dice_value = 0;
            self.switch_player();
        }
    }

    /// Puts the game back in its starting configuration.
    pub fn reset(&mut self)
        ensures
            final(self)@ == initial(),
            final(self)@.wf(),
    {
        *self = GameState::new();
    }

    /// Rolls the dice from four binary trials (`true` for a trial that
    /// scored): the roll is the number of scoring trials, or one when none
    /// scored. A pending roll is overwritten. A finished game keeps no roll:
    /// the value is returned and the state stays as it is.
    pub fn roll_dice(&mut self, trials: [bool; 4]) -> (r: u8)
        ensures
            r as int == dice_of(trials@),
            1 <= r <= 4,
            !old(self)@.game_over ==> final(self)@ == (GameModel { dice: r as int, ..old(self)@ }),
            old(self)@.game_over ==> final(self)@ == old(self)@,
            final(self)@.wf(),
    {
        proof {
            use_type_invariant(&*self);
        }
        let mut total: u8 = 0;
        let mut i: usize = 0;
        while i < 4
            invariant
                0 <= i <= 4,
                total as int == successes(trials@.take(i as int)),
                total <= i,
            decreases 4 - i,
        {
            proof {
                assert(trials@.take(i as int + 1).drop_last() =~= trials@.take(i as int));
            }
            if trials[i] {
                total = total + 1;
            }
            i = i + 1;
        }
        proof {
            assert(trials@.take(4) =~= trials@);
            lemma_successes_bounds(trials@);
        }
        if total == 0 {
            total = 1;
        }
        if self.game_over {
            return total;
        }
        self.dice_value = total;
        self.dice_value
    }

    pub fn current_player(&self) -> (r: Player)
        ensures
            r == self@.current,
    {
        self.current_player
    }

    pub fn dice_value(&self) -> (r: u8)
        ensures
            r as int == self@.dice,
    {
        self.dice_value
    }

    pub fn game_over(&self) -> (r: bool)
        ensures
            r == self@.game_over,
    {
        self.game_over
    }

    pub fn winner(&self) -> (r: Option<Player>)
        ensures
            r == self@.winner,
    {
        self.winner
    }

    pub fn light_pieces_start(&self) -> (r: u8)
        ensures
            r as int == self@.light_start,
    {
        self.light_pieces_start
    }

    pub fn dark_pieces_start(&self) -> (r: u8)
        ensures
            r as int == self@.dark_start,
    {
        self.dark_pieces_start
    }

    pub fn light_pieces_off(&self) -> (r: u8)
        ensures
            r as int == self@.light_off,
    {
        self.light_pieces_off
    }

    pub fn dark_pieces_off(&self) -> (r: u8)
        ensures
            r as int == self@.dark_off,
    {
        self.dark_pieces_off
    }

    /// Occupancy of the track, square by square: 0 empty, 1 Light, 2 Dark.
    pub fn get_board(&self) -> (r: Vec<u8>)
        ensures
            r@.len() == BOARD_SIZE,
            forall|i: int| 0 <= i < BOARD_SIZE ==> r@[i] == square_code(#[trigger] self@.board[i]),
    {
        let mut codes: Vec<u8> = Vec::new();
        let mut i: usize = 0;
        while i < BOARD_SIZE
            invariant
                0 <= i <= BOARD_SIZE,
                codes@.len() == i,
                forall|k: int| 0 <= k < i ==> codes@[k] == square_code(#[trigger] self@.board[k]),
            decreases BOARD_SIZE - i,
        {
            let code: u8 = match self.board[i].piece {
                Some(Player::Light) => 1,
                Some(Player::Dark) => 2,
                None => 0,
            };
            codes.push(code);
            i = i + 1;
        }
        codes
    }

    /// Number of pieces of `player` on the track.
    pub fn count_pieces_on_board(&self, player: Player) -> (r: u8)
        ensures
            r as int == self@.on_board(player),
    {
        let mut count: u8 = 0;
        let mut i: usize = 0;
        while i < BOARD_SIZE
            invariant
                0 <= i <= BOARD_SIZE,
                count as int == count_in(self@.board.take(i as int), player),
                count <= i,
            decreases BOARD_SIZE - i,
        {
            proof {
                assert(self@.board.take(i as int + 1).drop_last() =~= self@.board.take(i as int));
            }
            if let Some(piece_player) = self.board[i].piece {
                if piece_player == player {
                    count = count + 1;
                }
            }
            i = i + 1;
        }
        proof {
            assert(self@.board.take(BOARD_SIZE as int) =~= self@.board);
        }
        count
    }

    /// The path positions that the current player may move now: 0 first
    /// when a piece may enter, then each own piece on the track, in board
    /// order.
    pub fn get_valid_moves(&self) -> (r: Vec<usize>)
        ensures
            r@.map_values(|j: usize| j as int) == self@.valid_moves(),
    {
        proof {
            use_type_invariant(self);
        }
        let mut moves: Vec<usize> = Vec::new();
        let player = self.current_player;
        let pieces_in_start = match player {
            Player::Light => self.light_pieces_start,
            Player::Dark => self.dark_pieces_start,
        };
        if pieces_in_start > 0 && self.can_move(0) {
            moves.push(0);
        }
        proof {
            assert(moves@.map_values(|j: usize| j as int) =~= self@.moves_upto(0));
        }
        let mut board_idx: usize = 0;
        while board_idx < BOARD_SIZE
            invariant
                0 <= board_idx <= BOARD_SIZE,
                self@.wf(),
                player == self@.current,
                moves@.map_values(|j: usize| j as int) == self@.moves_upto(board_idx as int),
            decreases BOARD_SIZE - board_idx,
        {
            if let Some(piece_player) = self.board[board_idx].piece {
                if piece_player == player {
                    if let Some(path_pos) = self.board_index_to_path(board_idx, player) {
                        if self.can_move(path_pos) {
                            moves.push(path_pos);
                        }
                    }
                }
            }
            proof {
                assert(moves@.map_values(|j: usize| j as int) =~= self@.moves_upto(
                    board_idx as int + 1,
                ));
            }
            board_idx = board_idx + 1;
        }
        moves
    }

    /// For a square of the track: its occupancy code (0 empty, 1 Light,
    /// 2 Dark) and 1 when the current player's piece there, if any, reading
    /// the square as a path position, is among the valid moves, else 0.
    /// `None` for an index off the track.
    pub fn get_square_info(&self, square_index: usize) -> (r: Option<[u8; 2]>)
        ensures
            match r {
                None => square_index >= BOARD_SIZE,
                Some(info) => {
                    &&& square_index < BOARD_SIZE
                    &&& info@[0] == square_code(self@.board[square_index as int])
                    &&& info@[1] == if (path_of(square_index as int, self@.current) matches Some(
                        j,
                    ) && self@.valid_moves().contains(j)) {
                        1u8
                    } else {
                        0u8
                    }
                },
            },
    {
        if square_index >= BOARD_SIZE {
            return None;
        }
        let piece_type: u8 = match self.board[square_index].piece {
            Some(Player::Light) => 1,
            Some(Player::Dark) => 2,
            None => 0,
        };
        let path_pos = self.board_index_to_path(square_index, self.current_player);
        let is_valid_move: u8 = if let Some(path) = path_pos {
            let moves_vec = self.get_valid_moves();
            let mut found = false;
            let mut k: usize = 0;
            while k < moves_vec.len()
                invariant
                    0 <= k <= moves_vec@.len(),
                    moves_vec@.map_values(|j: usize| j as int) == self@.valid_moves(),
                    found <==> exists|m: int| 0 <= m < k && moves_vec@[m] == path,
                decreases moves_vec@.len() - k,
            {
                if moves_vec[k] == path {
                    found = true;
                }
                k = k + 1;
            }
            proof {
                let vm = self@.valid_moves();
                if found {
                    let m = choose|m: int| 0 <= m < k && moves_vec@[m] == path;
                    assert(vm[m] == path as int);
                } else {
                    assert forall|m: int| 0 <= m < vm.len() implies vm[m] != path as int by {
                        assert(vm[m] == moves_vec@[m] as int);
                    }
                }
            }
            if found {
                1
            } else {
                0
            }
        } else {
            0
        };
        Some([piece_type, is_valid_move])
    }

    /// A line describing the game for its players.
    pub fn get_status_message(&self) -> (r: &'static str)
        ensures
            r@ == if self@.game_over {
                match self@.winner {
                    Some(Player::Light) => "Game Over! Light Player Wins!"@,
                    Some(Player::Dark) => "Game Over! Dark Player Wins!"@,
                    None => "Game Over!"@,
                }
            } else if self@.dice == 0 {
                ""@
            } else {
                "Select a piece to move"@
            },
    {
        if self.game_over {
            match self.winner {
                Some(Player::Light) => "Game Over! Light Player Wins!",
                Some(Player::Dark) => "Game Over! Dark Player Wins!",
                None => "Game Over!",
            }
        } else if self.dice_value == 0 {
            ""
        } else {
            "Select a piece to move"
        }
    }

    /// Display name of the side to move.
    pub fn get_player_name(&self) -> (r: &'static str)
        ensures
            r@ == match self@.current {
                Player::Light => "Light"@,
                Player::Dark => "Dark"@,
            },
    {
        match self.current_player {
            Player::Light => "Light",
            Player::Dark => "Dark",
        }
    }
}

} // verus!
