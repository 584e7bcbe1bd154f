//! The mathematical model of a game: what a state holds, when it is
//! well formed, which moves are legal and what a move does.
use vstd::prelude::*;

use crate::path::{entry_square, index_of, path_of, BOARD_SIZE, PATH_OFF};
use crate::player::Player;

verus! {

/// Pieces each side owns.
pub const PIECES: u8 = 7;

/// The abstract value of a game state.
pub struct GameModel {
    pub board: Seq<Option<Player>>,
    pub light_off: int,
    pub dark_off: int,
    pub light_start: int,
    pub dark_start: int,
    pub current: Player,
    pub dice: int,
    pub game_over: bool,
    pub winner: Option<Player>,
}

/// Number of squares of `s` that hold a piece of `p`.
pub open spec fn count_in(s: Seq<Option<Player>>, p: Player) -> int
    decreases s.len(),
{
    if s.len() == 0 {
        0
    } else {
        count_in(s.drop_last(), p) + if s.last() == Some(p) {
            1int
        } else {
            0int
        }
    }
}

/// The side that has borne off all its pieces, if any.
pub open spec fn winner_of(light_off: int, dark_off: int) -> Option<Player> {
    if light_off == PIECES {
        Some(Player::Light)
    } else if dark_off == PIECES {
        Some(Player::Dark)
    } else {
        None
    }
}

/// Number of trials in `t` that succeeded.
pub open spec fn successes(t: Seq<bool>) -> int
    decreases t.len(),
{
    if t.len() == 0 {
        0
    } else {
        successes(t.drop_last()) + if t.last() {
            1int
        } else {
            0int
        }
    }
}

/// The roll given by a run of binary trials: the number that succeeded,
/// raised to one when none did.
pub open spec fn dice_of(t: Seq<bool>) -> int {
    if successes(t) == 0 {
        1
    } else {
        successes(t)
    }
}

/// At most as many trials succeed as were made.
pub proof fn lemma_successes_bounds(t: Seq<bool>)
    ensures
        0 <= successes(t) <= t.len(),
    decreases t.len(),
{
    if t.len() > 0 {
        lemma_successes_bounds(t.drop_last());
    }
}

/// Tri-state code of a square: 0 empty, 1 Light, 2 Dark.
pub open spec fn square_code(sq: Option<Player>) -> u8 {
    match sq {
        None => 0,
        Some(Player::Light) => 1,
        Some(Player::Dark) => 2,
    }
}

/// The occupant that a tri-state code stands for.
pub open spec fn decode_square(c: u8) -> Option<Player> {
    if c == 1 {
        Some(Player::Light)
    } else if c == 2 {
        Some(Player::Dark)
    } else {
        None
    }
}

/// The state that a snapshot describes; the outcome follows from the
/// borne-off counts.
pub open spec fn snapshot(
    codes: Seq<u8>,
    light_start: int,
    dark_start: int,
    light_off: int,
    dark_off: int,
    current: Player,
    dice: int,
) -> GameModel {
    GameModel {
        board: codes.map_values(|c: u8| decode_square(c)),
        light_off,
        dark_off,
        light_start,
        dark_start,
        current,
        dice,
        game_over: winner_of(light_off, dark_off) is Some,
        winner: winner_of(light_off, dark_off),
    }
}

/// The state of a fresh game.
pub open spec fn initial() -> GameModel {
    GameModel {
        board: Seq::new(BOARD_SIZE as nat, |i: int| None),
        light_off: 0,
        dark_off: 0,
        light_start: PIECES as int,
        dark_start: PIECES as int,
        current: Player::Light,
        dice: 0,
        game_over: false,
        winner: None,
    }
}

impl GameModel {
    pub open spec fn start(self, p: Player) -> int {
        match p {
            Player::Light => self.light_start,
            Player::Dark => self.dark_start,
        }
    }

    pub open spec fn off(self, p: Player) -> int {
        match p {
            Player::Light => self.light_off,
            Player::Dark => self.dark_off,
        }
    }

    pub open spec fn on_board(self, p: Player) -> int {
        count_in(self.board, p)
    }

    pub open spec fn with_start(self, p: Player, n: int) -> GameModel {
        match p {
            Player::Light => GameModel { light_start: n, ..self },
            Player::Dark => GameModel { dark_start: n, ..self },
        }
    }

    pub open spec fn with_off(self, p: Player, n: int) -> GameModel {
        match p {
            Player::Light => GameModel { light_off: n, ..self },
            Player::Dark => GameModel { dark_off: n, ..self },
        }
    }

    /// Every observable state satisfies this.
    pub open spec fn wf(self) -> bool {
        &&& self.board.len() == BOARD_SIZE
        &&& self.light_start >= 0 && self.dark_start >= 0
        &&& self.light_off >= 0 && self.dark_off >= 0
        &&& self.light_start + self.on_board(Player::Light) + self.light_off == PIECES
        &&& self.dark_start + self.on_board(Player::Dark) + self.dark_off == PIECES
        &&& 0 <= self.dice <= 4
        &&& !(self.light_off == PIECES && self.dark_off == PIECES)
        &&& self.winner == winner_of(self.light_off, self.dark_off)
        &&& self.game_over == self.winner is Some
        &&& self.game_over ==> self.dice == 0
    }

    /// Whether the current player may move the piece at path position `from`
    /// with the current roll.
    pub open spec fn legal(self, from: int) -> bool {
        let p = self.current;
        if self.game_over || self.dice == 0 {
            false
        } else if from == 0 {
            &&& self.start(p) > 0
            &&& 1 <= self.dice <= 4
            &&& self.board[entry_square(self.dice, p)] != Some(p)
        } else {
            match index_of(from, p) {
                None => false,
                Some(src) => {
                    &&& self.board[src] == Some(p)
                    &&& (from + self.dice >= PATH_OFF || match index_of(from + self.dice, p) {
                        None => false,
                        Some(dst) => path_of(dst, p) == Some(from + self.dice) && self.board[dst]
                            != Some(p),
                    })
                },
            }
        }
    }

    /// Sends an opposing piece on square `dst` back to its owner's reserve.
    pub open spec fn capture_at(self, dst: int) -> GameModel {
        let q = self.current.opponent();
        if self.board[dst] == Some(q) {
            self.with_start(q, self.start(q) + 1)
        } else {
            self
        }
    }

    /// Clears the roll, settles the winner and hands the turn over unless
    /// the game has ended.
    pub open spec fn end_turn(self) -> GameModel {
        let w = winner_of(self.light_off, self.dark_off);
        GameModel {
            dice: 0,
            winner: w,
            game_over: w is Some,
            current: if w is Some {
                self.current
            } else {
                self.current.opponent()
            },
            ..self
        }
    }

    /// The state after the current player moves the piece at path position
    /// `from`; meaningful where `legal(from)` holds.
    pub open spec fn moved(self, from: int) -> GameModel {
        let p = self.current;
        if from == 0 {
            let dst = entry_square(self.dice, p);
            let c = self.capture_at(dst).with_start(p, self.start(p) - 1);
            GameModel { board: self.board.update(dst, Some(p)), ..c }.end_turn()
        } else {
            let src = index_of(from, p)->Some_0;
            if from + self.dice >= PATH_OFF {
                GameModel { board: self.board.update(src, None), ..self }.with_off(
                    p,
                    self.off(p) + 1,
                ).end_turn()
            } else {
                let dst = index_of(from + self.dice, p)->Some_0;
                GameModel {
                    board: self.board.update(src, None).update(dst, Some(p)),
                    ..self.capture_at(dst)
                }.end_turn()
            }
        }
    }

    /// The moves open to the current player that the scan of the reserve and
    /// of the first `n` squares finds, in that order.
    pub open spec fn moves_upto(self, n: int) -> Seq<int>
        decreases n,
    {
        let p = self.current;
        if n <= 0 {
            if self.start(p) > 0 && self.legal(0) {
                seq![0int]
            } else {
                Seq::empty()
            }
        } else {
            let i = n - 1;
            let prev = self.moves_upto(n - 1);
            match path_of(i, p) {
                Some(j) => if self.board[i] == Some(p) && self.legal(j) {
                    prev.push(j)
                } else {
                    prev
                },
                None => prev,
            }
        }
    }

    /// The moves open to the current player: the reserve first, then each
    /// own piece in board order, as path positions.
    pub open spec fn valid_moves(self) -> Seq<int> {
        self.moves_upto(BOARD_SIZE as int)
    }

    /// The state after the current player gives up the pending roll; a
    /// finished game stays as it is.
    pub open spec fn passed(self) -> GameModel {
        if self.dice != 0 && !self.game_over {
            GameModel { dice: 0, current: self.current.opponent(), ..self }
        } else {
            self
        }
    }
}

/// Changing one square changes the count of a side by what left and what came.
pub proof fn lemma_count_update(s: Seq<Option<Player>>, i: int, v: Option<Player>, p: Player)
    requires
        0 <= i < s.len(),
    ensures
        count_in(s.update(i, v), p) == count_in(s, p) - (if s[i] == Some(p) {
            1int
        } else {
            0int
        }) + (if v == Some(p) {
            1int
        } else {
            0int
        }),
    decreases s.len(),
{
    let t = s.update(i, v);
    if i == s.len() - 1 {
        assert(t.drop_last() =~= s.drop_last());
    } else {
        assert(t.drop_last() =~= s.drop_last().update(i, v));
        lemma_count_update(s.drop_last(), i, v, p);
    }
}

/// A count never goes below zero nor above the length.
pub proof fn lemma_count_bounds(s: Seq<Option<Player>>, p: Player)
    ensures
        0 <= count_in(s, p) <= s.len(),
    decreases s.len(),
{
    if s.len() > 0 {
        lemma_count_bounds(s.drop_last(), p);
    }
}

/// An empty board holds no piece of either side.
pub proof fn lemma_count_empty(n: nat, p: Player)
    ensures
        count_in(Seq::new(n, |i: int| None::<Player>), p) == 0,
    decreases n,
{
    if n > 0 {
        assert(Seq::new(n, |i: int| None::<Player>).drop_last() =~= Seq::new(
            (n - 1) as nat,
            |i: int| None::<Player>,
        ));
        lemma_count_empty((n - 1) as nat, p);
    }
}

/// A fresh game is well formed.
pub proof fn lemma_initial_wf()
    ensures
        initial().wf(),
{
    lemma_count_empty(BOARD_SIZE as nat, Player::Light);
    lemma_count_empty(BOARD_SIZE as nat, Player::Dark);
}

/// A legal move keeps the state well formed.
pub proof fn lemma_moved_wf(m: GameModel, from: int)
    requires
        m.wf(),
        m.legal(from),
    ensures
        m.moved(from).wf(),
{
    let p = m.current;
    let q = p.opponent();
    let r = m.moved(from);
    if from == 0 {
        let dst = entry_square(m.dice, p);
        lemma_count_update(m.board, dst, Some(p), p);
        lemma_count_update(m.board, dst, Some(p), q);
    } else {
        let src = index_of(from, p)->Some_0;
        crate::path::lemma_index_in_board(from, p);
        lemma_count_update(m.board, src, None, p);
        lemma_count_update(m.board, src, None, q);
        lemma_count_bounds(m.board.update(src, None), p);
        if from + m.dice < PATH_OFF {
            let dst = index_of(from + m.dice, p)->Some_0;
            let b1 = m.board.update(src, None);
            crate::path::lemma_index_in_board(from + m.dice, p);
            assert(b1[dst] == m.board[dst]);
            lemma_count_update(b1, dst, Some(p), p);
            lemma_count_update(b1, dst, Some(p), q);
        }
    }
}

/// Giving up a roll keeps the state well formed.
pub proof fn lemma_passed_wf(m: GameModel)
    requires
        m.wf(),
    ensures
        m.passed().wf(),
{
}

} // verus!
