//! The two coordinate systems of the board: a player's private path
//! (0 is the start reserve, 1 to 20 the route, 21 and above borne off) and
//! the shared physical track of 20 squares.
//!
//! Each route covers 14 squares:
//!
//! | path      | Light squares | Dark squares |
//! |-----------|---------------|--------------|
//! | 1 to 4    | 3, 2, 1, 0    | 11, 10, 9, 8 |
//! | 5 to 8    | 4 to 7        | 4 to 7       |
//! | 9, 10     | 12, 13        | 12, 13       |
//! | 11 to 13  | none          | none         |
//! | 14, 15    | 16, 17        | 16, 17       |
//! | 16 to 18  | none          | none         |
//! | 19, 20    | 15, 14        | 19, 18       |
//!
//! Squares 0 to 3 and 14, 15 are Light's alone, 8 to 11 and 18, 19 Dark's
//! alone; the other eight are shared. The path positions without a square
//! come in runs of three, so a roll of 4 always carries a piece past one.
use vstd::prelude::*;

use crate::player::Player;

verus! {

/// Number of squares on the shared track.
pub const BOARD_SIZE: usize = 20;

/// First path position that lies beyond the route: reaching it bears a piece off.
pub const PATH_OFF: usize = 21;

/// The path position of board square `i` for player `p`, or `None` where the
/// square is not on that player's route.
pub open spec fn path_of(i: int, p: Player) -> Option<int> {
    if 4 <= i <= 7 {
        Some(i + 1)
    } else if 12 <= i <= 13 {
        Some(i - 3)
    } else if 16 <= i <= 17 {
        Some(i - 2)
    } else {
        match p {
            Player::Light => {
                if 0 <= i <= 3 {
                    Some(4 - i)
                } else if 14 <= i <= 15 {
                    Some(34 - i)
                } else {
                    None
                }
            },
            Player::Dark => {
                if 8 <= i <= 11 {
                    Some(12 - i)
                } else if 18 <= i <= 19 {
                    Some(38 - i)
                } else {
                    None
                }
            },
        }
    }
}

/// The board square of path position `j` for player `p`, or `None` where the
/// position is the start reserve, lies beyond the route, or has no square.
pub open spec fn index_of(j: int, p: Player) -> Option<int> {
    if 5 <= j <= 8 {
        Some(j - 1)
    } else if 9 <= j <= 10 {
        Some(j + 3)
    } else if 14 <= j <= 15 {
        Some(j + 2)
    } else {
        match p {
            Player::Light => {
                if 1 <= j <= 4 {
                    Some(4 - j)
                } else if 19 <= j <= 20 {
                    Some(34 - j)
                } else {
                    None
                }
            },
            Player::Dark => {
                if 1 <= j <= 4 {
                    Some(12 - j)
                } else if 19 <= j <= 20 {
                    Some(38 - j)
                } else {
                    None
                }
            },
        }
    }
}

/// The square on which a piece of `p` enters the track with a roll of `d`.
pub open spec fn entry_square(d: int, p: Player) -> int {
    match p {
        Player::Light => 4 - d,
        Player::Dark => 12 - d,
    }
}

/// Every square that `index_of` names lies on the track.
pub proof fn lemma_index_in_board(j: int, p: Player)
    ensures
        index_of(j, p) matches Some(i) ==> 0 <= i < BOARD_SIZE,
{
}

/// Path mapping bijection: on the track, square `i` has path position `j`
/// for a player exactly when path position `j` names square `i`.
pub proof fn lemma_path_bijection(i: int, j: int, p: Player)
    requires
        0 <= i < BOARD_SIZE,
    ensures
        path_of(i, p) == Some(j) <==> index_of(j, p) == Some(i),
{
}

/// Path mapping round trip: a square on a player's route maps to a path
/// position that maps back to the same square.
pub proof fn lemma_path_round_trip(i: int, p: Player)
    requires
        0 <= i < BOARD_SIZE,
        path_of(i, p) is Some,
    ensures
        index_of(path_of(i, p)->Some_0, p) == Some(i),
{
    lemma_path_bijection(i, path_of(i, p)->Some_0, p);
}

/// The squares of a player's last two path positions are off the other
/// player's route.
pub proof fn lemma_exit_squares_private(j: int, p: Player)
    requires
        19 <= j <= 20,
    ensures
        index_of(j, p) matches Some(i) && path_of(i, p.opponent()) is None,
{
}

/// From any position on the route some roll of 1 to 4 reaches a square of
/// the route or bears the piece off.
pub proof fn lemma_gaps_are_short(j: int, p: Player)
    requires
        0 <= j <= 20,
    ensures
        exists|d: int|
            1 <= d <= 4 && (j + d >= PATH_OFF || #[trigger] index_of(j + d, p) is Some),
{
    let d: int = if j + 1 >= PATH_OFF || index_of(j + 1, p) is Some {
        1
    } else if j + 2 >= PATH_OFF || index_of(j + 2, p) is Some {
        2
    } else if j + 3 >= PATH_OFF || index_of(j + 3, p) is Some {
        3
    } else {
        4
    };
    assert(1 <= d <= 4 && (j + d >= PATH_OFF || index_of(j + d, p) is Some));
}

} // verus!
