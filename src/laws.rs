//! Properties of the rules that hold of every well-formed state.
use vstd::prelude::*;

use crate::model::{lemma_moved_wf, lemma_passed_wf, GameModel, PIECES};
use crate::path::{
    entry_square, index_of, lemma_index_in_board, lemma_path_bijection, path_of, BOARD_SIZE,
    PATH_OFF,
};
use crate::player::Player;

verus! {

/// Conservation: in every well-formed state each side's pieces in reserve,
/// on the track and borne off add up to seven, and a move or a pass leads
/// to a well-formed state again.
pub proof fn lemma_conservation(m: GameModel, from: int, p: Player)
    requires
        m.wf(),
    ensures
        m.start(p) + m.on_board(p) + m.off(p) == PIECES,
        m.legal(from) ==> m.moved(from).wf(),
        m.passed().wf(),
{
    if m.legal(from) {
        lemma_moved_wf(m, from);
    }
    lemma_passed_wf(m);
}

/// Entry blocking: with pieces in reserve and a roll pending, entering is
/// legal exactly when the entry square does not hold a piece of the mover;
/// an opposing piece there is captured and goes back to its reserve.
pub proof fn lemma_entry_blocking(m: GameModel)
    requires
        m.wf(),
        !m.game_over,
        1 <= m.dice <= 4,
        m.start(m.current) > 0,
    ensures
        m.legal(0) <==> m.board[entry_square(m.dice, m.current)] != Some(m.current),
        m.board[entry_square(m.dice, m.current)] == Some(m.current.opponent()) ==> {
            let r = m.moved(0);
            &&& r.board[entry_square(m.dice, m.current)] == Some(m.current)
            &&& r.start(m.current.opponent()) == m.start(m.current.opponent()) + 1
            &&& r.start(m.current) == m.start(m.current) - 1
        },
{
}

/// Exit rule: a piece of the mover on the track may always leave when its
/// path position plus the roll reaches 21, whatever the overshoot; and a
/// legal move bears a piece off exactly when that sum reaches 21.
pub proof fn lemma_exit_rule(m: GameModel, from: int)
    requires
        m.wf(),
        !m.game_over,
        m.dice != 0,
        from > 0,
        index_of(from, m.current) matches Some(src) && m.board[src] == Some(m.current),
    ensures
        from + m.dice >= PATH_OFF ==> m.legal(from),
        m.legal(from) ==> (m.moved(from).off(m.current) == m.off(m.current) + 1 <==> from + m.dice
            >= PATH_OFF),
        m.legal(from) && from + m.dice >= PATH_OFF ==> m.moved(from).board[index_of(
            from,
            m.current,
        )->Some_0] is None,
{
    lemma_index_in_board(from, m.current);
}

/// Win trigger: after a legal move the game is over exactly when the mover
/// has just borne off its seventh piece; the mover is then the winner and
/// no move is legal any more.
pub proof fn lemma_win_trigger(m: GameModel, from: int)
    requires
        m.wf(),
        m.legal(from),
    ensures
        !m.game_over,
        m.off(m.current) < PIECES,
        m.moved(from).game_over <==> m.moved(from).off(m.current) == PIECES,
        m.moved(from).game_over ==> m.moved(from).winner == Some(m.current),
        m.moved(from).game_over ==> forall|f: int| !#[trigger] m.moved(from).legal(f),
{
    lemma_moved_wf(m, from);
    crate::model::lemma_count_bounds(m.board, m.current);
}

/// Once over, a game stays over: no move is legal, and giving up a roll
/// keeps the outcome.
pub proof fn lemma_game_over_is_final(m: GameModel)
    requires
        m.wf(),
        m.game_over,
    ensures
        forall|f: int| !#[trigger] m.legal(f),
        m.passed().game_over,
        m.passed().winner == m.winner,
{
}

/// What the scan of the reserve and of the first `n` squares lists: each
/// legal position that is 0 or the path position of a square among the first
/// `n` holding a piece of the mover, once each.
proof fn lemma_moves_upto(m: GameModel, n: int)
    requires
        m.wf(),
        0 <= n <= BOARD_SIZE,
    ensures
        forall|j: int|
            #[trigger] m.moves_upto(n).contains(j) <==> m.legal(j) && (j == 0 || exists|i: int|
                0 <= i < n && m.board[i] == Some(m.current) && path_of(i, m.current) == Some(j)),
        m.moves_upto(n).no_duplicates(),
    decreases n,
{
    let p = m.current;
    if n == 0 {
        let s = m.moves_upto(0);
        assert forall|j: int| #[trigger] s.contains(j) <==> m.legal(j) && j == 0 by {
            if m.legal(j) && j == 0 {
                assert(s[0] == j);
            }
        }
    } else {
        let i = n - 1;
        let prev = m.moves_upto(n - 1);
        lemma_moves_upto(m, n - 1);
        assert forall|j: int|
            m.legal(j) && j != 0 && (exists|i1: int|
                0 <= i1 < n && m.board[i1] == Some(p) && path_of(i1, p) == Some(j)) && !(exists|
                i1: int|
                0 <= i1 < n - 1 && m.board[i1] == Some(p) && path_of(i1, p) == Some(
                    j,
                )) implies m.board[i] == Some(p) && #[trigger] path_of(i, p) == Some(j) by {
            let i1 = choose|i1: int|
                0 <= i1 < n && m.board[i1] == Some(p) && path_of(i1, p) == Some(j);
            assert(i1 == i);
        }
        if let Some(j0) = path_of(i, p) {
            if m.board[i] == Some(p) && m.legal(j0) {
                assert forall|i2: int|
                    0 <= i2 < i && #[trigger] path_of(i2, p) == Some(j0) implies false by {
                    lemma_path_bijection(i2, j0, p);
                    lemma_path_bijection(i, j0, p);
                }
                assert(!prev.contains(j0));
                let cur = prev.push(j0);
                assert forall|j: int| #[trigger] cur.contains(j) <==> prev.contains(j) || j == j0 by {
                    if cur.contains(j) {
                        let k = choose|k: int| 0 <= k < cur.len() && cur[k] == j;
                        if k < prev.len() {
                            assert(prev[k] == j);
                        }
                    }
                    if prev.contains(j) {
                        let k = choose|k: int| 0 <= k < prev.len() && prev[k] == j;
                        assert(cur[k] == j);
                    }
                    if j == j0 {
                        assert(cur[prev.len() as int] == j);
                    }
                }
                assert forall|a: int, b: int|
                    0 <= a < cur.len() && 0 <= b < cur.len() && a != b implies cur[a] != cur[b] by {
                    if a < prev.len() && b < prev.len() {
                    } else if a < prev.len() {
                        assert(prev.contains(cur[a]));
                    } else {
                        assert(prev.contains(cur[b]));
                    }
                }
            }
        }
    }
}

/// The listing of valid moves: a path position is listed exactly when the
/// mover may move from it and it is either the reserve (0) or the path
/// position of a square holding a piece of the mover; none is listed twice.
pub proof fn lemma_valid_moves_listing(m: GameModel)
    requires
        m.wf(),
    ensures
        forall|j: int|
            #[trigger] m.valid_moves().contains(j) <==> m.legal(j) && (j == 0 || exists|i: int|
                0 <= i < BOARD_SIZE && m.board[i] == Some(m.current) && path_of(i, m.current)
                    == Some(j)),
        m.valid_moves().no_duplicates(),
{
    lemma_moves_upto(m, BOARD_SIZE as int);
}

} // verus!
