use vstd::prelude::*;

use crate::board::{lemma_set_cell, Board};
use crate::errors::{GameError, GameResult};
use crate::game::{
    apply_move, attacks, castle_applies, dist, is_pawn_of, king_in_check, path_clear_diagonal,
    path_clear_straight, pawn_backward, side_to_move, strictly_between, toward, turn_outcome, Game,
    TurnError, TurnReport,
};
use crate::piece::{Coordinates, PawnData, Piece, PieceType};

verus! {

broadcast use lemma_set_cell;

/// Every square but `from` is empty.
pub open spec fn only_piece_at(b: Board, from: Coordinates) -> bool {
    forall|r: int, f: int|
        0 <= r < 8 && 0 <= f < 8 && (r != from.0 || f != from.1) ==> (#[trigger] b.cell_rf(r, f)) is None
}

/// Whether a piece of kind `kind` on `from` reaches `to` on an otherwise empty board.
pub open spec fn geometric_reach(kind: PieceType, from: Coordinates, to: Coordinates) -> bool {
    let dr = dist(from.0 as int, to.0 as int);
    let df = dist(from.1 as int, to.1 as int);
    match kind {
        PieceType::King(_) => dr <= 1 && df <= 1,
        PieceType::Knight => (dr == 2 && df == 1) || (dr == 1 && df == 2),
        PieceType::Rook(_) => from.0 == to.0 || from.1 == to.1,
        PieceType::Bishop => dr == df,
        PieceType::Queen => from.0 == to.0 || from.1 == to.1 || dr == df,
        PieceType::Pawn(_) => false,
    }
}

/// Two pieces are of the same kind, whatever their flags.
pub open spec fn same_kind(a: PieceType, b: PieceType) -> bool {
    match (a, b) {
        (PieceType::Pawn(_), PieceType::Pawn(_)) => true,
        (PieceType::Rook(_), PieceType::Rook(_)) => true,
        (PieceType::King(_), PieceType::King(_)) => true,
        _ => a == b,
    }
}

/// Every square of the two boards is empty on both, or holds pieces of the
/// same side and kind on both.
pub open spec fn same_occupancy(b1: Board, b2: Board) -> bool {
    forall|r: int, f: int|
        0 <= r < 8 && 0 <= f < 8 ==> match (#[trigger] b1.cell_rf(r, f), b2.cell_rf(r, f)) {
            (None, None) => true,
            (Some(p), Some(q)) => p.color == q.color && same_kind(p.piece_type, q.piece_type),
            _ => false,
        }
}

/// A piece alone on the board attacks exactly the squares its geometry
/// reaches: nothing blocks it.
pub proof fn lemma_lone_piece_attacks(b: Board, kind: PieceType, from: Coordinates, to: Coordinates)
    requires
        from.on_board(),
        to.on_board(),
        only_piece_at(b, from),
    ensures
        attacks(b, kind, from, to) == geometric_reach(kind, from, to),
{
    assert forall|f: int| strictly_between(f, from.1 as int, to.1 as int) implies (#[trigger] b.cell_rf(from.0 as int, f)) is None by {}
    assert forall|r: int| strictly_between(r, from.0 as int, to.0 as int) implies (#[trigger] b.cell_rf(r, from.1 as int)) is None by {}
    if dist(from.0 as int, to.0 as int) == dist(from.1 as int, to.1 as int) {
        assert forall|k: int| 0 < k < dist(from.0 as int, to.0 as int) implies (#[trigger] b.cell_rf(
            toward(from.0 as int, to.0 as int, k),
            toward(from.1 as int, to.1 as int, k),
        )) is None by {}
        assert(path_clear_diagonal(b, from, to));
    }
    if from.0 == to.0 || from.1 == to.1 {
        assert(path_clear_straight(b, from, to));
    }
}

/// Reading a path backwards: what is clear from `s` to `e` on `b` is clear
/// from `e` to `s` on a board that differs from `b` only on `s` and `e`.
proof fn lemma_path_reversed(b: Board, b1: Board, s: Coordinates, e: Coordinates)
    requires
        s.on_board(),
        e.on_board(),
        forall|r: int, f: int|
            0 <= r < 8 && 0 <= f < 8 && !(r == s.0 && f == s.1) && !(r == e.0 && f == e.1) ==> #[trigger] b1.cell_rf(r, f)
                == b.cell_rf(r, f),
    ensures
        path_clear_straight(b, s, e) ==> path_clear_straight(b1, e, s),
        path_clear_diagonal(b, s, e) ==> path_clear_diagonal(b1, e, s),
{
    if path_clear_straight(b, s, e) {
        assert forall|f: int| strictly_between(f, e.1 as int, s.1 as int) implies (#[trigger] b1.cell_rf(e.0 as int, f)) is None by {
            assert(b.cell_rf(s.0 as int, f) is None);
        }
        assert forall|r: int| strictly_between(r, e.0 as int, s.0 as int) implies (#[trigger] b1.cell_rf(r, e.1 as int)) is None by {
            assert(b.cell_rf(r, s.1 as int) is None);
        }
    }
    if path_clear_diagonal(b, s, e) {
        let d = dist(s.0 as int, e.0 as int);
        assert forall|k: int| 0 < k < dist(e.0 as int, s.0 as int) implies (#[trigger] b1.cell_rf(
            toward(e.0 as int, s.0 as int, k),
            toward(e.1 as int, s.1 as int, k),
        )) is None by {
            assert(toward(e.0 as int, s.0 as int, k) == toward(s.0 as int, e.0 as int, d - k));
            assert(toward(e.1 as int, s.1 as int, k) == toward(s.1 as int, e.1 as int, d - k));
            assert(b.cell_rf(toward(s.0 as int, e.0 as int, d - k), toward(s.1 as int, e.1 as int, d - k)) is None);
        }
    }
}

/// A plain move undone: when a piece other than a king makes a `Normal` move,
/// moving it straight back succeeds (as a `Normal` move, for any piece but a
/// pawn) and puts every piece where it stood, up to the flags the moves
/// changed; on a well-formed board every piece still names its own square.
pub proof fn lemma_normal_move_round_trip(b: Board, s: Coordinates, e: Coordinates)
    requires
        s.on_board(),
        e.on_board(),
        apply_move(b, s, e).1 == Ok::<GameResult, GameError>(GameResult::Normal),
        !(b.cell(s)->Some_0.piece_type is King),
    ensures
        apply_move(apply_move(b, s, e).0, e, s).1 is Ok,
        !(b.cell(s)->Some_0.piece_type is Pawn) ==> apply_move(apply_move(b, s, e).0, e, s).1 == Ok::<
            GameResult,
            GameError,
        >(GameResult::Normal),
        same_occupancy(b, apply_move(apply_move(b, s, e).0, e, s).0),
        b.wf() ==> apply_move(apply_move(b, s, e).0, e, s).0.wf(),
{
    let p = b.cell(s)->Some_0;
    let b1 = apply_move(b, s, e).0;
    assert(b.cell(e) is None);
    assert(s != e);
    assert(b1 == b.after_move(s, e));
    lemma_path_reversed(b, b1, s, e);
    let q = b1.cell(e)->Some_0;
    assert(!castle_applies(b1, e, s));
    match p.piece_type {
        PieceType::Pawn(_) => {},
        _ => {
            assert(attacks(b1, q.piece_type, e, s));
        },
    }
    let b2 = apply_move(b1, e, s).0;
    assert(b2 == b1.after_move(e, s));
    if b.wf() {
        lemma_after_move_wf(b, s, e);
        lemma_after_move_wf(b1, e, s);
    }
}

/// A plain relocation keeps every piece naming its own square.
proof fn lemma_after_move_wf(b: Board, s: Coordinates, e: Coordinates)
    requires
        s.on_board(),
        e.on_board(),
        s != e,
        b.cell(s) is Some,
        b.wf(),
    ensures
        b.after_move(s, e).wf(),
{
    let b2 = b.after_move(s, e);
    assert forall|r: int, f: int| 0 <= r < 8 && 0 <= f < 8 && (#[trigger] b2.cell_rf(r, f)) is Some implies b2.cell_rf(r, f)->Some_0.coordinates == Coordinates(r as u8, f as u8) by {
        assert(b.cell_rf(r, f) == b.cell_rf(r, f));
    }
}

/// Castling: an unmarked king on `s` and an unmarked rook of its side on `e`,
/// with nothing between them, trade squares; both are marked as castled and
/// every other square is left as it was.
pub proof fn lemma_castle(b: Board, s: Coordinates, e: Coordinates)
    requires
        s.on_board(),
        e.on_board(),
        castle_applies(b, s, e),
        path_clear_straight(b, s, e),
    ensures
        apply_move(b, s, e).1 == Ok::<GameResult, GameError>(GameResult::Castle),
        apply_move(b, s, e).0.cell(e) == Some(
            Piece { piece_type: PieceType::King(true), color: b.cell(s)->Some_0.color, coordinates: e },
        ),
        apply_move(b, s, e).0.cell(s) == Some(
            Piece { piece_type: PieceType::Rook(true), color: b.cell(s)->Some_0.color, coordinates: s },
        ),
        forall|r: int, f: int|
            0 <= r < 8 && 0 <= f < 8 && !(r == s.0 && f == s.1) && !(r == e.0 && f == e.1) ==> #[trigger] apply_move(
                b,
                s,
                e,
            ).0.cell_rf(r, f) == b.cell_rf(r, f),
{
    assert(s != e);
}

/// En passant: after a pawn's two-square advance from `s` to `e` lands beside
/// an enemy pawn on file `side_file`, that pawn may at once capture it by
/// moving diagonally onto the square the advance passed over; the advanced
/// pawn is removed and the capturer stands on that square.
pub proof fn lemma_en_passant_after_double_advance(b: Board, s: Coordinates, e: Coordinates, side_file: u8)
    requires
        s.on_board(),
        e.on_board(),
        side_file < 8,
        dist(side_file as int, e.1 as int) == 1,
        b.cell(s) matches Some(p) && p.piece_type == PieceType::Pawn(PawnData { has_moved: false, can_en_pessant: false }),
        dist(s.0 as int, e.0 as int) == 2,
        s.1 == e.1,
        path_clear_straight(b, s, e),
        b.cell(e) is None,
        is_pawn_of(b.cell(Coordinates(e.0, side_file)), b.cell(s)->Some_0.color.opponent()),
    ensures
        ({
            let moved = apply_move(b, s, e);
            let passed = Coordinates(((s.0 + e.0) / 2) as u8, e.1);
            let taken = apply_move(moved.0, Coordinates(e.0, side_file), passed);
            &&& moved.1 == Ok::<GameResult, GameError>(GameResult::DoublePawn)
            &&& taken.1 == Ok::<GameResult, GameError>(GameResult::EnPessant)
            &&& taken.0.cell(e) is None
            &&& taken.0.cell(Coordinates(e.0, side_file)) is None
            &&& is_pawn_of(taken.0.cell(passed), b.cell(s)->Some_0.color.opponent())
        }),
{
    let color = b.cell(s)->Some_0.color;
    let n = Coordinates(e.0, side_file);
    let passed = Coordinates(((s.0 + e.0) / 2) as u8, e.1);
    assert(strictly_between(passed.0 as int, s.0 as int, e.0 as int));
    assert(b.cell(passed) is None);
    let b1 = apply_move(b, s, e).0;
    assert(b1.cell(e)->Some_0.color == color);
    assert(b1.cell(passed) is None);
    assert(b1.cell(n)->Some_0.piece_type == PieceType::Pawn(PawnData { has_moved: true, can_en_pessant: true }));
    assert(b1.cell(n)->Some_0.color == color.opponent());
    assert(!castle_applies(b1, n, passed));
}

/// Escaping check: when the side to move is in check, a turn whose move would
/// leave its king attacked is refused and changes nothing; a move that leaves
/// it out of check is carried out, unless it is a pawn heading back.
pub proof fn lemma_check_escape(g: Game, s: Coordinates, e: Coordinates)
    requires
        s.on_board(),
        e.on_board(),
        king_in_check(g.board, side_to_move(g.move_num)),
        g.board.cell(s) matches Some(p) && p.color == side_to_move(g.move_num),
    ensures
        king_in_check(apply_move(g.board, s, e).0, side_to_move(g.move_num)) ==> turn_outcome(g, s, e) == (
            g,
            Err::<TurnReport, TurnError>(TurnError::MustEscapeCheck),
        ),
        !king_in_check(apply_move(g.board, s, e).0, side_to_move(g.move_num)) && !(g.board.cell(s)->Some_0.piece_type is Pawn
            && pawn_backward(side_to_move(g.move_num), s, e)) ==> turn_outcome(g, s, e).1 is Ok,
{
    let side = side_to_move(g.move_num);
    if !king_in_check(apply_move(g.board, s, e).0, side) {
        if apply_move(g.board, s, e).1 is Err {
            assert(apply_move(g.board, s, e).0 == g.board);
        }
    }
}

} // verus!
