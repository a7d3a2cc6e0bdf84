use vstd::array::spec_array_update;
use vstd::prelude::*;

use crate::piece::{build_piece, Coordinates, PawnData, Piece, PieceColor, PieceType};

verus! {

/// An 8x8 grid of squares, indexed `[rank][file]`, each empty or holding one piece.
#[derive(Debug, Clone, Copy)]
pub struct Board {
    pub board: [[Option<Piece>; 8]; 8],
}

/// The piece as it stands after a plain relocation to `end`: a king or rook is
/// marked as moved, so it may no longer castle; a pawn is marked as moved and
/// no longer open to en passant.
pub open spec fn relocated(p: Piece, end: Coordinates) -> Piece {
    Piece {
        piece_type: match p.piece_type {
            PieceType::King(_) => PieceType::King(true),
            PieceType::Rook(_) => PieceType::Rook(true),
            PieceType::Pawn(_) => PieceType::Pawn(PawnData { has_moved: true, can_en_pessant: false }),
            t => t,
        },
        color: p.color,
        coordinates: end,
    }
}

/// The piece as it stands after castling brings it to `c`: a rook landing on the
/// king's square and a king landing on the rook's square are marked as castled.
pub open spec fn castled(p: Piece, c: Coordinates, rook_side: bool) -> Piece {
    Piece {
        piece_type: match p.piece_type {
            PieceType::Rook(_) => if rook_side { PieceType::Rook(true) } else { p.piece_type },
            PieceType::King(_) => if !rook_side { PieceType::King(true) } else { p.piece_type },
            t => t,
        },
        color: p.color,
        coordinates: c,
    }
}

/// The kind of piece that starts on file `f` of a back rank.
pub open spec fn back_rank_kind_at(f: int) -> PieceType {
    if f == 0 || f == 7 {
        PieceType::Rook(false)
    } else if f == 1 || f == 6 {
        PieceType::Knight
    } else if f == 2 || f == 5 {
        PieceType::Bishop
    } else if f == 3 {
        PieceType::Queen
    } else {
        PieceType::King(false)
    }
}

/// What stands on each square of the standard opening position.
pub open spec fn starting_cell(r: int, f: int) -> Option<Piece> {
    let c = Coordinates(r as u8, f as u8);
    let color = if r <= 1 { PieceColor::Black } else { PieceColor::White };
    if r == 1 || r == 6 {
        Some(Piece { piece_type: PieceType::Pawn(PawnData { has_moved: false, can_en_pessant: false }), color, coordinates: c })
    } else if r == 0 || r == 7 {
        Some(Piece { piece_type: back_rank_kind_at(f), color, coordinates: c })
    } else {
        None
    }
}

impl Board {
    /// The square at rank `r`, file `f`.
    pub open spec fn cell_rf(self, r: int, f: int) -> Option<Piece> {
        self.board[r][f]
    }

    /// The square at `c`.
    pub open spec fn cell(self, c: Coordinates) -> Option<Piece> {
        self.cell_rf(c.0 as int, c.1 as int)
    }

    /// The board with square `c` replaced by `v`.
    pub open spec fn set_cell(self, c: Coordinates, v: Option<Piece>) -> Board {
        Board {
            board: spec_array_update(
                self.board,
                c.0 as int,
                spec_array_update(self.board[c.0 as int], c.1 as int, v),
            ),
        }
    }

    /// Every piece's cached coordinates name the square it stands on.
    pub open spec fn wf(self) -> bool {
        forall|r: int, f: int|
            0 <= r < 8 && 0 <= f < 8 && (#[trigger] self.cell_rf(r, f)) is Some ==> self.cell_rf(r, f)->Some_0.coordinates == Coordinates(r as u8, f as u8)
    }

    /// The board after the piece on `start` has been relocated to `end`,
    /// discarding whatever stood there.
    pub open spec fn after_move(self, start: Coordinates, end: Coordinates) -> Board {
        self.set_cell(start, None).set_cell(end, Some(relocated(self.cell(start)->Some_0, end)))
    }

    /// The board after the occupants of `start` and `end` have traded places.
    pub open spec fn after_swap(self, start: Coordinates, end: Coordinates) -> Board {
        self.set_cell(end, Some(castled(self.cell(start)->Some_0, end, false))).set_cell(
            start,
            Some(castled(self.cell(end)->Some_0, start, true)),
        )
    }

    /// The board holds the standard opening position.
    pub open spec fn is_starting(self) -> bool {
        forall|r: int, f: int| 0 <= r < 8 && 0 <= f < 8 ==> #[trigger] self.cell_rf(r, f) == starting_cell(r, f)
    }

    /// Moves the piece on `start` to `end`, discarding any piece on `end`. A
    /// king or rook moved here is marked as moved and loses its right to
    /// castle; a pawn is marked as moved and no longer open to en passant.
    /// No rule of play is checked here.
    pub fn move_piece(&mut self, start: Coordinates, end: Coordinates)
        requires
            start.on_board(),
            end.on_board(),
            start != end,
            old(self).cell(start) is Some,
        ensures
            *final(self) == old(self).after_move(start, end),
            old(self).wf() ==> final(self).wf(),
    {
        broadcast use lemma_set_cell;

        let p = self.board[start.0 as usize][start.1 as usize].unwrap();
        let piece_type = match p.piece_type {
            PieceType::King(_) => PieceType::King(true),
            PieceType::Rook(_) => PieceType::Rook(true),
            PieceType::Pawn(_) => PieceType::Pawn(PawnData { can_en_pessant: false, has_moved: true }),
            t => t,
        };
        *self.at(start) = None;
        *self.at(end) = Some(Piece { piece_type, color: p.color, coordinates: end });
    }

    /// Trades the occupants of `start` and `end`, as castling does, and marks
    /// the rook now on `start` and the king now on `end` as castled.
    pub fn swap_pieces(&mut self, start: Coordinates, end: Coordinates)
        requires
            start.on_board(),
            end.on_board(),
            old(self).cell(start) is Some,
            old(self).cell(end) is Some,
        ensures
            *final(self) == old(self).after_swap(start, end),
            old(self).wf() ==> final(self).wf(),
    {
        broadcast use lemma_set_cell;

        let ps = self.board[start.0 as usize][start.1 as usize].unwrap();
        let pe = self.board[end.0 as usize][end.1 as usize].unwrap();
        let king_type = match ps.piece_type {
            PieceType::King(_) => PieceType::King(true),
            t => t,
        };
        let rook_type = match pe.piece_type {
            PieceType::Rook(_) => PieceType::Rook(true),
            t => t,
        };
        *self.at(end) = Some(Piece { piece_type: king_type, color: ps.color, coordinates: end });
        *self.at(start) = Some(Piece { piece_type: rook_type, color: pe.color, coordinates: start });
    }

    /// The square at `coords`, open for writing.
    pub fn at(&mut self, coords: Coordinates) -> (r: &mut Option<Piece>)
        requires
            coords.on_board(),
        ensures
            *r == old(self).cell(coords),
            *final(self) == old(self).set_cell(coords, *final(r)),
    {
        &mut self.board[coords.0 as usize][coords.1 as usize]
    }
}

impl Default for Board {
    /// A board in the standard opening position.
    fn default() -> (r: Self)
        ensures
            r.is_starting(),
            r.wf(),
    {
        Board { board: build_starting_board() }
    }
}

/// The kind of piece that starts on file `f` of a back rank.
fn back_rank_kind(f: u8) -> (r: PieceType)
    requires
        f < 8,
    ensures
        r == back_rank_kind_at(f as int),
{
    if f == 0 || f == 7 {
        PieceType::Rook(false)
    } else if f == 1 || f == 6 {
        PieceType::Knight
    } else if f == 2 || f == 5 {
        PieceType::Bishop
    } else if f == 3 {
        PieceType::Queen
    } else {
        PieceType::King(false)
    }
}

/// The grid of the standard opening position: Black on ranks 0 and 1,
/// White on ranks 6 and 7.
pub fn build_starting_board() -> (r: [[Option<Piece>; 8]; 8])
    ensures
        (Board { board: r }).is_starting(),
        (Board { board: r }).wf(),
{
    broadcast use lemma_set_cell;

    let row: [Option<Piece>; 8] = [None, None, None, None, None, None, None, None];
    let mut b = Board { board: [row, row, row, row, row, row, row, row] };
    assert(forall|f: int| 0 <= f < 8 ==> row[f] == None::<Piece>);
    assert(forall|r: int| 0 <= r < 8 ==> b.board[r] == row);
    let mut r: u8 = 0;
    while r < 8
        invariant
            r <= 8,
            forall|r2: int, f2: int|
                0 <= r2 < 8 && 0 <= f2 < 8 ==> #[trigger] b.cell_rf(r2, f2) == if r2 < r {
                    starting_cell(r2, f2)
                } else {
                    None
                },
        decreases 8 - r,
    {
        let mut f: u8 = 0;
        while f < 8
            invariant
                r < 8,
                f <= 8,
                forall|r2: int, f2: int|
                    0 <= r2 < 8 && 0 <= f2 < 8 ==> #[trigger] b.cell_rf(r2, f2) == if r2 < r || (r2 == r
                        && f2 < f) {
                        starting_cell(r2, f2)
                    } else {
                        None
                    },
            decreases 8 - f,
        {
            let color = if r <= 1 { PieceColor::Black } else { PieceColor::White };
            let c = Coordinates(r, f);
            let ghost b0 = b;
            if r == 1 || r == 6 {
                *b.at(c) = build_piece(PieceType::Pawn(PawnData { has_moved: false, can_en_pessant: false }), color, c);
            } else if r == 0 || r == 7 {
                *b.at(c) = build_piece(back_rank_kind(f), color, c);
            }
            assert(b.cell_rf(r as int, f as int) == starting_cell(r as int, f as int));
            assert forall|r2: int, f2: int| 0 <= r2 < 8 && 0 <= f2 < 8 && (r2 != r || f2 != f) implies #[trigger] b.cell_rf(r2, f2) == b0.cell_rf(r2, f2) by {
                if r == 1 || r == 6 || r == 0 || r == 7 {
                    lemma_set_cell(b0, c, b.cell(c), r2, f2);
                }
            }
            f = f + 1;
        }
        r = r + 1;
    }
    b.board
}

/// Replacing one square changes that square alone.
pub broadcast proof fn lemma_set_cell(b: Board, c: Coordinates, v: Option<Piece>, r: int, f: int)
    requires
        c.on_board(),
        0 <= r < 8,
        0 <= f < 8,
    ensures
        #[trigger] b.set_cell(c, v).cell_rf(r, f) == if r == c.0 && f == c.1 { v } else { b.cell_rf(r, f) },
{
    let row = spec_array_update(b.board[c.0 as int], c.1 as int, v);
    assert(row@ == b.board[c.0 as int]@.update(c.1 as int, v));
    assert(spec_array_update(b.board, c.0 as int, row)@ == b.board@.update(c.0 as int, row));
}

} // verus!
