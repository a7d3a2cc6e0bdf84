use vstd::prelude::*;

verus! {

/// The two sides of a game.
#[derive(Debug, PartialEq, Eq, Structural, Copy, Clone)]
pub enum PieceColor {
    Black,
    White,
}

impl PieceColor {
    /// The opposing side.
    pub open spec fn opponent(self) -> PieceColor {
        match self {
            PieceColor::White => PieceColor::Black,
            PieceColor::Black => PieceColor::White,
        }
    }

    /// Returns the opposing side.
    pub fn swap(&self) -> (r: PieceColor)
        ensures
            r == self.opponent(),
            r != *self,
    {
        match self {
            PieceColor::White => PieceColor::Black,
            PieceColor::Black => PieceColor::White,
        }
    }

    /// The side's name, for display.
    pub fn name(&self) -> (r: &'static str)
        ensures
            r@ == match self {
                PieceColor::Black => "Black"@,
                PieceColor::White => "White"@,
            },
    {
        match self {
            PieceColor::Black => "Black",
            PieceColor::White => "White",
        }
    }
}

/// Flags a pawn carries between moves.
#[derive(Debug, Default, PartialEq, Eq, Structural, Copy, Clone)]
pub struct PawnData {
    pub has_moved: bool,
    pub can_en_pessant: bool,
}

/// The kind of a piece. `Rook` and `King` carry a flag that is `true` once
/// the piece has moved or castled; only unmarked ones may castle.
#[derive(Debug, PartialEq, Eq, Structural, Copy, Clone)]
pub enum PieceType {
    Pawn(PawnData),
    Rook(bool),
    King(bool),
    Bishop,
    Knight,
    Queen,
}

/// A square as (rank, file); rank 0 is Black's back rank.
#[derive(Debug, PartialEq, Eq, Structural, Copy, Clone)]
pub struct Coordinates(pub u8, pub u8);

impl Coordinates {
    /// Both parts lie on the board.
    pub open spec fn on_board(self) -> bool {
        self.0 < 8 && self.1 < 8
    }
}

/// A piece, with the square it stands on.
#[derive(Debug, PartialEq, Eq, Structural, Copy, Clone)]
pub struct Piece {
    pub piece_type: PieceType,
    pub color: PieceColor,
    pub coordinates: Coordinates,
}

impl Piece {
    /// The letter that stands for this piece on a printed board: p, r, k, b,
    /// n or q, in upper case for White.
    pub open spec fn spec_symbol(self) -> char {
        let lower = match self.piece_type {
            PieceType::Pawn(_) => 'p',
            PieceType::Rook(_) => 'r',
            PieceType::King(_) => 'k',
            PieceType::Bishop => 'b',
            PieceType::Knight => 'n',
            PieceType::Queen => 'q',
        };
        let upper = match self.piece_type {
            PieceType::Pawn(_) => 'P',
            PieceType::Rook(_) => 'R',
            PieceType::King(_) => 'K',
            PieceType::Bishop => 'B',
            PieceType::Knight => 'N',
            PieceType::Queen => 'Q',
        };
        if self.color == PieceColor::White {
            upper
        } else {
            lower
        }
    }

    /// The letter that stands for this piece on a printed board.
    pub fn symbol(&self) -> (r: char)
        ensures
            r == self.spec_symbol(),
    {
        let white = self.color == PieceColor::White;
        match self.piece_type {
            PieceType::Pawn(_) => if white { 'P' } else { 'p' },
            PieceType::Rook(_) => if white { 'R' } else { 'r' },
            PieceType::King(_) => if white { 'K' } else { 'k' },
            PieceType::Bishop => if white { 'B' } else { 'b' },
            PieceType::Knight => if white { 'N' } else { 'n' },
            PieceType::Queen => if white { 'Q' } else { 'q' },
        }
    }
}

/// Wraps a new piece in `Some`, ready to be put on a square.
pub fn build_piece(piece: PieceType, color: PieceColor, coordinates: Coordinates) -> (r: Option<Piece>)
    ensures
        r == Some(Piece { piece_type: piece, color, coordinates }),
{
    let to_build = Piece { piece_type: piece, color, coordinates };
    Some(to_build)
}

} // verus!
