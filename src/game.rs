use vstd::prelude::*;

use crate::board::{lemma_set_cell, Board};
use crate::errors::{ConversionError, GameError, GameResult};
use crate::piece::{Coordinates, PawnData, Piece, PieceColor, PieceType};

verus! {

broadcast use lemma_set_cell;

/// A game in progress: the board, the side to move and the move counters.
#[derive(Debug, Clone, Copy)]
pub struct Game {
    pub board: Board,
    pub turn: PieceColor,
    pub move_num: u8,
    pub turn_num: u8,
}

/// The distance between two integers.
pub open spec fn dist(a: int, b: int) -> int {
    if a >= b {
        a - b
    } else {
        b - a
    }
}

/// `x` lies strictly between `a` and `b`, in either order.
pub open spec fn strictly_between(x: int, a: int, b: int) -> bool {
    (a < x && x < b) || (b < x && x < a)
}

/// The value `k` steps from `a` in the direction of `b`.
pub open spec fn toward(a: int, b: int, k: int) -> int {
    if a <= b {
        a + k
    } else {
        a - k
    }
}

/// `s` and `e` share a rank or a file, and every square strictly between them is empty.
pub open spec fn path_clear_straight(b: Board, s: Coordinates, e: Coordinates) -> bool {
    &&& (s.0 == e.0 || s.1 == e.1)
    &&& (s.0 == e.0 ==> forall|f: int|
        strictly_between(f, s.1 as int, e.1 as int) ==> (#[trigger] b.cell_rf(s.0 as int, f)) is None)
    &&& (s.1 == e.1 ==> forall|r: int|
        strictly_between(r, s.0 as int, e.0 as int) ==> (#[trigger] b.cell_rf(r, s.1 as int)) is None)
}

/// `s` and `e` share a diagonal, and every square strictly between them is empty.
pub open spec fn path_clear_diagonal(b: Board, s: Coordinates, e: Coordinates) -> bool {
    &&& dist(s.0 as int, e.0 as int) == dist(s.1 as int, e.1 as int)
    &&& forall|k: int|
        0 < k < dist(s.0 as int, e.0 as int) ==> (#[trigger] b.cell_rf(
            toward(s.0 as int, e.0 as int, k),
            toward(s.1 as int, e.1 as int, k),
        )) is None
}

/// A piece of kind `kind` on `from` reaches `to` by its own geometry, given
/// what stands between. Pawns reach nothing by this rule.
pub open spec fn attacks(b: Board, kind: PieceType, from: Coordinates, to: Coordinates) -> bool {
    let dr = dist(from.0 as int, to.0 as int);
    let df = dist(from.1 as int, to.1 as int);
    match kind {
        PieceType::King(_) => dr <= 1 && df <= 1,
        PieceType::Rook(_) => path_clear_straight(b, from, to),
        PieceType::Queen => path_clear_straight(b, from, to) || path_clear_diagonal(b, from, to),
        PieceType::Knight => (dr == 2 && df == 1) || (dr == 1 && df == 2),
        PieceType::Bishop => path_clear_diagonal(b, from, to),
        PieceType::Pawn(_) => false,
    }
}

/// A piece of `color` stands on rank `r`, file `f` and attacks `t`.
pub open spec fn attacker_at(b: Board, color: PieceColor, r: int, f: int, t: Coordinates) -> bool {
    match b.cell_rf(r, f) {
        Some(p) => p.color == color && attacks(b, p.piece_type, Coordinates(r as u8, f as u8), t),
        None => false,
    }
}

/// Some piece of `color` attacks `t`.
pub open spec fn square_attacked_by(b: Board, color: PieceColor, t: Coordinates) -> bool {
    exists|r: int, f: int| 0 <= r < 8 && 0 <= f < 8 && #[trigger] attacker_at(b, color, r, f, t)
}

/// `s` and `e` share a rank or a file, and every square strictly between them
/// is attacked by `color`.
pub open spec fn line_attacked_by(b: Board, color: PieceColor, s: Coordinates, e: Coordinates) -> bool {
    &&& (s.0 == e.0 || s.1 == e.1)
    &&& (s.0 == e.0 ==> forall|f: int|
        #![trigger strictly_between(f, s.1 as int, e.1 as int)]
        strictly_between(f, s.1 as int, e.1 as int) ==> square_attacked_by(b, color, Coordinates(s.0, f as u8)))
    &&& (s.1 == e.1 ==> forall|r: int|
        #![trigger strictly_between(r, s.0 as int, e.0 as int)]
        strictly_between(r, s.0 as int, e.0 as int) ==> square_attacked_by(b, color, Coordinates(r as u8, s.1)))
}

/// A king of `color` stands on rank `r`, file `f` and is attacked by the other side.
pub open spec fn king_attacked_at(b: Board, color: PieceColor, r: int, f: int) -> bool {
    match b.cell_rf(r, f) {
        Some(p) => p.piece_type is King && p.color == color && square_attacked_by(
            b,
            color.opponent(),
            Coordinates(r as u8, f as u8),
        ),
        None => false,
    }
}

/// Some king of `color` is attacked by the other side.
pub open spec fn king_in_check(b: Board, color: PieceColor) -> bool {
    exists|r: int, f: int| 0 <= r < 8 && 0 <= f < 8 && #[trigger] king_attacked_at(b, color, r, f)
}

/// `p` is a pawn of `color`.
pub open spec fn is_pawn_of(p: Option<Piece>, color: PieceColor) -> bool {
    p matches Some(q) && q.piece_type is Pawn && q.color == color
}

/// The board with a pawn of the side opposing `mover` on `c`, if there is one,
/// marked as open to en passant.
pub open spec fn mark_en_passant(b: Board, c: Coordinates, mover: PieceColor) -> Board {
    if is_pawn_of(b.cell(c), mover.opponent()) {
        let q = b.cell(c)->Some_0;
        b.set_cell(
            c,
            Some(Piece {
                piece_type: PieceType::Pawn(PawnData { has_moved: true, can_en_pessant: true }),
                color: q.color,
                coordinates: q.coordinates,
            }),
        )
    } else {
        b
    }
}

/// The board after a pawn of `mover` advances two squares from `s` to `e`:
/// enemy pawns beside `e` become open to en passant.
pub open spec fn after_double_advance(b: Board, s: Coordinates, e: Coordinates, mover: PieceColor) -> Board {
    let b1 = if e.1 > 0 {
        mark_en_passant(b, Coordinates(e.0, (e.1 - 1) as u8), mover)
    } else {
        b
    };
    let b2 = if e.1 < 7 {
        mark_en_passant(b1, Coordinates(e.0, (e.1 + 1) as u8), mover)
    } else {
        b1
    };
    b2.after_move(s, e)
}

/// A move landing on rank `r` promotes a pawn.
pub open spec fn is_last_rank(r: u8) -> bool {
    r == 0 || r == 7
}

/// The outcome of moving the pawn `p`, with flags `d`, from `s` to `e`.
pub open spec fn pawn_move(b: Board, s: Coordinates, e: Coordinates, p: Piece, d: PawnData) -> (Board, Result<GameResult, GameError>) {
    let dr = dist(s.0 as int, e.0 as int);
    let df = dist(s.1 as int, e.1 as int);
    if dr == 2 && df == 0 && !d.has_moved && path_clear_straight(b, s, e) {
        (after_double_advance(b, s, e, p.color), Ok(GameResult::DoublePawn))
    } else if dr == 1 && df == 1 && d.can_en_pessant && b.cell(e) is None {
        let behind = Coordinates(s.0, e.1);
        if is_pawn_of(b.cell(behind), p.color.opponent()) {
            (b.set_cell(behind, None).after_move(s, e), Ok(GameResult::EnPessant))
        } else {
            (b, Err(GameError::GenericError))
        }
    } else if dr == 1 && df == 1 && b.cell(e) is Some {
        (b.after_move(s, e), Ok(if is_last_rank(e.0) { GameResult::Promotion } else { GameResult::Capture }))
    } else if dr == 1 && df == 0 && b.cell(e) is None {
        (b.after_move(s, e), Ok(if is_last_rank(e.0) { GameResult::Promotion } else { GameResult::Normal }))
    } else {
        (b, Err(GameError::GenericError))
    }
}

/// A piece other than a pawn, `p` on `s`, may go to `e`: it reaches `e`, and
/// a king does not step onto a square the other side attacks.
pub open spec fn piece_may_move(b: Board, s: Coordinates, e: Coordinates, p: Piece) -> bool {
    attacks(b, p.piece_type, s, e) && (p.piece_type is King ==> !square_attacked_by(b, p.color.opponent(), e))
}

/// The outcome of moving `p`, a piece other than a pawn, from `s` to `e`.
pub open spec fn piece_move(b: Board, s: Coordinates, e: Coordinates, p: Piece) -> (Board, Result<GameResult, GameError>) {
    if piece_may_move(b, s, e, p) {
        (b.after_move(s, e), Ok(if b.cell(e) is Some { GameResult::Capture } else { GameResult::Normal }))
    } else if p.piece_type is King {
        (b, Err(GameError::InvalidMoveCheck))
    } else {
        (b, Err(GameError::InvalidMove))
    }
}

/// `s` holds a king and `e` a rook of the same side, neither of them marked.
pub open spec fn castle_applies(b: Board, s: Coordinates, e: Coordinates) -> bool {
    &&& b.cell(s) matches Some(k) && k.piece_type == PieceType::King(false)
    &&& b.cell(e) matches Some(r) && r.piece_type == PieceType::Rook(false)
    &&& b.cell(s)->Some_0.color == b.cell(e)->Some_0.color
}

/// The board after a request to move from `s` to `e`, and what came of it.
/// In order: an empty start is refused; an unmarked king asking for an
/// unmarked rook of its side castles when the squares between are empty or
/// are not all attacked by the other side; landing on one's own piece is
/// refused; pawns follow `pawn_move`, other pieces `piece_move`. A refused
/// request leaves the board as it was.
pub open spec fn apply_move(b: Board, s: Coordinates, e: Coordinates) -> (Board, Result<GameResult, GameError>) {
    match b.cell(s) {
        None => (b, Err(GameError::NoPieceOnStartSquare)),
        Some(p) => if castle_applies(b, s, e) {
            if path_clear_straight(b, s, e) || !line_attacked_by(b, p.color.opponent(), s, e) {
                (b.after_swap(s, e), Ok(GameResult::Castle))
            } else {
                (b, Err(GameError::InvalidMove))
            }
        } else if b.cell(e) is Some && b.cell(e)->Some_0.color == p.color {
            (b, Err(GameError::SameColorCapture))
        } else {
            match p.piece_type {
                PieceType::Pawn(d) => pawn_move(b, s, e, p, d),
                _ => piece_move(b, s, e, p),
            }
        },
    }
}

/// `p` is a king of `color`.
pub open spec fn is_king_of(p: Option<Piece>, color: PieceColor) -> bool {
    p matches Some(q) && q.piece_type is King && q.color == color
}

/// The last square, in rank-major order among the first `n`, that holds a king
/// of `color`; rank 0, file 0 when there is none.
pub open spec fn last_king_before(b: Board, color: PieceColor, n: int) -> Coordinates
    decreases n,
{
    if n <= 0 {
        Coordinates(0, 0)
    } else if is_king_of(b.cell_rf((n - 1) / 8, (n - 1) % 8), color) {
        Coordinates(((n - 1) / 8) as u8, ((n - 1) % 8) as u8)
    } else {
        last_king_before(b, color, n - 1)
    }
}

/// Where the king of `color` stands: the last one found scanning rank by rank.
pub open spec fn king_square(b: Board, color: PieceColor) -> Coordinates {
    last_king_before(b, color, 64)
}

/// `x + d`, held within the board.
pub open spec fn clamp_step(x: u8, d: int) -> u8 {
    if x + d < 0 {
        0
    } else if x + d > 7 {
        7
    } else {
        (x + d) as u8
    }
}

/// The neighbour of `k` at offset (`i`, `j`), held within the board.
pub open spec fn neighbour(k: Coordinates, i: int, j: int) -> Coordinates {
    Coordinates(clamp_step(k.0, i), clamp_step(k.1, j))
}

/// The king of `color` can step to its neighbour at offset (`i`, `j`) and
/// stand there out of check.
pub open spec fn king_escapes_to(b: Board, color: PieceColor, i: int, j: int) -> bool {
    let k = king_square(b, color);
    let (after, r) = apply_move(b, k, neighbour(k, i, j));
    r is Ok && !king_in_check(after, color)
}

/// The king of `color` has some neighbouring square to escape to.
pub open spec fn king_can_escape(b: Board, color: PieceColor) -> bool {
    exists|i: int, j: int| -1 <= i <= 1 && -1 <= j <= 1 && #[trigger] king_escapes_to(b, color, i, j)
}

/// The board after the pawn on `c`, if there is one, has become a queen.
pub open spec fn promoted(b: Board, c: Coordinates) -> Board {
    match b.cell(c) {
        Some(p) => if p.piece_type is Pawn {
            b.set_cell(c, Some(Piece { piece_type: PieceType::Queen, color: p.color, coordinates: p.coordinates }))
        } else {
            b
        },
        None => b,
    }
}

/// Why a turn was refused before or while the move was tried.
#[derive(Debug, Clone, Copy, PartialEq, Eq, Structural)]
pub enum TurnError {
    /// The start square is empty.
    NoPiece,
    /// The piece on the start square belongs to the other side.
    NotYourPiece,
    /// The side to move is in check and the move would leave it in check.
    MustEscapeCheck,
    /// A pawn may not move back toward its own side.
    PawnBackward,
    /// The move itself was refused.
    Move(GameError),
}

/// What a turn that was played came to.
#[derive(Debug, Clone, Copy, PartialEq, Eq, Structural)]
pub struct TurnReport {
    pub result: GameResult,
    /// The side that moved has mated the other; the game is over.
    pub checkmate: bool,
}

/// The side to move after `move_num` moves: White on even counts.
pub open spec fn side_to_move(move_num: u8) -> PieceColor {
    if move_num % 2 == 0 {
        PieceColor::White
    } else {
        PieceColor::Black
    }
}

/// A pawn of `color` going from `s` to `e` would head back toward its own side.
pub open spec fn pawn_backward(color: PieceColor, s: Coordinates, e: Coordinates) -> bool {
    match color {
        PieceColor::Black => s.0 > e.0,
        PieceColor::White => s.0 < e.0,
    }
}

/// The move counter after one more move, wrapping at the byte's end.
pub open spec fn next_move_num(n: u8) -> u8 {
    if n == 255 {
        0
    } else {
        (n + 1) as u8
    }
}

/// The game after the side to move asks to move from `s` to `e`, and what
/// came of it. A refused turn leaves the game as it was; a mating move ends
/// the game without advancing the counters.
pub open spec fn turn_outcome(g: Game, s: Coordinates, e: Coordinates) -> (Game, Result<TurnReport, TurnError>) {
    let side = side_to_move(g.move_num);
    match g.board.cell(s) {
        None => (g, Err(TurnError::NoPiece)),
        Some(p) => if p.color != side {
            (g, Err(TurnError::NotYourPiece))
        } else if king_in_check(g.board, side) && king_in_check(apply_move(g.board, s, e).0, side) {
            (g, Err(TurnError::MustEscapeCheck))
        } else if p.piece_type is Pawn && pawn_backward(side, s, e) {
            (g, Err(TurnError::PawnBackward))
        } else {
            let (moved, r) = apply_move(g.board, s, e);
            match r {
                Err(x) => (g, Err(TurnError::Move(x))),
                Ok(res) => {
                    let b = if res == GameResult::Promotion { promoted(moved, e) } else { moved };
                    let mate = king_in_check(b, side.opponent()) && !king_can_escape(b, side.opponent());
                    let n = if mate { g.move_num } else { next_move_num(g.move_num) };
                    (
                        Game {
                            board: b,
                            turn: if mate { g.turn } else { side_to_move(n) },
                            move_num: n,
                            turn_num: if mate { g.turn_num } else { (n / 2) as u8 },
                        },
                        Ok(TurnReport { result: res, checkmate: mate }),
                    )
                },
            }
        },
    }
}

/// The code of `c` with a lower-case ASCII letter raised to upper case.
pub open spec fn upper_code(c: char) -> int {
    let x = c as u32;
    if 97 <= x <= 122 {
        x - 32
    } else {
        x as int
    }
}

/// The square named by a file letter `A`-`H` (either case) and a rank digit
/// `1`-`8` at the start of `s`; rank 8 is row 0 of the grid.
pub open spec fn notation_square(s: Seq<char>) -> Option<Coordinates> {
    if s.len() < 2 {
        None
    } else {
        let file = upper_code(s[0]) - 65;
        let rank = (s[1] as u32) - 48;
        if 0 <= file <= 7 && 1 <= rank <= 8 {
            Some(Coordinates((8 - rank) as u8, file as u8))
        } else {
            None
        }
    }
}

/// The squares strictly between `first` and `second`, walking from `first`.
pub fn coord_range(first: usize, second: usize) -> (r: Vec<i32>)
    requires
        first < 0x7fff_ffff,
        second < 0x7fff_ffff,
    ensures
        r@.len() == if first == second { 0 } else { dist(first as int, second as int) - 1 },
        forall|k: int| 0 <= k < r@.len() ==> r@[k] == toward(first as int, second as int, k + 1),
{
    let mut v: Vec<i32> = Vec::new();
    if first > second {
        let mut x: usize = first - 1;
        while x > second
            invariant
                second <= x < first,
                first < 0x7fff_ffff,
                v@.len() == first - 1 - x,
                forall|k: int| 0 <= k < v@.len() ==> v@[k] == first - (k + 1),
            decreases x,
        {
            v.push(x as i32);
            x = x - 1;
        }
    } else {
        let mut x: usize = first + 1;
        while x < second
            invariant
                first < x,
                x <= second || x == first + 1,
                second < 0x7fff_ffff,
                v@.len() == x - first - 1,
                forall|k: int| 0 <= k < v@.len() ==> v@[k] == first + (k + 1),
            decreases second - x,
        {
            v.push(x as i32);
            x = x + 1;
        }
    }
    v
}

impl Default for Game {
    /// A new game: the opening position, White to move, no moves played.
    fn default() -> (r: Self)
        ensures
            r.board.is_starting(),
            r.board.wf(),
            r.turn == PieceColor::White,
            r.move_num == 0,
            r.turn_num == 0,
    {
        Game { board: Board::default(), turn: PieceColor::White, move_num: 0, turn_num: 0 }
    }
}

/// Reads a square written as a file letter and a rank digit, such as `E2`.
pub fn chess_notation_to_array_notation(chess_not: &str) -> (r: Result<Coordinates, ConversionError>)
    ensures
        match notation_square(chess_not@) {
            Some(c) => r == Ok::<Coordinates, ConversionError>(c),
            None => r is Err,
        },
        r matches Ok(c) ==> c.on_board(),
{
    broadcast use vstd::string::next_postcondition, vstd::string::axiom_spec_iter;

    let mut chars = chess_not.chars();
    let first = chars.next();
    let second = chars.next();
    let (file_char, rank_char) = match (first, second) {
        (Some(a), Some(b)) => (a, b),
        _ => {
            return Err(ConversionError);
        },
    };
    assert(chess_not@.len() >= 2 && file_char == chess_not@[0] && rank_char == chess_not@[1]);
    #[verifier::truncate]
    let code = file_char as u32;
    let upper = if 97 <= code && code <= 122 { code - 32 } else { code };
    #[verifier::truncate]
    let digit = rank_char as u32;
    if upper < 65 || upper > 72 || digit < 49 || digit > 56 {
        return Err(ConversionError);
    }
    Ok(Coordinates((8 - (digit - 48)) as u8, (upper - 65) as u8))
}

/// `x + d - 1`, held within the board.
fn step_within(x: u8, d: u8) -> (r: u8)
    requires
        x < 8,
        d < 3,
    ensures
        r == clamp_step(x, d - 1),
{
    if x + d == 0 {
        0
    } else if x + d - 1 > 7 {
        7
    } else {
        x + d - 1
    }
}

/// The distance between two bytes.
fn abs_diff(a: u8, b: u8) -> (r: u8)
    ensures
        r as int == dist(a as int, b as int),
{
    if a >= b {
        a - b
    } else {
        b - a
    }
}

impl Game {
    /// The square at `coords`, open for writing.
    pub fn at(&mut self, coords: Coordinates) -> (r: &mut Option<Piece>)
        requires
            coords.on_board(),
        ensures
            *r == old(self).board.cell(coords),
            *final(self) == (Game { board: old(self).board.set_cell(coords, *final(r)), ..*old(self) }),
    {
        self.board.at(coords)
    }

    /// Marks a pawn of the side opposing `mover` on `c`, if there is one, as
    /// open to en passant.
    fn mark_en_passant(&mut self, c: Coordinates, mover: PieceColor)
        requires
            c.on_board(),
        ensures
            *final(self) == (Game { board: mark_en_passant(old(self).board, c, mover), ..*old(self) }),
            old(self).board.wf() ==> final(self).board.wf(),
    {
        if let Some(q) = self.board.board[c.0 as usize][c.1 as usize] {
            if let PieceType::Pawn(_) = q.piece_type {
                if q.color != mover {
                    *self.at(c) = Some(Piece {
                        piece_type: PieceType::Pawn(PawnData { has_moved: true, can_en_pessant: true }),
                        color: q.color,
                        coordinates: q.coordinates,
                    });
                }
            }
        }
    }

    /// Decides whether a piece other than a pawn may go from `start` to `end`.
    fn valid_move(&self, start: Coordinates, end: Coordinates) -> (r: Result<GameResult, GameError>)
        requires
            start.on_board(),
            end.on_board(),
        ensures
            match self.board.cell(start) {
                None => r == Err::<GameResult, GameError>(GameError::NoPieceOnStartSquare),
                Some(p) => !(p.piece_type is Pawn) ==> (r is Ok <==> piece_may_move(self.board, start, end, p)) && (r is Ok
                    ==> r == Ok::<GameResult, GameError>(GameResult::Normal)) && (r is Err
                    ==> r == Err::<GameResult, GameError>(
                    if p.piece_type is King { GameError::InvalidMoveCheck } else { GameError::InvalidMove },
                )),
            },
    {
        let p = match self.board.board[start.0 as usize][start.1 as usize] {
            None => {
                return Err(GameError::NoPieceOnStartSquare);
            },
            Some(p) => p,
        };
        match p.piece_type {
            PieceType::King(_) => {
                if self.is_piece_attacking_coordinates(p.piece_type, start, end)
                    && !self.is_coord_attacked_by_team(p.color.swap(), end) {
                    Ok(GameResult::Normal)
                } else {
                    Err(GameError::InvalidMoveCheck)
                }
            },
            PieceType::Pawn(_) => Ok(GameResult::Normal),
            _ => {
                if self.is_piece_attacking_coordinates(p.piece_type, start, end) {
                    Ok(GameResult::Normal)
                } else {
                    Err(GameError::InvalidMove)
                }
            },
        }
    }

    /// Carries out the move from `start` to `end` if the rules allow it, and
    /// reports which kind of move it was. A refused move leaves the game as it was.
    pub fn make_move(&mut self, start: Coordinates, end: Coordinates) -> (r: Result<GameResult, GameError>)
        requires
            start.on_board(),
            end.on_board(),
        ensures
            (final(self).board, r) == apply_move(old(self).board, start, end),
            final(self).turn == old(self).turn,
            final(self).move_num == old(self).move_num,
            final(self).turn_num == old(self).turn_num,
            old(self).board.wf() ==> final(self).board.wf(),
    {
        let p = match self.board.board[start.0 as usize][start.1 as usize] {
            None => {
                return Err(GameError::NoPieceOnStartSquare);
            },
            Some(p) => p,
        };
        let target = self.board.board[end.0 as usize][end.1 as usize];

        if let PieceType::King(false) = p.piece_type {
            if let Some(q) = target {
                if let PieceType::Rook(false) = q.piece_type {
                    if q.color == p.color {
                        if !self.empty_between(start, end)
                            && self.is_coord_range_attacked_by_team(p.color.swap(), start, end) {
                            return Err(GameError::InvalidMove);
                        }
                        self.board.swap_pieces(start, end);
                        return Ok(GameResult::Castle);
                    }
                }
            }
        }

        if let Some(q) = target {
            if q.color == p.color {
                return Err(GameError::SameColorCapture);
            }
        }

        if let PieceType::Pawn(data) = p.piece_type {
            let dr = abs_diff(start.0, end.0);
            let df = abs_diff(start.1, end.1);
            if dr == 2 && df == 0 && !data.has_moved && self.empty_between(start, end) {
                if end.1 > 0 {
                    self.mark_en_passant(Coordinates(end.0, end.1 - 1), p.color);
                }
                if end.1 < 7 {
                    self.mark_en_passant(Coordinates(end.0, end.1 + 1), p.color);
                }
                self.board.move_piece(start, end);
                return Ok(GameResult::DoublePawn);
            } else if dr == 1 && df == 1 && data.can_en_pessant && target.is_none() {
                let behind = Coordinates(start.0, end.1);
                if let Some(q) = self.board.board[behind.0 as usize][behind.1 as usize] {
                    if let PieceType::Pawn(_) = q.piece_type {
                        if q.color != p.color {
                            *self.at(behind) = None;
                            self.board.move_piece(start, end);
                            return Ok(GameResult::EnPessant);
                        }
                    }
                }
            } else if dr == 1 && df == 1 {
                if target.is_some() {
                    self.board.move_piece(start, end);
                    if end.0 == 7 || end.0 == 0 {
                        return Ok(GameResult::Promotion);
                    }
                    return Ok(GameResult::Capture);
                }
            } else if dr == 1 && df == 0 && target.is_none() {
                self.board.move_piece(start, end);
                if end.0 == 7 || end.0 == 0 {
                    return Ok(GameResult::Promotion);
                }
                return Ok(GameResult::Normal);
            }
            return Err(GameError::GenericError);
        }

        if let Err(error) = self.valid_move(start, end) {
            return Err(error);
        }
        self.board.move_piece(start, end);
        if target.is_some() {
            Ok(GameResult::Capture)
        } else {
            Ok(GameResult::Normal)
        }
    }

    /// Where the king of `color` stands.
    fn find_king(&self, color: PieceColor) -> (r: Coordinates)
        ensures
            r == king_square(self.board, color),
            r.on_board(),
    {
        let mut n: usize = 64;
        while n > 0
            invariant
                n <= 64,
                last_king_before(self.board, color, n as int) == king_square(self.board, color),
            decreases n,
        {
            let p = n - 1;
            if let Some(q) = self.board.board[p / 8][p % 8] {
                if let PieceType::King(_) = q.piece_type {
                    if q.color == color {
                        return Coordinates((p / 8) as u8, (p % 8) as u8);
                    }
                }
            }
            n = p;
        }
        Coordinates(0, 0)
    }

    /// Decides whether the king of the side opposing `turn_color` is mated, by
    /// trying each of its neighbouring squares on a copy of the game: it is
    /// mated when no such step succeeds and leaves it out of check. Neighbours
    /// are held within the board, so at an edge a probe may land on the king's
    /// own square, which is refused. Captures or blocks by other pieces are not
    /// considered.
    pub fn check_checkmate(&self, turn_color: PieceColor) -> (r: bool)
        ensures
            r == !king_can_escape(self.board, turn_color.opponent()),
    {
        let enemy = turn_color.swap();
        let k = self.find_king(enemy);
        let mut i: u8 = 0;
        while i < 3
            invariant
                i <= 3,
                enemy == turn_color.opponent(),
                k == king_square(self.board, enemy),
                k.on_board(),
                forall|i2: int, j2: int| 0 <= i2 < i && 0 <= j2 < 3 ==> !#[trigger] king_escapes_to(self.board, enemy, i2 - 1, j2 - 1),
            decreases 3 - i,
        {
            let mut j: u8 = 0;
            while j < 3
                invariant
                    i < 3,
                    j <= 3,
                    enemy == turn_color.opponent(),
                    k == king_square(self.board, enemy),
                    k.on_board(),
                    forall|i2: int, j2: int| (0 <= i2 < i && 0 <= j2 < 3) || (i2 == i && 0 <= j2 < j) ==> !#[trigger] king_escapes_to(self.board, enemy, i2 - 1, j2 - 1),
                decreases 3 - j,
            {
                let target = Coordinates(step_within(k.0, i), step_within(k.1, j));
                let mut cloned = self.clone();
                let status = cloned.make_move(k, target);
                if status.is_ok() && !cloned.is_king_in_check(enemy) {
                    assert(king_escapes_to(self.board, enemy, i - 1, j - 1));
                    return false;
                }
                j = j + 1;
            }
            i = i + 1;
        }
        assert forall|i2: int, j2: int| -1 <= i2 <= 1 && -1 <= j2 <= 1 implies !#[trigger] king_escapes_to(self.board, enemy, i2, j2) by {
            assert(!king_escapes_to(self.board, enemy, (i2 + 1) - 1, (j2 + 1) - 1));
        }
        true
    }

    /// Turns the pawn on `coords`, if there is one, into a queen of its colour.
    pub fn handle_promotion(&mut self, coords: Coordinates)
        requires
            coords.on_board(),
        ensures
            *final(self) == (Game { board: promoted(old(self).board, coords), ..*old(self) }),
            old(self).board.wf() ==> final(self).board.wf(),
    {
        if let Some(p) = self.board.board[coords.0 as usize][coords.1 as usize] {
            if let PieceType::Pawn(_) = p.piece_type {
                *self.at(coords) = Some(Piece { piece_type: PieceType::Queen, color: p.color, coordinates: p.coordinates });
            }
        }
    }

    /// Plays one turn for the side to move: the start square must hold one of
    /// its pieces; a side in check must leave check; a pawn may not head back;
    /// then the move is made, a promoted pawn becomes a queen, and the game
    /// looks for mate before handing the move to the other side.
    pub fn play_turn(&mut self, start: Coordinates, end: Coordinates) -> (r: Result<TurnReport, TurnError>)
        requires
            start.on_board(),
            end.on_board(),
        ensures
            (*final(self), r) == turn_outcome(*old(self), start, end),
            old(self).board.wf() ==> final(self).board.wf(),
    {
        let side = if self.move_num % 2 == 0 { PieceColor::White } else { PieceColor::Black };
        let check = self.is_king_in_check(side);
        let p = match self.board.board[start.0 as usize][start.1 as usize] {
            None => {
                return Err(TurnError::NoPiece);
            },
            Some(p) => p,
        };
        if p.color != side {
            return Err(TurnError::NotYourPiece);
        }
        if check {
            let mut test = self.clone();
            let _ = test.make_move(start, end);
            if test.is_king_in_check(side) {
                return Err(TurnError::MustEscapeCheck);
            }
        }
        if let PieceType::Pawn(_) = p.piece_type {
            match side {
                PieceColor::Black => {
                    if start.0 > end.0 {
                        return Err(TurnError::PawnBackward);
                    }
                },
                PieceColor::White => {
                    if start.0 < end.0 {
                        return Err(TurnError::PawnBackward);
                    }
                },
            }
        }
        let result = match self.make_move(start, end) {
            Err(error) => {
                return Err(TurnError::Move(error));
            },
            Ok(result) => result,
        };
        if let GameResult::Promotion = result {
            self.handle_promotion(end);
        }
        let mate = self.is_king_in_check(side.swap()) && self.check_checkmate(side);
        if !mate {
            self.move_num = if self.move_num == 255 { 0 } else { self.move_num + 1 };
            self.turn_num = self.move_num / 2;
            self.turn = if self.move_num % 2 == 0 { PieceColor::White } else { PieceColor::Black };
        }
        Ok(TurnReport { result, checkmate: mate })
    }

    /// Every square strictly between `start` and `end` is empty; `false` when
    /// the two share neither a rank nor a file.
    pub fn empty_between(&self, start: Coordinates, end: Coordinates) -> (r: bool)
        requires
            start.on_board(),
            end.on_board(),
        ensures
            r == path_clear_straight(self.board, start, end),
    {
        if !(start.0 == end.0 || start.1 == end.1) {
            return false;
        }
        if start.0 == end.0 {
            let squares = coord_range(start.1 as usize, end.1 as usize);
            let mut k: usize = 0;
            while k < squares.len()
                invariant
                    start.on_board(),
                    end.on_board(),
                    squares@.len() == if start.1 == end.1 { 0 } else { dist(start.1 as int, end.1 as int) - 1 },
                    forall|j: int| 0 <= j < squares@.len() ==> squares@[j] == toward(start.1 as int, end.1 as int, j + 1),
                    forall|j: int| 0 <= j < k ==> (#[trigger] self.board.cell_rf(start.0 as int, squares@[j] as int)) is None,
                decreases squares@.len() - k,
            {
                let f = squares[k];
                if self.board.board[start.0 as usize][f as usize].is_some() {
                    assert(strictly_between(f as int, start.1 as int, end.1 as int));
                    assert(self.board.cell_rf(start.0 as int, f as int) is Some);
                    return false;
                }
                k = k + 1;
            }
            assert forall|f: int| strictly_between(f, start.1 as int, end.1 as int) implies (#[trigger] self.board.cell_rf(start.0 as int, f)) is None by {
                let j = dist(f, start.1 as int) - 1;
                assert(squares@[j] == f);
            }
        }
        if start.1 == end.1 {
            let squares = coord_range(start.0 as usize, end.0 as usize);
            let mut k: usize = 0;
            while k < squares.len()
                invariant
                    start.on_board(),
                    end.on_board(),
                    squares@.len() == if start.0 == end.0 { 0 } else { dist(start.0 as int, end.0 as int) - 1 },
                    forall|j: int| 0 <= j < squares@.len() ==> squares@[j] == toward(start.0 as int, end.0 as int, j + 1),
                    forall|j: int| 0 <= j < k ==> (#[trigger] self.board.cell_rf(squares@[j] as int, start.1 as int)) is None,
                decreases squares@.len() - k,
            {
                let r = squares[k];
                if self.board.board[r as usize][start.1 as usize].is_some() {
                    assert(strictly_between(r as int, start.0 as int, end.0 as int));
                    assert(self.board.cell_rf(r as int, start.1 as int) is Some);
                    return false;
                }
                k = k + 1;
            }
            assert forall|r: int| strictly_between(r, start.0 as int, end.0 as int) implies (#[trigger] self.board.cell_rf(r, start.1 as int)) is None by {
                let j = dist(r, start.0 as int) - 1;
                assert(squares@[j] == r);
            }
        }
        true
    }

    /// Every square strictly between `start` and `end` is empty; `false` when
    /// the two do not share a diagonal.
    pub fn empty_between_diag(&self, start: Coordinates, end: Coordinates) -> (r: bool)
        requires
            start.on_board(),
            end.on_board(),
        ensures
            r == path_clear_diagonal(self.board, start, end),
    {
        if abs_diff(start.0, end.0) != abs_diff(start.1, end.1) {
            return false;
        }
        let ranks = coord_range(start.0 as usize, end.0 as usize);
        let files = coord_range(start.1 as usize, end.1 as usize);
        let mut k: usize = 0;
        while k < ranks.len()
            invariant
                start.on_board(),
                end.on_board(),
                dist(start.0 as int, end.0 as int) == dist(start.1 as int, end.1 as int),
                ranks@.len() == files@.len(),
                ranks@.len() == if start.0 == end.0 { 0 } else { dist(start.0 as int, end.0 as int) - 1 },
                forall|j: int| 0 <= j < ranks@.len() ==> ranks@[j] == toward(start.0 as int, end.0 as int, j + 1),
                forall|j: int| 0 <= j < files@.len() ==> files@[j] == toward(start.1 as int, end.1 as int, j + 1),
                forall|j: int| 0 < j <= k ==> (#[trigger] self.board.cell_rf(
                    toward(start.0 as int, end.0 as int, j),
                    toward(start.1 as int, end.1 as int, j),
                )) is None,
            decreases ranks@.len() - k,
        {
            let r = ranks[k];
            let f = files[k];
            if self.board.board[r as usize][f as usize].is_some() {
                let ghost j = k as int + 1;
                assert(self.board.cell_rf(
                    toward(start.0 as int, end.0 as int, j),
                    toward(start.1 as int, end.1 as int, j),
                ) is Some);
                return false;
            }
            k = k + 1;
        }
        true
    }

    /// A piece of kind `piece` on `piece_coords` reaches `attacking_coords` by its
    /// own geometry. Pawns are never reported as attacking.
    pub fn is_piece_attacking_coordinates(
        &self,
        piece: PieceType,
        piece_coords: Coordinates,
        attacking_coords: Coordinates,
    ) -> (r: bool)
        requires
            piece_coords.on_board(),
            attacking_coords.on_board(),
        ensures
            r == attacks(self.board, piece, piece_coords, attacking_coords),
    {
        let dr = abs_diff(piece_coords.0, attacking_coords.0);
        let df = abs_diff(piece_coords.1, attacking_coords.1);
        match piece {
            PieceType::King(_) => dr <= 1 && df <= 1,
            PieceType::Rook(_) => self.empty_between(piece_coords, attacking_coords),
            PieceType::Queen => self.empty_between(piece_coords, attacking_coords)
                || self.empty_between_diag(piece_coords, attacking_coords),
            PieceType::Knight => (dr == 2 && df == 1) || (dr == 1 && df == 2),
            PieceType::Bishop => self.empty_between_diag(piece_coords, attacking_coords),
            PieceType::Pawn(_) => false,
        }
    }

    /// Some piece of `color` attacks `coords`.
    pub fn is_coord_attacked_by_team(&self, color: PieceColor, coords: Coordinates) -> (r: bool)
        requires
            coords.on_board(),
        ensures
            r == square_attacked_by(self.board, color, coords),
    {
        let mut r: u8 = 0;
        while r < 8
            invariant
                r <= 8,
                coords.on_board(),
                forall|r2: int, f2: int| 0 <= r2 < r && 0 <= f2 < 8 ==> !#[trigger] attacker_at(self.board, color, r2, f2, coords),
            decreases 8 - r,
        {
            let mut f: u8 = 0;
            while f < 8
                invariant
                    r < 8,
                    f <= 8,
                    coords.on_board(),
                    forall|r2: int, f2: int|
                        (0 <= r2 < r && 0 <= f2 < 8) || (r2 == r && 0 <= f2 < f) ==> !#[trigger] attacker_at(self.board, color, r2, f2, coords),
                decreases 8 - f,
            {
                if let Some(p) = self.board.board[r as usize][f as usize] {
                    if p.color == color && self.is_piece_attacking_coordinates(p.piece_type, Coordinates(r, f), coords) {
                        assert(attacker_at(self.board, color, r as int, f as int, coords));
                        return true;
                    }
                }
                f = f + 1;
            }
            r = r + 1;
        }
        false
    }

    /// `start` and `end` share a rank or a file, and every square strictly between
    /// them is attacked by `color`.
    pub fn is_coord_range_attacked_by_team(&self, color: PieceColor, start: Coordinates, end: Coordinates) -> (r: bool)
        requires
            start.on_board(),
            end.on_board(),
        ensures
            r == line_attacked_by(self.board, color, start, end),
    {
        if !(start.0 == end.0 || start.1 == end.1) {
            return false;
        }
        if start.0 == end.0 {
            let squares = coord_range(start.1 as usize, end.1 as usize);
            let mut k: usize = 0;
            while k < squares.len()
                invariant
                    start.on_board(),
                    end.on_board(),
                    squares@.len() == if start.1 == end.1 { 0 } else { dist(start.1 as int, end.1 as int) - 1 },
                    forall|j: int| 0 <= j < squares@.len() ==> squares@[j] == toward(start.1 as int, end.1 as int, j + 1),
                    forall|j: int| 0 <= j < k ==> square_attacked_by(self.board, color, Coordinates(start.0, #[trigger] squares@[j] as u8)),
                decreases squares@.len() - k,
            {
                let f = squares[k];
                if !self.is_coord_attacked_by_team(color, Coordinates(start.0, f as u8)) {
                    assert(strictly_between(f as int, start.1 as int, end.1 as int));
                    return false;
                }
                k = k + 1;
            }
            assert forall|f: int| #![trigger strictly_between(f, start.1 as int, end.1 as int)] strictly_between(f, start.1 as int, end.1 as int) implies square_attacked_by(self.board, color, Coordinates(start.0, f as u8)) by {
                let j = dist(f, start.1 as int) - 1;
                assert(squares@[j] == f);
            }
        }
        if start.1 == end.1 {
            let squares = coord_range(start.0 as usize, end.0 as usize);
            let mut k: usize = 0;
            while k < squares.len()
                invariant
                    start.on_board(),
                    end.on_board(),
                    squares@.len() == if start.0 == end.0 { 0 } else { dist(start.0 as int, end.0 as int) - 1 },
                    forall|j: int| 0 <= j < squares@.len() ==> squares@[j] == toward(start.0 as int, end.0 as int, j + 1),
                    forall|j: int| 0 <= j < k ==> square_attacked_by(self.board, color, Coordinates(#[trigger] squares@[j] as u8, start.1)),
                decreases squares@.len() - k,
            {
                let r = squares[k];
                if !self.is_coord_attacked_by_team(color, Coordinates(r as u8, start.1)) {
                    assert(strictly_between(r as int, start.0 as int, end.0 as int));
                    return false;
                }
                k = k + 1;
            }
            assert forall|r: int| #![trigger strictly_between(r, start.0 as int, end.0 as int)] strictly_between(r, start.0 as int, end.0 as int) implies square_attacked_by(self.board, color, Coordinates(r as u8, start.1)) by {
                let j = dist(r, start.0 as int) - 1;
                assert(squares@[j] == r);
            }
        }
        true
    }

    /// Some king of `color` is attacked by the other side.
    pub fn is_king_in_check(&self, color: PieceColor) -> (r: bool)
        ensures
            r == king_in_check(self.board, color),
    {
        let mut r: u8 = 0;
        while r < 8
            invariant
                r <= 8,
                forall|r2: int, f2: int| 0 <= r2 < r && 0 <= f2 < 8 ==> !#[trigger] king_attacked_at(self.board, color, r2, f2),
            decreases 8 - r,
        {
            let mut f: u8 = 0;
            while f < 8
                invariant
                    r < 8,
                    f <= 8,
                    forall|r2: int, f2: int|
                        (0 <= r2 < r && 0 <= f2 < 8) || (r2 == r && 0 <= f2 < f) ==> !#[trigger] king_attacked_at(self.board, color, r2, f2),
                decreases 8 - f,
            {
                if let Some(p) = self.board.board[r as usize][f as usize] {
                    if let PieceType::King(_) = p.piece_type {
                        if p.color == color && self.is_coord_attacked_by_team(color.swap(), Coordinates(r, f)) {
                            assert(king_attacked_at(self.board, color, r as int, f as int));
                            return true;
                        }
                    }
                }
                f = f + 1;
            }
            r = r + 1;
        }
        false
    }
}

} // verus!
