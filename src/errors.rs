use vstd::prelude::*;

verus! {

/// Why a requested move was refused.
#[derive(Debug, Clone, Copy, PartialEq, Eq, Structural)]
pub enum GameError {
    GenericError,
    NoPieceOnStartSquare,
    SameColorCapture,
    InvalidMove,
    InvalidMoveCheck,
}

impl GameError {
    /// A sentence describing the error, for display.
    pub fn message(&self) -> (r: &'static str)
        ensures
            r@ == match self {
                GameError::GenericError => "Generic Placeholder Error"@,
                GameError::NoPieceOnStartSquare => "Move cannot be made with no piece selected"@,
                GameError::SameColorCapture => "Cannot capture same color"@,
                GameError::InvalidMove => "Move is not valid/legal"@,
                GameError::InvalidMoveCheck => "King is in check, cannot move"@,
            },
    {
        match self {
            GameError::GenericError => "Generic Placeholder Error",
            GameError::NoPieceOnStartSquare => "Move cannot be made with no piece selected",
            GameError::SameColorCapture => "Cannot capture same color",
            GameError::InvalidMove => "Move is not valid/legal",
            GameError::InvalidMoveCheck => "King is in check, cannot move",
        }
    }
}

/// The kind of move that was carried out.
#[derive(Debug, Clone, Copy, PartialEq, Eq, Structural)]
pub enum GameResult {
    Castle,
    EnPessant,
    DoublePawn,
    Promotion,
    Normal,
    Capture,
}

/// A value could not be turned into a board coordinate.
#[derive(Debug, Clone, Copy, PartialEq, Eq, Structural)]
pub struct ConversionError;

impl ConversionError {
    /// A sentence describing the error, for display.
    pub fn message(&self) -> (r: &'static str)
        ensures
            r@ == "Conversion Error"@,
    {
        "Conversion Error"
    }
}

/// Conversion of a signed value to an unsigned byte.
pub trait Convertable {
    /// The byte this value stands for, if it has one.
    spec fn as_u8(&self) -> Option<u8>;

    fn convert_to_u8(&self) -> (r: Result<u8, ConversionError>)
        ensures
            match self.as_u8() {
                Some(v) => r == Ok::<u8, ConversionError>(v),
                None => r is Err,
            },
    ;
}

impl Convertable for i8 {
    /// A negative value has no byte; any other keeps its value.
    open spec fn as_u8(&self) -> Option<u8> {
        if *self < 0 {
            None
        } else {
            Some(*self as u8)
        }
    }

    fn convert_to_u8(&self) -> (r: Result<u8, ConversionError>) {
        if *self < 0 {
            Err(ConversionError)
        } else {
            Ok(*self as u8)
        }
    }
}

} // verus!
