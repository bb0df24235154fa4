//! The error taxonomy of the FEN parser: one variant per field, a generic
//! format fallback, and a reserved catch-all.

use vstd::prelude::*;

verus! {

/// The classified failure of a FEN parse. Each field of the six-field
/// record has its own variant, raised when that field is the first one
/// whose grammar does not match; the payload is a short description.
#[derive(Debug)]
pub enum FenError {
    /// The overall field sequence did not match (generic fallback).
    InvalidFormat(String),
    /// Wrong rank count, wrong file count in a rank, or an unrecognized
    /// token in the placement field.
    InvalidPiecePlacement(String),
    /// A character other than `w`/`b` in the active-color field.
    InvalidActiveColor(String),
    /// A character outside `{-,K,Q,k,q}` or a duplicated letter in the
    /// castling field.
    InvalidCastlingRights(String),
    /// A malformed en-passant target square.
    InvalidEnPassant(String),
    /// A non-numeric or out-of-range halfmove clock.
    InvalidHalfmoveClock(String),
    /// A non-numeric or out-of-range fullmove number.
    InvalidFullmoveNumber(String),
    /// Reserved fallback, not expected to be reachable.
    Unknown,
}

} // verus!
