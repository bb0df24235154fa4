//! A verified parser for Forsyth-Edwards Notation (FEN), the standard
//! single-line text encoding of a chess position.
//!
//! The library turns a FEN string into a validated [`types::ChessPosition`]:
//! an 8x8 board of optional pieces, the side to move, castling rights, an
//! optional en-passant target square, and the two move counters. The grammar
//! of each of the six space-separated fields, and the cross-field shape rules
//! (exactly 8 ranks of exactly 8 files, no duplicated castling letter), are
//! stated as specification functions in [`grammar`], and the executable
//! parser in [`parser`] is proved to accept exactly the strings that the
//! grammar accepts and to return exactly the position the grammar assigns.

pub mod error;
pub mod grammar;
pub mod parser;
pub mod types;

pub use error::FenError;
pub use parser::parse_fen;
pub use types::{CastlingRights, ChessPosition, Color, Piece, PieceKind};
