//! The value types of a chess position: piece colors and kinds, castling
//! rights, and the aggregate position record that the parser produces.

use vstd::prelude::*;

verus! {

/// The color of a piece, and the side to move.
#[derive(Debug, Clone, Copy, PartialEq, Eq, Structural)]
pub enum Color {
    White,
    Black,
}

/// The six kinds of chess piece.
#[derive(Debug, Clone, Copy, PartialEq, Eq, Structural)]
pub enum PieceKind {
    King,
    Queen,
    Rook,
    Bishop,
    Knight,
    Pawn,
}

/// A piece is a color together with a kind; it has no identity beyond
/// these two fields.
#[derive(Debug, Clone, Copy, PartialEq, Eq, Structural)]
pub struct Piece {
    pub color: Color,
    pub kind: PieceKind,
}

/// The four independent castling permissions of a position.
#[derive(Debug, Clone, Copy, PartialEq, Eq, Structural)]
pub struct CastlingRights {
    pub white_kingside: bool,
    pub white_queenside: bool,
    pub black_kingside: bool,
    pub black_queenside: bool,
}

impl CastlingRights {
    /// Whether at least one of the four castling permissions is still held.
    pub fn has_any(&self) -> (r: bool)
        ensures
            r == (self.white_kingside || self.white_queenside || self.black_kingside
                || self.black_queenside),
    {
        self.white_kingside || self.white_queenside || self.black_kingside
            || self.black_queenside
    }

    /// The rights record with all four permissions revoked, as denoted by
    /// the castling field "-".
    pub fn none() -> (r: Self)
        ensures
            r == (CastlingRights {
                white_kingside: false,
                white_queenside: false,
                black_kingside: false,
                black_queenside: false,
            }),
    {
        Self {
            white_kingside: false,
            white_queenside: false,
            black_kingside: false,
            black_queenside: false,
        }
    }
}

/// A fully validated chess position: the result of a successful parse.
///
/// `pieces` is indexed `[rank][file]` with rank 0 holding chess row 1
/// (White's back rank) and rank 7 holding chess row 8, so the first
/// rank group of a FEN string lands at index 7.
#[derive(Debug, PartialEq)]
pub struct ChessPosition {
    /// The 8x8 board grid of optional occupants.
    pub pieces: [[Option<Piece>; 8]; 8],
    /// The side to move.
    pub active_color: Color,
    /// The castling permissions still held by either side.
    pub castling_rights: CastlingRights,
    /// The en-passant target square as `(file, rank)`, both 0-indexed,
    /// or `None` when the field was "-".
    pub en_passant: Option<(u8, u8)>,
    /// Halfmoves since the last capture or pawn advance.
    pub halfmove_clock: u32,
    /// The current move number.
    pub fullmove_number: u32,
}

/// The FEN encoding of the standard initial position: the one source of
/// truth for the default board layout.
pub const STANDARD_FEN: &'static str = "rnbqkbnr/pppppppp/8/8/8/8/PPPPPPPP/RNBQKBNR w KQkq - 0 1";

impl ChessPosition {
    /// Parses a FEN string into a position; a synonym for
    /// [`crate::parser::parse_fen`] with the same contract.
    pub fn from_fen(fen: &str) -> (r: Result<Self, crate::error::FenError>)
        ensures
            match crate::grammar::spec_parse_fen(fen@) {
                Ok(m) => r matches Ok(p) && crate::grammar::pos_model(&p) == m,
                Err(st) => r matches Err(e) && crate::grammar::error_for_stage(st, e),
            },
    {
        crate::parser::parse_fen(fen)
    }
}

proof fn std_fen_rank_starts()
    ensures
        crate::grammar::spec_rank(STANDARD_FEN@, 0) matches Some(p) && p.1 == 8,
        crate::grammar::spec_rank(STANDARD_FEN@, 9) matches Some(p) && p.1 == 17,
        crate::grammar::spec_rank(STANDARD_FEN@, 18) matches Some(p) && p.1 == 19,
        crate::grammar::spec_rank(STANDARD_FEN@, 20) matches Some(p) && p.1 == 21,
        crate::grammar::spec_rank(STANDARD_FEN@, 22) matches Some(p) && p.1 == 23,
        crate::grammar::spec_rank(STANDARD_FEN@, 24) matches Some(p) && p.1 == 25,
        crate::grammar::spec_rank(STANDARD_FEN@, 26) matches Some(p) && p.1 == 34,
        crate::grammar::spec_rank(STANDARD_FEN@, 35) matches Some(p) && p.1 == 43,
{
    reveal_strlit("rnbqkbnr/pppppppp/8/8/8/8/PPPPPPPP/RNBQKBNR w KQkq - 0 1");
    reveal_with_fuel(crate::grammar::rank_tail, 10);
}

proof fn std_fen_ranks()
    ensures
        crate::grammar::spec_ranks(STANDARD_FEN@, 0) matches Some(p) && p.0.len() == 8 && p.1
            == 43,
{
    std_fen_rank_starts();
    reveal_strlit("rnbqkbnr/pppppppp/8/8/8/8/PPPPPPPP/RNBQKBNR w KQkq - 0 1");
    let s = STANDARD_FEN@;
    assert(crate::grammar::more_ranks(s, 43).0.len() == 0 && crate::grammar::more_ranks(s, 43).1
        == 43);
    assert(crate::grammar::more_ranks(s, 34).0.len() == 1 && crate::grammar::more_ranks(s, 34).1
        == 43);
    assert(crate::grammar::more_ranks(s, 25).0.len() == 2 && crate::grammar::more_ranks(s, 25).1
        == 43);
    assert(crate::grammar::more_ranks(s, 23).0.len() == 3 && crate::grammar::more_ranks(s, 23).1
        == 43);
    assert(crate::grammar::more_ranks(s, 21).0.len() == 4 && crate::grammar::more_ranks(s, 21).1
        == 43);
    assert(crate::grammar::more_ranks(s, 19).0.len() == 5 && crate::grammar::more_ranks(s, 19).1
        == 43);
    assert(crate::grammar::more_ranks(s, 17).0.len() == 6 && crate::grammar::more_ranks(s, 17).1
        == 43);
    assert(crate::grammar::more_ranks(s, 8).0.len() == 7 && crate::grammar::more_ranks(s, 8).1
        == 43);
}

/// The standard initial-position string parses: the grammar accepts
/// [`STANDARD_FEN`].
pub proof fn standard_fen_parses()
    ensures
        crate::grammar::spec_parse_fen(STANDARD_FEN@) is Ok,
{
    std_fen_ranks();
    reveal_strlit("rnbqkbnr/pppppppp/8/8/8/8/PPPPPPPP/RNBQKBNR w KQkq - 0 1");
    reveal_with_fuel(crate::grammar::spec_skip_spaces, 4);
    reveal_with_fuel(crate::grammar::castle_run_end, 6);
    reveal_with_fuel(crate::grammar::digit_run_end, 3);
    reveal_with_fuel(crate::grammar::digits_value, 3);
    let s = STANDARD_FEN@;
    assert(crate::grammar::spec_space1(s, 43) == Some(44int));
    assert(crate::grammar::spec_placement(s, 0) matches Some(p) && p.1 == 44);
    assert(crate::grammar::spec_active_color(s, 44) matches Some(p) && p.1 == 46);
    assert(crate::grammar::castle_run_end(s, 46) == 50);
    assert(!crate::grammar::has_duplicate(s, 46, 50));
    assert(crate::grammar::spec_castling(s, 46) matches Some(p) && p.1 == 51);
    assert(crate::grammar::spec_en_passant(s, 51) matches Some(p) && p.1 == 53);
    assert(crate::grammar::spec_number(s, 53) matches Some(p) && p.1 == 55);
    assert(crate::grammar::spec_number(s, 55) is Some);
}

impl Default for ChessPosition {
    /// The standard initial position, built by parsing [`STANDARD_FEN`]
    /// rather than by writing the grid out a second time.
    fn default() -> (r: Self)
        ensures
            crate::grammar::spec_parse_fen(STANDARD_FEN@) matches Ok(m)
                && crate::grammar::pos_model(&r) == m,
    {
        proof {
            standard_fen_parses();
        }
        match crate::parser::parse_fen(STANDARD_FEN) {
            Ok(p) => p,
            Err(_) => vstd::pervasive::unreached(),
        }
    }
}

} // verus!
