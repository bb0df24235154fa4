//! The FEN grammar, stated as specification functions over a sequence of
//! characters.
//!
//! Each field parser takes the whole input together with a start index and
//! yields the parsed value and the index of the first unconsumed character,
//! or `None` when the field's grammar does not match there. The six fields
//! are sequenced in fixed order by [`spec_parse_fen`], which classifies a
//! failure by the first stage whose grammar did not match. These functions
//! are the contract of the executable parser in [`crate::parser`].

use vstd::prelude::*;

use crate::types::{CastlingRights, Color, Piece, PieceKind};

verus! {

// ---------------------------------------------------------------------------
// Character classes
// ---------------------------------------------------------------------------

/// The whitespace accepted between fields: a space or a tab.
pub open spec fn is_space_char(c: char) -> bool {
    c == ' ' || c == '\t'
}

/// The piece denoted by a placement letter: case selects the color,
/// the letter selects the kind. `None` for any other character.
pub open spec fn piece_of_char(c: char) -> Option<Piece> {
    match c {
        'K' => Some(Piece { color: Color::White, kind: PieceKind::King }),
        'Q' => Some(Piece { color: Color::White, kind: PieceKind::Queen }),
        'R' => Some(Piece { color: Color::White, kind: PieceKind::Rook }),
        'B' => Some(Piece { color: Color::White, kind: PieceKind::Bishop }),
        'N' => Some(Piece { color: Color::White, kind: PieceKind::Knight }),
        'P' => Some(Piece { color: Color::White, kind: PieceKind::Pawn }),
        'k' => Some(Piece { color: Color::Black, kind: PieceKind::King }),
        'q' => Some(Piece { color: Color::Black, kind: PieceKind::Queen }),
        'r' => Some(Piece { color: Color::Black, kind: PieceKind::Rook }),
        'b' => Some(Piece { color: Color::Black, kind: PieceKind::Bishop }),
        'n' => Some(Piece { color: Color::Black, kind: PieceKind::Knight }),
        'p' => Some(Piece { color: Color::Black, kind: PieceKind::Pawn }),
        _ => None,
    }
}

/// The run length denoted by an empty-run digit `1`-`8`; `None` for any
/// other character.
pub open spec fn empty_count_of_char(c: char) -> Option<u8> {
    match c {
        '1' => Some(1),
        '2' => Some(2),
        '3' => Some(3),
        '4' => Some(4),
        '5' => Some(5),
        '6' => Some(6),
        '7' => Some(7),
        '8' => Some(8),
        _ => None,
    }
}

/// The side to move denoted by the active-color letter; `None` for any
/// other character.
pub open spec fn color_of_char(c: char) -> Option<Color> {
    match c {
        'w' => Some(Color::White),
        'b' => Some(Color::Black),
        _ => None,
    }
}

/// The characters the castling field is drawn from.
pub open spec fn is_castle_char(c: char) -> bool {
    c == '-' || c == 'K' || c == 'Q' || c == 'k' || c == 'q'
}

/// The 0-indexed board file denoted by a file letter `a`-`h`; `None` for
/// any other character.
pub open spec fn file_of_char(c: char) -> Option<u8> {
    match c {
        'a' => Some(0),
        'b' => Some(1),
        'c' => Some(2),
        'd' => Some(3),
        'e' => Some(4),
        'f' => Some(5),
        'g' => Some(6),
        'h' => Some(7),
        _ => None,
    }
}

/// The 0-indexed board rank denoted by an en-passant rank digit. The
/// grammar admits exactly `3` and `6`, the two rows a double pawn push
/// can be captured on; every other digit is rejected.
pub open spec fn ep_rank_of_char(c: char) -> Option<u8> {
    match c {
        '3' => Some(2),
        '6' => Some(5),
        _ => None,
    }
}

/// Whether `c` is a decimal digit.
pub open spec fn is_digit_char(c: char) -> bool {
    c == '0' || c == '1' || c == '2' || c == '3' || c == '4' || c == '5' || c == '6' || c == '7'
        || c == '8' || c == '9'
}

/// The value of a decimal digit character.
pub open spec fn digit_value(c: char) -> u32 {
    match c {
        '0' => 0,
        '1' => 1,
        '2' => 2,
        '3' => 3,
        '4' => 4,
        '5' => 5,
        '6' => 6,
        '7' => 7,
        '8' => 8,
        '9' => 9,
        _ => 0,
    }
}

// ---------------------------------------------------------------------------
// Whitespace and character runs
// ---------------------------------------------------------------------------

/// The index of the first character at or after `i` that is not field
/// whitespace.
pub open spec fn spec_skip_spaces(s: Seq<char>, i: int) -> int
    decreases s.len() - i,
{
    if i < s.len() && is_space_char(s[i]) {
        spec_skip_spaces(s, i + 1)
    } else {
        i
    }
}

/// One mandatory whitespace run: at least one space or tab, consumed
/// maximally. `None` when `s[i]` is not whitespace.
pub open spec fn spec_space1(s: Seq<char>, i: int) -> Option<int> {
    if i < s.len() && is_space_char(s[i]) {
        Some(spec_skip_spaces(s, i))
    } else {
        None
    }
}

/// The end of the maximal run of castling-field characters starting at `i`.
pub open spec fn castle_run_end(s: Seq<char>, i: int) -> int
    decreases s.len() - i,
{
    if i < s.len() && is_castle_char(s[i]) {
        castle_run_end(s, i + 1)
    } else {
        i
    }
}

/// The end of the maximal run of decimal digits starting at `i`.
pub open spec fn digit_run_end(s: Seq<char>, i: int) -> int
    decreases s.len() - i,
{
    if i < s.len() && is_digit_char(s[i]) {
        digit_run_end(s, i + 1)
    } else {
        i
    }
}

/// The value of the digit run `s[i..e)` read as a decimal number.
pub open spec fn digits_value(s: Seq<char>, i: int, e: int) -> int
    decreases e - i,
{
    if i < e {
        digits_value(s, i, e - 1) * 10 + digit_value(s[e - 1])
    } else {
        0
    }
}

// ---------------------------------------------------------------------------
// Piece placement
// ---------------------------------------------------------------------------

/// A run of `d` consecutive empty squares.
pub open spec fn empty_run(d: u8) -> Seq<Option<Piece>> {
    Seq::new(d as nat, |k: int| None::<Piece>)
}

/// The squares of one rank from file position `idx` on, read from the
/// tokens starting at `i`: a piece letter fills one square, an empty-run
/// digit fills that many empty squares. The tokens end at the first
/// character that is neither; the rank matches only if the squares then
/// total exactly 8. Yields the squares for positions `idx..8` and the
/// index after the last token.
pub open spec fn rank_tail(s: Seq<char>, i: int, idx: int) -> Option<(Seq<Option<Piece>>, int)>
    decreases s.len() - i,
{
    if i < s.len() && piece_of_char(s[i]) is Some {
        if idx >= 8 {
            None
        } else {
            match rank_tail(s, i + 1, idx + 1) {
                Some((rest, j)) => Some((seq![piece_of_char(s[i])] + rest, j)),
                None => None,
            }
        }
    } else if i < s.len() && empty_count_of_char(s[i]) is Some {
        match empty_count_of_char(s[i]) {
            Some(d) => {
                if idx + d > 8 {
                    None
                } else {
                    match rank_tail(s, i + 1, idx + d) {
                        Some((rest, j)) => Some((empty_run(d) + rest, j)),
                        None => None,
                    }
                }
            },
            None => None,
        }
    } else {
        if idx == 8 {
            Some((Seq::empty(), i))
        } else {
            None
        }
    }
}

/// One rank descriptor: a non-empty token sequence accounting for exactly
/// 8 files. Yields the 8 squares in file order and the index after the
/// last token.
pub open spec fn spec_rank(s: Seq<char>, i: int) -> Option<(Seq<Option<Piece>>, int)> {
    rank_tail(s, i, 0)
}

/// The ranks that follow an already-parsed rank: as long as a `/` comes
/// next and a rank matches after it, both are consumed. A `/` that is not
/// followed by a matching rank is left unconsumed and the list ends.
/// Never fails; yields the extra ranks in input order and the index after
/// the last one.
pub open spec fn more_ranks(s: Seq<char>, i: int) -> (Seq<Seq<Option<Piece>>>, int)
    decreases s.len() - i,
{
    if i < s.len() && s[i] == '/' {
        match spec_rank(s, i + 1) {
            Some((r, j)) => {
                if i < j <= s.len() {
                    let (rest, k) = more_ranks(s, j);
                    (seq![r] + rest, k)
                } else {
                    // A matching rank always moves the index forward and
                    // stays inside the input, so this branch is never taken;
                    // it only bounds the recursion.
                    (seq![r], j)
                }
            },
            None => (Seq::empty(), i),
        }
    } else {
        (Seq::empty(), i)
    }
}

/// The `/`-separated rank list: one rank, then any number of further
/// ranks, each behind a `/`. Yields the ranks in input order, first
/// parsed first, and the index after the last one.
pub open spec fn spec_ranks(s: Seq<char>, i: int) -> Option<(Seq<Seq<Option<Piece>>>, int)> {
    match spec_rank(s, i) {
        None => None,
        Some((r, j)) => {
            let (rest, k) = more_ranks(s, j);
            Some((seq![r] + rest, k))
        },
    }
}

/// The piece-placement field: exactly 8 ranks, then one mandatory
/// whitespace run. The first parsed rank is chess row 8 and the last is
/// row 1, so the board stores the parsed list reversed: board index `r`
/// holds parsed rank `7 - r`.
pub open spec fn spec_placement(s: Seq<char>, i: int) -> Option<(Seq<Seq<Option<Piece>>>, int)> {
    match spec_ranks(s, i) {
        None => None,
        Some((ranks, j)) => match spec_space1(s, j) {
            None => None,
            Some(k) => {
                if ranks.len() == 8 {
                    Some((Seq::new(8, |r: int| ranks[7 - r]), k))
                } else {
                    None
                }
            },
        },
    }
}

// ---------------------------------------------------------------------------
// The remaining five fields
// ---------------------------------------------------------------------------

/// The active-color field: one of `w`/`b`, then one mandatory whitespace
/// run.
pub open spec fn spec_active_color(s: Seq<char>, i: int) -> Option<(Color, int)> {
    if i < s.len() {
        match color_of_char(s[i]) {
            Some(c) => match spec_space1(s, i + 1) {
                Some(j) => Some((c, j)),
                None => None,
            },
            None => None,
        }
    } else {
        None
    }
}

/// Whether the run `s[i..e)` repeats some character.
pub open spec fn has_duplicate(s: Seq<char>, i: int, e: int) -> bool {
    exists|k1: int, k2: int| i <= k1 < k2 < e && s[k1] == s[k2]
}

/// Whether the character `c` occurs in the run `s[i..e)`.
pub open spec fn run_has(s: Seq<char>, i: int, e: int, c: char) -> bool {
    exists|k: int| i <= k < e && s[k] == c
}

/// The rights granted by the letters of the run `s[i..e)`: each of
/// `K`, `Q`, `k`, `q` grants its permission, `-` grants nothing.
pub open spec fn rights_of_run(s: Seq<char>, i: int, e: int) -> CastlingRights {
    CastlingRights {
        white_kingside: run_has(s, i, e, 'K'),
        white_queenside: run_has(s, i, e, 'Q'),
        black_kingside: run_has(s, i, e, 'k'),
        black_queenside: run_has(s, i, e, 'q'),
    }
}

/// The castling field: a maximal non-empty run of characters from
/// `{-,K,Q,k,q}`, then one mandatory whitespace run. The run `-` alone
/// grants nothing; any other run must not repeat a character and grants
/// the permission of each of its letters.
pub open spec fn spec_castling(s: Seq<char>, i: int) -> Option<(CastlingRights, int)> {
    let e = castle_run_end(s, i);
    if e == i {
        None
    } else {
        match spec_space1(s, e) {
            None => None,
            Some(j) => {
                if e - i == 1 && s[i] == '-' {
                    Some(
                        (
                            CastlingRights {
                                white_kingside: false,
                                white_queenside: false,
                                black_kingside: false,
                                black_queenside: false,
                            },
                            j,
                        ),
                    )
                } else if has_duplicate(s, i, e) {
                    None
                } else {
                    Some((rights_of_run(s, i, e), j))
                }
            },
        }
    }
}

/// The en-passant field: either the literal `-` (no target), or exactly
/// one file letter `a`-`h` followed by one rank digit from `{3,6}`; then
/// one mandatory whitespace run.
pub open spec fn spec_en_passant(s: Seq<char>, i: int) -> Option<(Option<(u8, u8)>, int)> {
    if i < s.len() && s[i] == '-' {
        match spec_space1(s, i + 1) {
            Some(j) => Some((None, j)),
            None => None,
        }
    } else if i + 1 < s.len() {
        match (file_of_char(s[i]), ep_rank_of_char(s[i + 1])) {
            (Some(f), Some(r)) => match spec_space1(s, i + 2) {
                Some(j) => Some((Some((f, r)), j)),
                None => None,
            },
            _ => None,
        }
    } else {
        None
    }
}

/// A numeric counter field: a maximal non-empty digit run read as a
/// decimal number that must fit in 32 bits, then an optional whitespace
/// run (the final field has no trailing separator).
pub open spec fn spec_number(s: Seq<char>, i: int) -> Option<(u32, int)> {
    let e = digit_run_end(s, i);
    if e == i {
        None
    } else {
        let v = digits_value(s, i, e);
        if v > u32::MAX as int {
            None
        } else {
            Some((v as u32, spec_skip_spaces(s, e)))
        }
    }
}

// ---------------------------------------------------------------------------
// The assembled position
// ---------------------------------------------------------------------------

/// The six sequential parser stages, in field order. A failed parse is
/// classified by the first stage whose grammar did not match.
#[derive(Debug, Clone, Copy, PartialEq, Eq, Structural)]
pub enum Stage {
    PiecePlacement,
    ActiveColor,
    Castling,
    EnPassant,
    HalfmoveClock,
    FullmoveNumber,
}

/// The mathematical model of a parsed position: what
/// [`crate::types::ChessPosition`] holds, with the board grid as a
/// sequence of rank sequences.
#[verifier::ext_equal]
pub struct PositionModel {
    pub board: Seq<Seq<Option<Piece>>>,
    pub active_color: Color,
    pub castling_rights: CastlingRights,
    pub en_passant: Option<(u8, u8)>,
    pub halfmove_clock: u32,
    pub fullmove_number: u32,
}

/// The board grid of a position value as a sequence of rank sequences.
pub open spec fn board_view(b: [[Option<Piece>; 8]; 8]) -> Seq<Seq<Option<Piece>>> {
    Seq::new(8, |k: int| b@[k]@)
}

/// The model a position value denotes.
pub open spec fn pos_model(p: &crate::types::ChessPosition) -> PositionModel {
    PositionModel {
        board: board_view(p.pieces),
        active_color: p.active_color,
        castling_rights: p.castling_rights,
        en_passant: p.en_passant,
        halfmove_clock: p.halfmove_clock,
        fullmove_number: p.fullmove_number,
    }
}

/// The whole FEN grammar: the six fields in fixed order, each consuming
/// its own trailing whitespace, starting at index 0. Characters left
/// after the fullmove number are accepted silently. A failure is the
/// first stage that did not match.
pub open spec fn spec_parse_fen(s: Seq<char>) -> Result<PositionModel, Stage> {
    match spec_placement(s, 0) {
        None => Err(Stage::PiecePlacement),
        Some((board, i1)) => match spec_active_color(s, i1) {
            None => Err(Stage::ActiveColor),
            Some((color, i2)) => match spec_castling(s, i2) {
                None => Err(Stage::Castling),
                Some((rights, i3)) => match spec_en_passant(s, i3) {
                    None => Err(Stage::EnPassant),
                    Some((ep, i4)) => match spec_number(s, i4) {
                        None => Err(Stage::HalfmoveClock),
                        Some((halfmove, i5)) => match spec_number(s, i5) {
                            None => Err(Stage::FullmoveNumber),
                            Some((fullmove, _)) => Ok(
                                PositionModel {
                                    board,
                                    active_color: color,
                                    castling_rights: rights,
                                    en_passant: ep,
                                    halfmove_clock: halfmove,
                                    fullmove_number: fullmove,
                                },
                            ),
                        },
                    },
                },
            },
        },
    }
}

/// Every successfully parsed position stores the rank groups of the
/// placement field reversed: board row `r` holds parsed group `7 - r`,
/// so chess row 8 (index 7) is the first `/`-separated group and row 1
/// (index 0) is the last.
pub proof fn lemma_parsed_board_rank_order(s: Seq<char>)
    requires
        spec_parse_fen(s) is Ok,
    ensures
        spec_ranks(s, 0) is Some,
        spec_parse_fen(s) matches Ok(m) ==> (spec_ranks(s, 0) matches Some((ranks, k))
            && ranks.len() == 8 && m.board.len() == 8 && (forall|r: int|
            0 <= r < 8 ==> m.board[r] == ranks[7 - r])),
{
}

/// The classified error a failure at stage `st` reports: the stage's own
/// variant, carrying that stage's fixed description.
pub open spec fn error_for_stage(st: Stage, e: crate::error::FenError) -> bool {
    match st {
        Stage::PiecePlacement => e matches crate::error::FenError::InvalidPiecePlacement(m)
            && m@ == "expected 8 ranks of 8 files, separated by '/'"@,
        Stage::ActiveColor => e matches crate::error::FenError::InvalidActiveColor(m) && m@
            == "expected 'w' or 'b'"@,
        Stage::Castling => e matches crate::error::FenError::InvalidCastlingRights(m) && m@
            == "expected '-' or unrepeated letters from 'KQkq'"@,
        Stage::EnPassant => e matches crate::error::FenError::InvalidEnPassant(m) && m@
            == "expected '-' or a file 'a'-'h' and a rank '3' or '6'"@,
        Stage::HalfmoveClock => e matches crate::error::FenError::InvalidHalfmoveClock(m) && m@
            == "expected an unsigned number"@,
        Stage::FullmoveNumber => e matches crate::error::FenError::InvalidFullmoveNumber(m) && m@
            == "expected an unsigned number"@,
    }
}

} // verus!
