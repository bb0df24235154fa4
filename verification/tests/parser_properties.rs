// Further tests: error classification, grammar edge cases, purity, and
// the derived constructors.

use fen_parser::parse_fen;
use fen_parser::types::{CastlingRights, ChessPosition, Color, Piece, PieceKind};
use fen_parser::FenError;

/* Each failing field is classified by its own error variant */
#[test]
fn test_error_classification() {
    let placement = parse_fen("rnbqkbnr/pppppppp/8/8/8/8/PPPPPPPP/RNBQKBNX w KQkq - 0 1");
    assert!(matches!(placement, Err(FenError::InvalidPiecePlacement(_))));

    let color = parse_fen("8/8/8/8/8/8/8/8 x - - 0 1");
    match color {
        Err(FenError::InvalidActiveColor(m)) => assert_eq!(m, "expected 'w' or 'b'"),
        other => panic!("wrong classification: {:?}", other),
    }

    let castling = parse_fen("8/8/8/8/8/8/8/8 w KQkqk - 0 1");
    assert!(matches!(castling, Err(FenError::InvalidCastlingRights(_))));

    let en_passant = parse_fen("8/8/8/8/8/8/8/8 w - e9 0 1");
    assert!(matches!(en_passant, Err(FenError::InvalidEnPassant(_))));

    let halfmove = parse_fen("8/8/8/8/8/8/8/8 w - - a 1");
    assert!(matches!(halfmove, Err(FenError::InvalidHalfmoveClock(_))));

    let fullmove = parse_fen("8/8/8/8/8/8/8/8 w - - 0 x");
    assert!(matches!(fullmove, Err(FenError::InvalidFullmoveNumber(_))));
}

/* A rank whose files total 7 or 9 must fail, even with 8 rank groups */
#[test]
fn test_wrong_file_count() {
    assert!(parse_fen("rnbqkbnr/ppppppp/8/8/8/8/PPPPPPPP/RNBQKBNR w KQkq - 0 1").is_err());
    assert!(parse_fen("rnbqkbnr/ppppppppp/8/8/8/8/PPPPPPPP/RNBQKBNR w KQkq - 0 1").is_err());
    assert!(parse_fen("7/8/8/8/8/8/8/8 w - - 0 1").is_err());
    assert!(parse_fen("p8/8/8/8/8/8/8/8 w - - 0 1").is_err());
}

/* A castling field of "KQk" grants exactly those three rights */
#[test]
fn test_castling_kqk_exact() {
    let position = parse_fen("8/8/8/8/8/8/8/8 w KQk - 0 1").unwrap();
    assert!(position.castling_rights.white_kingside);
    assert!(position.castling_rights.white_queenside);
    assert!(position.castling_rights.black_kingside);
    assert!(!position.castling_rights.black_queenside);
}

/* The en-passant grammar admits only the rank digits 3 and 6 */
#[test]
fn test_en_passant_digits() {
    let position = parse_fen("8/8/8/8/8/8/8/8 b - e3 0 1").unwrap();
    assert_eq!(position.en_passant, Some((4, 2)));

    let position = parse_fen("8/8/8/8/8/8/8/8 w - c6 0 1").unwrap();
    assert_eq!(position.en_passant, Some((2, 5)));

    assert!(parse_fen("8/8/8/8/8/8/8/8 w - c4 0 1").is_err());
    assert!(parse_fen("8/8/8/8/8/8/8/8 w - c7 0 1").is_err());
    assert!(parse_fen("8/8/8/8/8/8/8/8 w - i6 0 1").is_err());
}

/* A fullmove number of 0 parses: the grammar accepts any unsigned number */
#[test]
fn test_zero_counters_accepted() {
    let position = parse_fen("8/8/8/8/8/8/8/8 w - - 0 0").unwrap();
    assert_eq!(position.halfmove_clock, 0);
    assert_eq!(position.fullmove_number, 0);
}

/* A counter beyond 32 bits fails; one at the limit parses */
#[test]
fn test_counter_range() {
    let position = parse_fen("8/8/8/8/8/8/8/8 w - - 4294967295 1").unwrap();
    assert_eq!(position.halfmove_clock, 4294967295);

    assert!(parse_fen("8/8/8/8/8/8/8/8 w - - 4294967296 1").is_err());
}

/* Trailing characters after the sixth field are accepted silently */
#[test]
fn test_trailing_input_ignored() {
    let position = parse_fen("8/8/8/8/8/8/8/8 w - - 0 1 extra stuff").unwrap();
    assert_eq!(position.fullmove_number, 1);
}

/* Tabs work as field separators, and separators may repeat */
#[test]
fn test_whitespace_separators() {
    let position = parse_fen("8/8/8/8/8/8/8/8\tw  -\t- 0\t\t1").unwrap();
    assert_eq!(position.active_color, Color::White);
    assert_eq!(position.en_passant, None);
}

/* An empty or truncated string fails */
#[test]
fn test_truncated_input() {
    assert!(parse_fen("").is_err());
    assert!(parse_fen("8/8/8/8/8/8/8/8").is_err());
    assert!(parse_fen("8/8/8/8/8/8/8/8 w").is_err());
    assert!(parse_fen("8/8/8/8/8/8/8/8 w - - 0").is_err());
}

/* Parsing is pure: the same string parses to equal positions */
#[test]
fn test_parse_idempotent() {
    let fen = "r1bqkb1r/pp1p1ppp/2n1pn2/2p5/2B1P3/2N2N2/PPPP1PPP/R1BQK2R w KQkq - 4 6";
    let first = parse_fen(fen).unwrap();
    let second = parse_fen(fen).unwrap();
    assert_eq!(first, second);
}

/* from_fen is the same parse entry point */
#[test]
fn test_from_fen() {
    let fen = "rnbqkbnr/pppppppp/8/8/8/8/PPPPPPPP/RNBQKBNR w KQkq - 0 1";
    let via_method = ChessPosition::from_fen(fen).unwrap();
    let via_fn = parse_fen(fen).unwrap();
    assert_eq!(via_method, via_fn);
}

/* The default position is the parsed standard starting position */
#[test]
fn test_default_position() {
    let position = ChessPosition::default();
    let parsed = parse_fen("rnbqkbnr/pppppppp/8/8/8/8/PPPPPPPP/RNBQKBNR w KQkq - 0 1").unwrap();
    assert_eq!(position, parsed);
    assert_eq!(
        position.pieces[7][3],
        Some(Piece {
            color: Color::Black,
            kind: PieceKind::Queen
        })
    );
}

/* The rights helpers: none() grants nothing, has_any() sees each flag */
#[test]
fn test_castling_rights_helpers() {
    let none = CastlingRights::none();
    assert!(!none.has_any());

    let one = CastlingRights {
        white_kingside: false,
        white_queenside: false,
        black_kingside: true,
        black_queenside: false,
    };
    assert!(one.has_any());
}
