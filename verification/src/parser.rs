//! The executable FEN parser, verified against the grammar of
//! [`crate::grammar`].
//!
//! Every function here takes the input string together with a cursor index
//! and is proved to return exactly what the corresponding specification
//! function of the grammar yields at that index.

use vstd::prelude::*;
use vstd::string::StrSliceExecFns;

use crate::error::FenError;
use crate::grammar::{
    board_view, castle_run_end, digit_run_end, digit_value, digits_value, empty_count_of_char,
    empty_run, ep_rank_of_char, error_for_stage, file_of_char, has_duplicate, is_castle_char, is_digit_char,
    is_space_char, more_ranks, piece_of_char, pos_model, rank_tail, rights_of_run, run_has,
    spec_active_color, spec_castling, spec_en_passant, spec_number, spec_parse_fen,
    spec_placement, spec_rank, spec_ranks, spec_skip_spaces, spec_space1,
};
use crate::types::{CastlingRights, ChessPosition, Color, Piece, PieceKind};

verus! {

/// Advances the cursor past the maximal whitespace run at `i`.
fn skip_spaces(s: &str, i: usize) -> (r: usize)
    requires
        i <= s@.len(),
    ensures
        r as int == spec_skip_spaces(s@, i as int),
        i <= r <= s@.len(),
{
    let n = s.unicode_len();
    let mut cur = i;
    loop
        invariant
            i <= cur <= n,
            n == s@.len(),
            spec_skip_spaces(s@, i as int) == spec_skip_spaces(s@, cur as int),
        ensures
            cur == n || !is_space_char(s@[cur as int]),
        decreases s@.len() - cur,
    {
        if cur < n {
            let c = s.get_char(cur);
            if c == ' ' || c == '\t' {
                cur = cur + 1;
            } else {
                break;
            }
        } else {
            break;
        }
    }
    cur
}

/// Consumes one mandatory whitespace run at `i`: at least one space or
/// tab, taken maximally.
fn eat_space1(s: &str, i: usize) -> (r: Option<usize>)
    requires
        i <= s@.len(),
    ensures
        match spec_space1(s@, i as int) {
            Some(j) => r matches Some(rj) && rj as int == j && i <= rj <= s@.len(),
            None => r is None,
        },
{
    let n = s.unicode_len();
    if i < n {
        let c = s.get_char(i);
        if c == ' ' || c == '\t' {
            Some(skip_spaces(s, i))
        } else {
            None
        }
    } else {
        None
    }
}

/// Maps one placement letter to its piece: uppercase is White, lowercase
/// is Black, the letter picks the kind.
fn parse_piece(c: char) -> (r: Option<Piece>)
    ensures
        r == piece_of_char(c),
{
    match c {
        'K' => Some(Piece { color: Color::White, kind: PieceKind::King }),
        'Q' => Some(Piece { color: Color::White, kind: PieceKind::Queen }),
        'R' => Some(Piece { color: Color::White, kind: PieceKind::Rook }),
        'B' => Some(Piece { color: Color::White, kind: PieceKind::Bishop }),
        'N' => Some(Piece { color: Color::White, kind: PieceKind::Knight }),
        'P' => Some(Piece { color: Color::White, kind: PieceKind::Pawn }),
        'k' => Some(Piece { color: Color::Black, kind: PieceKind::King }),
        'q' => Some(Piece { color: Color::Black, kind: PieceKind::Queen }),
        'r' => Some(Piece { color: Color::Black, kind: PieceKind::Rook }),
        'b' => Some(Piece { color: Color::Black, kind: PieceKind::Bishop }),
        'n' => Some(Piece { color: Color::Black, kind: PieceKind::Knight }),
        'p' => Some(Piece { color: Color::Black, kind: PieceKind::Pawn }),
        _ => None,
    }
}

/// Maps one empty-run digit `1`-`8` to its run length.
fn parse_empty(c: char) -> (r: Option<u8>)
    ensures
        r == empty_count_of_char(c),
        r matches Some(d) ==> 1 <= d <= 8,
{
    match c {
        '1' => Some(1),
        '2' => Some(2),
        '3' => Some(3),
        '4' => Some(4),
        '5' => Some(5),
        '6' => Some(6),
        '7' => Some(7),
        '8' => Some(8),
        _ => None,
    }
}

/// The rank loop's frame: the squares already placed (`prefix`) together
/// with whatever `rank_tail` still yields from the cursor make up exactly
/// what the whole rank yields from its start.
spec fn rank_frame(s: Seq<char>, i0: int, prefix: Seq<Option<Piece>>, cur: int, idx: int) -> bool {
    match rank_tail(s, cur, idx) {
        Some((rest, j)) => rank_tail(s, i0, 0) == Some((prefix + rest, j)),
        None => rank_tail(s, i0, 0) is None,
    }
}

/// Placing one piece keeps the rank frame.
proof fn lemma_rank_frame_piece(s: Seq<char>, i0: int, prefix: Seq<Option<Piece>>, cur: int, idx: int)
    requires
        rank_frame(s, i0, prefix, cur, idx),
        0 <= cur < s.len(),
        piece_of_char(s[cur]) is Some,
        0 <= idx < 8,
    ensures
        rank_frame(s, i0, prefix + seq![piece_of_char(s[cur])], cur + 1, idx + 1),
{
    match rank_tail(s, cur + 1, idx + 1) {
        Some((rest, j)) => {
            assert(rank_tail(s, cur, idx) == Some((seq![piece_of_char(s[cur])] + rest, j)));
            assert((prefix + (seq![piece_of_char(s[cur])] + rest)) =~= ((prefix + seq![
                piece_of_char(s[cur]),
            ]) + rest));
        },
        None => {
            assert(rank_tail(s, cur, idx) is None);
        },
    }
}

/// Skipping one empty run keeps the rank frame.
proof fn lemma_rank_frame_empty(
    s: Seq<char>,
    i0: int,
    prefix: Seq<Option<Piece>>,
    cur: int,
    idx: int,
    d: u8,
)
    requires
        rank_frame(s, i0, prefix, cur, idx),
        0 <= cur < s.len(),
        piece_of_char(s[cur]) is None,
        empty_count_of_char(s[cur]) == Some(d),
        0 <= idx,
        idx + d <= 8,
    ensures
        rank_frame(s, i0, prefix + empty_run(d), cur + 1, idx + d),
{
    match rank_tail(s, cur + 1, idx + d) {
        Some((rest, j)) => {
            assert(rank_tail(s, cur, idx) == Some((empty_run(d) + rest, j)));
            assert((prefix + (empty_run(d) + rest)) =~= ((prefix + empty_run(d)) + rest));
        },
        None => {
            assert(rank_tail(s, cur, idx) is None);
        },
    }
}

/// Parses one rank descriptor at `i`: piece letters and empty-run digits
/// accounting for exactly 8 files. Yields the 8 squares in file order and
/// the index after the last token.
fn parse_rank(s: &str, i: usize) -> (r: Option<([Option<Piece>; 8], usize)>)
    requires
        i <= s@.len(),
    ensures
        match spec_rank(s@, i as int) {
            Some((sq, j)) => r matches Some(p) && p.0@ == sq && p.1 as int == j && i <= p.1
                <= s@.len(),
            None => r is None,
        },
{
    let n = s.unicode_len();
    let mut arr: [Option<Piece>; 8] = [None; 8];
    let mut idx: usize = 0;
    let mut cur = i;
    proof {
        match rank_tail(s@, i as int, 0) {
            Some((rest, j)) => {
                assert(arr@.take(0) + rest =~= rest);
            },
            None => {},
        }
    }
    loop
        invariant
            i <= cur <= n,
            n == s@.len(),
            idx <= 8,
            arr@.len() == 8,
            forall|k: int| idx <= k < 8 ==> arr@[k] is None,
            rank_frame(s@, i as int, arr@.take(idx as int), cur as int, idx as int),
        ensures
            cur == n || (piece_of_char(s@[cur as int]) is None && empty_count_of_char(
                s@[cur as int],
            ) is None),
        decreases s@.len() - cur,
    {
        if cur == n {
            break;
        }
        let c = s.get_char(cur);
        match parse_piece(c) {
            Some(p) => {
                if idx >= 8 {
                    proof {
                        assert(rank_tail(s@, cur as int, idx as int) is None);
                    }
                    return None;
                }
                proof {
                    lemma_rank_frame_piece(
                        s@,
                        i as int,
                        arr@.take(idx as int),
                        cur as int,
                        idx as int,
                    );
                }
                let ghost arr0 = arr@;
                arr[idx] = Some(p);
                proof {
                    assert(arr@.take(idx as int + 1) =~= arr0.take(idx as int) + seq![
                        piece_of_char(s@[cur as int]),
                    ]);
                }
                idx = idx + 1;
                cur = cur + 1;
            },
            None => {
                match parse_empty(c) {
                    Some(d) => {
                        if idx + (d as usize) > 8 {
                            proof {
                                assert(rank_tail(s@, cur as int, idx as int) is None);
                            }
                            return None;
                        }
                        proof {
                            lemma_rank_frame_empty(
                                s@,
                                i as int,
                                arr@.take(idx as int),
                                cur as int,
                                idx as int,
                                d,
                            );
                            assert(arr@.take(idx as int + d as int) =~= arr@.take(idx as int)
                                + empty_run(d));
                        }
                        idx = idx + (d as usize);
                        cur = cur + 1;
                    },
                    None => {
                        break;
                    },
                }
            },
        }
    }
    if idx == 8 {
        proof {
            assert(rank_tail(s@, cur as int, 8) == Some(
                (Seq::<Option<Piece>>::empty(), cur as int),
            ));
            assert(arr@.take(8) + Seq::<Option<Piece>>::empty() =~= arr@);
        }
        Some((arr, cur))
    } else {
        proof {
            assert(rank_tail(s@, cur as int, idx as int) is None);
        }
        None
    }
}

/// A sequence of rank arrays as a sequence of rank sequences.
spec fn ranks_view(rs: Seq<[Option<Piece>; 8]>) -> Seq<Seq<Option<Piece>>> {
    Seq::new(rs.len(), |k: int| rs[k]@)
}

/// Parses the piece-placement field at `i`: a `/`-separated list of
/// exactly 8 ranks, then one mandatory whitespace run. The first parsed
/// rank is stored at board index 7 (chess row 8) and the last at index 0
/// (row 1).
fn parse_piece_placement(s: &str, i: usize) -> (r: Option<([[Option<Piece>; 8]; 8], usize)>)
    requires
        i <= s@.len(),
    ensures
        match spec_placement(s@, i as int) {
            Some((b, j)) => r matches Some(p) && board_view(p.0) == b && p.1 as int == j && i
                <= p.1 <= s@.len(),
            None => r is None,
        },
{
    let n = s.unicode_len();
    let mut ranks: Vec<[Option<Piece>; 8]> = Vec::new();
    let mut cur: usize;
    match parse_rank(s, i) {
        None => {
            return None;
        },
        Some((r0, j0)) => {
            ranks.push(r0);
            cur = j0;
            proof {
                assert(ranks_view(ranks@) =~= seq![r0@]);
            }
        },
    }
    loop
        invariant
            i <= cur <= n,
            n == s@.len(),
            match spec_ranks(s@, i as int) {
                Some((lst, k)) => lst == ranks_view(ranks@) + more_ranks(s@, cur as int).0 && k
                    == more_ranks(s@, cur as int).1,
                None => false,
            },
        ensures
            cur == n || s@[cur as int] != '/' || spec_rank(s@, cur as int + 1) is None,
        decreases s@.len() - cur,
    {
        if cur == n {
            break;
        }
        let c = s.get_char(cur);
        if c != '/' {
            break;
        }
        match parse_rank(s, cur + 1) {
            None => {
                break;
            },
            Some((rk, j)) => {
                proof {
                    assert(more_ranks(s@, cur as int).0 == seq![rk@] + more_ranks(s@, j as int).0);
                    assert(more_ranks(s@, cur as int).1 == more_ranks(s@, j as int).1);
                    assert(ranks_view(ranks@.push(rk)) =~= ranks_view(ranks@) + seq![rk@]);
                    assert((ranks_view(ranks@) + seq![rk@]) + more_ranks(s@, j as int).0
                        =~= ranks_view(ranks@) + (seq![rk@] + more_ranks(s@, j as int).0));
                }
                ranks.push(rk);
                cur = j;
            },
        }
    }
    proof {
        assert(more_ranks(s@, cur as int) == (Seq::<Seq<Option<Piece>>>::empty(), cur as int));
        assert(ranks_view(ranks@) + Seq::<Seq<Option<Piece>>>::empty() =~= ranks_view(ranks@));
    }
    let j2: usize;
    match eat_space1(s, cur) {
        None => {
            return None;
        },
        Some(x) => {
            j2 = x;
        },
    }
    if ranks.len() != 8 {
        return None;
    }
    let mut board: [[Option<Piece>; 8]; 8] = [[None; 8]; 8];
    let mut t: usize = 0;
    while t < 8
        invariant
            t <= 8,
            ranks@.len() == 8,
            forall|u: int| 0 <= u < t ==> board@[7 - u]@ == ranks@[u]@,
        decreases 8 - t,
    {
        board[7 - t] = ranks[t];
        t = t + 1;
    }
    proof {
        match spec_placement(s@, i as int) {
            Some((b, jj)) => {
                assert(board_view(board) =~= b);
            },
            None => {
                assert(false);
            },
        }
    }
    Some((board, j2))
}

/// Parses the active-color field at `i`: one of `w`/`b`, then one
/// mandatory whitespace run.
fn parse_active_color(s: &str, i: usize) -> (r: Option<(Color, usize)>)
    requires
        i <= s@.len(),
    ensures
        match spec_active_color(s@, i as int) {
            Some((c, j)) => r matches Some(p) && p.0 == c && p.1 as int == j && i <= p.1
                <= s@.len(),
            None => r is None,
        },
{
    let n = s.unicode_len();
    if i == n {
        return None;
    }
    let c = s.get_char(i);
    let col: Color;
    if c == 'w' {
        col = Color::White;
    } else if c == 'b' {
        col = Color::Black;
    } else {
        return None;
    }
    match eat_space1(s, i + 1) {
        Some(j) => Some((col, j)),
        None => None,
    }
}

/// A character occurs in a run one longer exactly when it occurs in the
/// shorter run or is the character just appended.
proof fn lemma_run_has_extend(s: Seq<char>, i: int, k: int, c: char)
    requires
        0 <= i <= k < s.len(),
    ensures
        run_has(s, i, k + 1, c) == (run_has(s, i, k, c) || s[k] == c),
{
    if run_has(s, i, k + 1, c) {
        let t = choose|t: int| i <= t < k + 1 && s[t] == c;
        if t < k {
            assert(run_has(s, i, k, c));
        }
    }
    if run_has(s, i, k, c) {
        let t = choose|t: int| i <= t < k && s[t] == c;
        assert(i <= t < k + 1 && s[t] == c);
        assert(run_has(s, i, k + 1, c));
    }
    if s[k] == c {
        assert(i <= k < k + 1 && s[k] == c);
        assert(run_has(s, i, k + 1, c));
    }
}

/// A duplicate-free run stays duplicate-free when the appended character
/// did not occur in it.
proof fn lemma_no_dup_extend(s: Seq<char>, i: int, k: int)
    requires
        0 <= i <= k < s.len(),
        !has_duplicate(s, i, k),
        !run_has(s, i, k, s[k]),
    ensures
        !has_duplicate(s, i, k + 1),
{
    if has_duplicate(s, i, k + 1) {
        let (k1, k2) = choose|k1: int, k2: int| i <= k1 < k2 < k + 1 && s[k1] == s[k2];
        if k2 < k {
            assert(has_duplicate(s, i, k));
        } else {
            assert(i <= k1 < k && s[k1] == s[k]);
            assert(run_has(s, i, k, s[k]));
        }
    }
}

/// A character that already occurred before position `k` makes the whole
/// run up to `e` hold a duplicate.
proof fn lemma_dup_found(s: Seq<char>, i: int, k: int, e: int)
    requires
        0 <= i <= k < e <= s.len(),
        run_has(s, i, k, s[k]),
    ensures
        has_duplicate(s, i, e),
{
    let t = choose|t: int| i <= t < k && s[t] == s[k];
    assert(i <= t < k < e && s[t] == s[k]);
}

/// Parses the castling field at `i`: a maximal non-empty run of
/// characters from `{-,K,Q,k,q}`, then one mandatory whitespace run.
/// The run `-` alone grants nothing; otherwise a repeated character
/// fails and each letter grants its permission.
fn parse_castling(s: &str, i: usize) -> (r: Option<(CastlingRights, usize)>)
    requires
        i <= s@.len(),
    ensures
        match spec_castling(s@, i as int) {
            Some((cr, j)) => r matches Some(p) && p.0 == cr && p.1 as int == j && i <= p.1
                <= s@.len(),
            None => r is None,
        },
{
    let n = s.unicode_len();
    let mut e = i;
    loop
        invariant
            i <= e <= n,
            n == s@.len(),
            castle_run_end(s@, i as int) == castle_run_end(s@, e as int),
            forall|k: int| i <= k < e ==> is_castle_char(s@[k]),
        ensures
            e == n || !is_castle_char(s@[e as int]),
        decreases s@.len() - e,
    {
        if e == n {
            break;
        }
        let c = s.get_char(e);
        if c == '-' || c == 'K' || c == 'Q' || c == 'k' || c == 'q' {
            e = e + 1;
        } else {
            break;
        }
    }
    if e == i {
        return None;
    }
    let j: usize;
    match eat_space1(s, e) {
        None => {
            return None;
        },
        Some(x) => {
            j = x;
        },
    }
    if e - i == 1 && s.get_char(i) == '-' {
        return Some((CastlingRights::none(), j));
    }
    let mut seen_dash = false;
    let mut seen_wk = false;
    let mut seen_wq = false;
    let mut seen_bk = false;
    let mut seen_bq = false;
    let mut k = i;
    while k < e
        invariant
            i <= k <= e <= n,
            i < e,
            n == s@.len(),
            castle_run_end(s@, i as int) == e,
            spec_space1(s@, e as int) == Some(j as int),
            i <= j <= n,
            !(e - i == 1 && s@[i as int] == '-'),
            forall|t: int| i <= t < e ==> is_castle_char(s@[t]),
            seen_dash == run_has(s@, i as int, k as int, '-'),
            seen_wk == run_has(s@, i as int, k as int, 'K'),
            seen_wq == run_has(s@, i as int, k as int, 'Q'),
            seen_bk == run_has(s@, i as int, k as int, 'k'),
            seen_bq == run_has(s@, i as int, k as int, 'q'),
            !has_duplicate(s@, i as int, k as int),
        decreases e - k,
    {
        let c = s.get_char(k);
        let dup: bool;
        if c == 'K' {
            dup = seen_wk;
            seen_wk = true;
        } else if c == 'Q' {
            dup = seen_wq;
            seen_wq = true;
        } else if c == 'k' {
            dup = seen_bk;
            seen_bk = true;
        } else if c == 'q' {
            dup = seen_bq;
            seen_bq = true;
        } else {
            dup = seen_dash;
            seen_dash = true;
        }
        if dup {
            proof {
                lemma_dup_found(s@, i as int, k as int, e as int);
            }
            return None;
        }
        proof {
            lemma_no_dup_extend(s@, i as int, k as int);
            lemma_run_has_extend(s@, i as int, k as int, '-');
            lemma_run_has_extend(s@, i as int, k as int, 'K');
            lemma_run_has_extend(s@, i as int, k as int, 'Q');
            lemma_run_has_extend(s@, i as int, k as int, 'k');
            lemma_run_has_extend(s@, i as int, k as int, 'q');
        }
        k = k + 1;
    }
    let rights = CastlingRights {
        white_kingside: seen_wk,
        white_queenside: seen_wq,
        black_kingside: seen_bk,
        black_queenside: seen_bq,
    };
    proof {
        assert(rights == rights_of_run(s@, i as int, e as int));
    }
    Some((rights, j))
}

/// Maps one file letter `a`-`h` to its 0-indexed board file.
fn file_char(c: char) -> (r: Option<u8>)
    ensures
        r == file_of_char(c),
{
    match c {
        'a' => Some(0),
        'b' => Some(1),
        'c' => Some(2),
        'd' => Some(3),
        'e' => Some(4),
        'f' => Some(5),
        'g' => Some(6),
        'h' => Some(7),
        _ => None,
    }
}

/// Maps one en-passant rank digit to its 0-indexed board rank; only `3`
/// and `6` are admitted.
fn ep_rank_char(c: char) -> (r: Option<u8>)
    ensures
        r == ep_rank_of_char(c),
{
    match c {
        '3' => Some(2),
        '6' => Some(5),
        _ => None,
    }
}

/// Parses the en-passant field at `i`: the literal `-`, or one file
/// letter and one rank digit from `{3,6}`; then one mandatory whitespace
/// run.
fn parse_en_passant(s: &str, i: usize) -> (r: Option<(Option<(u8, u8)>, usize)>)
    requires
        i <= s@.len(),
    ensures
        match spec_en_passant(s@, i as int) {
            Some((ep, j)) => r matches Some(p) && p.0 == ep && p.1 as int == j && i <= p.1
                <= s@.len(),
            None => r is None,
        },
{
    let n = s.unicode_len();
    if i == n {
        return None;
    }
    let c = s.get_char(i);
    if c == '-' {
        match eat_space1(s, i + 1) {
            Some(j) => Some((None, j)),
            None => None,
        }
    } else {
        if i + 1 >= n {
            return None;
        }
        let f = file_char(c);
        let rk = ep_rank_char(s.get_char(i + 1));
        match (f, rk) {
            (Some(fv), Some(rv)) => match eat_space1(s, i + 2) {
                Some(j) => Some((Some((fv, rv)), j)),
                None => None,
            },
            _ => None,
        }
    }
}

/// Maps one decimal digit to its value.
fn digit_char(c: char) -> (d: u32)
    requires
        is_digit_char(c),
    ensures
        d == digit_value(c),
        d <= 9,
{
    match c {
        '0' => 0,
        '1' => 1,
        '2' => 2,
        '3' => 3,
        '4' => 4,
        '5' => 5,
        '6' => 6,
        '7' => 7,
        '8' => 8,
        _ => 9,
    }
}

/// Parses a numeric counter field at `i`: a maximal non-empty digit run
/// read as a decimal number that must fit in 32 bits, then an optional
/// whitespace run.
fn parse_number(s: &str, i: usize) -> (r: Option<(u32, usize)>)
    requires
        i <= s@.len(),
    ensures
        match spec_number(s@, i as int) {
            Some((v, j)) => r matches Some(p) && p.0 == v && p.1 as int == j && i <= p.1
                <= s@.len(),
            None => r is None,
        },
{
    let n = s.unicode_len();
    let mut e = i;
    loop
        invariant
            i <= e <= n,
            n == s@.len(),
            digit_run_end(s@, i as int) == digit_run_end(s@, e as int),
            forall|k: int| i <= k < e ==> is_digit_char(s@[k]),
        ensures
            e == n || !is_digit_char(s@[e as int]),
        decreases s@.len() - e,
    {
        if e == n {
            break;
        }
        let c = s.get_char(e);
        if c == '0' || c == '1' || c == '2' || c == '3' || c == '4' || c == '5' || c == '6' || c
            == '7' || c == '8' || c == '9' {
            e = e + 1;
        } else {
            break;
        }
    }
    if e == i {
        return None;
    }
    let mut acc: u64 = 0;
    let mut of = false;
    let mut k = i;
    while k < e
        invariant
            i <= k <= e <= n,
            n == s@.len(),
            forall|t: int| i <= t < e ==> is_digit_char(s@[t]),
            !of ==> acc as int == digits_value(s@, i as int, k as int) && acc <= u32::MAX as u64,
            of ==> digits_value(s@, i as int, k as int) > u32::MAX as int,
        decreases e - k,
    {
        let c = s.get_char(k);
        let d = digit_char(c);
        if !of {
            let next = acc * 10 + (d as u64);
            if next > (u32::MAX as u64) {
                of = true;
            } else {
                acc = next;
            }
        }
        k = k + 1;
    }
    if of {
        return None;
    }
    let j = skip_spaces(s, e);
    Some((acc as u32, j))
}

/// Parses a whole FEN string into a validated position.
///
/// Succeeds exactly when the six-field grammar of
/// [`spec_parse_fen`] matches the string, and then returns
/// exactly the position the grammar assigns. A failure is classified by
/// the first field whose grammar did not match; characters left after the
/// fullmove number are accepted silently.
pub fn parse_fen(fen: &str) -> (r: Result<ChessPosition, FenError>)
    ensures
        match spec_parse_fen(fen@) {
            Ok(m) => r matches Ok(p) && pos_model(&p) == m,
            Err(st) => r matches Err(e) && error_for_stage(st, e),
        },
{
    let (pieces, i1) = match parse_piece_placement(fen, 0) {
        Some(x) => x,
        None => {
            return Err(
                FenError::InvalidPiecePlacement(
                    "expected 8 ranks of 8 files, separated by '/'".to_owned(),
                ),
            );
        },
    };
    let (active_color, i2) = match parse_active_color(fen, i1) {
        Some(x) => x,
        None => {
            return Err(FenError::InvalidActiveColor("expected 'w' or 'b'".to_owned()));
        },
    };
    let (castling_rights, i3) = match parse_castling(fen, i2) {
        Some(x) => x,
        None => {
            return Err(
                FenError::InvalidCastlingRights(
                    "expected '-' or unrepeated letters from 'KQkq'".to_owned(),
                ),
            );
        },
    };
    let (en_passant, i4) = match parse_en_passant(fen, i3) {
        Some(x) => x,
        None => {
            return Err(
                FenError::InvalidEnPassant(
                    "expected '-' or a file 'a'-'h' and a rank '3' or '6'".to_owned(),
                ),
            );
        },
    };
    let (halfmove_clock, i5) = match parse_number(fen, i4) {
        Some(x) => x,
        None => {
            return Err(
                FenError::InvalidHalfmoveClock("expected an unsigned number".to_owned()),
            );
        },
    };
    let (fullmove_number, _) = match parse_number(fen, i5) {
        Some(x) => x,
        None => {
            return Err(
                FenError::InvalidFullmoveNumber("expected an unsigned number".to_owned()),
            );
        },
    };
    Ok(
        ChessPosition {
            pieces,
            active_color,
            castling_rights,
            en_passant,
            halfmove_clock,
            fullmove_number,
        },
    )
}

/// Parsing is a pure function of the input string: any two positions
/// that satisfy the parser's contract for the same string agree on every
/// observable field, so parsing twice yields equal values and no call
/// can affect another.
pub proof fn lemma_parse_deterministic(s: Seq<char>, p1: &ChessPosition, p2: &ChessPosition)
    requires
        match spec_parse_fen(s) {
            Ok(m) => pos_model(p1) == m && pos_model(p2) == m,
            Err(_) => false,
        },
    ensures
        forall|r: int, f: int|
            0 <= r < 8 && 0 <= f < 8 ==> p1.pieces@[r]@[f] == p2.pieces@[r]@[f],
        p1.active_color == p2.active_color,
        p1.castling_rights == p2.castling_rights,
        p1.en_passant == p2.en_passant,
        p1.halfmove_clock == p2.halfmove_clock,
        p1.fullmove_number == p2.fullmove_number,
{
    assert forall|r: int, f: int|
        0 <= r < 8 && 0 <= f < 8 implies p1.pieces@[r]@[f] == p2.pieces@[r]@[f] by {
        assert(board_view(p1.pieces)[r] == board_view(p2.pieces)[r]);
    }
}

} // verus!
