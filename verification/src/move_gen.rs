//! Pseudo-legal move generation: the moves each piece can make by its own
//! rule of movement. Whether a move leaves the mover's king attacked is not
//! looked at.
//!
//! The moves of a position are defined as a sequence, in the order in which
//! the squares are scanned and, for one piece, in a fixed order of directions.
//! The generator returns exactly that sequence.

use crate::board::{col, placement_wf, row, square_at, step, Board, Position};
use crate::moves::{holds_right, CastleType, Move};
use crate::piece::{is_color, is_kind, lemma_flags_compose, Piece};
use vstd::prelude::*;

verus! {

/// The plain move between two squares.
pub open spec fn plain(from: int, to: int) -> Move {
    Move::AB { from: from as usize, to: to as usize }
}

/// The promotion of a pawn of `color` to `kind`.
pub open spec fn promotion(color: u16, from: int, to: int, kind: u16) -> Move {
    Move::Promotion { from: from as usize, to: to as usize, piece: Piece::spec_new(color, kind) }
}

/// The row change of a pawn's advance: towards row 0 for White, towards
/// row 7 for Black.
pub open spec fn forward(color: u16) -> int {
    if color == Piece::WHITE {
        -1
    } else {
        1
    }
}

/// The row on which the pawns of `color` start.
pub open spec fn home_row(color: u16) -> int {
    if color == Piece::WHITE {
        6
    } else {
        1
    }
}

/// The row on which the pawns of `color` promote.
pub open spec fn last_row(color: u16) -> int {
    if color == Piece::WHITE {
        0
    } else {
        7
    }
}

/// The moves by which a pawn arrives on `to`: the four promotions if `to`
/// lies on the last row, the plain move otherwise.
pub open spec fn arrivals(color: u16, from: int, to: int) -> Seq<Move> {
    if row(to) == last_row(color) {
        seq![
            promotion(color, from, to, Piece::QUEEN),
            promotion(color, from, to, Piece::ROOK),
            promotion(color, from, to, Piece::BISHOP),
            promotion(color, from, to, Piece::KNIGHT),
        ]
    } else {
        seq![plain(from, to)]
    }
}

/// The second square of a double push, after the pawn could reach `first`.
pub open spec fn double_push(p: Position, color: u16, from: int, first: int) -> Seq<Move> {
    if row(from) == home_row(color) {
        match step(first, forward(color), 0) {
            Some(second) => if p.empty_at(second) {
                seq![plain(from, second)]
            } else {
                Seq::empty()
            },
            None => Seq::empty(),
        }
    } else {
        Seq::empty()
    }
}

/// A pawn's advances: one square if that square is empty, and from the home
/// row a second square if that one is empty too.
pub open spec fn pawn_pushes(p: Position, color: u16, from: int) -> Seq<Move> {
    match step(from, forward(color), 0) {
        Some(first) => if p.empty_at(first) {
            arrivals(color, from, first) + double_push(p, color, from, first)
        } else {
            Seq::empty()
        },
        None => Seq::empty(),
    }
}

/// A pawn's capture towards column offset `dc`: onto an enemy piece, or en
/// passant onto the target square, taking the pawn beside the capturer.
pub open spec fn pawn_capture(p: Position, color: u16, from: int, dc: int) -> Seq<Move> {
    match step(from, forward(color), dc) {
        Some(to) => if p.enemy_at(to, color) {
            arrivals(color, from, to)
        } else if p.en_passant == Some(to as usize) {
            seq![
                Move::EnPassant {
                    from: from as usize,
                    to: to as usize,
                    capture: square_at(row(from), col(to)) as usize,
                },
            ]
        } else {
            Seq::empty()
        },
        None => Seq::empty(),
    }
}

/// All moves of a pawn of `color` on `from`.
pub open spec fn pawn_moves(p: Position, color: u16, from: int) -> Seq<Move> {
    pawn_pushes(p, color, from) + pawn_capture(p, color, from, -1) + pawn_capture(
        p,
        color,
        from,
        1,
    )
}

/// The move by one fixed offset: playable if the offset stays on the board
/// and the square reached holds no piece of `color`.
pub open spec fn leap(p: Position, color: u16, from: int, dr: int, dc: int) -> Seq<Move> {
    match step(from, dr, dc) {
        Some(to) => if p.color_at(to) != color {
            seq![plain(from, to)]
        } else {
            Seq::empty()
        },
        None => Seq::empty(),
    }
}

/// The eight offsets of a knight's leap, as row and column changes.
pub open spec fn knight_offsets() -> Seq<(i8, i8)> {
    seq![(-2i8, -1i8), (-2i8, 1i8), (-1i8, -2i8), (-1i8, 2i8), (1i8, -2i8), (1i8, 2i8), (2i8, -1i8), (2i8, 1i8)]
}

/// The four directions along rows and columns: up, down, left, right.
pub open spec fn rook_directions() -> Seq<(i8, i8)> {
    seq![(-1i8, 0i8), (1i8, 0i8), (0i8, -1i8), (0i8, 1i8)]
}

/// The four diagonal directions.
pub open spec fn bishop_directions() -> Seq<(i8, i8)> {
    seq![(-1i8, -1i8), (-1i8, 1i8), (1i8, -1i8), (1i8, 1i8)]
}

/// All eight directions: a rook's, then a bishop's.
pub open spec fn queen_directions() -> Seq<(i8, i8)> {
    rook_directions() + bishop_directions()
}

/// The leaps by the first `n` of the given offsets, in their order.
pub open spec fn leaps(p: Position, color: u16, from: int, offsets: Seq<(i8, i8)>, n: int) -> Seq<
    Move,
>
    decreases n,
{
    if n <= 0 {
        Seq::empty()
    } else {
        leaps(p, color, from, offsets, n - 1) + leap(
            p,
            color,
            from,
            offsets[n - 1].0 as int,
            offsets[n - 1].1 as int,
        )
    }
}

/// All moves of a knight of `color` on `from`.
pub open spec fn knight_moves(p: Position, color: u16, from: int) -> Seq<Move> {
    leaps(p, color, from, knight_offsets(), 8)
}

/// The moves of a sliding piece that started on `from`, has reached `cur`
/// and may take up to `n` further steps in direction (`dr`, `dc`): every
/// empty square is a destination and the slide goes on; the first occupied
/// square is a destination if an enemy stands there; and there the slide
/// ends, as it does at the edge of the board.
pub open spec fn ray(p: Position, color: u16, from: int, cur: int, dr: int, dc: int, n: nat) -> Seq<
    Move,
>
    decreases n,
{
    if n == 0 {
        Seq::empty()
    } else {
        match step(cur, dr, dc) {
            Some(to) => if p.empty_at(to) {
                seq![plain(from, to)] + ray(p, color, from, to, dr, dc, (n - 1) as nat)
            } else if p.color_at(to) != color {
                seq![plain(from, to)]
            } else {
                Seq::empty()
            },
            None => Seq::empty(),
        }
    }
}

/// The whole slide from `from` in one direction.
pub open spec fn slide(p: Position, color: u16, from: int, dr: int, dc: int) -> Seq<Move> {
    ray(p, color, from, from, dr, dc, 7)
}

/// The slides in the first `n` of the given directions, in their order.
pub open spec fn slides(p: Position, color: u16, from: int, dirs: Seq<(i8, i8)>, n: int) -> Seq<
    Move,
>
    decreases n,
{
    if n <= 0 {
        Seq::empty()
    } else {
        slides(p, color, from, dirs, n - 1) + slide(
            p,
            color,
            from,
            dirs[n - 1].0 as int,
            dirs[n - 1].1 as int,
        )
    }
}

/// All moves of a rook of `color` on `from`.
pub open spec fn rook_moves(p: Position, color: u16, from: int) -> Seq<Move> {
    slides(p, color, from, rook_directions(), 4)
}

/// All moves of a bishop of `color` on `from`.
pub open spec fn bishop_moves(p: Position, color: u16, from: int) -> Seq<Move> {
    slides(p, color, from, bishop_directions(), 4)
}

/// All moves of a queen of `color` on `from`.
pub open spec fn queen_moves(p: Position, color: u16, from: int) -> Seq<Move> {
    slides(p, color, from, queen_directions(), 8)
}

/// The squares between king and rook are empty.
pub open spec fn castle_path_clear(p: Position, ty: CastleType) -> bool {
    match ty {
        CastleType::BlackLong => p.empty_at(1) && p.empty_at(2) && p.empty_at(3),
        CastleType::BlackShort => p.empty_at(5) && p.empty_at(6),
        CastleType::WhiteLong => p.empty_at(57) && p.empty_at(58) && p.empty_at(59),
        CastleType::WhiteShort => p.empty_at(61) && p.empty_at(62),
    }
}

/// The king on `from` may castle: the right is still held, the king stands
/// on its starting square, and the squares between king and rook are empty.
pub open spec fn can_castle(p: Position, from: int, ty: CastleType) -> bool {
    &&& holds_right(p.castle_rights, ty)
    &&& from == ty.king_from()
    &&& castle_path_clear(p, ty)
}

/// The castling move `ty`, if the king on `from` may make it.
pub open spec fn castle(p: Position, from: int, ty: CastleType) -> Seq<Move> {
    if can_castle(p, from, ty) {
        seq![Move::Castle { ty }]
    } else {
        Seq::empty()
    }
}

/// The castling moves of the king of `color` on `from`: short, then long.
pub open spec fn castle_moves(p: Position, color: u16, from: int) -> Seq<Move> {
    if color == Piece::WHITE {
        castle(p, from, CastleType::WhiteShort) + castle(p, from, CastleType::WhiteLong)
    } else if color == Piece::BLACK {
        castle(p, from, CastleType::BlackShort) + castle(p, from, CastleType::BlackLong)
    } else {
        Seq::empty()
    }
}

/// The king's single steps onto the eight neighbouring squares.
pub open spec fn king_steps(p: Position, color: u16, from: int) -> Seq<Move> {
    leaps(p, color, from, queen_directions(), 8)
}

/// All moves of a king of `color` on `from`: the single steps, then castling.
pub open spec fn king_moves(p: Position, color: u16, from: int) -> Seq<Move> {
    king_steps(p, color, from) + castle_moves(p, color, from)
}

/// All moves of a piece of kind `kind` and colour `color` on `from`.
pub open spec fn piece_moves(p: Position, kind: u16, color: u16, from: int) -> Seq<Move> {
    if kind == Piece::PAWN {
        pawn_moves(p, color, from)
    } else if kind == Piece::KNIGHT {
        knight_moves(p, color, from)
    } else if kind == Piece::BISHOP {
        bishop_moves(p, color, from)
    } else if kind == Piece::ROOK {
        rook_moves(p, color, from)
    } else if kind == Piece::QUEEN {
        queen_moves(p, color, from)
    } else if kind == Piece::KING {
        king_moves(p, color, from)
    } else {
        Seq::empty()
    }
}

/// The moves that start on `sq`: those of the piece that stands there, if
/// it is of colour `color`.
pub open spec fn moves_from(p: Position, color: u16, sq: int) -> Seq<Move> {
    if !p.empty_at(sq) && p.color_at(sq) == color {
        piece_moves(p, p.kind_at(sq), color, sq)
    } else {
        Seq::empty()
    }
}

/// The moves that start on one of the first `n` squares, in square order.
pub open spec fn moves_upto(p: Position, color: u16, n: int) -> Seq<Move>
    decreases n,
{
    if n <= 0 {
        Seq::empty()
    } else {
        moves_upto(p, color, n - 1) + moves_from(p, color, n - 1)
    }
}

/// The pseudo-legal moves of `color` in position `p`.
pub open spec fn pseudo_legal_moves(p: Position, color: u16) -> Seq<Move> {
    moves_upto(p, color, 64)
}

/// Appends the moves by which a pawn arrives on `to`.
fn push_arrivals(pos: usize, to: usize, color: u16, moves: &mut Vec<Move>)
    requires
        pos < 64,
        to < 64,
        is_color(color),
    ensures
        final(moves)@ == old(moves)@ + arrivals(color, pos as int, to as int),
{
    let last: usize = if color == Piece::WHITE {
        0
    } else {
        7
    };
    if to / 8 == last {
        moves.push(
            Move::Promotion { from: pos, to, piece: Piece::new_unchecked(color, Piece::QUEEN) },
        );
        moves.push(
            Move::Promotion { from: pos, to, piece: Piece::new_unchecked(color, Piece::ROOK) },
        );
        moves.push(
            Move::Promotion { from: pos, to, piece: Piece::new_unchecked(color, Piece::BISHOP) },
        );
        moves.push(
            Move::Promotion { from: pos, to, piece: Piece::new_unchecked(color, Piece::KNIGHT) },
        );
    } else {
        moves.push(Move::new_ab(pos, to));
    }
    assert(moves@ =~= old(moves)@ + arrivals(color, pos as int, to as int));
}

/// Appends a pawn's capture towards column offset `dc`.
fn gen_pawn_capture(pos: usize, color: u16, board: &Board, dc: i8, moves: &mut Vec<Move>)
    requires
        pos < 64,
        is_color(color),
    ensures
        final(moves)@ == old(moves)@ + pawn_capture(board@, color, pos as int, dc as int),
{
    let dr: i8 = if color == Piece::WHITE {
        -1
    } else {
        1
    };
    match Board::step_square(pos, dr, dc) {
        Some(to) => {
            let target = board.piece_at(to);
            let onto_target = match board.en_passant_target() {
                Some(t) => t == to,
                None => false,
            };
            if !target.is_none() && target.color() != color {
                push_arrivals(pos, to, color, moves);
            } else if onto_target {
                let capture = Board::square_index(Board::file_of(to), Board::rank_of(pos));
                moves.push(Move::EnPassant { from: pos, to, capture });
            }
        },
        None => {},
    }
    assert(moves@ =~= old(moves)@ + pawn_capture(board@, color, pos as int, dc as int));
}

/// Appends a pawn's advances.
fn gen_pawn_pushes(pos: usize, color: u16, board: &Board, moves: &mut Vec<Move>)
    requires
        pos < 64,
        is_color(color),
    ensures
        final(moves)@ == old(moves)@ + pawn_pushes(board@, color, pos as int),
{
    let dr: i8 = if color == Piece::WHITE {
        -1
    } else {
        1
    };
    let home: usize = if color == Piece::WHITE {
        6
    } else {
        1
    };
    match Board::step_square(pos, dr, 0) {
        Some(first) => {
            if board.piece_at(first).is_none() {
                push_arrivals(pos, first, color, moves);
                if pos / 8 == home {
                    match Board::step_square(first, dr, 0) {
                        Some(second) => {
                            if board.piece_at(second).is_none() {
                                moves.push(Move::new_ab(pos, second));
                            }
                        },
                        None => {},
                    }
                }
            }
        },
        None => {},
    }
    assert(moves@ =~= old(moves)@ + pawn_pushes(board@, color, pos as int));
}

/// Appending three sequences one after another appends their concatenation.
proof fn lemma_append_three(base: Seq<Move>, a: Seq<Move>, b: Seq<Move>, c: Seq<Move>)
    ensures
        ((base + a) + b) + c == base + ((a + b) + c),
{
    assert(((base + a) + b) + c =~= base + ((a + b) + c));
}

/// Appends all moves of the pawn of `color` on `pos`.
pub fn gen_pawn_moves(pos: usize, color: u16, board: &Board, moves: &mut Vec<Move>)
    requires
        pos < 64,
        is_color(color),
    ensures
        final(moves)@ == old(moves)@ + pawn_moves(board@, color, pos as int),
{
    gen_pawn_pushes(pos, color, board, moves);
    gen_pawn_capture(pos, color, board, -1, moves);
    gen_pawn_capture(pos, color, board, 1, moves);
    proof {
        lemma_append_three(
            old(moves)@,
            pawn_pushes(board@, color, pos as int),
            pawn_capture(board@, color, pos as int, -1),
            pawn_capture(board@, color, pos as int, 1),
        );
    }
}

/// Appends the move by one fixed offset, if it is playable.
fn gen_leap(pos: usize, color: u16, board: &Board, dr: i8, dc: i8, moves: &mut Vec<Move>)
    requires
        pos < 64,
    ensures
        final(moves)@ == old(moves)@ + leap(board@, color, pos as int, dr as int, dc as int),
{
    match Board::step_square(pos, dr, dc) {
        Some(to) => {
            if board.piece_at(to).color() != color {
                moves.push(Move::new_ab(pos, to));
            }
        },
        None => {},
    }
    assert(moves@ =~= old(moves)@ + leap(board@, color, pos as int, dr as int, dc as int));
}

/// Appends the leaps of the piece on `pos` by each of the given offsets.
fn gen_leaps(pos: usize, color: u16, board: &Board, offsets: &[(i8, i8)], moves: &mut Vec<Move>)
    requires
        pos < 64,
    ensures
        final(moves)@ == old(moves)@ + leaps(
            board@,
            color,
            pos as int,
            offsets@,
            offsets@.len() as int,
        ),
{
    let mut i: usize = 0;
    assert(moves@ + Seq::<Move>::empty() =~= moves@);
    while i < offsets.len()
        invariant
            pos < 64,
            i <= offsets@.len(),
            moves@ == old(moves)@ + leaps(board@, color, pos as int, offsets@, i as int),
        decreases offsets@.len() - i,
    {
        let ghost sofar = leaps(board@, color, pos as int, offsets@, i as int);
        let (dr, dc) = offsets[i];
        gen_leap(pos, color, board, dr, dc, moves);
        assert(moves@ =~= old(moves)@ + (sofar + leap(
            board@,
            color,
            pos as int,
            dr as int,
            dc as int,
        )));
        i += 1;
    }
}

/// The table of a knight's offsets.
fn knight_offset_table() -> (t: [(i8, i8); 8])
    ensures
        t@ == knight_offsets(),
{
    let t: [(i8, i8); 8] = [(-2, -1), (-2, 1), (-1, -2), (-1, 2), (1, -2), (1, 2), (2, -1), (2, 1)];
    assert(t@ =~= knight_offsets());
    t
}

/// The table of a rook's directions.
fn rook_direction_table() -> (t: [(i8, i8); 4])
    ensures
        t@ == rook_directions(),
{
    let t: [(i8, i8); 4] = [(-1, 0), (1, 0), (0, -1), (0, 1)];
    assert(t@ =~= rook_directions());
    t
}

/// The table of a bishop's directions.
fn bishop_direction_table() -> (t: [(i8, i8); 4])
    ensures
        t@ == bishop_directions(),
{
    let t: [(i8, i8); 4] = [(-1, -1), (-1, 1), (1, -1), (1, 1)];
    assert(t@ =~= bishop_directions());
    t
}

/// The table of all eight directions.
fn queen_direction_table() -> (t: [(i8, i8); 8])
    ensures
        t@ == queen_directions(),
{
    let t: [(i8, i8); 8] = [(-1, 0), (1, 0), (0, -1), (0, 1), (-1, -1), (-1, 1), (1, -1), (1, 1)];
    assert(t@ =~= queen_directions());
    t
}

/// Appends all moves of the knight of `color` on `pos`.
pub fn gen_knight_moves(pos: usize, color: u16, board: &Board, moves: &mut Vec<Move>)
    requires
        pos < 64,
    ensures
        final(moves)@ == old(moves)@ + knight_moves(board@, color, pos as int),
{
    let table = knight_offset_table();
    gen_leaps(pos, color, board, table.as_slice(), moves);
}

/// Appends the slide of the piece on `pos` in direction (`dr`, `dc`).
fn gen_slide(pos: usize, color: u16, board: &Board, dr: i8, dc: i8, moves: &mut Vec<Move>)
    requires
        pos < 64,
    ensures
        final(moves)@ == old(moves)@ + slide(board@, color, pos as int, dr as int, dc as int),
{
    let mut cur: usize = pos;
    let mut n: u8 = 7;
    while n > 0
        invariant
            pos < 64,
            cur < 64,
            n <= 7,
            old(moves)@ + slide(board@, color, pos as int, dr as int, dc as int) == moves@ + ray(
                board@,
                color,
                pos as int,
                cur as int,
                dr as int,
                dc as int,
                n as nat,
            ),
        decreases n,
    {
        let ghost before = moves@;
        let ghost rest = ray(board@, color, pos as int, cur as int, dr as int, dc as int, n as nat);
        match Board::step_square(cur, dr, dc) {
            Some(to) => {
                let target = board.piece_at(to);
                if target.is_none() {
                    moves.push(Move::new_ab(pos, to));
                    assert(before + rest =~= moves@ + ray(
                        board@,
                        color,
                        pos as int,
                        to as int,
                        dr as int,
                        dc as int,
                        (n - 1) as nat,
                    ));
                    cur = to;
                    n -= 1;
                } else {
                    if target.color() != color {
                        moves.push(Move::new_ab(pos, to));
                    }
                    assert(before + rest =~= moves@);
                    return ;
                }
            },
            None => {
                assert(before + rest =~= moves@);
                return ;
            },
        }
    }
    assert(moves@ + Seq::<Move>::empty() =~= moves@);
}

/// Appends the slides of the piece on `pos` in each of the given directions.
fn gen_slides(pos: usize, color: u16, board: &Board, dirs: &[(i8, i8)], moves: &mut Vec<Move>)
    requires
        pos < 64,
    ensures
        final(moves)@ == old(moves)@ + slides(
            board@,
            color,
            pos as int,
            dirs@,
            dirs@.len() as int,
        ),
{
    let mut i: usize = 0;
    assert(moves@ + Seq::<Move>::empty() =~= moves@);
    while i < dirs.len()
        invariant
            pos < 64,
            i <= dirs@.len(),
            moves@ == old(moves)@ + slides(board@, color, pos as int, dirs@, i as int),
        decreases dirs@.len() - i,
    {
        let ghost sofar = slides(board@, color, pos as int, dirs@, i as int);
        let (dr, dc) = dirs[i];
        gen_slide(pos, color, board, dr, dc, moves);
        assert(moves@ =~= old(moves)@ + (sofar + slide(
            board@,
            color,
            pos as int,
            dr as int,
            dc as int,
        )));
        i += 1;
    }
}

/// Appends all moves of the rook of `my_color` on `pos`.
pub fn gen_rook_moves(pos: usize, my_color: u16, board: &Board, moves: &mut Vec<Move>)
    requires
        pos < 64,
    ensures
        final(moves)@ == old(moves)@ + rook_moves(board@, my_color, pos as int),
{
    let table = rook_direction_table();
    gen_slides(pos, my_color, board, table.as_slice(), moves);
}

/// Appends all moves of the bishop of `my_color` on `pos`.
pub fn gen_bishop_moves(pos: usize, my_color: u16, board: &Board, moves: &mut Vec<Move>)
    requires
        pos < 64,
    ensures
        final(moves)@ == old(moves)@ + bishop_moves(board@, my_color, pos as int),
{
    let table = bishop_direction_table();
    gen_slides(pos, my_color, board, table.as_slice(), moves);
}

/// Appends all moves of the queen of `my_color` on `pos`.
pub fn gen_queen_moves(pos: usize, my_color: u16, board: &Board, moves: &mut Vec<Move>)
    requires
        pos < 64,
    ensures
        final(moves)@ == old(moves)@ + queen_moves(board@, my_color, pos as int),
{
    let table = queen_direction_table();
    gen_slides(pos, my_color, board, table.as_slice(), moves);
}

/// True when the squares between king and rook are empty.
fn path_clear(board: &Board, ty: CastleType) -> (r: bool)
    ensures
        r == castle_path_clear(board@, ty),
{
    match ty {
        CastleType::BlackLong => board.piece_at(1).is_none() && board.piece_at(2).is_none()
            && board.piece_at(3).is_none(),
        CastleType::BlackShort => board.piece_at(5).is_none() && board.piece_at(6).is_none(),
        CastleType::WhiteLong => board.piece_at(57).is_none() && board.piece_at(58).is_none()
            && board.piece_at(59).is_none(),
        CastleType::WhiteShort => board.piece_at(61).is_none() && board.piece_at(62).is_none(),
    }
}

/// Appends the castling move `ty`, if the king on `pos` may make it.
fn gen_castle(pos: usize, board: &Board, ty: CastleType, moves: &mut Vec<Move>)
    ensures
        final(moves)@ == old(moves)@ + castle(board@, pos as int, ty),
{
    let (king_from, _king_to) = ty.king_move();
    if board.castle_rights() & ty.get_bit() != 0 && pos == king_from && path_clear(board, ty) {
        moves.push(Move::Castle { ty });
    }
    assert(moves@ =~= old(moves)@ + castle(board@, pos as int, ty));
}

/// Appends all moves of the king of `color` on `pos`.
pub fn gen_king_moves(pos: usize, color: u16, board: &Board, moves: &mut Vec<Move>)
    requires
        pos < 64,
    ensures
        final(moves)@ == old(moves)@ + king_moves(board@, color, pos as int),
{
    let table = queen_direction_table();
    gen_leaps(pos, color, board, table.as_slice(), moves);
    assert(moves@ =~= old(moves)@ + king_steps(board@, color, pos as int));
    if color == Piece::WHITE {
        gen_castle(pos, board, CastleType::WhiteShort, moves);
        gen_castle(pos, board, CastleType::WhiteLong, moves);
    } else if color == Piece::BLACK {
        gen_castle(pos, board, CastleType::BlackShort, moves);
        gen_castle(pos, board, CastleType::BlackLong, moves);
    }
    assert(moves@ =~= old(moves)@ + king_moves(board@, color, pos as int));
}

/// Appends all pseudo-legal moves of `piece`, a piece of `color` standing on
/// `pos`. The piece must be of one of the six kinds: anything else means the
/// board was corrupted earlier.
pub fn gen_pseudo_legal_for_piece(
    piece: &Piece,
    color: u16,
    pos: usize,
    board: &Board,
    moves: &mut Vec<Move>,
)
    requires
        pos < 64,
        is_color(color),
        is_kind(piece.spec_kind()),
    ensures
        final(moves)@ == old(moves)@ + piece_moves(
            board@,
            piece.spec_kind(),
            color,
            pos as int,
        ),
{
    let kind = piece.kind();
    if kind == Piece::PAWN {
        gen_pawn_moves(pos, color, board, moves);
    } else if kind == Piece::KNIGHT {
        gen_knight_moves(pos, color, board, moves);
    } else if kind == Piece::BISHOP {
        gen_bishop_moves(pos, color, board, moves);
    } else if kind == Piece::ROOK {
        gen_rook_moves(pos, color, board, moves);
    } else if kind == Piece::QUEEN {
        gen_queen_moves(pos, color, board, moves);
    } else {
        gen_king_moves(pos, color, board, moves);
    }
}

impl Board {
    /// All pseudo-legal moves of `color`, in the order in which the squares
    /// are scanned. Every square must hold a legal encoding.
    pub fn gen_pseudo_legal(&self, color: u16) -> (moves: Vec<Move>)
        requires
            placement_wf(self@.squares),
        ensures
            moves@ == pseudo_legal_moves(self@, color),
    {
        let mut moves: Vec<Move> = Vec::with_capacity(35);
        let mut i: usize = 0;
        while i < 64
            invariant
                i <= 64,
                placement_wf(self@.squares),
                moves@ == moves_upto(self@, color, i as int),
            decreases 64 - i,
        {
            let p = self.piece_at(i);
            proof {
                p.lemma_wf_cases();
            }
            if !p.is_none() && p.color() == color {
                gen_pseudo_legal_for_piece(&p, color, i, self, &mut moves);
            } else {
                assert(moves@ + Seq::<Move>::empty() =~= moves@);
            }
            i += 1;
        }
        moves
    }
}

} // verus!
