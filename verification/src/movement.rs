//! What the generated moves are like: facts about the moves of a position,
//! proved from their definition.

use crate::board::{col, on_board, placement_wf, row, square_at, step, Position};
use crate::move_gen::{
    arrivals, bishop_directions, bishop_moves, can_castle, castle, castle_moves, double_push,
    forward,
    home_row, king_moves, king_steps, knight_moves, knight_offsets, last_row, leap, leaps,
    moves_from, moves_upto, pawn_capture, pawn_moves, pawn_pushes, piece_moves, plain, promotion,
    pseudo_legal_moves, queen_directions, queen_moves, ray, rook_directions, rook_moves, slide,
    slides,
};
use crate::moves::{CastleType, Move};
use crate::piece::{is_color, is_kind, lemma_valid_bits_cases, Piece};
use vstd::prelude::*;

verus! {

/// A member of a concatenation is a member of one of its two parts.
pub proof fn lemma_contains_concat(a: Seq<Move>, b: Seq<Move>, m: Move)
    ensures
        (a + b).contains(m) <==> a.contains(m) || b.contains(m),
{
    if (a + b).contains(m) {
        let i = choose|i: int| 0 <= i < (a + b).len() && (a + b)[i] == m;
        if i < a.len() {
            assert(a[i] == m);
        } else {
            assert(b[i - a.len()] == m);
        }
    }
    if a.contains(m) {
        let i = choose|i: int| 0 <= i < a.len() && a[i] == m;
        assert((a + b)[i] == m);
    }
    if b.contains(m) {
        let i = choose|i: int| 0 <= i < b.len() && b[i] == m;
        assert((a + b)[i + a.len()] == m);
    }
}

/// `to` lies `j` steps of (`dr`, `dc`) away from `from`, counted in rows and
/// columns: the two squares stand on one line of the board.
pub open spec fn reaches(from: int, to: int, dr: int, dc: int, j: int) -> bool {
    row(to) == row(from) + j * dr && col(to) == col(from) + j * dc
}

/// One of the eight directions in which a piece slides.
pub open spec fn is_direction(dr: int, dc: int) -> bool {
    -1 <= dr <= 1 && -1 <= dc <= 1 && !(dr == 0 && dc == 0)
}

/// A plain move from `from` to a square of the board that holds no piece of
/// `color`.
pub open spec fn plain_to_free(p: Position, color: u16, from: int, m: Move) -> bool {
    &&& m is AB
    &&& m.origin() == from
    &&& 0 <= m.destination() < 64
    &&& m.destination() != from
    &&& p.color_at(m.destination()) != color
}

/// An empty square holds no piece of either colour.
pub proof fn lemma_empty_is_free(p: Position, color: u16, sq: int)
    requires
        is_color(color),
        p.empty_at(sq),
    ensures
        p.color_at(sq) != color,
{
    lemma_valid_bits_cases(Piece::NONE);
}

/// A step that stays on the board arrives on a square of the board, at the
/// coordinates it aimed for.
pub proof fn lemma_step(sq: int, dr: int, dc: int)
    requires
        0 <= sq < 64,
    ensures
        step(sq, dr, dc) matches Some(to) ==> 0 <= to < 64 && row(to) == row(sq) + dr && col(to)
            == col(sq) + dc,
        step(sq, dr, dc) is None <==> !on_board(row(sq) + dr, col(sq) + dc),
{
}

/// A leap ends on the board, away from where it started, on a square that
/// holds no piece of the mover's colour.
pub proof fn lemma_leap(p: Position, color: u16, from: int, dr: int, dc: int, m: Move)
    requires
        0 <= from < 64,
        !(dr == 0 && dc == 0),
        leap(p, color, from, dr, dc).contains(m),
    ensures
        plain_to_free(p, color, from, m),
        reaches(from, m.destination(), dr, dc, 1),
{
    lemma_step(from, dr, dc);
    assert(1 * dr == dr && 1 * dc == dc) by (nonlinear_arith);
    let s = leap(p, color, from, dr, dc);
    let i = choose|i: int| 0 <= i < s.len() && s[i] == m;
    assert(s[i] == m);
}

/// Every one of a series of leaps ends on the board, on a square that holds
/// no piece of the mover's colour.
pub proof fn lemma_leaps(
    p: Position,
    color: u16,
    from: int,
    offsets: Seq<(i8, i8)>,
    n: int,
    m: Move,
)
    requires
        0 <= from < 64,
        0 <= n <= offsets.len(),
        forall|i: int| 0 <= i < offsets.len() ==> !(offsets[i].0 == 0 && offsets[i].1 == 0),
        leaps(p, color, from, offsets, n).contains(m),
    ensures
        plain_to_free(p, color, from, m),
        exists|i: int|
            0 <= i < n && #[trigger] reaches(
                from,
                m.destination(),
                offsets[i].0 as int,
                offsets[i].1 as int,
                1,
            ),
    decreases n,
{
    if n > 0 {
        let last = leap(p, color, from, offsets[n - 1].0 as int, offsets[n - 1].1 as int);
        lemma_contains_concat(leaps(p, color, from, offsets, n - 1), last, m);
        if last.contains(m) {
            lemma_leap(p, color, from, offsets[n - 1].0 as int, offsets[n - 1].1 as int, m);
            assert(reaches(
                from,
                m.destination(),
                offsets[n - 1].0 as int,
                offsets[n - 1].1 as int,
                1,
            ));
        } else {
            lemma_leaps(p, color, from, offsets, n - 1, m);
        }
    }
}

/// Every square strictly between `from` and the square `j` steps along
/// (`dr`, `dc`) is empty.
pub open spec fn clear_between(p: Position, from: int, dr: int, dc: int, j: int) -> bool {
    forall|sq: int, i: int|
        0 <= sq < 64 && 1 <= i < j && #[trigger] reaches(from, sq, dr, dc, i) ==> p.empty_at(sq)
}

/// A square of the board is determined by its row and column.
pub proof fn lemma_same_square(a: int, b: int)
    requires
        0 <= a < 64,
        0 <= b < 64,
        row(a) == row(b),
        col(a) == col(b),
    ensures
        a == b,
{
}

/// One step further along a line: the square `j` steps from the neighbour
/// is the square `j + 1` steps from here.
pub proof fn lemma_reaches_shift(cur: int, next: int, to: int, dr: int, dc: int, j: int)
    requires
        reaches(cur, next, dr, dc, 1),
    ensures
        reaches(next, to, dr, dc, j) <==> reaches(cur, to, dr, dc, j + 1),
{
    assert((j + 1) * dr == j * dr + dr) by (nonlinear_arith);
    assert((j + 1) * dc == j * dc + dc) by (nonlinear_arith);
    assert(1 * dr == dr && 1 * dc == dc) by (nonlinear_arith);
}

/// A sliding piece never leaves its line and never wraps round an edge:
/// every destination of a slide lies a whole number of steps, at least one
/// and at most as many as were allowed, along the direction from where the
/// slide stood, with nothing but empty squares in between. It lies on the
/// board and holds no piece of the mover's colour.
pub proof fn lemma_ray(
    p: Position,
    color: u16,
    from: int,
    cur: int,
    dr: int,
    dc: int,
    n: nat,
    m: Move,
)
    requires
        is_color(color),
        0 <= from < 64,
        0 <= cur < 64,
        ray(p, color, from, cur, dr, dc, n).contains(m),
    ensures
        m is AB,
        m.origin() == from,
        0 <= m.destination() < 64,
        p.color_at(m.destination()) != color,
        exists|j: int|
            1 <= j <= n && #[trigger] reaches(cur, m.destination(), dr, dc, j) && clear_between(
                p,
                cur,
                dr,
                dc,
                j,
            ),
    decreases n,
{
    if n > 0 {
        lemma_step(cur, dr, dc);
        match step(cur, dr, dc) {
            Some(to) => {
                let head = seq![plain(from, to)];
                assert(head[0] == plain(from, to));
                assert(1 * dr == dr && 1 * dc == dc) by (nonlinear_arith);
                assert(reaches(cur, to, dr, dc, 1));
                if p.empty_at(to) {
                    let rest = ray(p, color, from, to, dr, dc, (n - 1) as nat);
                    lemma_contains_concat(head, rest, m);
                    if head.contains(m) {
                        lemma_empty_is_free(p, color, to);
                        assert(clear_between(p, cur, dr, dc, 1));
                    } else {
                        lemma_ray(p, color, from, to, dr, dc, (n - 1) as nat, m);
                        let j = choose|j: int|
                            1 <= j <= n - 1 && #[trigger] reaches(to, m.destination(), dr, dc, j)
                                && clear_between(p, to, dr, dc, j);
                        lemma_reaches_shift(cur, to, m.destination(), dr, dc, j);
                        assert forall|sq: int, i: int|
                            0 <= sq < 64 && 1 <= i < j + 1 && #[trigger] reaches(
                                cur,
                                sq,
                                dr,
                                dc,
                                i,
                            ) implies p.empty_at(sq) by {
                            if i == 1 {
                                lemma_same_square(sq, to);
                            } else {
                                lemma_reaches_shift(cur, to, sq, dr, dc, i - 1);
                                assert(reaches(to, sq, dr, dc, i - 1));
                            }
                        }
                        assert(reaches(cur, m.destination(), dr, dc, j + 1) && clear_between(
                            p,
                            cur,
                            dr,
                            dc,
                            j + 1,
                        ));
                    }
                } else if p.color_at(to) != color {
                    assert(head.contains(m));
                    assert(clear_between(p, cur, dr, dc, 1));
                } else {
                }
            },
            None => {},
        }
    }
}

/// The converse: a square on the line, within reach, with nothing but empty
/// squares before it and no piece of the mover's colour on it, is a
/// destination of the slide.
pub proof fn lemma_ray_complete(
    p: Position,
    color: u16,
    from: int,
    cur: int,
    dr: int,
    dc: int,
    n: nat,
    to: int,
    j: int,
)
    requires
        0 <= cur < 64,
        0 <= to < 64,
        is_direction(dr, dc),
        1 <= j <= n,
        reaches(cur, to, dr, dc, j),
        clear_between(p, cur, dr, dc, j),
        p.color_at(to) != color,
    ensures
        ray(p, color, from, cur, dr, dc, n).contains(plain(from, to)),
    decreases n,
{
    lemma_step(cur, dr, dc);
    assert(1 * dr == dr && 1 * dc == dc) by (nonlinear_arith);
    assert(on_board(row(cur) + dr, col(cur) + dc)) by {
        assert(dr == 1 ==> j * dr == j) by (nonlinear_arith);
        assert(dr == -1 ==> j * dr == -j) by (nonlinear_arith);
        assert(dc == 1 ==> j * dc == j) by (nonlinear_arith);
        assert(dc == -1 ==> j * dc == -j) by (nonlinear_arith);
    }
    let next = step(cur, dr, dc)->0;
    assert(reaches(cur, next, dr, dc, 1));
    let head = seq![plain(from, next)];
    assert(head[0] == plain(from, next));
    if j == 1 {
        lemma_same_square(next, to);
        if p.empty_at(next) {
            lemma_contains_concat(head, ray(p, color, from, next, dr, dc, (n - 1) as nat), plain(from, to));
        }
    } else {
        assert(p.empty_at(next));
        lemma_reaches_shift(cur, next, to, dr, dc, j - 1);
        assert forall|sq: int, i: int|
            0 <= sq < 64 && 1 <= i < j - 1 && #[trigger] reaches(next, sq, dr, dc, i) implies p.empty_at(
            sq,
        ) by {
            lemma_reaches_shift(cur, next, sq, dr, dc, i);
            assert(reaches(cur, sq, dr, dc, i + 1));
        }
        lemma_ray_complete(p, color, from, next, dr, dc, (n - 1) as nat, to, j - 1);
        lemma_contains_concat(head, ray(p, color, from, next, dr, dc, (n - 1) as nat), plain(from, to));
    }
}

/// What a slide is: its destinations are exactly the squares of the board
/// that lie on the line from the origin in the direction of the slide, with
/// nothing but empty squares in between, and that hold no piece of the
/// mover's colour.
pub proof fn lemma_slide(p: Position, color: u16, from: int, dr: int, dc: int, m: Move)
    requires
        is_color(color),
        0 <= from < 64,
        is_direction(dr, dc),
    ensures
        slide(p, color, from, dr, dc).contains(m) <==> m is AB && m.origin() == from && 0
            <= m.destination() < 64 && p.color_at(m.destination()) != color && exists|j: int|
            1 <= j <= 7 && #[trigger] reaches(from, m.destination(), dr, dc, j) && clear_between(
                p,
                from,
                dr,
                dc,
                j,
            ),
        slide(p, color, from, dr, dc).contains(m) ==> plain_to_free(p, color, from, m),
{
    if slide(p, color, from, dr, dc).contains(m) {
        lemma_ray(p, color, from, from, dr, dc, 7, m);
        let j = choose|j: int|
            1 <= j <= 7 && #[trigger] reaches(from, m.destination(), dr, dc, j) && clear_between(
                p,
                from,
                dr,
                dc,
                j,
            );
        assert(j * dr != 0 || j * dc != 0) by (nonlinear_arith)
            requires
                1 <= j,
                is_direction(dr, dc),
        ;
    }
    if m is AB && m.origin() == from && 0 <= m.destination() < 64 && p.color_at(m.destination())
        != color && exists|j: int|
        1 <= j <= 7 && #[trigger] reaches(from, m.destination(), dr, dc, j) && clear_between(
            p,
            from,
            dr,
            dc,
            j,
        ) {
        let j = choose|j: int|
            1 <= j <= 7 && #[trigger] reaches(from, m.destination(), dr, dc, j) && clear_between(
                p,
                from,
                dr,
                dc,
                j,
            );
        lemma_ray_complete(p, color, from, from, dr, dc, 7, m.destination(), j);
        assert(m == plain(from, m.destination()));
    }
}

/// A slide towards an edge on which the piece already stands has no
/// destination: a rook on the h-file has no move to the right.
pub proof fn lemma_slide_at_edge(p: Position, color: u16, from: int, dr: int, dc: int)
    requires
        0 <= from < 64,
        !on_board(row(from) + dr, col(from) + dc),
    ensures
        slide(p, color, from, dr, dc) == Seq::<Move>::empty(),
{
    lemma_step(from, dr, dc);
}

/// Every destination of a series of slides lies on the board, on a line
/// through the origin in one of the given directions, behind nothing but
/// empty squares, and holds no piece of the mover's colour.
pub proof fn lemma_slides(
    p: Position,
    color: u16,
    from: int,
    dirs: Seq<(i8, i8)>,
    n: int,
    m: Move,
)
    requires
        is_color(color),
        0 <= from < 64,
        0 <= n <= dirs.len(),
        forall|i: int| 0 <= i < dirs.len() ==> is_direction(dirs[i].0 as int, dirs[i].1 as int),
        slides(p, color, from, dirs, n).contains(m),
    ensures
        plain_to_free(p, color, from, m),
        exists|i: int, j: int|
            0 <= i < n && 1 <= j <= 7 && #[trigger] reaches(
                from,
                m.destination(),
                dirs[i].0 as int,
                dirs[i].1 as int,
                j,
            ) && clear_between(p, from, dirs[i].0 as int, dirs[i].1 as int, j),
    decreases n,
{
    if n > 0 {
        let dr = dirs[n - 1].0 as int;
        let dc = dirs[n - 1].1 as int;
        let last = slide(p, color, from, dr, dc);
        lemma_contains_concat(slides(p, color, from, dirs, n - 1), last, m);
        if last.contains(m) {
            lemma_slide(p, color, from, dr, dc, m);
            let j = choose|j: int|
                1 <= j <= 7 && #[trigger] reaches(from, m.destination(), dr, dc, j)
                    && clear_between(p, from, dr, dc, j);
            assert(reaches(from, m.destination(), dirs[n - 1].0 as int, dirs[n - 1].1 as int, j));
        } else {
            lemma_slides(p, color, from, dirs, n - 1, m);
        }
    }
}

/// The converse: a square that one of the given directions reaches over
/// empty squares, and that holds no piece of the mover's colour, is a
/// destination of the series of slides.
pub proof fn lemma_slides_complete(
    p: Position,
    color: u16,
    from: int,
    dirs: Seq<(i8, i8)>,
    n: int,
    i: int,
    j: int,
    to: int,
)
    requires
        is_color(color),
        0 <= from < 64,
        0 <= to < 64,
        0 <= i < n <= dirs.len(),
        is_direction(dirs[i].0 as int, dirs[i].1 as int),
        1 <= j <= 7,
        reaches(from, to, dirs[i].0 as int, dirs[i].1 as int, j),
        clear_between(p, from, dirs[i].0 as int, dirs[i].1 as int, j),
        p.color_at(to) != color,
    ensures
        slides(p, color, from, dirs, n).contains(plain(from, to)),
    decreases n,
{
    let last = slide(p, color, from, dirs[n - 1].0 as int, dirs[n - 1].1 as int);
    lemma_contains_concat(slides(p, color, from, dirs, n - 1), last, plain(from, to));
    if i == n - 1 {
        lemma_ray_complete(p, color, from, from, dirs[i].0 as int, dirs[i].1 as int, 7, to, j);
    } else {
        lemma_slides_complete(p, color, from, dirs, n - 1, i, j, to);
    }
}

/// The converse for leaps: a square of the board that one of the given
/// offsets reaches, and that holds no piece of the mover's colour, is a
/// destination of the series of leaps.
pub proof fn lemma_leaps_complete(
    p: Position,
    color: u16,
    from: int,
    offsets: Seq<(i8, i8)>,
    n: int,
    i: int,
    to: int,
)
    requires
        0 <= from < 64,
        0 <= to < 64,
        0 <= i < n <= offsets.len(),
        reaches(from, to, offsets[i].0 as int, offsets[i].1 as int, 1),
        p.color_at(to) != color,
    ensures
        leaps(p, color, from, offsets, n).contains(plain(from, to)),
    decreases n,
{
    let dr = offsets[n - 1].0 as int;
    let dc = offsets[n - 1].1 as int;
    let last = leap(p, color, from, dr, dc);
    lemma_contains_concat(leaps(p, color, from, offsets, n - 1), last, plain(from, to));
    if i == n - 1 {
        lemma_step(from, dr, dc);
        assert(1 * dr == dr && 1 * dc == dc) by (nonlinear_arith);
        lemma_same_square(step(from, dr, dc)->0, to);
        assert(last[0] == plain(from, to));
    } else {
        lemma_leaps_complete(p, color, from, offsets, n - 1, i, to);
    }
}

/// The moves of a position hold all the moves of each piece of the colour.
pub proof fn lemma_moves_upto_complete(p: Position, color: u16, n: int, from: int, m: Move)
    requires
        0 <= from < n,
        moves_from(p, color, from).contains(m),
    ensures
        moves_upto(p, color, n).contains(m),
    decreases n,
{
    lemma_contains_concat(moves_upto(p, color, n - 1), moves_from(p, color, n - 1), m);
    if from < n - 1 {
        lemma_moves_upto_complete(p, color, n - 1, from, m);
    }
}

/// `piece` is what a pawn of `color` may promote to: a queen, a rook, a
/// bishop or a knight of its own colour.
pub open spec fn promotes_to(piece: Piece, color: u16) -> bool {
    ||| piece == Piece::spec_new(color, Piece::QUEEN)
    ||| piece == Piece::spec_new(color, Piece::ROOK)
    ||| piece == Piece::spec_new(color, Piece::BISHOP)
    ||| piece == Piece::spec_new(color, Piece::KNIGHT)
}

/// A pawn that arrives on a square does so by a plain move, or on the last
/// row by a promotion to one of the four pieces, and never by both.
pub proof fn lemma_arrivals(color: u16, from: int, to: int, m: Move)
    requires
        0 <= from < 64,
        0 <= to < 64,
        arrivals(color, from, to).contains(m),
    ensures
        m.origin() == from,
        m.destination() == to,
        m is AB || m is Promotion,
        m is AB <==> row(to) != last_row(color),
        m matches Move::Promotion { piece, .. } ==> promotes_to(piece, color),
{
    let s = arrivals(color, from, to);
    let i = choose|i: int| 0 <= i < s.len() && s[i] == m;
    assert(s[i] == m);
}

/// `m` is an advance of the pawn of `color` on `from`: it goes straight
/// ahead by one row, or from the home row by two, onto an empty square and
/// over none that is occupied; on the last row it is a promotion.
pub open spec fn is_pawn_push(p: Position, color: u16, from: int, m: Move) -> bool {
    &&& m.origin() == from
    &&& 0 <= m.destination() < 64
    &&& col(m.destination()) == col(from)
    &&& p.empty_at(m.destination())
    &&& p.empty_at(from + 8 * forward(color))
    &&& m is AB || m is Promotion
    &&& m is AB <==> row(m.destination()) != last_row(color)
    &&& m matches Move::Promotion { piece, .. } ==> promotes_to(piece, color)
    &&& {
        ||| m.destination() == from + 8 * forward(color)
        ||| {
            &&& m.destination() == from + 16 * forward(color)
            &&& row(from) == home_row(color)
        }
    }
}

/// `m` is a capture of the pawn of `color` on `from` towards column offset
/// `dc`: it goes one row ahead and one column aside, onto an enemy piece
/// or, en passant, onto the target square, taking the piece beside the
/// pawn; onto an enemy on the last row it is a promotion.
pub open spec fn is_pawn_capture(p: Position, color: u16, from: int, dc: int, m: Move) -> bool {
    &&& m.origin() == from
    &&& 0 <= m.destination() < 64
    &&& step(from, forward(color), dc) == Some(m.destination())
    &&& reaches(from, m.destination(), forward(color), dc, 1)
    &&& m is AB || m is Promotion || m is EnPassant
    &&& m is AB ==> row(m.destination()) != last_row(color)
    &&& m is AB || m is Promotion ==> p.enemy_at(m.destination(), color)
    &&& m matches Move::Promotion { piece, .. } ==> promotes_to(piece, color) && row(
        m.destination(),
    ) == last_row(color)
    &&& m matches Move::EnPassant { to, capture, .. } ==> p.en_passant == Some(to)
        && !p.enemy_at(to as int, color) && capture == square_at(row(from), col(to as int))
        && capture < 64
}

/// Every move among a pawn's advances is an advance.
pub proof fn lemma_pawn_pushes(p: Position, color: u16, from: int, m: Move)
    requires
        0 <= from < 64,
        pawn_pushes(p, color, from).contains(m),
    ensures
        is_pawn_push(p, color, from, m),
{
    lemma_step(from, forward(color), 0);
    let first = step(from, forward(color), 0)->0;
    lemma_step(first, forward(color), 0);
    let one = arrivals(color, from, first);
    let two = double_push(p, color, from, first);
    lemma_contains_concat(one, two, m);
    if one.contains(m) {
        lemma_arrivals(color, from, first, m);
    } else {
        let i = choose|i: int| 0 <= i < two.len() && two[i] == m;
        assert(two[i] == m);
    }
}

/// Every move among a pawn's captures to one side is a capture to that
/// side.
pub proof fn lemma_pawn_capture(p: Position, color: u16, from: int, dc: int, m: Move)
    requires
        0 <= from < 64,
        dc == 1 || dc == -1,
        pawn_capture(p, color, from, dc).contains(m),
    ensures
        is_pawn_capture(p, color, from, dc, m),
{
    lemma_step(from, forward(color), dc);
    assert(1 * forward(color) == forward(color) && 1 * dc == dc) by (nonlinear_arith);
    let to = step(from, forward(color), dc)->0;
    if p.enemy_at(to, color) {
        lemma_arrivals(color, from, to, m);
    } else {
        let s = pawn_capture(p, color, from, dc);
        let i = choose|i: int| 0 <= i < s.len() && s[i] == m;
        assert(s[i] == m);
    }
}

/// Where a member of a pawn's moves comes from: its advances, or one of its
/// two captures.
pub proof fn lemma_pawn_moves_split(p: Position, color: u16, from: int, m: Move)
    ensures
        pawn_moves(p, color, from).contains(m) <==> pawn_pushes(p, color, from).contains(m)
            || pawn_capture(p, color, from, -1).contains(m) || pawn_capture(
            p,
            color,
            from,
            1,
        ).contains(m),
{
    let a = pawn_pushes(p, color, from);
    let b = pawn_capture(p, color, from, -1);
    let c = pawn_capture(p, color, from, 1);
    lemma_contains_concat(a, b, m);
    lemma_contains_concat(a + b, c, m);
}

/// Every move of a pawn is an advance, a capture to the left or a capture
/// to the right; an advance stays in the pawn's column and a capture
/// leaves it.
pub proof fn lemma_pawn_move(p: Position, color: u16, from: int, m: Move)
    requires
        0 <= from < 64,
        pawn_moves(p, color, from).contains(m),
    ensures
        is_pawn_push(p, color, from, m) || is_pawn_capture(p, color, from, -1, m)
            || is_pawn_capture(p, color, from, 1, m),
        is_pawn_push(p, color, from, m) <==> col(m.destination()) == col(from),
{
    lemma_pawn_moves_split(p, color, from, m);
    lemma_step(from, forward(color), -1);
    lemma_step(from, forward(color), 1);
    if pawn_pushes(p, color, from).contains(m) {
        lemma_pawn_pushes(p, color, from, m);
    } else if pawn_capture(p, color, from, -1).contains(m) {
        lemma_pawn_capture(p, color, from, -1, m);
    } else {
        lemma_pawn_capture(p, color, from, 1, m);
    }
}

/// A pawn's double push is generated exactly from the home row over two
/// empty squares; and where the square ahead of a pawn is occupied, the pawn
/// has no move straight ahead at all, neither by one row nor by two.
pub proof fn lemma_double_push(p: Position, color: u16, from: int)
    requires
        is_color(color),
        0 <= from < 64,
    ensures
        forall|m: Move|
            #[trigger] pawn_moves(p, color, from).contains(m) && m is AB && m.destination() == from
                + 16 * forward(color) ==> row(from) == home_row(color) && p.empty_at(
                from + 8 * forward(color),
            ) && p.empty_at(from + 16 * forward(color)),
        row(from) == home_row(color) && p.empty_at(from + 8 * forward(color)) && p.empty_at(
            from + 16 * forward(color),
        ) ==> pawn_moves(p, color, from).contains(plain(from, from + 16 * forward(color))),
        !p.empty_at(from + 8 * forward(color)) ==> forall|m: Move|
            #[trigger] pawn_moves(p, color, from).contains(m) ==> col(m.destination()) != col(
                from,
            ),
{
    let ahead = from + 8 * forward(color);
    let beyond = from + 16 * forward(color);
    assert forall|m: Move| #[trigger] pawn_moves(p, color, from).contains(m) implies (m is AB
        && m.destination() == beyond ==> row(from) == home_row(color) && p.empty_at(ahead)
        && p.empty_at(beyond)) && (!p.empty_at(ahead) ==> col(m.destination()) != col(from)) by {
        lemma_pawn_move(p, color, from, m);
    }
    if row(from) == home_row(color) && p.empty_at(ahead) && p.empty_at(beyond) {
        lemma_step(from, forward(color), 0);
        lemma_step(ahead, forward(color), 0);
        let m = plain(from, beyond);
        let two = double_push(p, color, from, ahead);
        assert(two[0] == m);
        lemma_contains_concat(arrivals(color, from, ahead), two, m);
        lemma_pawn_moves_split(p, color, from, m);
    }
}

/// A pawn has an en-passant capture exactly when the en-passant target of
/// the position is one of the two squares diagonally ahead of it. The capture
/// then goes to the target and takes the piece beside the pawn, in the
/// target's column.
pub proof fn lemma_en_passant(p: Position, color: u16, from: int)
    requires
        p.wf(),
        is_color(color),
        0 <= from < 64,
    ensures
        (exists|m: Move| #[trigger] pawn_moves(p, color, from).contains(m) && m is EnPassant) <==> (
        p.en_passant matches Some(t) && (step(from, forward(color), -1) == Some(t as int) || step(
            from,
            forward(color),
            1,
        ) == Some(t as int))),
        forall|m: Move|
            #[trigger] pawn_moves(p, color, from).contains(m) && m is EnPassant ==> m == (
            Move::EnPassant {
                from: from as usize,
                to: p.en_passant->0,
                capture: square_at(row(from), col(p.en_passant->0 as int)) as usize,
            }),
{
    assert forall|m: Move| #[trigger]
        pawn_moves(p, color, from).contains(m) && m is EnPassant implies p.en_passant is Some && (
    step(from, forward(color), -1) == Some(p.en_passant->0 as int) || step(
        from,
        forward(color),
        1,
    ) == Some(p.en_passant->0 as int)) && m == (Move::EnPassant {
        from: from as usize,
        to: p.en_passant->0,
        capture: square_at(row(from), col(p.en_passant->0 as int)) as usize,
    }) by {
        lemma_pawn_move(p, color, from, m);
    }
    if p.en_passant matches Some(t) && (step(from, forward(color), -1) == Some(t as int) || step(
        from,
        forward(color),
        1,
    ) == Some(t as int)) {
        let t = p.en_passant->0;
        let dc: int = if step(from, forward(color), -1) == Some(t as int) {
            -1
        } else {
            1
        };
        let s = pawn_capture(p, color, from, dc);
        let m = Move::EnPassant {
            from: from as usize,
            to: t,
            capture: square_at(row(from), col(t as int)) as usize,
        };
        assert(p.empty_at(t as int));
        assert(s[0] == m);
        assert(s.contains(m));
        lemma_pawn_moves_split(p, color, from, m);
        assert(pawn_moves(p, color, from).contains(m) && m is EnPassant);
    }
}

/// The tables hold directions and offsets only: none of their entries
/// stands still.
pub proof fn lemma_tables()
    ensures
        knight_offsets().len() == 8,
        rook_directions().len() == 4,
        bishop_directions().len() == 4,
        queen_directions().len() == 8,
        forall|i: int|
            0 <= i < 8 ==> !(#[trigger] knight_offsets()[i].0 == 0 && knight_offsets()[i].1 == 0),
        forall|i: int|
            0 <= i < 4 ==> is_direction(
                #[trigger] rook_directions()[i].0 as int,
                rook_directions()[i].1 as int,
            ) && (rook_directions()[i].0 == 0 || rook_directions()[i].1 == 0),
        forall|i: int|
            0 <= i < 4 ==> is_direction(
                #[trigger] bishop_directions()[i].0 as int,
                bishop_directions()[i].1 as int,
            ) && bishop_directions()[i].0 != 0 && bishop_directions()[i].1 != 0,
        forall|i: int|
            0 <= i < 8 ==> is_direction(
                #[trigger] queen_directions()[i].0 as int,
                queen_directions()[i].1 as int,
            ),
{
    assert(queen_directions() =~= seq![
        (-1i8, 0i8),
        (1i8, 0i8),
        (0i8, -1i8),
        (0i8, 1i8),
        (-1i8, -1i8),
        (-1i8, 1i8),
        (1i8, -1i8),
        (1i8, 1i8),
    ]);
}

/// A rook stays on its row or on its column.
pub proof fn lemma_rook_line(p: Position, color: u16, from: int, m: Move)
    requires
        is_color(color),
        0 <= from < 64,
        rook_moves(p, color, from).contains(m),
    ensures
        row(m.destination()) == row(from) || col(m.destination()) == col(from),
{
    lemma_tables();
    lemma_slides(p, color, from, rook_directions(), 4, m);
    let (i, j) = choose|i: int, j: int|
        0 <= i < 4 && 1 <= j <= 7 && #[trigger] reaches(
            from,
            m.destination(),
            rook_directions()[i].0 as int,
            rook_directions()[i].1 as int,
            j,
        ) && clear_between(
            p,
            from,
            rook_directions()[i].0 as int,
            rook_directions()[i].1 as int,
            j,
        );
    assert(j * 0 == 0) by (nonlinear_arith);
}

/// A bishop stays on a diagonal: it changes row and column by the same
/// amount.
pub proof fn lemma_bishop_diagonal(p: Position, color: u16, from: int, m: Move)
    requires
        is_color(color),
        0 <= from < 64,
        bishop_moves(p, color, from).contains(m),
    ensures
        row(m.destination()) - row(from) == col(m.destination()) - col(from) || row(
            m.destination(),
        ) - row(from) == col(from) - col(m.destination()),
{
    lemma_tables();
    lemma_slides(p, color, from, bishop_directions(), 4, m);
    let (i, j) = choose|i: int, j: int|
        0 <= i < 4 && 1 <= j <= 7 && #[trigger] reaches(
            from,
            m.destination(),
            bishop_directions()[i].0 as int,
            bishop_directions()[i].1 as int,
            j,
        ) && clear_between(
            p,
            from,
            bishop_directions()[i].0 as int,
            bishop_directions()[i].1 as int,
            j,
        );
    assert(j * 1 == j && j * (-1) == -j) by (nonlinear_arith);
}

/// A knight, a bishop, a rook or a queen only ever goes to a square of the
/// board other than its own that holds no piece of its own colour.
pub proof fn lemma_piece_destinations(p: Position, kind: u16, color: u16, from: int, m: Move)
    requires
        is_color(color),
        0 <= from < 64,
        kind == Piece::KNIGHT || kind == Piece::BISHOP || kind == Piece::ROOK || kind
            == Piece::QUEEN,
        piece_moves(p, kind, color, from).contains(m),
    ensures
        plain_to_free(p, color, from, m),
{
    lemma_tables();
    if kind == Piece::KNIGHT {
        lemma_leaps(p, color, from, knight_offsets(), 8, m);
    } else if kind == Piece::BISHOP {
        lemma_slides(p, color, from, bishop_directions(), 4, m);
    } else if kind == Piece::ROOK {
        lemma_slides(p, color, from, rook_directions(), 4, m);
    } else {
        lemma_slides(p, color, from, queen_directions(), 8, m);
    }
}

/// A castling move is generated only for the king on its starting square,
/// with the right still held and the squares towards the rook empty.
pub proof fn lemma_castle_moves(p: Position, color: u16, from: int, m: Move)
    requires
        castle_moves(p, color, from).contains(m),
    ensures
        m matches Move::Castle { ty } && ty.spec_color() == color && can_castle(p, from, ty),
{
    let (short, long) = if color == Piece::WHITE {
        (CastleType::WhiteShort, CastleType::WhiteLong)
    } else {
        (CastleType::BlackShort, CastleType::BlackLong)
    };
    let a = castle(p, from, short);
    let b = castle(p, from, long);
    lemma_contains_concat(a, b, m);
    if a.contains(m) {
        let i = choose|i: int| 0 <= i < a.len() && a[i] == m;
        assert(a[i] == m);
    } else {
        let i = choose|i: int| 0 <= i < b.len() && b[i] == m;
        assert(b[i] == m);
    }
}

/// What every generated move is like. It starts on a square that holds a
/// piece of the mover's colour and ends on another square of the board. A
/// plain move and a promotion end on a square that holds no piece of the
/// mover's colour; a promotion is a pawn's, ends on the last row and
/// promotes to one of the four pieces; an en-passant capture is a pawn's,
/// ends on the en-passant target and takes the piece beside the pawn;
/// castling is the king's, with the right held and the way to the rook
/// clear.
pub open spec fn well_aimed(p: Position, color: u16, m: Move) -> bool {
    &&& 0 <= m.origin() < 64
    &&& 0 <= m.destination() < 64
    &&& m.origin() != m.destination()
    &&& !p.empty_at(m.origin())
    &&& p.color_at(m.origin()) == color
    &&& match m {
        Move::AB { from, to } => p.color_at(to as int) != color,
        Move::Promotion { from, to, piece } => {
            &&& p.kind_at(from as int) == Piece::PAWN
            &&& p.color_at(to as int) != color
            &&& row(to as int) == last_row(color)
            &&& promotes_to(piece, color)
        },
        Move::EnPassant { from, to, capture } => {
            &&& p.kind_at(from as int) == Piece::PAWN
            &&& p.en_passant == Some(to)
            &&& capture < 64
            &&& capture == square_at(row(from as int), col(to as int))
        },
        Move::Castle { ty } => {
            &&& p.kind_at(ty.king_from()) == Piece::KING
            &&& ty.spec_color() == color
            &&& can_castle(p, ty.king_from(), ty)
        },
    }
}

/// Every move of the piece on `from` is well aimed.
pub proof fn lemma_moves_from(p: Position, color: u16, from: int, m: Move)
    requires
        placement_wf(p.squares),
        0 <= from < 64,
        moves_from(p, color, from).contains(m),
    ensures
        well_aimed(p, color, m),
        m.origin() == from,
        m.wf(),
{
    let kind = p.kind_at(from);
    p.squares[from].lemma_wf_cases();
    lemma_tables();
    if kind == Piece::PAWN {
        lemma_pawn_move(p, color, from, m);
        if p.empty_at(m.destination()) {
            lemma_empty_is_free(p, color, m.destination());
        }
        if m is Promotion {
            Piece::lemma_new(color, Piece::QUEEN);
            Piece::lemma_new(color, Piece::ROOK);
            Piece::lemma_new(color, Piece::BISHOP);
            Piece::lemma_new(color, Piece::KNIGHT);
        }
    } else if kind == Piece::KING {
        lemma_contains_concat(king_steps(p, color, from), castle_moves(p, color, from), m);
        if king_steps(p, color, from).contains(m) {
            lemma_leaps(p, color, from, queen_directions(), 8, m);
        } else {
            lemma_castle_moves(p, color, from, m);
        }
    } else {
        lemma_piece_destinations(p, kind, color, from, m);
    }
}

/// Every move generated from the first `n` squares is well aimed and starts
/// on one of them.
pub proof fn lemma_moves_upto(p: Position, color: u16, n: int, m: Move)
    requires
        placement_wf(p.squares),
        0 <= n <= 64,
        moves_upto(p, color, n).contains(m),
    ensures
        well_aimed(p, color, m),
        m.origin() < n,
        m.wf(),
    decreases n,
{
    if n > 0 {
        lemma_contains_concat(moves_upto(p, color, n - 1), moves_from(p, color, n - 1), m);
        if moves_from(p, color, n - 1).contains(m) {
            lemma_moves_from(p, color, n - 1, m);
        } else {
            lemma_moves_upto(p, color, n - 1, m);
        }
    }
}

/// Every pseudo-legal move is well aimed, and names only squares of the
/// board: it can be carried out.
pub proof fn lemma_pseudo_legal_moves(p: Position, color: u16, m: Move)
    requires
        placement_wf(p.squares),
        pseudo_legal_moves(p, color).contains(m),
    ensures
        well_aimed(p, color, m),
        m.wf(),
{
    lemma_moves_upto(p, color, 64, m);
}

/// A generated plain move onto an empty square is undone by the plain move
/// back: the placement is the one before.
pub proof fn lemma_quiet_move_undone(p: Position, color: u16, from: usize, to: usize)
    requires
        placement_wf(p.squares),
        pseudo_legal_moves(p, color).contains(Move::AB { from, to }),
        p.empty_at(to as int),
    ensures
        (Move::AB { from: to, to: from }).placement_after(
            (Move::AB { from, to }).placement_after(p.squares),
        ) == p.squares,
{
    lemma_pseudo_legal_moves(p, color, Move::AB { from, to });
    crate::moves::lemma_plain_move_undone(p.squares, from, to);
}

} // verus!
