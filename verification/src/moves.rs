//! The move model: what a move is, what it does to a position, and what it
//! captures. A move is an instruction that is carried out as given; which
//! moves are playable is decided when moves are generated.

use crate::board::{col, placement_wf, row, Board, Position};
use crate::piece::{is_color, opponent, Piece};
use vstd::prelude::*;

verus! {

/// The four castling moves.
#[derive(Copy, Clone, Debug, PartialEq, Eq, Structural)]
pub enum CastleType {
    BlackLong,
    BlackShort,
    WhiteLong,
    WhiteShort,
}

/// A move.
#[derive(Copy, Clone, Debug, PartialEq, Eq, Structural)]
pub enum Move {
    /// A pawn takes the pawn that has just passed it: the captured pawn
    /// stands on `capture`, not on `to`.
    EnPassant { from: usize, to: usize, capture: usize },
    /// A piece goes from one square to another, taking what stands there.
    AB { from: usize, to: usize },
    /// King and rook move together.
    Castle { ty: CastleType },
    /// A pawn reaches the last rank and is replaced by `piece`.
    Promotion { from: usize, to: usize, piece: Piece },
}

impl CastleType {
    pub const BIT_BLACK_LONG: u8 = 0b0001;

    pub const BIT_BLACK_SHORT: u8 = 0b0010;

    pub const BIT_WHITE_LONG: u8 = 0b0100;

    pub const BIT_WHITE_SHORT: u8 = 0b1000;

    /// Both rights of Black.
    pub const BITS_BLACK: u8 = 0b0011;

    /// Both rights of White.
    pub const BITS_WHITE: u8 = 0b1100;

    /// All four rights.
    pub const BITS_ALL: u8 = 0b1111;

    /// The bit that stands for this castling right.
    pub open spec fn spec_bit(self) -> u8 {
        match self {
            CastleType::BlackLong => CastleType::BIT_BLACK_LONG,
            CastleType::BlackShort => CastleType::BIT_BLACK_SHORT,
            CastleType::WhiteLong => CastleType::BIT_WHITE_LONG,
            CastleType::WhiteShort => CastleType::BIT_WHITE_SHORT,
        }
    }

    /// The colour that castles.
    pub open spec fn spec_color(self) -> u16 {
        match self {
            CastleType::BlackLong | CastleType::BlackShort => Piece::BLACK,
            CastleType::WhiteLong | CastleType::WhiteShort => Piece::WHITE,
        }
    }

    /// Where the king starts.
    pub open spec fn king_from(self) -> int {
        match self {
            CastleType::BlackLong | CastleType::BlackShort => 4,
            CastleType::WhiteLong | CastleType::WhiteShort => 60,
        }
    }

    /// Where the king lands: two squares towards the rook.
    pub open spec fn king_to(self) -> int {
        match self {
            CastleType::BlackLong => 2,
            CastleType::BlackShort => 6,
            CastleType::WhiteLong => 58,
            CastleType::WhiteShort => 62,
        }
    }

    /// The corner the rook starts from.
    pub open spec fn rook_from(self) -> int {
        match self {
            CastleType::BlackLong => 0,
            CastleType::BlackShort => 7,
            CastleType::WhiteLong => 56,
            CastleType::WhiteShort => 63,
        }
    }

    /// Where the rook lands: the square the king passed over.
    pub open spec fn rook_to(self) -> int {
        match self {
            CastleType::BlackLong => 3,
            CastleType::BlackShort => 5,
            CastleType::WhiteLong => 59,
            CastleType::WhiteShort => 61,
        }
    }

    /// The bit of this right in the castling-rights mask.
    pub fn get_bit(self) -> (bit: u8)
        ensures
            bit == self.spec_bit(),
    {
        match self {
            CastleType::BlackLong => CastleType::BIT_BLACK_LONG,
            CastleType::BlackShort => CastleType::BIT_BLACK_SHORT,
            CastleType::WhiteLong => CastleType::BIT_WHITE_LONG,
            CastleType::WhiteShort => CastleType::BIT_WHITE_SHORT,
        }
    }

    /// The colour flag of the side that castles.
    pub fn color(self) -> (c: u16)
        ensures
            c == self.spec_color(),
    {
        match self {
            CastleType::BlackLong | CastleType::BlackShort => Piece::BLACK,
            CastleType::WhiteLong | CastleType::WhiteShort => Piece::WHITE,
        }
    }

    /// The king's part of the move, as origin and destination.
    pub fn king_move(self) -> (m: (usize, usize))
        ensures
            m.0 == self.king_from(),
            m.1 == self.king_to(),
    {
        match self {
            CastleType::BlackLong => (4, 2),
            CastleType::BlackShort => (4, 6),
            CastleType::WhiteLong => (60, 58),
            CastleType::WhiteShort => (60, 62),
        }
    }

    /// The rook's part of the move, as origin and destination.
    pub fn rook_move(self) -> (m: (usize, usize))
        ensures
            m.0 == self.rook_from(),
            m.1 == self.rook_to(),
    {
        match self {
            CastleType::BlackLong => (0, 3),
            CastleType::BlackShort => (7, 5),
            CastleType::WhiteLong => (56, 59),
            CastleType::WhiteShort => (63, 61),
        }
    }
}

/// The placement after the piece on `from` has gone to `to`: the piece
/// stands on `to`, whatever stood there is gone, and `from` is empty.
pub open spec fn relocate(s: Seq<Piece>, from: int, to: int) -> Seq<Piece> {
    s.update(to, s[from]).update(from, Piece::spec_none())
}

/// The piece on a square, or `None` where the square is empty.
pub open spec fn occupant(s: Seq<Piece>, sq: int) -> Option<Piece> {
    if s[sq].is_empty() {
        None
    } else {
        Some(s[sq])
    }
}

/// The castling rights that end when the piece on `sq` leaves it or is
/// taken there: both rights of a king's colour, and the right of the corner
/// on which a rook of that corner's colour stands.
pub open spec fn rights_lost_at(s: Seq<Piece>, sq: int) -> u8 {
    let kind = s[sq].spec_kind();
    let color = s[sq].spec_color();
    if kind == Piece::KING && color == Piece::WHITE {
        CastleType::BITS_WHITE
    } else if kind == Piece::KING && color == Piece::BLACK {
        CastleType::BITS_BLACK
    } else if kind == Piece::ROOK && color == Piece::WHITE && sq == 63 {
        CastleType::BIT_WHITE_SHORT
    } else if kind == Piece::ROOK && color == Piece::WHITE && sq == 56 {
        CastleType::BIT_WHITE_LONG
    } else if kind == Piece::ROOK && color == Piece::BLACK && sq == 7 {
        CastleType::BIT_BLACK_SHORT
    } else if kind == Piece::ROOK && color == Piece::BLACK && sq == 0 {
        CastleType::BIT_BLACK_LONG
    } else {
        0
    }
}

/// The rights `rights` include the right `ty`.
pub open spec fn holds_right(rights: u8, ty: CastleType) -> bool {
    rights & ty.spec_bit() != 0
}

/// The piece on `sq` is one on which the right `ty` depends: the king of
/// the right's colour, or a rook of that colour on the right's corner.
pub open spec fn carries_right(s: Seq<Piece>, sq: int, ty: CastleType) -> bool {
    &&& s[sq].spec_color() == ty.spec_color()
    &&& s[sq].spec_kind() == Piece::KING || (s[sq].spec_kind() == Piece::ROOK && sq
        == ty.rook_from())
}

/// The move from `from` to `to` is a pawn's double push: a pawn on its home
/// row advances two rows over an empty square onto an empty square.
pub open spec fn is_double_push(p: Position, from: int, to: int) -> bool {
    &&& p.kind_at(from) == Piece::PAWN
    &&& {
        ||| p.color_at(from) == Piece::WHITE && row(from) == 6 && to == from - 16
        ||| p.color_at(from) == Piece::BLACK && row(from) == 1 && to == from + 16
    }
    &&& p.empty_at((from + to) / 2)
    &&& p.empty_at(to)
}

/// The move `mv` ends the right `ty`: it moves or takes a piece on which
/// the right depends, or it is a castling move of the right's colour.
pub open spec fn ends_right(mv: Move, s: Seq<Piece>, ty: CastleType) -> bool {
    match mv {
        Move::AB { from, to } => carries_right(s, from as int, ty) || carries_right(
            s,
            to as int,
            ty,
        ),
        Move::EnPassant { from, to, capture } => carries_right(s, from as int, ty)
            || carries_right(s, to as int, ty) || carries_right(s, capture as int, ty),
        Move::Castle { ty: made } => made.spec_color() == ty.spec_color(),
        Move::Promotion { from, to, piece } => carries_right(s, from as int, ty)
            || carries_right(s, to as int, ty),
    }
}

impl Move {
    /// Every square the move names lies on the board.
    pub open spec fn in_bounds(self) -> bool {
        match self {
            Move::AB { from, to } => from < 64 && to < 64,
            Move::EnPassant { from, to, capture } => from < 64 && to < 64 && capture < 64,
            Move::Castle { ty } => true,
            Move::Promotion { from, to, piece } => from < 64 && to < 64,
        }
    }

    /// The square the moving piece leaves; for castling, the king's.
    pub open spec fn origin(self) -> int {
        match self {
            Move::AB { from, to } => from as int,
            Move::EnPassant { from, to, capture } => from as int,
            Move::Castle { ty } => ty.king_from(),
            Move::Promotion { from, to, piece } => from as int,
        }
    }

    /// The square the moving piece arrives on; for castling, the king's.
    pub open spec fn destination(self) -> int {
        match self {
            Move::AB { from, to } => to as int,
            Move::EnPassant { from, to, capture } => to as int,
            Move::Castle { ty } => ty.king_to(),
            Move::Promotion { from, to, piece } => to as int,
        }
    }

    /// The move is in bounds and, if it promotes, promotes to a legal
    /// encoding.
    pub open spec fn wf(self) -> bool {
        &&& self.in_bounds()
        &&& self matches Move::Promotion { piece, .. } ==> piece.wf()
    }

    /// The placement after the move.
    pub open spec fn placement_after(self, s: Seq<Piece>) -> Seq<Piece> {
        match self {
            Move::AB { from, to } => relocate(s, from as int, to as int),
            Move::EnPassant { from, to, capture } => relocate(s, from as int, to as int).update(
                capture as int,
                Piece::spec_none(),
            ),
            Move::Castle { ty } => relocate(
                relocate(s, ty.king_from(), ty.king_to()),
                ty.rook_from(),
                ty.rook_to(),
            ),
            Move::Promotion { from, to, piece } => s.update(from as int, Piece::spec_none()).update(
                to as int,
                piece,
            ),
        }
    }

    /// The castling rights that the move ends: those tied to the piece that
    /// moves and to the piece that is taken; castling ends both rights of
    /// its colour.
    pub open spec fn rights_lost(self, s: Seq<Piece>) -> u8 {
        match self {
            Move::AB { from, to } => rights_lost_at(s, from as int) | rights_lost_at(s, to as int),
            Move::EnPassant { from, to, capture } => rights_lost_at(s, from as int)
                | rights_lost_at(s, to as int) | rights_lost_at(s, capture as int),
            Move::Castle { ty } => if ty.spec_color() == Piece::WHITE {
                CastleType::BITS_WHITE
            } else {
                CastleType::BITS_BLACK
            },
            Move::Promotion { from, to, piece } => rights_lost_at(s, from as int) | rights_lost_at(
                s,
                to as int,
            ),
        }
    }

    /// The en-passant target after the move: the skipped square after a
    /// pawn's double push, nothing after any other move.
    pub open spec fn en_passant_after(self, p: Position) -> Option<usize> {
        match self {
            Move::AB { from, to } => if is_double_push(p, from as int, to as int) {
                Some(((from + to) / 2) as usize)
            } else {
                None
            },
            _ => None,
        }
    }

    /// The position after the move. The side to move stays: handing over
    /// the turn is a step of its own.
    pub open spec fn result(self, p: Position) -> Position {
        Position {
            squares: self.placement_after(p.squares),
            turn: p.turn,
            castle_rights: p.castle_rights & !self.rights_lost(p.squares),
            en_passant: self.en_passant_after(p),
        }
    }

    /// The piece that the move removes from the board, if any.
    pub open spec fn captured(self, s: Seq<Piece>) -> Option<Piece> {
        match self {
            Move::AB { from, to } => occupant(s, to as int),
            Move::EnPassant { from, to, capture } => occupant(s, capture as int),
            Move::Castle { ty } => None,
            Move::Promotion { from, to, piece } => occupant(s, to as int),
        }
    }

    /// The plain move from `from` to `to`.
    pub fn new_ab(from: usize, to: usize) -> (m: Move)
        ensures
            m == (Move::AB { from, to }),
    {
        Move::AB { from, to }
    }

    /// True when every square the move names lies on the board.
    pub fn is_in_bounds(&self) -> (r: bool)
        ensures
            r == self.in_bounds(),
    {
        match *self {
            Move::AB { from, to } => from < 64 && to < 64,
            Move::EnPassant { from, to, capture } => from < 64 && to < 64 && capture < 64,
            Move::Castle { ty } => true,
            Move::Promotion { from, to, piece } => from < 64 && to < 64,
        }
    }

    /// The piece that this move takes on `board`, without changing anything.
    pub fn capture(&self, board: &Board) -> (r: Option<Piece>)
        requires
            self.in_bounds(),
        ensures
            r == self.captured(board@.squares),
    {
        let sq = match *self {
            Move::AB { from, to } => to,
            Move::EnPassant { from, to, capture } => capture,
            Move::Castle { ty } => {
                return None;
            },
            Move::Promotion { from, to, piece } => to,
        };
        let p = board.piece_at(sq);
        if p.is_none() {
            None
        } else {
            Some(p)
        }
    }

    /// Carries the move out on `board`: the pieces are relocated, the
    /// castling rights that the move ends are cleared, and the en-passant
    /// target is set after a pawn's double push and cleared otherwise.
    pub fn apply(&self, board: &mut Board)
        requires
            self.in_bounds(),
        ensures
            final(board)@ == self.result(old(board)@),
            old(board)@.wf() && self.wf() ==> final(board)@.wf(),
    {
        proof {
            board.lemma_squares_len();
            lemma_result_wf(*self, board@);
        }
        let lost = rights_lost_by(self, board);
        let target = double_push_target(self, board);
        match *self {
            Move::AB { from, to } => {
                relocate_piece(board, from, to);
            },
            Move::EnPassant { from, to, capture } => {
                relocate_piece(board, from, to);
                board.set_piece(capture, Piece::none());
            },
            Move::Castle { ty } => {
                let (king_from, king_to) = ty.king_move();
                let (rook_from, rook_to) = ty.rook_move();
                relocate_piece(board, king_from, king_to);
                relocate_piece(board, rook_from, rook_to);
            },
            Move::Promotion { from, to, piece } => {
                board.set_piece(from, Piece::none());
                board.set_piece(to, piece);
            },
        }
        let rights = board.castle_rights();
        board.set_castle_rights(rights & !lost);
        board.set_en_passant_target(target);
    }
}

impl Board {
    /// Plays a move: carries it out and hands the turn to the other side.
    pub fn play(&mut self, mv: &Move)
        requires
            mv.in_bounds(),
            is_color(old(self)@.turn),
        ensures
            final(self)@ == (Position {
                turn: opponent(old(self)@.turn),
                ..mv.result(old(self)@)
            }),
            old(self)@.wf() && mv.wf() ==> final(self)@.wf(),
    {
        mv.apply(self);
        self.advance_turn();
    }
}

/// Moves the piece on `from` to `to` and leaves `from` empty.
fn relocate_piece(board: &mut Board, from: usize, to: usize)
    requires
        from < 64,
        to < 64,
    ensures
        final(board)@ == (Position {
            squares: relocate(old(board)@.squares, from as int, to as int),
            ..old(board)@
        }),
{
    let p = board.piece_at(from);
    board.set_piece(to, p);
    board.set_piece(from, Piece::none());
}

/// The rights tied to the piece on `sq`.
fn rights_lost_on(board: &Board, sq: usize) -> (lost: u8)
    requires
        sq < 64,
    ensures
        lost == rights_lost_at(board@.squares, sq as int),
{
    let p = board.piece_at(sq);
    let kind = p.kind();
    let color = p.color();
    if kind == Piece::KING && color == Piece::WHITE {
        CastleType::BITS_WHITE
    } else if kind == Piece::KING && color == Piece::BLACK {
        CastleType::BITS_BLACK
    } else if kind == Piece::ROOK && color == Piece::WHITE && sq == 63 {
        CastleType::BIT_WHITE_SHORT
    } else if kind == Piece::ROOK && color == Piece::WHITE && sq == 56 {
        CastleType::BIT_WHITE_LONG
    } else if kind == Piece::ROOK && color == Piece::BLACK && sq == 7 {
        CastleType::BIT_BLACK_SHORT
    } else if kind == Piece::ROOK && color == Piece::BLACK && sq == 0 {
        CastleType::BIT_BLACK_LONG
    } else {
        0
    }
}

/// The rights that `mv` ends on `board`.
fn rights_lost_by(mv: &Move, board: &Board) -> (lost: u8)
    requires
        mv.in_bounds(),
    ensures
        lost == mv.rights_lost(board@.squares),
{
    match *mv {
        Move::AB { from, to } => rights_lost_on(board, from) | rights_lost_on(board, to),
        Move::EnPassant { from, to, capture } => rights_lost_on(board, from) | rights_lost_on(
            board,
            to,
        ) | rights_lost_on(board, capture),
        Move::Castle { ty } => if ty.color() == Piece::WHITE {
            CastleType::BITS_WHITE
        } else {
            CastleType::BITS_BLACK
        },
        Move::Promotion { from, to, piece } => rights_lost_on(board, from) | rights_lost_on(
            board,
            to,
        ),
    }
}

/// The en-passant target that `mv` leaves behind on `board`.
fn double_push_target(mv: &Move, board: &Board) -> (target: Option<usize>)
    requires
        mv.in_bounds(),
    ensures
        target == mv.en_passant_after(board@),
{
    match *mv {
        Move::AB { from, to } => {
            let p = board.piece_at(from);
            let white = p.color() == Piece::WHITE && from / 8 == 6 && to + 16 == from;
            let black = p.color() == Piece::BLACK && from / 8 == 1 && to == from + 16;
            if p.kind() == Piece::PAWN && (white || black) {
                let mid = (from + to) / 2;
                if board.piece_at(mid).is_none() && board.piece_at(to).is_none() {
                    Some(mid)
                } else {
                    None
                }
            } else {
                None
            }
        },
        _ => None,
    }
}

/// Clearing bits never sets one.
proof fn lemma_clear_bits(rights: u8, lost: u8)
    ensures
        rights & !lost <= rights,
{
    assert(rights & !lost <= rights) by (bit_vector);
}

/// A well-formed move leaves a well-formed position well formed.
pub proof fn lemma_result_wf(mv: Move, p: Position)
    requires
        p.squares.len() == 64,
        mv.in_bounds(),
    ensures
        mv.result(p).squares.len() == 64,
        p.wf() && mv.wf() ==> mv.result(p).wf(),
{
    Piece::lemma_none();
    lemma_clear_bits(p.castle_rights, mv.rights_lost(p.squares));
}

/// Castling moves king and rook at once: afterwards the king stands two
/// squares nearer the rook's corner, the rook on the square the king passed
/// over, both starting squares are empty, and no other square has changed.
pub proof fn lemma_castle_relocates(ty: CastleType, s: Seq<Piece>)
    requires
        s.len() == 64,
    ensures
        ({
            let t = (Move::Castle { ty }).placement_after(s);
            &&& t.len() == 64
            &&& t[ty.king_to()] == s[ty.king_from()]
            &&& t[ty.rook_to()] == s[ty.rook_from()]
            &&& t[ty.king_from()] == Piece::spec_none()
            &&& t[ty.rook_from()] == Piece::spec_none()
            &&& forall|i: int|
                0 <= i < 64 && i != ty.king_from() && i != ty.king_to() && i != ty.rook_from() && i
                    != ty.rook_to() ==> t[i] == s[i]
        }),
{
}

/// A plain move onto an empty square is undone by the plain move back: the
/// placement is the one before.
pub proof fn lemma_plain_move_undone(s: Seq<Piece>, from: usize, to: usize)
    requires
        s.len() == 64,
        from < 64,
        to < 64,
        from != to,
        s[to as int].is_empty(),
    ensures
        (Move::AB { from: to, to: from }).placement_after(
            (Move::AB { from, to }).placement_after(s),
        ) == s,
{
    Piece::lemma_none();
    Piece::lemma_bits_injective(s[to as int], Piece::spec_none());
    let t = (Move::AB { from: to, to: from }).placement_after(
        (Move::AB { from, to }).placement_after(s),
    );
    assert(t =~= s);
}

/// How the four bits behave under the operations that the rights go
/// through: a right is in a union if it is in one of the parts, and it is
/// left after a removal if it was there and was not removed.
pub proof fn lemma_right_bits(rights: u8, other: u8, ty: CastleType)
    ensures
        holds_right(rights | other, ty) <==> holds_right(rights, ty) || holds_right(other, ty),
        holds_right(rights & !other, ty) <==> holds_right(rights, ty) && !holds_right(other, ty),
        rights & ty.spec_bit() == ty.spec_bit() <==> holds_right(rights, ty),
        !holds_right(0, ty),
        holds_right(ty.spec_bit(), ty),
        holds_right(CastleType::BITS_ALL, ty),
        holds_right(CastleType::BITS_WHITE, ty) <==> ty.spec_color() == Piece::WHITE,
        holds_right(CastleType::BITS_BLACK, ty) <==> ty.spec_color() == Piece::BLACK,
        holds_right(CastleType::BIT_BLACK_LONG, ty) <==> ty == CastleType::BlackLong,
        holds_right(CastleType::BIT_BLACK_SHORT, ty) <==> ty == CastleType::BlackShort,
        holds_right(CastleType::BIT_WHITE_LONG, ty) <==> ty == CastleType::WhiteLong,
        holds_right(CastleType::BIT_WHITE_SHORT, ty) <==> ty == CastleType::WhiteShort,
{
    let bit = ty.spec_bit();
    assert(((rights | other) & bit != 0 <==> rights & bit != 0 || other & bit != 0) && ((rights
        & !other) & bit != 0 <==> rights & bit != 0 && !(other & bit != 0)) && (rights & bit == bit
        <==> rights & bit != 0) && 0u8 & bit == 0 && 15u8 & bit != 0 && (12u8 & bit != 0 <==> bit
        == 4 || bit == 8) && (3u8 & bit != 0 <==> bit == 1 || bit == 2) && (1u8 & bit != 0 <==> bit
        == 1) && (2u8 & bit != 0 <==> bit == 2) && (4u8 & bit != 0 <==> bit == 4) && (8u8 & bit != 0
        <==> bit == 8)) by (bit_vector)
        requires
            bit == 1 || bit == 2 || bit == 4 || bit == 8,
    ;
}

/// The rights tied to the piece on a square are the rights that depend on
/// that piece.
pub proof fn lemma_rights_lost_at(s: Seq<Piece>, sq: int, ty: CastleType)
    ensures
        holds_right(rights_lost_at(s, sq), ty) <==> carries_right(s, sq, ty),
{
    lemma_right_bits(0, 0, ty);
}

/// Castling rights only ever end: after a move, a right is held exactly if
/// it was held before and the move neither moved nor took the king of the
/// right's colour or the rook on the right's corner.
pub proof fn lemma_rights_after(mv: Move, p: Position, ty: CastleType)
    ensures
        holds_right(mv.result(p).castle_rights, ty) <==> holds_right(p.castle_rights, ty)
            && !ends_right(mv, p.squares, ty),
{
    let s = p.squares;
    lemma_right_bits(p.castle_rights, mv.rights_lost(s), ty);
    match mv {
        Move::AB { from, to } => {
            lemma_right_bits(rights_lost_at(s, from as int), rights_lost_at(s, to as int), ty);
            lemma_rights_lost_at(s, from as int, ty);
            lemma_rights_lost_at(s, to as int, ty);
        },
        Move::EnPassant { from, to, capture } => {
            lemma_right_bits(rights_lost_at(s, from as int), rights_lost_at(s, to as int), ty);
            lemma_right_bits(
                rights_lost_at(s, from as int) | rights_lost_at(s, to as int),
                rights_lost_at(s, capture as int),
                ty,
            );
            lemma_rights_lost_at(s, from as int, ty);
            lemma_rights_lost_at(s, to as int, ty);
            lemma_rights_lost_at(s, capture as int, ty);
        },
        Move::Castle { ty: made } => {},
        Move::Promotion { from, to, piece } => {
            lemma_right_bits(rights_lost_at(s, from as int), rights_lost_at(s, to as int), ty);
            lemma_rights_lost_at(s, from as int, ty);
            lemma_rights_lost_at(s, to as int, ty);
        },
    }
}

} // verus!
