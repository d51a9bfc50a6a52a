//! The board: sixty-four squares, the side to move, the castling rights and
//! the en-passant target, together with the geometry of the flat square index.
//!
//! Square 0 is a8, square 7 is h8, square 56 is a1 and square 63 is h1: rows
//! count downwards from the eighth rank, columns rightwards from the a-file.

use crate::piece::{is_color, opponent, Piece};
use vstd::prelude::*;

verus! {

/// The mathematical content of a board.
pub struct Position {
    /// The sixty-four squares in index order.
    pub squares: Seq<Piece>,
    /// The colour flag of the side to move.
    pub turn: u16,
    /// The castling rights still available, one bit each.
    pub castle_rights: u8,
    /// The square a pawn skipped with a double push on the previous ply.
    pub en_passant: Option<usize>,
}

/// The row of a square, 0 for the eighth rank.
pub open spec fn row(sq: int) -> int {
    sq / 8
}

/// The column of a square, 0 for the a-file.
pub open spec fn col(sq: int) -> int {
    sq % 8
}

/// The coordinates name a square of the board.
pub open spec fn on_board(r: int, c: int) -> bool {
    0 <= r < 8 && 0 <= c < 8
}

/// The index of the square at the given coordinates.
pub open spec fn square_at(r: int, c: int) -> int {
    r * 8 + c
}

/// The square reached from `sq` by moving `dr` rows and `dc` columns, if
/// that stays on the board. A step never passes from one edge column to the
/// other: the column is checked on its own, not through the flat index.
pub open spec fn step(sq: int, dr: int, dc: int) -> Option<int> {
    if on_board(row(sq) + dr, col(sq) + dc) {
        Some(square_at(row(sq) + dr, col(sq) + dc))
    } else {
        None
    }
}

/// Sixty-four squares, each holding a legal encoding.
pub open spec fn placement_wf(squares: Seq<Piece>) -> bool {
    &&& squares.len() == 64
    &&& forall|i: int| 0 <= i < 64 ==> (#[trigger] squares[i]).wf()
}

/// The material balance of the first `n` squares: one point for each white
/// piece, minus one for each black piece.
pub open spec fn material_upto(squares: Seq<Piece>, n: int) -> int
    decreases n,
{
    if n <= 0 {
        0
    } else {
        material_upto(squares, n - 1) + if squares[n - 1].is_empty() {
            0int
        } else if squares[n - 1].spec_color() == Piece::WHITE {
            1int
        } else {
            -1int
        }
    }
}

impl Position {
    /// The position invariant: a well-formed placement, a colour to move,
    /// no stray bits in the rights, and an en-passant target that names an
    /// empty square.
    pub open spec fn wf(self) -> bool {
        &&& placement_wf(self.squares)
        &&& is_color(self.turn)
        &&& self.castle_rights < 16
        &&& self.en_passant matches Some(t) ==> t < 64 && self.squares[t as int].is_empty()
    }

    /// No piece stands on `sq`.
    pub open spec fn empty_at(self, sq: int) -> bool {
        self.squares[sq].is_empty()
    }

    /// The colour flag of the piece on `sq`, 0 if there is none.
    pub open spec fn color_at(self, sq: int) -> u16 {
        self.squares[sq].spec_color()
    }

    /// The kind flag of the piece on `sq`, 0 if there is none.
    pub open spec fn kind_at(self, sq: int) -> u16 {
        self.squares[sq].spec_kind()
    }

    /// A piece of another colour than `color` stands on `sq`.
    pub open spec fn enemy_at(self, sq: int, color: u16) -> bool {
        !self.empty_at(sq) && self.color_at(sq) != color
    }
}

/// The executable board.
#[derive(Clone, Debug)]
pub struct Board {
    pieces: [Piece; 64],
    turn: u16,
    castle_rights: u8,
    en_passant_target: Option<usize>,
}

impl View for Board {
    type V = Position;

    closed spec fn view(&self) -> Position {
        Position {
            squares: self.pieces@,
            turn: self.turn,
            castle_rights: self.castle_rights,
            en_passant: self.en_passant_target,
        }
    }
}

impl Board {
    /// The width of the board.
    pub const NUM_FILES: u32 = 8;

    /// The height of the board.
    pub const NUM_RANKS: u32 = 8;

    /// Every board has sixty-four squares.
    pub proof fn lemma_squares_len(&self)
        ensures
            self@.squares.len() == 64,
    {
    }

    /// A board with the given placement, side to move and castling rights,
    /// and no en-passant target.
    pub fn new(pieces: [Piece; 64], turn: u16, castle_rights: u8) -> (b: Board)
        ensures
            b@ == (Position { squares: pieces@, turn, castle_rights, en_passant: None }),
            b@.squares.len() == 64,
    {
        Board { pieces, turn, castle_rights, en_passant_target: None }
    }

    /// The row of a square: 0 for the eighth rank, 7 for the first.
    pub fn rank_of(sq: usize) -> (r: usize)
        ensures
            r == row(sq as int),
    {
        sq / 8
    }

    /// The column of a square: 0 for the a-file, 7 for the h-file.
    pub fn file_of(sq: usize) -> (c: usize)
        ensures
            c == col(sq as int),
    {
        sq % 8
    }

    /// The index of the square in column `file` of row `rank`.
    pub fn square_index(file: usize, rank: usize) -> (sq: usize)
        requires
            on_board(rank as int, file as int),
        ensures
            sq == square_at(rank as int, file as int),
            sq < 64,
            row(sq as int) == rank,
            col(sq as int) == file,
    {
        rank * 8 + file
    }

    /// One step on the board, or `None` where the step would leave it.
    pub fn step_square(sq: usize, dr: i8, dc: i8) -> (r: Option<usize>)
        ensures
            r is Some <==> step(sq as int, dr as int, dc as int) is Some,
            r matches Some(t) ==> step(sq as int, dr as int, dc as int) == Some(t as int) && t
                < 64,
    {
        let r: i64 = (sq / 8) as i64 + dr as i64;
        let c: i64 = (sq % 8) as i64 + dc as i64;
        if 0 <= r && r < 8 && 0 <= c && c < 8 {
            Some((r * 8 + c) as usize)
        } else {
            None
        }
    }

    /// The piece on a square.
    pub fn piece_at(&self, sq: usize) -> (p: Piece)
        requires
            sq < 64,
        ensures
            p == self@.squares[sq as int],
    {
        self.pieces[sq]
    }

    /// The whole placement, square by square.
    pub fn pieces(&self) -> (a: [Piece; 64])
        ensures
            a@ == self@.squares,
    {
        self.pieces
    }

    /// The colour flag of the side to move.
    pub fn turn(&self) -> (t: u16)
        ensures
            t == self@.turn,
    {
        self.turn
    }

    /// The castling rights bitmask.
    pub fn castle_rights(&self) -> (r: u8)
        ensures
            r == self@.castle_rights,
    {
        self.castle_rights
    }

    /// The en-passant target, if the previous ply was a pawn double push.
    pub fn en_passant_target(&self) -> (t: Option<usize>)
        ensures
            t == self@.en_passant,
    {
        self.en_passant_target
    }

    /// Puts a piece on a square, replacing what stood there.
    pub fn set_piece(&mut self, sq: usize, p: Piece)
        requires
            sq < 64,
        ensures
            final(self)@ == (Position {
                squares: old(self)@.squares.update(sq as int, p),
                ..old(self)@
            }),
    {
        self.pieces[sq] = p;
    }

    /// Replaces the castling rights.
    pub fn set_castle_rights(&mut self, rights: u8)
        ensures
            final(self)@ == (Position { castle_rights: rights, ..old(self)@ }),
    {
        self.castle_rights = rights;
    }

    /// Replaces the en-passant target.
    pub fn set_en_passant_target(&mut self, target: Option<usize>)
        ensures
            final(self)@ == (Position { en_passant: target, ..old(self)@ }),
    {
        self.en_passant_target = target;
    }

    /// Hands the move to the other side. The side to move must be one of the
    /// two colours: any other value means the board was corrupted earlier.
    pub fn advance_turn(&mut self)
        requires
            is_color(old(self)@.turn),
        ensures
            final(self)@ == (Position { turn: opponent(old(self)@.turn), ..old(self)@ }),
            final(self)@.wf() == old(self)@.wf(),
    {
        if self.turn == Piece::WHITE {
            self.turn = Piece::BLACK;
        } else {
            self.turn = Piece::WHITE;
        }
    }

    /// True when the board satisfies the position invariant.
    pub fn is_wf(&self) -> (r: bool)
        ensures
            r == self@.wf(),
    {
        let mut i: usize = 0;
        while i < 64
            invariant
                i <= 64,
                forall|j: int| 0 <= j < i ==> (#[trigger] self@.squares[j]).wf(),
            decreases 64 - i,
        {
            if Piece::from_bits(self.pieces[i].inner()).is_none() {
                return false;
            }
            i += 1;
        }
        let target_ok = match self.en_passant_target {
            Some(t) => t < 64 && self.pieces[t].is_none(),
            None => true,
        };
        (self.turn == Piece::WHITE || self.turn == Piece::BLACK) && self.castle_rights < 16
            && target_ok
    }

    /// The material balance: white pieces minus black pieces.
    pub fn material(&self) -> (m: i32)
        ensures
            m == material_upto(self@.squares, 64),
    {
        let mut m: i32 = 0;
        let mut i: usize = 0;
        while i < 64
            invariant
                i <= 64,
                m == material_upto(self@.squares, i as int),
                -(i as int) <= m <= i,
            decreases 64 - i,
        {
            let p = self.pieces[i];
            if !p.is_none() {
                if p.color() == Piece::WHITE {
                    m += 1;
                } else {
                    m -= 1;
                }
            }
            i += 1;
        }
        m
    }
}

} // verus!
