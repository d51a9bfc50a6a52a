//! Reading a position from Forsyth-Edwards notation, and writing a board as
//! text.
//!
//! The input is a line of fields separated by ASCII white space. The first
//! field is the piece placement and the second the side to move; the third,
//! the castling rights, may be missing. Further fields are not looked at.

use crate::board::{placement_wf, Board, Position};
use crate::moves::{holds_right, lemma_right_bits, CastleType};
use crate::piece::Piece;
use vstd::prelude::*;
use vstd::string::StrSliceExecFns;
use vstd::string::StringExecFns;

verus! {

/// The position from which a game starts.
pub const STARTING_FEN: &'static str = "rnbqkbnr/pppppppp/8/8/8/8/PPPPPPPP/RNBQKBNR w KQkq - 0 1";

/// The letter of White in the side-to-move field.
pub const FEN_WHITE: char = 'w';

/// The letter of Black in the side-to-move field.
pub const FEN_BLACK: char = 'b';

/// The separator between two ranks of the placement field.
pub const FEN_NEW_RANK: char = '/';

pub const FEN_WHITE_PAWN: char = 'P';

pub const FEN_WHITE_KNIGHT: char = 'N';

pub const FEN_WHITE_BISHOP: char = 'B';

pub const FEN_WHITE_ROOK: char = 'R';

pub const FEN_WHITE_QUEEN: char = 'Q';

pub const FEN_WHITE_KING: char = 'K';

pub const FEN_BLACK_PAWN: char = 'p';

pub const FEN_BLACK_KNIGHT: char = 'n';

pub const FEN_BLACK_BISHOP: char = 'b';

pub const FEN_BLACK_ROOK: char = 'r';

pub const FEN_BLACK_QUEEN: char = 'q';

pub const FEN_BLACK_KING: char = 'k';

/// Why a text is not a position.
#[derive(Clone, Debug, PartialEq, Eq)]
pub enum FenError {
    /// The text holds no field at all.
    Empty,
    /// The text holds a placement but no side to move.
    MissingTurn,
    /// The digit `digit` claims more empty squares than the rank has left.
    TooManyEmpty { digit: char },
    /// A rank separator stands where the rank is not yet complete.
    RankNotDone,
    /// `symbol` is no piece letter, no digit from 1 to 9 and no separator.
    UnexpectedSymbol { symbol: char },
    /// `symbol` describes a square beyond the sixty-fourth.
    TooManySquares { symbol: char },
    /// The placement ends before the sixty-fourth square.
    TooFewSquares,
    /// The side-to-move field `field` is not a single character.
    TurnFieldLength { field: String },
    /// The side to move is `symbol`, which is neither `w` nor `b`.
    UnknownTurn { symbol: char },
    /// The castling right `symbol` is given twice.
    DuplicateCastleRight { symbol: char },
    /// `symbol` names no castling right.
    UnexpectedCastleSymbol { symbol: char },
}

/// The mathematical content of a `FenError`: the same reasons, with the
/// field at fault as a sequence of characters.
pub enum FenErrorView {
    Empty,
    MissingTurn,
    TooManyEmpty { digit: char },
    RankNotDone,
    UnexpectedSymbol { symbol: char },
    TooManySquares { symbol: char },
    TooFewSquares,
    TurnFieldLength { field: Seq<char> },
    UnknownTurn { symbol: char },
    DuplicateCastleRight { symbol: char },
    UnexpectedCastleSymbol { symbol: char },
}

impl View for FenError {
    type V = FenErrorView;

    open spec fn view(&self) -> FenErrorView {
        match self {
            FenError::Empty => FenErrorView::Empty,
            FenError::MissingTurn => FenErrorView::MissingTurn,
            FenError::TooManyEmpty { digit } => FenErrorView::TooManyEmpty { digit: *digit },
            FenError::RankNotDone => FenErrorView::RankNotDone,
            FenError::UnexpectedSymbol { symbol } => FenErrorView::UnexpectedSymbol {
                symbol: *symbol,
            },
            FenError::TooManySquares { symbol } => FenErrorView::TooManySquares { symbol: *symbol },
            FenError::TooFewSquares => FenErrorView::TooFewSquares,
            FenError::TurnFieldLength { field } => FenErrorView::TurnFieldLength { field: field@ },
            FenError::UnknownTurn { symbol } => FenErrorView::UnknownTurn { symbol: *symbol },
            FenError::DuplicateCastleRight { symbol } => FenErrorView::DuplicateCastleRight {
                symbol: *symbol,
            },
            FenError::UnexpectedCastleSymbol { symbol } => FenErrorView::UnexpectedCastleSymbol {
                symbol: *symbol,
            },
        }
    }
}

/// Appending a character to a `String` (`String::push`): the text afterwards
/// is the text before with that one character added at its end.
pub assume_specification[ String::push ](s: &mut String, ch: char)
    ensures
        final(s)@ == old(s)@.push(ch),
;

/// ASCII white space: space, tab, line feed, form feed, carriage return.
pub open spec fn is_space(c: char) -> bool {
    c == ' ' || c == '\t' || c == '\n' || c == '\x0C' || c == '\r'
}

/// The first index from `i` on that holds no white space, or the length.
pub open spec fn skip_spaces(s: Seq<char>, i: int) -> int
    decreases s.len() - i,
{
    if 0 <= i < s.len() && is_space(s[i]) {
        skip_spaces(s, i + 1)
    } else {
        i
    }
}

/// The first index from `i` on that holds white space, or the length.
pub open spec fn skip_field(s: Seq<char>, i: int) -> int
    decreases s.len() - i,
{
    if 0 <= i < s.len() && !is_space(s[i]) {
        skip_field(s, i + 1)
    } else {
        i
    }
}

/// Where field number `k` starts, counting from 0; the length of the text
/// if it has no such field.
pub open spec fn field_start(s: Seq<char>, k: nat) -> int
    decreases k,
{
    if k == 0 {
        skip_spaces(s, 0)
    } else {
        skip_spaces(s, skip_field(s, field_start(s, (k - 1) as nat)))
    }
}

/// Field number `k` of the text, if there is one.
pub open spec fn field(s: Seq<char>, k: nat) -> Option<Seq<char>> {
    let start = field_start(s, k);
    if 0 <= start < s.len() {
        Some(s.subrange(start, skip_field(s, start)))
    } else {
        None
    }
}

/// The piece that a letter stands for: upper case for White, lower case for
/// Black.
pub open spec fn letter_piece(c: char) -> Option<Piece> {
    if c == FEN_WHITE_PAWN {
        Some(Piece::spec_new(Piece::WHITE, Piece::PAWN))
    } else if c == FEN_WHITE_KNIGHT {
        Some(Piece::spec_new(Piece::WHITE, Piece::KNIGHT))
    } else if c == FEN_WHITE_BISHOP {
        Some(Piece::spec_new(Piece::WHITE, Piece::BISHOP))
    } else if c == FEN_WHITE_ROOK {
        Some(Piece::spec_new(Piece::WHITE, Piece::ROOK))
    } else if c == FEN_WHITE_QUEEN {
        Some(Piece::spec_new(Piece::WHITE, Piece::QUEEN))
    } else if c == FEN_WHITE_KING {
        Some(Piece::spec_new(Piece::WHITE, Piece::KING))
    } else if c == FEN_BLACK_PAWN {
        Some(Piece::spec_new(Piece::BLACK, Piece::PAWN))
    } else if c == FEN_BLACK_KNIGHT {
        Some(Piece::spec_new(Piece::BLACK, Piece::KNIGHT))
    } else if c == FEN_BLACK_BISHOP {
        Some(Piece::spec_new(Piece::BLACK, Piece::BISHOP))
    } else if c == FEN_BLACK_ROOK {
        Some(Piece::spec_new(Piece::BLACK, Piece::ROOK))
    } else if c == FEN_BLACK_QUEEN {
        Some(Piece::spec_new(Piece::BLACK, Piece::QUEEN))
    } else if c == FEN_BLACK_KING {
        Some(Piece::spec_new(Piece::BLACK, Piece::KING))
    } else {
        None
    }
}

/// The number of empty squares that a digit stands for. The digit 9 is read
/// as a count, although no rank has room for it.
pub open spec fn digit_value(c: char) -> Option<int> {
    if c == '1' {
        Some(1)
    } else if c == '2' {
        Some(2)
    } else if c == '3' {
        Some(3)
    } else if c == '4' {
        Some(4)
    } else if c == '5' {
        Some(5)
    } else if c == '6' {
        Some(6)
    } else if c == '7' {
        Some(7)
    } else if c == '8' {
        Some(8)
    } else if c == '9' {
        Some(9)
    } else {
        None
    }
}

/// `n` empty squares.
pub open spec fn empties(n: int) -> Seq<Piece> {
    Seq::new(n as nat, |k: int| Piece::spec_none())
}

/// The squares described so far, after one more character of the placement
/// field: a letter adds its piece, a digit adds that many empty squares if
/// the rank has room for them, and a separator is in order only between
/// complete ranks.
pub open spec fn placement_step(sofar: Seq<Piece>, c: char) -> Result<Seq<Piece>, FenErrorView> {
    if letter_piece(c) is Some {
        if sofar.len() >= 64 {
            Err(FenErrorView::TooManySquares { symbol: c })
        } else {
            Ok(sofar.push(letter_piece(c)->0))
        }
    } else if digit_value(c) is Some {
        if digit_value(c)->0 > 8 - sofar.len() % 8 {
            Err(FenErrorView::TooManyEmpty { digit: c })
        } else if sofar.len() + digit_value(c)->0 > 64 {
            Err(FenErrorView::TooManySquares { symbol: c })
        } else {
            Ok(sofar + empties(digit_value(c)->0))
        }
    } else if c == FEN_NEW_RANK {
        if sofar.len() % 8 != 0 {
            Err(FenErrorView::RankNotDone)
        } else {
            Ok(sofar)
        }
    } else {
        Err(FenErrorView::UnexpectedSymbol { symbol: c })
    }
}

/// The squares described by the first `n` characters of a placement field,
/// or the first error among them.
pub open spec fn placement_prefix(field: Seq<char>, n: int) -> Result<Seq<Piece>, FenErrorView>
    decreases n,
{
    if n <= 0 {
        Ok(Seq::empty())
    } else {
        match placement_prefix(field, n - 1) {
            Ok(sofar) => placement_step(sofar, field[n - 1]),
            Err(e) => Err(e),
        }
    }
}

/// The placement that a placement field describes: all sixty-four squares,
/// no more and no fewer.
pub open spec fn decode_placement(field: Seq<char>) -> Result<Seq<Piece>, FenErrorView> {
    match placement_prefix(field, field.len() as int) {
        Ok(squares) => if squares.len() == 64 {
            Ok(squares)
        } else {
            Err(FenErrorView::TooFewSquares)
        },
        Err(e) => Err(e),
    }
}

/// The side to move that a field names: `w` or `b`, alone.
pub open spec fn decode_turn(field: Seq<char>) -> Result<u16, FenErrorView> {
    if field.len() != 1 {
        Err(FenErrorView::TurnFieldLength { field })
    } else if field[0] == FEN_WHITE {
        Ok(Piece::WHITE)
    } else if field[0] == FEN_BLACK {
        Ok(Piece::BLACK)
    } else {
        Err(FenErrorView::UnknownTurn { symbol: field[0] })
    }
}

/// The castling right that a letter names.
pub open spec fn castle_letter(c: char) -> Option<CastleType> {
    if c == FEN_BLACK_QUEEN {
        Some(CastleType::BlackLong)
    } else if c == FEN_BLACK_KING {
        Some(CastleType::BlackShort)
    } else if c == FEN_WHITE_QUEEN {
        Some(CastleType::WhiteLong)
    } else if c == FEN_WHITE_KING {
        Some(CastleType::WhiteShort)
    } else {
        None
    }
}

/// The rights named so far, after one more letter of the castling field.
pub open spec fn castle_step(rights: u8, c: char) -> Result<u8, FenErrorView> {
    match castle_letter(c) {
        Some(ty) => if rights & ty.spec_bit() == ty.spec_bit() {
            Err(FenErrorView::DuplicateCastleRight { symbol: c })
        } else {
            Ok(rights | ty.spec_bit())
        },
        None => Err(FenErrorView::UnexpectedCastleSymbol { symbol: c }),
    }
}

/// The rights named by the first `n` letters of a castling field, or the
/// first error among them.
pub open spec fn castle_prefix(field: Seq<char>, n: int) -> Result<u8, FenErrorView>
    decreases n,
{
    if n <= 0 {
        Ok(0u8)
    } else {
        match castle_prefix(field, n - 1) {
            Ok(rights) => castle_step(rights, field[n - 1]),
            Err(e) => Err(e),
        }
    }
}

/// The castling rights that a field grants: all four where the field is
/// missing, none where it is a lone hyphen, else the rights its letters name.
pub open spec fn decode_castle(field: Option<Seq<char>>) -> Result<u8, FenErrorView> {
    match field {
        None => Ok(CastleType::BITS_ALL),
        Some(f) => if f.len() == 1 && f[0] == '-' {
            Ok(0u8)
        } else {
            castle_prefix(f, f.len() as int)
        },
    }
}

/// The characters of a field that may be missing.
pub open spec fn field_view(field: Option<&str>) -> Option<Seq<char>> {
    match field {
        Some(f) => Some(f@),
        None => None,
    }
}

/// The position that a text describes, or the first reason why it describes
/// none: the fields are looked for first, then the placement, the side to
/// move and the castling rights are read in this order.
pub open spec fn parse(text: Seq<char>) -> Result<Position, FenErrorView> {
    if field(text, 0) is None {
        Err(FenErrorView::Empty)
    } else if field(text, 1) is None {
        Err(FenErrorView::MissingTurn)
    } else {
        match decode_placement(field(text, 0)->0) {
            Err(e) => Err(e),
            Ok(squares) => match decode_turn(field(text, 1)->0) {
                Err(e) => Err(e),
                Ok(turn) => match decode_castle(field(text, 2)) {
                    Err(e) => Err(e),
                    Ok(castle_rights) => Ok(
                        Position { squares, turn, castle_rights, en_passant: None },
                    ),
                },
            },
        }
    }
}

/// The letter of a piece: its kind, in upper case for White and in lower
/// case for Black; a space for the empty square.
pub open spec fn piece_letter(p: Piece) -> char {
    let white = p.spec_color() == Piece::WHITE;
    let kind = p.spec_kind();
    if p.is_empty() {
        ' '
    } else if kind == Piece::PAWN {
        if white {
            FEN_WHITE_PAWN
        } else {
            FEN_BLACK_PAWN
        }
    } else if kind == Piece::KNIGHT {
        if white {
            FEN_WHITE_KNIGHT
        } else {
            FEN_BLACK_KNIGHT
        }
    } else if kind == Piece::BISHOP {
        if white {
            FEN_WHITE_BISHOP
        } else {
            FEN_BLACK_BISHOP
        }
    } else if kind == Piece::ROOK {
        if white {
            FEN_WHITE_ROOK
        } else {
            FEN_BLACK_ROOK
        }
    } else if kind == Piece::QUEEN {
        if white {
            FEN_WHITE_QUEEN
        } else {
            FEN_BLACK_QUEEN
        }
    } else {
        if white {
            FEN_WHITE_KING
        } else {
            FEN_BLACK_KING
        }
    }
}

/// How an empty square is shown.
pub open spec fn display_symbol(p: Piece) -> char {
    if p.is_empty() {
        '.'
    } else {
        piece_letter(p)
    }
}

/// Character number `k` of the board as a grid. Each rank takes twenty-five
/// characters: a line break, then for each of its eight squares a space, the
/// square's symbol and a space.
pub open spec fn display_char(squares: Seq<Piece>, k: int) -> char {
    let rank = k / 25;
    let offset = k % 25;
    if offset == 0 {
        '\n'
    } else if (offset - 1) % 3 == 1 {
        display_symbol(squares[rank * 8 + (offset - 1) / 3])
    } else {
        ' '
    }
}

/// The board as a grid of eight lines, the eighth rank first.
pub open spec fn display_text(squares: Seq<Piece>) -> Seq<char> {
    Seq::new(200, |k: int| display_char(squares, k))
}

/// The digit for a run of `n` empty squares.
pub open spec fn digit_char(n: int) -> char {
    if n == 1 {
        '1'
    } else if n == 2 {
        '2'
    } else if n == 3 {
        '3'
    } else if n == 4 {
        '4'
    } else if n == 5 {
        '5'
    } else if n == 6 {
        '6'
    } else if n == 7 {
        '7'
    } else {
        '8'
    }
}

/// How a run of `run` empty squares is written: as one digit, or not at all
/// where the run is empty.
pub open spec fn run_text(run: int) -> Seq<char> {
    if run > 0 {
        seq![digit_char(run)]
    } else {
        Seq::empty()
    }
}

/// Rank `r` of a placement field from column `c` on, where the `run` squares
/// before `c` are empty and not yet written.
pub open spec fn rank_text(squares: Seq<Piece>, r: int, c: int, run: int) -> Seq<char>
    decreases 8 - c,
{
    if c >= 8 {
        run_text(run)
    } else if squares[r * 8 + c].is_empty() {
        rank_text(squares, r, c + 1, run + 1)
    } else {
        run_text(run) + seq![piece_letter(squares[r * 8 + c])] + rank_text(squares, r, c + 1, 0)
    }
}

/// The first `n` ranks of a placement field, with a separator between each
/// two.
pub open spec fn ranks_text(squares: Seq<Piece>, n: int) -> Seq<char>
    decreases n,
{
    if n <= 0 {
        Seq::empty()
    } else if n == 1 {
        rank_text(squares, 0, 0, 0)
    } else {
        ranks_text(squares, n - 1) + seq![FEN_NEW_RANK] + rank_text(squares, n - 1, 0, 0)
    }
}

/// The piece-placement field of a placement.
pub open spec fn placement_text(squares: Seq<Piece>) -> Seq<char> {
    ranks_text(squares, 8)
}

/// Reading stops at the first error: once a prefix of a placement field is
/// in error, every longer prefix is in the same error.
pub proof fn lemma_placement_error_stays(field: Seq<char>, k: int, n: int)
    requires
        0 <= k <= n,
        placement_prefix(field, k) is Err,
    ensures
        placement_prefix(field, n) == placement_prefix(field, k),
    decreases n - k,
{
    if k < n {
        lemma_placement_error_stays(field, k, n - 1);
    }
}

/// Reading stops at the first error: once a prefix of a castling field is in
/// error, every longer prefix is in the same error.
pub proof fn lemma_castle_error_stays(field: Seq<char>, k: int, n: int)
    requires
        0 <= k <= n,
        castle_prefix(field, k) is Err,
    ensures
        castle_prefix(field, n) == castle_prefix(field, k),
    decreases n - k,
{
    if k < n {
        lemma_castle_error_stays(field, k, n - 1);
    }
}

/// Skipping white space passes over white space only, and stops at the
/// first character that is none or at the end of the text.
pub proof fn lemma_skip_spaces(s: Seq<char>, i: int)
    requires
        0 <= i <= s.len(),
    ensures
        i <= skip_spaces(s, i) <= s.len(),
        forall|j: int| i <= j < skip_spaces(s, i) ==> is_space(#[trigger] s[j]),
        skip_spaces(s, i) < s.len() ==> !is_space(s[skip_spaces(s, i)]),
    decreases s.len() - i,
{
    if i < s.len() && is_space(s[i]) {
        lemma_skip_spaces(s, i + 1);
    }
}

/// Skipping a field passes over no white space, and stops at the first
/// white space or at the end of the text.
pub proof fn lemma_skip_field(s: Seq<char>, i: int)
    requires
        0 <= i <= s.len(),
    ensures
        i <= skip_field(s, i) <= s.len(),
        forall|j: int| i <= j < skip_field(s, i) ==> !is_space(#[trigger] s[j]),
        skip_field(s, i) < s.len() ==> is_space(s[skip_field(s, i)]),
    decreases s.len() - i,
{
    if i < s.len() && !is_space(s[i]) {
        lemma_skip_field(s, i + 1);
    }
}

/// Where a field starts lies within the text.
pub proof fn lemma_field_start(s: Seq<char>, k: nat)
    ensures
        0 <= field_start(s, k) <= s.len(),
    decreases k,
{
    if k == 0 {
        lemma_skip_spaces(s, 0);
    } else {
        lemma_field_start(s, (k - 1) as nat);
        lemma_skip_field(s, field_start(s, (k - 1) as nat));
        lemma_skip_spaces(s, skip_field(s, field_start(s, (k - 1) as nat)));
    }
}

/// A field is a longest stretch of the text without white space: it is not
/// empty, holds no white space, and is followed by white space or by the
/// end of the text.
pub proof fn lemma_field(s: Seq<char>, k: nat)
    requires
        field(s, k) is Some,
    ensures
        (field(s, k)->0).len() > 0,
        forall|j: int| 0 <= j < (field(s, k)->0).len() ==> !is_space(#[trigger] (field(s, k)->0)[j]),
        skip_field(s, field_start(s, k)) < s.len() ==> is_space(
            s[skip_field(s, field_start(s, k))],
        ),
{
    let start = field_start(s, k);
    lemma_field_start(s, k);
    lemma_skip_field(s, start);
    if k == 0 {
        lemma_skip_spaces(s, 0);
    } else {
        lemma_field_start(s, (k - 1) as nat);
        lemma_skip_field(s, field_start(s, (k - 1) as nat));
        lemma_skip_spaces(s, skip_field(s, field_start(s, (k - 1) as nat)));
    }
    let f = field(s, k)->0;
    assert forall|j: int| 0 <= j < f.len() implies !is_space(#[trigger] f[j]) by {
        assert(f[j] == s[start + j]);
    }
}

/// Character number `i` of a castling field names the right `ty`.
pub open spec fn names_right(field: Seq<char>, i: int, ty: CastleType) -> bool {
    castle_letter(field[i]) == Some(ty)
}

/// The rights read from the first `n` letters of a castling field are the
/// rights that those letters name.
pub proof fn lemma_castle_prefix(field: Seq<char>, n: int, ty: CastleType)
    requires
        0 <= n <= field.len(),
        castle_prefix(field, n) is Ok,
    ensures
        holds_right(castle_prefix(field, n)->Ok_0, ty) <==> exists|i: int|
            0 <= i < n && #[trigger] names_right(field, i, ty),
    decreases n,
{
    if n > 0 {
        let before = castle_prefix(field, n - 1)->Ok_0;
        let named = castle_letter(field[n - 1])->0;
        lemma_castle_prefix(field, n - 1, ty);
        lemma_right_bits(before, named.spec_bit(), ty);
        lemma_right_bits(before, named.spec_bit(), named);
        if named == ty {
            assert(names_right(field, n - 1, ty));
        }
        if exists|i: int| 0 <= i < n && #[trigger] names_right(field, i, ty) {
            let i = choose|i: int| 0 <= i < n && #[trigger] names_right(field, i, ty);
            if i < n - 1 {
                assert(names_right(field, i, ty));
            }
        }
    } else {
        lemma_right_bits(0, 0, ty);
    }
}

/// A castling field that is read without error holds nothing but letters
/// of rights, and none of them twice.
pub proof fn lemma_castle_no_repeat(field: Seq<char>, n: int)
    requires
        0 <= n <= field.len(),
        castle_prefix(field, n) is Ok,
    ensures
        forall|i: int| 0 <= i < n ==> castle_letter(#[trigger] field[i]) is Some,
        forall|i: int, j: int| 0 <= i < j < n ==> #[trigger] field[i] != #[trigger] field[j],
    decreases n,
{
    if n > 0 {
        let before = castle_prefix(field, n - 1)->Ok_0;
        let named = castle_letter(field[n - 1])->0;
        lemma_castle_no_repeat(field, n - 1);
        lemma_castle_prefix(field, n - 1, named);
        lemma_right_bits(before, named.spec_bit(), named);
        assert forall|i: int, j: int| 0 <= i < j < n implies #[trigger] field[i]
            != #[trigger] field[j] by {
            if j == n - 1 && field[i] == field[j] {
                assert(names_right(field, i, named));
            }
        }
    }
}

/// What a castling field grants: a right is granted exactly if the field is
/// missing or one of its letters names the right.
pub proof fn lemma_decode_castle(field: Option<Seq<char>>, ty: CastleType)
    requires
        decode_castle(field) is Ok,
    ensures
        holds_right(decode_castle(field)->Ok_0, ty) <==> (field matches Some(f) ==> exists|
            i: int,
        | 0 <= i < f.len() && #[trigger] names_right(f, i, ty)),
        decode_castle(field)->Ok_0 < 16,
{
    lemma_right_bits(0, 0, ty);
    match field {
        Some(f) => {
            if f.len() == 1 && f[0] == '-' {
                assert forall|i: int| 0 <= i < f.len() implies !#[trigger] names_right(
                    f,
                    i,
                    ty,
                ) by {}
            } else {
                lemma_castle_prefix(f, f.len() as int, ty);
                lemma_castle_in_range(f, f.len() as int);
            }
        },
        None => {},
    }
}

/// The rights read from a castling field lie within the four bits.
pub proof fn lemma_castle_in_range(field: Seq<char>, n: int)
    requires
        0 <= n <= field.len(),
        castle_prefix(field, n) is Ok,
    ensures
        castle_prefix(field, n)->Ok_0 < 16,
    decreases n,
{
    if n > 0 {
        lemma_castle_in_range(field, n - 1);
        lemma_add_right(
            castle_prefix(field, n - 1)->Ok_0,
            (castle_letter(field[n - 1])->0).spec_bit(),
        );
    }
}

/// The characters of a string, one by one.
pub fn chars_of(s: &str) -> (v: Vec<char>)
    ensures
        v@ == s@,
{
    let mut v: Vec<char> = Vec::new();
    for c in it: s.chars()
        invariant
            it.seq() == s@,
            v@ == it.seq().take(it.index() as int),
    {
        v.push(c);
        assert(v@ =~= it.seq().take(it.index() + 1));
    }
    assert(v@ =~= s@);
    v
}

/// True on ASCII white space.
fn is_space_char(c: char) -> (r: bool)
    ensures
        r == is_space(c),
{
    c == ' ' || c == '\t' || c == '\n' || c == '\x0C' || c == '\r'
}

/// The end of the white space that starts at `from`.
fn skip_spaces_from(chars: &Vec<char>, from: usize) -> (i: usize)
    requires
        from <= chars@.len(),
    ensures
        i == skip_spaces(chars@, from as int),
        from <= i <= chars@.len(),
{
    let mut i: usize = from;
    while i < chars.len() && is_space_char(chars[i])
        invariant
            from <= i <= chars@.len(),
            skip_spaces(chars@, from as int) == skip_spaces(chars@, i as int),
        decreases chars@.len() - i,
    {
        i += 1;
    }
    i
}

/// The end of the field that starts at `from`.
fn skip_field_from(chars: &Vec<char>, from: usize) -> (i: usize)
    requires
        from <= chars@.len(),
    ensures
        i == skip_field(chars@, from as int),
        from <= i <= chars@.len(),
{
    let mut i: usize = from;
    while i < chars.len() && !is_space_char(chars[i])
        invariant
            from <= i <= chars@.len(),
            skip_field(chars@, from as int) == skip_field(chars@, i as int),
        decreases chars@.len() - i,
    {
        i += 1;
    }
    i
}

/// The piece that a letter stands for.
fn piece_of_letter(c: char) -> (r: Option<Piece>)
    ensures
        r == letter_piece(c),
        r matches Some(p) ==> p.wf() && !p.is_empty(),
{
    if c == FEN_WHITE_PAWN {
        Some(Piece::new_unchecked(Piece::WHITE, Piece::PAWN))
    } else if c == FEN_WHITE_KNIGHT {
        Some(Piece::new_unchecked(Piece::WHITE, Piece::KNIGHT))
    } else if c == FEN_WHITE_BISHOP {
        Some(Piece::new_unchecked(Piece::WHITE, Piece::BISHOP))
    } else if c == FEN_WHITE_ROOK {
        Some(Piece::new_unchecked(Piece::WHITE, Piece::ROOK))
    } else if c == FEN_WHITE_QUEEN {
        Some(Piece::new_unchecked(Piece::WHITE, Piece::QUEEN))
    } else if c == FEN_WHITE_KING {
        Some(Piece::new_unchecked(Piece::WHITE, Piece::KING))
    } else if c == FEN_BLACK_PAWN {
        Some(Piece::new_unchecked(Piece::BLACK, Piece::PAWN))
    } else if c == FEN_BLACK_KNIGHT {
        Some(Piece::new_unchecked(Piece::BLACK, Piece::KNIGHT))
    } else if c == FEN_BLACK_BISHOP {
        Some(Piece::new_unchecked(Piece::BLACK, Piece::BISHOP))
    } else if c == FEN_BLACK_ROOK {
        Some(Piece::new_unchecked(Piece::BLACK, Piece::ROOK))
    } else if c == FEN_BLACK_QUEEN {
        Some(Piece::new_unchecked(Piece::BLACK, Piece::QUEEN))
    } else if c == FEN_BLACK_KING {
        Some(Piece::new_unchecked(Piece::BLACK, Piece::KING))
    } else {
        None
    }
}

/// The count that a digit stands for.
fn value_of_digit(c: char) -> (r: Option<usize>)
    ensures
        r is Some <==> digit_value(c) is Some,
        r matches Some(n) ==> digit_value(c) == Some(n as int) && 1 <= n <= 9,
{
    if c == '1' {
        Some(1)
    } else if c == '2' {
        Some(2)
    } else if c == '3' {
        Some(3)
    } else if c == '4' {
        Some(4)
    } else if c == '5' {
        Some(5)
    } else if c == '6' {
        Some(6)
    } else if c == '7' {
        Some(7)
    } else if c == '8' {
        Some(8)
    } else if c == '9' {
        Some(9)
    } else {
        None
    }
}

/// Reads a piece-placement field.
pub fn parse_position(field: &str) -> (r: Result<[Piece; 64], FenError>)
    ensures
        r matches Ok(pieces) ==> decode_placement(field@) == Ok::<Seq<Piece>, FenErrorView>(pieces@)
            && placement_wf(pieces@),
        r matches Err(e) ==> decode_placement(field@) == Err::<Seq<Piece>, FenErrorView>(e@),
{
    let chars = chars_of(field);
    let mut pieces: [Piece; 64] = [Piece::none();64];
    let mut index: usize = 0;
    let mut i: usize = 0;
    proof {
        Piece::lemma_none();
        assert(pieces@.take(0) =~= Seq::<Piece>::empty());
    }
    while i < chars.len()
        invariant
            chars@ == field@,
            i <= chars@.len(),
            index <= 64,
            placement_prefix(chars@, i as int) == Ok::<Seq<Piece>, FenErrorView>(
                pieces@.take(index as int),
            ),
            forall|j: int| index <= j < 64 ==> pieces@[j] == Piece::spec_none(),
            forall|j: int| 0 <= j < 64 ==> (#[trigger] pieces@[j]).wf(),
        decreases chars@.len() - i,
    {
        let c = chars[i];
        let ghost sofar = pieces@.take(index as int);
        if let Some(p) = piece_of_letter(c) {
            if index >= 64 {
                proof {
                    lemma_placement_error_stays(chars@, i + 1, chars@.len() as int);
                }
                return Err(FenError::TooManySquares { symbol: c });
            }
            pieces[index] = p;
            index += 1;
            assert(pieces@.take(index as int) =~= sofar.push(p));
        } else if let Some(n) = value_of_digit(c) {
            if n > 8 - index % 8 {
                proof {
                    lemma_placement_error_stays(chars@, i + 1, chars@.len() as int);
                }
                return Err(FenError::TooManyEmpty { digit: c });
            }
            if index + n > 64 {
                proof {
                    lemma_placement_error_stays(chars@, i + 1, chars@.len() as int);
                }
                return Err(FenError::TooManySquares { symbol: c });
            }
            index += n;
            assert(pieces@.take(index as int) =~= sofar + empties(n as int));
        } else if c == FEN_NEW_RANK {
            if index % 8 != 0 {
                proof {
                    lemma_placement_error_stays(chars@, i + 1, chars@.len() as int);
                }
                return Err(FenError::RankNotDone);
            }
        } else {
            proof {
                lemma_placement_error_stays(chars@, i + 1, chars@.len() as int);
            }
            return Err(FenError::UnexpectedSymbol { symbol: c });
        }
        i += 1;
    }
    if index != 64 {
        return Err(FenError::TooFewSquares);
    }
    assert(pieces@.take(64) =~= pieces@);
    Ok(pieces)
}

/// Reads the side-to-move field. A field that is not a single character is
/// handed back in the error.
pub fn parse_turn_field(field: &str) -> (r: Result<u16, FenError>)
    ensures
        r matches Ok(turn) ==> decode_turn(field@) == Ok::<u16, FenErrorView>(turn),
        r matches Err(e) ==> decode_turn(field@) == Err::<u16, FenErrorView>(e@),
{
    let chars = chars_of(field);
    if chars.len() != 1 {
        return Err(FenError::TurnFieldLength { field: String::from_str(field) });
    }
    let c = chars[0];
    if c == FEN_WHITE {
        Ok(Piece::WHITE)
    } else if c == FEN_BLACK {
        Ok(Piece::BLACK)
    } else {
        Err(FenError::UnknownTurn { symbol: c })
    }
}

/// The castling right that a letter names.
fn castle_of_letter(c: char) -> (r: Option<CastleType>)
    ensures
        r == castle_letter(c),
{
    if c == FEN_BLACK_QUEEN {
        Some(CastleType::BlackLong)
    } else if c == FEN_BLACK_KING {
        Some(CastleType::BlackShort)
    } else if c == FEN_WHITE_QUEEN {
        Some(CastleType::WhiteLong)
    } else if c == FEN_WHITE_KING {
        Some(CastleType::WhiteShort)
    } else {
        None
    }
}

/// Adding one right to a set of rights keeps the set within the four bits.
proof fn lemma_add_right(rights: u8, bit: u8)
    requires
        rights < 16,
        bit == 1 || bit == 2 || bit == 4 || bit == 8,
    ensures
        rights | bit < 16,
{
    assert(rights | bit < 16) by (bit_vector)
        requires
            rights < 16,
            bit == 1 || bit == 2 || bit == 4 || bit == 8,
    ;
}

/// Reads the castling-rights field; `None` stands for a missing field.
pub fn parse_castle_field(field: Option<&str>) -> (r: Result<u8, FenError>)
    ensures
        r matches Ok(rights) ==> rights < 16 && decode_castle(field_view(field)) == Ok::<
            u8,
            FenErrorView,
        >(rights),
        r matches Err(e) ==> decode_castle(field_view(field)) == Err::<u8, FenErrorView>(e@),
{
    let chars = match field {
        Some(f) => chars_of(f),
        None => {
            return Ok(CastleType::BITS_ALL);
        },
    };
    if chars.len() == 1 && chars[0] == '-' {
        return Ok(0);
    }
    let mut rights: u8 = 0;
    let mut i: usize = 0;
    while i < chars.len()
        invariant
            field matches Some(f) && chars@ == f@,
            !(chars@.len() == 1 && chars@[0] == '-'),
            i <= chars@.len(),
            rights < 16,
            castle_prefix(chars@, i as int) == Ok::<u8, FenErrorView>(rights),
        decreases chars@.len() - i,
    {
        let c = chars[i];
        match castle_of_letter(c) {
            Some(ty) => {
                let bit = ty.get_bit();
                if rights & bit == bit {
                    proof {
                        lemma_castle_error_stays(chars@, i + 1, chars@.len() as int);
                    }
                    return Err(FenError::DuplicateCastleRight { symbol: c });
                }
                proof {
                    lemma_add_right(rights, bit);
                }
                rights = rights | bit;
            },
            None => {
                proof {
                    lemma_castle_error_stays(chars@, i + 1, chars@.len() as int);
                }
                return Err(FenError::UnexpectedCastleSymbol { symbol: c });
            },
        }
        i += 1;
    }
    Ok(rights)
}

/// Reads a position. The placement and the side to move must be there; a
/// missing castling field grants all four rights.
pub fn parse_board(fen: &str) -> (r: Result<Board, FenError>)
    ensures
        r matches Ok(board) ==> parse(fen@) == Ok::<Position, FenErrorView>(board@) && board@.wf(),
        r matches Err(e) ==> parse(fen@) == Err::<Position, FenErrorView>(e@),
{
    let chars = chars_of(fen);
    proof {
        reveal_with_fuel(field_start, 3);
    }
    let start0 = skip_spaces_from(&chars, 0);
    if start0 >= chars.len() {
        return Err(FenError::Empty);
    }
    let end0 = skip_field_from(&chars, start0);
    let start1 = skip_spaces_from(&chars, end0);
    if start1 >= chars.len() {
        return Err(FenError::MissingTurn);
    }
    let end1 = skip_field_from(&chars, start1);
    let start2 = skip_spaces_from(&chars, end1);
    let castle_field = if start2 < chars.len() {
        let end2 = skip_field_from(&chars, start2);
        Some(fen.substring_char(start2, end2))
    } else {
        None
    };
    let pieces = match parse_position(fen.substring_char(start0, end0)) {
        Ok(pieces) => pieces,
        Err(e) => {
            return Err(e);
        },
    };
    let turn = match parse_turn_field(fen.substring_char(start1, end1)) {
        Ok(turn) => turn,
        Err(e) => {
            return Err(e);
        },
    };
    let castle_rights = match parse_castle_field(castle_field) {
        Ok(rights) => rights,
        Err(e) => {
            return Err(e);
        },
    };
    Ok(Board::new(pieces, turn, castle_rights))
}

/// The letter of a piece, a space for the empty square. The piece must be
/// a legal encoding.
pub fn fen_char(p: &Piece) -> (c: char)
    requires
        p.wf(),
    ensures
        c == piece_letter(*p),
{
    proof {
        p.lemma_wf_cases();
    }
    if p.is_none() {
        return ' ';
    }
    let white = p.color() == Piece::WHITE;
    let kind = p.kind();
    if kind == Piece::PAWN {
        if white {
            FEN_WHITE_PAWN
        } else {
            FEN_BLACK_PAWN
        }
    } else if kind == Piece::KNIGHT {
        if white {
            FEN_WHITE_KNIGHT
        } else {
            FEN_BLACK_KNIGHT
        }
    } else if kind == Piece::BISHOP {
        if white {
            FEN_WHITE_BISHOP
        } else {
            FEN_BLACK_BISHOP
        }
    } else if kind == Piece::ROOK {
        if white {
            FEN_WHITE_ROOK
        } else {
            FEN_BLACK_ROOK
        }
    } else if kind == Piece::QUEEN {
        if white {
            FEN_WHITE_QUEEN
        } else {
            FEN_BLACK_QUEEN
        }
    } else {
        if white {
            FEN_WHITE_KING
        } else {
            FEN_BLACK_KING
        }
    }
}

/// The digit for a run of `n` empty squares.
fn digit_of(n: usize) -> (c: char)
    requires
        1 <= n <= 8,
    ensures
        c == digit_char(n as int),
{
    if n == 1 {
        '1'
    } else if n == 2 {
        '2'
    } else if n == 3 {
        '3'
    } else if n == 4 {
        '4'
    } else if n == 5 {
        '5'
    } else if n == 6 {
        '6'
    } else if n == 7 {
        '7'
    } else {
        '8'
    }
}

/// Appends rank `r` of the board to a placement field.
fn push_rank(board: &Board, r: usize, out: &mut String)
    requires
        r < 8,
        placement_wf(board@.squares),
    ensures
        final(out)@ == old(out)@ + rank_text(board@.squares, r as int, 0, 0),
{
    let mut c: usize = 0;
    let mut run: usize = 0;
    while c < 8
        invariant
            r < 8,
            c <= 8,
            run <= c,
            placement_wf(board@.squares),
            old(out)@ + rank_text(board@.squares, r as int, 0, 0) == out@ + rank_text(
                board@.squares,
                r as int,
                c as int,
                run as int,
            ),
        decreases 8 - c,
    {
        let ghost before = out@;
        let ghost rest = rank_text(board@.squares, r as int, c as int, run as int);
        let p = board.piece_at(r * 8 + c);
        if p.is_none() {
            run += 1;
        } else {
            if run > 0 {
                out.push(digit_of(run));
            }
            out.push(fen_char(&p));
            run = 0;
            assert(before + rest =~= out@ + rank_text(board@.squares, r as int, c + 1, 0));
        }
        c += 1;
    }
    let ghost before = out@;
    if run > 0 {
        out.push(digit_of(run));
    }
    assert(out@ =~= before + run_text(run as int));
}

impl Board {
    /// The board as a grid of eight lines, the eighth rank first: a dot for
    /// an empty square, its letter for a piece. Every square must hold a
    /// legal encoding.
    pub fn to_display_string(&self) -> (text: String)
        requires
            placement_wf(self@.squares),
        ensures
            text@ == display_text(self@.squares),
    {
        let mut out = String::new();
        let mut r: usize = 0;
        assert(out@ =~= display_text(self@.squares).take(0));
        while r < 8
            invariant
                r <= 8,
                placement_wf(self@.squares),
                out@ == display_text(self@.squares).take(25 * r),
            decreases 8 - r,
        {
            out.push('\n');
            assert(out@ =~= display_text(self@.squares).take(25 * r + 1));
            let mut c: usize = 0;
            while c < 8
                invariant
                    r < 8,
                    c <= 8,
                    placement_wf(self@.squares),
                    out@ == display_text(self@.squares).take(25 * r + 1 + 3 * c),
                decreases 8 - c,
            {
                let p = self.piece_at(r * 8 + c);
                let symbol = if p.is_none() {
                    '.'
                } else {
                    fen_char(&p)
                };
                out.push(' ');
                out.push(symbol);
                out.push(' ');
                assert(out@ =~= display_text(self@.squares).take(25 * r + 1 + 3 * (c + 1)));
                c += 1;
            }
            r += 1;
        }
        assert(out@ =~= display_text(self@.squares));
        out
    }

    /// The piece-placement field that describes the board: the ranks from
    /// the eighth to the first, each with its pieces as letters and its runs
    /// of empty squares as digits. Every square must hold a legal encoding.
    pub fn placement_field(&self) -> (text: String)
        requires
            placement_wf(self@.squares),
        ensures
            text@ == placement_text(self@.squares),
    {
        let mut out = String::new();
        push_rank(self, 0, &mut out);
        assert(out@ =~= ranks_text(self@.squares, 1));
        let mut r: usize = 1;
        while r < 8
            invariant
                1 <= r <= 8,
                placement_wf(self@.squares),
                out@ == ranks_text(self@.squares, r as int),
            decreases 8 - r,
        {
            out.push(FEN_NEW_RANK);
            push_rank(self, r, &mut out);
            r += 1;
        }
        out
    }
}

/// A text made of a beginning, one character and an end.
fn text_around(before: &str, c: char, after: &str) -> (text: String)
    ensures
        text@ == before@.push(c) + after@,
{
    let mut text = String::from_str(before);
    text.push(c);
    text.append(after);
    text
}

impl FenErrorView {
    /// What the message says: the field or the character at fault, and the
    /// rule it breaks.
    pub open spec fn message_text(self) -> Seq<char> {
        match self {
            FenErrorView::Empty => "non-empty fen string expected"@,
            FenErrorView::MissingTurn => "fen string expected to have at least first two fields"@,
            FenErrorView::TooManyEmpty { digit } => "there aren't "@.push(digit)
                + " empty fields left in the current rank!"@,
            FenErrorView::RankNotDone => "rank not yet done at rank delimiter '"@.push(
                FEN_NEW_RANK,
            ) + "'"@,
            FenErrorView::UnexpectedSymbol { symbol } => "unexpected character '"@.push(symbol)
                + "' in position field!"@,
            FenErrorView::TooManySquares { symbol } => "no square left for '"@.push(symbol)
                + "' in position field!"@,
            FenErrorView::TooFewSquares => "position field ends before the last square!"@,
            FenErrorView::TurnFieldLength { field } => "illegal second (turn) field '"@ + field
                + "'; one of "@.push(FEN_WHITE) + " or "@.push(FEN_BLACK) + " expected"@,
            FenErrorView::UnknownTurn { symbol } => "expected '"@.push(FEN_WHITE) + "' or '"@.push(
                FEN_BLACK,
            ) + "' as second field, not '"@.push(symbol) + "'!"@,
            FenErrorView::DuplicateCastleRight { symbol } => "fen contains castle right '"@.push(
                symbol,
            ) + "' twice!"@,
            FenErrorView::UnexpectedCastleSymbol { symbol } => "unexpected character '"@.push(
                symbol,
            ) + "' in castle rights field"@,
        }
    }
}

impl FenError {
    /// The error as a message for the user.
    pub fn message(&self) -> (text: String)
        ensures
            text@ == self@.message_text(),
    {
        match self {
            FenError::Empty => String::from_str("non-empty fen string expected"),
            FenError::MissingTurn => String::from_str(
                "fen string expected to have at least first two fields",
            ),
            FenError::TooManyEmpty { digit } => text_around(
                "there aren't ",
                *digit,
                " empty fields left in the current rank!",
            ),
            FenError::RankNotDone => text_around(
                "rank not yet done at rank delimiter '",
                FEN_NEW_RANK,
                "'",
            ),
            FenError::UnexpectedSymbol { symbol } => text_around(
                "unexpected character '",
                *symbol,
                "' in position field!",
            ),
            FenError::TooManySquares { symbol } => text_around(
                "no square left for '",
                *symbol,
                "' in position field!",
            ),
            FenError::TooFewSquares => String::from_str(
                "position field ends before the last square!",
            ),
            FenError::TurnFieldLength { field } => {
                let mut text = String::from_str("illegal second (turn) field '");
                text.append(field.as_str());
                text.append("'; one of ");
                text.push(FEN_WHITE);
                text.append(" or ");
                text.push(FEN_BLACK);
                text.append(" expected");
                text
            },
            FenError::UnknownTurn { symbol } => {
                let mut text = String::from_str("expected '");
                text.push(FEN_WHITE);
                text.append("' or '");
                text.push(FEN_BLACK);
                text.append("' as second field, not '");
                text.push(*symbol);
                text.append("'!");
                text
            },
            FenError::DuplicateCastleRight { symbol } => text_around(
                "fen contains castle right '",
                *symbol,
                "' twice!",
            ),
            FenError::UnexpectedCastleSymbol { symbol } => text_around(
                "unexpected character '",
                *symbol,
                "' in castle rights field",
            ),
        }
    }
}

} // verus!
