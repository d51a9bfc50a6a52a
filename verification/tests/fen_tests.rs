use chess_core::board::Board;
use chess_core::fen::{
    chars_of, fen_char, parse_board, parse_castle_field, parse_position, parse_turn_field,
    FenError, FEN_BLACK, FEN_BLACK_BISHOP, FEN_BLACK_KING, FEN_BLACK_KNIGHT, FEN_BLACK_PAWN,
    FEN_BLACK_QUEEN, FEN_BLACK_ROOK, FEN_NEW_RANK, FEN_WHITE, FEN_WHITE_BISHOP, FEN_WHITE_KING,
    FEN_WHITE_KNIGHT, FEN_WHITE_PAWN, FEN_WHITE_QUEEN, FEN_WHITE_ROOK, STARTING_FEN,
};
use chess_core::piece::Piece;

const STARTING_PLACEMENT: &str = "rnbqkbnr/pppppppp/8/8/8/8/PPPPPPPP/RNBQKBNR";

fn piece(color: u16, kind: u16) -> Piece {
    Piece::new_unchecked(color, kind)
}

fn turn_field_length(field: &str) -> FenError {
    FenError::TurnFieldLength { field: field.to_string() }
}

fn starting_pieces() -> [Piece; 64] {
    let back = [
        Piece::ROOK,
        Piece::KNIGHT,
        Piece::BISHOP,
        Piece::QUEEN,
        Piece::KING,
        Piece::BISHOP,
        Piece::KNIGHT,
        Piece::ROOK,
    ];
    let mut pieces = [Piece::none(); 64];
    for file in 0..8 {
        pieces[file] = piece(Piece::BLACK, back[file]);
        pieces[8 + file] = piece(Piece::BLACK, Piece::PAWN);
        pieces[48 + file] = piece(Piece::WHITE, Piece::PAWN);
        pieces[56 + file] = piece(Piece::WHITE, back[file]);
    }
    pieces
}

#[test]
fn starting_position_is_read() {
    let board: Board = parse_board(STARTING_FEN).unwrap();
    assert_eq!(board.pieces(), starting_pieces());
    assert_eq!(board.turn(), Piece::WHITE);
    assert_eq!(board.castle_rights(), 0b1111);
    assert_eq!(board.en_passant_target(), None);
    assert!(board.is_wf());
}

#[test]
fn starting_placement_round_trips() {
    let board = parse_board(STARTING_FEN).unwrap();
    assert_eq!(board.placement_field(), STARTING_PLACEMENT);
}

#[test]
fn placements_round_trip() {
    let fields = [
        "8/8/8/8/8/8/8/8",
        "r1bqkbnr/pppp1ppp/2n5/4p3/4P3/5N2/PPPP1PPP/RNBQKB1R",
        "r3k2r/8/8/8/8/8/8/R3K2R",
        "1p1p1p1p/p1p1p1p1/7k/K7/3Q4/8/PPPPPPPP/pppppppp",
        "k6K/8/8/8/8/8/8/7q",
    ];
    for field in fields {
        let pieces = parse_position(field).unwrap();
        let board = Board::new(pieces, Piece::WHITE, 0);
        assert_eq!(board.placement_field(), field);
    }
}

#[test]
fn placement_field_is_written_in_the_shortest_form() {
    // Ranks without separators and split runs of empty squares are read,
    // and written back in the usual form.
    let pieces = parse_position("44/111111115p2/8/8/8/8/8").unwrap();
    let board = Board::new(pieces, Piece::WHITE, 0);
    assert_eq!(board.placement_field(), "8/8/5p2/8/8/8/8/8");
}

#[test]
fn missing_turn_field_is_an_error() {
    assert_eq!(parse_board("8/8/8/8/8/8/8").err(), Some(FenError::MissingTurn));
    assert_eq!(parse_board(STARTING_PLACEMENT).err(), Some(FenError::MissingTurn));
    assert_eq!(parse_board("  8/8/8/8/8/8/8/8  ").err(), Some(FenError::MissingTurn));
}

#[test]
fn digit_nine_is_an_error() {
    assert_eq!(
        parse_board("rnbqkbnr/pppppppp/9/8/8/8/PPPPPPPP/RNBQKBNR w").err(),
        Some(FenError::TooManyEmpty { digit: '9' })
    );
}

#[test]
fn invalid_turn_character_is_an_error() {
    assert_eq!(
        parse_board("rnbqkbnr/pppppppp/8/8/8/8/PPPPPPPP/RNBQKBNR x").err(),
        Some(FenError::UnknownTurn { symbol: 'x' })
    );
}

#[test]
fn duplicate_castle_right_is_an_error() {
    assert_eq!(
        parse_board("rnbqkbnr/pppppppp/8/8/8/8/PPPPPPPP/RNBQKBNR w KQKQ").err(),
        Some(FenError::DuplicateCastleRight { symbol: 'K' })
    );
}

#[test]
fn malformed_fixtures_give_distinct_errors() {
    let errors = [
        parse_board("8/8/8/8/8/8/8").unwrap_err(),
        parse_board("rnbqkbnr/pppppppp/9/8/8/8/PPPPPPPP/RNBQKBNR w").unwrap_err(),
        parse_board("rnbqkbnr/pppppppp/8/8/8/8/PPPPPPPP/RNBQKBNR x").unwrap_err(),
        parse_board("rnbqkbnr/pppppppp/8/8/8/8/PPPPPPPP/RNBQKBNR w KQKQ").unwrap_err(),
    ];
    for i in 0..errors.len() {
        for j in 0..errors.len() {
            if i != j {
                assert_ne!(errors[i], errors[j]);
                assert_ne!(errors[i].message(), errors[j].message());
            }
        }
    }
}

#[test]
fn empty_text_is_an_error() {
    assert_eq!(parse_board("").err(), Some(FenError::Empty));
    assert_eq!(parse_board("   ").err(), Some(FenError::Empty));
    assert_eq!(parse_board(" \t\r\n\x0c").err(), Some(FenError::Empty));
}

#[test]
fn too_many_empty_squares_is_an_error() {
    assert_eq!(
        parse_position("ppppp4/8/8/8/8/8/8/8").err(),
        Some(FenError::TooManyEmpty { digit: '4' })
    );
    assert_eq!(parse_position("71p/8/8/8/8/8/8").err(), Some(FenError::RankNotDone));
    assert_eq!(
        parse_position("6p2/8/8/8/8/8/8/8").err(),
        Some(FenError::TooManyEmpty { digit: '2' })
    );
    assert_eq!(parse_position("7p1/8/8/8/8/8/8/8").err(), Some(FenError::RankNotDone));
    assert_eq!(parse_position("p8").err(), Some(FenError::TooManyEmpty { digit: '8' }));
    assert_eq!(parse_position("p7").map(|_| ()).err(), Some(FenError::TooFewSquares));
}

#[test]
fn rank_ended_early_is_an_error() {
    assert_eq!(
        parse_position("rnbqkbn/pppppppp/8/8/8/8/PPPPPPPP/RNBQKBNR").err(),
        Some(FenError::RankNotDone)
    );
    assert_eq!(parse_position("7/8/8/8/8/8/8/8").err(), Some(FenError::RankNotDone));
    assert_eq!(parse_position("8/8/8/8/8/8/8/7/").err(), Some(FenError::RankNotDone));
}

#[test]
fn unrecognized_symbol_is_an_error() {
    assert_eq!(
        parse_position("rnbqkbnr/pppppppp/8/8/8/8/PPPPxPPP/RNBQKBNR").err(),
        Some(FenError::UnexpectedSymbol { symbol: 'x' })
    );
    assert_eq!(parse_position("0").err(), Some(FenError::UnexpectedSymbol { symbol: '0' }));
    assert_eq!(parse_position("8/8/8/8/8/8/8/8-").err(), Some(FenError::UnexpectedSymbol { symbol: '-' }));
    assert_eq!(parse_position("é").err(), Some(FenError::UnexpectedSymbol { symbol: 'é' }));
}

#[test]
fn first_error_is_reported() {
    assert_eq!(parse_position("x9").err(), Some(FenError::UnexpectedSymbol { symbol: 'x' }));
    assert_eq!(parse_position("9x").err(), Some(FenError::TooManyEmpty { digit: '9' }));
    assert_eq!(parse_position("p/x").err(), Some(FenError::RankNotDone));
    // The placement is read before the side to move, and that before the rights.
    assert_eq!(parse_board("8/8 x KK").err(), Some(FenError::TooFewSquares));
    assert_eq!(
        parse_board("8/8/8/8/8/8/8/8 x KK").err(),
        Some(FenError::UnknownTurn { symbol: 'x' })
    );
    assert_eq!(
        parse_board("8/8/8/8/8/8/8/8 w KK").err(),
        Some(FenError::DuplicateCastleRight { symbol: 'K' })
    );
}

#[test]
fn too_many_squares_is_an_error() {
    assert_eq!(
        parse_position("8/8/8/8/8/8/8/8/p").err(),
        Some(FenError::TooManySquares { symbol: 'p' })
    );
    assert_eq!(
        parse_position("8/8/8/8/8/8/8/8/1").err(),
        Some(FenError::TooManySquares { symbol: '1' })
    );
    assert_eq!(
        parse_position("rnbqkbnr/pppppppp/8/8/8/8/PPPPPPPP/RNBQKBNRR").err(),
        Some(FenError::TooManySquares { symbol: 'R' })
    );
}

#[test]
fn too_few_squares_is_an_error() {
    assert_eq!(parse_position("8/8/8/8/8/8/8").err(), Some(FenError::TooFewSquares));
    assert_eq!(parse_position("").err(), Some(FenError::TooFewSquares));
    assert_eq!(parse_position("8/8/8/8/8/8/8/7").err(), Some(FenError::TooFewSquares));
    assert_eq!(parse_board("8/8/8/8/8/8/8 w").err(), Some(FenError::TooFewSquares));
}

#[test]
fn separators_are_needed_only_between_full_ranks() {
    let with = parse_position("8/8/8/8/8/8/8/8").unwrap();
    assert_eq!(parse_position("88888888").unwrap(), with);
    assert_eq!(parse_position("/8/8//8/8/8/8/8/8/").unwrap(), with);
    assert_eq!(with, [Piece::none(); 64]);
}

#[test]
fn turn_field_is_w_or_b() {
    assert_eq!(parse_turn_field("w"), Ok(Piece::WHITE));
    assert_eq!(parse_turn_field("b"), Ok(Piece::BLACK));
    assert_eq!(parse_turn_field("W"), Err(FenError::UnknownTurn { symbol: 'W' }));
    assert_eq!(parse_turn_field("-"), Err(FenError::UnknownTurn { symbol: '-' }));
    assert_eq!(parse_turn_field("é"), Err(FenError::UnknownTurn { symbol: 'é' }));
    assert_eq!(parse_turn_field(""), Err(turn_field_length("")));
    assert_eq!(parse_turn_field("ww"), Err(turn_field_length("ww")));
    assert_eq!(parse_turn_field("white"), Err(turn_field_length("white")));
    assert_eq!(parse_turn_field("éé"), Err(turn_field_length("éé")));
    assert_eq!(parse_board("8/8/8/8/8/8/8/8 wb").err(), Some(turn_field_length("wb")));
    assert_eq!(
        parse_board("  8/8/8/8/8/8/8/8 \t black\tKQkq - 0 1").err(),
        Some(turn_field_length("black"))
    );
    assert_eq!(parse_board("8/8/8/8/8/8/8/8 b").unwrap().turn(), Piece::BLACK);
}

#[test]
fn castle_field_names_the_rights() {
    assert_eq!(parse_castle_field(None), Ok(0b1111));
    assert_eq!(parse_castle_field(Some("-")), Ok(0));
    assert_eq!(parse_castle_field(Some("KQkq")), Ok(0b1111));
    assert_eq!(parse_castle_field(Some("qkQK")), Ok(0b1111));
    assert_eq!(parse_castle_field(Some("K")), Ok(0b1000));
    assert_eq!(parse_castle_field(Some("Q")), Ok(0b0100));
    assert_eq!(parse_castle_field(Some("k")), Ok(0b0010));
    assert_eq!(parse_castle_field(Some("q")), Ok(0b0001));
    assert_eq!(parse_castle_field(Some("Kq")), Ok(0b1001));
    assert_eq!(parse_castle_field(Some("")), Ok(0));
}

#[test]
fn castle_field_errors() {
    assert_eq!(
        parse_castle_field(Some("KQKQ")),
        Err(FenError::DuplicateCastleRight { symbol: 'K' })
    );
    assert_eq!(
        parse_castle_field(Some("kqq")),
        Err(FenError::DuplicateCastleRight { symbol: 'q' })
    );
    assert_eq!(
        parse_castle_field(Some("KQx")),
        Err(FenError::UnexpectedCastleSymbol { symbol: 'x' })
    );
    assert_eq!(
        parse_castle_field(Some("K-")),
        Err(FenError::UnexpectedCastleSymbol { symbol: '-' })
    );
    assert_eq!(
        parse_castle_field(Some("--")),
        Err(FenError::UnexpectedCastleSymbol { symbol: '-' })
    );
    assert_eq!(
        parse_castle_field(Some("xKK")),
        Err(FenError::UnexpectedCastleSymbol { symbol: 'x' })
    );
}

#[test]
fn missing_castle_field_grants_all_rights() {
    let board = parse_board("rnbqkbnr/pppppppp/8/8/8/8/PPPPPPPP/RNBQKBNR w").unwrap();
    assert_eq!(board.castle_rights(), 0b1111);
    let none = parse_board("rnbqkbnr/pppppppp/8/8/8/8/PPPPPPPP/RNBQKBNR w -").unwrap();
    assert_eq!(none.castle_rights(), 0);
    let some = parse_board("rnbqkbnr/pppppppp/8/8/8/8/PPPPPPPP/RNBQKBNR b Qk").unwrap();
    assert_eq!(some.castle_rights(), 0b0110);
    assert_eq!(some.turn(), Piece::BLACK);
}

#[test]
fn fields_are_separated_by_any_ascii_white_space() {
    let a = parse_board(STARTING_FEN).unwrap();
    let b = parse_board("  rnbqkbnr/pppppppp/8/8/8/8/PPPPPPPP/RNBQKBNR\t\tw \r\n KQkq\x0c-   ").unwrap();
    assert_eq!(a.pieces(), b.pieces());
    assert_eq!(a.turn(), b.turn());
    assert_eq!(a.castle_rights(), b.castle_rights());
}

#[test]
fn fields_after_the_third_are_not_read() {
    let board = parse_board("rnbqkbnr/pppppppp/8/8/4P3/8/PPPP1PPP/RNBQKBNR b KQkq e3 0 1").unwrap();
    assert_eq!(board.en_passant_target(), None);
    let odd = parse_board("8/8/8/8/8/8/8/8 w - ??? x y z").unwrap();
    assert_eq!(odd.pieces(), [Piece::none(); 64]);
}

#[test]
fn letters_stand_for_pieces() {
    let cases = [
        ('P', Piece::WHITE, Piece::PAWN),
        ('N', Piece::WHITE, Piece::KNIGHT),
        ('B', Piece::WHITE, Piece::BISHOP),
        ('R', Piece::WHITE, Piece::ROOK),
        ('Q', Piece::WHITE, Piece::QUEEN),
        ('K', Piece::WHITE, Piece::KING),
        ('p', Piece::BLACK, Piece::PAWN),
        ('n', Piece::BLACK, Piece::KNIGHT),
        ('b', Piece::BLACK, Piece::BISHOP),
        ('r', Piece::BLACK, Piece::ROOK),
        ('q', Piece::BLACK, Piece::QUEEN),
        ('k', Piece::BLACK, Piece::KING),
    ];
    for (letter, color, kind) in cases {
        assert_eq!(fen_char(&piece(color, kind)), letter);
        let field = format!("{letter}7/8/8/8/8/8/8/8");
        let pieces = parse_position(&field).unwrap();
        assert_eq!(pieces[0], piece(color, kind));
        assert_eq!(pieces[1], Piece::none());
    }
    assert_eq!(fen_char(&Piece::none()), ' ');
}

#[test]
fn digits_stand_for_runs_of_empty_squares() {
    for n in 1..=8usize {
        let mut field = format!("{n}");
        for _ in n..8 {
            field.push('p');
        }
        field.push_str("/8/8/8/8/8/8/8");
        let pieces = parse_position(&field).unwrap();
        for file in 0..8 {
            if file < n {
                assert_eq!(pieces[file], Piece::none());
            } else {
                assert_eq!(pieces[file], piece(Piece::BLACK, Piece::PAWN));
            }
        }
    }
}

#[test]
fn chars_of_lists_the_characters() {
    assert_eq!(chars_of(""), Vec::<char>::new());
    assert_eq!(chars_of("a/é 8"), vec!['a', '/', 'é', ' ', '8']);
}

#[test]
fn display_shows_one_rank_per_line() {
    let board = parse_board(STARTING_FEN).unwrap();
    let expected = "\n r  n  b  q  k  b  n  r \
                    \n p  p  p  p  p  p  p  p \
                    \n .  .  .  .  .  .  .  . \
                    \n .  .  .  .  .  .  .  . \
                    \n .  .  .  .  .  .  .  . \
                    \n .  .  .  .  .  .  .  . \
                    \n P  P  P  P  P  P  P  P \
                    \n R  N  B  Q  K  B  N  R ";
    assert_eq!(board.to_display_string(), expected);
    assert_eq!(board.to_display_string().chars().count(), 200);
}

#[test]
fn display_of_a_sparse_board() {
    let board = parse_board("7k/8/8/3Q4/8/8/8/K7 w -").unwrap();
    let text = board.to_display_string();
    let lines: Vec<&str> = text.split('\n').collect();
    assert_eq!(lines.len(), 9);
    assert_eq!(lines[0], "");
    assert_eq!(lines[1], " .  .  .  .  .  .  .  k ");
    assert_eq!(lines[4], " .  .  .  Q  .  .  .  . ");
    assert_eq!(lines[8], " K  .  .  .  .  .  .  . ");
}

#[test]
fn messages_name_the_fault() {
    assert_eq!(FenError::Empty.message(), "non-empty fen string expected");
    assert_eq!(
        FenError::MissingTurn.message(),
        "fen string expected to have at least first two fields"
    );
    assert_eq!(
        FenError::TooManyEmpty { digit: '9' }.message(),
        "there aren't 9 empty fields left in the current rank!"
    );
    assert_eq!(FenError::RankNotDone.message(), "rank not yet done at rank delimiter '/'");
    assert_eq!(
        FenError::UnexpectedSymbol { symbol: 'x' }.message(),
        "unexpected character 'x' in position field!"
    );
    assert_eq!(
        FenError::TooManySquares { symbol: 'p' }.message(),
        "no square left for 'p' in position field!"
    );
    assert_eq!(
        FenError::TooFewSquares.message(),
        "position field ends before the last square!"
    );
    assert_eq!(
        turn_field_length("ww").message(),
        "illegal second (turn) field 'ww'; one of w or b expected"
    );
    assert_eq!(
        turn_field_length("").message(),
        "illegal second (turn) field ''; one of w or b expected"
    );
    assert_eq!(
        FenError::UnknownTurn { symbol: 'x' }.message(),
        "expected 'w' or 'b' as second field, not 'x'!"
    );
    assert_eq!(
        FenError::DuplicateCastleRight { symbol: 'K' }.message(),
        "fen contains castle right 'K' twice!"
    );
    assert_eq!(
        FenError::UnexpectedCastleSymbol { symbol: 'é' }.message(),
        "unexpected character 'é' in castle rights field"
    );
}

#[test]
fn starting_fen_is_the_usual_one() {
    assert_eq!(STARTING_FEN, "rnbqkbnr/pppppppp/8/8/8/8/PPPPPPPP/RNBQKBNR w KQkq - 0 1");
}

#[test]
fn turn_field_of_the_wrong_length_is_shown_in_the_message() {
    let error = parse_turn_field("ww").unwrap_err();
    let message = error.message();
    assert!(message.contains("'ww'"));
    assert!(message.contains("w or b"));
    let from_board = parse_board("8/8/8/8/8/8/8/8 white KQkq").unwrap_err();
    assert_eq!(
        from_board.message(),
        "illegal second (turn) field 'white'; one of w or b expected"
    );
}

#[test]
fn every_message_quotes_what_is_at_fault() {
    let cases = [
        ("9/8/8/8/8/8/8/8 w", "9"),
        ("8/8/8/8/8/8/8/7x w", "'x'"),
        ("8/8/8/8/8/8/8/8p w", "'p'"),
        ("7/8/8/8/8/8/8/8 w", "'/'"),
        ("8/8/8/8/8/8/8/8 wb", "'wb'"),
        ("8/8/8/8/8/8/8/8 x", "'x'"),
        ("8/8/8/8/8/8/8/8 w KK", "'K'"),
        ("8/8/8/8/8/8/8/8 w Kx", "'x'"),
    ];
    for (fen, quoted) in cases {
        let message = parse_board(fen).unwrap_err().message();
        assert!(message.contains(quoted), "{message}");
    }
}

#[test]
fn letters_of_the_notation() {
    assert_eq!(FEN_WHITE, 'w');
    assert_eq!(FEN_BLACK, 'b');
    assert_eq!(FEN_NEW_RANK, '/');
    assert_eq!(
        [
            FEN_WHITE_PAWN,
            FEN_WHITE_KNIGHT,
            FEN_WHITE_BISHOP,
            FEN_WHITE_ROOK,
            FEN_WHITE_QUEEN,
            FEN_WHITE_KING
        ],
        ['P', 'N', 'B', 'R', 'Q', 'K']
    );
    assert_eq!(
        [
            FEN_BLACK_PAWN,
            FEN_BLACK_KNIGHT,
            FEN_BLACK_BISHOP,
            FEN_BLACK_ROOK,
            FEN_BLACK_QUEEN,
            FEN_BLACK_KING
        ],
        ['p', 'n', 'b', 'r', 'q', 'k']
    );
}
