use chess_core::board::Board;
use chess_core::fen::{parse_board, STARTING_FEN};
use chess_core::move_gen::{
    gen_bishop_moves, gen_king_moves, gen_knight_moves, gen_pawn_moves,
    gen_pseudo_legal_for_piece, gen_queen_moves, gen_rook_moves,
};
use chess_core::moves::{CastleType, Move};
use chess_core::piece::Piece;


fn board(fen: &str) -> Board {
    parse_board(fen).unwrap()
}

fn ab(from: usize, to: usize) -> Move {
    Move::AB { from, to }
}

fn plain(from: usize, tos: &[usize]) -> Vec<Move> {
    tos.iter().map(|to| ab(from, *to)).collect()
}

fn promotions(color: u16, from: usize, to: usize) -> Vec<Move> {
    [Piece::QUEEN, Piece::ROOK, Piece::BISHOP, Piece::KNIGHT]
        .iter()
        .map(|kind| Move::Promotion { from, to, piece: Piece::new_unchecked(color, *kind) })
        .collect()
}

fn moves_from(all: &[Move], square: usize) -> Vec<Move> {
    all.iter()
        .copied()
        .filter(|m| match *m {
            Move::AB { from, .. } => from == square,
            Move::EnPassant { from, .. } => from == square,
            Move::Promotion { from, .. } => from == square,
            Move::Castle { ty } => ty.king_move().0 == square,
        })
        .collect()
}

#[test]
fn starting_position_has_twenty_moves() {
    let b = board(STARTING_FEN);
    assert_eq!(b.gen_pseudo_legal(Piece::WHITE).len(), 20);
    assert_eq!(b.gen_pseudo_legal(Piece::BLACK).len(), 20);
}

#[test]
fn starting_position_moves_in_scan_order() {
    let b = board(STARTING_FEN);
    let mut white = Vec::new();
    for file in 0..8 {
        white.push(ab(48 + file, 40 + file));
        white.push(ab(48 + file, 32 + file));
    }
    white.extend(plain(57, &[40, 42]));
    white.extend(plain(62, &[45, 47]));
    assert_eq!(b.gen_pseudo_legal(Piece::WHITE), white);
    let mut black = Vec::new();
    black.extend(plain(1, &[16, 18]));
    black.extend(plain(6, &[21, 23]));
    for file in 0..8 {
        black.push(ab(8 + file, 16 + file));
        black.push(ab(8 + file, 24 + file));
    }
    assert_eq!(b.gen_pseudo_legal(Piece::BLACK), black);
}

#[test]
fn starting_position_has_sixteen_pawn_and_four_knight_moves() {
    let b = board(STARTING_FEN);
    let moves = b.gen_pseudo_legal(Piece::WHITE);
    let mut pawn = 0;
    let mut knight = 0;
    for m in moves {
        match m {
            Move::AB { from, .. } => {
                if b.piece_at(from).kind() == Piece::PAWN {
                    pawn += 1;
                } else if b.piece_at(from).kind() == Piece::KNIGHT {
                    knight += 1;
                }
            }
            _ => panic!("only plain moves are expected"),
        }
    }
    assert_eq!(pawn, 16);
    assert_eq!(knight, 4);
}

#[test]
fn no_colour_no_moves() {
    let b = board(STARTING_FEN);
    assert_eq!(b.gen_pseudo_legal(0), Vec::new());
    assert_eq!(b.gen_pseudo_legal(Piece::NONE), Vec::new());
    assert_eq!(b.gen_pseudo_legal(Piece::WHITE | Piece::BLACK), Vec::new());
    assert_eq!(b.gen_pseudo_legal(Piece::PAWN), Vec::new());
}

#[test]
fn empty_board_has_no_moves() {
    let b = board("8/8/8/8/8/8/8/8 w -");
    assert_eq!(b.gen_pseudo_legal(Piece::WHITE), Vec::new());
    assert_eq!(b.gen_pseudo_legal(Piece::BLACK), Vec::new());
}

#[test]
fn rook_on_the_h_file_has_no_move_to_the_right() {
    // A rook on h4, alone.
    let b = board("8/8/8/8/7R/8/8/8 w -");
    let moves = b.gen_pseudo_legal(Piece::WHITE);
    assert_eq!(moves, plain(39, &[31, 23, 15, 7, 47, 55, 63, 38, 37, 36, 35, 34, 33, 32]));
    assert!(!moves.contains(&ab(39, 40)));
}

#[test]
fn rook_on_the_a_file_has_no_move_to_the_left() {
    // A rook on a5, alone.
    let b = board("8/8/8/R7/8/8/8/8 w -");
    let moves = b.gen_pseudo_legal(Piece::WHITE);
    assert_eq!(moves, plain(24, &[16, 8, 0, 32, 40, 48, 56, 25, 26, 27, 28, 29, 30, 31]));
    assert!(!moves.contains(&ab(24, 23)));
}

#[test]
fn rook_stops_at_the_first_piece() {
    // Rook on d4, own pawn on d6, enemy pawn on f4, enemy knight on d2 with a
    // piece behind it.
    let b = board("8/8/3P4/8/3R1p2/8/3n4/3q4 w -");
    let mut moves = Vec::new();
    gen_rook_moves(35, Piece::WHITE, &b, &mut moves);
    assert_eq!(moves, plain(35, &[27, 43, 51, 34, 33, 32, 36, 37]));
}

#[test]
fn generators_append_to_what_is_there() {
    let b = board("8/8/8/8/7R/8/8/8 w -");
    let mut moves = vec![ab(1, 2)];
    gen_rook_moves(39, Piece::WHITE, &b, &mut moves);
    assert_eq!(moves.len(), 15);
    assert_eq!(moves[0], ab(1, 2));
    assert_eq!(moves[1], ab(39, 31));
}

#[test]
fn bishop_slides_on_diagonals_without_wrapping() {
    // A bishop on h4, alone.
    let b = board("8/8/8/8/7B/8/8/8 w -");
    let moves = b.gen_pseudo_legal(Piece::WHITE);
    assert_eq!(moves, plain(39, &[30, 21, 12, 3, 46, 53, 60]));
    // A bishop on a1, alone.
    let c = board("8/8/8/8/8/8/8/b7 b -");
    assert_eq!(c.gen_pseudo_legal(Piece::BLACK), plain(56, &[49, 42, 35, 28, 21, 14, 7]));
}

#[test]
fn bishop_stops_at_the_first_piece() {
    // Bishop on d4, own pawn on b6, enemy pawn on f6 with a piece behind it.
    let b = board("7r/8/1P3p2/8/3B4/8/8/8 w -");
    let mut moves = Vec::new();
    gen_bishop_moves(35, Piece::WHITE, &b, &mut moves);
    assert_eq!(moves, plain(35, &[26, 28, 21, 42, 49, 56, 44, 53, 62]));
}

#[test]
fn queen_in_the_centre_of_an_empty_board() {
    let b = board("8/8/8/8/3Q4/8/8/8 w -");
    let mut moves = Vec::new();
    gen_queen_moves(35, Piece::WHITE, &b, &mut moves);
    let mut expected = plain(35, &[27, 19, 11, 3, 43, 51, 59, 34, 33, 32, 36, 37, 38, 39]);
    expected.extend(plain(35, &[26, 17, 8, 28, 21, 14, 7, 42, 49, 56, 44, 53, 62]));
    assert_eq!(moves, expected);
    assert_eq!(moves.len(), 27);
    assert_eq!(b.gen_pseudo_legal(Piece::WHITE), expected);
}

#[test]
fn knight_in_the_corner_has_two_moves() {
    let b = board("n7/8/8/8/8/8/8/8 b -");
    assert_eq!(b.gen_pseudo_legal(Piece::BLACK), plain(0, &[10, 17]));
    let c = board("8/8/8/8/8/8/8/7N w -");
    assert_eq!(c.gen_pseudo_legal(Piece::WHITE), plain(63, &[46, 53]));
}

#[test]
fn knight_in_the_centre_has_eight_moves() {
    let b = board("8/8/8/8/3N4/8/8/8 w -");
    let mut moves = Vec::new();
    gen_knight_moves(35, Piece::WHITE, &b, &mut moves);
    assert_eq!(moves, plain(35, &[18, 20, 25, 29, 41, 45, 50, 52]));
}

#[test]
fn knight_takes_enemies_and_not_its_own() {
    // Knight on d4; own pawns on c6 and e2, enemy pawns on e6 and c2.
    let b = board("8/8/2P1p3/8/3N4/8/2p1P3/8 w -");
    let mut moves = Vec::new();
    gen_knight_moves(35, Piece::WHITE, &b, &mut moves);
    assert_eq!(moves, plain(35, &[20, 25, 29, 41, 45, 50]));
}

#[test]
fn knight_near_the_edge_does_not_wrap() {
    // A knight on h4: the raw offsets +10 and -6 would land on the a-file.
    let b = board("8/8/8/8/7N/8/8/8 w -");
    assert_eq!(b.gen_pseudo_legal(Piece::WHITE), plain(39, &[22, 29, 45, 54]));
    let c = board("8/8/8/8/N7/8/8/8 w -");
    assert_eq!(c.gen_pseudo_legal(Piece::WHITE), plain(32, &[17, 26, 42, 49]));
}

#[test]
fn king_steps_to_its_neighbours() {
    let b = board("8/8/8/8/3K4/8/8/8 w -");
    let mut moves = Vec::new();
    gen_king_moves(35, Piece::WHITE, &b, &mut moves);
    assert_eq!(moves, plain(35, &[27, 43, 34, 36, 26, 28, 42, 44]));
    let c = board("k7/8/8/8/8/8/8/8 b -");
    assert_eq!(c.gen_pseudo_legal(Piece::BLACK), plain(0, &[8, 1, 9]));
    let d = board("8/8/8/8/7K/8/8/8 w -");
    assert_eq!(d.gen_pseudo_legal(Piece::WHITE), plain(39, &[31, 47, 38, 30, 46]));
}

#[test]
fn king_castles_when_the_way_is_clear() {
    let b = board("r3k2r/8/8/8/8/8/8/R3K2R w KQkq");
    let white = b.gen_pseudo_legal(Piece::WHITE);
    let mut king = plain(60, &[52, 59, 61, 51, 53]);
    king.push(Move::Castle { ty: CastleType::WhiteShort });
    king.push(Move::Castle { ty: CastleType::WhiteLong });
    assert_eq!(moves_from(&white, 60), king);
    let black = b.gen_pseudo_legal(Piece::BLACK);
    let mut king = plain(4, &[12, 3, 5, 11, 13]);
    king.push(Move::Castle { ty: CastleType::BlackShort });
    king.push(Move::Castle { ty: CastleType::BlackLong });
    assert_eq!(moves_from(&black, 4), king);
}

#[test]
fn king_castles_only_with_the_right() {
    let cases: [(&str, Vec<CastleType>, Vec<CastleType>); 5] = [
        ("-", vec![], vec![]),
        ("K", vec![CastleType::WhiteShort], vec![]),
        ("Q", vec![CastleType::WhiteLong], vec![]),
        ("k", vec![], vec![CastleType::BlackShort]),
        ("q", vec![], vec![CastleType::BlackLong]),
    ];
    for (rights, white, black) in cases {
        let b = board(&format!("r3k2r/8/8/8/8/8/8/R3K2R w {rights}"));
        let found: Vec<CastleType> = b
            .gen_pseudo_legal(Piece::WHITE)
            .iter()
            .filter_map(|m| if let Move::Castle { ty } = m { Some(*ty) } else { None })
            .collect();
        assert_eq!(found, white);
        let found: Vec<CastleType> = b
            .gen_pseudo_legal(Piece::BLACK)
            .iter()
            .filter_map(|m| if let Move::Castle { ty } = m { Some(*ty) } else { None })
            .collect();
        assert_eq!(found, black);
    }
}

#[test]
fn king_does_not_castle_over_pieces() {
    let castles = |fen: &str, color: u16| -> Vec<Move> {
        board(fen)
            .gen_pseudo_legal(color)
            .into_iter()
            .filter(|m| matches!(m, Move::Castle { .. }))
            .collect()
    };
    assert_eq!(castles(STARTING_FEN, Piece::WHITE), vec![]);
    assert_eq!(castles(STARTING_FEN, Piece::BLACK), vec![]);
    // A piece on b1 blocks the long side only.
    assert_eq!(
        castles("r3k2r/8/8/8/8/8/8/RN2K2R w KQkq", Piece::WHITE),
        vec![Move::Castle { ty: CastleType::WhiteShort }]
    );
    // An enemy piece on g1 blocks the short side only.
    assert_eq!(
        castles("r3k2r/8/8/8/8/8/8/R3K1nR w KQkq", Piece::WHITE),
        vec![Move::Castle { ty: CastleType::WhiteLong }]
    );
    assert_eq!(
        castles("r2qk2r/8/8/8/8/8/8/R3K2R w KQkq", Piece::BLACK),
        vec![Move::Castle { ty: CastleType::BlackShort }]
    );
    assert_eq!(
        castles("r3kb1r/8/8/8/8/8/8/R3K2R w KQkq", Piece::BLACK),
        vec![Move::Castle { ty: CastleType::BlackLong }]
    );
}

#[test]
fn king_away_from_home_does_not_castle() {
    let b = board("r3k2r/8/8/8/8/8/4K3/R6R w KQkq");
    let white = b.gen_pseudo_legal(Piece::WHITE);
    assert!(white.iter().all(|m| !matches!(m, Move::Castle { .. })));
}

#[test]
fn white_pawn_pushes_up_and_black_pawn_down() {
    let b = board("8/8/8/3p4/8/8/4P3/8 w -");
    assert_eq!(b.gen_pseudo_legal(Piece::WHITE), plain(52, &[44, 36]));
    assert_eq!(b.gen_pseudo_legal(Piece::BLACK), plain(27, &[35]));
    let c = board("8/3p4/8/8/8/4P3/8/8 w -");
    assert_eq!(c.gen_pseudo_legal(Piece::WHITE), plain(44, &[36]));
    assert_eq!(c.gen_pseudo_legal(Piece::BLACK), plain(11, &[19, 27]));
}

#[test]
fn double_push_needs_both_squares_empty() {
    // The square ahead is occupied: no push at all.
    let ahead_own = board("8/8/8/8/8/4N3/4P3/8 w -");
    assert_eq!(moves_from(&ahead_own.gen_pseudo_legal(Piece::WHITE), 52), vec![]);
    let ahead_enemy = board("8/8/8/8/8/4n3/4P3/8 w -");
    assert_eq!(moves_from(&ahead_enemy.gen_pseudo_legal(Piece::WHITE), 52), vec![]);
    // The second square is occupied: the single push only.
    let second = board("8/8/8/8/4n3/8/4P3/8 w -");
    assert_eq!(moves_from(&second.gen_pseudo_legal(Piece::WHITE), 52), plain(52, &[44]));
    // The same for Black.
    let black_ahead = board("8/4p3/4N3/8/8/8/8/8 b -");
    assert_eq!(moves_from(&black_ahead.gen_pseudo_legal(Piece::BLACK), 12), vec![]);
    let black_second = board("8/4p3/8/4N3/8/8/8/8 b -");
    assert_eq!(moves_from(&black_second.gen_pseudo_legal(Piece::BLACK), 12), plain(12, &[20]));
}

#[test]
fn double_push_only_from_the_home_rank() {
    let b = board("8/8/8/8/8/4P3/8/8 w -");
    assert_eq!(b.gen_pseudo_legal(Piece::WHITE), plain(44, &[36]));
    // A white pawn on the seventh rank of Black's pawns does not double push.
    let c = board("8/8/4P3/8/8/8/8/8 w -");
    assert_eq!(c.gen_pseudo_legal(Piece::WHITE), plain(20, &[12]));
    let d = board("8/8/8/8/8/4p3/8/8 b -");
    assert_eq!(d.gen_pseudo_legal(Piece::BLACK), plain(44, &[52]));
}

#[test]
fn pawn_takes_diagonally_forward() {
    // White pawn on e4; enemies on d5 and f5, own piece and enemy behind it.
    let b = board("8/8/8/3p1n2/4P3/3r1N2/8/8 w -");
    let mut moves = Vec::new();
    gen_pawn_moves(36, Piece::WHITE, &b, &mut moves);
    assert_eq!(moves, plain(36, &[28, 27, 29]));
    let mut black = Vec::new();
    gen_pawn_moves(27, Piece::BLACK, &b, &mut black);
    assert_eq!(black, plain(27, &[35, 36]));
}

#[test]
fn pawn_does_not_take_its_own_or_straight_ahead() {
    let b = board("8/8/8/3PpP2/4P3/8/8/8 w -");
    let mut moves = Vec::new();
    gen_pawn_moves(36, Piece::WHITE, &b, &mut moves);
    assert_eq!(moves, vec![]);
}

#[test]
fn pawn_on_an_edge_file_does_not_take_across_the_edge() {
    // White pawn on a4; the raw offset -9 points at h6. White pawn on h4;
    // the raw offset -7 points at a4's neighbour row.
    let b = board("8/8/7p/p6p/P6P/8/8/8 w -");
    assert_eq!(b.gen_pseudo_legal(Piece::WHITE), vec![]);
    let c = board("8/8/8/8/p6p/P6P/P7/8 b -");
    assert_eq!(c.gen_pseudo_legal(Piece::BLACK), vec![]);
}

#[test]
fn en_passant_is_generated_for_the_target_square() {
    // White pawn on e5, black pawns on d5 and f5; d5 has just double pushed.
    let mut b = board("8/8/8/3pPp2/8/8/8/8 w -");
    b.set_en_passant_target(Some(19));
    assert_eq!(
        b.gen_pseudo_legal(Piece::WHITE),
        vec![ab(28, 20), Move::EnPassant { from: 28, to: 19, capture: 27 }]
    );
    b.set_en_passant_target(Some(21));
    assert_eq!(
        b.gen_pseudo_legal(Piece::WHITE),
        vec![ab(28, 20), Move::EnPassant { from: 28, to: 21, capture: 29 }]
    );
    b.set_en_passant_target(None);
    assert_eq!(b.gen_pseudo_legal(Piece::WHITE), vec![ab(28, 20)]);
    // A target elsewhere gives nothing.
    b.set_en_passant_target(Some(18));
    assert_eq!(b.gen_pseudo_legal(Piece::WHITE), vec![ab(28, 20)]);
    b.set_en_passant_target(Some(20));
    assert_eq!(b.gen_pseudo_legal(Piece::WHITE), vec![ab(28, 20)]);
}

#[test]
fn en_passant_for_black() {
    // Black pawn on d4, white pawn on e4 has just double pushed.
    let mut b = board("8/8/8/8/3pP3/8/8/8 b -");
    b.set_en_passant_target(Some(44));
    assert_eq!(
        b.gen_pseudo_legal(Piece::BLACK),
        vec![ab(35, 43), Move::EnPassant { from: 35, to: 44, capture: 36 }]
    );
}

#[test]
fn en_passant_after_a_double_push_is_played() {
    let mut b = board("4k3/8/8/8/3p4/8/4P3/4K3 w -");
    b.play(&ab(52, 36));
    assert_eq!(b.en_passant_target(), Some(44));
    let black = b.gen_pseudo_legal(Piece::BLACK);
    let capture = Move::EnPassant { from: 35, to: 44, capture: 36 };
    assert!(black.contains(&capture));
    assert_eq!(capture.capture(&b), Some(Piece::new_unchecked(Piece::WHITE, Piece::PAWN)));
    b.play(&capture);
    assert_eq!(b.piece_at(36), Piece::none());
    assert_eq!(b.piece_at(35), Piece::none());
    assert_eq!(b.piece_at(44), Piece::new_unchecked(Piece::BLACK, Piece::PAWN));
    assert_eq!(b.en_passant_target(), None);
    assert!(b.gen_pseudo_legal(Piece::WHITE).iter().all(|m| !matches!(m, Move::EnPassant { .. })));
}

#[test]
fn pawn_reaching_the_last_rank_promotes() {
    let b = board("8/4P3/8/8/8/8/8/8 w -");
    assert_eq!(b.gen_pseudo_legal(Piece::WHITE), promotions(Piece::WHITE, 12, 4));
    let c = board("8/8/8/8/8/8/4p3/8 b -");
    assert_eq!(c.gen_pseudo_legal(Piece::BLACK), promotions(Piece::BLACK, 52, 60));
}

#[test]
fn pawn_taking_onto_the_last_rank_promotes() {
    // White pawn on e7; d8 and e8 hold enemies, f8 an own piece.
    let b = board("3rnB2/4P3/8/8/8/8/8/8 w -");
    let mut moves = Vec::new();
    gen_pawn_moves(12, Piece::WHITE, &b, &mut moves);
    assert_eq!(moves, promotions(Piece::WHITE, 12, 3));
    let c = board("8/8/8/8/8/8/4p3/3R1R2 b -");
    let mut expected = promotions(Piece::BLACK, 52, 60);
    expected.extend(promotions(Piece::BLACK, 52, 59));
    expected.extend(promotions(Piece::BLACK, 52, 61));
    assert_eq!(c.gen_pseudo_legal(Piece::BLACK), expected);
}

#[test]
fn pawn_on_its_last_rank_has_no_moves() {
    let b = board("4P3/8/8/8/8/8/8/4p3 w -");
    assert_eq!(b.gen_pseudo_legal(Piece::WHITE), vec![]);
    assert_eq!(b.gen_pseudo_legal(Piece::BLACK), vec![]);
}

#[test]
fn piece_generator_dispatches_on_the_kind() {
    let b = board("8/8/8/8/3Q4/8/8/8 w -");
    let kinds = [
        (Piece::PAWN, 1),
        (Piece::KNIGHT, 8),
        (Piece::BISHOP, 13),
        (Piece::ROOK, 14),
        (Piece::QUEEN, 27),
        (Piece::KING, 8),
    ];
    for (kind, count) in kinds {
        let mut c = board("8/8/8/8/8/8/8/8 w -");
        let piece = Piece::new_unchecked(Piece::WHITE, kind);
        c.set_piece(35, piece);
        let mut moves = vec![ab(0, 0)];
        gen_pseudo_legal_for_piece(&piece, Piece::WHITE, 35, &c, &mut moves);
        assert_eq!(moves.len(), 1 + count);
        assert_eq!(moves[0], ab(0, 0));
        assert_eq!(&moves[1..], &c.gen_pseudo_legal(Piece::WHITE)[..]);
    }
    assert_eq!(b.gen_pseudo_legal(Piece::WHITE).len(), 27);
}

#[test]
fn destinations_are_on_the_board_and_not_own_pieces() {
    let fens = [
        STARTING_FEN,
        "r1bqkbnr/pppp1ppp/2n5/4p3/4P3/5N2/PPPP1PPP/RNBQKB1R w KQkq",
        "r3k2r/1P4P1/8/3Q4/2b5/8/1p4p1/R3K2R w KQkq",
        "N6N/8/8/8/8/8/8/N6N w -",
        "Q6R/8/8/8/8/8/8/B6Q w -",
    ];
    for fen in fens {
        let b = board(fen);
        for color in [Piece::WHITE, Piece::BLACK] {
            for m in b.gen_pseudo_legal(color) {
                match m {
                    Move::AB { from, to } | Move::Promotion { from, to, .. } => {
                        assert!(from < 64 && to < 64 && from != to);
                        assert_eq!(b.piece_at(from).color(), color);
                        assert_ne!(b.piece_at(to).color(), color);
                    }
                    Move::EnPassant { .. } => panic!("no en-passant target is set"),
                    Move::Castle { ty } => assert_eq!(ty.color(), color),
                }
            }
        }
    }
}

#[test]
fn sliding_destinations_stay_on_their_line() {
    for square in 0..64usize {
        let mut b = board("8/8/8/8/8/8/8/8 w -");
        b.set_piece(square, Piece::new_unchecked(Piece::WHITE, Piece::ROOK));
        let moves = b.gen_pseudo_legal(Piece::WHITE);
        assert_eq!(moves.len(), 14);
        for m in moves {
            match m {
                Move::AB { from, to } => {
                    assert_eq!(from, square);
                    assert!(from / 8 == to / 8 || from % 8 == to % 8);
                }
                _ => panic!("a rook makes plain moves only"),
            }
        }
        b.set_piece(square, Piece::new_unchecked(Piece::WHITE, Piece::BISHOP));
        for m in b.gen_pseudo_legal(Piece::WHITE) {
            match m {
                Move::AB { from, to } => {
                    let rows = (from / 8).abs_diff(to / 8);
                    let cols = (from % 8).abs_diff(to % 8);
                    assert_eq!(rows, cols);
                }
                _ => panic!("a bishop makes plain moves only"),
            }
        }
    }
}
