use huscee::board::Board;
use huscee::coord::Coord;
use huscee::{Color, Piece};

fn back_rank(white: bool) -> [Piece; 8] {
    if white {
        [
            Piece::RookW,
            Piece::KnightW,
            Piece::BishopW,
            Piece::QueenW,
            Piece::KingW,
            Piece::BishopW,
            Piece::KnightW,
            Piece::RookW,
        ]
    } else {
        [
            Piece::RookB,
            Piece::KnightB,
            Piece::BishopB,
            Piece::QueenB,
            Piece::KingB,
            Piece::BishopB,
            Piece::KnightB,
            Piece::RookB,
        ]
    }
}

#[test]
fn test_start_pos() {
    let board = Board::start_pos();

    let mut expected = [Piece::Empty; 128];
    expected[0..8].copy_from_slice(&back_rank(true));
    expected[16..24].copy_from_slice(&[Piece::PawnW; 8]);
    expected[96..104].copy_from_slice(&[Piece::PawnB; 8]);
    expected[112..120].copy_from_slice(&back_rank(false));
    assert_eq!(board.board, expected);

    assert_eq!(board.to_move, Color::White);

    assert_eq!(board.castling, [true, true, true, true]);

    assert_eq!(board.en_pass_tgt, None);
}

#[test]
fn test_castle_array() {
    assert_eq!(
        Board::from_fen("rnbqkbnr/pppppppp/8/8/8/8/PPPPPPPP/RNBQKBNR w Qkq - 0 1")
            .unwrap()
            .castling,
        [false, true, true, true]
    );

    assert_eq!(
        Board::from_fen("rnbqkbnr/pppppppp/8/8/8/8/PPPPPPPP/RNBQKBNR w Kkq - 0 1")
            .unwrap()
            .castling,
        [true, false, true, true]
    );

    assert_eq!(
        Board::from_fen("rnbqkbnr/pppppppp/8/8/8/8/PPPPPPPP/RNBQKBNR w KQq - 0 1")
            .unwrap()
            .castling,
        [true, true, false, true]
    );

    assert_eq!(
        Board::from_fen("rnbqkbnr/pppppppp/8/8/8/8/PPPPPPPP/RNBQKBNR w KQk - 0 1")
            .unwrap()
            .castling,
        [true, true, true, false]
    );

    assert_eq!(
        Board::from_fen("rnbqkbnr/pppppppp/8/8/8/8/PPPPPPPP/RNBQKBNR w - - 0 1")
            .unwrap()
            .castling,
        [false, false, false, false]
    );
}

#[test]
fn test_en_passant() {
    assert_eq!(
        Board::from_fen("rnbqkbnr/pppppppp/8/8/8/8/PPPPPPPP/RNBQKBNR w - e3 0 1")
            .unwrap()
            .en_pass_tgt,
        Some(Coord(0x24))
    );
}

#[test]
fn test_turn() {
    assert_eq!(
        Board::from_fen("rnbqkbnr/pppppppp/8/8/8/8/PPPPPPPP/RNBQKBNR b - e3 0 1")
            .unwrap()
            .to_move,
        Color::Black
    );
}

#[test]
fn start_pos_is_the_standard_text() {
    let parsed = Board::from_fen("rnbqkbnr/pppppppp/8/8/8/8/PPPPPPPP/RNBQKBNR w KQkq - 0 1").unwrap();
    assert_eq!(parsed, Board::start_pos());
}

fn sq(text: &str) -> Coord {
    Coord::from_alg(text).unwrap()
}

fn mv(from: &str, to: &str) -> huscee::moves::Move {
    huscee::moves::Move::new(sq(from), sq(to), None)
}

#[test]
fn new_board_is_empty() {
    let board = Board::new();
    assert_eq!(board.board, [Piece::Empty; 128]);
    assert_eq!(board.to_move, Color::White);
    assert_eq!(board.castling, [true; 4]);
    assert_eq!(board.en_pass_tgt, None);
}

#[test]
fn from_fen_places_the_first_letter_on_a8() {
    let board = Board::from_fen("r6k/8/8/8/8/8/8/K6R w - - 0 1").unwrap();
    assert_eq!(board.piece_at(sq("a8")), Piece::RookB);
    assert_eq!(board.piece_at(sq("h8")), Piece::KingB);
    assert_eq!(board.piece_at(sq("a1")), Piece::KingW);
    assert_eq!(board.piece_at(sq("h1")), Piece::RookW);
    assert_eq!(board.board[0x70], Piece::RookB);
    assert_eq!(board.board[0x07], Piece::RookW);
}

#[test]
fn from_fen_counts_empty_squares() {
    let board = Board::from_fen("8/2p5/3p4/KP5r/1R3p1k/8/4P1P1/8 w - - 0 1").unwrap();
    assert_eq!(board.piece_at(sq("c7")), Piece::PawnB);
    assert_eq!(board.piece_at(sq("d6")), Piece::PawnB);
    assert_eq!(board.piece_at(sq("a5")), Piece::KingW);
    assert_eq!(board.piece_at(sq("b5")), Piece::PawnW);
    assert_eq!(board.piece_at(sq("h5")), Piece::RookB);
    assert_eq!(board.piece_at(sq("b4")), Piece::RookW);
    assert_eq!(board.piece_at(sq("f4")), Piece::PawnB);
    assert_eq!(board.piece_at(sq("h4")), Piece::KingB);
    assert_eq!(board.piece_at(sq("e2")), Piece::PawnW);
    assert_eq!(board.piece_at(sq("g2")), Piece::PawnW);
    let pieces = board.board.iter().filter(|p| **p != Piece::Empty).count();
    assert_eq!(pieces, 10);
}

#[test]
fn from_fen_leaves_the_slots_off_the_board_empty() {
    let board = Board::start_pos();
    for slot in 0..128 {
        if slot & 0x88 != 0 {
            assert_eq!(board.board[slot], Piece::Empty);
        }
    }
}

#[test]
fn from_fen_takes_any_white_space_between_fields() {
    let board =
        Board::from_fen("  rnbqkbnr/pppppppp/8/8/8/8/PPPPPPPP/RNBQKBNR\tb \n Kq\r\x0ce3  0 1 ").unwrap();
    assert_eq!(board.to_move, Color::Black);
    assert_eq!(board.castling, [true, false, false, true]);
    assert_eq!(board.en_pass_tgt, Some(Coord(0x24)));
}

#[test]
fn from_fen_refuses_an_unknown_piece_letter() {
    let text = "rnbqkbnr/pppppppp/8/8/8/8/PPPPPPPP/RNBQKBNX w KQkq - 0 1";
    let e = Board::from_fen(text).unwrap_err();
    assert_eq!(e.fen, text);
    assert_eq!(e.message(), format!("Invalid FEN String {text}"));
    assert!(Board::from_fen("rnbqkbnr/pppppppp/9/8/8/8/PPPPPPPP/RNBQKBNR w KQkq - 0 1").is_err());
}

#[test]
fn from_fen_refuses_an_unknown_turn() {
    assert!(Board::from_fen("8/8/8/8/8/8/8/8 x - - 0 1").is_err());
    assert!(Board::from_fen("8/8/8/8/8/8/8/8 W - - 0 1").is_err());
    assert!(Board::from_fen("8/8/8/8/8/8/8/8 wb - - 0 1").is_err());
}

#[test]
fn from_fen_refuses_an_unknown_castling_letter() {
    assert!(Board::from_fen("8/8/8/8/8/8/8/8 w KQxq - 0 1").is_err());
    assert!(Board::from_fen("8/8/8/8/8/8/8/8 w -x - 0 1").is_err());
}

#[test]
fn from_fen_refuses_a_text_without_its_first_three_fields() {
    assert!(Board::from_fen("").is_err());
    assert!(Board::from_fen("   ").is_err());
    assert!(Board::from_fen("8/8/8/8/8/8/8/8").is_err());
    assert!(Board::from_fen("8/8/8/8/8/8/8/8 w").is_err());
}

#[test]
fn from_fen_refuses_a_piece_with_no_square_left() {
    assert!(Board::from_fen("rnbqkbnrr/8/8/8/8/8/8/8 w - - 0 1").is_err());
    assert!(Board::from_fen("8p/8/8/8/8/8/8/8 w - - 0 1").is_err());
    assert!(Board::from_fen("8/8/8/8/8/8/8/8/p w - - 0 1").is_err());
}

#[test]
fn from_fen_ignores_an_en_passant_field_that_names_no_square() {
    for field in ["-", "e9", "xx", "e33", ""] {
        let text = format!("8/8/8/8/8/8/8/8 w - {field} 0 1");
        assert_eq!(Board::from_fen(&text).unwrap().en_pass_tgt, None, "{field}");
    }
    assert_eq!(Board::from_fen("8/8/8/8/8/8/8/8 w -").unwrap().en_pass_tgt, None);
}

#[test]
fn from_fen_does_not_read_the_last_two_fields() {
    let board = Board::from_fen("8/8/8/8/8/8/8/8 b - - what ever").unwrap();
    assert_eq!(board.to_move, Color::Black);
    assert!(Board::from_fen("8/8/8/8/8/8/8/8 b - -").is_ok());
}

#[test]
fn make_move_moves_the_piece_and_passes_the_turn() {
    let mut board = Board::start_pos();
    board.make_move(mv("g1", "f3"));
    assert_eq!(board.piece_at(sq("g1")), Piece::Empty);
    assert_eq!(board.piece_at(sq("f3")), Piece::KnightW);
    assert_eq!(board.to_move, Color::Black);
    assert_eq!(board.castling, [true; 4]);
    assert_eq!(board.en_pass_tgt, None);
    board.make_move(mv("b8", "c6"));
    assert_eq!(board.to_move, Color::White);
}

#[test]
fn en_passant_target_follows_a_double_pawn_push() {
    let mut board = Board::start_pos();
    board.make_move(mv("d2", "d4"));
    assert_eq!(board.en_pass_tgt, Some(sq("d3")));
    board.make_move(mv("d7", "d5"));
    assert_eq!(board.en_pass_tgt, Some(sq("d6")));
    board.make_move(mv("g1", "f3"));
    assert_eq!(board.en_pass_tgt, None);
    board.make_move(mv("e7", "e6"));
    assert_eq!(board.en_pass_tgt, None);
}

#[test]
fn white_kingside_right_goes_when_king_or_rook_moves() {
    let start = "rnbqkbnr/pppppppp/8/8/8/8/PPPPPPPP/RNBQKBNR w KQkq - 0 1";
    assert!(Board::from_fen(start).unwrap().castling[0]);

    let open = "rnbqkbnr/pppppppp/8/8/8/8/8/R3K2R w KQkq - 0 1";
    let mut king = Board::from_fen(open).unwrap();
    king.make_move(mv("e1", "e2"));
    assert_eq!(king.castling, [false, false, true, true]);

    let mut rook = Board::from_fen(open).unwrap();
    rook.make_move(mv("h1", "h4"));
    assert_eq!(rook.castling, [false, true, true, true]);

    let mut other_rook = Board::from_fen(open).unwrap();
    other_rook.make_move(mv("a1", "a4"));
    assert_eq!(other_rook.castling, [true, false, true, true]);

    let mut unrelated = Board::from_fen(start).unwrap();
    unrelated.make_move(mv("e2", "e4"));
    assert_eq!(unrelated.castling, [true; 4]);
    unrelated.make_move(mv("g8", "f6"));
    assert_eq!(unrelated.castling, [true; 4]);
}

#[test]
fn black_rights_go_when_its_king_or_rooks_move() {
    let open = "r3k2r/8/8/8/8/8/8/R3K2R b KQkq - 0 1";
    let mut king = Board::from_fen(open).unwrap();
    king.make_move(mv("e8", "d8"));
    assert_eq!(king.castling, [true, true, false, false]);
    let mut rook = Board::from_fen(open).unwrap();
    rook.make_move(mv("h8", "h7"));
    assert_eq!(rook.castling, [true, true, false, true]);
    let mut other = Board::from_fen(open).unwrap();
    other.make_move(mv("a8", "b8"));
    assert_eq!(other.castling, [true, true, true, false]);
}

#[test]
fn castling_brings_the_rook_over() {
    let open = "r3k2r/8/8/8/8/8/8/R3K2R w KQkq - 0 1";
    let mut short = Board::from_fen(open).unwrap();
    short.make_move(mv("e1", "g1"));
    assert_eq!(short.piece_at(sq("g1")), Piece::KingW);
    assert_eq!(short.piece_at(sq("f1")), Piece::RookW);
    assert_eq!(short.piece_at(sq("h1")), Piece::Empty);
    assert_eq!(short.piece_at(sq("e1")), Piece::Empty);
    assert_eq!(short.piece_at(sq("a1")), Piece::RookW);
    assert_eq!(short.castling, [false, false, true, true]);

    let mut long = Board::from_fen(open).unwrap();
    long.make_move(mv("e1", "c1"));
    assert_eq!(long.piece_at(sq("c1")), Piece::KingW);
    assert_eq!(long.piece_at(sq("d1")), Piece::RookW);
    assert_eq!(long.piece_at(sq("a1")), Piece::Empty);
    assert_eq!(long.piece_at(sq("h1")), Piece::RookW);

    let mut black = Board::from_fen("r3k2r/8/8/8/8/8/8/R3K2R b KQkq - 0 1").unwrap();
    black.make_move(mv("e8", "c8"));
    assert_eq!(black.piece_at(sq("c8")), Piece::KingB);
    assert_eq!(black.piece_at(sq("d8")), Piece::RookB);
    assert_eq!(black.piece_at(sq("a8")), Piece::Empty);
    assert_eq!(black.castling, [true, true, false, false]);
}

#[test]
fn a_pawn_takes_in_passing() {
    let mut board = Board::from_fen("4k3/8/8/3pP3/8/8/8/4K3 w - d6 0 1").unwrap();
    board.make_move(mv("e5", "d6"));
    assert_eq!(board.piece_at(sq("d6")), Piece::PawnW);
    assert_eq!(board.piece_at(sq("d5")), Piece::Empty);
    assert_eq!(board.piece_at(sq("e5")), Piece::Empty);

    let mut black = Board::from_fen("4k3/8/8/8/3pP3/8/8/4K3 b - e3 0 1").unwrap();
    black.make_move(mv("d4", "e3"));
    assert_eq!(black.piece_at(sq("e3")), Piece::PawnB);
    assert_eq!(black.piece_at(sq("e4")), Piece::Empty);

    // Another piece on the en-passant square takes nothing.
    let mut knight = Board::from_fen("4k3/8/8/3pP3/8/8/8/2N1K3 w - d6 0 1").unwrap();
    knight.make_move(mv("c1", "d6"));
    assert_eq!(knight.piece_at(sq("d5")), Piece::PawnB);
}

#[test]
fn a_pawn_promotes() {
    let mut board = Board::from_fen("4k3/P7/8/8/8/8/8/4K3 w - - 0 1").unwrap();
    board.make_move(huscee::moves::Move::new(sq("a7"), sq("a8"), Some(Piece::QueenW)));
    assert_eq!(board.piece_at(sq("a8")), Piece::QueenW);
    assert_eq!(board.piece_at(sq("a7")), Piece::Empty);
}

#[test]
fn check_check_looks_for_the_king_among_the_destinations() {
    let board = Board::from_fen("4k3/8/8/8/8/8/8/4K2R w - - 0 1").unwrap();
    let hits = vec![mv("h1", "h8"), mv("a1", "e8")];
    assert!(board.check_check(&hits, Color::Black));
    assert!(!board.check_check(&hits, Color::White));
    let misses = vec![mv("h1", "h8"), mv("h1", "f1")];
    assert!(!board.check_check(&misses, Color::Black));
    assert!(!board.check_check(&Vec::new(), Color::Black));
    assert!(board.check_check(&vec![mv("a1", "e1")], Color::White));
}

#[test]
fn clone_gives_an_equal_board() {
    let board = Board::from_fen("r3k2r/8/8/8/8/8/8/R3K2R b Kq e3 0 1").unwrap();
    let mut copy = board.clone();
    assert_eq!(copy, board);
    copy.make_move(mv("e8", "e7"));
    assert_ne!(copy, board);
}
