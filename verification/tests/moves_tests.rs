use huscee::board::Board;
use huscee::coord::Coord;
use huscee::moves::{
    add_move, gen_at_coord_illegal, gen_move_dict, gen_moves, gen_moves_illegal, in_check,
    is_legal, keep_legal, Move,
};
use huscee::{Color, Piece};

const POSITIONS: [&str; 8] = [
    "rnbqkbnr/pppppppp/8/8/8/8/PPPPPPPP/RNBQKBNR w KQkq - 0 1",
    "r3k2r/p1ppqpb1/bn2pnp1/3PN3/1p2P3/2N2Q1p/PPPBBPPP/R3K2R w KQkq - 0 1",
    "8/2p5/3p4/KP5r/1R3p1k/8/4P1P1/8 w - - 0 1",
    "r3k2r/Pppp1ppp/1b3nbN/nP6/BBP1P3/q4N2/Pp1P2PP/R2Q1RK1 w kq - 0 1",
    "r2q1rk1/pP1p2pp/Q4n2/bbp1p3/Np6/1B3NBn/pPPP1PPP/R3K2R b KQ - 0 1",
    "rnbq1k1r/pp1Pbppp/2p5/8/2B5/8/PPP1NnPP/RNBQK2R w KQ - 1 8",
    "r4rk1/1pp1qppp/p1np1n2/2b1p1B1/2B1P1b1/P1NP1N2/1PP1QPPP/R4RK1 w - - 0 10",
    "7k/5Q2/6K1/8/8/8/8/8 b - - 0 1",
];

fn sq(text: &str) -> Coord {
    Coord::from_alg(text).unwrap()
}

fn mv(from: &str, to: &str) -> Move {
    Move::new(sq(from), sq(to), None)
}

fn at(board: &Board, text: &str) -> Vec<Move> {
    let mut moves = Vec::new();
    gen_at_coord_illegal(board, sq(text), &mut moves);
    moves
}

fn names(moves: &[Move]) -> Vec<String> {
    moves.iter().map(|m| m.dst.to_alg()).collect()
}

#[test]
fn move_new_keeps_its_parts() {
    let m = Move::new(sq("a7"), sq("a8"), Some(Piece::QueenW));
    assert_eq!(m.orig, sq("a7"));
    assert_eq!(m.dst, sq("a8"));
    assert_eq!(m.prom_tgt, Some(Piece::QueenW));
    assert_eq!(m, Move { orig: sq("a7"), dst: sq("a8"), prom_tgt: Some(Piece::QueenW) });
}

#[test]
fn legal_move_counts_of_known_positions() {
    let counts = [20, 48, 14, 6, 6, 44, 46, 0];
    for (text, count) in POSITIONS.iter().zip(counts) {
        let board = Board::from_fen(text).unwrap();
        assert_eq!(gen_moves(&board).len(), count, "{text}");
    }
}

#[test]
fn flat_and_mapping_forms_agree() {
    for text in POSITIONS {
        let board = Board::from_fen(text).unwrap();
        let flat = gen_moves(&board);
        let dict = gen_move_dict(&board);
        assert_eq!(dict.rows.len(), 64);
        assert_eq!(dict.total(), flat.len(), "{text}");
        let per_origin: usize = dict.rows.iter().map(|row| row.len()).sum();
        assert_eq!(per_origin, flat.len(), "{text}");
        let joined: Vec<Move> = dict.rows.iter().flatten().copied().collect();
        assert_eq!(joined, flat, "{text}");
        for rank in 0..8 {
            for file in 0..8 {
                let c = Coord::from_rf(rank, file).unwrap();
                let from_here: Vec<Move> = flat.iter().filter(|m| m.orig == c).copied().collect();
                assert_eq!(dict.get(c), &from_here);
            }
        }
    }
}

#[test]
fn pseudo_moves_come_square_by_square() {
    let board = Board::start_pos();
    let moves = gen_moves_illegal(&board);
    assert_eq!(moves.len(), 20);
    // The knight on b1 comes first, then the knight on g1, then the pawns.
    assert_eq!(moves[0], mv("b1", "c3"));
    assert_eq!(moves[1], mv("b1", "a3"));
    assert_eq!(moves[2], mv("g1", "h3"));
    assert_eq!(moves[3], mv("g1", "f3"));
    assert_eq!(moves[4], mv("a2", "a3"));
    assert_eq!(moves[5], mv("a2", "a4"));
    assert_eq!(moves[19], mv("h2", "h4"));
}

#[test]
fn a_rook_slides_until_it_is_blocked() {
    let board = Board::from_fen("4k3/8/8/3p4/8/8/3R2P1/4K3 w - - 0 1").unwrap();
    assert_eq!(
        names(&at(&board, "d2")),
        ["d3", "d4", "d5", "d1", "e2", "f2", "c2", "b2", "a2"]
    );
}

#[test]
fn a_bishop_slides_along_the_diagonals() {
    let board = Board::from_fen("4k3/8/5p2/8/3B4/8/1P6/4K3 w - - 0 1").unwrap();
    assert_eq!(
        names(&at(&board, "d4")),
        ["e5", "f6", "c5", "b6", "a7", "e3", "f2", "g1", "c3"]
    );
}

#[test]
fn a_queen_moves_as_rook_and_bishop() {
    let board = Board::from_fen("4k3/8/8/8/3Q4/8/8/4K3 w - - 0 1").unwrap();
    let moves = at(&board, "d4");
    assert_eq!(moves.len(), 27);
    assert_eq!(moves[0], mv("d4", "d5"));
    assert_eq!(moves[14], mv("d4", "e5"));
}

#[test]
fn a_knight_jumps() {
    let board = Board::from_fen("4k3/8/8/8/8/2p5/3P4/1N2K3 w - - 0 1").unwrap();
    assert_eq!(names(&at(&board, "b1")), ["c3", "a3"]);
    let mid = Board::from_fen("4k3/8/8/8/3N4/8/8/4K3 w - - 0 1").unwrap();
    assert_eq!(
        names(&at(&mid, "d4")),
        ["e6", "c6", "f5", "f3", "e2", "c2", "b3", "b5"]
    );
}

#[test]
fn a_king_steps_and_castles() {
    let board = Board::from_fen("r3k2r/8/8/8/8/8/8/R3K2R w KQkq - 0 1").unwrap();
    assert_eq!(names(&at(&board, "e1")), ["d1", "f1", "d2", "e2", "f2", "g1", "c1"]);
    let no_rights = Board::from_fen("r3k2r/8/8/8/8/8/8/R3K2R w kq - 0 1").unwrap();
    assert_eq!(names(&at(&no_rights, "e1")), ["d1", "f1", "d2", "e2", "f2"]);
    assert_eq!(names(&at(&no_rights, "e8")), ["d7", "e7", "f7", "d8", "f8", "g8", "c8"]);
    let blocked = Board::from_fen("rn2k1nr/8/8/8/8/8/8/R2QKB1R w KQkq - 0 1").unwrap();
    assert_eq!(names(&at(&blocked, "e1")), ["d2", "e2", "f2"]);
    assert_eq!(names(&at(&blocked, "e8")), ["d7", "e7", "f7", "d8", "f8"]);
    let no_rook = Board::from_fen("4k3/8/8/8/8/8/8/4K3 w KQkq - 0 1").unwrap();
    assert_eq!(names(&at(&no_rook, "e1")), ["d1", "f1", "d2", "e2", "f2"]);
}

#[test]
fn a_pawn_pushes_and_takes() {
    let board = Board::from_fen("4k3/8/8/8/8/2p1p3/3P4/4K3 w - - 0 1").unwrap();
    assert_eq!(names(&at(&board, "d2")), ["d3", "d4", "c3", "e3"]);
    let blocked = Board::from_fen("4k3/8/8/8/3p4/8/3P4/4K3 w - - 0 1").unwrap();
    assert_eq!(names(&at(&blocked, "d2")), ["d3"]);
    let stuck = Board::from_fen("4k3/8/8/8/8/3p4/3P4/4K3 w - - 0 1").unwrap();
    assert!(at(&stuck, "d2").is_empty());
    let black = Board::from_fen("4k3/3p4/2P1P3/8/8/8/8/4K3 b - - 0 1").unwrap();
    assert_eq!(names(&at(&black, "d7")), ["d6", "d5", "c6", "e6"]);
    let late = Board::from_fen("4k3/8/8/8/8/3P4/8/4K3 w - - 0 1").unwrap();
    assert_eq!(names(&at(&late, "d3")), ["d4"]);
}

#[test]
fn a_pawn_takes_onto_the_en_passant_square() {
    let board = Board::from_fen("4k3/8/8/3pP3/8/8/8/4K3 w - d6 0 1").unwrap();
    assert_eq!(names(&at(&board, "e5")), ["e6", "d6"]);
    let none = Board::from_fen("4k3/8/8/3pP3/8/8/8/4K3 w - - 0 1").unwrap();
    assert_eq!(names(&at(&none, "e5")), ["e6"]);
}

#[test]
fn a_pawn_on_the_last_rank_promotes_four_ways() {
    let board = Board::from_fen("1n2k3/P7/8/8/8/8/8/4K3 w - - 0 1").unwrap();
    let moves = at(&board, "a7");
    let a7 = sq("a7");
    let expected: Vec<Move> = ["a8", "b8"]
        .iter()
        .flat_map(|to| {
            [Piece::QueenW, Piece::KnightW, Piece::BishopW, Piece::RookW]
                .map(|p| Move::new(a7, sq(to), Some(p)))
        })
        .collect();
    assert_eq!(moves, expected);
    let black = Board::from_fen("4k3/8/8/8/8/8/p7/4K3 b - - 0 1").unwrap();
    let down: Vec<Option<Piece>> = at(&black, "a2").iter().map(|m| m.prom_tgt).collect();
    assert_eq!(
        down,
        [Some(Piece::QueenB), Some(Piece::KnightB), Some(Piece::BishopB), Some(Piece::RookB)]
    );
}

#[test]
fn an_empty_square_has_no_moves() {
    let board = Board::start_pos();
    assert!(at(&board, "e4").is_empty());
}

#[test]
fn gen_at_coord_appends_and_ignores_the_turn() {
    let board = Board::start_pos();
    let mut moves = vec![mv("a1", "a1")];
    gen_at_coord_illegal(&board, sq("b8"), &mut moves);
    assert_eq!(moves, [mv("a1", "a1"), mv("b8", "c6"), mv("b8", "a6")]);
}

#[test]
fn add_move_says_whether_it_takes() {
    let board = Board::from_fen("4k3/8/8/8/8/3p4/8/3RK3 w - - 0 1").unwrap();
    let mut moves = Vec::new();
    assert_eq!(add_move(&board, &mut moves, sq("d1"), (1, 0)), Ok(false));
    assert_eq!(add_move(&board, &mut moves, sq("d1"), (2, 0)), Ok(true));
    assert_eq!(add_move(&board, &mut moves, sq("d1"), (0, 1)), Err(()));
    assert_eq!(add_move(&board, &mut moves, sq("d1"), (-1, 0)), Err(()));
    assert_eq!(moves, [mv("d1", "d2"), mv("d1", "d3")]);
}

#[test]
fn a_pinned_piece_may_not_leave_the_line() {
    let board = Board::from_fen("4k3/8/8/8/4r3/8/4N3/4K3 w - - 0 1").unwrap();
    let legal = gen_moves(&board);
    assert!(legal.iter().all(|m| m.orig != sq("e2")));
    assert!(!is_legal(&board, mv("e2", "c3")));
    assert!(is_legal(&board, mv("e1", "d1")));
    assert_eq!(legal.len(), 4);
}

#[test]
fn a_king_may_not_castle_out_of_through_or_into_check() {
    let free = Board::from_fen("4k3/8/8/8/8/8/8/R3K2R w KQ - 0 1").unwrap();
    assert!(is_legal(&free, mv("e1", "g1")));
    assert!(is_legal(&free, mv("e1", "c1")));
    let out_of = Board::from_fen("4k3/8/8/8/8/8/4r3/R3K2R w KQ - 0 1").unwrap();
    assert!(!is_legal(&out_of, mv("e1", "g1")));
    assert!(!is_legal(&out_of, mv("e1", "c1")));
    let through = Board::from_fen("4k3/8/8/8/8/8/5r2/R3K2R w KQ - 0 1").unwrap();
    assert!(!is_legal(&through, mv("e1", "g1")));
    assert!(is_legal(&through, mv("e1", "c1")));
    let into = Board::from_fen("4k3/8/8/8/8/8/6r1/R3K2R w KQ - 0 1").unwrap();
    assert!(!is_legal(&into, mv("e1", "g1")));
    assert!(is_legal(&into, mv("e1", "c1")));
    // The rook may pass over an attacked square.
    let rook_only = Board::from_fen("4k3/8/8/8/8/8/1r6/R3K2R w KQ - 0 1").unwrap();
    assert!(is_legal(&rook_only, mv("e1", "c1")));
}

#[test]
fn taking_in_passing_may_not_uncover_the_king() {
    let board = Board::from_fen("8/8/8/KPp4r/8/8/8/7k w - c6 0 1").unwrap();
    assert!(!is_legal(&board, mv("b5", "c6")));
    assert!(is_legal(&board, mv("b5", "b6")));
}

#[test]
fn in_check_sees_attacks_on_the_king() {
    let board = Board::from_fen("4k3/8/8/8/8/8/4r3/4K3 w - - 0 1").unwrap();
    assert!(in_check(&board, Color::White));
    assert!(!in_check(&board, Color::Black));
    let pawn = Board::from_fen("4k3/3P4/8/8/8/8/8/4K3 b - - 0 1").unwrap();
    assert!(in_check(&pawn, Color::Black));
    assert!(!in_check(&Board::start_pos(), Color::White));
}

#[test]
fn keep_legal_filters_in_order() {
    let board = Board::from_fen("4k3/8/8/8/4r3/8/4N3/4K3 w - - 0 1").unwrap();
    let given = vec![mv("e1", "f1"), mv("e2", "c3"), mv("e1", "d1"), mv("e2", "g1")];
    assert_eq!(keep_legal(&board, &given), [mv("e1", "f1"), mv("e1", "d1")]);
}

#[test]
fn checkmate_and_stalemate_leave_no_legal_move() {
    let mated = Board::from_fen("rnb1kbnr/pppp1ppp/8/4p3/6Pq/5P2/PPPPP2P/RNBQKBNR w KQkq - 1 3")
        .unwrap();
    assert!(gen_moves(&mated).is_empty());
    assert!(in_check(&mated, Color::White));
    let stale = Board::from_fen("7k/5Q2/6K1/8/8/8/8/8 b - - 0 1").unwrap();
    assert!(gen_moves(&stale).is_empty());
    assert!(!in_check(&stale, Color::Black));
}

#[test]
fn move_text_is_read() {
    assert_eq!(Move::from_text("e2e4", Color::White).unwrap(), mv("e2", "e4"));
    assert_eq!(Move::from_text("g8f6", Color::Black).unwrap(), mv("g8", "f6"));
    assert_eq!(
        Move::from_text("a7a8q", Color::White).unwrap(),
        Move::new(sq("a7"), sq("a8"), Some(Piece::QueenW))
    );
    assert_eq!(
        Move::from_text("a2a1n", Color::Black).unwrap(),
        Move::new(sq("a2"), sq("a1"), Some(Piece::KnightB))
    );
    assert_eq!(
        Move::from_text("h7h8R", Color::White).unwrap().prom_tgt,
        Some(Piece::RookW)
    );
    assert_eq!(
        Move::from_text("h7h8b", Color::White).unwrap().prom_tgt,
        Some(Piece::BishopW)
    );
    assert_eq!(Move::from_text("h7h8k", Color::White).unwrap().prom_tgt, None);
    assert_eq!(Move::from_text("h7h8qq", Color::White).unwrap().prom_tgt, Some(Piece::QueenW));
}

#[test]
fn move_text_that_names_no_move_is_refused() {
    for (text, part) in [
        ("", ""),
        ("e2", "e2"),
        ("e2e", "e2e"),
        ("i2e4", "i2"),
        ("e9e4", "e9"),
        ("e2e9", "e9"),
        ("e2x4q", "x4"),
        ("0000", "00"),
    ] {
        let e = Move::from_text(text, Color::White).unwrap_err();
        assert_eq!(e.message(), format!("Invalid Coordinate: {part}"), "{text}");
    }
}

#[test]
fn move_text_is_written() {
    assert_eq!(mv("e2", "e4").to_text(), "e2e4");
    assert_eq!(Move::new(sq("a7"), sq("a8"), Some(Piece::QueenW)).to_text(), "a7a8q");
    assert_eq!(Move::new(sq("a2"), sq("a1"), Some(Piece::KnightB)).to_text(), "a2a1n");
    assert_eq!(Move::new(sq("a2"), sq("a1"), Some(Piece::RookB)).to_text(), "a2a1r");
    assert_eq!(Move::new(sq("a2"), sq("a1"), Some(Piece::BishopW)).to_text(), "a2a1b");
    for text in ["e2e4", "a7a8q", "h2h1n", "b7c8r", "g2g1b"] {
        assert_eq!(Move::from_text(text, Color::White).unwrap().to_text(), text);
    }
}
