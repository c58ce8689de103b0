use huscee::board::Board;
use huscee::moves::gen_moves;

const KIWIPETE: &str = "r3k2r/p1ppqpb1/bn2pnp1/3PN3/1p2P3/2N2Q1p/PPPBBPPP/R3K2R w KQkq - 0 1";

#[test]
fn perft_startpos_depth_1() {
    assert_eq!(Board::start_pos().perft(1), 20);
}

#[test]
fn perft_startpos_depth_2() {
    assert_eq!(Board::start_pos().perft(2), 400);
}

#[test]
fn perft_startpos_depth_3() {
    assert_eq!(Board::start_pos().perft(3), 8902);
}

#[test]
fn perft_kiwipete_depth_1() {
    let board = Board::from_fen(KIWIPETE).unwrap();
    assert_eq!(gen_moves(&board).len(), 48);
    assert_eq!(board.perft(1), 48);
}

#[test]
fn perft_kiwipete_depth_2() {
    assert_eq!(Board::from_fen(KIWIPETE).unwrap().perft(2), 2039);
}

#[test]
fn perft_depth_0_is_one() {
    assert_eq!(Board::start_pos().perft(0), 1);
}

#[test]
fn perft_startpos_depth_4() {
    assert_eq!(Board::start_pos().perft(4), 197281);
}

#[test]
fn perft_startpos_depth_5() {
    assert_eq!(Board::start_pos().perft(5), 4865609);
}

#[test]
fn perft_kiwipete_depth_3() {
    assert_eq!(Board::from_fen(KIWIPETE).unwrap().perft(3), 97862);
}

#[test]
fn perft_of_other_known_positions() {
    let cases: [(&str, [u64; 3]); 5] = [
        ("8/2p5/3p4/KP5r/1R3p1k/8/4P1P1/8 w - - 0 1", [14, 191, 2812]),
        (
            "r3k2r/Pppp1ppp/1b3nbN/nP6/BBP1P3/q4N2/Pp1P2PP/R2Q1RK1 w kq - 0 1",
            [6, 264, 9467],
        ),
        (
            "r2q1rk1/pP1p2pp/Q4n2/bbp1p3/Np6/1B3NBn/pPPP1PPP/R3K2R b KQ - 0 1",
            [6, 264, 9467],
        ),
        ("rnbq1k1r/pp1Pbppp/2p5/8/2B5/8/PPP1NnPP/RNBQK2R w KQ - 1 8", [44, 1486, 62379]),
        (
            "r4rk1/1pp1qppp/p1np1n2/2b1p1B1/2B1P1b1/P1NP1N2/1PP1QPPP/R4RK1 w - - 0 10",
            [46, 2079, 89890],
        ),
    ];
    for (text, counts) in cases {
        let board = Board::from_fen(text).unwrap();
        for (depth, count) in counts.iter().enumerate() {
            assert_eq!(board.perft(depth + 1), *count, "{text} at depth {}", depth + 1);
        }
    }
}

#[test]
fn perft_split_adds_up_to_perft() {
    let board = Board::from_fen(KIWIPETE).unwrap();
    assert!(board.perft_split(0).is_empty());
    let split = board.perft_split(2);
    let moves = gen_moves(&board);
    assert_eq!(split.len(), 48);
    for (i, (mov, count)) in split.iter().enumerate() {
        assert_eq!(*mov, moves[i]);
        let mut next = board.clone();
        next.make_move(*mov);
        assert_eq!(*count, next.perft(1));
    }
    assert_eq!(split.iter().map(|(_, n)| n).sum::<u64>(), 2039);
    let first: Vec<u64> = Board::start_pos().perft_split(1).iter().map(|(_, n)| *n).collect();
    assert_eq!(first, [1; 20]);
}
