use cgir::blunder::{BlunderError, BlunderVerdict, BLUNDER_THRESHOLD};
use cgir::session::{Analysis, PossibleMove};
use cgir::uci::Uci;
use chess::{ChessMove, Square};

fn mv(source: Square, dest: Square) -> ChessMove {
    ChessMove::new(source, dest, None)
}

fn line(multi_pv: u16, score: i32, moves: Vec<ChessMove>) -> Analysis {
    Analysis::PossibleMove(PossibleMove { depth: 18, score, multi_pv, moves })
}

fn best(chess_move: ChessMove) -> Analysis {
    Analysis::BestMove { best_move: chess_move, ponder: None }
}

fn first_session() -> Vec<Analysis> {
    vec![
        line(1, 10, vec![mv(Square::E2, Square::E4)]),
        line(2, 5, vec![mv(Square::D2, Square::D4)]),
        line(3, -20, vec![mv(Square::G1, Square::F3), mv(Square::G8, Square::F6)]),
        line(1, 30, vec![mv(Square::C2, Square::C4), mv(Square::E7, Square::E5)]),
        best(mv(Square::C2, Square::C4)),
    ]
}

#[test]
fn check_for_blunder_test() {
    let blunder_move = ChessMove::new(Square::B1, Square::B3, None);
    let first = first_session();
    assert!(!Uci::settles(&first, blunder_move));
    let second = vec![
        line(1, 450, vec![mv(Square::C6, Square::D4)]),
        line(2, 380, vec![mv(Square::F6, Square::E4)]),
        best(mv(Square::C6, Square::D4)),
    ];
    let verdict = Uci::check_for_blunder(&first, blunder_move, &second).unwrap();
    assert!(verdict.is_blunder);
    assert_eq!(verdict.evaluation_of_proposed_line, Some(450));
    assert_eq!(
        verdict.ranked_alternatives,
        vec![(-20, mv(Square::G1, Square::F3)), (5, mv(Square::D2, Square::D4)), (30, mv(Square::C2, Square::C4))]
    );
}

#[test]
fn best_scores_are_the_highest() {
    let proposed = mv(Square::A2, Square::A4);
    // the mover's best is +30; the opponent's best reply is worth -40 to the opponent
    let second = vec![line(1, -300, vec![mv(Square::C6, Square::D4)]), line(2, -40, vec![mv(Square::F6, Square::E4)])];
    let verdict = Uci::check_for_blunder(&first_session(), proposed, &second).unwrap();
    assert!(!verdict.is_blunder);
    assert_eq!(verdict.evaluation_of_proposed_line, Some(-40));
    // a reply worth +171 to the opponent costs the mover 30 + 171 = 201
    let second = vec![line(1, -300, vec![mv(Square::C6, Square::D4)]), line(2, 171, vec![mv(Square::F6, Square::E4)])];
    let verdict = Uci::check_for_blunder(&first_session(), proposed, &second).unwrap();
    assert!(verdict.is_blunder);
    assert_eq!(verdict.evaluation_of_proposed_line, Some(171));
}

#[test]
fn later_line_replaces_earlier_at_its_index() {
    let ranked = Uci::rank_alternatives(&first_session());
    assert_eq!(
        ranked,
        vec![(-20, mv(Square::G1, Square::F3)), (5, mv(Square::D2, Square::D4)), (30, mv(Square::C2, Square::C4))]
    );
}

#[test]
fn equal_scores_rank_by_index() {
    let events = vec![
        line(3, 7, vec![mv(Square::A2, Square::A3)]),
        line(1, 7, vec![mv(Square::B2, Square::B3)]),
        line(2, 7, vec![mv(Square::C2, Square::C3)]),
        line(4, -1, vec![mv(Square::D2, Square::D3)]),
    ];
    assert_eq!(
        Uci::rank_alternatives(&events),
        vec![
            (-1, mv(Square::D2, Square::D3)),
            (7, mv(Square::B2, Square::B3)),
            (7, mv(Square::C2, Square::C3)),
            (7, mv(Square::A2, Square::A3)),
        ]
    );
}

#[test]
fn lines_without_moves_give_no_alternative() {
    let events = vec![line(1, 10, vec![mv(Square::E2, Square::E4)]), line(1, 0, vec![]), line(2, 3, vec![mv(Square::D2, Square::D4)])];
    assert_eq!(Uci::rank_alternatives(&events), vec![(3, mv(Square::D2, Square::D4))]);
    assert_eq!(Uci::rank_alternatives(&vec![]), vec![]);
}

#[test]
fn top_ranked_move_is_no_blunder() {
    let first = first_session();
    let ranked = Uci::rank_alternatives(&first);
    for (_, listed) in ranked.iter() {
        assert!(Uci::settles(&first, *listed));
        let verdict = Uci::check_for_blunder(&first, *listed, &vec![]).unwrap();
        assert_eq!(
            verdict,
            BlunderVerdict { is_blunder: false, ranked_alternatives: ranked.clone(), evaluation_of_proposed_line: None }
        );
    }
}

#[test]
fn replaced_move_is_no_longer_listed() {
    assert!(!Uci::settles(&first_session(), mv(Square::E2, Square::E4)));
    assert!(!Uci::settles(&first_session(), ChessMove::new(Square::C2, Square::C4, Some(chess::Piece::Queen))));
}

#[test]
fn loss_at_the_threshold_is_no_blunder() {
    assert_eq!(BLUNDER_THRESHOLD, 200);
    let first = vec![line(1, 50, vec![mv(Square::E2, Square::E4)]), line(2, -10, vec![mv(Square::D2, Square::D4)])];
    let proposed = mv(Square::A2, Square::A4);
    let at = vec![line(1, 150, vec![mv(Square::E7, Square::E5)]), line(2, -900, vec![mv(Square::D7, Square::D5)])];
    let verdict = Uci::check_for_blunder(&first, proposed, &at).unwrap();
    assert!(!verdict.is_blunder);
    assert_eq!(verdict.evaluation_of_proposed_line, Some(150));
    let above = vec![line(1, 151, vec![mv(Square::E7, Square::E5)])];
    let verdict = Uci::check_for_blunder(&first, proposed, &above).unwrap();
    assert!(verdict.is_blunder);
    assert_eq!(verdict.evaluation_of_proposed_line, Some(151));
    assert_eq!(verdict.ranked_alternatives, vec![(-10, mv(Square::D2, Square::D4)), (50, mv(Square::E2, Square::E4))]);
}

#[test]
fn extreme_scores_do_not_overflow() {
    let first = vec![line(1, i32::MAX, vec![mv(Square::E2, Square::E4)])];
    let second = vec![line(1, i32::MAX, vec![mv(Square::E7, Square::E5)])];
    assert!(Uci::check_for_blunder(&first, mv(Square::A2, Square::A4), &second).unwrap().is_blunder);
    let first = vec![line(1, i32::MIN, vec![mv(Square::E2, Square::E4)])];
    let second = vec![line(1, i32::MIN, vec![mv(Square::E7, Square::E5)])];
    assert!(!Uci::check_for_blunder(&first, mv(Square::A2, Square::A4), &second).unwrap().is_blunder);
}

#[test]
fn no_candidates_is_an_error() {
    let proposed = mv(Square::A2, Square::A4);
    assert_eq!(Uci::check_for_blunder(&vec![], proposed, &vec![]), Err(BlunderError::NoCandidates));
    let only_best = vec![best(mv(Square::E2, Square::E4))];
    assert_eq!(Uci::check_for_blunder(&only_best, proposed, &first_session()), Err(BlunderError::NoCandidates));
}

#[test]
fn no_responses_is_an_error() {
    let proposed = mv(Square::A2, Square::A4);
    let second = vec![line(1, 12, vec![]), best(mv(Square::E7, Square::E5))];
    assert_eq!(Uci::check_for_blunder(&first_session(), proposed, &second), Err(BlunderError::NoResponses));
}
