use cgir::board::Board;
use cgir::board_widget::{BoardWidget, Outcome, PlainMove, Release, Side};
use cgir::chess_utils::PieceKind;

#[test]
fn corner_squares() {
    let board = Board::default();
    assert!(board.is_light(0, 0));
    assert!(!board.is_light(0, 1));
    assert!(!board.is_light(7, 0));
    assert!(board.is_light(7, 7));
}

#[test]
fn colours_alternate() {
    let board = Board {};
    for row in 0..8u8 {
        for col in 0..7u8 {
            assert_ne!(board.is_light(row, col), board.is_light(row, col + 1));
            assert_ne!(board.is_light(col, row), board.is_light(col + 1, row));
        }
    }
}

#[test]
fn cells_with_white_at_the_bottom() {
    let board = BoardWidget::new();
    assert!(board.white_bottom);
    assert_eq!(board.selected_square, None);
    assert_eq!(board.point2square(7, 0), 0);
    assert_eq!(board.point2square(0, 7), 63);
    assert_eq!(board.point2square(6, 4), 12);
    assert_eq!(board.square2rect(12), (6, 4));
    assert_eq!(board.square2rect(0), (7, 0));
}

#[test]
fn cells_with_black_at_the_bottom() {
    let board = BoardWidget { white_bottom: false, selected_square: None };
    assert_eq!(board.point2square(0, 7), 0);
    assert_eq!(board.point2square(7, 0), 63);
    assert_eq!(board.point2square(1, 3), 12);
    assert_eq!(board.square2rect(12), (1, 3));
}

#[test]
fn cells_and_squares_undo_each_other() {
    for white_bottom in [true, false] {
        let board = BoardWidget { white_bottom, selected_square: None };
        for square in 0..64u8 {
            let (row, col) = board.square2rect(square);
            assert_eq!(board.point2square(row, col), square);
        }
    }
}

fn plain(source: u8, dest: u8) -> PlainMove {
    PlainMove { source, dest, promotion: None }
}

fn release(down: u8, up: u8, down_side: Option<Side>) -> Release {
    Release {
        down,
        up,
        side_to_move: Side::White,
        down_side,
        legal: vec![
            plain(12, 20),
            plain(12, 28),
            plain(1, 18),
            PlainMove { source: 52, dest: 60, promotion: Some(PieceKind::Queen) },
            PlainMove { source: 52, dest: 60, promotion: Some(PieceKind::Knight) },
            plain(3, 39),
        ],
    }
}

#[test]
fn legal_drag_makes_the_move() {
    let mut board = BoardWidget { white_bottom: true, selected_square: Some(1) };
    let outcome = board.event(&release(12, 28, Some(Side::White)));
    assert_eq!(outcome, Outcome { chess_move: Some(plain(12, 28)), repaint: false });
    assert_eq!(board.selected_square, None);
}

#[test]
fn other_drags_change_nothing() {
    let mut board = BoardWidget { white_bottom: true, selected_square: Some(1) };
    assert_eq!(board.event(&release(12, 36, Some(Side::White))), Outcome { chess_move: None, repaint: false });
    assert_eq!(board.selected_square, Some(1));
    assert_eq!(board.event(&release(12, 28, Some(Side::Black))), Outcome { chess_move: None, repaint: false });
    assert_eq!(board.selected_square, Some(1));
    assert_eq!(board.event(&release(52, 60, Some(Side::White))), Outcome { chess_move: None, repaint: false });
    assert_eq!(board.selected_square, Some(1));
}

#[test]
fn click_selects_own_piece() {
    let mut board = BoardWidget::new();
    assert_eq!(board.event(&release(12, 12, Some(Side::White))), Outcome { chess_move: None, repaint: true });
    assert_eq!(board.selected_square, Some(12));
    let mut board = BoardWidget::new();
    assert_eq!(board.event(&release(52, 52, Some(Side::Black))), Outcome { chess_move: None, repaint: false });
    assert_eq!(board.selected_square, None);
    assert_eq!(board.event(&release(30, 30, None)), Outcome { chess_move: None, repaint: false });
    assert_eq!(board.selected_square, None);
}

#[test]
fn click_with_a_selection() {
    let mut board = BoardWidget { white_bottom: true, selected_square: Some(12) };
    assert_eq!(board.event(&release(12, 12, Some(Side::White))), Outcome { chess_move: None, repaint: true });
    assert_eq!(board.selected_square, None);

    let mut board = BoardWidget { white_bottom: true, selected_square: Some(12) };
    assert_eq!(board.event(&release(1, 1, Some(Side::White))), Outcome { chess_move: None, repaint: true });
    assert_eq!(board.selected_square, Some(1));

    let mut board = BoardWidget { white_bottom: true, selected_square: Some(12) };
    assert_eq!(board.event(&release(28, 28, None)), Outcome { chess_move: Some(plain(12, 28)), repaint: true });
    assert_eq!(board.selected_square, None);

    let mut board = BoardWidget { white_bottom: true, selected_square: Some(12) };
    assert_eq!(board.event(&release(36, 36, None)), Outcome { chess_move: None, repaint: true });
    assert_eq!(board.selected_square, Some(12));

    let mut board = BoardWidget { white_bottom: true, selected_square: Some(3) };
    assert_eq!(board.event(&release(39, 39, Some(Side::Black))), Outcome { chess_move: Some(plain(3, 39)), repaint: true });
    assert_eq!(board.selected_square, None);

    let mut board = BoardWidget { white_bottom: true, selected_square: Some(3) };
    assert_eq!(board.event(&release(38, 38, Some(Side::Black))), Outcome { chess_move: None, repaint: true });
    assert_eq!(board.selected_square, None);
}

#[test]
fn click_takes_the_first_promotion() {
    let mut board = BoardWidget { white_bottom: true, selected_square: Some(52) };
    let outcome = board.event(&release(60, 60, None));
    assert_eq!(outcome.chess_move, Some(PlainMove { source: 52, dest: 60, promotion: Some(PieceKind::Queen) }));
    assert_eq!(board.selected_square, None);
}
