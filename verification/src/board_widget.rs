//! The board as the player handles it: which square a cell of the drawing
//! area is, and what a press and release of the mouse does to the game.

use vstd::prelude::*;

use crate::chess_utils::PieceKind;

verus! {

#[derive(Clone, Copy, Debug, PartialEq, Eq, Structural)]
pub enum Side {
    White,
    Black,
}

/// A move by its squares, counted from 0 at a1 along the ranks to 63 at h8.
#[derive(Clone, Copy, Debug, PartialEq, Eq, Structural)]
pub struct PlainMove {
    pub source: u8,
    pub dest: u8,
    pub promotion: Option<PieceKind>,
}

/// What the board knows of the position when the mouse is released.
#[derive(Clone, Debug, PartialEq, Eq)]
pub struct Release {
    /// The square the mouse was pressed on.
    pub down: u8,
    /// The square the mouse was released on.
    pub up: u8,
    pub side_to_move: Side,
    /// The side of the piece on the square the mouse was pressed on.
    pub down_side: Option<Side>,
    /// Every legal move of the position.
    pub legal: Vec<PlainMove>,
}

/// What follows from a release of the mouse.
#[derive(Clone, Copy, Debug, PartialEq, Eq, Structural)]
pub struct Outcome {
    /// The move to make in the game, if any.
    pub chess_move: Option<PlainMove>,
    /// Whether the board is to be painted again.
    pub repaint: bool,
}

/// The state of the board between events of the mouse.
#[derive(Clone, Copy, Debug, PartialEq, Eq, Structural)]
pub struct BoardWidget {
    /// Whether white is at the bottom of the board.
    pub white_bottom: bool,
    pub selected_square: Option<u8>,
}

/// The square in a row and column of the drawing area, both counted from the
/// upper-left corner.
pub open spec fn square_at(white_bottom: bool, row: u8, col: u8) -> int {
    if white_bottom {
        8 * (7 - row) + col
    } else {
        8 * row + (7 - col)
    }
}

/// The row and column of the drawing area in which a square is drawn.
pub open spec fn cell_of(white_bottom: bool, square: u8) -> (int, int) {
    if white_bottom {
        (7 - square / 8, (square % 8) as int)
    } else {
        ((square / 8) as int, 7 - square % 8)
    }
}

/// The first legal move, from index `from` on, between the two squares.
pub open spec fn first_between(legal: Seq<PlainMove>, source: u8, dest: u8, from: int) -> Option<PlainMove>
    decreases legal.len() - from,
{
    if from < 0 || from >= legal.len() {
        None
    } else if legal[from].source == source && legal[from].dest == dest {
        Some(legal[from])
    } else {
        first_between(legal, source, dest, from + 1)
    }
}

/// The selection after a click on a square while another is selected: the
/// mover's own piece becomes the selection, the opponent's piece clears it, and
/// an empty square leaves it.
pub open spec fn reselected(selected: u8, release: Release) -> Option<u8> {
    match release.down_side {
        Some(side) => if side == release.side_to_move {
            Some(release.down)
        } else {
            None
        },
        None => Some(selected),
    }
}

/// The move that a click on a square makes while another is selected: none
/// where the click selects the mover's own piece, else the first legal move
/// from the selected square to the clicked one.
pub open spec fn clicked_move(selected: u8, release: Release) -> Option<PlainMove> {
    if release.down_side is None || reselected(selected, release) is None {
        first_between(release.legal@, selected, release.down, 0)
    } else {
        None
    }
}

/// The selection after the mouse is released.
///
/// A drag moves the piece where the move without promotion is legal, and then
/// nothing is selected; any other drag leaves the selection. A click on the
/// selected square clears the selection, a click elsewhere makes the move of
/// `clicked_move` or selects as `reselected` says, and a click with nothing
/// selected selects the mover's own piece.
pub open spec fn selection_after(selected: Option<u8>, release: Release) -> Option<u8> {
    if release.down != release.up {
        if release.down_side == Some(release.side_to_move) && release.legal@.contains(
            PlainMove { source: release.down, dest: release.up, promotion: None },
        ) {
            None
        } else {
            selected
        }
    } else {
        match selected {
            Some(square) => if square == release.up || clicked_move(square, release) is Some {
                None
            } else {
                reselected(square, release)
            },
            None => if release.down_side == Some(release.side_to_move) {
                Some(release.down)
            } else {
                None
            },
        }
    }
}

/// The move that the release of the mouse makes, if any.
pub open spec fn move_after(selected: Option<u8>, release: Release) -> Option<PlainMove> {
    if release.down != release.up {
        let target = PlainMove { source: release.down, dest: release.up, promotion: None };
        if release.down_side == Some(release.side_to_move) && release.legal@.contains(target) {
            Some(target)
        } else {
            None
        }
    } else {
        match selected {
            Some(square) => if square == release.up {
                None
            } else {
                clicked_move(square, release)
            },
            None => None,
        }
    }
}

/// Whether the board is painted again after the release: after every click
/// but one that selects nothing, and after no drag.
pub open spec fn repaint_after(selected: Option<u8>, release: Release) -> bool {
    release.down == release.up && (selected is Some || release.down_side == Some(release.side_to_move))
}

fn same_side(side: Option<Side>, other: Side) -> (same: bool)
    ensures
        same == (side == Some(other)),
{
    match side {
        Some(found) => found == other,
        None => false,
    }
}

fn find_move(legal: &Vec<PlainMove>, target: PlainMove) -> (found: bool)
    ensures
        found == legal@.contains(target),
{
    let mut i: usize = 0;
    while i < legal.len()
        invariant
            i <= legal.len(),
            forall|j: int| 0 <= j < i ==> legal@[j] != target,
        decreases legal.len() - i,
    {
        if legal[i] == target {
            return true;
        }
        i += 1;
    }
    false
}

fn find_between(legal: &Vec<PlainMove>, source: u8, dest: u8) -> (found: Option<PlainMove>)
    ensures
        found == first_between(legal@, source, dest, 0),
{
    let mut i: usize = 0;
    while i < legal.len()
        invariant
            i <= legal.len(),
            first_between(legal@, source, dest, 0) == first_between(legal@, source, dest, i as int),
        decreases legal.len() - i,
    {
        if legal[i].source == source && legal[i].dest == dest {
            return Some(legal[i]);
        }
        i += 1;
    }
    None
}

impl BoardWidget {
    /// A board with white at the bottom and nothing selected.
    pub fn new() -> (board: Self)
        ensures
            board.white_bottom,
            board.selected_square is None,
    {
        BoardWidget { white_bottom: true, selected_square: None }
    }

    /// The square that a point of the drawing area lies on, from the row and
    /// column of the point.
    pub fn point2square(&self, row: u8, col: u8) -> (square: u8)
        requires
            row < 8,
            col < 8,
        ensures
            square == square_at(self.white_bottom, row, col),
            square < 64,
    {
        if self.white_bottom {
            8 * (7 - row) + col
        } else {
            8 * row + (7 - col)
        }
    }

    /// The row and column of the rectangle that a square is drawn in.
    pub fn square2rect(&self, square: u8) -> (cell: (u8, u8))
        requires
            square < 64,
        ensures
            (cell.0 as int, cell.1 as int) == cell_of(self.white_bottom, square),
            cell.0 < 8,
            cell.1 < 8,
    {
        if self.white_bottom {
            (7 - square / 8, square % 8)
        } else {
            (square / 8, 7 - square % 8)
        }
    }

    /// Takes the release of the mouse: selects, clears the selection, or
    /// finds the move to make.
    pub fn event(&mut self, release: &Release) -> (outcome: Outcome)
        requires
            release.down != release.up ==> release.down_side is Some,
        ensures
            final(self).white_bottom == old(self).white_bottom,
            final(self).selected_square == selection_after(old(self).selected_square, *release),
            outcome.chess_move == move_after(old(self).selected_square, *release),
            outcome.repaint == repaint_after(old(self).selected_square, *release),
    {
        let own = same_side(release.down_side, release.side_to_move);
        if release.down != release.up {
            let target = PlainMove { source: release.down, dest: release.up, promotion: None };
            if own && find_move(&release.legal, target) {
                self.selected_square = None;
                return Outcome { chess_move: Some(target), repaint: false };
            }
            return Outcome { chess_move: None, repaint: false };
        }
        match self.selected_square {
            Some(square) => {
                if square == release.up {
                    self.selected_square = None;
                    return Outcome { chess_move: None, repaint: true };
                }
                let reselection = match release.down_side {
                    Some(_) => if own {
                        Some(release.down)
                    } else {
                        None
                    },
                    None => Some(square),
                };
                let chess_move = if release.down_side.is_none() || reselection.is_none() {
                    find_between(&release.legal, square, release.down)
                } else {
                    None
                };
                self.selected_square = if chess_move.is_some() {
                    None
                } else {
                    reselection
                };
                Outcome { chess_move, repaint: true }
            },
            None => {
                if own {
                    self.selected_square = Some(release.down);
                }
                Outcome { chess_move: None, repaint: own }
            },
        }
    }
}

/// The square of a cell is drawn in that cell, and the cell of a square
/// holds that square: the two mappings undo each other, whichever side is at
/// the bottom.
pub proof fn law_cells_and_squares(white_bottom: bool, row: u8, col: u8, square: u8)
    requires
        row < 8,
        col < 8,
        square < 64,
    ensures
        0 <= square_at(white_bottom, row, col) < 64,
        cell_of(white_bottom, square_at(white_bottom, row, col) as u8) == (row as int, col as int),
        square_at(white_bottom, cell_of(white_bottom, square).0 as u8, cell_of(white_bottom, square).1 as u8)
            == square,
{
}

/// A move that the release of the mouse makes is a legal move, and after it
/// nothing is selected.
pub proof fn law_moves_are_legal(selected: Option<u8>, release: Release)
    ensures
        move_after(selected, release) is Some ==> release.legal@.contains(move_after(selected, release)->0)
            && selection_after(selected, release) is None,
{
    if release.down == release.up && selected is Some {
        lemma_first_is_member(release.legal@, selected->0, release.down, 0);
    }
}

proof fn lemma_first_is_member(legal: Seq<PlainMove>, source: u8, dest: u8, from: int)
    requires
        0 <= from,
    ensures
        first_between(legal, source, dest, from) is Some ==> legal.contains(
            first_between(legal, source, dest, from)->0,
        ),
    decreases legal.len() - from,
{
    if from < legal.len() {
        if legal[from].source == source && legal[from].dest == dest {
            assert(legal.contains(legal[from]));
        } else {
            lemma_first_is_member(legal, source, dest, from + 1);
        }
    }
}

} // verus!
