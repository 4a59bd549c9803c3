//! Moves written out in algebraic notation, and the rows of the move list.

use vstd::prelude::*;
use vstd::string::StringExecFns;

verus! {

#[derive(Clone, Copy, Debug, PartialEq, Eq, Structural)]
pub enum PieceKind {
    Pawn,
    Knight,
    Bishop,
    Rook,
    Queen,
    King,
}

/// How the game stands on the board the move is made on.
#[derive(Clone, Copy, Debug, PartialEq, Eq, Structural)]
pub enum Status {
    Ongoing,
    Stalemate,
    Checkmate,
}

/// A legal move to the destination: the square it starts on and the piece
/// that makes it. Squares are counted from 0 at a1 along the ranks to 63 at h8.
#[derive(Clone, Copy, Debug, PartialEq, Eq, Structural)]
pub struct Arrival {
    pub source: u8,
    pub piece: PieceKind,
}

/// What the notation of a move reads off the move and the board.
#[derive(Clone, Debug, PartialEq, Eq)]
pub struct MoveFacts {
    pub source: u8,
    pub dest: u8,
    pub promotion: Option<PieceKind>,
    /// The piece on the source square.
    pub piece: Option<PieceKind>,
    /// Whether a piece stands on the destination.
    pub capture: bool,
    /// Every legal move to the destination.
    pub arrivals: Vec<Arrival>,
    pub status: Status,
    /// How many pieces give check.
    pub checkers: u32,
}

/// What two arrivals must share to stand in each other's way.
#[derive(Clone, Copy, Debug, PartialEq, Eq, Structural)]
pub enum Shared {
    Destination,
    File,
    Rank,
}

pub open spec fn file_text(square: u8) -> Seq<char> {
    match square % 8 {
        0 => "a"@,
        1 => "b"@,
        2 => "c"@,
        3 => "d"@,
        4 => "e"@,
        5 => "f"@,
        6 => "g"@,
        _ => "h"@,
    }
}

pub open spec fn rank_text(square: u8) -> Seq<char> {
    match square / 8 {
        0 => "1"@,
        1 => "2"@,
        2 => "3"@,
        3 => "4"@,
        4 => "5"@,
        5 => "6"@,
        6 => "7"@,
        _ => "8"@,
    }
}

pub open spec fn square_text(square: u8) -> Seq<char> {
    file_text(square) + rank_text(square)
}

/// The capital letter of a piece.
pub open spec fn piece_letter(piece: PieceKind) -> Seq<char> {
    match piece {
        PieceKind::Pawn => "P"@,
        PieceKind::Knight => "N"@,
        PieceKind::Bishop => "B"@,
        PieceKind::Rook => "R"@,
        PieceKind::Queen => "Q"@,
        PieceKind::King => "K"@,
    }
}

/// The small letter of a piece.
pub open spec fn small_letter(piece: PieceKind) -> Seq<char> {
    match piece {
        PieceKind::Pawn => "p"@,
        PieceKind::Knight => "n"@,
        PieceKind::Bishop => "b"@,
        PieceKind::Rook => "r"@,
        PieceKind::Queen => "q"@,
        PieceKind::King => "k"@,
    }
}

/// Two arrivals of pieces of the given kind start on different squares and
/// share what `shared` names.
pub open spec fn rivals(first: Arrival, second: Arrival, piece: PieceKind, shared: Shared) -> bool {
    &&& first.piece == piece
    &&& second.piece == piece
    &&& first.source != second.source
    &&& match shared {
        Shared::Destination => true,
        Shared::File => first.source % 8 == second.source % 8,
        Shared::Rank => first.source / 8 == second.source / 8,
    }
}

/// Some two arrivals are rivals.
pub open spec fn contested(arrivals: Seq<Arrival>, piece: PieceKind, shared: Shared) -> bool {
    exists|i: int, j: int|
        0 <= i < arrivals.len() && 0 <= j < arrivals.len() && rivals(arrivals[i], arrivals[j], piece, shared)
}

/// What tells the moving piece from others of its kind that can reach the
/// destination: nothing where it is the only one; its file where no two of
/// them share a file; else its rank where no two share a rank; else its square.
pub open spec fn disambiguation(facts: MoveFacts, piece: PieceKind) -> Seq<char> {
    if !contested(facts.arrivals@, piece, Shared::Destination) {
        ""@
    } else if !contested(facts.arrivals@, piece, Shared::File) {
        file_text(facts.source)
    } else if !contested(facts.arrivals@, piece, Shared::Rank) {
        rank_text(facts.source)
    } else {
        square_text(facts.source)
    }
}

pub open spec fn piece_part(piece: PieceKind) -> Seq<char> {
    if piece == PieceKind::Pawn {
        ""@
    } else {
        piece_letter(piece)
    }
}

pub open spec fn capture_part(facts: MoveFacts) -> Seq<char> {
    if facts.capture {
        "x"@
    } else {
        ""@
    }
}

pub open spec fn promotion_part(facts: MoveFacts) -> Seq<char> {
    match facts.promotion {
        Some(piece) => "="@ + piece_letter(piece),
        None => ""@,
    }
}

pub open spec fn check_part(facts: MoveFacts) -> Seq<char> {
    if facts.status == Status::Checkmate {
        "#"@
    } else if facts.checkers != 0 {
        "+"@
    } else {
        ""@
    }
}

/// The move as source and destination, with the small letter of a promotion.
pub open spec fn plain_text(facts: MoveFacts) -> Seq<char> {
    square_text(facts.source) + square_text(facts.dest) + match facts.promotion {
        Some(piece) => small_letter(piece),
        None => ""@,
    }
}

/// The notation of a move. A move from an empty square is written plainly,
/// and any move on a board in stalemate as a draw.
pub open spec fn notation_of(facts: MoveFacts) -> Seq<char> {
    match facts.piece {
        None => plain_text(facts),
        Some(piece) => if facts.status == Status::Stalemate {
            "(=)"@
        } else {
            piece_part(piece) + disambiguation(facts, piece) + capture_part(facts) + square_text(facts.dest)
                + promotion_part(facts) + check_part(facts)
        },
    }
}

fn file_name(square: u8) -> (text: &'static str)
    ensures
        text@ == file_text(square),
{
    match square % 8 {
        0 => "a",
        1 => "b",
        2 => "c",
        3 => "d",
        4 => "e",
        5 => "f",
        6 => "g",
        _ => "h",
    }
}

fn rank_name(square: u8) -> (text: &'static str)
    ensures
        text@ == rank_text(square),
{
    match square / 8 {
        0 => "1",
        1 => "2",
        2 => "3",
        3 => "4",
        4 => "5",
        5 => "6",
        6 => "7",
        _ => "8",
    }
}

fn capital(piece: PieceKind) -> (text: &'static str)
    ensures
        text@ == piece_letter(piece),
{
    match piece {
        PieceKind::Pawn => "P",
        PieceKind::Knight => "N",
        PieceKind::Bishop => "B",
        PieceKind::Rook => "R",
        PieceKind::Queen => "Q",
        PieceKind::King => "K",
    }
}

fn small(piece: PieceKind) -> (text: &'static str)
    ensures
        text@ == small_letter(piece),
{
    match piece {
        PieceKind::Pawn => "p",
        PieceKind::Knight => "n",
        PieceKind::Bishop => "b",
        PieceKind::Rook => "r",
        PieceKind::Queen => "q",
        PieceKind::King => "k",
    }
}

fn are_rivals(first: Arrival, second: Arrival, piece: PieceKind, shared: Shared) -> (r: bool)
    ensures
        r == rivals(first, second, piece, shared),
{
    first.piece == piece && second.piece == piece && first.source != second.source && match shared {
        Shared::Destination => true,
        Shared::File => first.source % 8 == second.source % 8,
        Shared::Rank => first.source / 8 == second.source / 8,
    }
}

fn is_contested(arrivals: &Vec<Arrival>, piece: PieceKind, shared: Shared) -> (found: bool)
    ensures
        found == contested(arrivals@, piece, shared),
{
    let mut i: usize = 0;
    while i < arrivals.len()
        invariant
            i <= arrivals.len(),
            forall|a: int, b: int|
                0 <= a < i && 0 <= b < arrivals.len() ==> !rivals(arrivals@[a], arrivals@[b], piece, shared),
        decreases arrivals.len() - i,
    {
        let mut j: usize = 0;
        while j < arrivals.len()
            invariant
                i < arrivals.len(),
                j <= arrivals.len(),
                forall|b: int| 0 <= b < j ==> !rivals(arrivals@[i as int], arrivals@[b], piece, shared),
            decreases arrivals.len() - j,
        {
            if are_rivals(arrivals[i], arrivals[j], piece, shared) {
                return true;
            }
            j += 1;
        }
        i += 1;
    }
    false
}

fn disambiguate(facts: &MoveFacts, piece: PieceKind) -> (text: String)
    ensures
        text@ == disambiguation(*facts, piece),
{
    if !is_contested(&facts.arrivals, piece, Shared::Destination) {
        String::from_str("")
    } else if !is_contested(&facts.arrivals, piece, Shared::File) {
        String::from_str(file_name(facts.source))
    } else if !is_contested(&facts.arrivals, piece, Shared::Rank) {
        String::from_str(rank_name(facts.source))
    } else {
        String::from_str(file_name(facts.source)).concat(rank_name(facts.source))
    }
}

/// Writes a move in algebraic notation: the piece's letter but for a pawn,
/// what tells the piece from its rivals, `x` for a capture, the destination,
/// the promotion, and `#` for mate or `+` for check.
pub fn to_notation(facts: &MoveFacts) -> (text: String)
    ensures
        text@ == notation_of(*facts),
{
    match facts.piece {
        None => {
            let mut text = String::from_str(file_name(facts.source)).concat(rank_name(facts.source));
            text.append(file_name(facts.dest));
            text.append(rank_name(facts.dest));
            match facts.promotion {
                Some(piece) => {
                    text.append(small(piece));
                },
                None => {
                    text.append("");
                },
            }
            assert(text@ =~= plain_text(*facts));
            text
        },
        Some(piece) => {
            if facts.status == Status::Stalemate {
                return String::from_str("(=)");
            }
            let mut text = String::from_str(
                if piece == PieceKind::Pawn {
                    ""
                } else {
                    capital(piece)
                },
            );
            let rival_part = disambiguate(facts, piece);
            text.append(rival_part.as_str());
            text.append(
                if facts.capture {
                    "x"
                } else {
                    ""
                },
            );
            let ghost before = text@;
            text.append(file_name(facts.dest));
            text.append(rank_name(facts.dest));
            assert(text@ =~= before + square_text(facts.dest));
            let ghost before = text@;
            match facts.promotion {
                Some(promoted) => {
                    text.append("=");
                    text.append(capital(promoted));
                },
                None => {
                    text.append("");
                },
            }
            assert(text@ =~= before + promotion_part(*facts));
            text.append(
                if facts.status == Status::Checkmate {
                    "#"
                } else if facts.checkers != 0 {
                    "+"
                } else {
                    ""
                },
            );
            text
        },
    }
}

pub open spec fn digit_text(digit: usize) -> Seq<char> {
    match digit {
        0 => "0"@,
        1 => "1"@,
        2 => "2"@,
        3 => "3"@,
        4 => "4"@,
        5 => "5"@,
        6 => "6"@,
        7 => "7"@,
        8 => "8"@,
        _ => "9"@,
    }
}

/// A number in decimal digits.
pub open spec fn number_text(number: nat) -> Seq<char>
    decreases number,
{
    if number < 10 {
        digit_text(number as usize)
    } else {
        number_text(number / 10) + digit_text((number % 10) as usize)
    }
}

/// The texts of the plies, in order.
pub open spec fn ply_texts(plies: Seq<String>) -> Seq<Seq<char>> {
    Seq::new(plies.len(), |i: int| plies[i]@)
}

/// One row of the move list: the number of the move, a colon, white's ply and,
/// where it was made, black's.
pub open spec fn row_text(plies: Seq<Seq<char>>, row: int) -> Seq<char> {
    let opened = number_text((row + 1) as nat) + ": "@ + plies[2 * row];
    if 2 * row + 1 < plies.len() {
        opened + " "@ + plies[2 * row + 1]
    } else {
        opened
    }
}

/// The move list: one row for every two plies, and one for a last ply alone.
pub open spec fn rows_of(plies: Seq<Seq<char>>) -> Seq<Seq<char>> {
    Seq::new((plies.len() + 1) / 2, |row: int| row_text(plies, row))
}

fn digit_name(digit: usize) -> (text: &'static str)
    requires
        digit < 10,
    ensures
        text@ == digit_text(digit),
{
    match digit {
        0 => "0",
        1 => "1",
        2 => "2",
        3 => "3",
        4 => "4",
        5 => "5",
        6 => "6",
        7 => "7",
        8 => "8",
        _ => "9",
    }
}

fn write_number(number: usize) -> (text: String)
    ensures
        text@ == number_text(number as nat),
    decreases number,
{
    if number < 10 {
        String::from_str(digit_name(number))
    } else {
        write_number(number / 10).concat(digit_name(number % 10))
    }
}

/// Lays out the plies of a game as the rows of the move list.
pub fn move_rows(plies: &Vec<String>) -> (rows: Vec<String>)
    ensures
        ply_texts(rows@) == rows_of(ply_texts(plies@)),
{
    let mut rows: Vec<String> = Vec::new();
    let mut row: usize = 0;
    while row < plies.len() - row
        invariant
            2 * row <= plies.len() + 1,
            row <= (plies.len() + 1) / 2,
            rows@.len() == row,
            forall|i: int| 0 <= i < row ==> (#[trigger] rows@[i])@ == row_text(ply_texts(plies@), i),
        decreases plies.len() - row,
    {
        let first: usize = row + row;
        let mut text = write_number(row + 1);
        text.append(": ");
        text.append(plies[first].as_str());
        if plies.len() - first > 1 {
            text.append(" ");
            text.append(plies[first + 1].as_str());
        }
        rows.push(text);
        row += 1;
    }
    assert(ply_texts(rows@) =~= rows_of(ply_texts(plies@)));
    rows
}

} // verus!
