//! Commands bound for the engine, messages coming back from it, and the calls
//! into the `vampirc_uci` and `chess` crates that turn one into bytes and lines
//! into the other.

use vstd::prelude::*;

use chess::{ChessMove, Game};
use vampirc_uci::{parse_one, ByteVecUciMessage, UciFen, UciInfoAttribute, UciMessage, UciSearchControl};

verus! {

/// A move as the `chess` crate holds it.
#[verifier::external_type_specification]
#[verifier::external_body]
pub struct ExChessMove(chess::ChessMove);

/// A game as the `chess` crate holds it.
#[verifier::external_type_specification]
#[verifier::external_body]
pub struct ExGame(chess::Game);

/// One attribute of an `info` line as `vampirc_uci` holds it.
#[verifier::external_type_specification]
#[verifier::external_body]
pub struct ExUciInfoAttribute(vampirc_uci::UciInfoAttribute);

/// `ChessMove` is `Copy`: its clone is the move itself.
pub assume_specification[ <chess::ChessMove as Clone>::clone ](chess_move: &ChessMove) -> (copy: ChessMove)
    ensures
        copy == *chess_move,
;

/// A command that the client sends to the engine.
#[derive(Clone, Debug, PartialEq, Eq)]
pub enum Command {
    Uci,
    IsReady,
    UciNewGame,
    SetOption { name: String, value: String },
    Position { fen: String, moves: Vec<ChessMove> },
    /// A search to the given depth.
    GoDepth(u8),
    /// A search without limit: it goes on until it is told to stop.
    GoInfinite,
    Stop,
}

/// What a command is, with its texts and moves as sequences.
pub enum CommandView {
    Uci,
    IsReady,
    UciNewGame,
    SetOption { name: Seq<char>, value: Seq<char> },
    Position { fen: Seq<char>, moves: Seq<ChessMove> },
    GoDepth(u8),
    GoInfinite,
    Stop,
}

impl View for Command {
    type V = CommandView;

    open spec fn view(&self) -> CommandView {
        match *self {
            Command::Uci => CommandView::Uci,
            Command::IsReady => CommandView::IsReady,
            Command::UciNewGame => CommandView::UciNewGame,
            Command::SetOption { name, value } => CommandView::SetOption { name: name@, value: value@ },
            Command::Position { fen, moves } => CommandView::Position { fen: fen@, moves: moves@ },
            Command::GoDepth(depth) => CommandView::GoDepth(depth),
            Command::GoInfinite => CommandView::GoInfinite,
            Command::Stop => CommandView::Stop,
        }
    }
}

/// The views of a sequence of commands, in order.
pub open spec fn command_views(commands: Seq<Command>) -> Seq<CommandView> {
    Seq::new(commands.len(), |i: int| commands[i]@)
}

/// A message from the engine, as far as the client tells messages apart.
#[derive(Clone, Debug, PartialEq, Eq)]
pub enum Inbound {
    Id,
    UciOk,
    ReadyOk,
    Info(Vec<UciInfoAttribute>),
    BestMove { best_move: ChessMove, ponder: Option<ChessMove> },
    /// Any other message, the unrecognised ones among them.
    Other,
}

/// One attribute of an `info` line, as far as a candidate line reads it.
#[derive(Clone, Debug, PartialEq, Eq)]
pub enum InfoField {
    Depth(u8),
    Score { cp: Option<i32>, mate: Option<i8> },
    Pv(Vec<ChessMove>),
    MultiPv(u16),
    /// An attribute that no candidate line reads.
    Other,
}

/// The bytes that `vampirc_uci` writes for a command, the closing newline included.
pub uninterp spec fn encoded(command: CommandView) -> Seq<u8>;

/// The message that `vampirc_uci` reads from a line.
pub uninterp spec fn parsed(line: Seq<char>) -> Inbound;

/// The field that an attribute of an `info` line stands for.
pub uninterp spec fn field_of(attribute: UciInfoAttribute) -> InfoField;

/// The text, in Forsyth-Edwards notation, of the position that a game has reached.
pub uninterp spec fn fen_text(game: Game) -> Seq<char>;

/// `uci` and a newline.
pub open spec fn uci_bytes() -> Seq<u8> {
    seq![0x75u8, 0x63u8, 0x69u8, 0x0au8]
}

/// `isready` and a newline.
pub open spec fn isready_bytes() -> Seq<u8> {
    seq![0x69u8, 0x73u8, 0x72u8, 0x65u8, 0x61u8, 0x64u8, 0x79u8, 0x0au8]
}

/// `ucinewgame` and a newline.
pub open spec fn ucinewgame_bytes() -> Seq<u8> {
    seq![0x75u8, 0x63u8, 0x69u8, 0x6eu8, 0x65u8, 0x77u8, 0x67u8, 0x61u8, 0x6du8, 0x65u8, 0x0au8]
}

/// `stop` and a newline.
pub open spec fn stop_bytes() -> Seq<u8> {
    seq![0x73u8, 0x74u8, 0x6fu8, 0x70u8, 0x0au8]
}

/// `go infinite`, the space that the encoder leaves after it, and a newline.
pub open spec fn go_infinite_bytes() -> Seq<u8> {
    seq![
        0x67u8, 0x6fu8, 0x20u8, 0x69u8, 0x6eu8, 0x66u8, 0x69u8, 0x6eu8, 0x69u8, 0x74u8, 0x65u8, 0x20u8, 0x0au8,
    ]
}

/// The command carries arguments: an option, a position, or a depth.
pub open spec fn takes_arguments(command: CommandView) -> bool {
    match command {
        CommandView::SetOption { .. } => true,
        CommandView::Position { .. } => true,
        CommandView::GoDepth(_) => true,
        _ => false,
    }
}

/// The bytes of a command on the wire: for a command without arguments its
/// words and a newline, for any other what the encoder writes.
pub open spec fn wire_form(command: CommandView) -> Seq<u8> {
    match command {
        CommandView::Uci => uci_bytes(),
        CommandView::IsReady => isready_bytes(),
        CommandView::UciNewGame => ucinewgame_bytes(),
        CommandView::Stop => stop_bytes(),
        CommandView::GoInfinite => go_infinite_bytes(),
        _ => encoded(command),
    }
}

/// Calls `ByteVecUciMessage::from` of `vampirc_uci` on the message that the
/// command stands for. For a command without arguments the result is the
/// command's words and a newline; for the others it is named by `encoded`.
#[verifier::external_body]
pub(crate) fn encode(command: &Command) -> (bytes: Vec<u8>)
    ensures
        bytes@ == wire_form(command@),
        takes_arguments(command@) ==> bytes@ == encoded(command@),
{
    let message = match command {
        Command::Uci => UciMessage::Uci,
        Command::IsReady => UciMessage::IsReady,
        Command::UciNewGame => UciMessage::UciNewGame,
        Command::SetOption { name, value } => UciMessage::SetOption { name: name.clone(), value: Some(value.clone()) },
        Command::Position { fen, moves } => UciMessage::Position { startpos: false, fen: Some(UciFen(fen.clone())), moves: moves.clone() },
        Command::GoDepth(depth) => UciMessage::Go { time_control: None, search_control: Some(UciSearchControl::depth(*depth)) },
        Command::GoInfinite => UciMessage::go_infinite(),
        Command::Stop => UciMessage::Stop,
    };
    ByteVecUciMessage::from(message).bytes
}

/// Calls `parse_one` of `vampirc_uci` and tells the message's variants apart.
/// The result is named by `parsed`. The parser panics on some lines whose
/// first word is `go`, where it reads a number above 255 as a byte, and where
/// it reads a move with a capital file letter: `decodable` leaves out every
/// `go` line and every line in which it may read such a byte or move.
#[verifier::external_body]
pub(crate) fn decode(line: &str) -> (message: Inbound)
    requires
        crate::scan::decodable(line@),
    ensures
        message == parsed(line@),
{
    match parse_one(line) {
        UciMessage::Id { .. } => Inbound::Id,
        UciMessage::UciOk => Inbound::UciOk,
        UciMessage::ReadyOk => Inbound::ReadyOk,
        UciMessage::Info(attributes) => Inbound::Info(attributes),
        UciMessage::BestMove { best_move, ponder } => Inbound::BestMove { best_move, ponder },
        _ => Inbound::Other,
    }
}

/// The bytes of a run of commands: those of each command, one after the other.
pub open spec fn wire_forms(commands: Seq<CommandView>) -> Seq<u8>
    decreases commands.len(),
{
    if commands.len() == 0 {
        Seq::empty()
    } else {
        wire_forms(commands.drop_last()) + wire_form(commands.last())
    }
}

/// Writes out the commands as the bytes to send to the engine, in order.
pub fn encode_all(commands: &Vec<Command>) -> (bytes: Vec<u8>)
    ensures
        bytes@ == wire_forms(command_views(commands@)),
{
    let mut bytes: Vec<u8> = Vec::new();
    let mut i: usize = 0;
    while i < commands.len()
        invariant
            i <= commands.len(),
            bytes@ == wire_forms(command_views(commands@).take(i as int)),
        decreases commands.len() - i,
    {
        proof {
            let views = command_views(commands@);
            assert(views.take(i + 1).drop_last() =~= views.take(i as int));
            assert(views.take(i + 1).last() == commands@[i as int]@);
        }
        let mut next = encode(&commands[i]);
        bytes.append(&mut next);
        i += 1;
    }
    proof {
        assert(command_views(commands@).take(commands.len() as int) =~= command_views(commands@));
    }
    bytes
}

/// Tells the variants of `UciInfoAttribute` apart, keeping what a candidate
/// line reads. The result is named by `field_of`.
#[verifier::external_body]
pub(crate) fn info_field(attribute: &UciInfoAttribute) -> (field: InfoField)
    ensures
        field == field_of(*attribute),
{
    match attribute {
        UciInfoAttribute::Depth(depth) => InfoField::Depth(*depth),
        UciInfoAttribute::Score { cp, mate, .. } => InfoField::Score { cp: *cp, mate: *mate },
        UciInfoAttribute::Pv(moves) => InfoField::Pv(moves.clone()),
        UciInfoAttribute::MultiPv(index) => InfoField::MultiPv(*index),
        _ => InfoField::Other,
    }
}

/// Calls `Game::current_position` of `chess` and writes the board with its
/// `Display`, which gives Forsyth-Edwards notation. The result is named by
/// `fen_text`.
#[verifier::external_body]
pub(crate) fn position_fen(game: &Game) -> (fen: String)
    ensures
        fen@ == fen_text(*game),
{
    game.current_position().to_string()
}

/// Compares two moves with the `==` of `chess`, which holds exactly of moves
/// with the same source, destination and promotion.
#[verifier::external_body]
pub(crate) fn same_move(left: &ChessMove, right: &ChessMove) -> (same: bool)
    ensures
        same == (*left == *right),
{
    left == right
}

} // verus!
