//! The engine handle: it keeps the phase the conversation with the engine is
//! in, and says what the client does on each line that arrives.

use vstd::prelude::*;
use vstd::string::StrSliceExecFns;

use chess::{ChessMove, Game};

use crate::codec::{command_views, fen_text, position_fen, Command, CommandView, Inbound};
use crate::handshake::{handshake_step, message_step, setup_commands, HandshakeError, Phase};
use crate::scan::{find_marker, receive};
use crate::session::{
    analysis_of, ends_session, is_best_move_line, is_info_line, law_session_ends, reading_from, reading_of, run,
    stops_engine, Analysis, AnalysisView, ProtocolViolation,
};

verus! {

/// The handle of one engine. A search is in flight for at most one
/// `analyze` at a time: one is opened only in the ready phase, and the handle
/// leaves that phase until the search's best move has arrived.
#[derive(Debug)]
pub struct Uci {
    phase: Phase,
    /// Whether the engine was told to stop since the last search was opened.
    stop_sent: bool,
}

/// What the worker does after it tried to publish an event.
#[derive(Clone, Debug, PartialEq, Eq)]
pub struct ReaderAction {
    /// The command to write to the engine, if any.
    pub command: Option<Command>,
    /// Whether the session is over.
    pub finished: bool,
}

/// The phase after a line was read during a search: the search goes on after
/// a candidate line, the engine is ready again after the best move, and any
/// other line breaks the conversation.
pub open spec fn phase_after(reading: Result<AnalysisView, ProtocolViolation>) -> Phase {
    match reading {
        Ok(AnalysisView::PossibleMove(_)) => Phase::Searching,
        Ok(AnalysisView::BestMove { .. }) => Phase::Ready,
        Err(_) => Phase::Failed,
    }
}

/// The command that starts a search: to the depth where one is given, without
/// limit where none is.
pub open spec fn search_command(depth: Option<u8>) -> CommandView {
    match depth {
        Some(limit) => CommandView::GoDepth(limit),
        None => CommandView::GoInfinite,
    }
}

fn setup() -> (commands: Vec<Command>)
    ensures
        command_views(commands@) == setup_commands(),
{
    let mut commands: Vec<Command> = Vec::new();
    commands.push(Command::UciNewGame);
    commands.push(Command::SetOption { name: "Threads".to_owned(), value: "4".to_owned() });
    commands.push(Command::SetOption { name: "UCI_AnalyseMode".to_owned(), value: "true".to_owned() });
    commands.push(Command::SetOption { name: "MultiPV".to_owned(), value: "5".to_owned() });
    commands.push(Command::IsReady);
    assert(command_views(commands@) =~= setup_commands());
    commands
}

impl Uci {
    /// The phase the handle is in.
    pub closed spec fn stage(&self) -> Phase {
        self.phase
    }

    /// Whether the engine was told to stop since the last search was opened.
    pub closed spec fn stopped(&self) -> bool {
        self.stop_sent
    }

    pub fn phase(&self) -> (phase: Phase)
        ensures
            phase == self.stage(),
    {
        self.phase
    }

    /// Whether the engine takes a search now.
    pub fn is_ready(&self) -> (ready: bool)
        ensures
            ready == (self.stage() == Phase::Ready),
    {
        self.phase == Phase::Ready
    }

    /// Opens the handshake: the handle of an engine that was just started, and
    /// the `uci` command to send to it.
    pub fn start_engine() -> (started: (Uci, Vec<Command>))
        ensures
            started.0.stage() == Phase::AwaitingId,
            !started.0.stopped(),
            command_views(started.1@) == seq![CommandView::Uci],
    {
        let mut commands: Vec<Command> = Vec::new();
        commands.push(Command::Uci);
        assert(command_views(commands@) =~= seq![CommandView::Uci]);
        (Uci { phase: Phase::AwaitingId, stop_sent: false }, commands)
    }

    /// Takes one message of the handshake and says what to send next, or why
    /// the handshake failed. No message stands for a line that the decoder
    /// cannot take.
    pub fn handshake_message(&mut self, message: Option<Inbound>) -> (reply: Result<Vec<Command>, HandshakeError>)
        ensures
            final(self).stage() == message_step(old(self).stage(), message).phase,
            final(self).stopped() == old(self).stopped(),
            match reply {
                Ok(commands) => message_step(old(self).stage(), message).reply == Ok::<
                    Seq<CommandView>,
                    HandshakeError,
                >(command_views(commands@)),
                Err(error) => message_step(old(self).stage(), message).reply == Err::<
                    Seq<CommandView>,
                    HandshakeError,
                >(error),
            },
    {
        let mut commands: Vec<Command> = Vec::new();
        assert(command_views(commands@) =~= Seq::<CommandView>::empty());
        match self.phase {
            Phase::AwaitingId | Phase::AwaitingUciOk => match message {
                None => {
                    self.phase = Phase::Failed;
                    Err(HandshakeError::UndecodableLine)
                },
                Some(Inbound::UciOk) => {
                    self.phase = Phase::AwaitingFirstReady;
                    commands.push(Command::IsReady);
                    assert(command_views(commands@) =~= seq![CommandView::IsReady]);
                    Ok(commands)
                },
                Some(_) => {
                    self.phase = Phase::AwaitingUciOk;
                    Ok(commands)
                },
            },
            Phase::AwaitingFirstReady => match message {
                None => {
                    self.phase = Phase::Failed;
                    Err(HandshakeError::UndecodableLine)
                },
                Some(Inbound::ReadyOk) => {
                    self.phase = Phase::AwaitingSecondReady;
                    Ok(setup())
                },
                Some(_) => {
                    self.phase = Phase::Failed;
                    Err(HandshakeError::UnexpectedMessage)
                },
            },
            Phase::AwaitingSecondReady => match message {
                None => {
                    self.phase = Phase::Failed;
                    Err(HandshakeError::UndecodableLine)
                },
                Some(Inbound::ReadyOk) => {
                    self.phase = Phase::Ready;
                    Ok(commands)
                },
                Some(_) => {
                    self.phase = Phase::Failed;
                    Err(HandshakeError::UnexpectedMessage)
                },
            },
            _ => Ok(commands),
        }
    }

    /// Takes one line from the engine during the handshake and says what to
    /// send next, or why the handshake failed.
    pub fn handshake_line(&mut self, line: &str) -> (reply: Result<Vec<Command>, HandshakeError>)
        ensures
            final(self).stage() == handshake_step(old(self).stage(), line@).phase,
            final(self).stopped() == old(self).stopped(),
            match reply {
                Ok(commands) => handshake_step(old(self).stage(), line@).reply == Ok::<
                    Seq<CommandView>,
                    HandshakeError,
                >(command_views(commands@)),
                Err(error) => handshake_step(old(self).stage(), line@).reply == Err::<
                    Seq<CommandView>,
                    HandshakeError,
                >(error),
            },
    {
        match self.phase {
            Phase::AwaitingId => match find_marker(line) {
                None => {
                    let commands: Vec<Command> = Vec::new();
                    assert(command_views(commands@) =~= Seq::<CommandView>::empty());
                    Ok(commands)
                },
                Some(start) => {
                    let len: usize = line.unicode_len();
                    self.handshake_message(receive(line.substring_char(start, len)))
                },
            },
            Phase::AwaitingUciOk | Phase::AwaitingFirstReady | Phase::AwaitingSecondReady => {
                self.handshake_message(receive(line))
            },
            _ => {
                let commands: Vec<Command> = Vec::new();
                assert(command_views(commands@) =~= Seq::<CommandView>::empty());
                Ok(commands)
            },
        }
    }

    /// Opens an analysis session on the position that the game has reached,
    /// with further moves played from it: the commands that set the position
    /// and start the search, to the given depth or without limit.
    pub fn analyze(&mut self, game: &Game, moves: Vec<ChessMove>, depth: Option<u8>) -> (commands: Vec<Command>)
        requires
            old(self).stage() == Phase::Ready,
        ensures
            final(self).stage() == Phase::Searching,
            !final(self).stopped(),
            command_views(commands@) == seq![
                CommandView::Position { fen: fen_text(*game), moves: moves@ },
                search_command(depth),
            ],
    {
        let mut commands: Vec<Command> = Vec::new();
        let ghost line = moves@;
        commands.push(Command::Position { fen: position_fen(game), moves });
        commands.push(
            match depth {
                Some(limit) => Command::GoDepth(limit),
                None => Command::GoInfinite,
            },
        );
        self.phase = Phase::Searching;
        self.stop_sent = false;
        assert(command_views(commands@) =~= seq![
            CommandView::Position { fen: fen_text(*game), moves: line },
            search_command(depth),
        ]);
        commands
    }

    /// Takes one message of the engine during a search: the event it stands
    /// for, or why it is fatal to the session. No message stands for a line
    /// that the decoder cannot take.
    pub fn read_message(&mut self, message: Option<Inbound>) -> (reading: Result<Analysis, ProtocolViolation>)
        requires
            old(self).stage() == Phase::Searching,
        ensures
            match reading {
                Ok(event) => reading_from(message) == Ok::<AnalysisView, ProtocolViolation>(event@),
                Err(violation) => reading_from(message) == Err::<AnalysisView, ProtocolViolation>(violation),
            },
            final(self).stage() == phase_after(reading_from(message)),
            final(self).stopped() == old(self).stopped(),
    {
        match message {
            None => {
                self.phase = Phase::Failed;
                Err(ProtocolViolation::UndecodableLine)
            },
            Some(found) => match analysis_of(found) {
                None => {
                    self.phase = Phase::Failed;
                    Err(ProtocolViolation::UnexpectedMessage)
                },
                Some(event) => {
                    match event {
                        Analysis::BestMove { .. } => {
                            self.phase = Phase::Ready;
                        },
                        Analysis::PossibleMove(_) => {},
                    }
                    Ok(event)
                },
            },
        }
    }

    /// Reads one line of the engine during a search: the event it stands for,
    /// or why it is fatal to the session.
    pub fn read_event(&mut self, line: &str) -> (reading: Result<Analysis, ProtocolViolation>)
        requires
            old(self).stage() == Phase::Searching,
        ensures
            match reading {
                Ok(event) => reading_of(line@) == Ok::<AnalysisView, ProtocolViolation>(event@),
                Err(violation) => reading_of(line@) == Err::<AnalysisView, ProtocolViolation>(violation),
            },
            final(self).stage() == phase_after(reading_of(line@)),
            final(self).stopped() == old(self).stopped(),
    {
        self.read_message(receive(line))
    }

    /// Takes note that the engine's output could not be read: the handle is
    /// of no more use.
    pub fn read_failed(&mut self)
        ensures
            final(self).stage() == Phase::Failed,
            final(self).stopped() == old(self).stopped(),
    {
        self.phase = Phase::Failed;
    }

    /// What the worker does once it has tried to hand an event to the
    /// receiver: it tells the engine to stop the first time the receiver is
    /// found gone, and never again in that session; and it ends with the best
    /// move, not before.
    pub fn after_publish(&mut self, event: &Analysis, delivered: bool) -> (action: ReaderAction)
        ensures
            final(self).stage() == old(self).stage(),
            final(self).stopped() == (old(self).stopped() || !delivered),
            action.finished == ends_session(event@),
            action.command == (if stops_engine(old(self).stopped(), delivered) {
                Some(Command::Stop)
            } else {
                None
            }),
    {
        let finished = match event {
            Analysis::BestMove { .. } => true,
            Analysis::PossibleMove(_) => false,
        };
        let command = if !delivered && !self.stop_sent {
            self.stop_sent = true;
            Some(Command::Stop)
        } else {
            None
        };
        ReaderAction { command, finished }
    }
}

/// Two sessions, one after the other, each end with a best move: where the
/// first has run its course the handle is ready again, so that the second
/// may be opened, and the second ends as the first did.
pub proof fn law_sessions_in_sequence(
    first: Seq<Seq<char>>,
    first_delivered: Seq<bool>,
    second: Seq<Seq<char>>,
    second_delivered: Seq<bool>,
)
    requires
        first_delivered.len() == first.len(),
        second_delivered.len() == second.len(),
        first.len() > 0,
        second.len() > 0,
        forall|i: int| 0 <= i < first.len() - 1 ==> is_info_line(#[trigger] first[i]),
        forall|i: int| 0 <= i < second.len() - 1 ==> is_info_line(#[trigger] second[i]),
        is_best_move_line(first.last()),
        is_best_move_line(second.last()),
    ensures
        run(first, first_delivered).progress is Finished,
        run(first, first_delivered).events.last() is BestMove,
        phase_after(reading_of(first.last())) == Phase::Ready,
        run(second, second_delivered).progress is Finished,
        run(second, second_delivered).events.last() is BestMove,
        phase_after(reading_of(second.last())) == Phase::Ready,
{
    law_session_ends(first, first_delivered);
    law_session_ends(second, second_delivered);
}

} // verus!
