//! The events of an analysis session, and the run of the worker that reads
//! them off the engine's lines.

use vstd::prelude::*;

use chess::ChessMove;
use vampirc_uci::UciInfoAttribute;

use crate::codec::{field_of, info_field, parsed, Inbound, InfoField};
use crate::scan::{decodable, received};

verus! {

/// A candidate line that the engine reports while it searches.
#[derive(Clone, Debug, PartialEq, Eq)]
pub struct PossibleMove {
    pub depth: u8,
    /// The score in centipawns, from the point of view of the side to move.
    pub score: i32,
    /// Which of the parallel lines this is, counted from 1.
    pub multi_pv: u16,
    /// The principal variation.
    pub moves: Vec<ChessMove>,
}

/// A candidate line with its principal variation as a sequence.
pub struct CandidateLine {
    pub depth: u8,
    pub score: i32,
    pub multi_pv: u16,
    pub moves: Seq<ChessMove>,
}

impl View for PossibleMove {
    type V = CandidateLine;

    open spec fn view(&self) -> CandidateLine {
        CandidateLine { depth: self.depth, score: self.score, multi_pv: self.multi_pv, moves: self.moves@ }
    }
}

/// An event of an analysis session.
#[derive(Clone, Debug, PartialEq, Eq)]
pub enum Analysis {
    PossibleMove(PossibleMove),
    /// The move that ends the session, with the reply the engine expects.
    BestMove { best_move: ChessMove, ponder: Option<ChessMove> },
}

pub enum AnalysisView {
    PossibleMove(CandidateLine),
    BestMove { best_move: ChessMove, ponder: Option<ChessMove> },
}

impl View for Analysis {
    type V = AnalysisView;

    open spec fn view(&self) -> AnalysisView {
        match *self {
            Analysis::PossibleMove(line) => AnalysisView::PossibleMove(line@),
            Analysis::BestMove { best_move, ponder } => AnalysisView::BestMove { best_move, ponder },
        }
    }
}

/// Why a line ended a session before its best move.
#[derive(Clone, Copy, Debug, PartialEq, Eq)]
pub enum ProtocolViolation {
    /// A message other than `info` and `bestmove` arrived during a search.
    UnexpectedMessage,
    /// The line is one the decoder cannot take.
    UndecodableLine,
}

/// The line that an `info` message without attributes stands for: the first
/// of the parallel lines, with nothing known of it.
pub open spec fn blank_line() -> CandidateLine {
    CandidateLine { depth: 0, score: 0, multi_pv: 1, moves: Seq::empty() }
}

/// The line after one more attribute was read. A score given as a distance to
/// mate leaves the line's score as it was.
pub open spec fn with_field(line: CandidateLine, field: InfoField) -> CandidateLine {
    match field {
        InfoField::Depth(depth) => CandidateLine { depth, ..line },
        InfoField::Score { cp: Some(score), mate } => CandidateLine { score, ..line },
        InfoField::Pv(moves) => CandidateLine { moves: moves@, ..line },
        InfoField::MultiPv(multi_pv) => CandidateLine { multi_pv, ..line },
        _ => line,
    }
}

/// The candidate line that a message's fields stand for: each of depth, score,
/// index and variation is what the last field of its kind gave, and what
/// `blank_line` holds where there is none.
pub open spec fn line_of(fields: Seq<InfoField>) -> CandidateLine
    decreases fields.len(),
{
    if fields.len() == 0 {
        blank_line()
    } else {
        with_field(line_of(fields.drop_last()), fields.last())
    }
}

pub open spec fn fields_of(attributes: Seq<UciInfoAttribute>) -> Seq<InfoField> {
    Seq::new(attributes.len(), |i: int| field_of(attributes[i]))
}

/// The event that a message stands for during a search, if it is one that may
/// arrive then.
pub open spec fn event_of(message: Inbound) -> Option<AnalysisView> {
    match message {
        Inbound::Info(attributes) => Some(AnalysisView::PossibleMove(line_of(fields_of(attributes@)))),
        Inbound::BestMove { best_move, ponder } => Some(AnalysisView::BestMove { best_move, ponder }),
        _ => None,
    }
}

/// What the worker reads off a message during a search: the event, or the
/// reason why it is fatal to the session. No message stands for a line that the
/// decoder cannot take.
pub open spec fn reading_from(message: Option<Inbound>) -> Result<AnalysisView, ProtocolViolation> {
    match message {
        None => Err(ProtocolViolation::UndecodableLine),
        Some(found) => match event_of(found) {
            Some(event) => Ok(event),
            None => Err(ProtocolViolation::UnexpectedMessage),
        },
    }
}

/// What the worker reads off a line during a search.
pub open spec fn reading_of(line: Seq<char>) -> Result<AnalysisView, ProtocolViolation> {
    reading_from(received(line))
}

/// A field that a message does not give keeps its default: nothing is carried
/// over from an earlier message.
pub proof fn law_absent_fields_keep_defaults(fields: Seq<InfoField>)
    ensures
        (forall|i: int| 0 <= i < fields.len() ==> !(#[trigger] fields[i] is Depth)) ==> line_of(fields).depth == 0,
        (forall|i: int| 0 <= i < fields.len() ==> !(#[trigger] fields[i] is MultiPv)) ==> line_of(fields).multi_pv
            == 1,
        (forall|i: int| 0 <= i < fields.len() ==> !(#[trigger] fields[i] is Pv)) ==> line_of(fields).moves
            == Seq::<ChessMove>::empty(),
        (forall|i: int| 0 <= i < fields.len() ==> !(#[trigger] fields[i] matches InfoField::Score { cp: Some(_), .. }))
            ==> line_of(fields).score == 0,
    decreases fields.len(),
{
    if fields.len() > 0 {
        law_absent_fields_keep_defaults(fields.drop_last());
        assert(forall|i: int| 0 <= i < fields.len() - 1 ==> fields.drop_last()[i] == fields[i]);
    }
}

/// Maps the fields of one `info` message to a candidate line.
pub fn line_from(fields: &Vec<InfoField>) -> (line: PossibleMove)
    ensures
        line@ == line_of(fields@),
{
    let mut line = PossibleMove { depth: 0, score: 0, multi_pv: 1, moves: Vec::new() };
    let mut i: usize = 0;
    while i < fields.len()
        invariant
            i <= fields.len(),
            line@ == line_of(fields@.take(i as int)),
        decreases fields.len() - i,
    {
        proof {
            assert(fields@.take(i + 1).drop_last() =~= fields@.take(i as int));
            assert(fields@.take(i + 1).last() == fields@[i as int]);
        }
        match &fields[i] {
            InfoField::Depth(depth) => {
                line.depth = *depth;
            },
            InfoField::Score { cp: Some(score), mate: _ } => {
                line.score = *score;
            },
            InfoField::Pv(moves) => {
                line.moves = moves.clone();
                assert(line.moves@ =~= moves@);
            },
            InfoField::MultiPv(multi_pv) => {
                line.multi_pv = *multi_pv;
            },
            _ => {},
        }
        i += 1;
    }
    proof {
        assert(fields@.take(fields.len() as int) =~= fields@);
    }
    line
}

fn fields_from(attributes: &Vec<UciInfoAttribute>) -> (fields: Vec<InfoField>)
    ensures
        fields@ == fields_of(attributes@),
{
    let mut fields: Vec<InfoField> = Vec::new();
    let mut i: usize = 0;
    while i < attributes.len()
        invariant
            i <= attributes.len(),
            fields@ == fields_of(attributes@).take(i as int),
        decreases attributes.len() - i,
    {
        fields.push(info_field(&attributes[i]));
        assert(fields@ =~= fields_of(attributes@).take(i + 1));
        i += 1;
    }
    assert(fields@ =~= fields_of(attributes@));
    fields
}

/// Maps the attributes of one `info` message to a candidate line.
pub fn candidate_line(attributes: &Vec<UciInfoAttribute>) -> (line: PossibleMove)
    ensures
        line@ == line_of(fields_of(attributes@)),
{
    line_from(&fields_from(attributes))
}

/// Maps a message to the event it stands for during a search.
pub fn analysis_of(message: Inbound) -> (event: Option<Analysis>)
    ensures
        match event {
            Some(found) => event_of(message) == Some(found@),
            None => event_of(message) is None,
        },
{
    match message {
        Inbound::Info(attributes) => Some(Analysis::PossibleMove(candidate_line(&attributes))),
        Inbound::BestMove { best_move, ponder } => Some(Analysis::BestMove { best_move, ponder }),
        _ => None,
    }
}

/// How far the worker of a session has come.
pub enum Progress {
    /// The worker reads on.
    Running,
    /// The best move arrived; the worker has ended.
    Finished,
    /// A line was fatal to the session; the worker has ended.
    Aborted,
}

/// What the worker of one session has done so far.
pub struct Trace {
    /// The events it tried to publish, in order.
    pub events: Seq<AnalysisView>,
    /// How many times it told the engine to stop.
    pub stops: nat,
    pub progress: Progress,
}

pub open spec fn opening() -> Trace {
    Trace { events: Seq::empty(), stops: 0, progress: Progress::Running }
}

/// The worker tells the engine to stop after the first publish that found
/// the receiver gone, and after no other.
pub open spec fn stops_engine(stopped: bool, delivered: bool) -> bool {
    !delivered && !stopped
}

/// The worker ends with the best move, and with no other event.
pub open spec fn ends_session(event: AnalysisView) -> bool {
    event is BestMove
}

/// One turn of the worker: it reads a line, tries to publish the event, tells
/// the engine to stop where the receiver is gone and it has not yet, and ends
/// with the best move. A worker that has ended reads no more.
pub open spec fn advance(trace: Trace, line: Seq<char>, delivered: bool) -> Trace {
    if !(trace.progress is Running) {
        trace
    } else {
        match reading_of(line) {
            Err(_) => Trace { progress: Progress::Aborted, ..trace },
            Ok(event) => Trace {
                events: trace.events.push(event),
                stops: if stops_engine(trace.stops > 0, delivered) {
                    trace.stops + 1
                } else {
                    trace.stops
                },
                progress: if ends_session(event) {
                    Progress::Finished
                } else {
                    Progress::Running
                },
            },
        }
    }
}

/// The worker's run over the lines that the engine sends; `delivered[i]` says
/// whether the receiver was still there when line `i` was read.
pub open spec fn run(lines: Seq<Seq<char>>, delivered: Seq<bool>) -> Trace
    decreases lines.len(),
{
    if lines.len() == 0 {
        opening()
    } else {
        advance(run(lines.drop_last(), delivered), lines.last(), delivered[lines.len() - 1])
    }
}

/// How many of the first `count` publishes found the receiver gone.
spec fn failures(delivered: Seq<bool>, count: int) -> nat
    decreases count,
{
    if count <= 0 {
        0
    } else if delivered[count - 1] {
        failures(delivered, count - 1)
    } else {
        failures(delivered, count - 1) + 1
    }
}

/// The line decodes to an `info` message.
pub open spec fn is_info_line(line: Seq<char>) -> bool {
    decodable(line) && parsed(line) is Info
}

/// The line decodes to a `bestmove` message.
pub open spec fn is_best_move_line(line: Seq<char>) -> bool {
    decodable(line) && parsed(line) is BestMove
}

proof fn lemma_run(lines: Seq<Seq<char>>, delivered: Seq<bool>)
    requires
        delivered.len() == lines.len(),
    ensures
        run(lines, delivered).events.len() <= lines.len(),
        run(lines, delivered).progress is Running ==> run(lines, delivered).events.len() == lines.len(),
        forall|i: int|
            0 <= i < run(lines, delivered).events.len() ==> reading_of(lines[i]) == Ok::<
                AnalysisView,
                ProtocolViolation,
            >(#[trigger] run(lines, delivered).events[i]),
        forall|i: int|
            0 <= i < run(lines, delivered).events.len() - 1 ==> #[trigger] run(
                lines,
                delivered,
            ).events[i] is PossibleMove,
        run(lines, delivered).progress is Running && run(lines, delivered).events.len() > 0 ==> run(
            lines,
            delivered,
        ).events.last() is PossibleMove,
        run(lines, delivered).progress is Finished <==> run(lines, delivered).events.len() > 0 && run(
            lines,
            delivered,
        ).events.last() is BestMove,
        run(lines, delivered).stops == (if failures(delivered, run(lines, delivered).events.len() as int) > 0 {
            1nat
        } else {
            0nat
        }),
    decreases lines.len(),
{
    if lines.len() > 0 {
        let before = run(lines.drop_last(), delivered.drop_last());
        lemma_run(lines.drop_last(), delivered.drop_last());
        lemma_run_ignores_later(lines.drop_last(), delivered, delivered.drop_last());
        lemma_failures_ignore_later(delivered, delivered.drop_last(), before.events.len() as int);
    }
}

proof fn lemma_failures_ignore_later(first: Seq<bool>, second: Seq<bool>, count: int)
    requires
        count <= first.len(),
        count <= second.len(),
        forall|i: int| 0 <= i < count ==> first[i] == second[i],
    ensures
        failures(first, count) == failures(second, count),
    decreases count,
{
    if count > 0 {
        lemma_failures_ignore_later(first, second, count - 1);
    }
}

proof fn lemma_run_ignores_later(lines: Seq<Seq<char>>, first: Seq<bool>, second: Seq<bool>)
    requires
        lines.len() <= first.len(),
        lines.len() <= second.len(),
        forall|i: int| 0 <= i < lines.len() ==> first[i] == second[i],
    ensures
        run(lines, first) == run(lines, second),
    decreases lines.len(),
{
    if lines.len() > 0 {
        lemma_run_ignores_later(lines.drop_last(), first, second);
    }
}

/// The candidate lines come out as the `info` messages went in: while only
/// `info` lines arrive, the worker publishes one candidate line for each, in
/// the order of arrival, each mapped from its own message.
pub proof fn law_lines_in_order(lines: Seq<Seq<char>>, delivered: Seq<bool>)
    requires
        delivered.len() == lines.len(),
        forall|i: int| 0 <= i < lines.len() ==> is_info_line(#[trigger] lines[i]),
    ensures
        run(lines, delivered).events.len() == lines.len(),
        forall|i: int|
            0 <= i < lines.len() ==> #[trigger] run(lines, delivered).events[i] == AnalysisView::PossibleMove(
                line_of(fields_of(parsed(lines[i])->Info_0@)),
            ),
    decreases lines.len(),
{
    if lines.len() > 0 {
        law_lines_in_order(lines.drop_last(), delivered.drop_last());
        lemma_run_ignores_later(lines.drop_last(), delivered, delivered.drop_last());
        lemma_run(lines.drop_last(), delivered.drop_last());
        lemma_aborted_is_short(lines.drop_last(), delivered.drop_last());
        assert(is_info_line(lines[lines.len() - 1]));
    }
}

proof fn lemma_aborted_is_short(lines: Seq<Seq<char>>, delivered: Seq<bool>)
    requires
        delivered.len() == lines.len(),
    ensures
        run(lines, delivered).progress is Aborted ==> run(lines, delivered).events.len() < lines.len(),
    decreases lines.len(),
{
    if lines.len() > 0 {
        lemma_aborted_is_short(lines.drop_last(), delivered.drop_last());
        lemma_run_ignores_later(lines.drop_last(), delivered, delivered.drop_last());
        lemma_run(lines.drop_last(), delivered.drop_last());
    }
}

/// A session's events end with the best move and hold no other: the worker
/// has finished exactly when the last event is a best move, every event
/// before the last is a candidate line, and whatever arrives after the worker
/// has ended is not read.
pub proof fn law_best_move_ends(lines: Seq<Seq<char>>, delivered: Seq<bool>, later: Seq<char>, taken: bool)
    requires
        delivered.len() == lines.len(),
    ensures
        run(lines, delivered).progress is Finished <==> run(lines, delivered).events.len() > 0 && run(
            lines,
            delivered,
        ).events.last() is BestMove,
        forall|i: int|
            0 <= i < run(lines, delivered).events.len() - 1 ==> #[trigger] run(
                lines,
                delivered,
            ).events[i] is PossibleMove,
        !(run(lines, delivered).progress is Running) ==> run(lines.push(later), delivered.push(taken)) == run(
            lines,
            delivered,
        ),
{
    lemma_run(lines, delivered);
    assert(lines.push(later).drop_last() =~= lines);
    lemma_run_ignores_later(lines, delivered.push(taken), delivered);
}

/// Some publish among the first `count` found the receiver gone.
pub open spec fn receiver_missed(delivered: Seq<bool>, count: int) -> bool {
    exists|i: int| 0 <= i < count && !delivered[i]
}

proof fn lemma_failures_positive(delivered: Seq<bool>, count: int)
    ensures
        failures(delivered, count) > 0 <==> receiver_missed(delivered, count),
    decreases count,
{
    if count > 0 {
        lemma_failures_positive(delivered, count - 1);
        if receiver_missed(delivered, count) {
            let i = choose|i: int| 0 <= i < count && !delivered[i];
            if i < count - 1 {
                assert(receiver_missed(delivered, count - 1));
            }
        }
        if receiver_missed(delivered, count - 1) {
            let i = choose|i: int| 0 <= i < count - 1 && !delivered[i];
            assert(0 <= i < count && !delivered[i]);
        }
        if !delivered[count - 1] {
            assert(0 <= count - 1 < count && !delivered[count - 1]);
        }
    }
}

/// The engine is told to stop exactly once in a session in which a publish
/// found the receiver gone, however many did, and never in any other. The
/// receiver changes nothing else: the worker reads the same events and ends at
/// the same line whether they are taken or not.
pub proof fn law_single_stop(lines: Seq<Seq<char>>, delivered: Seq<bool>, other: Seq<bool>)
    requires
        delivered.len() == lines.len(),
        other.len() == lines.len(),
    ensures
        run(lines, delivered).stops == (if receiver_missed(delivered, run(lines, delivered).events.len() as int) {
            1nat
        } else {
            0nat
        }),
        run(lines, delivered).events == run(lines, other).events,
        run(lines, delivered).progress == run(lines, other).progress,
    decreases lines.len(),
{
    lemma_run(lines, delivered);
    lemma_failures_positive(delivered, run(lines, delivered).events.len() as int);
    if lines.len() > 0 {
        law_single_stop(lines.drop_last(), delivered.drop_last(), other.drop_last());
        lemma_run_ignores_later(lines.drop_last(), delivered, delivered.drop_last());
        lemma_run_ignores_later(lines.drop_last(), other, other.drop_last());
    }
}

/// Where the receiver is dropped after it took `taken` events and the engine
/// goes on with further candidate lines and then the best move, the engine is
/// told to stop exactly once, and the worker ends with the best move.
pub proof fn law_dropped_receiver(lines: Seq<Seq<char>>, delivered: Seq<bool>, taken: int)
    requires
        delivered.len() == lines.len(),
        0 <= taken < lines.len(),
        forall|i: int| 0 <= i < lines.len() ==> #[trigger] delivered[i] == (i < taken),
        forall|i: int| 0 <= i < lines.len() - 1 ==> is_info_line(#[trigger] lines[i]),
        is_best_move_line(lines.last()),
    ensures
        run(lines, delivered).stops == 1,
        run(lines, delivered).progress is Finished,
        run(lines, delivered).events.len() == lines.len(),
{
    law_session_ends(lines, delivered);
    law_single_stop(lines, delivered, delivered);
    assert(!delivered[taken]);
    assert(receiver_missed(delivered, lines.len() as int));
}

/// A session that runs its course ends with its best move: where candidate
/// lines arrive and then the best move, the worker publishes them all and
/// finishes on the last.
pub proof fn law_session_ends(lines: Seq<Seq<char>>, delivered: Seq<bool>)
    requires
        delivered.len() == lines.len(),
        lines.len() > 0,
        forall|i: int| 0 <= i < lines.len() - 1 ==> is_info_line(#[trigger] lines[i]),
        is_best_move_line(lines.last()),
    ensures
        run(lines, delivered).progress is Finished,
        run(lines, delivered).events.len() == lines.len(),
        run(lines, delivered).events.last() is BestMove,
{
    let earlier = lines.drop_last();
    law_lines_in_order(earlier, delivered.drop_last());
    lemma_run(earlier, delivered.drop_last());
    lemma_run_ignores_later(earlier, delivered, delivered.drop_last());
    lemma_aborted_is_short(earlier, delivered.drop_last());
}

} // verus!
