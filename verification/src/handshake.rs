//! The handshake that brings an engine to its ready state: what each line
//! from the engine leads to, and what the whole exchange comes to.

use vstd::prelude::*;

use crate::codec::{CommandView, Inbound};
use crate::scan::{first_marker, received};

verus! {

/// Where the conversation with the engine stands.
#[derive(Clone, Copy, Debug, PartialEq, Eq, Structural)]
pub enum Phase {
    /// `uci` was sent; lines are discarded until the engine identifies itself.
    AwaitingId,
    /// The engine has identified itself; messages are discarded until `uciok`.
    AwaitingUciOk,
    /// The first `isready` was sent.
    AwaitingFirstReady,
    /// The options and the second `isready` were sent.
    AwaitingSecondReady,
    /// The engine takes a search.
    Ready,
    /// A search is in flight.
    Searching,
    /// The conversation broke down; the handle is of no more use.
    Failed,
}

/// Why the handshake failed.
#[derive(Clone, Copy, Debug, PartialEq, Eq, Structural)]
pub enum HandshakeError {
    /// The reply to `isready` was not `readyok`.
    UnexpectedMessage,
    /// The line is one the decoder cannot take.
    UndecodableLine,
}

/// The phase after one line of the handshake, and the commands to send or the
/// reason of the failure.
pub struct HandshakeStep {
    pub phase: Phase,
    pub reply: Result<Seq<CommandView>, HandshakeError>,
}

/// What follows the first `readyok`: a new game, the three options, and the
/// `isready` that confirms them.
pub open spec fn setup_commands() -> Seq<CommandView> {
    seq![
        CommandView::UciNewGame,
        CommandView::SetOption { name: "Threads"@, value: "4"@ },
        CommandView::SetOption { name: "UCI_AnalyseMode"@, value: "true"@ },
        CommandView::SetOption { name: "MultiPV"@, value: "5"@ },
        CommandView::IsReady,
    ]
}

/// One message between the identification and `uciok`: `uciok` is answered
/// with `isready`, anything else is discarded. No message stands for a line
/// that the decoder cannot take.
pub open spec fn until_uciok(message: Option<Inbound>) -> HandshakeStep {
    match message {
        None => HandshakeStep { phase: Phase::Failed, reply: Err(HandshakeError::UndecodableLine) },
        Some(Inbound::UciOk) => HandshakeStep { phase: Phase::AwaitingFirstReady, reply: Ok(seq![CommandView::IsReady]) },
        Some(_) => HandshakeStep { phase: Phase::AwaitingUciOk, reply: Ok(Seq::empty()) },
    }
}

/// The reply to an `isready`: `readyok` leads on, anything else is fatal.
pub open spec fn on_ready_reply(message: Option<Inbound>, next: Phase, commands: Seq<CommandView>) -> HandshakeStep {
    match message {
        None => HandshakeStep { phase: Phase::Failed, reply: Err(HandshakeError::UndecodableLine) },
        Some(Inbound::ReadyOk) => HandshakeStep { phase: next, reply: Ok(commands) },
        Some(_) => HandshakeStep { phase: Phase::Failed, reply: Err(HandshakeError::UnexpectedMessage) },
    }
}

/// One message of the handshake, the identification or a later one. Outside
/// the handshake a message changes nothing.
pub open spec fn message_step(phase: Phase, message: Option<Inbound>) -> HandshakeStep {
    match phase {
        Phase::AwaitingId => until_uciok(message),
        Phase::AwaitingUciOk => until_uciok(message),
        Phase::AwaitingFirstReady => on_ready_reply(message, Phase::AwaitingSecondReady, setup_commands()),
        Phase::AwaitingSecondReady => on_ready_reply(message, Phase::Ready, Seq::empty()),
        _ => HandshakeStep { phase, reply: Ok(Seq::empty()) },
    }
}

/// One line of the handshake. Before the identification a line without the
/// marker is discarded, and one with it counts from the marker on as the first
/// message. Any later line counts for the message it decodes to.
pub open spec fn handshake_step(phase: Phase, line: Seq<char>) -> HandshakeStep {
    if phase == Phase::AwaitingId {
        match first_marker(line) {
            None => HandshakeStep { phase: Phase::AwaitingId, reply: Ok(Seq::empty()) },
            Some(start) => message_step(phase, received(line.subrange(start, line.len() as int))),
        }
    } else {
        message_step(phase, received(line))
    }
}

/// What the handshake has come to after some lines.
pub struct HandshakeRun {
    pub phase: Phase,
    /// Every command sent so far, the opening `uci` included.
    pub sent: Seq<CommandView>,
    pub error: Option<HandshakeError>,
}

/// The handshake over the lines that the engine sends, from the opening `uci`
/// on. After a failure no line is read.
pub open spec fn handshake_run(lines: Seq<Seq<char>>) -> HandshakeRun
    decreases lines.len(),
{
    if lines.len() == 0 {
        HandshakeRun { phase: Phase::AwaitingId, sent: seq![CommandView::Uci], error: None }
    } else {
        let before = handshake_run(lines.drop_last());
        if before.error is Some {
            before
        } else {
            let step = handshake_step(before.phase, lines.last());
            match step.reply {
                Ok(commands) => HandshakeRun { phase: step.phase, sent: before.sent + commands, error: None },
                Err(error) => HandshakeRun { phase: step.phase, sent: before.sent, error: Some(error) },
            }
        }
    }
}

/// The line holds the identification marker, and from the marker on it
/// decodes to a message other than `uciok`.
pub open spec fn identifies(line: Seq<char>) -> bool {
    &&& first_marker(line) is Some
    &&& received(line.subrange(first_marker(line)->0, line.len() as int)) is Some
    &&& received(line.subrange(first_marker(line)->0, line.len() as int)) != Some(Inbound::UciOk)
}

/// The line decodes to a message other than `uciok`.
pub open spec fn passes_by(line: Seq<char>) -> bool {
    received(line) is Some && received(line) != Some(Inbound::UciOk)
}

/// The lines up to and with `uciok`: banner lines without the marker, the
/// identification, further messages, `uciok`.
pub open spec fn greeting(
    banners: Seq<Seq<char>>,
    identification: Seq<char>,
    further: Seq<Seq<char>>,
    uciok: Seq<char>,
) -> Seq<Seq<char>> {
    (banners.push(identification) + further).push(uciok)
}

pub open spec fn is_greeting(
    banners: Seq<Seq<char>>,
    identification: Seq<char>,
    further: Seq<Seq<char>>,
    uciok: Seq<char>,
) -> bool {
    &&& forall|i: int| 0 <= i < banners.len() ==> first_marker(#[trigger] banners[i]) is None
    &&& identifies(identification)
    &&& forall|i: int| 0 <= i < further.len() ==> passes_by(#[trigger] further[i])
    &&& received(uciok) == Some(Inbound::UciOk)
}

proof fn lemma_banners(banners: Seq<Seq<char>>)
    requires
        forall|i: int| 0 <= i < banners.len() ==> first_marker(#[trigger] banners[i]) is None,
    ensures
        handshake_run(banners) == (HandshakeRun {
            phase: Phase::AwaitingId,
            sent: seq![CommandView::Uci],
            error: None,
        }),
    decreases banners.len(),
{
    if banners.len() > 0 {
        lemma_banners(banners.drop_last());
        assert(first_marker(banners[banners.len() - 1]) is None);
        assert(seq![CommandView::Uci] + Seq::<CommandView>::empty() =~= seq![CommandView::Uci]);
    }
}

proof fn lemma_further(start: Seq<Seq<char>>, further: Seq<Seq<char>>)
    requires
        handshake_run(start).phase == Phase::AwaitingUciOk,
        handshake_run(start).error is None,
        forall|i: int| 0 <= i < further.len() ==> passes_by(#[trigger] further[i]),
    ensures
        handshake_run(start + further) == handshake_run(start),
    decreases further.len(),
{
    if further.len() == 0 {
        assert(start + further =~= start);
    } else {
        lemma_further(start, further.drop_last());
        assert((start + further).drop_last() =~= start + further.drop_last());
        assert((start + further).last() == further[further.len() - 1]);
        assert(passes_by(further[further.len() - 1]));
        assert(handshake_run(start).sent + Seq::<CommandView>::empty() =~= handshake_run(start).sent);
    }
}

proof fn lemma_greeting(
    banners: Seq<Seq<char>>,
    identification: Seq<char>,
    further: Seq<Seq<char>>,
    uciok: Seq<char>,
)
    requires
        is_greeting(banners, identification, further, uciok),
    ensures
        handshake_run(greeting(banners, identification, further, uciok)) == (HandshakeRun {
            phase: Phase::AwaitingFirstReady,
            sent: seq![CommandView::Uci, CommandView::IsReady],
            error: None,
        }),
{
    lemma_banners(banners);
    let identified = banners.push(identification);
    assert(identified.drop_last() =~= banners);
    assert(seq![CommandView::Uci] + Seq::<CommandView>::empty() =~= seq![CommandView::Uci]);
    assert(handshake_run(identified).phase == Phase::AwaitingUciOk);
    lemma_further(identified, further);
    let greeted = (identified + further).push(uciok);
    assert(greeted.drop_last() =~= identified + further);
    assert(seq![CommandView::Uci] + seq![CommandView::IsReady] =~= seq![CommandView::Uci, CommandView::IsReady]);
}

/// The handshake succeeds with an engine that answers as the protocol asks:
/// after banner lines, the identification, further messages and `uciok`, a
/// `readyok` to each of the two `isready` brings the handle to its ready
/// state, and the client has sent `uci`, `isready`, the new game, the three
/// options and `isready` again, in that order.
pub proof fn law_handshake_succeeds(
    banners: Seq<Seq<char>>,
    identification: Seq<char>,
    further: Seq<Seq<char>>,
    uciok: Seq<char>,
    first_reply: Seq<char>,
    second_reply: Seq<char>,
)
    requires
        is_greeting(banners, identification, further, uciok),
        received(first_reply) == Some(Inbound::ReadyOk),
        received(second_reply) == Some(Inbound::ReadyOk),
    ensures
        handshake_run(
            greeting(banners, identification, further, uciok).push(first_reply).push(second_reply),
        ) == (HandshakeRun {
            phase: Phase::Ready,
            sent: seq![CommandView::Uci, CommandView::IsReady] + setup_commands(),
            error: None,
        }),
{
    lemma_greeting(banners, identification, further, uciok);
    let greeted = greeting(banners, identification, further, uciok);
    let replied = greeted.push(first_reply);
    assert(replied.drop_last() =~= greeted);
    assert(replied.last() == first_reply);
    let sent = seq![CommandView::Uci, CommandView::IsReady] + setup_commands();
    assert(handshake_run(replied) == (HandshakeRun { phase: Phase::AwaitingSecondReady, sent, error: None }));
    assert(replied.push(second_reply).drop_last() =~= replied);
    assert(replied.push(second_reply).last() == second_reply);
    assert(sent + Seq::<CommandView>::empty() =~= sent);
}

/// The handshake fails where the reply to the first `isready` is a message
/// other than `readyok`: nothing more is sent, and the handle is of no use.
pub proof fn law_handshake_fails_on_first_reply(
    banners: Seq<Seq<char>>,
    identification: Seq<char>,
    further: Seq<Seq<char>>,
    uciok: Seq<char>,
    first_reply: Seq<char>,
)
    requires
        is_greeting(banners, identification, further, uciok),
        received(first_reply) is Some,
        received(first_reply) != Some(Inbound::ReadyOk),
    ensures
        handshake_run(greeting(banners, identification, further, uciok).push(first_reply)) == (HandshakeRun {
            phase: Phase::Failed,
            sent: seq![CommandView::Uci, CommandView::IsReady],
            error: Some(HandshakeError::UnexpectedMessage),
        }),
{
    lemma_greeting(banners, identification, further, uciok);
    let greeted = greeting(banners, identification, further, uciok);
    assert(greeted.push(first_reply).drop_last() =~= greeted);
}

/// The handshake fails where the reply to the second `isready` is a message
/// other than `readyok`.
pub proof fn law_handshake_fails_on_second_reply(
    banners: Seq<Seq<char>>,
    identification: Seq<char>,
    further: Seq<Seq<char>>,
    uciok: Seq<char>,
    first_reply: Seq<char>,
    second_reply: Seq<char>,
)
    requires
        is_greeting(banners, identification, further, uciok),
        received(first_reply) == Some(Inbound::ReadyOk),
        received(second_reply) is Some,
        received(second_reply) != Some(Inbound::ReadyOk),
    ensures
        handshake_run(
            greeting(banners, identification, further, uciok).push(first_reply).push(second_reply),
        ) == (HandshakeRun {
            phase: Phase::Failed,
            sent: seq![CommandView::Uci, CommandView::IsReady] + setup_commands(),
            error: Some(HandshakeError::UnexpectedMessage),
        }),
{
    lemma_greeting(banners, identification, further, uciok);
    let greeted = greeting(banners, identification, further, uciok);
    let replied = greeted.push(first_reply);
    assert(replied.drop_last() =~= greeted);
    assert(replied.last() == first_reply);
    let sent = seq![CommandView::Uci, CommandView::IsReady] + setup_commands();
    assert(handshake_run(replied) == (HandshakeRun { phase: Phase::AwaitingSecondReady, sent, error: None }));
    assert(replied.push(second_reply).drop_last() =~= replied);
    assert(replied.push(second_reply).last() == second_reply);
}

} // verus!
