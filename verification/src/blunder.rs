//! The blunder check: the candidate lines of a session folded into ranked
//! alternatives, and the verdict on a proposed move.

use std::collections::HashMap;
use vstd::prelude::*;

use chess::ChessMove;
use itertools::Itertools;

use crate::codec::same_move;
use crate::session::{Analysis, AnalysisView, CandidateLine};
use crate::uci::Uci;

verus! {

broadcast use vstd::std_specs::hash::group_hash_axioms;

/// The loss, in centipawns, above which a proposed move is a blunder.
pub const BLUNDER_THRESHOLD: i32 = 200;

/// What the check found of a proposed move.
#[derive(Clone, Debug, PartialEq, Eq)]
pub struct BlunderVerdict {
    pub is_blunder: bool,
    /// The engine's alternatives on the position, by rising score.
    pub ranked_alternatives: Vec<(i32, ChessMove)>,
    /// The score of the opponent's best reply to the proposed move, counted
    /// from the opponent, where a second session was needed to find it.
    pub evaluation_of_proposed_line: Option<i32>,
}

/// Why the check reached no verdict.
#[derive(Clone, Copy, Debug, PartialEq, Eq, Structural)]
pub enum BlunderError {
    /// The session on the position gave no line with a move.
    NoCandidates,
    /// The session after the proposed move gave no line with a move.
    NoResponses,
}

/// The events of a session as the contracts speak of them.
pub open spec fn event_views(events: Seq<Analysis>) -> Seq<AnalysisView> {
    Seq::new(events.len(), |i: int| events[i]@)
}

/// What the ranking keeps of a line: its score and its first move, if it has one.
pub open spec fn head_of(line: CandidateLine) -> (i32, Option<ChessMove>) {
    (
        line.score,
        if line.moves.len() > 0 {
            Some(line.moves[0])
        } else {
            None
        },
    )
}

/// The candidate lines of a session by their index: a later line replaces an
/// earlier one with the same index.
pub open spec fn table_of(events: Seq<AnalysisView>) -> Map<u16, (i32, Option<ChessMove>)>
    decreases events.len(),
{
    if events.len() == 0 {
        Map::empty()
    } else {
        let earlier = table_of(events.drop_last());
        match events.last() {
            AnalysisView::PossibleMove(line) => earlier.insert(line.multi_pv, head_of(line)),
            _ => earlier,
        }
    }
}

/// The score and first move of each line with an index below `bound`, by
/// rising index. A line without moves gives no entry.
pub open spec fn entries_below(table: Map<u16, (i32, Option<ChessMove>)>, bound: int) -> Seq<(i32, ChessMove)>
    decreases bound,
{
    if bound <= 0 {
        Seq::empty()
    } else {
        let lower = entries_below(table, bound - 1);
        let index = (bound - 1) as u16;
        if table.contains_key(index) && table[index].1 is Some {
            lower.push((table[index].0, table[index].1->0))
        } else {
            lower
        }
    }
}

/// The entries of a session's lines, before they are ranked.
pub open spec fn entries_of(events: Seq<AnalysisView>) -> Seq<(i32, ChessMove)> {
    entries_below(table_of(events), 0x1_0000)
}

pub open spec fn ascending(entries: Seq<(i32, ChessMove)>) -> bool {
    forall|i: int, j: int| 0 <= i <= j < entries.len() ==> entries[i].0 <= entries[j].0
}

/// The entries with a given score, in the order in which they stand.
pub open spec fn with_score(entries: Seq<(i32, ChessMove)>, score: i32) -> Seq<(i32, ChessMove)> {
    entries.filter(|entry: (i32, ChessMove)| entry.0 == score)
}

/// `ranked` holds the entries by rising score, those with one score in the
/// order in which they stood.
pub open spec fn is_ranking_of(ranked: Seq<(i32, ChessMove)>, entries: Seq<(i32, ChessMove)>) -> bool {
    &&& ascending(ranked)
    &&& ranked.to_multiset() == entries.to_multiset()
    &&& forall|score: i32| #[trigger] with_score(ranked, score) == with_score(entries, score)
}

/// The move is the move of one of the entries.
pub open spec fn occurs(entries: Seq<(i32, ChessMove)>, chess_move: ChessMove) -> bool {
    exists|i: int| 0 <= i < entries.len() && entries[i].1 == chess_move
}

/// `score` is the highest score among the entries.
pub open spec fn is_greatest_score(score: i32, entries: Seq<(i32, ChessMove)>) -> bool {
    &&& exists|i: int| 0 <= i < entries.len() && entries[i].0 == score
    &&& forall|i: int| 0 <= i < entries.len() ==> entries[i].0 <= score
}

/// What the mover gives up with the proposed move: the score of the mover's
/// best alternative less the worth of the proposed line. Every score is
/// counted from the side that is to move, a higher one being better for it.
/// After the proposed move the opponent is to move, so the line is worth to
/// the mover the opponent's best reply with its sign turned, and the loss is
/// the sum of the two scores.
pub open spec fn centipawn_loss(best: i32, reply: i32) -> int {
    best - (-reply)
}

/// Calls `sorted_by_key` and `collect_vec` of `itertools`, with the score as
/// the key. The sort is the stable sort of slices: the result holds the same
/// entries by rising score, and entries with one score keep their order.
#[verifier::external_body]
pub(crate) fn sort_by_score(entries: Vec<(i32, ChessMove)>) -> (ranked: Vec<(i32, ChessMove)>)
    ensures
        is_ranking_of(ranked@, entries@),
{
    entries.into_iter().sorted_by_key(|entry| entry.0).collect_vec()
}

fn fold_lines(events: &Vec<Analysis>) -> (table: HashMap<u16, (i32, Option<ChessMove>)>)
    ensures
        table@ == table_of(event_views(events@)),
{
    let mut table: HashMap<u16, (i32, Option<ChessMove>)> = HashMap::new();
    let mut i: usize = 0;
    while i < events.len()
        invariant
            i <= events.len(),
            table@ == table_of(event_views(events@).take(i as int)),
        decreases events.len() - i,
    {
        proof {
            let views = event_views(events@);
            assert(views.take(i + 1).drop_last() =~= views.take(i as int));
            assert(views.take(i + 1).last() == events@[i as int]@);
        }
        match &events[i] {
            Analysis::PossibleMove(line) => {
                let first = if line.moves.len() > 0 {
                    Some(line.moves[0])
                } else {
                    None
                };
                table.insert(line.multi_pv, (line.score, first));
            },
            Analysis::BestMove { .. } => {},
        }
        i += 1;
    }
    proof {
        assert(event_views(events@).take(events.len() as int) =~= event_views(events@));
    }
    table
}

fn list_entries(table: &HashMap<u16, (i32, Option<ChessMove>)>) -> (entries: Vec<(i32, ChessMove)>)
    ensures
        entries@ == entries_below(table@, 0x1_0000),
{
    let mut entries: Vec<(i32, ChessMove)> = Vec::new();
    let mut bound: u32 = 0;
    while bound < 0x1_0000
        invariant
            bound <= 0x1_0000,
            entries@ == entries_below(table@, bound as int),
        decreases 0x1_0000 - bound,
    {
        let index: u16 = bound as u16;
        match table.get(&index) {
            Some(head) => match head.1 {
                Some(first) => {
                    entries.push((head.0, first));
                },
                None => {},
            },
            None => {},
        }
        bound += 1;
    }
    entries
}

fn find_move(entries: &Vec<(i32, ChessMove)>, chess_move: &ChessMove) -> (found: bool)
    ensures
        found == occurs(entries@, *chess_move),
{
    let mut i: usize = 0;
    while i < entries.len()
        invariant
            i <= entries.len(),
            forall|j: int| 0 <= j < i ==> entries@[j].1 != *chess_move,
        decreases entries.len() - i,
    {
        if same_move(&entries[i].1, chess_move) {
            return true;
        }
        i += 1;
    }
    false
}

/// The last of a ranking is an entry, and none has a higher score.
proof fn lemma_last_is_greatest(ranked: Seq<(i32, ChessMove)>, entries: Seq<(i32, ChessMove)>)
    requires
        is_ranking_of(ranked, entries),
        entries.len() > 0,
    ensures
        ranked.len() == entries.len(),
        is_greatest_score(ranked.last().0, entries),
{
    ranked.to_multiset_ensures();
    entries.to_multiset_ensures();
    let last = ranked.last();
    assert(ranked.contains(last));
    assert(ranked.to_multiset().count(last) > 0);
    assert(entries.to_multiset().count(last) > 0);
    assert(entries.contains(last));
    let at = choose|i: int| 0 <= i < entries.len() && entries[i] == last;
    assert(entries[at].0 == last.0);
    assert forall|i: int| 0 <= i < entries.len() implies entries[i].0 <= last.0 by {
        assert(entries.contains(entries[i]));
        assert(entries.to_multiset().count(entries[i]) > 0);
        assert(ranked.to_multiset().count(entries[i]) > 0);
        assert(ranked.contains(entries[i]));
        let j = choose|j: int| 0 <= j < ranked.len() && ranked[j] == entries[i];
        assert(ranked[j].0 <= ranked[ranked.len() - 1].0);
    }
}

proof fn lemma_same_order(first: Seq<(i32, ChessMove)>, second: Seq<(i32, ChessMove)>)
    requires
        ascending(first),
        ascending(second),
        first.to_multiset() == second.to_multiset(),
        forall|score: i32| #[trigger] with_score(first, score) == with_score(second, score),
    ensures
        first == second,
    decreases first.len(),
{
    first.to_multiset_ensures();
    second.to_multiset_ensures();
    assert(first.len() == second.len());
    if first.len() == 0 {
        assert(first =~= second);
    } else {
        let a = first.last();
        let b = second.last();
        assert(second.contains(b));
        assert(second.to_multiset().count(b) > 0);
        assert(first.contains(b));
        assert(first.contains(a));
        assert(first.to_multiset().count(a) > 0);
        assert(second.contains(a));
        let i = choose|i: int| 0 <= i < first.len() && first[i] == b;
        let j = choose|j: int| 0 <= j < second.len() && second[j] == a;
        assert(first[i].0 <= first[first.len() - 1].0);
        assert(second[j].0 <= second[second.len() - 1].0);
        assert(a.0 == b.0);
        let shorter = first.drop_last();
        let other = second.drop_last();
        reveal(Seq::filter);
        assert(with_score(first, a.0) == with_score(shorter, a.0).push(a));
        assert(with_score(second, a.0) == with_score(other, a.0).push(b));
        assert(with_score(first, a.0) == with_score(second, a.0));
        assert(with_score(shorter, a.0).push(a).last() == a);
        assert(with_score(other, a.0).push(b).last() == b);
        assert(a == b);
        assert forall|score: i32| #[trigger] with_score(shorter, score) == with_score(other, score) by {
            assert(with_score(first, score) == with_score(second, score));
            if score == a.0 {
                assert(with_score(shorter, score).push(a).drop_last() =~= with_score(shorter, score));
                assert(with_score(other, score).push(b).drop_last() =~= with_score(other, score));
            } else {
                assert(with_score(first, score) == with_score(shorter, score));
                assert(with_score(second, score) == with_score(other, score));
            }
        }
        assert(shorter =~= first.remove(first.len() - 1));
        assert(other =~= second.remove(second.len() - 1));
        assert(shorter.to_multiset() =~= other.to_multiset());
        lemma_same_order(shorter, other);
        assert(first =~= shorter.push(a));
        assert(second =~= other.push(b));
    }
}

/// The entries have one ranking only: their order by rising score, with
/// entries of one score in the order in which they stood, leaves no choice.
pub proof fn law_ranking_is_unique(
    first: Seq<(i32, ChessMove)>,
    second: Seq<(i32, ChessMove)>,
    entries: Seq<(i32, ChessMove)>,
)
    requires
        is_ranking_of(first, entries),
        is_ranking_of(second, entries),
    ensures
        first == second,
{
    assert forall|score: i32| #[trigger] with_score(first, score) == with_score(second, score) by {
        assert(with_score(first, score) == with_score(entries, score));
        assert(with_score(second, score) == with_score(entries, score));
    }
    lemma_same_order(first, second);
}

/// A ranked move is a listed move: whatever stands in a ranking, the engine's
/// first choice among it, occurs among the entries that were ranked. With the
/// contract of `check_for_blunder`, the engine's own moves are no blunders.
pub proof fn law_ranked_move_is_listed(ranked: Seq<(i32, ChessMove)>, entries: Seq<(i32, ChessMove)>, at: int)
    requires
        is_ranking_of(ranked, entries),
        0 <= at < ranked.len(),
    ensures
        occurs(entries, ranked[at].1),
{
    ranked.to_multiset_ensures();
    entries.to_multiset_ensures();
    assert(ranked.contains(ranked[at]));
    assert(ranked.to_multiset().count(ranked[at]) > 0);
    assert(entries.to_multiset().count(ranked[at]) > 0);
    assert(entries.contains(ranked[at]));
    let i = choose|i: int| 0 <= i < entries.len() && entries[i] == ranked[at];
    assert(entries[i].1 == ranked[at].1);
}

impl Uci {
    /// The engine's alternatives on a position, ranked, from the events of
    /// the session on it.
    pub fn rank_alternatives(events: &Vec<Analysis>) -> (ranked: Vec<(i32, ChessMove)>)
        ensures
            is_ranking_of(ranked@, entries_of(event_views(events@))),
    {
        let table = fold_lines(events);
        sort_by_score(list_entries(&table))
    }

    /// Whether the session on the position settles the check, so that no
    /// second session is needed: the proposed move is one of the alternatives.
    pub fn settles(first: &Vec<Analysis>, proposed_move: ChessMove) -> (settled: bool)
        ensures
            settled == occurs(entries_of(event_views(first@)), proposed_move),
    {
        let table = fold_lines(first);
        let entries = list_entries(&table);
        find_move(&entries, &proposed_move)
    }

    /// Judges a proposed move from the events of the session on the position
    /// and, where that does not settle it, of the session after the move.
    ///
    /// A move that the engine itself lists is no blunder. Any other move is
    /// one where the mover's loss is above `BLUNDER_THRESHOLD`. The mover's
    /// best is the highest score of the first session, the last of the rising
    /// ranking; the opponent's best reply is the highest score of the second
    /// session, which is counted from the opponent.
    pub fn check_for_blunder(first: &Vec<Analysis>, proposed_move: ChessMove, second: &Vec<Analysis>) -> (verdict:
        Result<BlunderVerdict, BlunderError>)
        ensures
            match verdict {
                Ok(found) => {
                    &&& is_ranking_of(found.ranked_alternatives@, entries_of(event_views(first@)))
                    &&& if occurs(entries_of(event_views(first@)), proposed_move) {
                        !found.is_blunder && found.evaluation_of_proposed_line is None
                    } else {
                        &&& found.ranked_alternatives@.len() > 0
                        &&& is_greatest_score(
                            found.ranked_alternatives@.last().0,
                            entries_of(event_views(first@)),
                        )
                        &&& found.evaluation_of_proposed_line is Some
                        &&& is_greatest_score(
                            found.evaluation_of_proposed_line->0,
                            entries_of(event_views(second@)),
                        )
                        &&& found.is_blunder == (centipawn_loss(
                            found.ranked_alternatives@.last().0,
                            found.evaluation_of_proposed_line->0,
                        ) > BLUNDER_THRESHOLD)
                    }
                },
                Err(BlunderError::NoCandidates) => {
                    &&& !occurs(entries_of(event_views(first@)), proposed_move)
                    &&& entries_of(event_views(first@)).len() == 0
                },
                Err(BlunderError::NoResponses) => {
                    &&& !occurs(entries_of(event_views(first@)), proposed_move)
                    &&& entries_of(event_views(first@)).len() > 0
                    &&& entries_of(event_views(second@)).len() == 0
                },
            },
    {
        let table = fold_lines(first);
        let entries = list_entries(&table);
        let settled = find_move(&entries, &proposed_move);
        let count = entries.len();
        let ghost listed = entries@;
        let ranked = sort_by_score(entries);
        if settled {
            return Ok(BlunderVerdict { is_blunder: false, ranked_alternatives: ranked, evaluation_of_proposed_line: None });
        }
        if count == 0 {
            return Err(BlunderError::NoCandidates);
        }
        let replies = list_entries(&fold_lines(second));
        if replies.len() == 0 {
            return Err(BlunderError::NoResponses);
        }
        let ghost answered = replies@;
        let ranked_replies = sort_by_score(replies);
        proof {
            lemma_last_is_greatest(ranked@, listed);
            lemma_last_is_greatest(ranked_replies@, answered);
        }
        let best: i32 = ranked[ranked.len() - 1].0;
        let reply: i32 = ranked_replies[ranked_replies.len() - 1].0;
        let is_blunder = best as i64 + reply as i64 > BLUNDER_THRESHOLD as i64;
        Ok(BlunderVerdict { is_blunder, ranked_alternatives: ranked, evaluation_of_proposed_line: Some(reply) })
    }
}

} // verus!
