//! What holds of the server whatever its clients send.
//!
//! Each proof function below states one law over the specification functions
//! that the contracts of [`crate::protocol`], [`crate::registry`] and
//! [`crate::tcp_server`] are written in.

use vstd::prelude::*;
use crate::player::PlayerView;
use crate::protocol::{all_read, parse, resolved, CommandView, MOVE_FIELDS};
use crate::registry::{audience, EntryView};
use crate::scalar::ScalarView;
use crate::tcp_server::{next_sessions, outcome_of, EventView, OutcomeView};
use crate::text::trimmed;

verus! {

/// The registry after a run of events on connection `id`, first event first.
pub open spec fn run<H>(
    sessions: Map<u64, EntryView<H>>,
    id: u64,
    events: Seq<EventView<H>>,
) -> Map<u64, EntryView<H>>
    decreases events.len(),
{
    if events.len() == 0 {
        sessions
    } else {
        next_sessions(run(sessions, id, events.drop_last()), id, events.last())
    }
}

/// Whether `event` is a join, a move, or a request that is ignored, such as a
/// move whose numbers do not read.
pub open spec fn joins_or_moves<H>(event: EventView<H>) -> bool {
    event matches EventView::Request { request, .. } && (request is Join || request is Move
        || request is Ignore)
}

/// Whether `event` is a join.
pub open spec fn is_join<H>(event: EventView<H>) -> bool {
    event matches EventView::Request { request, .. } && request is Join
}

/// Whether `event` is a move whose numbers all read.
pub open spec fn is_move<H>(event: EventView<H>) -> bool {
    event matches EventView::Request { request, .. } && request is Move
}

proof fn lemma_join_stays<H>(
    sessions: Map<u64, EntryView<H>>,
    id: u64,
    events: Seq<EventView<H>>,
    join: int,
)
    requires
        0 <= join < events.len(),
        forall|k: int| 0 <= k < events.len() ==> joins_or_moves(#[trigger] events[k]),
        is_join(events[join]),
        forall|k: int| join < k < events.len() ==> !is_join(#[trigger] events[k]),
    ensures
        run(sessions, id, events).contains_key(id),
        run(sessions, id, events)[id].handle == events[join]->outbound,
        run(sessions, id, events)[id].session.username == events[join]->request->name,
        run(sessions, id, events)[id].session.character == PlayerView::joined(
            events[join]->request->name,
        ).character,
    decreases events.len(),
{
    let earlier = events.drop_last();
    if join < events.len() - 1 {
        assert forall|k: int| 0 <= k < earlier.len() implies joins_or_moves(
            #[trigger] earlier[k],
        ) by {
            assert(earlier[k] == events[k]);
        }
        assert forall|k: int| join < k < earlier.len() implies !is_join(#[trigger] earlier[k]) by {
            assert(earlier[k] == events[k]);
        }
        assert(earlier[join] == events[join]);
        lemma_join_stays(sessions, id, earlier, join);
        assert(joins_or_moves(events[events.len() - 1]));
        assert(!is_join(events[events.len() - 1]));
    }
}

/// A session shows the last move and nothing of the moves before it.
///
/// Take any run of joins and moves on one connection, some of the moves
/// perhaps ignored because their numbers did not read. If the run holds a join,
/// the session afterwards carries the name and the handle of the last join.
/// Its position and direction are those of the last move after that join whose
/// numbers all read, and the join's defaults if there is no such move.
pub proof fn law_session_reflects_last_move<H>(
    sessions: Map<u64, EntryView<H>>,
    id: u64,
    events: Seq<EventView<H>>,
    join: int,
    last_move: Option<int>,
)
    requires
        0 <= join < events.len(),
        forall|k: int| 0 <= k < events.len() ==> joins_or_moves(#[trigger] events[k]),
        is_join(events[join]),
        forall|k: int| join < k < events.len() ==> !is_join(#[trigger] events[k]),
        match last_move {
            Some(at) => {
                &&& join < at < events.len()
                &&& is_move(events[at])
                &&& forall|k: int| at < k < events.len() ==> !is_move(#[trigger] events[k])
            },
            None => forall|k: int| join < k < events.len() ==> !is_move(#[trigger] events[k]),
        },
    ensures
        run(sessions, id, events).contains_key(id),
        run(sessions, id, events)[id].handle == events[join]->outbound,
        run(sessions, id, events)[id].session == match last_move {
            Some(at) => PlayerView::joined(events[join]->request->name).moved(
                events[at]->request->position,
                events[at]->request->direction,
            ),
            None => PlayerView::joined(events[join]->request->name),
        },
    decreases events.len(),
{
    let earlier = events.drop_last();
    let last = events.len() - 1;
    assert(joins_or_moves(events[last]));
    lemma_join_stays(sessions, id, events, join);
    if last == join {
    } else {
        assert(!is_join(events[last]));
        assert forall|k: int| 0 <= k < earlier.len() implies joins_or_moves(
            #[trigger] earlier[k],
        ) by {
            assert(earlier[k] == events[k]);
        }
        assert forall|k: int| join < k < earlier.len() implies !is_join(#[trigger] earlier[k]) by {
            assert(earlier[k] == events[k]);
        }
        assert(earlier[join] == events[join]);
        if last_move == Some(last) {
            lemma_join_stays(sessions, id, earlier, join);
        } else {
            assert(!is_move(events[last]));
            match last_move {
                Some(at) => {
                    assert(earlier[at] == events[at]);
                    assert forall|k: int| at < k < earlier.len() implies !is_move(
                        #[trigger] earlier[k],
                    ) by {
                        assert(earlier[k] == events[k]);
                    }
                },
                None => {
                    assert forall|k: int| join < k < earlier.len() implies !is_move(
                        #[trigger] earlier[k],
                    ) by {
                        assert(earlier[k] == events[k]);
                    }
                },
            }
            law_session_reflects_last_move(sessions, id, earlier, join, last_move);
        }
    }
}

/// Without a join, moves change a session that is there and make none.
///
/// Take any run of moves on one connection, some perhaps ignored, and no join
/// among them. A connection without a session still has none afterwards. A
/// connection with a session keeps its name, its character and its handle, at
/// the position and direction of the last move whose numbers all read, or
/// where it was if there is no such move.
pub proof fn law_moves_need_a_session<H>(
    sessions: Map<u64, EntryView<H>>,
    id: u64,
    events: Seq<EventView<H>>,
    last_move: Option<int>,
)
    requires
        forall|k: int|
            0 <= k < events.len() ==> joins_or_moves(#[trigger] events[k]) && !is_join(events[k]),
        match last_move {
            Some(at) => {
                &&& 0 <= at < events.len()
                &&& is_move(events[at])
                &&& forall|k: int| at < k < events.len() ==> !is_move(#[trigger] events[k])
            },
            None => forall|k: int| 0 <= k < events.len() ==> !is_move(#[trigger] events[k]),
        },
    ensures
        run(sessions, id, events).contains_key(id) == sessions.contains_key(id),
        sessions.contains_key(id) ==> run(sessions, id, events)[id] == (EntryView {
            session: match last_move {
                Some(at) => sessions[id].session.moved(
                    events[at]->request->position,
                    events[at]->request->direction,
                ),
                None => sessions[id].session,
            },
            handle: sessions[id].handle,
        }),
    decreases events.len(),
{
    if events.len() > 0 {
        let earlier = events.drop_last();
        let last = events.len() - 1;
        assert(joins_or_moves(events[last]) && !is_join(events[last]));
        assert forall|k: int| 0 <= k < earlier.len() implies joins_or_moves(
            #[trigger] earlier[k],
        ) && !is_join(earlier[k]) by {
            assert(earlier[k] == events[k]);
        }
        if last_move == Some(last) {
            if earlier.len() > 0 && exists|k: int| 0 <= k < earlier.len() && is_move(earlier[k]) {
                let before = lemma_last_move(earlier);
                law_moves_need_a_session(sessions, id, earlier, Some(before));
            } else {
                law_moves_need_a_session(sessions, id, earlier, None);
            }
        } else {
            assert(!is_move(events[last]));
            match last_move {
                Some(at) => {
                    assert(earlier[at] == events[at]);
                    assert forall|k: int| at < k < earlier.len() implies !is_move(
                        #[trigger] earlier[k],
                    ) by {
                        assert(earlier[k] == events[k]);
                    }
                },
                None => {
                    assert forall|k: int| 0 <= k < earlier.len() implies !is_move(
                        #[trigger] earlier[k],
                    ) by {
                        assert(earlier[k] == events[k]);
                    }
                },
            }
            law_moves_need_a_session(sessions, id, earlier, last_move);
        }
    }
}

proof fn lemma_last_move<H>(events: Seq<EventView<H>>) -> (at: int)
    requires
        exists|k: int| 0 <= k < events.len() && is_move(events[k]),
    ensures
        0 <= at < events.len(),
        is_move(events[at]),
        forall|k: int| at < k < events.len() ==> !is_move(#[trigger] events[k]),
    decreases events.len(),
{
    let last = events.len() - 1;
    if is_move(events[last]) {
        last
    } else {
        let earlier = events.drop_last();
        let k = choose|k: int| 0 <= k < events.len() && is_move(events[k]);
        assert(earlier[k] == events[k]);
        let at = lemma_last_move(earlier);
        assert(earlier[at] == events[at]);
        assert forall|j: int| at < j < events.len() implies !is_move(#[trigger] events[j]) by {
            if j < last {
                assert(earlier[j] == events[j]);
            }
        }
        at
    }
}

/// An event on one connection leaves every other connection's entry alone.
pub proof fn law_events_touch_one_identity<H>(
    sessions: Map<u64, EntryView<H>>,
    id: u64,
    event: EventView<H>,
    other: u64,
)
    requires
        other != id,
    ensures
        next_sessions(sessions, id, event).contains_key(other) == sessions.contains_key(other),
        sessions.contains_key(other) ==> next_sessions(sessions, id, event)[other]
            == sessions[other],
{
}

/// A ping changes nothing and tells nobody but the sender.
///
/// Whatever input begins with `ping` once the white space around it is gone,
/// whatever the readings handed over with it and whatever the registry holds:
/// the registry stays as it is, no broadcast goes out, and the connection stays
/// open.
pub proof fn law_ping_is_private<H>(
    sessions: Map<u64, EntryView<H>>,
    id: u64,
    input: Seq<char>,
    readings: Seq<Option<ScalarView>>,
    outbound: H,
)
    requires
        "ping"@.is_prefix_of(trimmed(input)),
    ensures
        ({
            let event = EventView::Request {
                request: resolved(parse(input), readings),
                outbound,
            };
            &&& next_sessions(sessions, id, event) == sessions
            &&& outcome_of(sessions, id, event).broadcast is None
            &&& !outcome_of(sessions, id, event).close
        }),
{
}

/// A move without exactly six fields ends the sender's connection in silence.
///
/// The sender's entry leaves the registry, every other entry stays as it was,
/// and nothing is written to anyone.
pub proof fn law_malformed_move_closes<H>(
    sessions: Map<u64, EntryView<H>>,
    id: u64,
    fields: Seq<Seq<char>>,
    readings: Seq<Option<ScalarView>>,
    outbound: H,
)
    requires
        fields.len() != MOVE_FIELDS,
    ensures
        ({
            let event = EventView::Request {
                request: resolved(CommandView::Move { fields }, readings),
                outbound,
            };
            &&& outcome_of(sessions, id, event) == OutcomeView::closing()
            &&& next_sessions(sessions, id, event) == sessions.remove(id)
            &&& forall|other: u64|
                other != id ==> (next_sessions(sessions, id, event).contains_key(other)
                    <==> #[trigger] sessions.contains_key(other))
            &&& forall|other: u64|
                other != id && #[trigger] sessions.contains_key(other) ==> next_sessions(
                    sessions,
                    id,
                    event,
                )[other] == sessions[other]
        }),
{
}

/// A move with six fields of which one is no number changes nothing.
///
/// The registry stays as it is, the sender's session included, nothing is
/// written to anyone, and the connection stays open.
pub proof fn law_unreadable_move_is_ignored<H>(
    sessions: Map<u64, EntryView<H>>,
    id: u64,
    fields: Seq<Seq<char>>,
    readings: Seq<Option<ScalarView>>,
    outbound: H,
    unread: int,
)
    requires
        fields.len() == MOVE_FIELDS,
        0 <= unread < readings.len(),
        readings[unread] is None,
    ensures
        ({
            let event = EventView::Request {
                request: resolved(CommandView::Move { fields }, readings),
                outbound,
            };
            &&& next_sessions(sessions, id, event) == sessions
            &&& outcome_of(sessions, id, event) == OutcomeView::silent()
        }),
{
    assert(!all_read(readings));
}

/// No broadcast comes back to the connection that caused it.
///
/// Whatever event arrives on connection `id`, a broadcast that it causes
/// excludes `id`, and so `id` is not among those it is written to.
pub proof fn law_broadcast_skips_sender<H>(
    sessions: Map<u64, EntryView<H>>,
    id: u64,
    event: EventView<H>,
)
    ensures
        outcome_of(sessions, id, event).broadcast matches Some(broadcast) ==> {
            &&& broadcast.exclude == Some(id)
            &&& !audience(next_sessions(sessions, id, event), broadcast.exclude).contains(id)
        },
{
}

/// A closed connection is gone from the registry and hears nothing more.
///
/// After any event that ends connection `id`, the registry has no entry for
/// `id`. No broadcast reaches an identity without an entry, and no event on
/// another connection gives `id` an entry back.
pub proof fn law_closed_connection_is_forgotten<H>(
    sessions: Map<u64, EntryView<H>>,
    id: u64,
    event: EventView<H>,
    other: u64,
    later: EventView<H>,
    exclude: Option<u64>,
)
    requires
        outcome_of(sessions, id, event).close,
        other != id,
    ensures
        ({
            let closed = next_sessions(sessions, id, event);
            &&& !closed.contains_key(id)
            &&& !audience(closed, exclude).contains(id)
            &&& !next_sessions(closed, other, later).contains_key(id)
            &&& !audience(next_sessions(closed, other, later), exclude).contains(id)
        }),
{
}

/// The end of the stream and a failed read both end the connection.
pub proof fn law_disconnect_closes<H>(sessions: Map<u64, EntryView<H>>, id: u64)
    ensures
        outcome_of(sessions, id, EventView::<H>::EndOfStream) == OutcomeView::closing(),
        outcome_of(sessions, id, EventView::<H>::ReadFailed) == OutcomeView::closing(),
        next_sessions(sessions, id, EventView::<H>::EndOfStream) == sessions.remove(id),
        next_sessions(sessions, id, EventView::<H>::ReadFailed) == sessions.remove(id),
{
}

} // verus!
