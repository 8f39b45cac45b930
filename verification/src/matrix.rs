//! Protocol-facing bookkeeping: read receipts, backward pagination, and the
//! translation of fetched pages and sync batches into events.
//!
//! The functions here decide; the surrounding program performs the network
//! calls.  A room's pagination cursor is consumed the moment a fetch is
//! decided on, so a second trigger while that fetch is in flight finds no
//! cursor and issues nothing.

use vstd::prelude::*;

use crate::events::Action;
use crate::events::MatrixEvent;
use crate::state::Message;
use crate::state::Room;

verus! {

/// How many events one backward-history request asks for.
pub const HISTORY_PAGE_LIMIT: u32 = 50;

/// A room after its pagination cursor is consumed, paired with the consumed
/// cursor.
pub open spec fn consume_cursor(room: Room) -> (Room, Option<String>) {
    (Room { prev_batch: None, ..room }, room.prev_batch)
}

/// The pagination cursor is never consumed twice: once a fetch has consumed
/// it, a second trigger finds no cursor and gets no token, so no second
/// request is issued for the room.
pub proof fn lemma_no_double_fetch(room: Room)
    ensures
        consume_cursor(consume_cursor(room).0).1 is None,
{
}

/// Consume the room's pagination cursor and hand back the token to fetch
/// with: `Some` exactly when the room still had a cursor, `None` when
/// history is exhausted or a fetch is already in flight.
pub fn fetch_old_messages(room: &mut Room) -> (token: Option<String>)
    ensures
        (*final(room), token) == consume_cursor(*old(room)),
{
    let token = room.prev_batch.take();
    token
}

/// The read receipt a room owes: one for its newest message, none while the
/// timeline is empty.
pub open spec fn receipt_actions(room: Room) -> Seq<Action> {
    if room.message_list.messages@.len() > 0 {
        seq![
            Action::SendReadReceipt {
                room_id: room.id,
                event_id: room.message_list.messages@.last().id,
            },
        ]
    } else {
        Seq::<Action>::empty()
    }
}

/// The read-receipt request for the newest message of `room`, if it has one.
pub fn send_read_receipt_current_room(room: &Room) -> (a: Option<Action>)
    ensures
        room.message_list.messages@.len() > 0 ==> (a matches Some(act) && act
            == Action::SendReadReceipt {
            room_id: room.id,
            event_id: room.message_list.messages@.last().id,
        }),
        room.message_list.messages@.len() == 0 ==> a is None,
{
    let n = room.message_list.messages.len();
    if n > 0 {
        let last = &room.message_list.messages[n - 1];
        Some(Action::SendReadReceipt { room_id: room.id.clone(), event_id: last.id.clone() })
    } else {
        None
    }
}

/// One event of a fetched history page or of a sync batch, after decoding:
/// a room message, a reaction, or something this client ignores.
#[derive(Debug, PartialEq, Eq)]
pub enum ChunkEvent {
    RoomMessage(Message),
    Reaction { event_id: String, user_id: String, emoji: String },
    Other,
}

/// What one backward-history request returned: the continuation token, if
/// history goes further back, and the page's events in the order the server
/// returned them (newest first).
#[derive(Debug, PartialEq, Eq)]
pub struct HistoryResponse {
    pub end: Option<String>,
    pub chunk: Vec<ChunkEvent>,
}

/// The cursor-advanced event a continuation token becomes.
pub open spec fn prev_batch_events(room_id: String, end: Option<String>) -> Seq<MatrixEvent> {
    match end {
        Some(token) => seq![MatrixEvent::PrevBatch { id: room_id, prev_batch: token }],
        None => Seq::<MatrixEvent>::empty(),
    }
}

/// The events a page's entries become, in page order: each room message an
/// `OldMessage`, each reaction a `Reaction`, everything else dropped.
pub open spec fn chunk_events(room_id: String, chunk: Seq<ChunkEvent>) -> Seq<MatrixEvent>
    decreases chunk.len(),
{
    if chunk.len() == 0 {
        Seq::empty()
    } else {
        (match chunk.first() {
            ChunkEvent::RoomMessage(m) => seq![
                MatrixEvent::OldMessage { room_id: room_id, event: m },
            ],
            ChunkEvent::Reaction { event_id, user_id, emoji } => seq![
                MatrixEvent::Reaction { event_id, user_id, emoji },
            ],
            ChunkEvent::Other => Seq::<MatrixEvent>::empty(),
        }) + chunk_events(room_id, chunk.drop_first())
    }
}

/// Everything a fetched page becomes: the cursor-advanced event first, then
/// the page's events in order.
pub open spec fn history_events(room_id: String, response: HistoryResponse) -> Seq<MatrixEvent> {
    prev_batch_events(room_id, response.end) + chunk_events(room_id, response.chunk@)
}

/// Processing one more page entry appends exactly the events it becomes.
proof fn lemma_chunk_events_push(room_id: String, chunk: Seq<ChunkEvent>, x: ChunkEvent)
    ensures
        chunk_events(room_id, chunk.push(x)) == chunk_events(room_id, chunk) + (match x {
            ChunkEvent::RoomMessage(m) => seq![
                MatrixEvent::OldMessage { room_id: room_id, event: m },
            ],
            ChunkEvent::Reaction { event_id, user_id, emoji } => seq![
                MatrixEvent::Reaction { event_id, user_id, emoji },
            ],
            ChunkEvent::Other => Seq::<MatrixEvent>::empty(),
        }),
    decreases chunk.len(),
{
    if chunk.len() == 0 {
        assert(chunk.push(x).drop_first() =~= chunk);
        assert(chunk_events(room_id, chunk.push(x)) =~= chunk_events(room_id, chunk) + (match x {
            ChunkEvent::RoomMessage(m) => seq![
                MatrixEvent::OldMessage { room_id: room_id, event: m },
            ],
            ChunkEvent::Reaction { event_id, user_id, emoji } => seq![
                MatrixEvent::Reaction { event_id, user_id, emoji },
            ],
            ChunkEvent::Other => Seq::<MatrixEvent>::empty(),
        }));
    } else {
        lemma_chunk_events_push(room_id, chunk.drop_first(), x);
        assert(chunk.push(x).drop_first() =~= chunk.drop_first().push(x));
        assert(chunk_events(room_id, chunk.push(x)) =~= chunk_events(room_id, chunk) + (match x {
            ChunkEvent::RoomMessage(m) => seq![
                MatrixEvent::OldMessage { room_id: room_id, event: m },
            ],
            ChunkEvent::Reaction { event_id, user_id, emoji } => seq![
                MatrixEvent::Reaction { event_id, user_id, emoji },
            ],
            ChunkEvent::Other => Seq::<MatrixEvent>::empty(),
        }));
    }
}

/// Turn one fetched history page into the events to dispatch, in order: the
/// cursor-advanced event (if the server returned a continuation token), then
/// one event per recognized page entry, in the order received.
pub fn process_history_response(room_id: &String, response: HistoryResponse) -> (events: Vec<
    MatrixEvent,
>)
    ensures
        events@ == history_events(*room_id, response),
{
    let HistoryResponse { end, chunk } = response;
    let ghost chunk0 = chunk@;
    let mut events: Vec<MatrixEvent> = Vec::new();
    match end {
        Some(token) => {
            events.push(MatrixEvent::PrevBatch { id: room_id.clone(), prev_batch: token });
        },
        None => {},
    }
    let ghost head = events@;
    proof {
        assert(head =~= prev_batch_events(*room_id, response.end));
        assert(chunk_events(*room_id, chunk0.take(0)) =~= Seq::<MatrixEvent>::empty());
    }
    let mut i: usize = 0;
    let n = chunk.len();
    while i < n
        invariant
            n == chunk@.len(),
            i <= n,
            chunk@ == chunk0,
            events@ == head + chunk_events(*room_id, chunk0.take(i as int)),
        decreases n - i,
    {
        proof {
            assert(chunk0.take(i as int).push(chunk0[i as int]) =~= chunk0.take(i as int + 1));
            lemma_chunk_events_push(*room_id, chunk0.take(i as int), chunk0[i as int]);
        }
        match &chunk[i] {
            ChunkEvent::RoomMessage(m) => {
                events.push(
                    MatrixEvent::OldMessage { room_id: room_id.clone(), event: m.clone() },
                );
            },
            ChunkEvent::Reaction { event_id, user_id, emoji } => {
                events.push(
                    MatrixEvent::Reaction {
                        event_id: event_id.clone(),
                        user_id: user_id.clone(),
                        emoji: emoji.clone(),
                    },
                );
            },
            ChunkEvent::Other => {},
        }
        proof {
            assert(events@ =~= head + chunk_events(*room_id, chunk0.take(i as int + 1)));
        }
        i += 1;
    }
    proof {
        assert(chunk0.take(n as int) =~= chunk0);
        assert(events@ =~= history_events(*room_id, response));
    }
    events
}

/// The events a sync batch's timeline entries become: one `Reaction` per
/// reaction; everything else (room messages arrive through their own
/// callback) is dropped.
pub open spec fn timeline_events(items: Seq<ChunkEvent>) -> Seq<MatrixEvent>
    decreases items.len(),
{
    if items.len() == 0 {
        Seq::empty()
    } else {
        (match items.first() {
            ChunkEvent::Reaction { event_id, user_id, emoji } => seq![
                MatrixEvent::Reaction { event_id, user_id, emoji },
            ],
            _ => Seq::<MatrixEvent>::empty(),
        }) + timeline_events(items.drop_first())
    }
}

/// Processing one more timeline entry appends exactly the events it becomes.
proof fn lemma_timeline_events_push(items: Seq<ChunkEvent>, x: ChunkEvent)
    ensures
        timeline_events(items.push(x)) == timeline_events(items) + (match x {
            ChunkEvent::Reaction { event_id, user_id, emoji } => seq![
                MatrixEvent::Reaction { event_id, user_id, emoji },
            ],
            _ => Seq::<MatrixEvent>::empty(),
        }),
    decreases items.len(),
{
    if items.len() == 0 {
        assert(items.push(x).drop_first() =~= items);
        assert(timeline_events(items.push(x)) =~= timeline_events(items) + (match x {
            ChunkEvent::Reaction { event_id, user_id, emoji } => seq![
                MatrixEvent::Reaction { event_id, user_id, emoji },
            ],
            _ => Seq::<MatrixEvent>::empty(),
        }));
    } else {
        lemma_timeline_events_push(items.drop_first(), x);
        assert(items.push(x).drop_first() =~= items.drop_first().push(x));
        assert(timeline_events(items.push(x)) =~= timeline_events(items) + (match x {
            ChunkEvent::Reaction { event_id, user_id, emoji } => seq![
                MatrixEvent::Reaction { event_id, user_id, emoji },
            ],
            _ => Seq::<MatrixEvent>::empty(),
        }));
    }
}

/// Turn one sync batch's timeline entries into the reaction events they
/// carry, in order.
pub fn process_timeline(items: Vec<ChunkEvent>) -> (events: Vec<MatrixEvent>)
    ensures
        events@ == timeline_events(items@),
{
    let ghost items0 = items@;
    let mut events: Vec<MatrixEvent> = Vec::new();
    proof {
        assert(timeline_events(items0.take(0)) =~= Seq::<MatrixEvent>::empty());
        assert(events@ =~= timeline_events(items0.take(0)));
    }
    let n = items.len();
    let mut i: usize = 0;
    while i < n
        invariant
            n == items@.len(),
            i <= n,
            items@ == items0,
            events@ == timeline_events(items0.take(i as int)),
        decreases n - i,
    {
        proof {
            assert(items0.take(i as int).push(items0[i as int]) =~= items0.take(i as int + 1));
            lemma_timeline_events_push(items0.take(i as int), items0[i as int]);
        }
        match &items[i] {
            ChunkEvent::Reaction { event_id, user_id, emoji } => {
                events.push(
                    MatrixEvent::Reaction {
                        event_id: event_id.clone(),
                        user_id: user_id.clone(),
                        emoji: emoji.clone(),
                    },
                );
            },
            _ => {},
        }
        proof {
            assert(events@ =~= timeline_events(items0.take(i as int + 1)));
        }
        i += 1;
    }
    proof {
        assert(items0.take(n as int) =~= items0);
    }
    events
}

/// Turn one joined room of a sync batch into the events to dispatch: its
/// unread count first, then the reactions its timeline carries.
pub fn process_sync_room(
    room_id: &String,
    notification_count: u64,
    timeline: Vec<ChunkEvent>,
) -> (events: Vec<MatrixEvent>)
    ensures
        events@ == seq![
            MatrixEvent::Notifications { id: *room_id, count: notification_count },
        ] + timeline_events(timeline@),
{
    let mut events: Vec<MatrixEvent> = Vec::new();
    events.push(MatrixEvent::Notifications { id: room_id.clone(), count: notification_count });
    let mut rest = process_timeline(timeline);
    let ghost rest0 = rest@;
    events.append(&mut rest);
    proof {
        assert(events@ =~= seq![
            MatrixEvent::Notifications { id: *room_id, count: notification_count },
        ] + rest0);
    }
    events
}

} // verus!
