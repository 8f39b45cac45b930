use mient::events::Action;
use mient::events::MatrixEvent;
use mient::matrix::fetch_old_messages;
use mient::matrix::process_history_response;
use mient::matrix::process_sync_room;
use mient::matrix::process_timeline;
use mient::matrix::send_read_receipt_current_room;
use mient::matrix::ChunkEvent;
use mient::matrix::HistoryResponse;
use mient::matrix::HISTORY_PAGE_LIMIT;
use mient::state::Message;
use mient::state::MessageContent;
use mient::state::MessageKind;
use mient::state::Room;

fn msg(id: &str, body: &str) -> Message {
    Message {
        redacted: false,
        id: id.to_string(),
        sender: "alice".to_string(),
        timestamp: 0,
        content: MessageContent { msgtype: MessageKind::Text, body: body.to_string() },
    }
}

#[test]
fn cursor_is_consumed_exactly_once() {
    let mut room = Room::new("general".to_string(), "!r1".to_string(), 0, Some("t0".to_string()));
    let first = fetch_old_messages(&mut room);
    assert_eq!(first, Some("t0".to_string()));
    assert!(room.prev_batch.is_none());
    let second = fetch_old_messages(&mut room);
    assert_eq!(second, None);
    assert!(room.prev_batch.is_none());
}

#[test]
fn read_receipt_names_the_newest_message() {
    let mut room = Room::new("general".to_string(), "!r1".to_string(), 0, None);
    assert_eq!(send_read_receipt_current_room(&room), None);
    room.message_list.push_new(msg("$a", "a"));
    room.message_list.push_new(msg("$b", "b"));
    assert_eq!(
        send_read_receipt_current_room(&room),
        Some(Action::SendReadReceipt {
            room_id: "!r1".to_string(),
            event_id: "$b".to_string(),
        })
    );
}

#[test]
fn history_page_becomes_events_in_order() {
    let response = HistoryResponse {
        end: Some("t1".to_string()),
        chunk: vec![
            ChunkEvent::RoomMessage(msg("$old1", "one")),
            ChunkEvent::Other,
            ChunkEvent::Reaction {
                event_id: "$old1".to_string(),
                user_id: "@bob:server".to_string(),
                emoji: "+1".to_string(),
            },
            ChunkEvent::RoomMessage(msg("$old2", "two")),
        ],
    };
    let events = process_history_response(&"!r1".to_string(), response);
    assert_eq!(events.len(), 4);
    assert_eq!(
        events[0],
        MatrixEvent::PrevBatch { id: "!r1".to_string(), prev_batch: "t1".to_string() }
    );
    assert_eq!(
        events[1],
        MatrixEvent::OldMessage { room_id: "!r1".to_string(), event: msg("$old1", "one") }
    );
    assert_eq!(
        events[2],
        MatrixEvent::Reaction {
            event_id: "$old1".to_string(),
            user_id: "@bob:server".to_string(),
            emoji: "+1".to_string(),
        }
    );
    assert_eq!(
        events[3],
        MatrixEvent::OldMessage { room_id: "!r1".to_string(), event: msg("$old2", "two") }
    );
}

#[test]
fn exhausted_history_yields_no_cursor_event() {
    let response = HistoryResponse { end: None, chunk: vec![ChunkEvent::Other] };
    let events = process_history_response(&"!r1".to_string(), response);
    assert!(events.is_empty());
}

#[test]
fn sync_timeline_keeps_only_reactions() {
    let events = process_timeline(vec![
        ChunkEvent::RoomMessage(msg("$m", "body")),
        ChunkEvent::Reaction {
            event_id: "$m".to_string(),
            user_id: "@bob:server".to_string(),
            emoji: "eyes".to_string(),
        },
        ChunkEvent::Other,
    ]);
    assert_eq!(
        events,
        vec![MatrixEvent::Reaction {
            event_id: "$m".to_string(),
            user_id: "@bob:server".to_string(),
            emoji: "eyes".to_string(),
        }]
    );
}

#[test]
fn sync_room_reports_unread_count_first() {
    let events = process_sync_room(
        &"!r1".to_string(),
        3,
        vec![ChunkEvent::Reaction {
            event_id: "$m".to_string(),
            user_id: "@bob:server".to_string(),
            emoji: "+1".to_string(),
        }],
    );
    assert_eq!(events.len(), 2);
    assert_eq!(events[0], MatrixEvent::Notifications { id: "!r1".to_string(), count: 3 });
}

#[test]
fn history_page_limit_is_fifty() {
    assert_eq!(HISTORY_PAGE_LIMIT, 50);
}
