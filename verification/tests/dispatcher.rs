use mient::events::handle_matrix_event;
use mient::events::handle_mient_event;
use mient::events::Action;
use mient::events::Key;
use mient::events::MatrixEvent;
use mient::events::MientEvent;
use mient::state::Message;
use mient::state::MessageContent;
use mient::state::MessageKind;
use mient::state::Room;
use mient::state::State;

fn msg(id: &str, sender: &str, body: &str) -> Message {
    Message {
        redacted: false,
        id: id.to_string(),
        sender: sender.to_string(),
        timestamp: 0,
        content: MessageContent { msgtype: MessageKind::Text, body: body.to_string() },
    }
}

fn state_with_rooms(ids: &[&str]) -> State {
    let mut state = State::new("@me:server".to_string());
    for id in ids {
        state.rooms.push(Room::new(format!("room {}", id), id.to_string(), 0, None));
    }
    state
}

#[test]
fn room_name_event_creates_unknown_room() {
    let mut state = state_with_rooms(&[]);
    handle_matrix_event(
        MatrixEvent::RoomName { id: "!r1".to_string(), name: "general".to_string() },
        &mut state,
    );
    assert_eq!(state.rooms.len(), 1);
    assert_eq!(state.rooms[0].id, "!r1");
    assert_eq!(state.rooms[0].name, "general");
    assert_eq!(state.rooms[0].notifications, 0);
    assert!(state.rooms[0].prev_batch.is_none());
    assert!(state.rooms[0].message_list.messages.is_empty());
}

#[test]
fn room_name_event_renames_known_room() {
    let mut state = state_with_rooms(&["!r1", "!r2"]);
    handle_matrix_event(
        MatrixEvent::RoomName { id: "!r2".to_string(), name: "renamed".to_string() },
        &mut state,
    );
    assert_eq!(state.rooms.len(), 2);
    assert_eq!(state.rooms[1].name, "renamed");
    assert_eq!(state.rooms[0].name, "room !r1");
}

#[test]
fn new_message_for_unknown_room_is_dropped() {
    let mut state = state_with_rooms(&["!r1"]);
    handle_matrix_event(
        MatrixEvent::NewMessage { room_id: "!nope".to_string(), event: msg("$m", "alice", "hi") },
        &mut state,
    );
    assert!(state.rooms[0].message_list.messages.is_empty());
}

#[test]
fn new_message_appends_to_its_room() {
    let mut state = state_with_rooms(&["!r1", "!r2"]);
    handle_matrix_event(
        MatrixEvent::NewMessage { room_id: "!r2".to_string(), event: msg("$m", "alice", "hi") },
        &mut state,
    );
    assert!(state.rooms[0].message_list.messages.is_empty());
    assert_eq!(state.rooms[1].message_list.messages.len(), 1);
    assert_eq!(state.rooms[1].message_list.messages[0].id, "$m");
    assert_eq!(state.rooms[1].message_list.current_index, 1);
}

#[test]
fn old_message_prepends_to_its_room() {
    let mut state = state_with_rooms(&["!r1"]);
    handle_matrix_event(
        MatrixEvent::NewMessage { room_id: "!r1".to_string(), event: msg("$b", "alice", "new") },
        &mut state,
    );
    handle_matrix_event(
        MatrixEvent::OldMessage { room_id: "!r1".to_string(), event: msg("$a", "bob", "old") },
        &mut state,
    );
    assert_eq!(state.rooms[0].message_list.messages[0].id, "$a");
    assert_eq!(state.rooms[0].message_list.messages[1].id, "$b");
}

#[test]
fn notifications_event_overwrites_unread_count() {
    let mut state = state_with_rooms(&["!r1"]);
    handle_matrix_event(MatrixEvent::Notifications { id: "!r1".to_string(), count: 7 }, &mut state);
    assert_eq!(state.rooms[0].notifications, 7);
}

#[test]
fn prev_batch_event_stores_cursor() {
    let mut state = state_with_rooms(&["!r1"]);
    handle_matrix_event(
        MatrixEvent::PrevBatch { id: "!r1".to_string(), prev_batch: "t42".to_string() },
        &mut state,
    );
    assert_eq!(state.rooms[0].prev_batch.as_deref(), Some("t42"));
}

#[test]
fn redaction_event_marks_newest_match() {
    let mut state = state_with_rooms(&["!r1"]);
    handle_matrix_event(
        MatrixEvent::NewMessage { room_id: "!r1".to_string(), event: msg("$dup", "alice", "one") },
        &mut state,
    );
    handle_matrix_event(
        MatrixEvent::NewMessage { room_id: "!r1".to_string(), event: msg("$dup", "alice", "two") },
        &mut state,
    );
    handle_matrix_event(
        MatrixEvent::Redaction { room_id: "!r1".to_string(), redacted_id: "$dup".to_string() },
        &mut state,
    );
    assert!(!state.rooms[0].message_list.messages[0].redacted);
    assert!(state.rooms[0].message_list.messages[1].redacted);
}

#[test]
fn reaction_event_lands_in_overlay() {
    let mut state = state_with_rooms(&[]);
    handle_matrix_event(
        MatrixEvent::Reaction {
            event_id: "$m".to_string(),
            user_id: "@bob:server".to_string(),
            emoji: "+1".to_string(),
        },
        &mut state,
    );
    assert_eq!(state.reactions.entries.len(), 1);
    assert_eq!(state.reactions.entries[0].event_id, "$m");
    assert_eq!(state.reactions.entries[0].emoji, "+1");
    assert_eq!(state.reactions.entries[0].users, vec!["@bob:server".to_string()]);
}

#[test]
fn tick_and_resize_change_nothing() {
    let mut state = state_with_rooms(&["!r1"]);
    let (running, actions) = handle_mient_event(MientEvent::Tick, &mut state);
    assert!(running);
    assert!(actions.is_empty());
    let (running, actions) = handle_mient_event(MientEvent::WindowChange, &mut state);
    assert!(running);
    assert!(actions.is_empty());
    assert_eq!(state.rooms.len(), 1);
}

#[test]
fn escape_stops_the_loop() {
    let mut state = state_with_rooms(&[]);
    let (running, actions) = handle_mient_event(MientEvent::Keyboard(Key::Esc), &mut state);
    assert!(!running);
    assert!(actions.is_empty());
}

#[test]
fn typing_appends_and_backspace_removes() {
    let mut state = state_with_rooms(&[]);
    handle_mient_event(MientEvent::Keyboard(Key::Char('h')), &mut state);
    handle_mient_event(MientEvent::Keyboard(Key::Char('i')), &mut state);
    assert_eq!(state.input, "hi");
    handle_mient_event(MientEvent::Keyboard(Key::Backspace), &mut state);
    assert_eq!(state.input, "h");
    handle_mient_event(MientEvent::Keyboard(Key::Backspace), &mut state);
    assert_eq!(state.input, "");
    handle_mient_event(MientEvent::Keyboard(Key::Backspace), &mut state);
    assert_eq!(state.input, "");
}

#[test]
fn ctrl_u_clears_the_input() {
    let mut state = state_with_rooms(&[]);
    state.input = "draft".to_string();
    handle_mient_event(MientEvent::Keyboard(Key::Ctrl('u')), &mut state);
    assert_eq!(state.input, "");
}

#[test]
fn cycling_backwards_wraps_to_the_last_room() {
    let mut state = state_with_rooms(&["!r1", "!r2", "!r3"]);
    assert_eq!(state.current_room_index, 0);
    state.change_current_room(-1);
    assert_eq!(state.current_room_index, 2);
}

#[test]
fn ctrl_n_and_ctrl_p_cycle_rooms() {
    let mut state = state_with_rooms(&["!r1", "!r2", "!r3"]);
    handle_mient_event(MientEvent::Keyboard(Key::Ctrl('n')), &mut state);
    assert_eq!(state.current_room_index, 1);
    handle_mient_event(MientEvent::Keyboard(Key::Ctrl('p')), &mut state);
    assert_eq!(state.current_room_index, 0);
    handle_mient_event(MientEvent::Keyboard(Key::Ctrl('p')), &mut state);
    assert_eq!(state.current_room_index, 2);
}

#[test]
fn cycling_with_no_rooms_is_a_no_op() {
    let mut state = state_with_rooms(&[]);
    state.change_current_room(-1);
    assert_eq!(state.current_room_index, 0);
    state.change_current_room(1);
    assert_eq!(state.current_room_index, 0);
}

#[test]
fn scroll_up_at_top_consumes_cursor_and_requests_history() {
    let mut state = state_with_rooms(&["!r1"]);
    state.rooms[0].prev_batch = Some("t0".to_string());
    let (running, actions) = handle_mient_event(MientEvent::Keyboard(Key::Up), &mut state);
    assert!(running);
    assert_eq!(
        actions,
        vec![Action::FetchHistory { room_id: "!r1".to_string(), prev_batch: "t0".to_string() }]
    );
    assert!(state.rooms[0].prev_batch.is_none());
}

#[test]
fn scroll_up_during_a_fetch_requests_nothing() {
    let mut state = state_with_rooms(&["!r1"]);
    state.rooms[0].prev_batch = Some("t0".to_string());
    let (_, first) = handle_mient_event(MientEvent::Keyboard(Key::Up), &mut state);
    assert_eq!(first.len(), 1);
    let (_, second) = handle_mient_event(MientEvent::Keyboard(Key::Up), &mut state);
    assert!(second.is_empty());
    assert!(state.rooms[0].prev_batch.is_none());
}

#[test]
fn scroll_up_below_top_moves_the_selection() {
    let mut state = state_with_rooms(&["!r1"]);
    handle_matrix_event(
        MatrixEvent::NewMessage { room_id: "!r1".to_string(), event: msg("$a", "alice", "a") },
        &mut state,
    );
    handle_matrix_event(
        MatrixEvent::NewMessage { room_id: "!r1".to_string(), event: msg("$b", "alice", "b") },
        &mut state,
    );
    state.rooms[0].prev_batch = Some("t0".to_string());
    assert_eq!(state.rooms[0].message_list.current_index, 2);
    let (_, actions) = handle_mient_event(MientEvent::Keyboard(Key::Up), &mut state);
    assert!(actions.is_empty());
    assert_eq!(state.rooms[0].message_list.current_index, 1);
    assert!(state.rooms[0].prev_batch.is_some());
}

#[test]
fn down_end_and_home_move_the_selection() {
    let mut state = state_with_rooms(&["!r1"]);
    handle_matrix_event(
        MatrixEvent::NewMessage { room_id: "!r1".to_string(), event: msg("$a", "alice", "a") },
        &mut state,
    );
    handle_matrix_event(
        MatrixEvent::NewMessage { room_id: "!r1".to_string(), event: msg("$b", "alice", "b") },
        &mut state,
    );
    state.rooms[0].message_list.current_index = 1;
    handle_mient_event(MientEvent::Keyboard(Key::Down), &mut state);
    assert_eq!(state.rooms[0].message_list.current_index, 2);
    handle_mient_event(MientEvent::Keyboard(Key::Home), &mut state);
    assert_eq!(state.rooms[0].message_list.current_index, 0);
    handle_mient_event(MientEvent::Keyboard(Key::End), &mut state);
    assert_eq!(state.rooms[0].message_list.current_index, 2);
}

#[test]
fn delete_requests_redaction_of_the_selected_message() {
    let mut state = state_with_rooms(&["!r1"]);
    handle_matrix_event(
        MatrixEvent::NewMessage { room_id: "!r1".to_string(), event: msg("$m", "alice", "bye") },
        &mut state,
    );
    state.rooms[0].message_list.current_index = 0;
    let (running, actions) = handle_mient_event(MientEvent::Keyboard(Key::Delete), &mut state);
    assert!(running);
    assert_eq!(
        actions,
        vec![Action::Redact { room_id: "!r1".to_string(), event_id: "$m".to_string() }]
    );
    assert_eq!(state.rooms[0].message_list.messages.len(), 1);
}

#[test]
fn delete_with_nothing_selected_requests_nothing() {
    let mut state = state_with_rooms(&["!r1"]);
    let (_, actions) = handle_mient_event(MientEvent::Keyboard(Key::Delete), &mut state);
    assert!(actions.is_empty());
}

#[test]
fn submit_reply_quotes_selected_message_and_clears_input() {
    let mut state = state_with_rooms(&["!r1"]);
    handle_matrix_event(
        MatrixEvent::NewMessage {
            room_id: "!r1".to_string(),
            event: msg("$target", "alice", "hello\nworld"),
        },
        &mut state,
    );
    state.rooms[0].message_list.current_index = 0;
    state.input = "hi".to_string();
    let (running, actions) = handle_mient_event(MientEvent::Keyboard(Key::Char('\n')), &mut state);
    assert!(running);
    assert_eq!(state.input, "");
    assert_eq!(actions.len(), 2);
    assert_eq!(
        actions[0],
        Action::SendReadReceipt { room_id: "!r1".to_string(), event_id: "$target".to_string() }
    );
    assert_eq!(
        actions[1],
        Action::SendMessage {
            room_id: "!r1".to_string(),
            body: "> <alice> > hello\n> world\n\nhi".to_string(),
            reply_to: Some("$target".to_string()),
        }
    );
}

#[test]
fn submit_without_selection_sends_input_as_is() {
    let mut state = state_with_rooms(&["!r1"]);
    handle_matrix_event(
        MatrixEvent::NewMessage { room_id: "!r1".to_string(), event: msg("$a", "alice", "x") },
        &mut state,
    );
    state.input = "plain".to_string();
    let (_, actions) = handle_mient_event(MientEvent::Keyboard(Key::Char('\n')), &mut state);
    assert_eq!(actions.len(), 2);
    assert_eq!(
        actions[1],
        Action::SendMessage {
            room_id: "!r1".to_string(),
            body: "plain".to_string(),
            reply_to: None,
        }
    );
}

#[test]
fn submit_with_empty_input_only_sends_a_receipt() {
    let mut state = state_with_rooms(&["!r1"]);
    handle_matrix_event(
        MatrixEvent::NewMessage { room_id: "!r1".to_string(), event: msg("$a", "alice", "x") },
        &mut state,
    );
    let (running, actions) = handle_mient_event(MientEvent::Keyboard(Key::Char('\n')), &mut state);
    assert!(running);
    assert_eq!(actions.len(), 1);
    assert_eq!(
        actions[0],
        Action::SendReadReceipt { room_id: "!r1".to_string(), event_id: "$a".to_string() }
    );
}

#[test]
fn submit_without_rooms_does_nothing() {
    let mut state = state_with_rooms(&[]);
    state.input = "hi".to_string();
    let (running, actions) = handle_mient_event(MientEvent::Keyboard(Key::Char('\n')), &mut state);
    assert!(running);
    assert!(actions.is_empty());
    assert_eq!(state.input, "hi");
}
