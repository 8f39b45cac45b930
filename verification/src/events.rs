//! The two event streams and the dispatcher fold.
//!
//! Protocol events ([`MatrixEvent`]) and local events ([`MientEvent`]) are
//! folded into the [`State`] one at a time by [`handle_matrix_event`] and
//! [`handle_mient_event`].  The handlers never perform I/O: everything they
//! decide to send out (messages, redactions, read receipts, history fetches)
//! comes back as [`Action`] values for the caller to perform.

use vstd::prelude::*;
use vstd::string::*;

use crate::matrix;
use crate::state::first_match;
use crate::state::is_fresh_room;
use crate::state::moved_message_spec;
use crate::state::push_new_rel;
use crate::state::push_old_rel;
use crate::state::redact_rel;
use crate::state::room_meta_same;
use crate::state::rooms_updated_at;
use crate::state::ListPosition;
use crate::state::Message;
use crate::state::Room;
use crate::state::State;
use crate::utils;

verus! {

/// Marker for events that originate from the local user rather than from the
/// protocol.
#[derive(Debug)]
pub struct UserEvent;

/// A key press, as the dispatcher sees it.  `Other` stands for every key the
/// client does not react to.
#[derive(Debug, Clone, Copy, PartialEq, Eq)]
pub enum Key {
    Char(char),
    Ctrl(char),
    Backspace,
    Up,
    Down,
    Home,
    End,
    Delete,
    Esc,
    Other,
}

/// One inbound protocol event.
#[derive(Debug, PartialEq, Eq)]
pub enum MatrixEvent {
    RoomName { id: String, name: String },
    NewMessage { room_id: String, event: Message },
    OldMessage { room_id: String, event: Message },
    Notifications { id: String, count: u64 },
    PrevBatch { id: String, prev_batch: String },
    Reaction { event_id: String, user_id: String, emoji: String },
    Redaction { room_id: String, redacted_id: String },
}

/// One local event: a key press, a periodic tick, or a terminal resize.
#[derive(Debug, PartialEq, Eq)]
pub enum MientEvent {
    Keyboard(Key),
    Tick,
    WindowChange,
}

/// One outbound request the dispatcher decided on; the caller performs it.
#[derive(Debug, PartialEq, Eq)]
pub enum Action {
    SendReadReceipt { room_id: String, event_id: String },
    SendMessage { room_id: String, body: String, reply_to: Option<String> },
    Redact { room_id: String, event_id: String },
    FetchHistory { room_id: String, prev_batch: String },
}

/// Whether the current-room cursor points at a room.
pub open spec fn has_current_room(s: State) -> bool {
    s.current_room_index < s.rooms@.len()
}

/// The room the current-room cursor points at.
pub open spec fn cur_room(s: State) -> Room {
    s.rooms@[s.current_room_index as int]
}

/// What folding one protocol event into the state does.
pub open spec fn matrix_event_spec(event: MatrixEvent, old: State, new: State) -> bool {
    match event {
        MatrixEvent::RoomName { id, name } => {
            let fm = first_match(old.rooms@, id@);
            if fm == -1 {
                &&& State::same_but_rooms(old, new)
                &&& new.rooms@.len() == old.rooms@.len() + 1
                &&& new.rooms@.take(old.rooms@.len() as int) == old.rooms@
                &&& is_fresh_room(new.rooms@.last(), name@, id@, 0)
            } else {
                &&& State::same_but_rooms(old, new)
                &&& rooms_updated_at(old.rooms@, new.rooms@, fm)
                &&& new.rooms@[fm] == Room { name: name, ..old.rooms@[fm] }
            }
        },
        MatrixEvent::NewMessage { room_id, event } => {
            let fm = first_match(old.rooms@, room_id@);
            if fm == -1 {
                new == old
            } else {
                &&& State::same_but_rooms(old, new)
                &&& rooms_updated_at(old.rooms@, new.rooms@, fm)
                &&& room_meta_same(old.rooms@[fm], new.rooms@[fm])
                &&& push_new_rel(old.rooms@[fm].message_list, new.rooms@[fm].message_list, event)
            }
        },
        MatrixEvent::OldMessage { room_id, event } => {
            let fm = first_match(old.rooms@, room_id@);
            if fm == -1 {
                new == old
            } else {
                &&& State::same_but_rooms(old, new)
                &&& rooms_updated_at(old.rooms@, new.rooms@, fm)
                &&& room_meta_same(old.rooms@[fm], new.rooms@[fm])
                &&& push_old_rel(old.rooms@[fm].message_list, new.rooms@[fm].message_list, event)
            }
        },
        MatrixEvent::Notifications { id, count } => {
            let fm = first_match(old.rooms@, id@);
            if fm == -1 {
                new == old
            } else {
                &&& State::same_but_rooms(old, new)
                &&& rooms_updated_at(old.rooms@, new.rooms@, fm)
                &&& new.rooms@[fm] == Room { notifications: count, ..old.rooms@[fm] }
            }
        },
        MatrixEvent::PrevBatch { id, prev_batch } => {
            let fm = first_match(old.rooms@, id@);
            if fm == -1 {
                new == old
            } else {
                &&& State::same_but_rooms(old, new)
                &&& rooms_updated_at(old.rooms@, new.rooms@, fm)
                &&& new.rooms@[fm] == Room { prev_batch: Some(prev_batch), ..old.rooms@[fm] }
            }
        },
        MatrixEvent::Reaction { event_id, user_id, emoji } => {
            &&& new.user_id == old.user_id
            &&& new.input == old.input
            &&& new.current_room_index == old.current_room_index
            &&& new.rooms == old.rooms
            &&& new.reactions.as_set() == old.reactions.as_set().insert(
                (event_id@, emoji@, user_id@),
            )
            &&& (old.reactions.contains_triple(event_id@, emoji@, user_id@) ==> new == old)
        },
        MatrixEvent::Redaction { room_id, redacted_id } => {
            let fm = first_match(old.rooms@, room_id@);
            if fm == -1 {
                new == old
            } else {
                &&& State::same_but_rooms(old, new)
                &&& rooms_updated_at(old.rooms@, new.rooms@, fm)
                &&& room_meta_same(old.rooms@[fm], new.rooms@[fm])
                &&& new.rooms@[fm].message_list.current_index
                    == old.rooms@[fm].message_list.current_index
                &&& redact_rel(
                    old.rooms@[fm].message_list.messages@,
                    new.rooms@[fm].message_list.messages@,
                    redacted_id@,
                )
            }
        },
    }
}

/// Fold one protocol event into the state.  Events that reference a room the
/// registry does not know are dropped.
pub fn handle_matrix_event(event: MatrixEvent, state: &mut State)
    requires
        old(state).wf(),
    ensures
        final(state).wf(),
        matrix_event_spec(event, *old(state), *final(state)),
{
    match event {
        MatrixEvent::RoomName { id, name } => {
            match state.room_position(&id) {
                Some(i) => {
                    state.rooms[i].name = name;
                },
                None => {
                    state.rooms.push(Room::new(name, id, 0, None));
                    proof {
                        assert(state.rooms@.take(old(state).rooms@.len() as int) =~= old(
                            state,
                        ).rooms@);
                    }
                },
            }
        },
        MatrixEvent::NewMessage { room_id, event } => {
            match state.room_position(&room_id) {
                Some(i) => {
                    state.rooms[i].message_list.push_new(event);
                },
                None => {},
            }
        },
        MatrixEvent::OldMessage { room_id, event } => {
            match state.room_position(&room_id) {
                Some(i) => {
                    state.rooms[i].message_list.push_old(event);
                },
                None => {},
            }
        },
        MatrixEvent::Notifications { id, count } => {
            match state.room_position(&id) {
                Some(i) => {
                    state.rooms[i].notifications = count;
                },
                None => {},
            }
        },
        MatrixEvent::PrevBatch { id, prev_batch } => {
            match state.room_position(&id) {
                Some(i) => {
                    state.rooms[i].prev_batch = Some(prev_batch);
                },
                None => {},
            }
        },
        MatrixEvent::Reaction { event_id, user_id, emoji } => {
            state.reactions.record_reaction(event_id, emoji, user_id);
        },
        MatrixEvent::Redaction { room_id, redacted_id } => {
            match state.room_position(&room_id) {
                Some(i) => {
                    state.rooms[i].message_list.apply_redaction(&redacted_id);
                },
                None => {},
            }
        },
    }
}

/// The message under the current selection cursor, if one is selected.
pub open spec fn selected_message(room: Room) -> Option<Message> {
    if room.message_list.current_index < room.message_list.messages@.len() {
        Some(room.message_list.messages@[room.message_list.current_index as int])
    } else {
        None
    }
}

/// The body an outgoing message gets: the input text, quoted onto the
/// selected message when one is selected.
pub open spec fn outgoing_body(room: Room, input: Seq<char>) -> Seq<char> {
    match selected_message(room) {
        Some(m) => utils::reply_content_spec(
            utils::message_body_view(m.content),
            m.sender@,
            input,
        ),
        None => input,
    }
}

/// All fields of `b` but the input line equal those of `a`.
pub open spec fn same_but_input(a: State, b: State) -> bool {
    &&& b.user_id == a.user_id
    &&& b.current_room_index == a.current_room_index
    &&& b.rooms == a.rooms
    &&& b.reactions == a.reactions
}

/// What cycling the current room by `inc` does to the state.
pub open spec fn cycle_spec(old: State, new: State, inc: int) -> bool {
    &&& new.rooms == old.rooms
    &&& new.input == old.input
    &&& new.user_id == old.user_id
    &&& new.reactions == old.reactions
    &&& (old.rooms@.len() == 0 ==> new.current_room_index == old.current_room_index)
    &&& (old.rooms@.len() > 0 ==> new.current_room_index as int == (old.current_room_index as int
        + inc) % (old.rooms@.len() as int))
}

/// What submitting the input line does.  With a current room: a read receipt
/// for its newest message is owed in any case; if the input line is
/// non-empty, it is cleared and a message goes out, quoted onto the selected
/// message when one is selected.
pub open spec fn submit_spec(old: State, new: State, quit: bool, actions: Seq<Action>) -> bool {
    if !has_current_room(old) {
        &&& new == old
        &&& quit
        &&& actions.len() == 0
    } else {
        let room = cur_room(old);
        let receipts = matrix::receipt_actions(room);
        if old.input@.len() == 0 {
            &&& new == old
            &&& quit
            &&& actions == receipts
        } else {
            &&& quit
            &&& same_but_input(old, new)
            &&& new.input@ == Seq::<char>::empty()
            &&& actions.len() == receipts.len() + 1
            &&& actions.take(receipts.len() as int) == receipts
            &&& (actions.last() matches Action::SendMessage { room_id, body, reply_to }
                && room_id == room.id && body@ == outgoing_body(room, old.input@) && (
            match selected_message(room) {
                Some(m) => reply_to == Some(m.id),
                None => reply_to is None,
            }))
        }
    }
}

/// What a scroll towards older messages does: at the top of loaded history
/// it consumes the room's pagination cursor and asks for a fetch instead of
/// moving; anywhere else it only moves the selection.
pub open spec fn scroll_up_spec(
    old: State,
    new: State,
    quit: bool,
    actions: Seq<Action>,
    pos: ListPosition,
) -> bool {
    if !has_current_room(old) {
        &&& new == old
        &&& quit
        &&& actions.len() == 0
    } else {
        let room = cur_room(old);
        if room.message_list.current_index == 0 {
            match room.prev_batch {
                Some(token) => {
                    &&& quit
                    &&& State::same_but_rooms(old, new)
                    &&& rooms_updated_at(old.rooms@, new.rooms@, old.current_room_index as int)
                    &&& new.rooms@[old.current_room_index as int] == Room {
                        prev_batch: None,
                        ..room
                    }
                    &&& actions == seq![
                        Action::FetchHistory { room_id: room.id, prev_batch: token },
                    ]
                },
                None => {
                    &&& new == old
                    &&& quit
                    &&& actions.len() == 0
                },
            }
        } else {
            &&& quit
            &&& actions.len() == 0
            &&& moved_message_spec(old, new, pos)
        }
    }
}

/// The redaction request that deleting the selected message issues.
pub open spec fn delete_actions(s: State) -> Seq<Action> {
    if !has_current_room(s) {
        Seq::empty()
    } else {
        match selected_message(cur_room(s)) {
            Some(m) => seq![Action::Redact { room_id: cur_room(s).id, event_id: m.id }],
            None => Seq::<Action>::empty(),
        }
    }
}

/// What one key press does to the state, whether the loop keeps running
/// (`quit` is the "keep running" flag, false only for escape), and which
/// requests go out.
pub open spec fn key_spec(
    key: Key,
    old: State,
    new: State,
    running: bool,
    actions: Seq<Action>,
) -> bool {
    match key {
        Key::Char(c) => {
            if c == '\n' {
                submit_spec(old, new, running, actions)
            } else {
                &&& running
                &&& actions.len() == 0
                &&& same_but_input(old, new)
                &&& new.input@ == old.input@.push(c)
            }
        },
        Key::Backspace => {
            &&& running
            &&& actions.len() == 0
            &&& same_but_input(old, new)
            &&& new.input@ == (if old.input@.len() == 0 {
                old.input@
            } else {
                old.input@.drop_last()
            })
        },
        Key::Ctrl(c) => {
            if c == 'u' {
                &&& running
                &&& actions.len() == 0
                &&& same_but_input(old, new)
                &&& new.input@ == Seq::<char>::empty()
            } else if c == 'p' {
                &&& running
                &&& actions.len() == 0
                &&& cycle_spec(old, new, -1)
            } else if c == 'n' {
                &&& running
                &&& actions.len() == 0
                &&& cycle_spec(old, new, 1)
            } else {
                &&& running
                &&& actions.len() == 0
                &&& new == old
            }
        },
        Key::Up => scroll_up_spec(old, new, running, actions, ListPosition::Relative(-1i32)),
        Key::Home => scroll_up_spec(old, new, running, actions, ListPosition::First),
        Key::Down => {
            &&& running
            &&& actions.len() == 0
            &&& moved_message_spec(old, new, ListPosition::Relative(1i32))
        },
        Key::End => {
            &&& running
            &&& actions.len() == 0
            &&& moved_message_spec(old, new, ListPosition::Last)
        },
        Key::Delete => {
            &&& running
            &&& new == old
            &&& actions == delete_actions(old)
        },
        Key::Esc => {
            &&& !running
            &&& actions.len() == 0
            &&& new == old
        },
        Key::Other => {
            &&& running
            &&& actions.len() == 0
            &&& new == old
        },
    }
}

/// What one local event does: a key press acts per [`key_spec`]; ticks and
/// resizes only ask for a redraw.
pub open spec fn mient_event_spec(
    event: MientEvent,
    old: State,
    new: State,
    running: bool,
    actions: Seq<Action>,
) -> bool {
    match event {
        MientEvent::Keyboard(key) => key_spec(key, old, new, running, actions),
        MientEvent::Tick => new == old && running && actions.len() == 0,
        MientEvent::WindowChange => new == old && running && actions.len() == 0,
    }
}

/// Submit the input line (the enter key).
fn submit(state: &mut State) -> (r: (bool, Vec<Action>))
    requires
        old(state).wf(),
    ensures
        final(state).wf(),
        submit_spec(*old(state), *final(state), r.0, r.1@),
{
    let mut actions: Vec<Action> = Vec::new();
    let idx = state.current_room_index;
    if idx >= state.rooms.len() {
        return (true, actions);
    }
    match matrix::send_read_receipt_current_room(&state.rooms[idx]) {
        Some(a) => actions.push(a),
        None => {},
    }
    proof {
        assert(actions@ =~= matrix::receipt_actions(old(state).rooms@[idx as int]));
    }
    if state.input.as_str().is_empty() {
        return (true, actions);
    }
    let ghost receipts = actions@;
    let (room_id, body, reply_to): (String, String, Option<String>) = {
        let room = &state.rooms[idx];
        match room.message_list.selected() {
            Some(msg) => (
                room.id.clone(),
                utils::format_reply_content(&msg.content, &msg.sender, &state.input),
                Some(msg.id.clone()),
            ),
            None => (room.id.clone(), state.input.clone(), None),
        }
    };
    state.input = String::new();
    actions.push(Action::SendMessage { room_id, body, reply_to });
    proof {
        assert(actions@.take(receipts.len() as int) =~= receipts);
    }
    (true, actions)
}

/// Scroll towards older messages (the up or home key): at the top of loaded
/// history this triggers pagination instead of moving.
fn scroll_up(state: &mut State, pos: ListPosition) -> (r: (bool, Vec<Action>))
    requires
        old(state).wf(),
    ensures
        final(state).wf(),
        scroll_up_spec(*old(state), *final(state), r.0, r.1@, pos),
{
    let mut actions: Vec<Action> = Vec::new();
    let idx = state.current_room_index;
    if idx >= state.rooms.len() {
        return (true, actions);
    }
    if state.rooms[idx].message_list.current_index == 0 {
        if state.rooms[idx].prev_batch.is_some() {
            let room_id = state.rooms[idx].id.clone();
            match matrix::fetch_old_messages(&mut state.rooms[idx]) {
                Some(token) => {
                    actions.push(Action::FetchHistory { room_id, prev_batch: token });
                    proof {
                        assert(actions@ =~= seq![
                            Action::FetchHistory {
                                room_id: cur_room(*old(state)).id,
                                prev_batch: old(state).rooms@[idx as int].prev_batch.unwrap(),
                            },
                        ]);
                    }
                },
                None => {},
            }
        }
    } else {
        state.change_current_message(pos);
    }
    (true, actions)
}

/// Request deletion of the selected message, if one is selected.
fn delete_selected(state: &State) -> (actions: Vec<Action>)
    ensures
        actions@ == delete_actions(*state),
{
    let mut actions: Vec<Action> = Vec::new();
    let idx = state.current_room_index;
    if idx >= state.rooms.len() {
        proof {
            assert(actions@ =~= delete_actions(*state));
        }
        return actions;
    }
    let room = &state.rooms[idx];
    match room.message_list.selected() {
        Some(msg) => {
            actions.push(
                Action::Redact { room_id: room.id.clone(), event_id: msg.id.clone() },
            );
        },
        None => {},
    }
    proof {
        assert(actions@ =~= delete_actions(*state));
    }
    actions
}

/// Fold one key press into the state; the first component of the result says
/// whether the loop keeps running, the second lists the requests to perform.
fn handle_keyboard_event(key: Key, state: &mut State) -> (r: (bool, Vec<Action>))
    requires
        old(state).wf(),
    ensures
        final(state).wf(),
        key_spec(key, *old(state), *final(state), r.0, r.1@),
{
    match key {
        Key::Char(c) => {
            if c == '\n' {
                submit(state)
            } else {
                utils::push_char(&mut state.input, c);
                (true, Vec::new())
            }
        },
        Key::Backspace => {
            let n = state.input.as_str().unicode_len();
            if n > 0 {
                let shortened = state.input.as_str().substring_char(0, n - 1).to_owned();
                proof {
                    assert(shortened@ =~= old(state).input@.drop_last());
                }
                state.input = shortened;
            }
            (true, Vec::new())
        },
        Key::Ctrl(c) => {
            if c == 'u' {
                state.input = String::new();
            } else if c == 'p' {
                state.change_current_room(-1);
            } else if c == 'n' {
                state.change_current_room(1);
            }
            (true, Vec::new())
        },
        Key::Up => scroll_up(state, ListPosition::Relative(-1i32)),
        Key::Home => scroll_up(state, ListPosition::First),
        Key::Down => {
            state.change_current_message(ListPosition::Relative(1i32));
            (true, Vec::new())
        },
        Key::End => {
            state.change_current_message(ListPosition::Last);
            (true, Vec::new())
        },
        Key::Delete => {
            let actions = delete_selected(state);
            (true, actions)
        },
        Key::Esc => (false, Vec::new()),
        Key::Other => (true, Vec::new()),
    }
}

/// Fold one local event into the state; the first component of the result
/// says whether the loop keeps running, the second lists the requests to
/// perform.
pub fn handle_mient_event(event: MientEvent, state: &mut State) -> (r: (bool, Vec<Action>))
    requires
        old(state).wf(),
    ensures
        final(state).wf(),
        mient_event_spec(event, *old(state), *final(state), r.0, r.1@),
{
    match event {
        MientEvent::Keyboard(key) => handle_keyboard_event(key, state),
        MientEvent::Tick => (true, Vec::new()),
        MientEvent::WindowChange => (true, Vec::new()),
    }
}

} // verus!
