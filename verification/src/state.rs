//! Client state: messages, per-room timelines, rooms and the room registry.
//!
//! A `MessageList` is one room's timeline: an ordered sequence of messages
//! (oldest first) plus a selection cursor.  The cursor ranges over
//! `0 ..= messages.len()`; the value `messages.len()` means "no message
//! selected, caret follows the live edge".

use std::collections::VecDeque;
use vstd::prelude::*;

use crate::overlay::Reactions;

verus! {

/// What kind of content a message carries.  Every kind the client renders
/// carries a plain-text body; `Other` stands for content the client does not
/// understand.
#[derive(Debug, Clone, Copy, PartialEq, Eq)]
pub enum MessageKind {
    Audio,
    Emote,
    File,
    Image,
    Location,
    Notice,
    ServerNotice,
    Text,
    Video,
    VerificationRequest,
    Other,
}

/// Content of a message: its kind and its plain-text body.
#[derive(Debug, PartialEq, Eq)]
pub struct MessageContent {
    pub msgtype: MessageKind,
    pub body: String,
}

impl Clone for MessageContent {
    fn clone(&self) -> (r: Self)
        ensures
            r == *self,
    {
        MessageContent { msgtype: self.msgtype, body: self.body.clone() }
    }
}

/// One message of a room's timeline.  `redacted` is the only field that is
/// ever mutated after creation (by a later redaction event).
#[derive(Debug, PartialEq, Eq)]
pub struct Message {
    pub redacted: bool,
    pub id: String,
    pub sender: String,
    pub timestamp: u64,
    pub content: MessageContent,
}

impl Clone for Message {
    fn clone(&self) -> (r: Self)
        ensures
            r == *self,
    {
        Message {
            redacted: self.redacted,
            id: self.id.clone(),
            sender: self.sender.clone(),
            timestamp: self.timestamp,
            content: self.content.clone(),
        }
    }
}

/// A position the selection cursor can be moved to.
#[derive(Debug, Clone, Copy)]
pub enum ListPosition {
    First,
    Last,
    Relative(i32),
}

/// One room's timeline: messages ordered oldest to newest, and the selection
/// cursor.
#[derive(Debug)]
pub struct MessageList {
    pub messages: VecDeque<Message>,
    pub current_index: usize,
}

/// `new.messages` is `old.messages` with `m` appended at the tail; a cursor
/// that was following the live edge keeps following it, any other cursor
/// stays put.
pub open spec fn push_new_rel(old: MessageList, new: MessageList, m: Message) -> bool {
    &&& new.messages@ == old.messages@.push(m)
    &&& new.current_index as int == if old.current_index == old.messages@.len() {
        old.current_index + 1
    } else {
        old.current_index as int
    }
}

/// `new.messages` is `old.messages` with `m` prepended at the head; the
/// cursor shifts by one so that it still points at the same message.
pub open spec fn push_old_rel(old: MessageList, new: MessageList, m: Message) -> bool {
    &&& new.messages@ == seq![m] + old.messages@
    &&& new.current_index as int == old.current_index + 1
}

/// Clamp `ci + inc` into `[0, len]`.
pub open spec fn clamp_index(ci: int, inc: int, len: int) -> int {
    if ci + inc < 0 {
        0
    } else if ci + inc > len {
        len
    } else {
        ci + inc
    }
}

/// Where the cursor lands when moved to `pos` in a list of length `len`.
pub open spec fn moved_index(ci: int, pos: ListPosition, len: int) -> int {
    match pos {
        ListPosition::First => 0,
        ListPosition::Last => len,
        ListPosition::Relative(inc) => clamp_index(ci, inc as int, len),
    }
}

/// Index of the newest message whose id is `id`, or -1 if there is none.
pub open spec fn last_match(msgs: Seq<Message>, id: Seq<char>) -> int
    decreases msgs.len(),
{
    if msgs.len() == 0 {
        -1
    } else if msgs.last().id@ == id {
        msgs.len() - 1
    } else {
        last_match(msgs.drop_last(), id)
    }
}

/// `new_msgs` is `old_msgs` with the newest message whose id is `id` marked
/// redacted; if no message has that id, the two are equal.
pub open spec fn redact_rel(old_msgs: Seq<Message>, new_msgs: Seq<Message>, id: Seq<char>) -> bool {
    if last_match(old_msgs, id) == -1 {
        new_msgs == old_msgs
    } else {
        new_msgs == old_msgs.update(
            last_match(old_msgs, id),
            Message { redacted: true, ..old_msgs[last_match(old_msgs, id)] },
        )
    }
}

impl MessageList {
    /// The selection cursor never leaves `[0, messages.len()]`.
    pub open spec fn wf(&self) -> bool {
        self.current_index <= self.messages@.len()
    }

    fn new() -> (l: MessageList)
        ensures
            l.messages@ == Seq::<Message>::empty(),
            l.current_index == 0,
            l.wf(),
    {
        MessageList { messages: VecDeque::new(), current_index: 0 }
    }

    /// Append a live message at the tail (auto-follow if the cursor was at
    /// the live edge).
    pub fn push_new(&mut self, message: Message)
        requires
            old(self).wf(),
        ensures
            final(self).wf(),
            push_new_rel(*old(self), *final(self), message),
    {
        let pinned = self.current_index == self.messages.len();
        self.messages.push_back(message);
        if pinned {
            self.current_index = self.messages.len();
        }
    }

    /// Prepend a historical message at the head; the cursor shifts by one to
    /// keep pointing at the same message.
    pub fn push_old(&mut self, message: Message)
        requires
            old(self).wf(),
        ensures
            final(self).wf(),
            push_old_rel(*old(self), *final(self), message),
    {
        self.messages.push_front(message);
        let n = self.messages.len();
        assert(self.current_index < n);
        self.current_index = self.current_index + 1;
    }

    /// Move the selection cursor, clamped into `[0, messages.len()]`.
    pub fn move_selection(&mut self, position: ListPosition)
        ensures
            final(self).messages@ == old(self).messages@,
            final(self).current_index as int == moved_index(
                old(self).current_index as int,
                position,
                old(self).messages@.len() as int,
            ),
            final(self).wf(),
    {
        let len = self.messages.len();
        self.current_index = match position {
            ListPosition::First => 0,
            ListPosition::Last => len,
            ListPosition::Relative(inc) => {
                let ci = self.current_index;
                if inc >= 0 {
                    let step = inc as usize;
                    if step > len || ci > len - step {
                        len
                    } else {
                        ci + step
                    }
                } else {
                    let step = (-(inc as i64)) as usize;
                    let lowered = if step > ci {
                        0
                    } else {
                        ci - step
                    };
                    if lowered > len {
                        len
                    } else {
                        lowered
                    }
                }
            },
        };
    }

    /// The message under the cursor, if the cursor points at one.
    pub fn selected(&self) -> (r: Option<&Message>)
        ensures
            self.current_index < self.messages@.len() ==> (r matches Some(m) && *m
                == self.messages@[self.current_index as int]),
            self.current_index >= self.messages@.len() ==> r is None,
    {
        if self.current_index < self.messages.len() {
            Some(&self.messages[self.current_index])
        } else {
            None
        }
    }

    /// Mark the newest message whose id is `redacted_id` as redacted; do
    /// nothing if no message has that id.
    pub fn apply_redaction(&mut self, redacted_id: &String)
        requires
            old(self).wf(),
        ensures
            final(self).wf(),
            final(self).current_index == old(self).current_index,
            redact_rel(old(self).messages@, final(self).messages@, redacted_id@),
    {
        let mut i = self.messages.len();
        while i > 0
            invariant
                old(self).wf(),
                i <= self.messages@.len(),
                *self == *old(self),
                forall|j: int|
                    i <= j < self.messages@.len() ==> (#[trigger] self.messages@[j]).id@
                        != redacted_id@,
            decreases i,
        {
            i = i - 1;
            if self.messages[i].id == *redacted_id {
                proof {
                    lemma_last_match_found(self.messages@, redacted_id@, i as int);
                }
                let removed = self.messages.remove(i);
                match removed {
                    Some(mut m) => {
                        m.redacted = true;
                        self.messages.insert(i, m);
                        proof {
                            assert(self.messages@ =~= old(self).messages@.update(
                                i as int,
                                Message { redacted: true, ..old(self).messages@[i as int] },
                            ));
                        }
                    },
                    None => {
                        proof {
                            assert(false);
                        }
                    },
                }
                return ;
            }
        }
        proof {
            lemma_last_match_none(self.messages@, redacted_id@);
        }
    }
}

/// If no message of `msgs` has id `id`, then `last_match` finds nothing.
proof fn lemma_last_match_none(msgs: Seq<Message>, id: Seq<char>)
    requires
        forall|j: int| 0 <= j < msgs.len() ==> (#[trigger] msgs[j]).id@ != id,
    ensures
        last_match(msgs, id) == -1,
    decreases msgs.len(),
{
    if msgs.len() > 0 {
        lemma_last_match_none(msgs.drop_last(), id);
    }
}

/// If `msgs[i]` has id `id` and nothing newer does, then `last_match` finds
/// exactly `i`.
proof fn lemma_last_match_found(msgs: Seq<Message>, id: Seq<char>, i: int)
    requires
        0 <= i < msgs.len(),
        msgs[i].id@ == id,
        forall|j: int| i < j < msgs.len() ==> (#[trigger] msgs[j]).id@ != id,
    ensures
        last_match(msgs, id) == i,
    decreases msgs.len(),
{
    if i == msgs.len() - 1 {
    } else {
        lemma_last_match_found(msgs.drop_last(), id, i);
    }
}

/// One room: identity, display name, timeline, unread count, and the
/// backward-pagination token (`None` while no further history can be fetched
/// or a fetch is already in flight).
#[derive(Debug)]
pub struct Room {
    pub name: String,
    pub id: String,
    pub message_list: MessageList,
    pub notifications: u64,
    pub prev_batch: Option<String>,
}

/// `r` is a room with the given metadata and an empty timeline.
pub open spec fn is_fresh_room(
    r: Room,
    name: Seq<char>,
    id: Seq<char>,
    notifications: u64,
) -> bool {
    &&& r.name@ == name
    &&& r.id@ == id
    &&& r.notifications == notifications
    &&& r.prev_batch is None
    &&& r.message_list.messages@ == Seq::<Message>::empty()
    &&& r.message_list.current_index == 0
}

impl Room {
    pub fn new(name: String, id: String, notifications: u64, prev_batch: Option<String>) -> (r:
        Room)
        ensures
            r.name == name,
            r.id == id,
            r.notifications == notifications,
            r.prev_batch == prev_batch,
            r.message_list.messages@ == Seq::<Message>::empty(),
            r.message_list.current_index == 0,
            r.message_list.wf(),
    {
        Room { name, id, message_list: MessageList::new(), notifications, prev_batch }
    }
}

/// Index of the first room whose id is `id`, or -1 if there is none.
pub open spec fn first_match(rooms: Seq<Room>, id: Seq<char>) -> int
    decreases rooms.len(),
{
    if rooms.len() == 0 {
        -1
    } else if rooms.first().id@ == id {
        0
    } else {
        let sub = first_match(rooms.drop_first(), id);
        if sub == -1 {
            -1
        } else {
            sub + 1
        }
    }
}

/// If no room of `rooms` has id `id`, then `first_match` finds nothing.
pub proof fn lemma_first_match_none(rooms: Seq<Room>, id: Seq<char>)
    requires
        forall|j: int| 0 <= j < rooms.len() ==> (#[trigger] rooms[j]).id@ != id,
    ensures
        first_match(rooms, id) == -1,
    decreases rooms.len(),
{
    if rooms.len() > 0 {
        lemma_first_match_none(rooms.drop_first(), id);
    }
}

/// If `rooms[i]` has id `id` and no earlier room does, then `first_match`
/// finds exactly `i`.
pub proof fn lemma_first_match_found(rooms: Seq<Room>, id: Seq<char>, i: int)
    requires
        0 <= i < rooms.len(),
        rooms[i].id@ == id,
        forall|j: int| 0 <= j < i ==> (#[trigger] rooms[j]).id@ != id,
    ensures
        first_match(rooms, id) == i,
    decreases rooms.len(),
{
    if i > 0 {
        lemma_first_match_found(rooms.drop_first(), id, i - 1);
    }
}

/// `new_rooms` agrees with `old_rooms` everywhere but (possibly) at `i`.
pub open spec fn rooms_updated_at(old_rooms: Seq<Room>, new_rooms: Seq<Room>, i: int) -> bool {
    &&& new_rooms.len() == old_rooms.len()
    &&& forall|j: int| 0 <= j < old_rooms.len() && j != i ==> old_rooms[j] == #[trigger] new_rooms[j]
}

/// `b` carries the same metadata (name, id, unread count, pagination token)
/// as `a`; only the timeline may differ.
pub open spec fn room_meta_same(a: Room, b: Room) -> bool {
    &&& b.name == a.name
    &&& b.id == a.id
    &&& b.notifications == a.notifications
    &&& b.prev_batch == a.prev_batch
}

/// The whole client state: the registry of rooms (in first-seen order) with
/// the current-room cursor, the pending input line, and the reaction overlay.
pub struct State {
    pub user_id: String,
    pub input: String,
    pub current_room_index: usize,
    pub rooms: Vec<Room>,
    pub reactions: Reactions,
}

impl State {
    /// Every room's timeline is well formed, the reaction overlay is well
    /// formed, and the current-room cursor points at a room whenever there is
    /// one.
    pub open spec fn wf(&self) -> bool {
        &&& forall|i: int|
            0 <= i < self.rooms@.len() ==> (#[trigger] self.rooms@[i]).message_list.wf()
        &&& self.reactions.wf()
        &&& (self.rooms@.len() == 0 ==> self.current_room_index == 0)
        &&& (self.rooms@.len() > 0 ==> self.current_room_index < self.rooms@.len())
    }

    /// All fields of `b` but the rooms equal those of `a`.
    pub open spec fn same_but_rooms(a: State, b: State) -> bool {
        &&& b.user_id == a.user_id
        &&& b.input == a.input
        &&& b.current_room_index == a.current_room_index
        &&& b.reactions == a.reactions
    }

    /// The state a client starts from: no rooms, empty input, no reactions.
    pub fn new(user_id: String) -> (s: State)
        ensures
            s.wf(),
            s.user_id == user_id,
            s.input@ == Seq::<char>::empty(),
            s.current_room_index == 0,
            s.rooms@ == Seq::<Room>::empty(),
            s.reactions.as_set() == Set::<(Seq<char>, Seq<char>, Seq<char>)>::empty(),
    {
        State {
            user_id,
            input: String::new(),
            current_room_index: 0,
            rooms: Vec::new(),
            reactions: Reactions::new(),
        }
    }

    /// The room the current-room cursor points at, if any.
    pub fn current_room(&self) -> (r: Option<&Room>)
        ensures
            self.current_room_index < self.rooms@.len() ==> (r matches Some(room) && *room
                == self.rooms@[self.current_room_index as int]),
            self.current_room_index >= self.rooms@.len() ==> r is None,
    {
        if self.current_room_index < self.rooms.len() {
            Some(&self.rooms[self.current_room_index])
        } else {
            None
        }
    }

    /// Index of the first room whose id is `room_id`, if any.
    pub fn room_position(&self, room_id: &String) -> (r: Option<usize>)
        ensures
            match r {
                Some(i) => first_match(self.rooms@, room_id@) == i as int && i < self.rooms@.len()
                    && self.rooms@[i as int].id@ == room_id@,
                None => first_match(self.rooms@, room_id@) == -1,
            },
    {
        let n = self.rooms.len();
        let mut i: usize = 0;
        while i < n
            invariant
                n == self.rooms@.len(),
                i <= n,
                forall|j: int| 0 <= j < i ==> (#[trigger] self.rooms@[j]).id@ != room_id@,
            decreases n - i,
        {
            if self.rooms[i].id == *room_id {
                proof {
                    lemma_first_match_found(self.rooms@, room_id@, i as int);
                }
                return Some(i);
            }
            i += 1;
        }
        proof {
            lemma_first_match_none(self.rooms@, room_id@);
        }
        None
    }

    /// The first room whose id is `room_id`, if any.
    pub fn get_room(&self, room_id: &String) -> (r: Option<&Room>)
        ensures
            first_match(self.rooms@, room_id@) == -1 <==> r is None,
            first_match(self.rooms@, room_id@) >= 0 ==> (r matches Some(room) && *room
                == self.rooms@[first_match(self.rooms@, room_id@)]),
    {
        match self.room_position(room_id) {
            Some(i) => Some(&self.rooms[i]),
            None => None,
        }
    }

    /// The room the current-room cursor points at, if any, borrowed for
    /// mutation.
    pub fn current_room_mut(&mut self) -> (r: Option<&mut Room>)
        ensures
            old(self).current_room_index >= old(self).rooms@.len() ==> (r is None && *final(self)
                == *old(self)),
            old(self).current_room_index < old(self).rooms@.len() ==> (r matches Some(room) && *room
                == old(self).rooms@[old(self).current_room_index as int] && final(self).rooms@
                == old(self).rooms@.update(old(self).current_room_index as int, *final(room))
                && State::same_but_rooms(*old(self), *final(self))),
    {
        let idx = self.current_room_index;
        if idx < self.rooms.len() {
            Some(&mut self.rooms[idx])
        } else {
            None
        }
    }

    /// The first room whose id is `room_id`, if any, borrowed for mutation.
    pub fn get_room_mut(&mut self, room_id: &String) -> (r: Option<&mut Room>)
        ensures
            first_match(old(self).rooms@, room_id@) == -1 ==> (r is None && *final(self) == *old(
                self,
            )),
            first_match(old(self).rooms@, room_id@) >= 0 ==> (r matches Some(room) && *room == old(
                self,
            ).rooms@[first_match(old(self).rooms@, room_id@)] && final(self).rooms@ == old(
                self,
            ).rooms@.update(first_match(old(self).rooms@, room_id@), *final(room))
                && State::same_but_rooms(*old(self), *final(self))),
    {
        match self.room_position(room_id) {
            Some(i) => Some(&mut self.rooms[i]),
            None => None,
        }
    }

    /// Advance the current-room cursor by `increment`, wrapping around the
    /// registry; a no-op while the registry is empty.
    pub fn change_current_room(&mut self, increment: i32)
        requires
            old(self).wf(),
        ensures
            final(self).wf(),
            final(self).rooms == old(self).rooms,
            final(self).input == old(self).input,
            final(self).user_id == old(self).user_id,
            final(self).reactions == old(self).reactions,
            old(self).rooms@.len() == 0 ==> final(self).current_room_index == old(
                self,
            ).current_room_index,
            old(self).rooms@.len() > 0 ==> final(self).current_room_index as int == (old(
                self,
            ).current_room_index as int + increment as int) % (old(self).rooms@.len() as int),
    {
        let len = self.rooms.len();
        if len == 0 {
            return ;
        }
        let idx = self.current_room_index;
        let ghost l = len as int;
        let ghost ix = idx as int;
        let ghost delta = increment as int;
        if increment >= 0 {
            let step = (increment as usize) % len;
            let next = if step > len - 1 - idx {
                idx - (len - step)
            } else {
                idx + step
            };
            proof {
                lemma_wrap_forward(ix, delta, l, step as int);
            }
            self.current_room_index = next;
        } else {
            let back = ((-(increment as i64)) as usize) % len;
            let next = if back > idx {
                len - (back - idx)
            } else {
                idx - back
            };
            proof {
                lemma_wrap_backward(ix, delta, l, back as int);
            }
            self.current_room_index = next;
        }
    }

    /// Move the current room's selection cursor; a no-op if there is no
    /// current room.
    pub fn change_current_message(&mut self, position: ListPosition)
        requires
            old(self).wf(),
        ensures
            final(self).wf(),
            moved_message_spec(*old(self), *final(self), position),
    {
        let idx = self.current_room_index;
        if idx < self.rooms.len() {
            self.rooms[idx].message_list.move_selection(position);
        }
    }
}

/// Stepping `delta >= 0` rooms forward from `ix` wraps to `(ix + delta) % l`.
proof fn lemma_wrap_forward(ix: int, delta: int, l: int, step: int)
    requires
        0 <= ix < l,
        delta >= 0,
        step == delta % l,
    ensures
        step > l - 1 - ix ==> ix + step - l == (ix + delta) % l,
        step <= l - 1 - ix ==> ix + step == (ix + delta) % l,
{
    vstd::arithmetic::div_mod::lemma_add_mod_noop(ix, delta, l);
    vstd::arithmetic::div_mod::lemma_small_mod(ix as nat, l as nat);
    if step > l - 1 - ix {
        vstd::arithmetic::div_mod::lemma_mod_sub_multiples_vanish(ix + step, l);
        vstd::arithmetic::div_mod::lemma_small_mod((ix + step - l) as nat, l as nat);
    } else {
        vstd::arithmetic::div_mod::lemma_small_mod((ix + step) as nat, l as nat);
    }
}

/// Stepping `-delta` rooms backward from `ix` wraps to `(ix + delta) % l`.
proof fn lemma_wrap_backward(ix: int, delta: int, l: int, back: int)
    requires
        0 <= ix < l,
        delta < 0,
        back == (-delta) % l,
    ensures
        back > ix ==> ix + l - back == (ix + delta) % l,
        back <= ix ==> ix - back == (ix + delta) % l,
{
    let d = -delta;
    vstd::arithmetic::div_mod::lemma_fundamental_div_mod(d, l);
    vstd::arithmetic::div_mod::lemma_mod_bound(d, l);
    assert(ix + delta == (ix - back) + (-(d / l)) * l) by (nonlinear_arith)
        requires
            d == l * (d / l) + back,
            delta == -d,
    ;
    lemma_mod_multiple_vanish_general(ix - back, -(d / l), l);
    if back > ix {
        vstd::arithmetic::div_mod::lemma_mod_add_multiples_vanish(ix - back, l);
        vstd::arithmetic::div_mod::lemma_small_mod((ix + l - back) as nat, l as nat);
    } else {
        vstd::arithmetic::div_mod::lemma_small_mod((ix - back) as nat, l as nat);
    }
}

/// What moving the current room's selection cursor to `pos` does to the
/// state: nothing without a current room, otherwise only that room's cursor
/// changes, to [`moved_index`].
pub open spec fn moved_message_spec(old: State, new: State, pos: ListPosition) -> bool {
    &&& State::same_but_rooms(old, new)
    &&& (old.current_room_index >= old.rooms@.len() ==> new == old)
    &&& (old.current_room_index < old.rooms@.len() ==> {
        &&& rooms_updated_at(old.rooms@, new.rooms@, old.current_room_index as int)
        &&& room_meta_same(
            old.rooms@[old.current_room_index as int],
            new.rooms@[old.current_room_index as int],
        )
        &&& new.rooms@[old.current_room_index as int].message_list.messages@
            == old.rooms@[old.current_room_index as int].message_list.messages@
        &&& new.rooms@[old.current_room_index as int].message_list.current_index as int
            == moved_index(
            old.rooms@[old.current_room_index as int].message_list.current_index as int,
            pos,
            old.rooms@[old.current_room_index as int].message_list.messages@.len() as int,
        )
    })
}

/// One operation on a timeline, for reasoning about whole histories of
/// calls: `PushNew` and `PushOld` mirror [`MessageList::push_new`] and
/// [`MessageList::push_old`], `MoveSelection` mirrors
/// [`MessageList::move_selection`].
pub enum TimelineOp {
    PushNew(Message),
    PushOld(Message),
    MoveSelection(ListPosition),
}

/// The (messages, cursor) pair that one operation leaves behind, exactly as
/// the corresponding `MessageList` method ensures.
pub open spec fn apply_op(msgs: Seq<Message>, ci: int, op: TimelineOp) -> (Seq<Message>, int) {
    match op {
        TimelineOp::PushNew(m) => (
            msgs.push(m),
            if ci == msgs.len() {
                ci + 1
            } else {
                ci
            },
        ),
        TimelineOp::PushOld(m) => (seq![m] + msgs, ci + 1),
        TimelineOp::MoveSelection(pos) => (msgs, moved_index(ci, pos, msgs.len() as int)),
    }
}

/// The (messages, cursor) pair left behind by a whole sequence of
/// operations, applied first to last.
pub open spec fn apply_ops(msgs: Seq<Message>, ci: int, ops: Seq<TimelineOp>) -> (
    Seq<Message>,
    int,
)
    decreases ops.len(),
{
    if ops.len() == 0 {
        (msgs, ci)
    } else {
        let stepped = apply_op(msgs, ci, ops.first());
        apply_ops(stepped.0, stepped.1, ops.drop_first())
    }
}

/// The messages pushed live (at the tail), in push order.
pub open spec fn lives(ops: Seq<TimelineOp>) -> Seq<Message>
    decreases ops.len(),
{
    if ops.len() == 0 {
        Seq::empty()
    } else {
        (match ops.first() {
            TimelineOp::PushNew(m) => seq![m],
            _ => Seq::<Message>::empty(),
        }) + lives(ops.drop_first())
    }
}

/// The messages pushed historically (at the head), in push order.
pub open spec fn olds(ops: Seq<TimelineOp>) -> Seq<Message>
    decreases ops.len(),
{
    if ops.len() == 0 {
        Seq::empty()
    } else {
        (match ops.first() {
            TimelineOp::PushOld(m) => seq![m],
            _ => Seq::<Message>::empty(),
        }) + olds(ops.drop_first())
    }
}

/// Whether every operation is a historical push.
pub open spec fn all_push_old(ops: Seq<TimelineOp>) -> bool {
    forall|i: int| 0 <= i < ops.len() ==> (#[trigger] ops[i]) matches TimelineOp::PushOld(m)
}

/// Each source keeps its own order: after any sequence of pushes and cursor
/// moves, the timeline holds the historically-pushed messages in reverse
/// push order (the most recently fetched history is oldest), then whatever
/// it held at the start, then the live-pushed messages in push order.
pub proof fn lemma_push_order(msgs: Seq<Message>, ci: int, ops: Seq<TimelineOp>)
    ensures
        apply_ops(msgs, ci, ops).0 == olds(ops).reverse() + msgs + lives(ops),
    decreases ops.len(),
{
    if ops.len() == 0 {
        assert(apply_ops(msgs, ci, ops).0 =~= olds(ops).reverse() + msgs + lives(ops));
    } else {
        let op = ops.first();
        let rest = ops.drop_first();
        let stepped = apply_op(msgs, ci, op);
        lemma_push_order(stepped.0, stepped.1, rest);
        match op {
            TimelineOp::PushNew(m) => {
                assert(olds(ops) =~= olds(rest));
                assert(lives(ops) =~= seq![m] + lives(rest));
                assert(olds(rest).reverse() + msgs.push(m) + lives(rest) =~= olds(ops).reverse()
                    + msgs + lives(ops));
            },
            TimelineOp::PushOld(m) => {
                assert(olds(ops) =~= seq![m] + olds(rest));
                assert(lives(ops) =~= lives(rest));
                assert(olds(ops).reverse() =~= olds(rest).reverse() + seq![m]);
                assert(olds(rest).reverse() + (seq![m] + msgs) + lives(rest) =~= olds(
                    ops,
                ).reverse() + msgs + lives(ops));
            },
            TimelineOp::MoveSelection(pos) => {
                assert(olds(ops) =~= olds(rest));
                assert(lives(ops) =~= lives(rest));
            },
        }
    }
}

/// The selection cursor stays in bounds: if it starts in `[0, len]`, then
/// after any sequence of timeline operations it is still in
/// `[0, len']` for the new length `len'`.
pub proof fn lemma_selection_in_bounds(msgs: Seq<Message>, ci: int, ops: Seq<TimelineOp>)
    requires
        0 <= ci <= msgs.len(),
    ensures
        0 <= apply_ops(msgs, ci, ops).1 <= apply_ops(msgs, ci, ops).0.len(),
    decreases ops.len(),
{
    if ops.len() > 0 {
        let stepped = apply_op(msgs, ci, ops.first());
        lemma_selection_in_bounds(stepped.0, stepped.1, ops.drop_first());
    }
}

/// Prepending history N times shifts a cursor pinned at the tail by exactly
/// N.
pub proof fn lemma_push_old_shifts_cursor(msgs: Seq<Message>, ci: int, ops: Seq<TimelineOp>)
    requires
        ci == msgs.len(),
        all_push_old(ops),
    ensures
        apply_ops(msgs, ci, ops).1 == ci + ops.len(),
    decreases ops.len(),
{
    if ops.len() > 0 {
        assert(ops[0] matches TimelineOp::PushOld(m));
        let stepped = apply_op(msgs, ci, ops.first());
        assert(all_push_old(ops.drop_first())) by {
            assert(forall|i: int|
                0 <= i < ops.drop_first().len() ==> #[trigger] ops.drop_first()[i] == ops[i + 1]);
        }
        lemma_push_old_shifts_cursor_any(stepped.0, stepped.1, ops.drop_first());
    }
}

/// Prepending history N times shifts any cursor by exactly N.
proof fn lemma_push_old_shifts_cursor_any(msgs: Seq<Message>, ci: int, ops: Seq<TimelineOp>)
    requires
        all_push_old(ops),
    ensures
        apply_ops(msgs, ci, ops).1 == ci + ops.len(),
    decreases ops.len(),
{
    if ops.len() > 0 {
        assert(ops[0] matches TimelineOp::PushOld(m));
        let stepped = apply_op(msgs, ci, ops.first());
        assert(all_push_old(ops.drop_first())) by {
            assert(forall|i: int|
                0 <= i < ops.drop_first().len() ==> #[trigger] ops.drop_first()[i] == ops[i + 1]);
        }
        lemma_push_old_shifts_cursor_any(stepped.0, stepped.1, ops.drop_first());
    }
}

/// Adding any multiple of `l` does not change a value's remainder mod `l`.
proof fn lemma_mod_multiple_vanish_general(a: int, k: int, l: int)
    requires
        l > 0,
    ensures
        (a + k * l) % l == a % l,
    decreases
            (if k >= 0 {
                k
            } else {
                -k
            }),
{
    if k == 0 {
    } else if k > 0 {
        lemma_mod_multiple_vanish_general(a, k - 1, l);
        vstd::arithmetic::div_mod::lemma_mod_add_multiples_vanish(a + (k - 1) * l, l);
        assert(a + k * l == (a + (k - 1) * l) + l) by (nonlinear_arith);
    } else {
        lemma_mod_multiple_vanish_general(a, k + 1, l);
        vstd::arithmetic::div_mod::lemma_mod_sub_multiples_vanish(a + (k + 1) * l, l);
        assert(a + k * l == (a + (k + 1) * l) - l) by (nonlinear_arith);
    }
}

} // verus!
