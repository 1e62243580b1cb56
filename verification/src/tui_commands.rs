//! What the commands of the client do to the state of the front-end.

use crate::frontend::{
    ChatClientID, ChatServerID, ClientError, MessageContent, MessageContentView, MessageID,
    MessageStatus, Reaction, TUICommand, TUIEvent,
};
use crate::tui_state::{
    log_views, message_views, room_views, text_view, ActiveComponent, ChatLog, ChatLogView,
    ChatMessage, ChatMessageView, ChatRoom, ChatRoomView, TUIState, TUIStateView, UIDataView,
};
use vstd::prelude::*;

verus! {

/// Position of the first room at or after `start` with the id `id`; the
/// length of the list where there is none.
pub open spec fn room_from(rooms: Seq<ChatRoomView>, id: ChatServerID, start: int) -> int
    decreases rooms.len() - start,
{
    if start < 0 || start >= rooms.len() {
        rooms.len() as int
    } else if rooms[start].id == id {
        start
    } else {
        room_from(rooms, id, start + 1)
    }
}

/// Position of the first room with the id `id`; the length of the list
/// where there is none.
pub open spec fn room_position(rooms: Seq<ChatRoomView>, id: ChatServerID) -> int {
    room_from(rooms, id, 0)
}

/// Position of the first log at or after `start` with the id `id`; the
/// length of the list where there is none.
pub open spec fn log_from(logs: Seq<ChatLogView>, id: ChatClientID, start: int) -> int
    decreases logs.len() - start,
{
    if start < 0 || start >= logs.len() {
        logs.len() as int
    } else if logs[start].id == id {
        start
    } else {
        log_from(logs, id, start + 1)
    }
}

/// Position of the first log with the id `id`; the length of the list where
/// there is none.
pub open spec fn log_position(logs: Seq<ChatLogView>, id: ChatClientID) -> int {
    log_from(logs, id, 0)
}

/// Position of the first message at or after `start` with the id `id`; the
/// length of the list where there is none.
pub open spec fn message_from(messages: Seq<ChatMessageView>, id: MessageID, start: int) -> int
    decreases messages.len() - start,
{
    if start < 0 || start >= messages.len() {
        messages.len() as int
    } else if messages[start].id == id {
        start
    } else {
        message_from(messages, id, start + 1)
    }
}

/// Position of the first message with the id `id`; the length of the list
/// where there is none.
pub open spec fn message_position(messages: Seq<ChatMessageView>, id: MessageID) -> int {
    message_from(messages, id, 0)
}

/// Finds the room with the id `id`.
pub fn find_room(rooms: &Vec<ChatRoom>, id: ChatServerID) -> (res: usize)
    ensures
        res == room_position(room_views(rooms@), id),
        res <= rooms.len(),
{
    let ghost views = room_views(rooms@);
    let mut i: usize = 0;
    while i < rooms.len()
        invariant
            i <= rooms.len(),
            views == room_views(rooms@),
            room_position(views, id) == room_from(views, id, i as int),
        decreases rooms.len() - i,
    {
        assert(views[i as int] == rooms@[i as int]@);
        if rooms[i].id == id {
            return i;
        }
        i += 1;
    }
    i
}

/// Finds the log with the id `id`.
pub fn find_log(logs: &Vec<ChatLog>, id: ChatClientID) -> (res: usize)
    ensures
        res == log_position(log_views(logs@), id),
        res <= logs.len(),
{
    let ghost views = log_views(logs@);
    let mut i: usize = 0;
    while i < logs.len()
        invariant
            i <= logs.len(),
            views == log_views(logs@),
            log_position(views, id) == log_from(views, id, i as int),
        decreases logs.len() - i,
    {
        assert(views[i as int] == logs@[i as int]@);
        if logs[i].id == id {
            return i;
        }
        i += 1;
    }
    i
}

/// Finds the message with the id `id`.
pub fn find_message(messages: &Vec<ChatMessage>, id: MessageID) -> (res: usize)
    ensures
        res == message_position(message_views(messages@), id),
        res <= messages.len(),
{
    let ghost views = message_views(messages@);
    let mut i: usize = 0;
    while i < messages.len()
        invariant
            i <= messages.len(),
            views == message_views(messages@),
            message_position(views, id) == message_from(views, id, i as int),
        decreases messages.len() - i,
    {
        assert(views[i as int] == messages@[i as int]@);
        if messages[i].id == id {
            return i;
        }
        i += 1;
    }
    i
}

/// `flag`, or `kept` where no flag is given.
pub open spec fn flag_or(flag: Option<bool>, kept: bool) -> bool {
    match flag {
        Some(b) => b,
        None => kept,
    }
}

impl TUIStateView {
    /// The state with `room` in place of the room at position `r`.
    pub open spec fn with_room(self, r: int, room: ChatRoomView) -> TUIStateView {
        TUIStateView { rooms: self.rooms.update(r, room), ..self }
    }
}

impl ChatRoomView {
    /// The room with `log` in place of the log at position `l`.
    pub open spec fn with_log(self, l: int, log: ChatLogView) -> ChatRoomView {
        ChatRoomView { chats: self.chats.update(l, log), ..self }
    }
}

impl ChatLogView {
    /// The log with `message` in place of the message at position `m`.
    pub open spec fn with_message(self, m: int, message: ChatMessageView) -> ChatLogView {
        ChatLogView { messages: self.messages.update(m, message), ..self }
    }
}

/// The state after news of the chat room `id`. A room that is known takes
/// the flags that are given and keeps the others. A room that is new joins
/// the list, without logs, a flag that is not given counting as `false`;
/// where it is the only room and the room list takes the keys, it is
/// selected.
pub open spec fn chat_room_updated(
    v: TUIStateView,
    id: ChatServerID,
    registered: Option<bool>,
    reachable: Option<bool>,
) -> TUIStateView {
    let r = room_position(v.rooms, id);
    if r < v.rooms.len() {
        let room = v.rooms[r];
        v.with_room(
            r,
            ChatRoomView {
                registered_to: flag_or(registered, room.registered_to),
                net_reachable: flag_or(reachable, room.net_reachable),
                ..room
            },
        )
    } else {
        let rooms = v.rooms.push(
            ChatRoomView {
                id,
                chats: Seq::empty(),
                pending: 0,
                registered_to: flag_or(registered, false),
                net_reachable: flag_or(reachable, false),
            },
        );
        TUIStateView {
            rooms,
            ui: if v.ui.active_component == ActiveComponent::RoomSelect && rooms.len() == 1 {
                UIDataView { selected_room: Some(0), ..v.ui }
            } else {
                v.ui
            },
            ..v
        }
    }
}

/// Takes in news of the chat room `id`: see [`chat_room_updated`].
pub fn handle_chat_room_update(
    state: &mut TUIState,
    id: ChatServerID,
    registered: Option<bool>,
    reachable: Option<bool>,
) -> (res: Result<(), ClientError>)
    ensures
        res is Ok,
        final(state)@ == chat_room_updated(old(state)@, id, registered, reachable),
{
    let r = find_room(&state.chat_data.chat_rooms, id);
    if r < state.chat_data.chat_rooms.len() {
        match registered {
            Some(b) => {
                state.chat_data.chat_rooms[r].registered_to = b;
            },
            None => {},
        }
        match reachable {
            Some(b) => {
                state.chat_data.chat_rooms[r].net_reachable = b;
            },
            None => {},
        }
        assert(final(state)@.rooms =~= chat_room_updated(
            old(state)@,
            id,
            registered,
            reachable,
        ).rooms);
    } else {
        let new_room = ChatRoom {
            id,
            chats: Vec::new(),
            pending: 0,
            registered_to: match registered {
                Some(b) => b,
                None => false,
            },
            net_reachable: match reachable {
                Some(b) => b,
                None => false,
            },
        };
        assert(new_room@.chats =~= Seq::empty());
        state.chat_data.chat_rooms.push(new_room);
        match state.ui_data.active_component {
            ActiveComponent::RoomSelect => {
                if state.chat_data.chat_rooms.len() == 1 {
                    state.ui_data.selected_room = Some(0);
                }
            },
            _ => {},
        }
        assert(final(state)@.rooms =~= chat_room_updated(
            old(state)@,
            id,
            registered,
            reachable,
        ).rooms);
    }
    Ok(())
}

/// A log for the peer `id` under the name `name`: no messages, nothing
/// pending, the peer counted as reachable.
pub open spec fn new_log(id: ChatClientID, name: Seq<char>) -> ChatLogView {
    ChatLogView {
        id,
        messages: Seq::empty(),
        peer_name: name,
        last_seen: 0,
        currently_creating: MessageContentView::TextMessage(Seq::empty()),
        pending: 0,
        net_reachable: true,
    }
}

/// The state after news of the name of the peer `log_id` in the room
/// `room_id`; `None` where the room is not known. A peer that is known takes
/// the name, if one is given. A peer that is new gets a log of its own,
/// under the name that is given or else without a name.
pub open spec fn peer_name_updated(
    v: TUIStateView,
    room_id: ChatServerID,
    log_id: ChatClientID,
    name: Option<Seq<char>>,
) -> Option<TUIStateView> {
    let r = room_position(v.rooms, room_id);
    if r >= v.rooms.len() {
        None
    } else {
        let room = v.rooms[r];
        let l = log_position(room.chats, log_id);
        if l < room.chats.len() {
            let log = room.chats[l];
            Some(
                v.with_room(
                    r,
                    room.with_log(
                        l,
                        ChatLogView {
                            peer_name: match name {
                                Some(n) => n,
                                None => log.peer_name,
                            },
                            ..log
                        },
                    ),
                ),
            )
        } else {
            Some(
                v.with_room(
                    r,
                    ChatRoomView {
                        chats: room.chats.push(
                            new_log(
                                log_id,
                                match name {
                                    Some(n) => n,
                                    None => Seq::empty(),
                                },
                            ),
                        ),
                        ..room
                    },
                ),
            )
        }
    }
}

/// How a handler's result and the state it leaves relate to what the update
/// is meant to give: success with the updated state, or, where the update
/// does not apply, the error of command handling and the state as it was.
pub open spec fn applied(
    before: TUIStateView,
    wanted: Option<TUIStateView>,
    after: TUIStateView,
    res: Result<(), ClientError>,
) -> bool {
    match wanted {
        Some(v) => res is Ok && after == v,
        None => res == Err::<(), ClientError>(ClientError::TUICommandHandlingError) && after
            == before,
    }
}

/// Takes in news of a peer's name: see [`peer_name_updated`].
pub fn handle_peer_name_update(
    state: &mut TUIState,
    room_id: ChatServerID,
    log_id: ChatClientID,
    name: Option<String>,
) -> (res: Result<(), ClientError>)
    ensures
        applied(
            old(state)@,
            peer_name_updated(old(state)@, room_id, log_id, text_view(name)),
            final(state)@,
            res,
        ),
{
    let r = find_room(&state.chat_data.chat_rooms, room_id);
    if r >= state.chat_data.chat_rooms.len() {
        return Err(ClientError::TUICommandHandlingError);
    }
    let ghost wanted = peer_name_updated(old(state)@, room_id, log_id, text_view(name))->Some_0;
    let l = find_log(&state.chat_data.chat_rooms[r].chats, log_id);
    if l < state.chat_data.chat_rooms[r].chats.len() {
        match name {
            Some(n) => {
                state.chat_data.chat_rooms[r].chats[l].peer_name = n;
            },
            None => {},
        }
        assert(final(state)@.rooms[r as int].chats =~= wanted.rooms[r as int].chats);
        assert(final(state)@.rooms =~= wanted.rooms);
    } else {
        let peer_name = match name {
            Some(n) => n,
            None => String::new(),
        };
        let log = ChatLog {
            id: log_id,
            messages: Vec::new(),
            peer_name,
            last_seen: 0,
            currently_creating: MessageContent::TextMessage(String::new()),
            pending: 0,
            net_reachable: true,
        };
        assert(log@.messages =~= Seq::empty());
        state.chat_data.chat_rooms[r].chats.push(log);
        assert(final(state)@.rooms[r as int].chats =~= wanted.rooms[r as int].chats);
        assert(final(state)@.rooms =~= wanted.rooms);
    }
    Ok(())
}

/// The state with the log of the peer `log_id` in the room `room_id`
/// replaced by what `change` makes of it; `None` where the room or the log
/// is not known.
pub open spec fn log_changed(
    v: TUIStateView,
    room_id: ChatServerID,
    log_id: ChatClientID,
    change: spec_fn(ChatLogView) -> ChatLogView,
) -> Option<TUIStateView> {
    let r = room_position(v.rooms, room_id);
    if r >= v.rooms.len() {
        None
    } else {
        let room = v.rooms[r];
        let l = log_position(room.chats, log_id);
        if l >= room.chats.len() {
            None
        } else {
            Some(v.with_room(r, room.with_log(l, change(room.chats[l]))))
        }
    }
}

/// A time stamp moved on by one sighting, stopping at the largest stamp.
pub open spec fn seen_again(last_seen: u32) -> u32 {
    if last_seen <= u32::MAX - 100 {
        (last_seen + 100) as u32
    } else {
        u32::MAX
    }
}

/// A counter one up, stopping at the largest count.
pub open spec fn one_more(count: u32) -> u32 {
    if count < u32::MAX {
        (count + 1) as u32
    } else {
        u32::MAX
    }
}

/// Takes in that the peer `log_id` of the room `room_id` was seen: the time
/// it was last seen moves on.
pub fn handle_peer_last_seen_update(
    state: &mut TUIState,
    room_id: ChatServerID,
    log_id: ChatClientID,
) -> (res: Result<(), ClientError>)
    ensures
        applied(
            old(state)@,
            log_changed(
                old(state)@,
                room_id,
                log_id,
                |log: ChatLogView| ChatLogView { last_seen: seen_again(log.last_seen), ..log },
            ),
            final(state)@,
            res,
        ),
{
    let r = find_room(&state.chat_data.chat_rooms, room_id);
    if r >= state.chat_data.chat_rooms.len() {
        return Err(ClientError::TUICommandHandlingError);
    }
    let l = find_log(&state.chat_data.chat_rooms[r].chats, log_id);
    if l >= state.chat_data.chat_rooms[r].chats.len() {
        return Err(ClientError::TUICommandHandlingError);
    }
    let ghost wanted = log_changed(
        old(state)@,
        room_id,
        log_id,
        |log: ChatLogView| ChatLogView { last_seen: seen_again(log.last_seen), ..log },
    )->Some_0;
    let seen = state.chat_data.chat_rooms[r].chats[l].last_seen;
    state.chat_data.chat_rooms[r].chats[l].last_seen = if seen <= u32::MAX - 100 {
        seen + 100
    } else {
        u32::MAX
    };
    assert(final(state)@.rooms[r as int].chats =~= wanted.rooms[r as int].chats);
    assert(final(state)@.rooms =~= wanted.rooms);
    Ok(())
}

/// Takes in whether the peer `log_id` of the room `room_id` can be reached.
pub fn handle_peer_status_update(
    state: &mut TUIState,
    room_id: ChatServerID,
    log_id: ChatClientID,
    reachable: bool,
) -> (res: Result<(), ClientError>)
    ensures
        applied(
            old(state)@,
            log_changed(
                old(state)@,
                room_id,
                log_id,
                |log: ChatLogView| ChatLogView { net_reachable: reachable, ..log },
            ),
            final(state)@,
            res,
        ),
{
    let r = find_room(&state.chat_data.chat_rooms, room_id);
    if r >= state.chat_data.chat_rooms.len() {
        return Err(ClientError::TUICommandHandlingError);
    }
    let l = find_log(&state.chat_data.chat_rooms[r].chats, log_id);
    if l >= state.chat_data.chat_rooms[r].chats.len() {
        return Err(ClientError::TUICommandHandlingError);
    }
    let ghost wanted = log_changed(
        old(state)@,
        room_id,
        log_id,
        |log: ChatLogView| ChatLogView { net_reachable: reachable, ..log },
    )->Some_0;
    state.chat_data.chat_rooms[r].chats[l].net_reachable = reachable;
    assert(final(state)@.rooms[r as int].chats =~= wanted.rooms[r as int].chats);
    assert(final(state)@.rooms =~= wanted.rooms);
    Ok(())
}

/// The state with the message `msg_id` of the peer `log_id` in the room
/// `room_id` replaced by what `change` makes of it; `None` where the room,
/// the log or the message is not known.
pub open spec fn message_changed(
    v: TUIStateView,
    room_id: ChatServerID,
    log_id: ChatClientID,
    msg_id: MessageID,
    change: spec_fn(ChatMessageView) -> ChatMessageView,
) -> Option<TUIStateView> {
    let r = room_position(v.rooms, room_id);
    if r >= v.rooms.len() {
        None
    } else {
        let room = v.rooms[r];
        let l = log_position(room.chats, log_id);
        if l >= room.chats.len() {
            None
        } else {
            let log = room.chats[l];
            let m = message_position(log.messages, msg_id);
            if m >= log.messages.len() {
                None
            } else {
                Some(
                    v.with_room(
                        r,
                        room.with_log(l, log.with_message(m, change(log.messages[m]))),
                    ),
                )
            }
        }
    }
}

/// Where the message `msg_id` stands: the positions of its room, its log
/// and itself, where all three are known.
pub fn locate_message(
    state: &TUIState,
    room_id: ChatServerID,
    log_id: ChatClientID,
    msg_id: MessageID,
) -> (res: Option<(usize, usize, usize)>)
    ensures
        match res {
            Some((r, l, m)) => {
                &&& r == room_position(state@.rooms, room_id)
                &&& r < state@.rooms.len()
                &&& l == log_position(state@.rooms[r as int].chats, log_id)
                &&& l < state@.rooms[r as int].chats.len()
                &&& m == message_position(state@.rooms[r as int].chats[l as int].messages, msg_id)
                &&& m < state@.rooms[r as int].chats[l as int].messages.len()
                &&& r < state.chat_data.chat_rooms.len()
                &&& l < state.chat_data.chat_rooms[r as int].chats.len()
                &&& m < state.chat_data.chat_rooms[r as int].chats[l as int].messages.len()
            },
            None => forall|change: spec_fn(ChatMessageView) -> ChatMessageView|
                message_changed(state@, room_id, log_id, msg_id, change) is None,
        },
{
    let r = find_room(&state.chat_data.chat_rooms, room_id);
    if r >= state.chat_data.chat_rooms.len() {
        return None;
    }
    let l = find_log(&state.chat_data.chat_rooms[r].chats, log_id);
    if l >= state.chat_data.chat_rooms[r].chats.len() {
        return None;
    }
    let m = find_message(&state.chat_data.chat_rooms[r].chats[l].messages, msg_id);
    if m >= state.chat_data.chat_rooms[r].chats[l].messages.len() {
        return None;
    }
    Some((r, l, m))
}

/// Takes in the status of the message `msg_id`.
pub fn handle_message_status_update(
    state: &mut TUIState,
    room_id: ChatServerID,
    log_id: ChatClientID,
    msg_id: MessageID,
    status: MessageStatus,
) -> (res: Result<(), ClientError>)
    ensures
        applied(
            old(state)@,
            message_changed(
                old(state)@,
                room_id,
                log_id,
                msg_id,
                |msg: ChatMessageView| ChatMessageView { status: Some(status), ..msg },
            ),
            final(state)@,
            res,
        ),
{
    let ghost change = |msg: ChatMessageView| ChatMessageView { status: Some(status), ..msg };
    match locate_message(state, room_id, log_id, msg_id) {
        None => Err(ClientError::TUICommandHandlingError),
        Some((r, l, m)) => {
            let ghost wanted = message_changed(old(state)@, room_id, log_id, msg_id, change)->Some_0;
            state.chat_data.chat_rooms[r].chats[l].messages[m].status = Some(status);
            assert(final(state)@.rooms[r as int].chats[l as int].messages
                =~= wanted.rooms[r as int].chats[l as int].messages);
            assert(final(state)@.rooms[r as int].chats =~= wanted.rooms[r as int].chats);
            assert(final(state)@.rooms =~= wanted.rooms);
            Ok(())
        },
    }
}

/// Takes in the reaction to the message `msg_id`.
pub fn handle_message_reaction_update(
    state: &mut TUIState,
    room_id: ChatServerID,
    log_id: ChatClientID,
    msg_id: MessageID,
    reaction: Option<Reaction>,
) -> (res: Result<(), ClientError>)
    ensures
        applied(
            old(state)@,
            message_changed(
                old(state)@,
                room_id,
                log_id,
                msg_id,
                |msg: ChatMessageView| ChatMessageView { reaction, ..msg },
            ),
            final(state)@,
            res,
        ),
{
    let ghost change = |msg: ChatMessageView| ChatMessageView { reaction, ..msg };
    match locate_message(state, room_id, log_id, msg_id) {
        None => Err(ClientError::TUICommandHandlingError),
        Some((r, l, m)) => {
            let ghost wanted = message_changed(old(state)@, room_id, log_id, msg_id, change)->Some_0;
            state.chat_data.chat_rooms[r].chats[l].messages[m].reaction = reaction;
            assert(final(state)@.rooms[r as int].chats[l as int].messages
                =~= wanted.rooms[r as int].chats[l as int].messages);
            assert(final(state)@.rooms[r as int].chats =~= wanted.rooms[r as int].chats);
            assert(final(state)@.rooms =~= wanted.rooms);
            Ok(())
        },
    }
}

/// A message after it was deleted: marked as deleted, without content,
/// reaction and status.
pub open spec fn deleted_message(msg: ChatMessageView) -> ChatMessageView {
    ChatMessageView { deleted: true, content: None, reaction: None, status: None, ..msg }
}

/// Takes in that the message `msg_id` was deleted: see [`deleted_message`].
pub fn handle_message_delete(
    state: &mut TUIState,
    room_id: ChatServerID,
    log_id: ChatClientID,
    msg_id: MessageID,
) -> (res: Result<(), ClientError>)
    ensures
        applied(
            old(state)@,
            message_changed(
                old(state)@,
                room_id,
                log_id,
                msg_id,
                |msg: ChatMessageView| deleted_message(msg),
            ),
            final(state)@,
            res,
        ),
{
    let ghost change = |msg: ChatMessageView| deleted_message(msg);
    match locate_message(state, room_id, log_id, msg_id) {
        None => Err(ClientError::TUICommandHandlingError),
        Some((r, l, m)) => {
            let ghost wanted = message_changed(old(state)@, room_id, log_id, msg_id, change)->Some_0;
            state.chat_data.chat_rooms[r].chats[l].messages[m].deleted = true;
            state.chat_data.chat_rooms[r].chats[l].messages[m].content = None;
            state.chat_data.chat_rooms[r].chats[l].messages[m].reaction = None;
            state.chat_data.chat_rooms[r].chats[l].messages[m].status = None;
            assert(final(state)@.rooms[r as int].chats[l as int].messages
                =~= wanted.rooms[r as int].chats[l as int].messages);
            assert(final(state)@.rooms[r as int].chats =~= wanted.rooms[r as int].chats);
            assert(final(state)@.rooms =~= wanted.rooms);
            Ok(())
        },
    }
}

/// A message as it first arrives with `content`: no status, no reaction,
/// neither edited nor deleted.
pub open spec fn arrived_message(id: MessageID, content: MessageContentView) -> ChatMessageView {
    ChatMessageView {
        id,
        content: Some(content),
        timestamp: 0,
        status: None,
        reaction: None,
        edited: false,
        deleted: false,
    }
}

/// The state after the content `content` of the message `msg_id` arrived
/// from the peer `log_id` of the room `room_id`; `None` where the room or
/// the log is not known. A message that is known takes the content and
/// counts as edited. A message that is new joins the log at the end, and
/// the log and the room count one more pending message.
pub open spec fn message_content_updated(
    v: TUIStateView,
    room_id: ChatServerID,
    log_id: ChatClientID,
    msg_id: MessageID,
    content: MessageContentView,
) -> Option<TUIStateView> {
    let r = room_position(v.rooms, room_id);
    if r >= v.rooms.len() {
        None
    } else {
        let room = v.rooms[r];
        let l = log_position(room.chats, log_id);
        if l >= room.chats.len() {
            None
        } else {
            let log = room.chats[l];
            let m = message_position(log.messages, msg_id);
            if m < log.messages.len() {
                Some(
                    v.with_room(
                        r,
                        room.with_log(
                            l,
                            log.with_message(
                                m,
                                ChatMessageView {
                                    content: Some(content),
                                    edited: true,
                                    ..log.messages[m]
                                },
                            ),
                        ),
                    ),
                )
            } else {
                Some(
                    v.with_room(
                        r,
                        ChatRoomView { pending: one_more(room.pending), ..room }.with_log(
                            l,
                            ChatLogView {
                                messages: log.messages.push(arrived_message(msg_id, content)),
                                pending: one_more(log.pending),
                                ..log
                            },
                        ),
                    ),
                )
            }
        }
    }
}

/// The notice that the user reads the message `msg_id` as it arrives: it is
/// due where the chat that is open on the screen is the one with the peer
/// `log_id` in the room `room_id`.
pub open spec fn read_receipt(
    v: TUIStateView,
    room_id: ChatServerID,
    log_id: ChatClientID,
    msg_id: MessageID,
) -> Option<TUIEvent> {
    if v.ui.current_room is Some && v.ui.current_log is Some && v.ui.current_room->Some_0
        < v.rooms.len() && v.rooms[v.ui.current_room->Some_0 as int].id == room_id
        && v.ui.current_log->Some_0 < v.rooms[v.ui.current_room->Some_0 as int].chats.len()
        && v.rooms[v.ui.current_room->Some_0 as int].chats[v.ui.current_log->Some_0 as int].id
        == log_id {
        Some(TUIEvent::ReadMessage(room_id, log_id, msg_id))
    } else {
        None
    }
}

/// Decides whether the arrival of the message `msg_id` is answered by a
/// notice that it was read: see [`read_receipt`].
pub fn read_receipt_for(
    state: &TUIState,
    room_id: ChatServerID,
    log_id: ChatClientID,
    msg_id: MessageID,
) -> (res: Option<TUIEvent>)
    ensures
        res == read_receipt(state@, room_id, log_id, msg_id),
{
    match (state.ui_data.current_room, state.ui_data.current_log) {
        (Some(r), Some(l)) => {
            if r < state.chat_data.chat_rooms.len() && state.chat_data.chat_rooms[r].id == room_id
                && l < state.chat_data.chat_rooms[r].chats.len()
                && state.chat_data.chat_rooms[r].chats[l].id == log_id {
                Some(TUIEvent::ReadMessage(room_id, log_id, msg_id))
            } else {
                None
            }
        },
        _ => None,
    }
}

/// Takes in the content of a message (see [`message_content_updated`]) and
/// says whether the client is to be told that the user reads it (see
/// [`read_receipt`]).
pub fn handle_message_content_update(
    state: &mut TUIState,
    room_id: ChatServerID,
    log_id: ChatClientID,
    msg_id: MessageID,
    content: MessageContent,
) -> (res: Result<Option<TUIEvent>, ClientError>)
    ensures
        match message_content_updated(old(state)@, room_id, log_id, msg_id, content@) {
            Some(v) => final(state)@ == v && res == Ok::<Option<TUIEvent>, ClientError>(
                read_receipt(v, room_id, log_id, msg_id),
            ),
            None => final(state)@ == old(state)@ && res == Err::<Option<TUIEvent>, ClientError>(
                ClientError::TUICommandHandlingError,
            ),
        },
{
    let r = find_room(&state.chat_data.chat_rooms, room_id);
    if r >= state.chat_data.chat_rooms.len() {
        return Err(ClientError::TUICommandHandlingError);
    }
    let l = find_log(&state.chat_data.chat_rooms[r].chats, log_id);
    if l >= state.chat_data.chat_rooms[r].chats.len() {
        return Err(ClientError::TUICommandHandlingError);
    }
    let ghost wanted = message_content_updated(old(state)@, room_id, log_id, msg_id, content@)->Some_0;
    let m = find_message(&state.chat_data.chat_rooms[r].chats[l].messages, msg_id);
    if m < state.chat_data.chat_rooms[r].chats[l].messages.len() {
        state.chat_data.chat_rooms[r].chats[l].messages[m].content = Some(content);
        state.chat_data.chat_rooms[r].chats[l].messages[m].edited = true;
    } else {
        let message = ChatMessage {
            id: msg_id,
            content: Some(content),
            timestamp: 0,
            status: None,
            reaction: None,
            edited: false,
            deleted: false,
        };
        state.chat_data.chat_rooms[r].chats[l].messages.push(message);
        let room_pending = state.chat_data.chat_rooms[r].pending;
        if room_pending < u32::MAX {
            state.chat_data.chat_rooms[r].pending = room_pending + 1;
        }
        let log_pending = state.chat_data.chat_rooms[r].chats[l].pending;
        if log_pending < u32::MAX {
            state.chat_data.chat_rooms[r].chats[l].pending = log_pending + 1;
        }
    }
    assert(final(state)@.rooms[r as int].chats[l as int].messages
        =~= wanted.rooms[r as int].chats[l as int].messages);
    assert(final(state)@.rooms[r as int].chats =~= wanted.rooms[r as int].chats);
    assert(final(state)@.rooms =~= wanted.rooms);
    Ok(read_receipt_for(state, room_id, log_id, msg_id))
}

/// What the command `command` of the client makes of the state `v`, and the
/// event it is answered with; `None` where the command names a room, a log
/// or a message that is not known.
pub open spec fn command_applied(v: TUIStateView, command: TUICommand) -> Option<
    (TUIStateView, Option<TUIEvent>),
> {
    match command {
        TUICommand::UpdateName(name) => Some(
            (
                TUIStateView {
                    current_name: name@,
                    ui: UIDataView { change_window_title: true, ..v.ui },
                    ..v
                },
                None,
            ),
        ),
        TUICommand::UpdateChatRoom(id, registered, reachable) => Some(
            (chat_room_updated(v, id, registered, reachable), None),
        ),
        TUICommand::UpdatePeerName(room, log, name) => without_event(
            peer_name_updated(v, room, log, text_view(name)),
        ),
        TUICommand::UpdatePeerLastSeen(room, log) => without_event(
            log_changed(
                v,
                room,
                log,
                |log: ChatLogView| ChatLogView { last_seen: seen_again(log.last_seen), ..log },
            ),
        ),
        TUICommand::UpdatePeerStatus(room, log, reachable) => without_event(
            log_changed(
                v,
                room,
                log,
                |log: ChatLogView| ChatLogView { net_reachable: reachable, ..log },
            ),
        ),
        TUICommand::UpdateMessageContent(room, log, msg, content) => match message_content_updated(
            v,
            room,
            log,
            msg,
            content@,
        ) {
            Some(w) => Some((w, read_receipt(w, room, log, msg))),
            None => None,
        },
        TUICommand::UpdateMessageStatus(room, log, msg, status) => without_event(
            message_changed(
                v,
                room,
                log,
                msg,
                |m: ChatMessageView| ChatMessageView { status: Some(status), ..m },
            ),
        ),
        TUICommand::UpdateMessageReaction(room, log, msg, reaction) => without_event(
            message_changed(v, room, log, msg, |m: ChatMessageView| ChatMessageView { reaction, ..m }),
        ),
        TUICommand::DeleteMessage(room, log, msg) => without_event(
            message_changed(v, room, log, msg, |m: ChatMessageView| deleted_message(m)),
        ),
        TUICommand::Kill => Some((TUIStateView { kill: true, ..v }, None)),
    }
}

/// An updated state, where there is one, with no event to answer it.
pub open spec fn without_event(updated: Option<TUIStateView>) -> Option<
    (TUIStateView, Option<TUIEvent>),
> {
    match updated {
        Some(v) => Some((v, None)),
        None => None,
    }
}

/// Carries out the command `command` of the client on the state of the
/// front-end: see [`command_applied`]. A command that cannot be carried out
/// leaves the state as it was.
pub fn handle_backend_command(state: &mut TUIState, command: TUICommand) -> (res: Result<
    Option<TUIEvent>,
    ClientError,
>)
    ensures
        match command_applied(old(state)@, command) {
            Some((v, event)) => final(state)@ == v && res == Ok::<Option<TUIEvent>, ClientError>(
                event,
            ),
            None => final(state)@ == old(state)@ && res == Err::<Option<TUIEvent>, ClientError>(
                ClientError::TUICommandHandlingError,
            ),
        },
{
    match command {
        TUICommand::UpdateName(name) => {
            state.chat_data.current_name = name;
            state.ui_data.change_window_title = true;
            Ok(None)
        },
        TUICommand::UpdateChatRoom(id, registered, reachable) => {
            match handle_chat_room_update(state, id, registered, reachable) {
                Ok(_) => Ok(None),
                Err(e) => Err(e),
            }
        },
        TUICommand::UpdatePeerName(room_id, log_id, name) => {
            match handle_peer_name_update(state, room_id, log_id, name) {
                Ok(_) => Ok(None),
                Err(e) => Err(e),
            }
        },
        TUICommand::UpdatePeerLastSeen(room_id, log_id) => {
            match handle_peer_last_seen_update(state, room_id, log_id) {
                Ok(_) => Ok(None),
                Err(e) => Err(e),
            }
        },
        TUICommand::UpdatePeerStatus(room_id, log_id, status) => {
            match handle_peer_status_update(state, room_id, log_id, status) {
                Ok(_) => Ok(None),
                Err(e) => Err(e),
            }
        },
        TUICommand::UpdateMessageContent(room_id, log_id, msg_id, content) => {
            handle_message_content_update(state, room_id, log_id, msg_id, content)
        },
        TUICommand::UpdateMessageStatus(room_id, log_id, msg_id, status) => {
            match handle_message_status_update(state, room_id, log_id, msg_id, status) {
                Ok(_) => Ok(None),
                Err(e) => Err(e),
            }
        },
        TUICommand::UpdateMessageReaction(room_id, log_id, msg_id, reaction) => {
            match handle_message_reaction_update(state, room_id, log_id, msg_id, reaction) {
                Ok(_) => Ok(None),
                Err(e) => Err(e),
            }
        },
        TUICommand::DeleteMessage(room_id, log_id, msg_id) => {
            match handle_message_delete(state, room_id, log_id, msg_id) {
                Ok(_) => Ok(None),
                Err(e) => Err(e),
            }
        },
        TUICommand::Kill => {
            state.kill = true;
            Ok(None)
        },
    }
}

} // verus!
