//! What the keys do to the state of the front-end.

use crate::frontend::{
    MessageContent, MessageContentView, MessageID, MessageStatus, TUIEvent, TUIEventView,
};
use crate::tui_state::{
    ActiveComponent, ChatLogView, ChatMessage, ChatMessageView, ChatRoomView, NameSetAction,
    TUIState, TUIStateView, UIDataView,
};
use vstd::prelude::*;

verus! {

/// The key that was pressed.
#[derive(Debug, Clone, Copy, PartialEq, Eq, Structural)]
pub enum KeyCode {
    Esc,
    Enter,
    Backspace,
    Up,
    Down,
    Left,
    Right,
    Char(char),
    Other,
}

/// A key event of the terminal: the key, the modifiers held with it, and
/// whether the key was let go rather than pressed.
#[derive(Debug, Clone, Copy, PartialEq, Eq, Structural)]
pub struct KeyEvent {
    pub code: KeyCode,
    pub control: bool,
    pub shift: bool,
    pub release: bool,
}

/// An event of the terminal.
#[derive(Debug, Clone, Copy, PartialEq, Eq, Structural)]
pub enum Event {
    Key(KeyEvent),
    Other,
}

/// What is left for the caller to do about an event.
#[derive(Debug, Clone, PartialEq, Eq)]
pub enum UiAction {
    /// Nothing.
    Nothing,
    /// Send the event to the client.
    Send(TUIEvent),
    /// Scroll the chat one line up.
    ScrollUp,
    /// Scroll the chat one line down.
    ScrollDown,
}

/// Mathematical value of a [`UiAction`].
pub enum UiActionView {
    Nothing,
    Send(TUIEventView),
    ScrollUp,
    ScrollDown,
}

impl View for UiAction {
    type V = UiActionView;

    open spec fn view(&self) -> UiActionView {
        match self {
            UiAction::Nothing => UiActionView::Nothing,
            UiAction::Send(e) => UiActionView::Send(e@),
            UiAction::ScrollUp => UiActionView::ScrollUp,
            UiAction::ScrollDown => UiActionView::ScrollDown,
        }
    }
}

/// `String::push`: the character stands at the end of the text afterwards.
#[verifier::external_body]
fn text_push(text: &mut String, c: char)
    ensures
        final(text)@ == old(text)@.push(c),
{
    text.push(c);
}

/// `String::pop`: takes the last character off the text and returns it;
/// `None`, and the text as it was, where the text is empty.
#[verifier::external_body]
fn text_pop(text: &mut String) -> (res: Option<char>)
    ensures
        match res {
            Some(c) => old(text)@.len() > 0 && c == old(text)@.last() && final(text)@ == old(
                text,
            )@.drop_last(),
            None => old(text)@.len() == 0 && final(text)@ == old(text)@,
        },
{
    text.pop()
}

/// `text` without the line breaks and blanks at its end.
pub open spec fn trimmed(text: Seq<char>) -> Seq<char>
    decreases text.len(),
{
    if text.len() > 0 && (text.last() == '\n' || text.last() == ' ') {
        trimmed(text.drop_last())
    } else {
        text
    }
}

/// Takes the line breaks and blanks off the end of `text`.
pub fn trim_end(text: &mut String)
    ensures
        final(text)@ == trimmed(old(text)@),
{
    loop
        invariant
            trimmed(text@) == trimmed(old(text)@),
        ensures
            text@ == trimmed(old(text)@),
        decreases text@.len(),
    {
        let ghost before = text@;
        match text_pop(text) {
            Some(c) => {
                if c != '\n' && c != ' ' {
                    text_push(text, c);
                    assert(text@ =~= before);
                    break ;
                }
            },
            None => {
                break ;
            },
        }
    }
}

/// The last character of `text`, if it has one.
pub fn last_char(text: &mut String) -> (res: Option<char>)
    ensures
        final(text)@ == old(text)@,
        res == (if old(text)@.len() > 0 {
            Some(old(text)@.last())
        } else {
            None
        }),
{
    let ghost before = text@;
    match text_pop(text) {
        Some(c) => {
            text_push(text, c);
            assert(text@ =~= before);
            Some(c)
        },
        None => None,
    }
}

/// A counter lowered by `by`, stopping at 0.
pub open spec fn lowered(count: u32, by: u32) -> u32 {
    if count >= by {
        (count - by) as u32
    } else {
        0
    }
}

impl TUIStateView {
    /// The state with `ui` as what is selected and edited on the screen.
    pub open spec fn with_ui(self, ui: UIDataView) -> TUIStateView {
        TUIStateView { ui, ..self }
    }

    /// Whether the chat that is open names a room and a log that exist.
    pub open spec fn has_open_chat(self) -> bool {
        &&& self.ui.current_room is Some
        &&& self.ui.current_log is Some
        &&& self.ui.current_room->Some_0 < self.rooms.len()
        &&& self.ui.current_log->Some_0 < self.rooms[self.ui.current_room->Some_0 as int].chats.len()
    }

    /// The keys go to the message editor.
    pub open spec fn at_text_area(self) -> TUIStateView {
        self.with_ui(UIDataView { active_component: ActiveComponent::TextEdit, ..self.ui })
    }

    /// The keys go to the room list: no log is selected, and the room that
    /// is open is selected, or else the first room, if there is one.
    pub open spec fn at_room_select(self) -> TUIStateView {
        self.with_ui(
            UIDataView {
                active_component: ActiveComponent::RoomSelect,
                selected_log: None,
                selected_room: match self.ui.current_room {
                    Some(r) => Some(r),
                    None => if self.rooms.len() > 0 {
                        Some(0usize)
                    } else {
                        None
                    },
                },
                ..self.ui
            },
        )
    }

    /// The keys go to the chat list of the room that is open: the log that
    /// is open is selected, or else the first log, if there is one. Without
    /// a room that is open nothing changes.
    pub open spec fn at_chat_select(self) -> TUIStateView {
        match self.ui.current_room {
            Some(r) => if r < self.rooms.len() {
                self.with_ui(
                    UIDataView {
                        active_component: ActiveComponent::ChatSelect,
                        selected_log: match self.ui.current_log {
                            Some(l) => Some(l),
                            None => if self.rooms[r as int].chats.len() > 0 {
                                Some(0usize)
                            } else {
                                self.ui.selected_log
                            },
                        },
                        ..self.ui
                    },
                )
            } else {
                self
            },
            None => self,
        }
    }

    /// The log at position `l` of the room at position `r` is read: nothing
    /// of it is pending any more, and the room counts that much less.
    pub open spec fn log_read(self, r: int, l: int) -> TUIStateView {
        if 0 <= r < self.rooms.len() && 0 <= l < self.rooms[r].chats.len() {
            let room = self.rooms[r];
            let log = room.chats[l];
            TUIStateView {
                rooms: self.rooms.update(
                    r,
                    ChatRoomView {
                        pending: lowered(room.pending, log.pending),
                        chats: room.chats.update(
                            l,
                            ChatLogView { pending: 0, ..log },
                        ),
                        ..room
                    },
                ),
                ..self
            }
        } else {
            self
        }
    }

    /// The keys go to the chat that is open, which counts as read, and no
    /// log is selected. Without a chat that is open nothing changes.
    pub open spec fn at_chat_view(self) -> TUIStateView {
        if self.ui.current_room is Some && self.ui.current_log is Some {
            self.with_ui(
                UIDataView {
                    active_component: ActiveComponent::ChatView,
                    selected_log: None,
                    ..self.ui
                },
            ).log_read(self.ui.current_room->Some_0 as int, self.ui.current_log->Some_0 as int)
        } else {
            self
        }
    }

    /// The last message of the chat that is open is selected, or none where
    /// it has no message. Without a chat that is open nothing changes.
    pub open spec fn last_message_selected(self) -> TUIStateView {
        if self.has_open_chat() {
            let messages = self.rooms[self.ui.current_room->Some_0 as int].chats[self.ui.current_log->Some_0 as int].messages;
            self.with_ui(
                UIDataView {
                    selected_message: if messages.len() > 0 {
                        Some((messages.len() - 1) as usize)
                    } else {
                        None
                    },
                    ..self.ui
                },
            )
        } else {
            self
        }
    }
}

/// Hands the keys to the message editor.
pub fn go_to_text_area(state: &mut TUIState)
    ensures
        final(state)@ == old(state)@.at_text_area(),
{
    state.ui_data.active_component = ActiveComponent::TextEdit;
}

/// Hands the keys to the room list: see [`TUIStateView::at_room_select`].
pub fn go_to_room_select(state: &mut TUIState)
    ensures
        final(state)@ == old(state)@.at_room_select(),
{
    state.ui_data.active_component = ActiveComponent::RoomSelect;
    state.ui_data.selected_log = None;
    match state.ui_data.current_room {
        Some(r) => {
            state.ui_data.selected_room = Some(r);
        },
        None => {
            if state.chat_data.chat_rooms.len() > 0 {
                state.ui_data.selected_room = Some(0);
            } else {
                state.ui_data.selected_room = None;
            }
        },
    }
}

/// Hands the keys to the chat list: see [`TUIStateView::at_chat_select`].
pub fn go_to_chat_select(state: &mut TUIState)
    ensures
        final(state)@ == old(state)@.at_chat_select(),
{
    match state.ui_data.current_room {
        Some(r) => {
            if r < state.chat_data.chat_rooms.len() {
                match state.ui_data.current_log {
                    Some(l) => {
                        state.ui_data.selected_log = Some(l);
                    },
                    None => {
                        if state.chat_data.chat_rooms[r].chats.len() > 0 {
                            state.ui_data.selected_log = Some(0);
                        }
                    },
                }
                state.ui_data.active_component = ActiveComponent::ChatSelect;
            }
        },
        None => {},
    }
}

/// Marks a log as read: see [`TUIStateView::log_read`].
pub fn read_log(state: &mut TUIState, room_id: usize, log_id: usize)
    ensures
        final(state)@ == old(state)@.log_read(room_id as int, log_id as int),
{
    if room_id < state.chat_data.chat_rooms.len() && log_id
        < state.chat_data.chat_rooms[room_id].chats.len() {
        let ghost wanted = old(state)@.log_read(room_id as int, log_id as int);
        let room_pending = state.chat_data.chat_rooms[room_id].pending;
        let log_pending = state.chat_data.chat_rooms[room_id].chats[log_id].pending;
        state.chat_data.chat_rooms[room_id].pending = if room_pending >= log_pending {
            room_pending - log_pending
        } else {
            0
        };
        state.chat_data.chat_rooms[room_id].chats[log_id].pending = 0;
        assert(final(state)@.rooms[room_id as int].chats =~= wanted.rooms[room_id as int].chats);
        assert(final(state)@.rooms =~= wanted.rooms);
    }
}

/// Hands the keys to the chat that is open: see
/// [`TUIStateView::at_chat_view`].
pub fn go_to_chat_view(state: &mut TUIState)
    ensures
        final(state)@ == old(state)@.at_chat_view(),
{
    match (state.ui_data.current_room, state.ui_data.current_log) {
        (Some(r), Some(l)) => {
            state.ui_data.active_component = ActiveComponent::ChatView;
            state.ui_data.selected_log = None;
            read_log(state, r, l);
        },
        _ => {},
    }
}

/// Selects the last message of the chat that is open: see
/// [`TUIStateView::last_message_selected`].
pub fn select_last_message(state: &mut TUIState)
    ensures
        final(state)@ == old(state)@.last_message_selected(),
{
    match (state.ui_data.current_room, state.ui_data.current_log) {
        (Some(r), Some(l)) => {
            if r < state.chat_data.chat_rooms.len() && l
                < state.chat_data.chat_rooms[r].chats.len() {
                let n = state.chat_data.chat_rooms[r].chats[l].messages.len();
                if n > 0 {
                    state.ui_data.selected_message = Some(n - 1);
                } else {
                    state.ui_data.selected_message = None;
                }
            }
        },
        _ => {},
    }
}

/// A selection one position up, unless it is at the top or there is none.
pub open spec fn moved_up(selected: Option<usize>) -> Option<usize> {
    match selected {
        Some(i) => if i > 0 {
            Some((i - 1) as usize)
        } else {
            Some(i)
        },
        None => None,
    }
}

/// A selection one position down in a list of `len` entries, unless it is
/// at the bottom or there is none.
pub open spec fn moved_down(selected: Option<usize>, len: nat) -> Option<usize> {
    match selected {
        Some(i) => if i + 1 < len {
            Some((i + 1) as usize)
        } else {
            Some(i)
        },
        None => None,
    }
}

/// Moves a selection one position up.
pub fn go_up(selected: Option<usize>) -> (res: Option<usize>)
    ensures
        res == moved_up(selected),
{
    match selected {
        Some(i) => if i > 0 {
            Some(i - 1)
        } else {
            Some(i)
        },
        None => None,
    }
}

/// Moves a selection one position down in a list of `len` entries.
pub fn go_down(selected: Option<usize>, len: usize) -> (res: Option<usize>)
    ensures
        res == moved_down(selected, len as nat),
{
    match selected {
        Some(i) => if i < len && i + 1 < len {
            Some(i + 1)
        } else {
            Some(i)
        },
        None => None,
    }
}

/// Moves the selection in the room list one room up.
pub fn room_select_go_up(state: &mut TUIState)
    ensures
        final(state)@ == old(state)@.with_ui(
            UIDataView { selected_room: moved_up(old(state)@.ui.selected_room), ..old(state)@.ui },
        ),
{
    state.ui_data.selected_room = go_up(state.ui_data.selected_room);
}

/// Moves the selection in the room list one room down.
pub fn room_select_go_down(state: &mut TUIState)
    ensures
        final(state)@ == old(state)@.with_ui(
            UIDataView {
                selected_room: moved_down(old(state)@.ui.selected_room, old(state)@.rooms.len()),
                ..old(state)@.ui
            },
        ),
{
    state.ui_data.selected_room = go_down(
        state.ui_data.selected_room,
        state.chat_data.chat_rooms.len(),
    );
}

/// Number of logs of the room that is open; 0 where none is open.
pub open spec fn open_room_logs(v: TUIStateView) -> nat {
    match v.ui.current_room {
        Some(r) => if r < v.rooms.len() {
            v.rooms[r as int].chats.len()
        } else {
            0
        },
        None => 0,
    }
}

/// Number of messages of the chat that is open; 0 where none is open.
pub open spec fn open_chat_messages(v: TUIStateView) -> nat {
    if v.has_open_chat() {
        v.rooms[v.ui.current_room->Some_0 as int].chats[v.ui.current_log->Some_0 as int].messages.len()
    } else {
        0
    }
}

/// Moves the selection in the chat list one log up.
pub fn chat_select_go_up(state: &mut TUIState)
    ensures
        final(state)@ == old(state)@.with_ui(
            UIDataView { selected_log: moved_up(old(state)@.ui.selected_log), ..old(state)@.ui },
        ),
{
    state.ui_data.selected_log = go_up(state.ui_data.selected_log);
}

/// Moves the selection in the chat list one log down.
pub fn chat_select_go_down(state: &mut TUIState)
    ensures
        final(state)@ == old(state)@.with_ui(
            UIDataView {
                selected_log: moved_down(old(state)@.ui.selected_log, open_room_logs(old(state)@)),
                ..old(state)@.ui
            },
        ),
{
    let len = match state.ui_data.current_room {
        Some(r) => if r < state.chat_data.chat_rooms.len() {
            state.chat_data.chat_rooms[r].chats.len()
        } else {
            0
        },
        None => 0,
    };
    state.ui_data.selected_log = go_down(state.ui_data.selected_log, len);
}

/// Moves the selection in the chat one message up.
pub fn message_select_go_up(state: &mut TUIState)
    ensures
        final(state)@ == old(state)@.with_ui(
            UIDataView {
                selected_message: moved_up(old(state)@.ui.selected_message),
                ..old(state)@.ui
            },
        ),
{
    state.ui_data.selected_message = go_up(state.ui_data.selected_message);
}

/// Moves the selection in the chat one message down.
pub fn message_select_go_down(state: &mut TUIState)
    ensures
        final(state)@ == old(state)@.with_ui(
            UIDataView {
                selected_message: moved_down(
                    old(state)@.ui.selected_message,
                    open_chat_messages(old(state)@),
                ),
                ..old(state)@.ui
            },
        ),
{
    let len = match (state.ui_data.current_room, state.ui_data.current_log) {
        (Some(r), Some(l)) => if r < state.chat_data.chat_rooms.len() && l
            < state.chat_data.chat_rooms[r].chats.len() {
            state.chat_data.chat_rooms[r].chats[l].messages.len()
        } else {
            0
        },
        _ => 0,
    };
    state.ui_data.selected_message = go_down(state.ui_data.selected_message, len);
}

/// A message as it stands in the log once the user has sent it with
/// `content`: on its way to the server.
pub open spec fn sent_message(id: MessageID, content: MessageContentView) -> ChatMessageView {
    ChatMessageView {
        id,
        content: Some(content),
        timestamp: 0,
        status: Some(MessageStatus::SentToServer),
        reaction: None,
        edited: false,
        deleted: false,
    }
}

/// What sending the text in the editor under the message id `msg_id` makes
/// of the state, and what is left to do. The text counts without the line
/// breaks and blanks at its end. Where a chat is open and text is left, the
/// message joins the log of the chat, the editor is emptied, the chat is
/// to be shown from its end, and the message is to be sent to the peer.
/// Otherwise nothing happens.
pub open spec fn text_message_sent(v: TUIStateView, msg_id: MessageID) -> (
    TUIStateView,
    UiActionView,
) {
    let text = trimmed(v.ui.text_message_in_edit);
    if v.has_open_chat() && text.len() > 0 {
        let r = v.ui.current_room->Some_0 as int;
        let l = v.ui.current_log->Some_0 as int;
        let room = v.rooms[r];
        let log = room.chats[l];
        let content = MessageContentView::TextMessage(text);
        (
            TUIStateView {
                rooms: v.rooms.update(
                    r,
                    ChatRoomView {
                        chats: room.chats.update(
                            l,
                            ChatLogView {
                                messages: log.messages.push(sent_message(msg_id, content)),
                                ..log
                            },
                        ),
                        ..room
                    },
                ),
                ui: UIDataView {
                    text_message_in_edit: Seq::empty(),
                    go_to_chat_bottom: true,
                    ..v.ui
                },
                ..v
            },
            UiActionView::Send(TUIEventView::SendMessage(room.id, log.id, msg_id, content)),
        )
    } else {
        (v, UiActionView::Nothing)
    }
}

/// Sends the text in the editor as the message `msg_id`: see
/// [`text_message_sent`].
pub fn send_current_text_message(state: &mut TUIState, msg_id: MessageID) -> (res: UiAction)
    ensures
        (final(state)@, res@) == text_message_sent(old(state)@, msg_id),
{
    match (state.ui_data.current_room, state.ui_data.current_log) {
        (Some(r), Some(l)) => {
            if r < state.chat_data.chat_rooms.len() && l
                < state.chat_data.chat_rooms[r].chats.len() {
                let ghost wanted = text_message_sent(old(state)@, msg_id).0;
                let mut msg = state.ui_data.text_message_in_edit.clone();
                trim_end(&mut msg);
                if msg.as_str().is_empty() {
                    return UiAction::Nothing;
                }
                let room_id = state.chat_data.chat_rooms[r].id;
                let log_id = state.chat_data.chat_rooms[r].chats[l].id;
                let shown = msg.clone();
                state.chat_data.chat_rooms[r].chats[l].messages.push(
                    ChatMessage {
                        id: msg_id,
                        content: Some(MessageContent::TextMessage(shown)),
                        timestamp: 0,
                        status: Some(MessageStatus::SentToServer),
                        reaction: None,
                        edited: false,
                        deleted: false,
                    },
                );
                state.ui_data.text_message_in_edit = String::new();
                state.ui_data.go_to_chat_bottom = true;
                assert(final(state)@.rooms[r as int].chats[l as int].messages
                    =~= wanted.rooms[r as int].chats[l as int].messages);
                assert(final(state)@.rooms[r as int].chats =~= wanted.rooms[r as int].chats);
                assert(final(state)@.rooms =~= wanted.rooms);
                UiAction::Send(
                    TUIEvent::SendMessage(room_id, log_id, msg_id, MessageContent::TextMessage(msg)),
                )
            } else {
                UiAction::Nothing
            }
        },
        _ => UiAction::Nothing,
    }
}

/// What deleting the message that is selected makes of the state, and what
/// is left to do. Where a chat is open, one of its messages is selected and
/// that message has a status, the message loses its content and the peer is
/// to be told. Otherwise nothing happens.
pub open spec fn selected_message_deleted(v: TUIStateView) -> (TUIStateView, UiActionView) {
    if v.has_open_chat() && v.ui.selected_message is Some && v.ui.selected_message->Some_0
        < open_chat_messages(v) {
        let r = v.ui.current_room->Some_0 as int;
        let l = v.ui.current_log->Some_0 as int;
        let m = v.ui.selected_message->Some_0 as int;
        let room = v.rooms[r];
        let log = room.chats[l];
        let msg = log.messages[m];
        if msg.status is Some {
            (
                TUIStateView {
                    rooms: v.rooms.update(
                        r,
                        ChatRoomView {
                            chats: room.chats.update(
                                l,
                                ChatLogView {
                                    messages: log.messages.update(
                                        m,
                                        ChatMessageView { content: None, ..msg },
                                    ),
                                    ..log
                                },
                            ),
                            ..room
                        },
                    ),
                    ..v
                },
                UiActionView::Send(TUIEventView::DeleteMessage(room.id, log.id, msg.id)),
            )
        } else {
            (v, UiActionView::Nothing)
        }
    } else {
        (v, UiActionView::Nothing)
    }
}

/// Deletes the message that is selected: see [`selected_message_deleted`].
pub fn delete_selected_message(state: &mut TUIState) -> (res: UiAction)
    ensures
        (final(state)@, res@) == selected_message_deleted(old(state)@),
{
    match (state.ui_data.current_room, state.ui_data.current_log, state.ui_data.selected_message) {
        (Some(r), Some(l), Some(m)) => {
            if r < state.chat_data.chat_rooms.len() && l
                < state.chat_data.chat_rooms[r].chats.len() && m
                < state.chat_data.chat_rooms[r].chats[l].messages.len() {
                let ghost wanted = selected_message_deleted(old(state)@).0;
                if state.chat_data.chat_rooms[r].chats[l].messages[m].status.is_some() {
                    let room_id = state.chat_data.chat_rooms[r].id;
                    let log_id = state.chat_data.chat_rooms[r].chats[l].id;
                    let msg_id = state.chat_data.chat_rooms[r].chats[l].messages[m].id;
                    state.chat_data.chat_rooms[r].chats[l].messages[m].content = None;
                    assert(final(state)@.rooms[r as int].chats[l as int].messages
                        =~= wanted.rooms[r as int].chats[l as int].messages);
                    assert(final(state)@.rooms[r as int].chats =~= wanted.rooms[r as int].chats);
                    assert(final(state)@.rooms =~= wanted.rooms);
                    UiAction::Send(TUIEvent::DeleteMessage(room_id, log_id, msg_id))
                } else {
                    UiAction::Nothing
                }
            } else {
                UiAction::Nothing
            }
        },
        _ => UiAction::Nothing,
    }
}

/// What a key does while the name is being changed. `Esc` drops the
/// change. `Enter` takes the new name, if it is not empty, and leaves it to
/// the caller to tell the client. A character joins the name at its end,
/// and `Backspace` takes the last character off.
pub open spec fn name_set_changing(v: TUIStateView, key: KeyEvent) -> (TUIStateView, UiActionView) {
    let shown = v.with_ui(
        UIDataView {
            name_in_editing: None,
            active_component: ActiveComponent::NameSet(NameSetAction::Displaying),
            ..v.ui
        },
    );
    match (key.code, v.ui.name_in_editing) {
        (KeyCode::Esc, _) => (shown, UiActionView::Nothing),
        (KeyCode::Enter, Some(name)) => if name.len() > 0 {
            (shown, UiActionView::Send(TUIEventView::SetName(name)))
        } else {
            (v, UiActionView::Nothing)
        },
        (KeyCode::Char(c), Some(name)) => (
            v.with_ui(UIDataView { name_in_editing: Some(name.push(c)), ..v.ui }),
            UiActionView::Nothing,
        ),
        (KeyCode::Backspace, Some(name)) => if name.len() > 0 {
            (
                v.with_ui(UIDataView { name_in_editing: Some(name.drop_last()), ..v.ui }),
                UiActionView::Nothing,
            )
        } else {
            (v, UiActionView::Nothing)
        },
        _ => (v, UiActionView::Nothing),
    }
}

/// Handles a key while the name is being changed: see
/// [`name_set_changing`].
pub fn handle_name_set_changing_event(state: &mut TUIState, key: KeyEvent) -> (res: UiAction)
    ensures
        (final(state)@, res@) == name_set_changing(old(state)@, key),
{
    match key.code {
        KeyCode::Esc => {
            state.ui_data.name_in_editing = None;
            state.ui_data.active_component = ActiveComponent::NameSet(NameSetAction::Displaying);
            UiAction::Nothing
        },
        KeyCode::Enter => {
            let mut taken: Option<String> = None;
            core::mem::swap(&mut taken, &mut state.ui_data.name_in_editing);
            match taken {
                Some(name) => {
                    if name.as_str().is_empty() {
                        state.ui_data.name_in_editing = Some(name);
                        UiAction::Nothing
                    } else {
                        state.ui_data.active_component = ActiveComponent::NameSet(
                            NameSetAction::Displaying,
                        );
                        UiAction::Send(TUIEvent::SetName(name))
                    }
                },
                None => UiAction::Nothing,
            }
        },
        KeyCode::Char(c) => {
            let mut taken: Option<String> = None;
            core::mem::swap(&mut taken, &mut state.ui_data.name_in_editing);
            match taken {
                Some(mut name) => {
                    text_push(&mut name, c);
                    state.ui_data.name_in_editing = Some(name);
                },
                None => {},
            }
            UiAction::Nothing
        },
        KeyCode::Backspace => {
            let mut taken: Option<String> = None;
            core::mem::swap(&mut taken, &mut state.ui_data.name_in_editing);
            match taken {
                Some(mut name) => {
                    let _ = text_pop(&mut name);
                    state.ui_data.name_in_editing = Some(name);
                },
                None => {},
            }
            UiAction::Nothing
        },
        _ => UiAction::Nothing,
    }
}

/// What a key does while the name is shown. With `Ctrl`, `Down` hands the
/// keys to the room list and `Right` to the chat list. Without, `Enter`
/// starts a change of the name, from the name as it is.
pub open spec fn name_set_displaying(v: TUIStateView, key: KeyEvent) -> TUIStateView {
    if key.control {
        match key.code {
            KeyCode::Down => v.at_room_select(),
            KeyCode::Right => v.at_chat_select(),
            _ => v,
        }
    } else {
        match key.code {
            KeyCode::Enter => v.with_ui(
                UIDataView {
                    name_in_editing: Some(v.current_name),
                    active_component: ActiveComponent::NameSet(NameSetAction::ChangingName),
                    ..v.ui
                },
            ),
            _ => v,
        }
    }
}

/// Handles a key while the name is shown: see [`name_set_displaying`].
pub fn handle_name_set_displaying_event(state: &mut TUIState, key: KeyEvent)
    ensures
        final(state)@ == name_set_displaying(old(state)@, key),
{
    if key.control {
        match key.code {
            KeyCode::Down => {
                go_to_room_select(state);
            },
            KeyCode::Right => {
                go_to_chat_select(state);
            },
            _ => {},
        }
    } else {
        match key.code {
            KeyCode::Enter => {
                state.ui_data.name_in_editing = Some(state.chat_data.current_name.clone());
                state.ui_data.active_component = ActiveComponent::NameSet(
                    NameSetAction::ChangingName,
                );
            },
            _ => {},
        }
    }
}

/// Whether the room that is selected exists.
pub open spec fn has_selected_room(v: TUIStateView) -> bool {
    v.ui.selected_room is Some && v.ui.selected_room->Some_0 < v.rooms.len()
}

/// What a key does in the room list. With `Ctrl`, `Up` hands the keys to
/// the name box and `Right` to the chat list. Without, `Up` and `Down` move
/// the selection; `Enter` opens the room that is selected, if this client is
/// registered to it, closing the chat that was open in another room; `r`
/// asks for registration to the room that is selected, if it can be reached
/// and this client is not registered to it.
pub open spec fn room_select(v: TUIStateView, key: KeyEvent) -> (TUIStateView, UiActionView) {
    if key.control {
        match key.code {
            KeyCode::Up => (
                v.with_ui(
                    UIDataView {
                        active_component: ActiveComponent::NameSet(NameSetAction::Displaying),
                        selected_room: None,
                        ..v.ui
                    },
                ),
                UiActionView::Nothing,
            ),
            KeyCode::Right => (v.at_chat_select(), UiActionView::Nothing),
            _ => (v, UiActionView::Nothing),
        }
    } else {
        match key.code {
            KeyCode::Up => (
                v.with_ui(UIDataView { selected_room: moved_up(v.ui.selected_room), ..v.ui }),
                UiActionView::Nothing,
            ),
            KeyCode::Down => (
                v.with_ui(
                    UIDataView {
                        selected_room: moved_down(v.ui.selected_room, v.rooms.len()),
                        ..v.ui
                    },
                ),
                UiActionView::Nothing,
            ),
            KeyCode::Enter => if has_selected_room(v)
                && v.rooms[v.ui.selected_room->Some_0 as int].registered_to {
                let r = v.ui.selected_room->Some_0;
                let ui = if v.ui.current_room is Some && v.ui.current_room != Some(r) {
                    UIDataView { current_log: None, selected_message: None, ..v.ui }
                } else {
                    v.ui
                };
                (
                    v.with_ui(UIDataView { current_room: Some(r), ..ui }).at_chat_select(),
                    UiActionView::Nothing,
                )
            } else {
                (v, UiActionView::Nothing)
            },
            KeyCode::Char(c) => if (c == 'r' || c == 'R') && has_selected_room(v)
                && !v.rooms[v.ui.selected_room->Some_0 as int].registered_to
                && v.rooms[v.ui.selected_room->Some_0 as int].net_reachable {
                (
                    v,
                    UiActionView::Send(
                        TUIEventView::RegisterToServer(
                            v.rooms[v.ui.selected_room->Some_0 as int].id,
                        ),
                    ),
                )
            } else {
                (v, UiActionView::Nothing)
            },
            _ => (v, UiActionView::Nothing),
        }
    }
}

/// Handles a key in the room list: see [`room_select`].
pub fn handle_room_select_event(state: &mut TUIState, key: KeyEvent) -> (res: UiAction)
    ensures
        (final(state)@, res@) == room_select(old(state)@, key),
{
    if key.control {
        match key.code {
            KeyCode::Up => {
                state.ui_data.active_component = ActiveComponent::NameSet(
                    NameSetAction::Displaying,
                );
                state.ui_data.selected_room = None;
            },
            KeyCode::Right => {
                go_to_chat_select(state);
            },
            _ => {},
        }
        UiAction::Nothing
    } else {
        match key.code {
            KeyCode::Up => {
                room_select_go_up(state);
                UiAction::Nothing
            },
            KeyCode::Down => {
                room_select_go_down(state);
                UiAction::Nothing
            },
            KeyCode::Enter => {
                match state.ui_data.selected_room {
                    Some(r) => {
                        if r < state.chat_data.chat_rooms.len()
                            && state.chat_data.chat_rooms[r].registered_to {
                            match state.ui_data.current_room {
                                Some(current) => {
                                    if r != current {
                                        state.ui_data.current_log = None;
                                        state.ui_data.selected_message = None;
                                    }
                                },
                                None => {},
                            }
                            state.ui_data.current_room = Some(r);
                            go_to_chat_select(state);
                        }
                    },
                    None => {},
                }
                UiAction::Nothing
            },
            KeyCode::Char(c) => {
                if c == 'r' || c == 'R' {
                    match state.ui_data.selected_room {
                        Some(r) => {
                            if r < state.chat_data.chat_rooms.len()
                                && !state.chat_data.chat_rooms[r].registered_to
                                && state.chat_data.chat_rooms[r].net_reachable {
                                UiAction::Send(
                                    TUIEvent::RegisterToServer(state.chat_data.chat_rooms[r].id),
                                )
                            } else {
                                UiAction::Nothing
                            }
                        },
                        None => UiAction::Nothing,
                    }
                } else {
                    UiAction::Nothing
                }
            },
            _ => UiAction::Nothing,
        }
    }
}

/// What a key does in the chat list. With `Ctrl`, `Left` hands the keys to
/// the room list and `Right` to the chat that is open. Without, `Up` and
/// `Down` move the selection, and `Enter` opens the log that is selected:
/// where it was not open, the chat is to be shown from its end and its last
/// message is selected.
pub open spec fn chat_select(v: TUIStateView, key: KeyEvent) -> TUIStateView {
    if key.control {
        match key.code {
            KeyCode::Left => v.at_room_select(),
            KeyCode::Right => v.at_chat_view(),
            _ => v,
        }
    } else {
        match key.code {
            KeyCode::Up => v.with_ui(
                UIDataView { selected_log: moved_up(v.ui.selected_log), ..v.ui },
            ),
            KeyCode::Down => v.with_ui(
                UIDataView {
                    selected_log: moved_down(v.ui.selected_log, open_room_logs(v)),
                    ..v.ui
                },
            ),
            KeyCode::Enter => match v.ui.selected_log {
                Some(l) => (if v.ui.current_log == Some(l) {
                    v
                } else {
                    v.with_ui(
                        UIDataView { go_to_chat_bottom: true, current_log: Some(l), ..v.ui },
                    ).last_message_selected()
                }).at_chat_view(),
                None => v,
            },
            _ => v,
        }
    }
}

/// Handles a key in the chat list: see [`chat_select`].
pub fn handle_chat_select_event(state: &mut TUIState, key: KeyEvent)
    ensures
        final(state)@ == chat_select(old(state)@, key),
{
    if key.control {
        match key.code {
            KeyCode::Left => {
                go_to_room_select(state);
            },
            KeyCode::Right => {
                go_to_chat_view(state);
            },
            _ => {},
        }
    } else {
        match key.code {
            KeyCode::Up => {
                chat_select_go_up(state);
            },
            KeyCode::Down => {
                chat_select_go_down(state);
            },
            KeyCode::Enter => {
                match state.ui_data.selected_log {
                    Some(l) => {
                        let open = match state.ui_data.current_log {
                            Some(c) => c == l,
                            None => false,
                        };
                        if !open {
                            state.ui_data.go_to_chat_bottom = true;
                            state.ui_data.current_log = Some(l);
                            select_last_message(state);
                        }
                        go_to_chat_view(state);
                    },
                    None => {},
                }
            },
            _ => {},
        }
    }
}

/// What a key does in the chat that is open. With `Ctrl`, `Left` hands the
/// keys to the chat list and `Down` to the message editor. With `Shift`,
/// `Up` and `Down` move the selection among the messages. Without either,
/// `Up` and `Down` scroll the chat. `d`, with or without `Shift`, deletes
/// the message that is selected.
pub open spec fn chat_view(v: TUIStateView, key: KeyEvent) -> (TUIStateView, UiActionView) {
    if key.control {
        match key.code {
            KeyCode::Left => (v.at_chat_select(), UiActionView::Nothing),
            KeyCode::Down => (v.at_text_area(), UiActionView::Nothing),
            _ => (v, UiActionView::Nothing),
        }
    } else {
        match key.code {
            KeyCode::Up => if key.shift {
                (
                    v.with_ui(
                        UIDataView { selected_message: moved_up(v.ui.selected_message), ..v.ui },
                    ),
                    UiActionView::Nothing,
                )
            } else {
                (v, UiActionView::ScrollUp)
            },
            KeyCode::Down => if key.shift {
                (
                    v.with_ui(
                        UIDataView {
                            selected_message: moved_down(
                                v.ui.selected_message,
                                open_chat_messages(v),
                            ),
                            ..v.ui
                        },
                    ),
                    UiActionView::Nothing,
                )
            } else {
                (v, UiActionView::ScrollDown)
            },
            KeyCode::Char(c) => if c == 'd' {
                selected_message_deleted(v)
            } else {
                (v, UiActionView::Nothing)
            },
            _ => (v, UiActionView::Nothing),
        }
    }
}

/// Handles a key in the chat that is open: see [`chat_view`].
pub fn handle_chat_view_event(state: &mut TUIState, key: KeyEvent) -> (res: UiAction)
    ensures
        (final(state)@, res@) == chat_view(old(state)@, key),
{
    if key.control {
        match key.code {
            KeyCode::Left => {
                go_to_chat_select(state);
            },
            KeyCode::Down => {
                go_to_text_area(state);
            },
            _ => {},
        }
        UiAction::Nothing
    } else {
        match key.code {
            KeyCode::Up => {
                if key.shift {
                    message_select_go_up(state);
                    UiAction::Nothing
                } else {
                    UiAction::ScrollUp
                }
            },
            KeyCode::Down => {
                if key.shift {
                    message_select_go_down(state);
                    UiAction::Nothing
                } else {
                    UiAction::ScrollDown
                }
            },
            KeyCode::Char(c) => {
                if c == 'd' {
                    delete_selected_message(state)
                } else {
                    UiAction::Nothing
                }
            },
            _ => UiAction::Nothing,
        }
    }
}

/// The text in the editor after `Enter`: a line break joins a text that is
/// not empty and does not end in one.
pub open spec fn line_broken(text: Seq<char>) -> Seq<char> {
    if text.len() > 0 && text.last() != '\n' {
        text.push('\n')
    } else {
        text
    }
}

/// What a key does in the message editor. With `Ctrl`, `Left` hands the
/// keys to the chat list, `Up` to the chat that is open, and `s` sends the
/// text as the message `msg_id` and selects the last message of the chat.
/// Without, a character joins the text, `Backspace` takes the last
/// character off, and `Enter` ends the line.
pub open spec fn text_area(v: TUIStateView, key: KeyEvent, msg_id: MessageID) -> (
    TUIStateView,
    UiActionView,
) {
    let text = v.ui.text_message_in_edit;
    if key.control {
        match key.code {
            KeyCode::Left => (v.at_chat_select(), UiActionView::Nothing),
            KeyCode::Up => (v.at_chat_view(), UiActionView::Nothing),
            KeyCode::Char(c) => if c == 's' {
                (
                    text_message_sent(v, msg_id).0.last_message_selected(),
                    text_message_sent(v, msg_id).1,
                )
            } else {
                (v, UiActionView::Nothing)
            },
            _ => (v, UiActionView::Nothing),
        }
    } else {
        match key.code {
            KeyCode::Char(c) => (
                v.with_ui(UIDataView { text_message_in_edit: text.push(c), ..v.ui }),
                UiActionView::Nothing,
            ),
            KeyCode::Backspace => (
                v.with_ui(
                    UIDataView {
                        text_message_in_edit: if text.len() > 0 {
                            text.drop_last()
                        } else {
                            text
                        },
                        ..v.ui
                    },
                ),
                UiActionView::Nothing,
            ),
            KeyCode::Enter => (
                v.with_ui(UIDataView { text_message_in_edit: line_broken(text), ..v.ui }),
                UiActionView::Nothing,
            ),
            _ => (v, UiActionView::Nothing),
        }
    }
}

/// Handles a key in the message editor: see [`text_area`].
pub fn handle_text_area_event(state: &mut TUIState, key: KeyEvent, msg_id: MessageID) -> (res:
    UiAction)
    ensures
        (final(state)@, res@) == text_area(old(state)@, key, msg_id),
{
    if key.control {
        match key.code {
            KeyCode::Left => {
                go_to_chat_select(state);
                UiAction::Nothing
            },
            KeyCode::Up => {
                go_to_chat_view(state);
                UiAction::Nothing
            },
            KeyCode::Char(c) => {
                if c == 's' {
                    let action = send_current_text_message(state, msg_id);
                    select_last_message(state);
                    action
                } else {
                    UiAction::Nothing
                }
            },
            _ => UiAction::Nothing,
        }
    } else {
        match key.code {
            KeyCode::Char(c) => {
                text_push(&mut state.ui_data.text_message_in_edit, c);
            },
            KeyCode::Backspace => {
                let _ = text_pop(&mut state.ui_data.text_message_in_edit);
            },
            KeyCode::Enter => {
                match last_char(&mut state.ui_data.text_message_in_edit) {
                    Some(c) => {
                        if c != '\n' {
                            text_push(&mut state.ui_data.text_message_in_edit, '\n');
                        }
                    },
                    None => {},
                }
            },
            _ => {},
        }
        UiAction::Nothing
    }
}

/// What the event `event` does to the state `v`, and what is left for the
/// caller to do. Only keys that are pressed count, and they go to the part
/// of the screen that takes the keys. `msg_id` is the id that a message gets
/// if the event sends one.
pub open spec fn after_event(v: TUIStateView, event: Event, msg_id: MessageID) -> (
    TUIStateView,
    UiActionView,
) {
    match event {
        Event::Key(key) => if key.release {
            (v, UiActionView::Nothing)
        } else {
            match v.ui.active_component {
                ActiveComponent::NameSet(NameSetAction::Displaying) => (
                    name_set_displaying(v, key),
                    UiActionView::Nothing,
                ),
                ActiveComponent::NameSet(NameSetAction::ChangingName) => name_set_changing(
                    v,
                    key,
                ),
                ActiveComponent::RoomSelect => room_select(v, key),
                ActiveComponent::ChatSelect => (chat_select(v, key), UiActionView::Nothing),
                ActiveComponent::ChatView => chat_view(v, key),
                ActiveComponent::TextEdit => text_area(v, key, msg_id),
                _ => (v, UiActionView::Nothing),
            }
        },
        Event::Other => (v, UiActionView::Nothing),
    }
}

/// Handles an event of the terminal: see [`after_event`].
pub fn handle_event(state: &mut TUIState, event: Event, msg_id: MessageID) -> (res: UiAction)
    ensures
        (final(state)@, res@) == after_event(old(state)@, event, msg_id),
{
    match event {
        Event::Key(key) => {
            if key.release {
                return UiAction::Nothing;
            }
            match state.ui_data.active_component {
                ActiveComponent::NameSet(NameSetAction::Displaying) => {
                    handle_name_set_displaying_event(state, key);
                    UiAction::Nothing
                },
                ActiveComponent::NameSet(NameSetAction::ChangingName) => {
                    handle_name_set_changing_event(state, key)
                },
                ActiveComponent::RoomSelect => handle_room_select_event(state, key),
                ActiveComponent::ChatSelect => {
                    handle_chat_select_event(state, key);
                    UiAction::Nothing
                },
                ActiveComponent::ChatView => handle_chat_view_event(state, key),
                ActiveComponent::TextEdit => handle_text_area_event(state, key, msg_id),
                _ => UiAction::Nothing,
            }
        },
        Event::Other => UiAction::Nothing,
    }
}

} // verus!
