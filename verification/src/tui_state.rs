//! State of the terminal front-end: the chat rooms with their logs and
//! messages, and what the user has selected on the screen.

use core::cmp::Ordering;
use crate::frontend::{
    ChatClientID, ChatServerID, MessageContent, MessageContentView, MessageID, MessageStatus,
    Reaction, TimeStamp,
};
use vstd::prelude::*;
use vstd::std_specs::cmp::{PartialEqSpecImpl, PartialOrdSpecImpl};

verus! {

/// One chat message.
#[derive(Debug, Clone)]
pub struct ChatMessage {
    pub id: MessageID,
    pub content: Option<MessageContent>,
    pub timestamp: TimeStamp,
    pub status: Option<MessageStatus>,
    pub reaction: Option<Reaction>,
    pub edited: bool,
    pub deleted: bool,
}

/// Mathematical value of a [`ChatMessage`].
pub struct ChatMessageView {
    pub id: MessageID,
    pub content: Option<MessageContentView>,
    pub timestamp: TimeStamp,
    pub status: Option<MessageStatus>,
    pub reaction: Option<Reaction>,
    pub edited: bool,
    pub deleted: bool,
}

/// The value of a content that may be absent.
pub open spec fn content_view(content: Option<MessageContent>) -> Option<MessageContentView> {
    match content {
        Some(c) => Some(c@),
        None => None,
    }
}

impl View for ChatMessage {
    type V = ChatMessageView;

    open spec fn view(&self) -> ChatMessageView {
        ChatMessageView {
            id: self.id,
            content: content_view(self.content),
            timestamp: self.timestamp,
            status: self.status,
            reaction: self.reaction,
            edited: self.edited,
            deleted: self.deleted,
        }
    }
}

/// The messages exchanged with one chat peer.
#[derive(Debug, Clone)]
pub struct ChatLog {
    pub id: ChatClientID,
    pub messages: Vec<ChatMessage>,
    pub peer_name: String,
    pub last_seen: TimeStamp,
    pub currently_creating: MessageContent,
    pub pending: u32,
    pub net_reachable: bool,
}

/// Mathematical value of a [`ChatLog`].
pub struct ChatLogView {
    pub id: ChatClientID,
    pub messages: Seq<ChatMessageView>,
    pub peer_name: Seq<char>,
    pub last_seen: TimeStamp,
    pub currently_creating: MessageContentView,
    pub pending: u32,
    pub net_reachable: bool,
}

/// The values of a list of messages.
pub open spec fn message_views(messages: Seq<ChatMessage>) -> Seq<ChatMessageView> {
    Seq::new(messages.len(), |i: int| messages[i]@)
}

impl View for ChatLog {
    type V = ChatLogView;

    open spec fn view(&self) -> ChatLogView {
        ChatLogView {
            id: self.id,
            messages: message_views(self.messages@),
            peer_name: self.peer_name@,
            last_seen: self.last_seen,
            currently_creating: self.currently_creating@,
            pending: self.pending,
            net_reachable: self.net_reachable,
        }
    }
}

/// A chat server and the logs of the peers met there.
#[derive(Debug, Clone)]
pub struct ChatRoom {
    pub id: ChatServerID,
    pub chats: Vec<ChatLog>,
    pub pending: u32,
    pub registered_to: bool,
    pub net_reachable: bool,
}

/// Mathematical value of a [`ChatRoom`].
pub struct ChatRoomView {
    pub id: ChatServerID,
    pub chats: Seq<ChatLogView>,
    pub pending: u32,
    pub registered_to: bool,
    pub net_reachable: bool,
}

/// The values of a list of logs.
pub open spec fn log_views(logs: Seq<ChatLog>) -> Seq<ChatLogView> {
    Seq::new(logs.len(), |i: int| logs[i]@)
}

impl View for ChatRoom {
    type V = ChatRoomView;

    open spec fn view(&self) -> ChatRoomView {
        ChatRoomView {
            id: self.id,
            chats: log_views(self.chats@),
            pending: self.pending,
            registered_to: self.registered_to,
            net_reachable: self.net_reachable,
        }
    }
}

/// The values of a list of rooms.
pub open spec fn room_views(rooms: Seq<ChatRoom>) -> Seq<ChatRoomView> {
    Seq::new(rooms.len(), |i: int| rooms[i]@)
}

/// Where `a` stands relative to `b` in the list of rooms: two rooms with the
/// same id are the same room; otherwise a room that can be reached stands
/// before one that cannot, then a room this client is registered to before
/// one it is not, and else `a` stands behind `b`.
pub open spec fn room_order(a: ChatRoomView, b: ChatRoomView) -> Ordering {
    if a.id == b.id {
        Ordering::Equal
    } else if a.net_reachable && !b.net_reachable {
        Ordering::Less
    } else if !a.net_reachable && b.net_reachable {
        Ordering::Greater
    } else if a.registered_to && !b.registered_to {
        Ordering::Less
    } else {
        Ordering::Greater
    }
}

impl PartialEq for ChatRoom {
    fn eq(&self, other: &Self) -> (res: bool) {
        self.id == other.id
    }
}

impl Eq for ChatRoom {

}

impl PartialEqSpecImpl for ChatRoom {
    open spec fn obeys_eq_spec() -> bool {
        true
    }

    open spec fn eq_spec(&self, other: &Self) -> bool {
        self.id == other.id
    }
}

impl PartialOrd for ChatRoom {
    fn partial_cmp(&self, other: &Self) -> (res: Option<Ordering>) {
        if self.id == other.id {
            Some(Ordering::Equal)
        } else if self.net_reachable && !other.net_reachable {
            Some(Ordering::Less)
        } else if !self.net_reachable && other.net_reachable {
            Some(Ordering::Greater)
        } else if self.registered_to && !other.registered_to {
            Some(Ordering::Less)
        } else {
            Some(Ordering::Greater)
        }
    }
}

impl PartialOrdSpecImpl for ChatRoom {
    open spec fn obeys_partial_cmp_spec() -> bool {
        true
    }

    open spec fn partial_cmp_spec(&self, other: &Self) -> Option<Ordering> {
        Some(room_order(self@, other@))
    }
}

/// What the name box is doing.
#[derive(Debug, Clone, Copy, PartialEq, Eq, Structural)]
pub enum NameSetAction {
    Displaying,
    ChangingName,
}

/// The part of the screen that takes the keys.
#[derive(Debug, Clone, Copy, PartialEq, Eq, Structural)]
pub enum ActiveComponent {
    Startup,
    RoomSelect,
    ChatSelect,
    ChatView,
    TextEdit,
    ReactionSend,
    NameSet(NameSetAction),
}

/// The rooms and the name of this client.
#[derive(Debug, Clone)]
pub struct ChatData {
    pub chat_rooms: Vec<ChatRoom>,
    pub current_name: String,
}

/// What is selected and edited on the screen. Rooms, logs and messages are
/// named by their positions in the lists that hold them.
#[derive(Debug, Clone)]
pub struct UIData {
    pub active_component: ActiveComponent,
    pub current_room: Option<usize>,
    pub selected_room: Option<usize>,
    pub current_log: Option<usize>,
    pub selected_log: Option<usize>,
    pub text_message_in_edit: String,
    pub reacting_to: Option<usize>,
    pub selected_reaction: Option<Reaction>,
    pub name_in_editing: Option<String>,
    pub go_to_chat_bottom: bool,
    pub selected_message: Option<usize>,
    pub change_window_title: bool,
}

/// Mathematical value of a [`UIData`].
pub struct UIDataView {
    pub active_component: ActiveComponent,
    pub current_room: Option<usize>,
    pub selected_room: Option<usize>,
    pub current_log: Option<usize>,
    pub selected_log: Option<usize>,
    pub text_message_in_edit: Seq<char>,
    pub reacting_to: Option<usize>,
    pub selected_reaction: Option<Reaction>,
    pub name_in_editing: Option<Seq<char>>,
    pub go_to_chat_bottom: bool,
    pub selected_message: Option<usize>,
    pub change_window_title: bool,
}

/// The value of a text that may be absent.
pub open spec fn text_view(text: Option<String>) -> Option<Seq<char>> {
    match text {
        Some(t) => Some(t@),
        None => None,
    }
}

impl View for UIData {
    type V = UIDataView;

    open spec fn view(&self) -> UIDataView {
        UIDataView {
            active_component: self.active_component,
            current_room: self.current_room,
            selected_room: self.selected_room,
            current_log: self.current_log,
            selected_log: self.selected_log,
            text_message_in_edit: self.text_message_in_edit@,
            reacting_to: self.reacting_to,
            selected_reaction: self.selected_reaction,
            name_in_editing: text_view(self.name_in_editing),
            go_to_chat_bottom: self.go_to_chat_bottom,
            selected_message: self.selected_message,
            change_window_title: self.change_window_title,
        }
    }
}

/// The whole state of the front-end.
#[derive(Debug, Clone)]
pub struct TUIState {
    pub chat_data: ChatData,
    pub ui_data: UIData,
    pub kill: bool,
}

/// Mathematical value of a [`TUIState`].
pub struct TUIStateView {
    pub rooms: Seq<ChatRoomView>,
    pub current_name: Seq<char>,
    pub ui: UIDataView,
    pub kill: bool,
}

impl View for TUIState {
    type V = TUIStateView;

    open spec fn view(&self) -> TUIStateView {
        TUIStateView {
            rooms: room_views(self.chat_data.chat_rooms@),
            current_name: self.chat_data.current_name@,
            ui: self.ui_data@,
            kill: self.kill,
        }
    }
}

impl TUIState {
    /// The state at start: no room, no name, the room list taking the keys,
    /// nothing selected.
    pub fn new() -> (res: Self)
        ensures
            res@ == (TUIStateView {
                rooms: Seq::empty(),
                current_name: Seq::empty(),
                ui: UIDataView {
                    active_component: ActiveComponent::RoomSelect,
                    current_room: None,
                    selected_room: None,
                    current_log: None,
                    selected_log: None,
                    text_message_in_edit: Seq::empty(),
                    reacting_to: None,
                    selected_reaction: None,
                    name_in_editing: None,
                    go_to_chat_bottom: false,
                    selected_message: None,
                    change_window_title: false,
                },
                kill: false,
            }),
    {
        let res = TUIState {
            chat_data: ChatData { chat_rooms: Vec::new(), current_name: String::new() },
            ui_data: UIData {
                active_component: ActiveComponent::RoomSelect,
                current_room: None,
                selected_room: None,
                current_log: None,
                selected_log: None,
                text_message_in_edit: String::new(),
                reacting_to: None,
                selected_reaction: None,
                name_in_editing: None,
                go_to_chat_bottom: false,
                selected_message: None,
                change_window_title: false,
            },
            kill: false,
        };
        assert(res@.rooms =~= Seq::empty());
        res
    }
}

} // verus!
