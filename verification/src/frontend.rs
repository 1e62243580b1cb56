//! Protocol between the client and its terminal front-end: the events the
//! front-end raises, the commands it is sent, how a front-end event turns into
//! a request to a server, and the framing of both on the control channel.

use crate::message::Message;
use crate::packet::{NodeId, Session};
use vstd::prelude::*;

verus! {

/// Identifier of a chat server.
pub type ChatServerID = NodeId;

/// Identifier of a chat client.
pub type ChatClientID = NodeId;

/// Identifier of a chat message.
pub type MessageID = u64;

/// Point in time, in the front-end's own unit.
pub type TimeStamp = u32;

/// Number of bytes of the length prefix of a frame.
pub const FRAME_HEADER_LEN: usize = 4;

/// What went wrong in the client or its front-end.
#[derive(Clone, Copy, Debug, PartialEq, Eq, Structural)]
pub enum ClientError {
    ListenerError,
    StreamError,
    EnvError,
    SerializationError,
    LockError,
    TUICommandHandlingError,
    UIError,
}

/// Reaction to a chat message.
#[derive(Clone, Copy, Debug, PartialEq, Eq, Structural)]
pub enum Reaction {
    Like,
    Heart,
    Skull,
    Crying,
    Star,
}

/// How far a chat message has come.
#[derive(Clone, Copy, Debug, PartialEq, Eq, Structural)]
pub enum MessageStatus {
    SentToServer,
    ReceivedByServer,
    ReceivedByPeer,
    ReadByPeer,
    MessageFromPeer,
}

/// Colour of a shape.
#[derive(Clone, Copy, Debug, PartialEq, Eq, Structural)]
pub struct SerializableColor {
    pub r: u8,
    pub g: u8,
    pub b: u8,
}

/// Rectangle of a drawing. Coordinates and sizes are carried as the bit
/// patterns of their binary64 values; the client relays them and never
/// computes with them.
#[derive(Clone, Copy, Debug, PartialEq, Eq, Structural)]
pub struct SerializableRectangle {
    pub x: u64,
    pub y: u64,
    pub width: u64,
    pub height: u64,
    pub color: SerializableColor,
}

/// Circle of a drawing, its numbers carried as binary64 bit patterns.
#[derive(Clone, Copy, Debug, PartialEq, Eq, Structural)]
pub struct SerializableCircle {
    pub x: u64,
    pub y: u64,
    pub radius: u64,
    pub color: SerializableColor,
}

/// Line of a drawing, its numbers carried as binary64 bit patterns.
#[derive(Clone, Copy, Debug, PartialEq, Eq, Structural)]
pub struct SerializableLine {
    pub x1: u64,
    pub y1: u64,
    pub x2: u64,
    pub y2: u64,
    pub color: SerializableColor,
}

/// Point of a drawing, its numbers carried as binary64 bit patterns.
#[derive(Clone, Copy, Debug, PartialEq, Eq, Structural)]
pub struct SerializablePoint {
    pub x: u64,
    pub y: u64,
    pub color: SerializableColor,
}

/// One shape of a drawing.
#[derive(Clone, Copy, Debug, PartialEq, Eq, Structural)]
pub enum SerializableShape {
    Rectangle(SerializableRectangle),
    Circle(SerializableCircle),
    Line(SerializableLine),
    Point(SerializablePoint),
}

/// A drawing: its shapes, in paint order.
#[derive(Clone, Debug, PartialEq, Eq)]
pub struct Drawing {
    pub shapes: Vec<SerializableShape>,
}

/// What a chat message holds.
#[derive(Clone, Debug, PartialEq, Eq)]
pub enum MessageContent {
    TextMessage(String),
    Drawing(Drawing),
}

/// Mathematical value of a [`MessageContent`].
pub enum MessageContentView {
    TextMessage(Seq<char>),
    Drawing(Seq<SerializableShape>),
}

impl View for MessageContent {
    type V = MessageContentView;

    open spec fn view(&self) -> MessageContentView {
        match self {
            MessageContent::TextMessage(text) => MessageContentView::TextMessage(text@),
            MessageContent::Drawing(drawing) => MessageContentView::Drawing(drawing.shapes@),
        }
    }
}

/// What the front-end asks of the client.
#[derive(Clone, Debug, PartialEq, Eq)]
pub enum TUIEvent {
    SendMessage(ChatServerID, ChatClientID, MessageID, MessageContent),
    ReadMessage(ChatServerID, ChatClientID, MessageID),
    DeleteMessage(ChatServerID, ChatClientID, MessageID),
    ReactToMessage(ChatServerID, ChatClientID, MessageID, Reaction),
    SetName(String),
    RegisterToServer(ChatServerID),
    RequestRoomList(ChatServerID),
    Dead,
}

/// Mathematical value of a [`TUIEvent`].
pub enum TUIEventView {
    SendMessage(ChatServerID, ChatClientID, MessageID, MessageContentView),
    ReadMessage(ChatServerID, ChatClientID, MessageID),
    DeleteMessage(ChatServerID, ChatClientID, MessageID),
    ReactToMessage(ChatServerID, ChatClientID, MessageID, Reaction),
    SetName(Seq<char>),
    RegisterToServer(ChatServerID),
    RequestRoomList(ChatServerID),
    Dead,
}

impl View for TUIEvent {
    type V = TUIEventView;

    open spec fn view(&self) -> TUIEventView {
        match self {
            TUIEvent::SendMessage(s, c, m, content) => TUIEventView::SendMessage(
                *s,
                *c,
                *m,
                content@,
            ),
            TUIEvent::ReadMessage(s, c, m) => TUIEventView::ReadMessage(*s, *c, *m),
            TUIEvent::DeleteMessage(s, c, m) => TUIEventView::DeleteMessage(*s, *c, *m),
            TUIEvent::ReactToMessage(s, c, m, r) => TUIEventView::ReactToMessage(*s, *c, *m, *r),
            TUIEvent::SetName(name) => TUIEventView::SetName(name@),
            TUIEvent::RegisterToServer(s) => TUIEventView::RegisterToServer(*s),
            TUIEvent::RequestRoomList(s) => TUIEventView::RequestRoomList(*s),
            TUIEvent::Dead => TUIEventView::Dead,
        }
    }
}

/// What the client tells the front-end, and what chat peers tell each other
/// through a chat server.
#[derive(Clone, Debug, PartialEq, Eq)]
pub enum TUICommand {
    UpdateName(String),
    /// Server, whether this client is registered to it, whether it can be
    /// reached; `None` leaves the value as it is.
    UpdateChatRoom(ChatServerID, Option<bool>, Option<bool>),
    UpdatePeerName(ChatServerID, ChatClientID, Option<String>),
    UpdatePeerLastSeen(ChatServerID, ChatClientID),
    UpdatePeerStatus(ChatServerID, ChatClientID, bool),
    UpdateMessageContent(ChatServerID, ChatClientID, MessageID, MessageContent),
    UpdateMessageStatus(ChatServerID, ChatClientID, MessageID, MessageStatus),
    UpdateMessageReaction(ChatServerID, ChatClientID, MessageID, Option<Reaction>),
    DeleteMessage(ChatClientID, ChatClientID, MessageID),
    Kill,
}

/// What the client does about a front-end event.
#[derive(Clone, Debug, PartialEq, Eq)]
pub enum TuiAction {
    /// Answer the front-end with `command`.
    Reply(TUICommand),
    /// Send `message` to `server` under a fresh session.
    Request { message: Message, server: ChatServerID },
    /// Relay `command` to the chat peer `to` through `server`, under the
    /// session `session`.
    Relay { command: TUICommand, to: ChatClientID, server: ChatServerID, session: Session },
    /// Nothing to do.
    Nothing,
}

/// The action that answers `event` at the client `id`: a new name is echoed
/// to the front-end; registration and room list become requests to the
/// server; sending, reading, deleting and reacting become commands relayed to
/// the chat peer, signed with `id` and filed under the message's id.
pub open spec fn tui_action(id: NodeId, event: TUIEvent) -> TuiAction {
    match event {
        TUIEvent::SetName(name) => TuiAction::Reply(TUICommand::UpdateName(name)),
        TUIEvent::RegisterToServer(server) => TuiAction::Request {
            message: Message::ReqChatRegistration,
            server,
        },
        TUIEvent::RequestRoomList(server) => TuiAction::Request {
            message: Message::ReqChatClients,
            server,
        },
        TUIEvent::DeleteMessage(server, peer, msg) => TuiAction::Relay {
            command: TUICommand::DeleteMessage(server, id, msg),
            to: peer,
            server,
            session: msg,
        },
        TUIEvent::SendMessage(server, peer, msg, content) => TuiAction::Relay {
            command: TUICommand::UpdateMessageContent(server, id, msg, content),
            to: peer,
            server,
            session: msg,
        },
        TUIEvent::ReadMessage(server, peer, msg) => TuiAction::Relay {
            command: TUICommand::UpdateMessageStatus(server, id, msg, MessageStatus::ReadByPeer),
            to: peer,
            server,
            session: msg,
        },
        TUIEvent::ReactToMessage(server, peer, msg, reaction) => TuiAction::Relay {
            command: TUICommand::UpdateMessageReaction(server, id, msg, Some(reaction)),
            to: peer,
            server,
            session: msg,
        },
        TUIEvent::Dead => TuiAction::Nothing,
    }
}

/// Decides what the client `id` does about the front-end event `event`.
pub fn handle_tui_event(id: NodeId, event: TUIEvent) -> (res: TuiAction)
    ensures
        res == tui_action(id, event),
{
    match event {
        TUIEvent::SetName(name) => TuiAction::Reply(TUICommand::UpdateName(name)),
        TUIEvent::RegisterToServer(server) => TuiAction::Request {
            message: Message::ReqChatRegistration,
            server,
        },
        TUIEvent::RequestRoomList(server) => TuiAction::Request {
            message: Message::ReqChatClients,
            server,
        },
        TUIEvent::DeleteMessage(server, peer, msg) => TuiAction::Relay {
            command: TUICommand::DeleteMessage(server, id, msg),
            to: peer,
            server,
            session: msg,
        },
        TUIEvent::SendMessage(server, peer, msg, content) => TuiAction::Relay {
            command: TUICommand::UpdateMessageContent(server, id, msg, content),
            to: peer,
            server,
            session: msg,
        },
        TUIEvent::ReadMessage(server, peer, msg) => TuiAction::Relay {
            command: TUICommand::UpdateMessageStatus(server, id, msg, MessageStatus::ReadByPeer),
            to: peer,
            server,
            session: msg,
        },
        TUIEvent::ReactToMessage(server, peer, msg, reaction) => TuiAction::Relay {
            command: TUICommand::UpdateMessageReaction(server, id, msg, Some(reaction)),
            to: peer,
            server,
            session: msg,
        },
        TUIEvent::Dead => TuiAction::Nothing,
    }
}

/// Whether a command that a chat peer sent is shown to the front-end: news
/// of a peer's name or presence, and of a message's content, status,
/// reaction or deletion.
pub open spec fn shown_to_frontend(command: TUICommand) -> bool {
    match command {
        TUICommand::UpdatePeerName(_, _, _) => true,
        TUICommand::UpdatePeerLastSeen(_, _) => true,
        TUICommand::UpdateMessageContent(_, _, _, _) => true,
        TUICommand::UpdateMessageStatus(_, _, _, _) => true,
        TUICommand::UpdateMessageReaction(_, _, _, _) => true,
        TUICommand::DeleteMessage(_, _, _) => true,
        _ => false,
    }
}

/// Hands back `command` where the front-end is to see it.
pub fn forward_peer_command(command: TUICommand) -> (res: Option<TUICommand>)
    ensures
        res == (if shown_to_frontend(command) {
            Some(command)
        } else {
            None::<TUICommand>
        }),
{
    match command {
        TUICommand::UpdatePeerName(_, _, _) => Some(command),
        TUICommand::UpdatePeerLastSeen(_, _) => Some(command),
        TUICommand::UpdateMessageContent(_, _, _, _) => Some(command),
        TUICommand::UpdateMessageStatus(_, _, _, _) => Some(command),
        TUICommand::UpdateMessageReaction(_, _, _, _) => Some(command),
        TUICommand::DeleteMessage(_, _, _) => Some(command),
        _ => None,
    }
}

/// The four bytes that stand for `len` in a frame, most significant first.
pub open spec fn length_prefix(len: u32) -> Seq<u8> {
    seq![
        (len / 0x100_0000) as u8,
        (len / 0x1_0000 % 0x100) as u8,
        (len / 0x100 % 0x100) as u8,
        (len % 0x100) as u8,
    ]
}

/// The number that the first four bytes of `header` stand for, most
/// significant first.
pub open spec fn prefixed_length(header: Seq<u8>) -> int {
    header[0] * 0x100_0000 + header[1] * 0x1_0000 + header[2] * 0x100 + header[3]
}

/// The frame that carries `payload`: its length on four bytes, then the
/// payload itself.
pub open spec fn frame_of(payload: Seq<u8>) -> Seq<u8> {
    length_prefix(payload.len() as u32) + payload
}

/// Frames an encoded command or event for the control channel. A payload
/// whose length does not fit the prefix cannot be framed.
pub fn send_message(serialized: &Vec<u8>) -> (res: Result<Vec<u8>, ClientError>)
    ensures
        match res {
            Ok(frame) => serialized.len() <= u32::MAX && frame@ == frame_of(serialized@),
            Err(e) => serialized.len() > u32::MAX && e == ClientError::SerializationError,
        },
{
    let len = serialized.len();
    if len > 0xffff_ffff {
        return Err(ClientError::SerializationError);
    }
    let mut frame: Vec<u8> = Vec::new();
    frame.push((len / 0x100_0000) as u8);
    frame.push((len / 0x1_0000 % 0x100) as u8);
    frame.push((len / 0x100 % 0x100) as u8);
    frame.push((len % 0x100) as u8);
    assert(frame@ == length_prefix(len as u32));
    let ghost head = frame@;
    let mut i: usize = 0;
    while i < len
        invariant
            len == serialized.len(),
            i <= len,
            frame@ == head + serialized@.subrange(0, i as int),
        decreases len - i,
    {
        frame.push(serialized[i]);
        assert(frame@ == head + serialized@.subrange(0, i + 1));
        i += 1;
    }
    assert(serialized@.subrange(0, len as int) == serialized@);
    Ok(frame)
}

/// The payload length that a frame header announces.
pub fn frame_length(header: &[u8; 4]) -> (res: u32)
    ensures
        res == prefixed_length(header@),
{
    let b0: u32 = header[0] as u32;
    let b1: u32 = header[1] as u32;
    let b2: u32 = header[2] as u32;
    let b3: u32 = header[3] as u32;
    b0 * 0x100_0000 + b1 * 0x1_0000 + b2 * 0x100 + b3
}

/// Whether `buffer` is one whole frame: a header and exactly as many bytes
/// as the header announces.
pub open spec fn is_frame(buffer: Seq<u8>) -> bool {
    buffer.len() >= FRAME_HEADER_LEN && buffer.len() - FRAME_HEADER_LEN == prefixed_length(buffer)
}

/// Takes the payload out of one whole frame. A buffer that is no whole frame
/// is a stream error.
pub fn receive_message(buffer: &Vec<u8>) -> (res: Result<Vec<u8>, ClientError>)
    ensures
        match res {
            Ok(payload) => is_frame(buffer@) && payload@ == buffer@.subrange(
                FRAME_HEADER_LEN as int,
                buffer.len() as int,
            ),
            Err(e) => !is_frame(buffer@) && e == ClientError::StreamError,
        },
{
    if buffer.len() < FRAME_HEADER_LEN {
        return Err(ClientError::StreamError);
    }
    let header: [u8; 4] = [buffer[0], buffer[1], buffer[2], buffer[3]];
    let announced = frame_length(&header);
    if (buffer.len() - FRAME_HEADER_LEN) as u64 != announced as u64 {
        return Err(ClientError::StreamError);
    }
    let mut payload: Vec<u8> = Vec::new();
    let mut i: usize = FRAME_HEADER_LEN;
    while i < buffer.len()
        invariant
            FRAME_HEADER_LEN <= i <= buffer.len(),
            payload@ == buffer@.subrange(FRAME_HEADER_LEN as int, i as int),
        decreases buffer.len() - i,
    {
        payload.push(buffer[i]);
        assert(payload@ == buffer@.subrange(FRAME_HEADER_LEN as int, i + 1));
        i += 1;
    }
    Ok(payload)
}

/// The length prefix of a frame announces the length of its payload.
pub proof fn lemma_length_prefix_round_trip(len: u32)
    ensures
        prefixed_length(length_prefix(len)) == len,
{
    let b0 = len / 0x100_0000;
    let b1 = len / 0x1_0000 % 0x100;
    let b2 = len / 0x100 % 0x100;
    let b3 = len % 0x100;
    assert(b0 < 0x100 && b1 < 0x100 && b2 < 0x100 && b3 < 0x100 && len == b0 * 0x100_0000 + b1
        * 0x1_0000 + b2 * 0x100 + b3) by (bit_vector)
        requires
            b0 == len / 0x100_0000u32,
            b1 == len / 0x1_0000u32 % 0x100u32,
            b2 == len / 0x100u32 % 0x100u32,
            b3 == len % 0x100u32,
    ;
    let prefix = length_prefix(len);
    assert(prefix[0] == b0 && prefix[1] == b1 && prefix[2] == b2 && prefix[3] == b3);
}

/// A framed payload is one whole frame, and taking the frame apart gives the
/// payload back.
pub proof fn lemma_frame_round_trip(payload: Seq<u8>)
    requires
        payload.len() <= u32::MAX,
    ensures
        is_frame(frame_of(payload)),
        frame_of(payload).subrange(FRAME_HEADER_LEN as int, frame_of(payload).len() as int)
            == payload,
{
    lemma_length_prefix_round_trip(payload.len() as u32);
    let f = frame_of(payload);
    assert(f[0] == length_prefix(payload.len() as u32)[0]);
    assert(f[1] == length_prefix(payload.len() as u32)[1]);
    assert(f[2] == length_prefix(payload.len() as u32)[2]);
    assert(f[3] == length_prefix(payload.len() as u32)[3]);
    assert(f.subrange(FRAME_HEADER_LEN as int, f.len() as int) =~= payload);
}

} // verus!
