use client::frontend::{
    forward_peer_command, frame_length, handle_tui_event, receive_message, send_message,
    ClientError, Drawing, MessageContent, MessageStatus, Reaction, SerializableCircle,
    SerializableColor, SerializableShape, TUICommand, TUIEvent, TuiAction,
};
use client::message::Message;

#[test]
fn set_name_is_echoed() {
    assert_eq!(
        handle_tui_event(1, TUIEvent::SetName("ada".to_string())),
        TuiAction::Reply(TUICommand::UpdateName("ada".to_string()))
    );
}

#[test]
fn registration_and_room_list_are_requests() {
    assert_eq!(
        handle_tui_event(1, TUIEvent::RegisterToServer(5)),
        TuiAction::Request { message: Message::ReqChatRegistration, server: 5 }
    );
    assert_eq!(
        handle_tui_event(1, TUIEvent::RequestRoomList(5)),
        TuiAction::Request { message: Message::ReqChatClients, server: 5 }
    );
    assert_eq!(handle_tui_event(1, TUIEvent::Dead), TuiAction::Nothing);
}

#[test]
fn chat_events_are_relayed_under_the_message_id() {
    let content = MessageContent::TextMessage("hi".to_string());
    assert_eq!(
        handle_tui_event(1, TUIEvent::SendMessage(5, 9, 77, content.clone())),
        TuiAction::Relay {
            command: TUICommand::UpdateMessageContent(5, 1, 77, content),
            to: 9,
            server: 5,
            session: 77,
        }
    );
    assert_eq!(
        handle_tui_event(1, TUIEvent::ReadMessage(5, 9, 77)),
        TuiAction::Relay {
            command: TUICommand::UpdateMessageStatus(5, 1, 77, MessageStatus::ReadByPeer),
            to: 9,
            server: 5,
            session: 77,
        }
    );
    assert_eq!(
        handle_tui_event(1, TUIEvent::DeleteMessage(5, 9, 77)),
        TuiAction::Relay {
            command: TUICommand::DeleteMessage(5, 1, 77),
            to: 9,
            server: 5,
            session: 77,
        }
    );
    assert_eq!(
        handle_tui_event(1, TUIEvent::ReactToMessage(5, 9, 77, Reaction::Skull)),
        TuiAction::Relay {
            command: TUICommand::UpdateMessageReaction(5, 1, 77, Some(Reaction::Skull)),
            to: 9,
            server: 5,
            session: 77,
        }
    );
}

#[test]
fn drawings_are_relayed_as_they_are() {
    let circle = SerializableCircle {
        x: 1.5f64.to_bits(),
        y: (-2.0f64).to_bits(),
        radius: 0.25f64.to_bits(),
        color: SerializableColor { r: 1, g: 2, b: 3 },
    };
    let content = MessageContent::Drawing(Drawing { shapes: vec![SerializableShape::Circle(circle)] });
    match handle_tui_event(1, TUIEvent::SendMessage(5, 9, 77, content.clone())) {
        TuiAction::Relay { command: TUICommand::UpdateMessageContent(_, _, _, got), .. } => {
            assert_eq!(got, content);
            match got {
                MessageContent::Drawing(d) => match d.shapes[0] {
                    SerializableShape::Circle(c) => assert_eq!(f64::from_bits(c.radius), 0.25),
                    _ => panic!("not a circle"),
                },
                _ => panic!("not a drawing"),
            }
        }
        other => panic!("not relayed: {:?}", other),
    }
}

#[test]
fn only_peer_news_is_forwarded() {
    let shown = vec![
        TUICommand::UpdatePeerName(5, 9, Some("bob".to_string())),
        TUICommand::UpdatePeerLastSeen(5, 9),
        TUICommand::UpdateMessageContent(5, 9, 1, MessageContent::TextMessage("x".to_string())),
        TUICommand::UpdateMessageStatus(5, 9, 1, MessageStatus::ReceivedByPeer),
        TUICommand::UpdateMessageReaction(5, 9, 1, None),
        TUICommand::DeleteMessage(5, 9, 1),
    ];
    for c in shown {
        assert_eq!(forward_peer_command(c.clone()), Some(c));
    }
    let hidden = vec![
        TUICommand::UpdateName("eve".to_string()),
        TUICommand::UpdateChatRoom(5, Some(true), Some(true)),
        TUICommand::UpdatePeerStatus(5, 9, true),
        TUICommand::Kill,
    ];
    for c in hidden {
        assert_eq!(forward_peer_command(c), None);
    }
}

#[test]
fn frame_has_a_big_endian_length_prefix() {
    assert_eq!(send_message(&vec![]), Ok(vec![0, 0, 0, 0]));
    assert_eq!(send_message(&vec![7, 8, 9]), Ok(vec![0, 0, 0, 3, 7, 8, 9]));
    let long = vec![1u8; 0x0102_03];
    let frame = send_message(&long).unwrap();
    assert_eq!(&frame[..4], &[0, 1, 2, 3]);
    assert_eq!(frame.len(), 4 + 0x0102_03);
}

#[test]
fn frame_length_reads_the_prefix() {
    assert_eq!(frame_length(&[0, 0, 0, 0]), 0);
    assert_eq!(frame_length(&[0, 0, 1, 2]), 258);
    assert_eq!(frame_length(&[1, 2, 3, 4]), 0x0102_0304);
    assert_eq!(frame_length(&[255, 255, 255, 255]), u32::MAX);
}

#[test]
fn receive_message_takes_one_whole_frame() {
    assert_eq!(receive_message(&vec![0, 0, 0, 3, 7, 8, 9]), Ok(vec![7, 8, 9]));
    assert_eq!(receive_message(&vec![0, 0, 0, 0]), Ok(vec![]));
    assert_eq!(receive_message(&vec![0, 0, 0]), Err(ClientError::StreamError));
    assert_eq!(receive_message(&vec![0, 0, 0, 3, 7, 8]), Err(ClientError::StreamError));
    assert_eq!(receive_message(&vec![0, 0, 0, 1, 7, 8]), Err(ClientError::StreamError));
}

#[test]
fn framing_round_trip() {
    let payload: Vec<u8> = (0..300u16).map(|b| (b % 256) as u8).collect();
    let frame = send_message(&payload).unwrap();
    assert_eq!(receive_message(&frame), Ok(payload));
}
