use client::frontend::{
    ClientError, Drawing, MessageContent, MessageStatus, Reaction, TUICommand, TUIEvent,
};
use client::tui_commands::{
    find_log, find_message, find_room, handle_backend_command, handle_chat_room_update,
    handle_message_content_update, handle_message_delete, handle_message_reaction_update,
    handle_message_status_update, handle_peer_last_seen_update, handle_peer_name_update,
    handle_peer_status_update,
};
use client::tui_events::{
    delete_selected_message, go_down, go_to_chat_select, go_to_chat_view, go_to_room_select,
    go_to_text_area, go_up, handle_event, last_char, read_log, select_last_message,
    send_current_text_message, trim_end, Event, KeyCode, KeyEvent, UiAction,
};
use client::tui_layout::{
    bottom_offset, editor_scroll, fits_window, get_msg_width, MIN_HEIGHT, MIN_WIDTH,
};
use client::tui_state::{ActiveComponent, ChatMessage, ChatRoom, NameSetAction, TUIState};
use std::cmp::Ordering;

fn key(code: KeyCode) -> Event {
    Event::Key(KeyEvent { code, control: false, shift: false, release: false })
}

fn ctrl(code: KeyCode) -> Event {
    Event::Key(KeyEvent { code, control: true, shift: false, release: false })
}

fn shift(code: KeyCode) -> Event {
    Event::Key(KeyEvent { code, control: false, shift: true, release: false })
}

fn text(s: &str) -> MessageContent {
    MessageContent::TextMessage(s.to_string())
}

/// A state with room 5 (registered, reachable) that holds the logs of the
/// peers 9 and 8, and room 6.
fn two_rooms() -> TUIState {
    let mut state = TUIState::new();
    handle_chat_room_update(&mut state, 5, Some(true), Some(true)).unwrap();
    handle_chat_room_update(&mut state, 6, None, Some(true)).unwrap();
    handle_peer_name_update(&mut state, 5, 9, Some("bob".to_string())).unwrap();
    handle_peer_name_update(&mut state, 5, 8, None).unwrap();
    state
}

#[test]
fn tui_state_starts_in_the_room_list() {
    let state = TUIState::new();
    assert!(state.chat_data.chat_rooms.is_empty());
    assert_eq!(state.chat_data.current_name, "");
    assert_eq!(state.ui_data.active_component, ActiveComponent::RoomSelect);
    assert_eq!(state.ui_data.selected_room, None);
    assert!(!state.kill);
    assert!(!state.ui_data.change_window_title);
}

#[test]
fn first_room_is_selected_in_the_room_list() {
    let mut state = TUIState::new();
    assert_eq!(handle_chat_room_update(&mut state, 5, None, Some(true)), Ok(()));
    assert_eq!(state.chat_data.chat_rooms.len(), 1);
    let room = &state.chat_data.chat_rooms[0];
    assert_eq!((room.id, room.registered_to, room.net_reachable, room.pending), (5, false, true, 0));
    assert_eq!(state.ui_data.selected_room, Some(0));
    assert_eq!(handle_chat_room_update(&mut state, 6, None, None), Ok(()));
    assert_eq!(state.ui_data.selected_room, Some(0));
    assert_eq!(state.chat_data.chat_rooms.len(), 2);
}

#[test]
fn known_room_takes_the_flags_that_are_given() {
    let mut state = two_rooms();
    handle_chat_room_update(&mut state, 6, Some(true), None).unwrap();
    let room = &state.chat_data.chat_rooms[1];
    assert_eq!((room.registered_to, room.net_reachable), (true, true));
    handle_chat_room_update(&mut state, 6, None, Some(false)).unwrap();
    let room = &state.chat_data.chat_rooms[1];
    assert_eq!((room.registered_to, room.net_reachable), (true, false));
    assert_eq!(state.chat_data.chat_rooms.len(), 2);
}

#[test]
fn rooms_logs_and_messages_are_found_by_id() {
    let mut state = two_rooms();
    assert_eq!(find_room(&state.chat_data.chat_rooms, 5), 0);
    assert_eq!(find_room(&state.chat_data.chat_rooms, 6), 1);
    assert_eq!(find_room(&state.chat_data.chat_rooms, 7), 2);
    assert_eq!(find_log(&state.chat_data.chat_rooms[0].chats, 8), 1);
    assert_eq!(find_log(&state.chat_data.chat_rooms[0].chats, 1), 2);
    handle_message_content_update(&mut state, 5, 9, 40, text("a")).unwrap();
    handle_message_content_update(&mut state, 5, 9, 30, text("b")).unwrap();
    let messages = &state.chat_data.chat_rooms[0].chats[0].messages;
    assert_eq!(find_message(messages, 30), 1);
    assert_eq!(find_message(messages, 31), 2);
}

#[test]
fn peer_name_update_names_or_adds_a_log() {
    let mut state = two_rooms();
    let logs = &state.chat_data.chat_rooms[0].chats;
    assert_eq!(logs.len(), 2);
    assert_eq!((logs[0].id, logs[0].peer_name.as_str()), (9, "bob"));
    assert_eq!((logs[1].id, logs[1].peer_name.as_str()), (8, ""));
    assert!(logs[1].net_reachable);
    assert_eq!(logs[1].pending, 0);
    handle_peer_name_update(&mut state, 5, 8, Some("eve".to_string())).unwrap();
    handle_peer_name_update(&mut state, 5, 9, None).unwrap();
    let logs = &state.chat_data.chat_rooms[0].chats;
    assert_eq!(logs[1].peer_name, "eve");
    assert_eq!(logs[0].peer_name, "bob");
    assert_eq!(
        handle_peer_name_update(&mut state, 7, 9, None),
        Err(ClientError::TUICommandHandlingError)
    );
}

#[test]
fn last_seen_moves_on_and_stops_at_the_top() {
    let mut state = two_rooms();
    handle_peer_last_seen_update(&mut state, 5, 9).unwrap();
    assert_eq!(state.chat_data.chat_rooms[0].chats[0].last_seen, 100);
    state.chat_data.chat_rooms[0].chats[0].last_seen = u32::MAX - 50;
    handle_peer_last_seen_update(&mut state, 5, 9).unwrap();
    assert_eq!(state.chat_data.chat_rooms[0].chats[0].last_seen, u32::MAX);
    assert_eq!(
        handle_peer_last_seen_update(&mut state, 5, 1),
        Err(ClientError::TUICommandHandlingError)
    );
    assert_eq!(
        handle_peer_last_seen_update(&mut state, 4, 9),
        Err(ClientError::TUICommandHandlingError)
    );
}

#[test]
fn peer_status_update_sets_reachability() {
    let mut state = two_rooms();
    handle_peer_status_update(&mut state, 5, 9, false).unwrap();
    assert!(!state.chat_data.chat_rooms[0].chats[0].net_reachable);
    assert!(state.chat_data.chat_rooms[0].chats[1].net_reachable);
    assert_eq!(
        handle_peer_status_update(&mut state, 6, 9, false),
        Err(ClientError::TUICommandHandlingError)
    );
}

#[test]
fn new_message_counts_as_pending() {
    let mut state = two_rooms();
    assert_eq!(handle_message_content_update(&mut state, 5, 9, 40, text("hi")), Ok(None));
    let room = &state.chat_data.chat_rooms[0];
    assert_eq!(room.pending, 1);
    assert_eq!(room.chats[0].pending, 1);
    let msg = &room.chats[0].messages[0];
    assert_eq!(msg.id, 40);
    assert_eq!(msg.content, Some(text("hi")));
    assert_eq!((msg.status, msg.reaction, msg.edited, msg.deleted), (None, None, false, false));
    // The same message again is an edit.
    assert_eq!(handle_message_content_update(&mut state, 5, 9, 40, text("ho")), Ok(None));
    let room = &state.chat_data.chat_rooms[0];
    assert_eq!(room.pending, 1);
    assert_eq!(room.chats[0].messages.len(), 1);
    assert_eq!(room.chats[0].messages[0].content, Some(text("ho")));
    assert!(room.chats[0].messages[0].edited);
    assert_eq!(
        handle_message_content_update(&mut state, 5, 1, 40, text("x")),
        Err(ClientError::TUICommandHandlingError)
    );
}

#[test]
fn message_in_the_open_chat_is_read_at_once() {
    let mut state = two_rooms();
    state.ui_data.current_room = Some(0);
    state.ui_data.current_log = Some(1);
    assert_eq!(
        handle_message_content_update(&mut state, 5, 8, 40, text("hi")),
        Ok(Some(TUIEvent::ReadMessage(5, 8, 40)))
    );
    assert_eq!(handle_message_content_update(&mut state, 5, 9, 41, text("hi")), Ok(None));
    state.ui_data.current_log = Some(7);
    assert_eq!(handle_message_content_update(&mut state, 5, 8, 42, text("hi")), Ok(None));
}

#[test]
fn status_reaction_and_delete_need_a_known_message() {
    let mut state = two_rooms();
    handle_message_content_update(&mut state, 5, 9, 40, text("hi")).unwrap();
    assert_eq!(
        handle_message_status_update(&mut state, 5, 9, 40, MessageStatus::ReadByPeer),
        Ok(())
    );
    assert_eq!(
        handle_message_reaction_update(&mut state, 5, 9, 40, Some(Reaction::Star)),
        Ok(())
    );
    let msg = &state.chat_data.chat_rooms[0].chats[0].messages[0];
    assert_eq!(msg.status, Some(MessageStatus::ReadByPeer));
    assert_eq!(msg.reaction, Some(Reaction::Star));
    assert_eq!(handle_message_delete(&mut state, 5, 9, 40), Ok(()));
    let msg = &state.chat_data.chat_rooms[0].chats[0].messages[0];
    assert!(msg.deleted);
    assert_eq!((msg.content.clone(), msg.status, msg.reaction), (None, None, None));
    for missing in [41u64, 0] {
        assert_eq!(
            handle_message_status_update(&mut state, 5, 9, missing, MessageStatus::ReadByPeer),
            Err(ClientError::TUICommandHandlingError)
        );
        assert_eq!(
            handle_message_reaction_update(&mut state, 5, 9, missing, None),
            Err(ClientError::TUICommandHandlingError)
        );
        assert_eq!(
            handle_message_delete(&mut state, 5, 9, missing),
            Err(ClientError::TUICommandHandlingError)
        );
    }
}

#[test]
fn backend_commands_are_dispatched() {
    let mut state = TUIState::new();
    assert_eq!(
        handle_backend_command(&mut state, TUICommand::UpdateName("ada".to_string())),
        Ok(None)
    );
    assert_eq!(state.chat_data.current_name, "ada");
    assert!(state.ui_data.change_window_title);
    assert_eq!(
        handle_backend_command(&mut state, TUICommand::UpdateChatRoom(5, Some(true), Some(true))),
        Ok(None)
    );
    assert_eq!(
        handle_backend_command(&mut state, TUICommand::UpdatePeerName(5, 9, None)),
        Ok(None)
    );
    assert_eq!(
        handle_backend_command(&mut state, TUICommand::UpdatePeerLastSeen(5, 9)),
        Ok(None)
    );
    assert_eq!(
        handle_backend_command(&mut state, TUICommand::UpdatePeerStatus(5, 9, false)),
        Ok(None)
    );
    state.ui_data.current_room = Some(0);
    state.ui_data.current_log = Some(0);
    assert_eq!(
        handle_backend_command(&mut state, TUICommand::UpdateMessageContent(5, 9, 1, text("x"))),
        Ok(Some(TUIEvent::ReadMessage(5, 9, 1)))
    );
    assert_eq!(
        handle_backend_command(
            &mut state,
            TUICommand::UpdateMessageStatus(5, 9, 1, MessageStatus::ReceivedByPeer)
        ),
        Ok(None)
    );
    assert_eq!(
        handle_backend_command(&mut state, TUICommand::UpdateMessageReaction(5, 9, 1, None)),
        Ok(None)
    );
    assert_eq!(
        handle_backend_command(&mut state, TUICommand::DeleteMessage(5, 9, 1)),
        Ok(None)
    );
    assert_eq!(
        handle_backend_command(&mut state, TUICommand::DeleteMessage(5, 9, 2)),
        Err(ClientError::TUICommandHandlingError)
    );
    assert!(!state.kill);
    assert_eq!(handle_backend_command(&mut state, TUICommand::Kill), Ok(None));
    assert!(state.kill);
}

#[test]
fn room_order_puts_reachable_and_registered_first() {
    let room = |id: u8, registered_to: bool, net_reachable: bool| ChatRoom {
        id,
        chats: Vec::new(),
        pending: 0,
        registered_to,
        net_reachable,
    };
    assert!(room(1, true, true) == room(1, false, false));
    assert!(room(1, true, true) != room(2, true, true));
    assert_eq!(room(1, false, false).partial_cmp(&room(1, true, true)), Some(Ordering::Equal));
    assert_eq!(room(1, false, true).partial_cmp(&room(2, true, false)), Some(Ordering::Less));
    assert_eq!(room(1, true, false).partial_cmp(&room(2, false, true)), Some(Ordering::Greater));
    assert_eq!(room(1, true, true).partial_cmp(&room(2, false, true)), Some(Ordering::Less));
    assert_eq!(room(1, false, true).partial_cmp(&room(2, true, true)), Some(Ordering::Greater));
    assert_eq!(room(1, true, true).partial_cmp(&room(2, true, true)), Some(Ordering::Greater));
    assert!(room(1, false, true) < room(2, true, false));
}

#[test]
fn selections_move_within_their_lists() {
    assert_eq!(go_up(None), None);
    assert_eq!(go_up(Some(0)), Some(0));
    assert_eq!(go_up(Some(3)), Some(2));
    assert_eq!(go_down(None, 4), None);
    assert_eq!(go_down(Some(2), 4), Some(3));
    assert_eq!(go_down(Some(3), 4), Some(3));
    assert_eq!(go_down(Some(0), 0), Some(0));
    assert_eq!(go_down(Some(usize::MAX), 4), Some(usize::MAX));
}

#[test]
fn trim_end_takes_trailing_breaks_and_blanks() {
    let mut t = "hi there \n \n".to_string();
    trim_end(&mut t);
    assert_eq!(t, "hi there");
    let mut blank = " \n ".to_string();
    trim_end(&mut blank);
    assert_eq!(blank, "");
    let mut tab = "x\t".to_string();
    trim_end(&mut tab);
    assert_eq!(tab, "x\t");
    let mut s = "ab".to_string();
    assert_eq!(last_char(&mut s), Some('b'));
    assert_eq!(s, "ab");
    assert_eq!(last_char(&mut String::new()), None);
}

#[test]
fn release_and_other_events_do_nothing() {
    let mut state = two_rooms();
    let release =
        Event::Key(KeyEvent { code: KeyCode::Down, control: false, shift: false, release: true });
    assert_eq!(handle_event(&mut state, release, 1), UiAction::Nothing);
    assert_eq!(handle_event(&mut state, Event::Other, 1), UiAction::Nothing);
    assert_eq!(state.ui_data.selected_room, Some(0));
    state.ui_data.active_component = ActiveComponent::Startup;
    assert_eq!(handle_event(&mut state, key(KeyCode::Down), 1), UiAction::Nothing);
    assert_eq!(state.ui_data.selected_room, Some(0));
}

#[test]
fn room_list_keys() {
    let mut state = two_rooms();
    assert_eq!(handle_event(&mut state, key(KeyCode::Down), 1), UiAction::Nothing);
    assert_eq!(state.ui_data.selected_room, Some(1));
    assert_eq!(handle_event(&mut state, key(KeyCode::Down), 1), UiAction::Nothing);
    assert_eq!(state.ui_data.selected_room, Some(1));
    // Room 6 can be reached and this client is not registered to it.
    assert_eq!(
        handle_event(&mut state, key(KeyCode::Char('r')), 1),
        UiAction::Send(TUIEvent::RegisterToServer(6))
    );
    // Enter does not open a room this client is not registered to.
    assert_eq!(handle_event(&mut state, key(KeyCode::Enter), 1), UiAction::Nothing);
    assert_eq!(state.ui_data.current_room, None);
    assert_eq!(handle_event(&mut state, key(KeyCode::Up), 1), UiAction::Nothing);
    assert_eq!(state.ui_data.selected_room, Some(0));
    assert_eq!(handle_event(&mut state, key(KeyCode::Char('R')), 1), UiAction::Nothing);
    assert_eq!(handle_event(&mut state, key(KeyCode::Enter), 1), UiAction::Nothing);
    assert_eq!(state.ui_data.current_room, Some(0));
    assert_eq!(state.ui_data.active_component, ActiveComponent::ChatSelect);
    assert_eq!(state.ui_data.selected_log, Some(0));
}

#[test]
fn room_list_control_keys() {
    let mut state = two_rooms();
    assert_eq!(handle_event(&mut state, ctrl(KeyCode::Up), 1), UiAction::Nothing);
    assert_eq!(
        state.ui_data.active_component,
        ActiveComponent::NameSet(NameSetAction::Displaying)
    );
    assert_eq!(state.ui_data.selected_room, None);
    assert_eq!(handle_event(&mut state, ctrl(KeyCode::Down), 1), UiAction::Nothing);
    assert_eq!(state.ui_data.active_component, ActiveComponent::RoomSelect);
    assert_eq!(state.ui_data.selected_room, Some(0));
    // Without an open room the chat list cannot take the keys.
    assert_eq!(handle_event(&mut state, ctrl(KeyCode::Right), 1), UiAction::Nothing);
    assert_eq!(state.ui_data.active_component, ActiveComponent::RoomSelect);
}

#[test]
fn name_is_changed_with_enter_and_dropped_with_esc() {
    let mut state = TUIState::new();
    handle_backend_command(&mut state, TUICommand::UpdateName("ada".to_string())).unwrap();
    state.ui_data.active_component = ActiveComponent::NameSet(NameSetAction::Displaying);
    assert_eq!(handle_event(&mut state, key(KeyCode::Enter), 1), UiAction::Nothing);
    assert_eq!(
        state.ui_data.active_component,
        ActiveComponent::NameSet(NameSetAction::ChangingName)
    );
    assert_eq!(state.ui_data.name_in_editing, Some("ada".to_string()));
    assert_eq!(handle_event(&mut state, key(KeyCode::Backspace), 1), UiAction::Nothing);
    assert_eq!(handle_event(&mut state, key(KeyCode::Char('m')), 1), UiAction::Nothing);
    assert_eq!(state.ui_data.name_in_editing, Some("adm".to_string()));
    assert_eq!(
        handle_event(&mut state, key(KeyCode::Enter), 1),
        UiAction::Send(TUIEvent::SetName("adm".to_string()))
    );
    assert_eq!(state.ui_data.name_in_editing, None);
    assert_eq!(
        state.ui_data.active_component,
        ActiveComponent::NameSet(NameSetAction::Displaying)
    );
    // An empty name is not taken.
    assert_eq!(handle_event(&mut state, key(KeyCode::Enter), 1), UiAction::Nothing);
    for _ in 0..4 {
        assert_eq!(handle_event(&mut state, key(KeyCode::Backspace), 1), UiAction::Nothing);
    }
    assert_eq!(state.ui_data.name_in_editing, Some(String::new()));
    assert_eq!(handle_event(&mut state, key(KeyCode::Enter), 1), UiAction::Nothing);
    assert_eq!(state.ui_data.name_in_editing, Some(String::new()));
    assert_eq!(handle_event(&mut state, key(KeyCode::Esc), 1), UiAction::Nothing);
    assert_eq!(state.ui_data.name_in_editing, None);
}

#[test]
fn chat_list_opens_a_log_and_marks_it_read() {
    let mut state = two_rooms();
    handle_message_content_update(&mut state, 5, 8, 40, text("a")).unwrap();
    handle_message_content_update(&mut state, 5, 8, 41, text("b")).unwrap();
    handle_message_content_update(&mut state, 5, 9, 42, text("c")).unwrap();
    assert_eq!(state.chat_data.chat_rooms[0].pending, 3);
    handle_event(&mut state, key(KeyCode::Enter), 1);
    assert_eq!(state.ui_data.active_component, ActiveComponent::ChatSelect);
    handle_event(&mut state, key(KeyCode::Down), 1);
    assert_eq!(state.ui_data.selected_log, Some(1));
    handle_event(&mut state, key(KeyCode::Down), 1);
    assert_eq!(state.ui_data.selected_log, Some(1));
    assert_eq!(handle_event(&mut state, key(KeyCode::Enter), 1), UiAction::Nothing);
    assert_eq!(state.ui_data.active_component, ActiveComponent::ChatView);
    assert_eq!(state.ui_data.current_log, Some(1));
    assert_eq!(state.ui_data.selected_log, None);
    assert_eq!(state.ui_data.selected_message, Some(1));
    assert!(state.ui_data.go_to_chat_bottom);
    assert_eq!(state.chat_data.chat_rooms[0].chats[1].pending, 0);
    assert_eq!(state.chat_data.chat_rooms[0].pending, 1);
}

#[test]
fn chat_view_keys_scroll_select_and_delete() {
    let mut state = two_rooms();
    handle_message_content_update(&mut state, 5, 9, 40, text("a")).unwrap();
    handle_message_content_update(&mut state, 5, 9, 41, text("b")).unwrap();
    handle_message_status_update(&mut state, 5, 9, 41, MessageStatus::ReceivedByPeer).unwrap();
    state.ui_data.current_room = Some(0);
    state.ui_data.current_log = Some(0);
    go_to_chat_view(&mut state);
    select_last_message(&mut state);
    assert_eq!(state.ui_data.selected_message, Some(1));
    assert_eq!(handle_event(&mut state, key(KeyCode::Up), 1), UiAction::ScrollUp);
    assert_eq!(handle_event(&mut state, key(KeyCode::Down), 1), UiAction::ScrollDown);
    assert_eq!(state.ui_data.selected_message, Some(1));
    assert_eq!(handle_event(&mut state, shift(KeyCode::Up), 1), UiAction::Nothing);
    assert_eq!(state.ui_data.selected_message, Some(0));
    // A message without a status is not deleted.
    assert_eq!(handle_event(&mut state, key(KeyCode::Char('d')), 1), UiAction::Nothing);
    assert_eq!(handle_event(&mut state, shift(KeyCode::Down), 1), UiAction::Nothing);
    assert_eq!(handle_event(&mut state, shift(KeyCode::Down), 1), UiAction::Nothing);
    assert_eq!(state.ui_data.selected_message, Some(1));
    assert_eq!(
        handle_event(&mut state, shift(KeyCode::Char('d')), 1),
        UiAction::Send(TUIEvent::DeleteMessage(5, 9, 41))
    );
    assert_eq!(state.chat_data.chat_rooms[0].chats[0].messages[1].content, None);
    assert_eq!(handle_event(&mut state, ctrl(KeyCode::Down), 1), UiAction::Nothing);
    assert_eq!(state.ui_data.active_component, ActiveComponent::TextEdit);
}

#[test]
fn text_editor_types_and_sends() {
    let mut state = two_rooms();
    state.ui_data.current_room = Some(0);
    state.ui_data.current_log = Some(0);
    go_to_text_area(&mut state);
    // Enter on an empty text adds nothing.
    handle_event(&mut state, key(KeyCode::Enter), 1);
    assert_eq!(state.ui_data.text_message_in_edit, "");
    for c in "hi!".chars() {
        handle_event(&mut state, key(KeyCode::Char(c)), 1);
    }
    handle_event(&mut state, key(KeyCode::Backspace), 1);
    handle_event(&mut state, key(KeyCode::Enter), 1);
    handle_event(&mut state, key(KeyCode::Enter), 1);
    handle_event(&mut state, key(KeyCode::Char(' ')), 1);
    assert_eq!(state.ui_data.text_message_in_edit, "hi\n ");
    assert_eq!(
        handle_event(&mut state, ctrl(KeyCode::Char('s')), 77),
        UiAction::Send(TUIEvent::SendMessage(5, 9, 77, text("hi")))
    );
    assert_eq!(state.ui_data.text_message_in_edit, "");
    assert!(state.ui_data.go_to_chat_bottom);
    let log = &state.chat_data.chat_rooms[0].chats[0];
    assert_eq!(log.messages.len(), 1);
    assert_eq!(log.messages[0].id, 77);
    assert_eq!(log.messages[0].content, Some(text("hi")));
    assert_eq!(log.messages[0].status, Some(MessageStatus::SentToServer));
    assert_eq!(state.ui_data.selected_message, Some(0));
    // Blanks alone are not sent.
    handle_event(&mut state, key(KeyCode::Char(' ')), 1);
    assert_eq!(handle_event(&mut state, ctrl(KeyCode::Char('s')), 78), UiAction::Nothing);
    assert_eq!(state.chat_data.chat_rooms[0].chats[0].messages.len(), 1);
    assert_eq!(state.ui_data.text_message_in_edit, " ");
    assert_eq!(handle_event(&mut state, ctrl(KeyCode::Up), 1), UiAction::Nothing);
    assert_eq!(state.ui_data.active_component, ActiveComponent::ChatView);
}

#[test]
fn sending_and_deleting_need_an_open_chat() {
    let mut state = two_rooms();
    state.ui_data.text_message_in_edit = "hi".to_string();
    assert_eq!(send_current_text_message(&mut state, 1), UiAction::Nothing);
    state.ui_data.current_room = Some(4);
    state.ui_data.current_log = Some(0);
    assert_eq!(send_current_text_message(&mut state, 1), UiAction::Nothing);
    state.ui_data.selected_message = Some(0);
    assert_eq!(delete_selected_message(&mut state), UiAction::Nothing);
    state.ui_data.current_room = Some(0);
    assert_eq!(delete_selected_message(&mut state), UiAction::Nothing);
    assert_eq!(state.ui_data.text_message_in_edit, "hi");
}

#[test]
fn navigation_helpers() {
    let mut state = two_rooms();
    state.ui_data.selected_log = Some(1);
    go_to_room_select(&mut state);
    assert_eq!(state.ui_data.selected_log, None);
    assert_eq!(state.ui_data.selected_room, Some(0));
    state.ui_data.current_room = Some(1);
    go_to_room_select(&mut state);
    assert_eq!(state.ui_data.selected_room, Some(1));
    // Room 6 has no logs: nothing is selected in its chat list.
    go_to_chat_select(&mut state);
    assert_eq!(state.ui_data.active_component, ActiveComponent::ChatSelect);
    assert_eq!(state.ui_data.selected_log, None);
    // No log is open: the chat cannot take the keys.
    go_to_chat_view(&mut state);
    assert_eq!(state.ui_data.active_component, ActiveComponent::ChatSelect);
    let mut empty = TUIState::new();
    go_to_room_select(&mut empty);
    assert_eq!(empty.ui_data.selected_room, None);
}

#[test]
fn read_log_lowers_the_room_count() {
    let mut state = two_rooms();
    handle_message_content_update(&mut state, 5, 9, 40, text("a")).unwrap();
    handle_message_content_update(&mut state, 5, 8, 41, text("b")).unwrap();
    read_log(&mut state, 0, 0);
    assert_eq!(state.chat_data.chat_rooms[0].pending, 1);
    assert_eq!(state.chat_data.chat_rooms[0].chats[0].pending, 0);
    state.chat_data.chat_rooms[0].pending = 0;
    read_log(&mut state, 0, 1);
    assert_eq!(state.chat_data.chat_rooms[0].pending, 0);
    assert_eq!(state.chat_data.chat_rooms[0].chats[1].pending, 0);
    read_log(&mut state, 0, 5);
    read_log(&mut state, 9, 0);
    assert_eq!(state.chat_data.chat_rooms.len(), 2);
}

#[test]
fn window_must_hold_the_three_columns() {
    assert_eq!((MIN_WIDTH, MIN_HEIGHT), (102, 27));
    assert!(fits_window(102, 27));
    assert!(fits_window(200, 60));
    assert!(!fits_window(101, 27));
    assert!(!fits_window(102, 26));
}

#[test]
fn message_box_is_as_wide_as_its_text_up_to_four_fifths() {
    let message = |content: Option<MessageContent>| ChatMessage {
        id: 1,
        content,
        timestamp: 0,
        status: None,
        reaction: None,
        edited: false,
        deleted: false,
    };
    assert_eq!(get_msg_width(&message(Some(text("hello"))), 100), 7);
    // Wide characters take two columns each.
    assert_eq!(get_msg_width(&message(Some(text("日本"))), 100), 6);
    assert_eq!(get_msg_width(&message(Some(text(""))), 100), 2);
    let long = "x".repeat(200);
    assert_eq!(get_msg_width(&message(Some(text(&long))), 100), 80);
    assert_eq!(get_msg_width(&message(Some(text(&"x".repeat(78)))), 100), 80);
    assert_eq!(get_msg_width(&message(Some(text(&"x".repeat(77)))), 100), 79);
    assert_eq!(get_msg_width(&message(None), 100), 21);
    let drawing = MessageContent::Drawing(Drawing { shapes: Vec::new() });
    assert_eq!(get_msg_width(&message(Some(drawing)), 50), 40);
    assert_eq!(get_msg_width(&message(Some(text(&long))), u16::MAX), 202);
    let huge = "x".repeat(60_000);
    assert_eq!(get_msg_width(&message(Some(text(&huge))), u16::MAX), 52428);
}

#[test]
fn scrolling_to_the_end_of_chat_and_editor() {
    assert_eq!(bottom_offset(true, 10, 25), Some(15));
    assert_eq!(bottom_offset(true, 10, 10), None);
    assert_eq!(bottom_offset(true, 10, 3), None);
    assert_eq!(bottom_offset(false, 10, 25), None);
    assert_eq!(editor_scroll(3, false), 0);
    assert_eq!(editor_scroll(7, false), 0);
    assert_eq!(editor_scroll(8, false), 1);
    assert_eq!(editor_scroll(12, false), 5);
    assert_eq!(editor_scroll(12, true), 0);
    assert_eq!(editor_scroll(1, false), 0);
}
