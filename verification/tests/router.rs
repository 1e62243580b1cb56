use client::channel::{LeafCommand, LeafEvent};
use client::frontend::{MessageStatus, TUICommand};
use client::message::{Message, ServerType};
use client::net::{find_routing_error, handle_command, handle_routing_error, new_ack, new_nack};
use client::network::{Handed, Network};
use client::pack_in::{FragmentReceipt, Inbound};
use client::packet::{
    Ack, FloodRequest, FloodResponse, Fragment, Nack, NackType, NodeType, Packet, PacketType,
    Routing,
};
use crossbeam_channel::{unbounded, Receiver, Sender};
use std::collections::HashMap;

fn query_bytes() -> Vec<u8> {
    b"\"ReqServerType\"".to_vec()
}

fn client_one() -> (Network, Receiver<LeafEvent>) {
    let (controller_send, controller_recv) = unbounded();
    (Network::new(1, HashMap::new(), controller_send, query_bytes()), controller_recv)
}

fn link(net: &mut Network, n: u8) -> Receiver<Packet> {
    let (tx, rx): (Sender<Packet>, Receiver<Packet>) = unbounded();
    let out = handle_command(net, LeafCommand::AddSender(n, tx));
    assert_eq!(out, (false, None));
    rx
}

fn server_trace() -> Vec<(u8, NodeType)> {
    vec![(1, NodeType::Client), (2, NodeType::Drone), (5, NodeType::Server)]
}

fn flood_response(flood_id: u64, trace: Vec<(u8, NodeType)>) -> Packet {
    let hops: Vec<u8> = trace.iter().rev().map(|e| e.0).collect();
    let last = hops.len() - 1;
    Packet::new_flood_response(
        Routing::new(hops, last),
        0,
        FloodResponse { flood_id, path_trace: trace },
    )
}

fn expect_done(res: Inbound) -> Vec<TUICommand> {
    match res {
        Inbound::Done(updates) => updates,
        Inbound::Fragment(_) => panic!("a fragment receipt where none is due"),
    }
}

fn expect_receipt(res: Inbound) -> FragmentReceipt {
    match res {
        Inbound::Fragment(receipt) => receipt,
        Inbound::Done(_) => panic!("no fragment receipt"),
    }
}

#[test]
fn new_client_knows_only_itself() {
    let (net, _ctrl) = client_one();
    assert_eq!(net.get_id(), 1);
    assert!(net.is_running());
    assert!(net.knows_node(1));
    assert!(!net.knows_node(2));
    assert_eq!(net.current_session(), 0);
    assert_eq!(net.current_flood_epoch(), 0);
    assert!(!net.knows_leaf(5));
    assert_eq!(net.queued_for(5), 0);
}

#[test]
fn add_sender_adds_both_edges() {
    let (mut net, _ctrl) = client_one();
    let _rx = link(&mut net, 2);
    assert!(net.has_neighbour(2));
    assert!(net.knows_node(2));
    assert!(net.knows_edge(1, 2));
    assert!(net.knows_edge(2, 1));
}

#[test]
fn add_then_remove_sender_restores_topology() {
    let (mut net, _ctrl) = client_one();
    let _rx = link(&mut net, 2);
    let out = handle_command(&mut net, LeafCommand::RemoveSender(2));
    assert_eq!(out, (false, None));
    assert!(!net.has_neighbour(2));
    assert!(!net.knows_edge(1, 2));
    assert!(!net.knows_edge(2, 1));
    assert!(net.knows_node(1));
    assert_eq!(net.current_session(), 0);
}

#[test]
fn ack_driven_delivery() {
    let (mut net, ctrl) = client_one();
    let ch2 = link(&mut net, 2);
    let updates = expect_done(net.receive(flood_response(0, server_trace())));
    assert_eq!(updates, vec![TUICommand::UpdateChatRoom(5, None, Some(true))]);
    assert_eq!(net.route_to(5), Some(vec![1, 2, 5]));
    assert_eq!(net.leaf_type(5), Some(None));
    assert!(net.knows_edge(1, 2));
    assert!(net.knows_edge(2, 5));
    assert!(!net.knows_edge(5, 2));

    // The request for the server's kind left along the new route.
    let sent = ch2.try_recv().expect("a packet for the neighbour");
    assert_eq!(sent.routing_header, Routing::new(vec![1, 2, 5], 1));
    assert_eq!(sent.session_id, 0);
    match &sent.pack_type {
        PacketType::MsgFragment(f) => {
            assert_eq!(f.fragment_index, 0);
            assert_eq!(f.total_n_fragments, 1);
            assert_eq!(f.data, query_bytes());
        }
        other => panic!("not a fragment: {:?}", other),
    }
    assert!(ch2.try_recv().is_err());
    assert_eq!(ctrl.try_recv(), Ok(LeafEvent::PacketSend(sent)));
    assert!(ctrl.try_recv().is_err());
    assert_eq!(net.in_flight(0), 1);
    assert!(net.awaits_ack(0));
    assert_eq!(net.queued_for(5), 0);
    assert_eq!(net.current_session(), 1);

    // No chat peer was set: the acknowledgement ends the session silently.
    let ack = Packet::new_ack(Routing::new(vec![5, 2, 1], 2), 0, 0);
    let updates = expect_done(net.receive(ack));
    assert_eq!(updates, Vec::<TUICommand>::new());
    assert_eq!(net.in_flight(0), 0);
    assert!(!net.awaits_ack(0));
}

#[test]
fn ack_of_a_relayed_message_tells_the_front_end() {
    let (mut net, _ctrl) = client_one();
    let ch2 = link(&mut net, 2);
    let _ = net.receive(flood_response(0, server_trace()));
    let _ = ch2.try_recv();
    let message = Message::ReqChatSend { to: 9, chat_msg: vec![1, 2, 3] };
    assert!(net.send_message(message, &vec![7u8; 130], 5, Some(77)));
    assert_eq!(net.in_flight(77), 2);
    let first = ch2.try_recv().unwrap();
    let second = ch2.try_recv().unwrap();
    assert_eq!(first.session_id, 77);
    match (&first.pack_type, &second.pack_type) {
        (PacketType::MsgFragment(a), PacketType::MsgFragment(b)) => {
            assert_eq!((a.fragment_index, a.total_n_fragments, a.data.len()), (0, 2, 128));
            assert_eq!((b.fragment_index, b.total_n_fragments, b.data.len()), (1, 2, 2));
        }
        _ => panic!("not two fragments"),
    }
    // Acks may come in any order.
    let updates = expect_done(net.receive(Packet::new_ack(Routing::new(vec![5, 2, 1], 2), 77, 1)));
    assert_eq!(updates, Vec::<TUICommand>::new());
    assert_eq!(net.in_flight(77), 1);
    assert!(net.awaits_ack(77));
    let updates = expect_done(net.receive(Packet::new_ack(Routing::new(vec![5, 2, 1], 2), 77, 0)));
    assert_eq!(
        updates,
        vec![TUICommand::UpdateMessageStatus(5, 9, 77, MessageStatus::ReceivedByServer)]
    );
    assert_eq!(net.in_flight(77), 0);
    assert!(!net.awaits_ack(77));
}

#[test]
fn ack_of_a_registration_tells_the_front_end() {
    let (mut net, _ctrl) = client_one();
    let ch2 = link(&mut net, 2);
    let _ = net.receive(flood_response(0, server_trace()));
    let _ = ch2.try_recv();
    assert!(net.send_message(Message::ReqChatRegistration, &vec![1u8, 2, 3], 5, None));
    let sent = ch2.try_recv().unwrap();
    assert_eq!(sent.session_id, 1);
    let updates = expect_done(net.receive(Packet::new_ack(Routing::new(vec![5, 2, 1], 2), 1, 0)));
    assert_eq!(updates, vec![TUICommand::UpdateChatRoom(5, Some(true), Some(true))]);
}

#[test]
fn routing_error_recovery() {
    let (mut net, _ctrl) = client_one();
    let ch2 = link(&mut net, 2);
    let _ = net.receive(flood_response(0, server_trace()));
    let _query = ch2.try_recv().unwrap();
    assert_eq!(net.route_to(5), Some(vec![1, 2, 5]));
    assert_eq!(net.in_flight(0), 1);
    let session_before = net.current_session();

    let nack = Packet::new_nack(
        Routing::new(vec![2, 1], 1),
        0,
        Nack { fragment_index: 0, nack_type: NackType::ErrorInRouting(2) },
    );
    let updates = expect_done(net.receive(nack));
    assert_eq!(updates, Vec::<TUICommand>::new());
    assert!(!net.knows_node(2));
    assert!(!net.knows_edge(1, 2));
    assert!(!net.knows_edge(2, 5));
    assert!(net.knows_leaf(5));
    assert_eq!(net.route_to(5), None);
    // The lost route starts one flood, the retry another.
    assert_eq!(net.current_session(), session_before + 2);
    assert_eq!(net.current_flood_epoch(), session_before + 1);
    // The fragment waits for the server again, and is still on record.
    assert_eq!(net.queued_for(5), 1);
    assert_eq!(net.in_flight(0), 1);
    // Both floods reached the neighbour, whose link still stands.
    let first = ch2.try_recv().unwrap();
    let second = ch2.try_recv().unwrap();
    match (&first.pack_type, &second.pack_type) {
        (PacketType::FloodRequest(a), PacketType::FloodRequest(b)) => {
            assert_eq!(a.flood_id, session_before);
            assert_eq!(b.flood_id, session_before + 1);
            assert_eq!(a.path_trace, vec![(1, NodeType::Client)]);
            assert_eq!(a.initiator_id, 1);
        }
        _ => panic!("not two flood requests"),
    }
    assert!(first.routing_header.hops.is_empty());
}

#[test]
fn nack_for_an_acked_fragment_changes_nothing() {
    let (mut net, _ctrl) = client_one();
    let ch2 = link(&mut net, 2);
    let _ = net.receive(flood_response(0, server_trace()));
    let _ = ch2.try_recv();
    let _ = net.receive(Packet::new_ack(Routing::new(vec![5, 2, 1], 2), 0, 0));
    let session = net.current_session();
    let epoch = net.current_flood_epoch();
    let nack = Packet::new_nack(
        Routing::new(vec![2, 1], 1),
        0,
        Nack { fragment_index: 0, nack_type: NackType::Dropped },
    );
    let updates = expect_done(net.receive(nack));
    assert_eq!(updates, Vec::<TUICommand>::new());
    assert_eq!(net.current_session(), session);
    assert_eq!(net.current_flood_epoch(), epoch);
    assert_eq!(net.queued_for(5), 0);
    assert_eq!(net.in_flight(0), 0);
    assert_eq!(net.route_to(5), Some(vec![1, 2, 5]));
    assert!(ch2.try_recv().is_err());
}

#[test]
fn dropped_fragment_is_sent_again() {
    let (mut net, _ctrl) = client_one();
    let ch2 = link(&mut net, 2);
    let _ = net.receive(flood_response(0, server_trace()));
    let query = ch2.try_recv().unwrap();
    let nack = Packet::new_nack(
        Routing::new(vec![2, 1], 1),
        0,
        Nack { fragment_index: 0, nack_type: NackType::Dropped },
    );
    let _ = net.receive(nack);
    // The route still stands: the copy leaves at once, then the flood.
    let again = ch2.try_recv().unwrap();
    assert_eq!(again, query);
    let flood = ch2.try_recv().unwrap();
    assert!(matches!(flood.pack_type, PacketType::FloodRequest(_)));
    assert_eq!(net.queued_for(5), 0);
    // One fragment identity, one entry in flight.
    assert_eq!(net.in_flight(0), 1);
    let _ = net.receive(Packet::new_ack(Routing::new(vec![5, 2, 1], 2), 0, 0));
    assert_eq!(net.in_flight(0), 0);
}

#[test]
fn reassembly_of_a_client_list() {
    let (mut net, ctrl) = client_one();
    let ch2 = link(&mut net, 2);
    let payload: Vec<u8> = (0..200u16).map(|b| (b % 251) as u8).collect();
    let frags = client::message::into_fragments(&payload);
    assert_eq!(frags.len(), 2);
    let route = Routing::new(vec![5, 2, 1], 2);

    let second = Packet::new_fragment(route.clone(), 7, frags[1].clone());
    let receipt = expect_receipt(net.receive(second));
    assert_eq!(receipt.server, Some(5));
    assert_eq!(receipt.payload, None);
    assert_eq!(receipt.ack, Packet::new_ack(Routing::new(vec![1, 2, 5], 1), 7, 1));
    assert!(net.is_reassembling(7));
    net.send_reply(receipt.ack);

    let first = Packet::new_fragment(route.clone(), 7, frags[0].clone());
    let receipt = expect_receipt(net.receive(first));
    assert_eq!(receipt.payload, Some(payload));
    assert!(!net.is_reassembling(7));
    let updates = net.deliver_message(5, Message::RespClientList(vec![11, 12]), None);
    assert_eq!(
        updates,
        vec![TUICommand::UpdatePeerName(5, 11, None), TUICommand::UpdatePeerName(5, 12, None)]
    );
    net.send_reply(receipt.ack);

    // Two acks went to the hop that delivered the fragments.
    let a = ch2.try_recv().unwrap();
    let b = ch2.try_recv().unwrap();
    assert_eq!(a, Packet::new_ack(Routing::new(vec![1, 2, 5], 1), 7, 1));
    assert_eq!(b, Packet::new_ack(Routing::new(vec![1, 2, 5], 1), 7, 0));
    assert_eq!(ctrl.try_recv(), Ok(LeafEvent::PacketSend(a)));
    assert_eq!(ctrl.try_recv(), Ok(LeafEvent::PacketSend(b)));
}

#[test]
fn unexpected_recipient_is_refused() {
    let (mut net, _ctrl) = client_one();
    let ch2 = link(&mut net, 2);
    let fragment = Fragment { fragment_index: 3, total_n_fragments: 4, data: vec![9, 9] };
    // The hop index points at node 4.
    let packet = Packet::new_fragment(Routing::new(vec![5, 2, 4], 2), 7, fragment);
    assert_eq!(find_routing_error(1, &packet), Some(NackType::UnexpectedRecipient(1)));
    let updates = expect_done(net.receive(packet));
    assert_eq!(updates, Vec::<TUICommand>::new());
    assert!(!net.is_reassembling(7));
    let nack = ch2.try_recv().unwrap();
    assert_eq!(nack.routing_header, Routing::new(vec![1, 2, 5], 1));
    assert_eq!(nack.session_id, 7);
    assert_eq!(
        nack.pack_type,
        PacketType::Nack(Nack { fragment_index: 3, nack_type: NackType::UnexpectedRecipient(1) })
    );
}

#[test]
fn packet_with_a_next_hop_is_refused() {
    let fragment = Fragment { fragment_index: 0, total_n_fragments: 1, data: vec![] };
    let packet = Packet::new_fragment(Routing::new(vec![5, 1, 3], 1), 7, fragment);
    assert_eq!(find_routing_error(1, &packet), Some(NackType::ErrorInRouting(3)));
    let good = Packet::new_ack(Routing::new(vec![5, 1], 1), 7, 0);
    assert_eq!(find_routing_error(1, &good), None);
    let flood = Packet::new_flood_request(
        Routing::empty_route(),
        0,
        FloodRequest::initialize(4, 9, NodeType::Client),
    );
    assert_eq!(find_routing_error(1, &flood), None);
}

#[test]
fn misrouted_ack_goes_to_the_controller() {
    let (mut net, ctrl) = client_one();
    let ack = Packet::new_ack(Routing::new(vec![5, 2, 4], 2), 7, 0);
    assert_eq!(
        handle_routing_error(&mut net, ack.clone(), NackType::UnexpectedRecipient(1)),
        Handed::Controller(true)
    );
    assert_eq!(ctrl.try_recv(), Ok(LeafEvent::ControllerShortcut(ack.clone())));
    drop(ctrl);
    assert_eq!(
        handle_routing_error(&mut net, ack, NackType::UnexpectedRecipient(1)),
        Handed::Controller(false)
    );
}

#[test]
fn flood_epoch_filter() {
    let (mut net, _ctrl) = client_one();
    let _ch2 = link(&mut net, 2);
    // Three floods bring the epoch to 2, the counter to 3.
    net.initiate_flood();
    net.initiate_flood();
    net.initiate_flood();
    net.initiate_flood();
    assert_eq!(net.current_flood_epoch(), 3);
    let updates = expect_done(net.receive(flood_response(2, server_trace())));
    assert_eq!(updates, Vec::<TUICommand>::new());
    assert!(!net.knows_leaf(5));
    assert_eq!(net.leaf_type(5), None);
    assert!(!net.knows_node(5));
    assert!(!net.knows_edge(2, 5));
    assert_eq!(net.current_session(), 4);
}

#[test]
fn flood_response_from_elsewhere_is_rejected() {
    let (mut net, _ctrl) = client_one();
    let _ch2 = link(&mut net, 2);
    let trace = vec![(3, NodeType::Client), (2, NodeType::Drone), (5, NodeType::Server)];
    let packet = Packet::new_flood_response(
        Routing::new(vec![5, 2, 1], 2),
        0,
        FloodResponse { flood_id: 0, path_trace: trace },
    );
    let updates = expect_done(net.receive(packet));
    assert_eq!(updates, Vec::<TUICommand>::new());
    assert!(!net.knows_leaf(5));
    assert!(!net.knows_node(5));
    assert!(!net.knows_node(3));
}

#[test]
fn drone_trace_is_taken_in_both_ways() {
    let (mut net, _ctrl) = client_one();
    let _ch2 = link(&mut net, 2);
    let trace = vec![(1, NodeType::Client), (2, NodeType::Drone), (3, NodeType::Drone), (4, NodeType::Drone)];
    let updates = expect_done(net.receive(flood_response(0, trace)));
    assert_eq!(updates, Vec::<TUICommand>::new());
    assert!(net.knows_edge(2, 3));
    assert!(net.knows_edge(3, 2));
    assert!(net.knows_edge(3, 4));
    assert!(net.knows_edge(4, 3));
    assert!(!net.knows_leaf(4));
}

#[test]
fn client_trace_is_passed_over() {
    let (mut net, _ctrl) = client_one();
    let _ch2 = link(&mut net, 2);
    let trace = vec![(1, NodeType::Client), (2, NodeType::Drone), (8, NodeType::Client)];
    let updates = expect_done(net.receive(flood_response(0, trace)));
    assert_eq!(updates, Vec::<TUICommand>::new());
    assert!(!net.knows_node(8));
    assert!(!net.knows_leaf(8));
}

#[test]
fn kill_stops_the_client() {
    let (mut net, _ctrl) = client_one();
    let ch2 = link(&mut net, 2);
    let out = handle_command(&mut net, LeafCommand::Kill);
    assert_eq!(out, (true, Some(TUICommand::Kill)));
    assert!(!net.is_running());
    // Nothing is taken in and nothing leaves any more.
    let updates = expect_done(net.receive(flood_response(0, server_trace())));
    assert_eq!(updates, Vec::<TUICommand>::new());
    assert!(!net.knows_leaf(5));
    net.initiate_flood();
    assert_eq!(net.current_session(), 0);
    assert!(!net.send_message(Message::ReqServerType, &query_bytes(), 5, None));
    assert!(ch2.try_recv().is_err());
    assert_eq!(handle_command(&mut net, LeafCommand::RemoveSender(2)), (true, None));
    assert!(net.has_neighbour(2));
}

#[test]
fn message_without_route_waits_and_floods() {
    let (mut net, _ctrl) = client_one();
    let ch2 = link(&mut net, 2);
    assert!(net.send_message(Message::ReqChatClients, &vec![1u8; 300], 5, None));
    assert_eq!(net.queued_for(5), 3);
    assert_eq!(net.in_flight(0), 0);
    assert!(net.awaits_ack(0));
    assert_eq!(net.current_session(), 2);
    assert_eq!(net.current_flood_epoch(), 1);
    let flood = ch2.try_recv().unwrap();
    match flood.pack_type {
        PacketType::FloodRequest(req) => assert_eq!(req.flood_id, 1),
        _ => panic!("not a flood request"),
    }
    // The answer brings the route; the backlog leaves in index order.
    let _ = net.receive(flood_response(1, server_trace()));
    assert_eq!(net.queued_for(5), 0);
    assert_eq!(net.in_flight(0), 3);
    for want in 0..3u64 {
        let p = ch2.try_recv().unwrap();
        assert_eq!(p.session_id, 0);
        assert_eq!(p.routing_header, Routing::new(vec![1, 2, 5], 1));
        match p.pack_type {
            PacketType::MsgFragment(f) => assert_eq!(f.fragment_index, want),
            _ => panic!("not a fragment"),
        }
    }
}

#[test]
fn closed_channel_requeues_the_fragment_once() {
    let (mut net, ctrl) = client_one();
    let ch2 = link(&mut net, 2);
    let _ = net.receive(flood_response(0, server_trace()));
    let _ = ch2.try_recv();
    let _ = ctrl.try_recv();
    drop(ch2);
    assert!(net.send_message(Message::ReqChatClients, &vec![1u8, 2], 5, None));
    assert_eq!(net.queued_for(5), 1);
    assert_eq!(net.in_flight(1), 0);
    assert!(ctrl.try_recv().is_err());
}

#[test]
fn send_packet_books_by_outcome() {
    let (mut net, ctrl) = client_one();
    let (tx, rx) = unbounded();
    let fragment = Fragment { fragment_index: 4, total_n_fragments: 9, data: vec![1] };
    let pack = Packet::new_fragment(Routing::new(vec![1, 2, 5], 1), 3, fragment);
    assert!(net.send_packet(pack.clone(), &tx, Some(8)));
    assert_eq!(rx.try_recv(), Ok(pack.clone()));
    assert_eq!(ctrl.try_recv(), Ok(LeafEvent::PacketSend(pack.clone())));
    assert_eq!(net.in_flight(3), 1);
    drop(rx);
    assert!(!net.send_packet(pack.clone(), &tx, Some(8)));
    assert_eq!(net.queued_for(5), 1);
    assert_eq!(net.in_flight(3), 1);
    assert!(ctrl.try_recv().is_err());
    // A flood request that is not taken is dropped.
    let flood = Packet::new_flood_request(
        Routing::empty_route(),
        0,
        FloodRequest::initialize(0, 1, NodeType::Client),
    );
    assert!(!net.send_packet(flood, &tx, None));
    assert!(ctrl.try_recv().is_err());
    // An ack that is not taken goes to the controller.
    let ack = Packet::new_ack(Routing::new(vec![1, 2, 5], 1), 3, 0);
    assert!(!net.send_packet(ack.clone(), &tx, None));
    assert_eq!(ctrl.try_recv(), Ok(LeafEvent::ControllerShortcut(ack)));
}

#[test]
fn record_dispatch_names_one_event_per_sent_packet() {
    let (mut net, _ctrl) = client_one();
    let fragment = Fragment { fragment_index: 0, total_n_fragments: 1, data: vec![] };
    let pack = Packet::new_fragment(Routing::new(vec![1, 2, 5], 1), 3, fragment);
    assert_eq!(net.record_dispatch(pack.clone(), true, None), Some(LeafEvent::PacketSend(pack.clone())));
    assert_eq!(net.record_dispatch(pack.clone(), false, None), None);
    let nack = Packet::new_nack(
        Routing::new(vec![1, 2], 1),
        3,
        Nack { fragment_index: 0, nack_type: NackType::Dropped },
    );
    assert_eq!(
        net.record_dispatch(nack.clone(), false, None),
        Some(LeafEvent::ControllerShortcut(nack))
    );
}

#[test]
fn flood_request_is_answered() {
    let (mut net, _ctrl) = client_one();
    let ch2 = link(&mut net, 2);
    let request = FloodRequest {
        flood_id: 40,
        initiator_id: 6,
        path_trace: vec![(6, NodeType::Client), (2, NodeType::Drone)],
    };
    let packet = Packet::new_flood_request(Routing::empty_route(), 12, request);
    let updates = expect_done(net.receive(packet));
    assert_eq!(updates, Vec::<TUICommand>::new());
    let answer = ch2.try_recv().unwrap();
    assert_eq!(answer.routing_header, Routing::new(vec![1, 2, 6], 1));
    assert_eq!(answer.session_id, 12);
    assert_eq!(
        answer.pack_type,
        PacketType::FloodResponse(FloodResponse {
            flood_id: 40,
            path_trace: vec![(6, NodeType::Client), (2, NodeType::Drone), (1, NodeType::Client)],
        })
    );
}

#[test]
fn reply_without_neighbour_goes_to_the_controller() {
    let (mut net, ctrl) = client_one();
    let ack = new_ack(Routing::new(vec![5, 2, 1], 2), 7, 0);
    assert_eq!(net.send_reply(ack.clone()), Handed::Controller(true));
    assert_eq!(ctrl.try_recv(), Ok(LeafEvent::ControllerShortcut(ack.clone())));
    // With a link to the hop it leaves through, the reply goes there.
    let ch2 = link(&mut net, 2);
    assert_eq!(net.send_reply(ack.clone()), Handed::Neighbour(2, true));
    assert_eq!(ch2.try_recv(), Ok(ack.clone()));
    drop(ch2);
    assert_eq!(net.send_reply(ack.clone()), Handed::Neighbour(2, false));
    // A reply without a second hop has no neighbour to leave through.
    let short = Packet::new_ack(Routing::new(vec![1], 0), 7, 0);
    assert_eq!(net.send_reply(short), Handed::Controller(true));
    // A flood request that nobody takes is dropped.
    let flood = Packet::new_flood_request(
        Routing::empty_route(),
        0,
        FloodRequest::initialize(0, 1, NodeType::Client),
    );
    assert_eq!(net.send_reply(flood), Handed::Nobody);
    handle_command(&mut net, LeafCommand::Kill);
    assert_eq!(net.send_reply(ack), Handed::Nobody);
}

#[test]
fn chat_server_answer_drains_its_queue() {
    let (mut net, _ctrl) = client_one();
    let ch2 = link(&mut net, 2);
    let _ = net.receive(flood_response(0, server_trace()));
    let _ = ch2.try_recv();
    let updates = net.deliver_message(5, Message::RespServerType(ServerType::Chat), None);
    assert_eq!(updates, Vec::<TUICommand>::new());
    assert_eq!(net.leaf_type(5), Some(Some(ServerType::Chat)));
    let updates = net.deliver_message(5, Message::RespServerType(ServerType::Media), None);
    assert_eq!(updates, Vec::<TUICommand>::new());
    assert_eq!(net.leaf_type(5), Some(Some(ServerType::Media)));
}

#[test]
fn chat_delivery_is_filtered() {
    let (mut net, _ctrl) = client_one();
    let message = Message::RespChatFrom { from: 9, chat_msg: vec![] };
    let shown = TUICommand::UpdatePeerLastSeen(5, 9);
    assert_eq!(net.deliver_message(5, message.clone(), Some(shown.clone())), vec![shown]);
    let hidden = TUICommand::UpdateChatRoom(5, Some(true), None);
    assert_eq!(net.deliver_message(5, message.clone(), Some(hidden)), Vec::<TUICommand>::new());
    assert_eq!(net.deliver_message(5, message, None), Vec::<TUICommand>::new());
    assert_eq!(
        net.deliver_message(5, Message::ErrNotExistentClient, Some(TUICommand::Kill)),
        Vec::<TUICommand>::new()
    );
}

#[test]
fn nack_route_goes_back_over_the_covered_hops() {
    let nack = new_nack(1, Routing::new(vec![5, 3, 2, 4], 3), 7, 2, NackType::UnexpectedRecipient(1));
    assert_eq!(nack.routing_header, Routing::new(vec![1, 2, 3, 5], 1));
    let short = new_nack(1, Routing::new(vec![5], 9), 7, 2, NackType::Dropped);
    assert_eq!(short.routing_header, Routing::new(vec![1, 5], 1));
    let none = new_nack(1, Routing::empty_route(), 7, 2, NackType::Dropped);
    assert_eq!(none.routing_header, Routing::new(vec![1], 1));
}

#[test]
fn routing_error_names_this_node_and_it_stays() {
    let (mut net, _ctrl) = client_one();
    let _ch2 = link(&mut net, 2);
    let nack = Packet::new_nack(
        Routing::new(vec![2, 1], 1),
        0,
        Nack { fragment_index: 0, nack_type: NackType::ErrorInRouting(1) },
    );
    let _ = net.receive(nack);
    assert!(net.knows_node(1));
    assert!(!net.knows_edge(1, 2));
    assert!(!net.knows_edge(2, 1));
}

#[test]
fn ack_packet_type_round_trip() {
    let ack = new_ack(Routing::new(vec![5, 2, 1], 2), 7, 4);
    assert_eq!(ack.pack_type, PacketType::Ack(Ack { fragment_index: 4 }));
    assert_eq!(ack.routing_header, Routing::new(vec![1, 2, 5], 1));
}

#[test]
fn add_path_needs_a_trace_from_this_node() {
    let (mut net, _ctrl) = client_one();
    assert_eq!(
        net.add_path(&vec![3, 2, 5], false),
        Err("Path does not start with this node".to_string())
    );
    assert_eq!(
        net.add_path(&vec![], true),
        Err("Path does not start with this node".to_string())
    );
    assert!(!net.knows_node(3));
    assert_eq!(net.add_path(&vec![1], false), Ok(()));
    assert!(!net.knows_edge(1, 1));
    assert_eq!(net.add_path(&vec![1, 2, 3, 5], true), Ok(()));
    // The first step leads away from this node only, the last to the leaf only.
    assert!(net.knows_edge(1, 2) && !net.knows_edge(2, 1));
    assert!(net.knows_edge(2, 3) && net.knows_edge(3, 2));
    assert!(net.knows_edge(3, 5) && !net.knows_edge(5, 3));
    assert_eq!(net.add_path(&vec![1, 2, 3, 5], false), Ok(()));
    assert!(net.knows_edge(5, 3));
    assert!(!net.knows_edge(2, 1));
    // A trace of one step.
    assert_eq!(net.add_path(&vec![1, 7], true), Ok(()));
    assert!(net.knows_edge(1, 7) && !net.knows_edge(7, 1));
}

#[test]
fn sweeps_follow_the_topology() {
    let (mut net, _ctrl) = client_one();
    let ch2 = link(&mut net, 2);
    let ch3 = link(&mut net, 3);
    let _ = net.receive(flood_response(0, server_trace()));
    let _ = ch2.try_recv();
    assert_eq!(net.route_to(5), Some(vec![1, 2, 5]));
    // A second way to the server, one hop longer.
    assert_eq!(net.add_path(&vec![1, 3, 4, 5], true), Ok(()));
    net.update_unreachable_paths();
    assert_eq!(net.route_to(5), Some(vec![1, 2, 5]));
    // The link to 2 goes: the longer way is taken, and no flood is needed.
    let session = net.current_session();
    assert_eq!(handle_command(&mut net, LeafCommand::RemoveSender(2)), (false, None));
    assert_eq!(net.route_to(5), Some(vec![1, 3, 4, 5]));
    assert_eq!(net.current_session(), session);
    // The link to 3 goes too: the server is lost, and a flood starts.
    assert_eq!(handle_command(&mut net, LeafCommand::RemoveSender(3)), (false, None));
    assert_eq!(net.route_to(5), None);
    assert!(net.knows_leaf(5));
    assert_eq!(net.current_session(), session + 1);
    assert_eq!(net.current_flood_epoch(), session);
    // No neighbour is left to hear it.
    assert!(ch2.try_recv().is_err());
    assert!(ch3.try_recv().is_err());
    // The link to 3 comes back, and the route with it.
    let ch3 = link(&mut net, 3);
    assert_eq!(net.route_to(5), Some(vec![1, 3, 4, 5]));
    assert!(ch3.try_recv().is_err());
}

#[test]
fn blacklist_and_retry_by_hand() {
    let (mut net, _ctrl) = client_one();
    let ch2 = link(&mut net, 2);
    let _ = net.receive(flood_response(0, server_trace()));
    let _ = ch2.try_recv();
    // Nothing of session 9 is in flight: the retry does nothing.
    let session = net.current_session();
    net.retry(9, 0);
    assert_eq!(net.current_session(), session);
    assert_eq!(net.queued_for(5), 0);
    net.blacklist(7);
    assert_eq!(net.route_to(5), Some(vec![1, 2, 5]));
    assert_eq!(net.current_session(), session);
    net.blacklist(5);
    assert!(!net.knows_node(5));
    assert_eq!(net.route_to(5), None);
    assert_eq!(net.current_session(), session + 1);
}

#[test]
fn session_ids_are_not_handed_out_twice() {
    let (mut net, _ctrl) = client_one();
    let ch2 = link(&mut net, 2);
    net.initiate_flood();
    assert!(net.send_message(Message::ReqChatClients, &vec![1u8], 5, None));
    net.initiate_flood();
    let mut floods = Vec::new();
    while let Ok(p) = ch2.try_recv() {
        if let PacketType::FloodRequest(req) = p.pack_type {
            floods.push(req.flood_id);
        }
    }
    // The message took id 1; its own flood took 2.
    assert_eq!(floods, vec![0, 2, 3]);
    assert!(net.awaits_ack(1));
    assert_eq!(net.current_session(), 4);
    assert_eq!(net.current_flood_epoch(), 3);
}

#[test]
fn controller_shortcut_reaches_the_controller() {
    let (mut net, ctrl) = client_one();
    let ack = Packet::new_ack(Routing::new(vec![1, 2], 1), 3, 0);
    assert!(net.controller_shortcut(ack.clone()));
    assert_eq!(ctrl.try_recv(), Ok(LeafEvent::ControllerShortcut(ack.clone())));
    handle_command(&mut net, LeafCommand::Kill);
    assert!(!net.controller_shortcut(ack));
    assert!(ctrl.try_recv().is_err());
}

#[test]
fn offer_needs_a_neighbour() {
    let (mut net, _ctrl) = client_one();
    let ch2 = link(&mut net, 2);
    let ack = Packet::new_ack(Routing::new(vec![1, 2], 1), 3, 0);
    assert_eq!(net.offer(9, ack.clone(), None), None);
    assert_eq!(net.offer(2, ack.clone(), None), Some(true));
    assert_eq!(ch2.try_recv(), Ok(ack.clone()));
    drop(ch2);
    assert_eq!(net.offer(2, ack, None), Some(false));
}

#[test]
fn queue_without_first_hop_neighbour_is_dropped() {
    let (mut net, _ctrl) = client_one();
    let _ch2 = link(&mut net, 2);
    // The way to the server leads through 3, which is no neighbour.
    assert_eq!(net.add_path(&vec![1, 3, 5], true), Ok(()));
    let trace = vec![(1, NodeType::Client), (3, NodeType::Drone), (5, NodeType::Server)];
    let _ = net.receive(flood_response(0, trace));
    assert_eq!(net.route_to(5), Some(vec![1, 3, 5]));
    assert_eq!(net.queued_for(5), 0);
    assert_eq!(net.in_flight(0), 0);
    assert!(net.awaits_ack(0));
}

#[test]
fn controller_shortcut_tells_when_the_controller_is_gone() {
    let (mut net, ctrl) = client_one();
    drop(ctrl);
    assert!(!net.controller_shortcut(Packet::new_ack(Routing::new(vec![1, 2], 1), 3, 0)));
}

#[test]
fn routing_error_reply_goes_to_the_hop_the_packet_came_over() {
    let (mut net, _ctrl) = client_one();
    let fragment = || Fragment { fragment_index: 3, total_n_fragments: 4, data: vec![9] };
    let misrouted = Packet::new_fragment(Routing::new(vec![5, 2, 4], 2), 7, fragment());
    // No link to node 2 yet: the refusal has nowhere to go.
    assert_eq!(
        handle_routing_error(&mut net, misrouted.clone(), NackType::UnexpectedRecipient(1)),
        Handed::Nobody
    );
    let ch2 = link(&mut net, 2);
    assert_eq!(
        handle_routing_error(&mut net, misrouted.clone(), NackType::UnexpectedRecipient(1)),
        Handed::Neighbour(2, true)
    );
    assert_eq!(
        ch2.try_recv(),
        Ok(new_nack(1, Routing::new(vec![5, 2, 4], 2), 7, 3, NackType::UnexpectedRecipient(1)))
    );
    // A fragment that has covered no hop cannot be refused towards anyone.
    let fresh = Packet::new_fragment(Routing::new(vec![5, 2, 4], 0), 7, fragment());
    assert_eq!(
        handle_routing_error(&mut net, fresh, NackType::UnexpectedRecipient(1)),
        Handed::Nobody
    );
    drop(ch2);
    assert_eq!(
        handle_routing_error(&mut net, misrouted.clone(), NackType::UnexpectedRecipient(1)),
        Handed::Neighbour(2, false)
    );
    handle_command(&mut net, LeafCommand::Kill);
    assert_eq!(
        handle_routing_error(&mut net, misrouted, NackType::UnexpectedRecipient(1)),
        Handed::Nobody
    );
    assert!(!net.is_reassembling(7));
}

#[test]
fn flood_answer_goes_to_the_node_the_request_came_from() {
    let (mut net, ctrl) = client_one();
    let request = || FloodRequest {
        flood_id: 40,
        initiator_id: 6,
        path_trace: vec![(6, NodeType::Client), (2, NodeType::Drone)],
    };
    // Without a link to node 2 the controller is asked to deliver the answer.
    assert_eq!(net.handle_flood_request_receive(12, request()), Handed::Controller(true));
    match ctrl.try_recv() {
        Ok(LeafEvent::ControllerShortcut(answer)) => {
            assert_eq!(answer.routing_header, Routing::new(vec![1, 2, 6], 1));
        }
        other => panic!("no shortcut: {:?}", other),
    }
    let ch2 = link(&mut net, 2);
    assert_eq!(net.handle_flood_request_receive(12, request()), Handed::Neighbour(2, true));
    let answer = ch2.try_recv().unwrap();
    assert_eq!(answer.routing_header, Routing::new(vec![1, 2, 6], 1));
    assert_eq!(answer.session_id, 12);
    // A request without a trace: the answer names this node alone.
    let bare = FloodRequest { flood_id: 41, initiator_id: 6, path_trace: vec![] };
    assert_eq!(net.handle_flood_request_receive(12, bare), Handed::Controller(true));
    handle_command(&mut net, LeafCommand::Kill);
    assert_eq!(net.handle_flood_request_receive(12, request()), Handed::Nobody);
    assert_eq!(net.current_session(), 0);
}
