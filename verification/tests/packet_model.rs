use client::message::{into_fragments, join_fragments, Message};
use client::packet::{
    clone_bytes, clone_hops, clone_trace, FloodRequest, Fragment, NodeType, Packet, PacketType,
    Routing, FRAGMENT_DSIZE,
};

#[test]
fn empty_route_has_no_hops() {
    let r = Routing::empty_route();
    assert!(r.is_empty());
    assert_eq!(r.hop_index, 0);
    assert_eq!(r.current_hop(), None);
    assert_eq!(r.next_hop(), None);
}

#[test]
fn current_and_next_hop() {
    let r = Routing::new(vec![1, 2, 5], 1);
    assert!(!r.is_empty());
    assert_eq!(r.current_hop(), Some(2));
    assert_eq!(r.next_hop(), Some(5));
    let last = Routing::new(vec![1, 2, 5], 2);
    assert_eq!(last.current_hop(), Some(5));
    assert_eq!(last.next_hop(), None);
    let beyond = Routing::new(vec![1, 2, 5], 3);
    assert_eq!(beyond.current_hop(), None);
    assert_eq!(beyond.next_hop(), None);
    let far = Routing::new(vec![1, 2, 5], usize::MAX);
    assert_eq!(far.current_hop(), None);
    assert_eq!(far.next_hop(), None);
}

#[test]
fn with_first_hop_points_at_the_second_node() {
    let r = Routing::with_first_hop(vec![1, 2, 5]);
    assert_eq!(r.hop_index, 1);
    assert_eq!(r.current_hop(), Some(2));
}

#[test]
fn reverse_keeps_the_current_node() {
    let mut r = Routing::new(vec![5, 3, 2, 1], 1);
    r.reverse();
    assert_eq!(r, Routing::new(vec![1, 2, 3, 5], 2));
    assert_eq!(r.current_hop(), Some(3));
    let mut at_end = Routing::new(vec![5, 2, 1], 2);
    at_end.reverse();
    assert_eq!(at_end, Routing::new(vec![1, 2, 5], 0));
    let mut outside = Routing::new(vec![5, 2, 1], 7);
    outside.reverse();
    assert_eq!(outside, Routing::new(vec![1, 2, 5], 0));
    let mut empty = Routing::empty_route();
    empty.reverse();
    assert_eq!(empty, Routing::empty_route());
}

#[test]
fn reverse_twice_is_identity_inside_the_route() {
    let mut r = Routing::new(vec![9, 8, 7, 6], 3);
    r.reverse();
    r.reverse();
    assert_eq!(r, Routing::new(vec![9, 8, 7, 6], 3));
}

#[test]
fn increase_hop_index_stops_at_the_top() {
    let mut r = Routing::new(vec![1, 2], 0);
    r.increase_hop_index();
    assert_eq!(r.hop_index, 1);
    let mut top = Routing::new(vec![1, 2], usize::MAX);
    top.increase_hop_index();
    assert_eq!(top.hop_index, usize::MAX);
}

#[test]
fn clones_are_equal() {
    let r = Routing::new(vec![1, 2, 5], 1);
    assert_eq!(r.clone(), r);
    let f = Fragment { fragment_index: 2, total_n_fragments: 3, data: vec![1, 2, 3] };
    assert_eq!(f.clone(), f);
    let p = Packet::new_fragment(r.clone(), 9, f.clone());
    assert_eq!(p.clone(), p);
    let q = Packet::new_flood_request(
        Routing::empty_route(),
        0,
        FloodRequest::initialize(3, 1, NodeType::Client),
    );
    assert_eq!(q.clone(), q);
    assert_eq!(clone_hops(&vec![4, 5]), vec![4, 5]);
    assert_eq!(clone_bytes(&vec![0, 255]), vec![0, 255]);
    assert_eq!(
        clone_trace(&vec![(1, NodeType::Client), (2, NodeType::Drone)]),
        vec![(1, NodeType::Client), (2, NodeType::Drone)]
    );
    let m = Message::ReqChatSend { to: 3, chat_msg: vec![1] };
    assert_eq!(m.clone(), m);
    assert_eq!(Message::RespClientList(vec![1, 2]).clone(), Message::RespClientList(vec![1, 2]));
}

#[test]
fn packet_constructors_fill_the_fields() {
    let r = Routing::new(vec![1, 2], 1);
    let p = Packet::new_ack(r.clone(), 4, 6);
    assert_eq!(p.routing_header, r);
    assert_eq!(p.session_id, 4);
    assert!(!p.is_fragment());
    let f = Packet::new_fragment(
        r,
        4,
        Fragment { fragment_index: 0, total_n_fragments: 1, data: vec![] },
    );
    assert!(f.is_fragment());
    let req = FloodRequest::initialize(8, 1, NodeType::Client);
    assert_eq!(req.flood_id, 8);
    assert_eq!(req.initiator_id, 1);
    assert_eq!(req.path_trace, vec![(1, NodeType::Client)]);
}

#[test]
fn empty_payload_gives_one_empty_fragment() {
    let frags = into_fragments(&vec![]);
    assert_eq!(
        frags,
        vec![Fragment { fragment_index: 0, total_n_fragments: 1, data: vec![] }]
    );
}

#[test]
fn fragment_sizes_at_the_block_boundary() {
    assert_eq!(FRAGMENT_DSIZE, 128);
    let one = into_fragments(&vec![7u8; 128]);
    assert_eq!(one.len(), 1);
    assert_eq!(one[0].data.len(), 128);
    let two = into_fragments(&vec![7u8; 129]);
    assert_eq!(two.len(), 2);
    assert_eq!(two[0].data.len(), 128);
    assert_eq!(two[1].data, vec![7u8]);
    assert_eq!((two[1].fragment_index, two[1].total_n_fragments), (1, 2));
    let three = into_fragments(&vec![7u8; 384]);
    assert_eq!(three.len(), 3);
    assert_eq!(three[2].data.len(), 128);
}

#[test]
fn fragment_then_join_gives_the_payload_back() {
    for len in [0usize, 1, 127, 128, 129, 255, 256, 1000] {
        let payload: Vec<u8> = (0..len).map(|i| (i * 7 % 256) as u8).collect();
        let frags = into_fragments(&payload);
        for (i, f) in frags.iter().enumerate() {
            assert_eq!(f.fragment_index, i as u64);
            assert_eq!(f.total_n_fragments, frags.len() as u64);
        }
        assert_eq!(join_fragments(&frags), payload);
    }
}

#[test]
fn message_recipient_is_the_chat_addressee() {
    assert_eq!(Message::ReqChatSend { to: 9, chat_msg: vec![] }.recipient(), Some(9));
    assert_eq!(Message::ReqChatRegistration.recipient(), None);
    assert_eq!(Message::RespChatFrom { from: 9, chat_msg: vec![] }.recipient(), None);
    assert!(Message::ReqChatRegistration.is_chat_registration());
    assert!(!Message::ReqChatClients.is_chat_registration());
}

#[test]
fn packet_type_equality_tells_kinds_apart() {
    let a = Packet::new_ack(Routing::empty_route(), 1, 0);
    assert!(matches!(a.pack_type, PacketType::Ack(_)));
    assert_ne!(a, Packet::new_ack(Routing::empty_route(), 1, 1));
}
