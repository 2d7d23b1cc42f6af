use servers::session::Sessions;
use servers::{Ack, Packet, PacketType, SourceRoutingHeader};

fn packet(session_id: u64, fragment_index: u64, hops: &[u8]) -> Packet {
    Packet {
        pack_type: PacketType::Ack(Ack { fragment_index }),
        routing_header: SourceRoutingHeader { hop_index: 0, hops: hops.to_vec() },
        session_id,
    }
}

fn started() -> Sessions {
    let mut sessions = Sessions::new();
    sessions.add_pending(5, (0..3).map(|i| packet(5, i, &[1, 2, 3])).collect());
    sessions
}

#[test]
fn session_ends_with_its_last_confirmation() {
    for order in [[0, 1, 2], [2, 0, 1], [1, 2, 0]] {
        let mut sessions = started();
        for i in order {
            assert!(sessions.packet(5, i).is_some());
            sessions.acknowledge(5, i);
        }
        for i in 0..3 {
            assert_eq!(sessions.packet(5, i), None);
        }
    }
}

#[test]
fn confirming_twice_counts_once() {
    let mut sessions = started();
    sessions.acknowledge(5, 0);
    sessions.acknowledge(5, 0);
    sessions.acknowledge(5, 0);
    assert!(sessions.packet(5, 2).is_some());
}

#[test]
fn other_sessions_are_untouched() {
    let mut sessions = started();
    sessions.add_pending(6, vec![packet(6, 0, &[1, 9])]);
    sessions.count_loss(0, 6, 2);
    sessions.acknowledge(5, 0);
    sessions.acknowledge(5, 1);
    sessions.acknowledge(5, 2);
    assert_eq!(sessions.packet(6, 0), Some(packet(6, 0, &[1, 9])));
    assert_eq!(sessions.losses(0, 6, 2), 1);
    assert_eq!(sessions.packet(6, 1), None);
    assert_eq!(sessions.packet(7, 0), None);
}

#[test]
fn losses_are_counted_by_fragment_session_and_node() {
    let mut sessions = Sessions::new();
    assert_eq!(sessions.losses(1, 5, 2), 0);
    assert_eq!(sessions.count_loss(1, 5, 2), 1);
    assert_eq!(sessions.count_loss(1, 5, 2), 2);
    assert_eq!(sessions.count_loss(1, 5, 3), 1);
    assert_eq!(sessions.count_loss(2, 5, 2), 1);
    assert_eq!(sessions.count_loss(1, 6, 2), 1);
    sessions.forget_loss(1, 5, 2);
    assert_eq!(sessions.losses(1, 5, 2), 0);
    assert_eq!(sessions.losses(1, 5, 3), 1);
    sessions.forget_loss(9, 9, 9);
    sessions.acknowledge(5, 1);
    assert_eq!(sessions.losses(1, 5, 3), 0);
    assert_eq!(sessions.losses(2, 5, 2), 1);
    assert_eq!(sessions.losses(1, 6, 2), 1);
}

#[test]
fn rerouting_changes_routes_only() {
    let mut sessions = started();
    sessions.reroute(5, &vec![1, 8, 3]);
    sessions.reroute(6, &vec![1]);
    for i in 0..3 {
        let mut expected = packet(5, i, &[1, 8, 3]);
        expected.routing_header.hop_index = 1;
        assert_eq!(sessions.packet(5, i), Some(expected));
    }
    assert_eq!(sessions.packet(6, 0), None);
}

#[test]
fn foreign_confirmations_end_no_session() {
    let mut sessions = Sessions::new();
    sessions.add_pending(5, (0..2).map(|i| packet(5, i, &[1, 2, 3])).collect());
    sessions.acknowledge(5, 0);
    sessions.acknowledge(5, 9);
    sessions.acknowledge(5, 2);
    assert_eq!(sessions.packet(5, 0), Some(packet(5, 0, &[1, 2, 3])));
    assert_eq!(sessions.packet(5, 1), Some(packet(5, 1, &[1, 2, 3])));
    sessions.acknowledge(5, 0);
    assert!(sessions.packet(5, 1).is_some());
    sessions.acknowledge(5, 1);
    assert_eq!(sessions.packet(5, 0), None);
    assert_eq!(sessions.packet(5, 1), None);
}
