use servers::text::{decimal_text, members, numbered, set_text};
use servers::{Ack, Delivery, Packet, PacketType, ServerEvent, Settled, SourceRoutingHeader};
use std::collections::HashSet;

#[test]
fn decimals_match_the_standard_library() {
    for n in [0, 1, 9, 10, 11, 99, 100, 255, 1000000007, u64::MAX - 1, u64::MAX] {
        assert_eq!(decimal_text(n), n.to_string());
        assert_eq!(numbered("<", n, ">"), format!("<{}>", n));
    }
}

#[test]
fn sets_are_written_like_their_debug_text() {
    let mut set: HashSet<u8> = HashSet::new();
    assert_eq!(set_text(&set), "{}");
    assert!(members(&set).is_empty());
    for n in [3, 200, 41, 7] {
        set.insert(n);
        assert_eq!(set_text(&set), format!("{:?}", set));
    }
    let mut listed = members(&set);
    listed.sort();
    assert_eq!(listed, vec![3, 7, 41, 200]);
}

#[test]
fn deliveries_are_settled_by_their_kind() {
    let packet = || Packet {
        pack_type: PacketType::Ack(Ack { fragment_index: 1 }),
        routing_header: SourceRoutingHeader { hop_index: 1, hops: vec![1, 2] },
        session_id: 3,
    };
    let sent = || Settled::Report(ServerEvent::PacketSent(packet()));
    for delivery in
        [Delivery::BestEffort, Delivery::Checked, Delivery::Message, Delivery::Confirmation]
    {
        assert_eq!(delivery.settle(packet(), true), sent());
    }
    assert_eq!(Delivery::BestEffort.settle(packet(), false), sent());
    assert_eq!(Delivery::Checked.settle(packet(), false), Settled::Nothing);
    assert_eq!(
        Delivery::Message.settle(packet(), false),
        Settled::Fatal("Error occurred sending the message to the neighbour.".to_string())
    );
    assert_eq!(
        Delivery::Confirmation.settle(packet(), false),
        Settled::Fatal("Error occurred sending the ack to the neighbour.".to_string())
    );
}
