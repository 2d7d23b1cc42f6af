use servers::{
    Ack, Action, ClientMessages, CommunicationServer, Delivery, DronegowskiServer, FloodRequest,
    FloodResponse, Fragment, Inbound, Nack, NackType, NodeType, Packet, PacketType,
    ReconstructError, Reply, ServerCommand, ServerEvent, ServerMessages, ServerType,
    SourceRoutingHeader, Step, TestMessage,
};
use std::collections::HashSet;

fn server_with(neighbours: &[u8]) -> (CommunicationServer, Vec<Action>) {
    let set: HashSet<u8> = neighbours.iter().cloned().collect();
    CommunicationServer::new(6, set, ServerType::Communication, 100)
}

/// A server 6 with the drones 1 and 2, over which the clients 20 and 21 are reached.
fn connected() -> CommunicationServer {
    let (mut server, _) = server_with(&[1, 2]);
    for trace in [
        vec![(6, NodeType::Server), (1, NodeType::Drone), (20, NodeType::Client)],
        vec![
            (6, NodeType::Server),
            (2, NodeType::Drone),
            (3, NodeType::Drone),
            (20, NodeType::Client),
        ],
        vec![(6, NodeType::Server), (2, NodeType::Drone), (21, NodeType::Client)],
    ] {
        server.update_graph(&trace);
    }
    server
}

fn packet(pack_type: PacketType, hops: &[u8], session_id: u64) -> Packet {
    Packet {
        pack_type,
        routing_header: SourceRoutingHeader { hop_index: 0, hops: hops.to_vec() },
        session_id,
    }
}

fn fragment(index: u64, total: u64) -> Fragment {
    Fragment { fragment_index: index, total_n_fragments: total, length: 2, data: [7; 128] }
}

fn nack(fragment_index: u64, nack_type: NackType, hops: &[u8], session_id: u64) -> Packet {
    packet(PacketType::Nack(Nack { fragment_index, nack_type }), hops, session_id)
}

fn debug(text: &str) -> Action {
    Action::Report(ServerEvent::DebugMessage(6, text.to_string()))
}

fn flood(to: u8, flood_id: u64) -> Action {
    Action::Send {
        to,
        packet: Packet {
            pack_type: PacketType::FloodRequest(FloodRequest {
                flood_id,
                initiator_id: 6,
                path_trace: vec![(6, NodeType::Server)],
            }),
            routing_header: SourceRoutingHeader { hop_index: 0, hops: vec![6, to] },
            session_id: flood_id,
        },
        delivery: Delivery::BestEffort,
    }
}

fn same_actions(found: &[Action], expected: &[Action]) -> bool {
    found.len() == expected.len() && expected.iter().all(|action| found.contains(action))
}

fn nothing() -> Step {
    Step { actions: vec![], inbound: Inbound::Nothing }
}

fn ask(server: &mut CommunicationServer, client: u8, request: ClientMessages) -> Reply {
    server.handle_message(client, TestMessage::WebServerMessages(request))
}

fn answer_to(reply: &Reply) -> (&ServerMessages, u8) {
    let outgoing = reply.outgoing.as_ref().unwrap();
    (&outgoing.message, *outgoing.route.last().unwrap())
}

#[test]
fn communication_server_floods_at_once() {
    let (_, actions) = server_with(&[1, 2]);
    assert!(same_actions(&actions, &[flood(1, 100), flood(2, 100)]));
}

#[test]
fn clients_register_once() {
    let mut server = connected();
    assert!(!server.is_registered(20));
    let reply = ask(&mut server, 20, ClientMessages::RegistrationToChat);
    assert_eq!(
        reply.actions,
        vec![
            Action::Report(ServerEvent::MessageReceived(TestMessage::WebServerMessages(
                ClientMessages::RegistrationToChat
            ))),
            Action::Report(ServerEvent::Route(vec![6, 1, 20])),
        ]
    );
    assert_eq!(answer_to(&reply), (&ServerMessages::RegistrationOk, 20));
    assert_eq!(reply.outgoing.as_ref().unwrap().neighbour, 1);
    assert!(server.is_registered(20));
    let reply = ask(&mut server, 20, ClientMessages::RegistrationToChat);
    assert_eq!(
        answer_to(&reply),
        (&ServerMessages::RegistrationError("client already registered".to_string()), 20)
    );
    let reply = ask(&mut server, 21, ClientMessages::ClientList);
    assert_eq!(answer_to(&reply), (&ServerMessages::ClientList(vec![20]), 21));
    ask(&mut server, 21, ClientMessages::RegistrationToChat);
    let reply = ask(&mut server, 21, ClientMessages::ClientList);
    assert_eq!(answer_to(&reply), (&ServerMessages::ClientList(vec![20, 21]), 21));
}

#[test]
fn only_registered_clients_talk() {
    let mut server = connected();
    let message = || ClientMessages::MessageFor(21, "hello".to_string());
    let refusal = |n: u8| ServerMessages::Error(format!("{} not registered to server", n));
    let reply = ask(&mut server, 20, message());
    assert_eq!(answer_to(&reply), (&refusal(20), 20));
    ask(&mut server, 20, ClientMessages::RegistrationToChat);
    let reply = ask(&mut server, 20, message());
    assert_eq!(answer_to(&reply), (&refusal(21), 20));
    ask(&mut server, 21, ClientMessages::RegistrationToChat);
    let reply = ask(&mut server, 20, message());
    assert_eq!(answer_to(&reply), (&ServerMessages::MessageFrom(20, "hello".to_string()), 21));
}

#[test]
fn communication_server_answers_other_requests() {
    let mut server = connected();
    let reply = ask(&mut server, 20, ClientMessages::ServerType);
    assert_eq!(
        answer_to(&reply),
        (&ServerMessages::ServerType(ServerType::Communication), 20)
    );
    for request in
        [ClientMessages::FilesList, ClientMessages::File(0), ClientMessages::Media(0)]
    {
        let reply = ask(&mut server, 20, request);
        assert_eq!(
            answer_to(&reply),
            (&ServerMessages::Error("Unknown ClientMessage received".to_string()), 20)
        );
    }
    let message = TestMessage::WebClientMessages(ServerMessages::RegistrationOk);
    assert_eq!(server.handle_message(20, message), Reply { actions: vec![], outgoing: None });
}

#[test]
fn routes_pass_drones_only() {
    let (mut server, _) = server_with(&[1, 2]);
    server.update_graph(&vec![
        (6, NodeType::Server),
        (1, NodeType::Client),
        (20, NodeType::Client),
    ]);
    assert_eq!(server.compute_best_path(20), None);
    assert_eq!(server.compute_best_path(1), Some(vec![6, 1]));
    server.update_graph(&vec![
        (6, NodeType::Server),
        (2, NodeType::Drone),
        (3, NodeType::Drone),
        (20, NodeType::Client),
    ]);
    assert_eq!(server.compute_best_path(20), Some(vec![6, 2, 3, 20]));
}

#[test]
fn communication_server_takes_fragments_in() {
    let mut server = connected();
    let step =
        server.handle_packet(packet(PacketType::MsgFragment(fragment(0, 1)), &[20, 1, 6], 50), 1);
    assert_eq!(step.actions.len(), 2);
    assert_eq!(step.actions[0], debug("Server 6: received from 20"));
    assert_eq!(
        step.actions[1],
        Action::Send {
            to: 1,
            packet: Packet {
                pack_type: PacketType::Ack(Ack { fragment_index: 0 }),
                routing_header: SourceRoutingHeader { hop_index: 1, hops: vec![6, 1, 20] },
                session_id: 50,
            },
            delivery: Delivery::Confirmation,
        }
    );
    assert_eq!(step.inbound, Inbound::Complete { source: 20, fragments: vec![fragment(0, 1)] });
    let alone = packet(PacketType::MsgFragment(fragment(0, 1)), &[], 51);
    assert_eq!(server.handle_packet(alone, 1), nothing());
    assert_eq!(server.reconstruct_message(51), Err(ReconstructError::UnknownKey(51)));
    server.handle_packet(packet(PacketType::MsgFragment(fragment(0, 2)), &[20], 52), 1);
    assert_eq!(
        server.reconstruct_message(52),
        Err(ReconstructError::CountMismatch { total: 2, held: 1 })
    );
}

#[test]
fn communication_server_answers_and_learns_from_floods() {
    let (mut server, _) = server_with(&[1]);
    let request = FloodRequest {
        flood_id: 77,
        initiator_id: 20,
        path_trace: vec![(20, NodeType::Client), (1, NodeType::Drone)],
    };
    let step = server.handle_packet(packet(PacketType::FloodRequest(request), &[], 8), 1);
    assert_eq!(step.actions.len(), 1);
    assert!(matches!(&step.actions[0], Action::Send { to: 1, packet, delivery: Delivery::Checked }
        if packet.routing_header.hops == vec![6, 1, 20]));
    let response = FloodResponse {
        flood_id: 1,
        path_trace: vec![(6, NodeType::Server), (1, NodeType::Drone), (20, NodeType::Client)],
    };
    assert_eq!(server.handle_packet(packet(PacketType::FloodResponse(response), &[], 8), 1), nothing());
    assert_eq!(server.compute_best_path(20), Some(vec![6, 1, 20]));
}

#[test]
fn communication_server_takes_a_detour_at_the_tenth_drop() {
    let mut server = connected();
    let packets: Vec<Packet> = (0..2)
        .map(|i| packet(PacketType::MsgFragment(fragment(i, 2)), &[6, 1, 20], 9))
        .collect();
    server.send_packets(9, packets.clone(), 1);
    for _ in 0..9 {
        let step = server.handle_packet(nack(1, NackType::Dropped, &[1, 6], 9), 40);
        assert_eq!(
            step.actions,
            vec![Action::Send { to: 1, packet: packets[1].clone(), delivery: Delivery::Checked }]
        );
    }
    let moved = |i: usize| {
        let mut p = packets[i].clone();
        p.routing_header = SourceRoutingHeader { hop_index: 1, hops: vec![6, 2, 3, 20] };
        p
    };
    let step = server.handle_packet(nack(1, NackType::Dropped, &[1, 6], 9), 40);
    assert_eq!(
        step.actions,
        vec![
            debug("Server 6: nack drop 10 from 1 / 1"),
            debug("Server 6: new route exclude {1}"),
            Action::Send { to: 2, packet: moved(1), delivery: Delivery::Checked },
        ]
    );
    let step = server.handle_packet(nack(0, NackType::Dropped, &[1, 6], 9), 40);
    assert_eq!(
        step.actions,
        vec![Action::Send { to: 2, packet: moved(0), delivery: Delivery::Checked }]
    );
    assert_eq!(server.compute_route_excluding(20).0, Some(vec![6, 2, 3, 20]));
    server.send_message(ServerMessages::RegistrationOk, 20);
    assert_eq!(server.compute_route_excluding(20).0, Some(vec![6, 1, 20]));
}

#[test]
fn communication_server_reports_a_missing_detour() {
    let (mut server, _) = server_with(&[1]);
    server.update_graph(&vec![(6, NodeType::Server), (1, NodeType::Drone), (20, NodeType::Client)]);
    server.send_packets(9, vec![packet(PacketType::MsgFragment(fragment(0, 1)), &[6, 1, 20], 9)], 1);
    for _ in 0..9 {
        server.handle_packet(nack(0, NackType::Dropped, &[1, 6], 9), 40);
    }
    let step = server.handle_packet(nack(0, NackType::Dropped, &[1, 6], 9), 40);
    let error = |text: &str| Action::Report(ServerEvent::Error(6, 20, text.to_string()));
    assert_eq!(
        step.actions[2..],
        [
            error("not alternative path route available by server"),
            error("No alternative path for fragment 0"),
        ]
    );
    assert!(server.resend_with_new_path(8, 0).is_empty());
    assert!(server.resend_with_new_path(9, 5).is_empty());
}

#[test]
fn communication_server_rethinks_on_other_losses() {
    let mut server = connected();
    let sent = packet(PacketType::MsgFragment(fragment(0, 1)), &[6, 1, 20], 9);
    server.send_packets(9, vec![sent.clone()], 1);
    let step = server.handle_packet(nack(0, NackType::ErrorInRouting(20), &[1, 6], 9), 41);
    assert_eq!(step.actions.len(), 4);
    assert!(same_actions(&step.actions[..2], &[flood(1, 41), flood(2, 41)]));
    assert_eq!(step.actions[2], debug("Server 6: new route?"));
    assert_eq!(
        step.actions[3],
        Action::Send { to: 1, packet: sent, delivery: Delivery::Checked }
    );
    assert_eq!(server.compute_best_path(20), None);
}

#[test]
fn communication_server_obeys_commands() {
    let mut server = connected();
    let step = server.handle_command(ServerCommand::AddSender(3), 42);
    assert_eq!(step.actions[0], Action::KeepSender(3));
    assert!(same_actions(&step.actions[1..], &[flood(1, 42), flood(2, 42), flood(3, 42)]));
    assert_eq!(server.compute_best_path(20), None);
    let step = server.handle_command(ServerCommand::AddSender(3), 43);
    assert!(same_actions(&step.actions, &[flood(1, 43), flood(2, 43), flood(3, 43)]));
    let step = server.handle_command(ServerCommand::RemoveSender(3), 44);
    assert_eq!(step.actions[0], Action::DropSender(3));
    assert!(same_actions(&step.actions[1..], &[flood(1, 44), flood(2, 44)]));
    let step = server.handle_command(ServerCommand::RemoveSender(3), 45);
    assert!(same_actions(&step.actions, &[flood(1, 45), flood(2, 45)]));
    let step = server.handle_command(ServerCommand::RequestNetworkDiscovery, 46);
    assert!(same_actions(&step.actions, &[flood(1, 46), flood(2, 46)]));
    assert_eq!(server.handle_command(ServerCommand::Unhandled, 47), nothing());
    let ack = packet(PacketType::Ack(Ack { fragment_index: 0 }), &[], 3);
    assert_eq!(server.handle_command(ServerCommand::ControllerShortcut(ack), 48), nothing());
}

#[test]
fn neighbours_come_and_go() {
    let mut server = connected();
    assert_eq!(server.add_neighbor(1, 5), vec![]);
    assert_eq!(server.add_neighbor(9, 5), vec![Action::KeepSender(9)]);
    assert_eq!(server.remove_neighbor(8, 5), vec![]);
    assert_eq!(server.remove_neighbor(1, 5), vec![Action::DropSender(1)]);
    assert_eq!(server.compute_best_path(20), Some(vec![6, 2, 3, 20]));
    server.remove_from_topology(3);
    assert_eq!(server.compute_best_path(20), None);
    assert_eq!(server.compute_best_path(21), Some(vec![6, 2, 21]));
}

#[test]
fn communication_server_tells_which_packets_it_can_handle() {
    let mut server = connected();
    let empty = FloodResponse { flood_id: 1, path_trace: vec![] };
    assert!(!server.accepts_packet(&packet(PacketType::FloodResponse(empty), &[1], 1)));
    let empty = FloodRequest { flood_id: 1, initiator_id: 1, path_trace: vec![] };
    assert!(!server.accepts_packet(&packet(PacketType::FloodRequest(empty), &[1], 1)));
    assert!(!server.accepts_packet(&nack(0, NackType::Dropped, &[], 9)));
    server.send_packets(9, vec![packet(PacketType::MsgFragment(fragment(0, 1)), &[6], 9)], 1);
    let dropped = nack(0, NackType::Dropped, &[1], 9);
    assert!(server.accepts_packet(&dropped));
    assert_eq!(server.handle_packet(dropped, 1), nothing());
    assert!(!server.accepts_packet(&nack(0, NackType::DestinationIsDrone, &[1], 9)));
    assert!(server.accepts_packet(&nack(1, NackType::DestinationIsDrone, &[1], 9)));
}

#[test]
fn a_copy_goes_its_own_way() {
    let mut server = connected();
    ask(&mut server, 20, ClientMessages::RegistrationToChat);
    server.handle_packet(packet(PacketType::MsgFragment(fragment(0, 2)), &[20], 52), 1);
    let sent = packet(PacketType::MsgFragment(fragment(0, 1)), &[6, 1, 20], 9);
    server.send_packets(9, vec![sent.clone()], 1);
    let mut copy = server.clone();
    server.network_discovery(1);
    server.handle_packet(packet(PacketType::Ack(Ack { fragment_index: 0 }), &[20], 9), 1);
    ask(&mut server, 21, ClientMessages::RegistrationToChat);
    assert!(copy.is_registered(20));
    assert!(!copy.is_registered(21));
    assert_eq!(copy.compute_best_path(20), Some(vec![6, 1, 20]));
    assert_eq!(
        copy.handle_packet(nack(0, NackType::Dropped, &[1], 9), 1).actions,
        vec![Action::Send { to: 1, packet: sent, delivery: Delivery::Checked }]
    );
    assert_eq!(
        copy.reconstruct_message(52),
        Err(ReconstructError::CountMismatch { total: 2, held: 1 })
    );
    assert!(same_actions(&copy.network_discovery(3), &[flood(1, 3), flood(2, 3)]));
}

#[test]
fn communication_server_waits_for_the_missing_fragment() {
    let (mut server, _) = server_with(&[]);
    let arrival = |i: u64| packet(PacketType::MsgFragment(fragment(i, 2)), &[1, 2, 6], 7);
    assert_eq!(server.handle_packet(arrival(0), 1).inbound, Inbound::Nothing);
    assert_eq!(server.handle_packet(arrival(0), 1).inbound, Inbound::Nothing);
    assert_eq!(
        server.handle_packet(arrival(1), 1).inbound,
        Inbound::Complete { source: 1, fragments: vec![fragment(0, 2), fragment(1, 2)] }
    );
    assert_eq!(server.reconstruct_message(7), Err(ReconstructError::UnknownKey(7)));
}

#[test]
fn communication_server_keeps_sessions_with_unconfirmed_fragments() {
    let mut server = connected();
    let packets: Vec<Packet> = (0..2)
        .map(|i| packet(PacketType::MsgFragment(fragment(i, 2)), &[6, 1, 20], 5))
        .collect();
    server.send_packets(5, packets.clone(), 1);
    server.handle_ack(Ack { fragment_index: 0 }, 5);
    server.handle_ack(Ack { fragment_index: 9 }, 5);
    let step = server.handle_packet(nack(1, NackType::Dropped, &[1, 6], 5), 1);
    assert_eq!(
        step.actions,
        vec![Action::Send { to: 1, packet: packets[1].clone(), delivery: Delivery::Checked }]
    );
    server.handle_ack(Ack { fragment_index: 1 }, 5);
    let step = server.handle_packet(nack(1, NackType::Dropped, &[1, 6], 5), 1);
    assert_eq!(step, nothing());
}
