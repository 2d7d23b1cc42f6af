use servers::{
    Ack, Action, ClientMessages, ContentServer, Delivery, DronegowskiServer, FileContent,
    FloodRequest, FloodResponse, Fragment, Inbound, MediaEntry, MediaServer, Nack, NackType,
    NodeType, Outgoing, Packet, PacketType, ReconstructError, Reply, ServerCommand, ServerEvent,
    ServerMessages, ServerType, SourceRoutingHeader, Step, TestMessage, TextEntry, TextServer,
};
use std::collections::HashSet;

fn texts() -> TextServer {
    TextServer::new_from_folder(&vec![TextEntry {
        is_file: true,
        extension: Some("json".to_string()),
        content: Some("{\"title\": \"A\", \"text\": \"a\"}".to_string()),
    }])
}

fn media() -> MediaServer {
    MediaServer::new_from_folder(&vec![MediaEntry {
        is_file: true,
        file_name: Some("3.png".to_string()),
        content: Some(vec![9, 8]),
    }])
}

fn server_with(neighbours: &[u8]) -> (ContentServer, Vec<Action>) {
    let set: HashSet<u8> = neighbours.iter().cloned().collect();
    ContentServer::new(6, set, ServerType::Content, texts(), media(), 100)
}

/// A server 6 with the drones 1 and 2, over which the client 20 is reached.
fn connected() -> ContentServer {
    let (mut server, _) = server_with(&[1, 2]);
    server.update_graph(&vec![(6, NodeType::Server), (1, NodeType::Drone), (20, NodeType::Client)]);
    server.update_graph(&vec![
        (6, NodeType::Server),
        (2, NodeType::Drone),
        (3, NodeType::Drone),
        (20, NodeType::Client),
    ]);
    server
}

fn packet(pack_type: PacketType, hops: &[u8], session_id: u64) -> Packet {
    Packet {
        pack_type,
        routing_header: SourceRoutingHeader { hop_index: 0, hops: hops.to_vec() },
        session_id,
    }
}

fn fragment(index: u64, total: u64) -> Fragment {
    Fragment { fragment_index: index, total_n_fragments: total, length: 2, data: [7; 128] }
}

fn nack(fragment_index: u64, nack_type: NackType, hops: &[u8], session_id: u64) -> Packet {
    packet(PacketType::Nack(Nack { fragment_index, nack_type }), hops, session_id)
}

fn debug(text: &str) -> Action {
    Action::Report(ServerEvent::DebugMessage(6, text.to_string()))
}

fn flood(to: u8, flood_id: u64) -> Action {
    Action::Send {
        to,
        packet: Packet {
            pack_type: PacketType::FloodRequest(FloodRequest {
                flood_id,
                initiator_id: 6,
                path_trace: vec![(6, NodeType::Server)],
            }),
            routing_header: SourceRoutingHeader { hop_index: 0, hops: vec![6, to] },
            session_id: flood_id,
        },
        delivery: Delivery::BestEffort,
    }
}

fn same_actions(found: &[Action], expected: &[Action]) -> bool {
    found.len() == expected.len() && expected.iter().all(|action| found.contains(action))
}

fn nothing() -> Step {
    Step { actions: vec![], inbound: Inbound::Nothing }
}

#[test]
fn content_server_floods_at_once() {
    let (_, actions) = server_with(&[1, 2, 9]);
    assert!(same_actions(&actions, &[flood(1, 100), flood(2, 100), flood(9, 100)]));
    let (_, actions) = server_with(&[]);
    assert!(actions.is_empty());
}

#[test]
fn content_server_takes_fragments_in() {
    let mut server = connected();
    let second = packet(PacketType::MsgFragment(fragment(1, 2)), &[20, 1, 6], 50);
    let step = server.handle_packet(second, 1);
    assert_eq!(step.inbound, Inbound::Nothing);
    assert_eq!(
        step.actions,
        vec![
            debug("Client 6: received from 20"),
            Action::Send {
                to: 1,
                packet: Packet {
                    pack_type: PacketType::Ack(Ack { fragment_index: 1 }),
                    routing_header: SourceRoutingHeader { hop_index: 1, hops: vec![6, 1, 20] },
                    session_id: 50,
                },
                delivery: Delivery::Confirmation,
            },
        ]
    );
    let first = packet(PacketType::MsgFragment(fragment(0, 2)), &[20, 9, 6], 50);
    let step = server.handle_packet(first, 1);
    assert_eq!(step.actions, vec![debug("Client 6: received from 20")]);
    assert_eq!(
        step.inbound,
        Inbound::Complete { source: 20, fragments: vec![fragment(0, 2), fragment(1, 2)] }
    );
    assert_eq!(server.reconstruct_message(50), Err(ReconstructError::UnknownKey(50)));
}

#[test]
fn content_server_waits_for_the_missing_fragment() {
    let mut server = connected();
    let arrival = |i: u64| packet(PacketType::MsgFragment(fragment(i, 2)), &[20], 50);
    assert_eq!(server.handle_packet(arrival(1), 1).inbound, Inbound::Nothing);
    assert_eq!(server.handle_packet(arrival(1), 1).inbound, Inbound::Nothing);
    assert_eq!(
        server.handle_packet(arrival(0), 1).inbound,
        Inbound::Complete { source: 20, fragments: vec![fragment(0, 2), fragment(1, 2)] }
    );
    assert_eq!(server.reconstruct_message(50), Err(ReconstructError::UnknownKey(50)));
}

#[test]
fn content_server_keeps_sessions_with_unconfirmed_fragments() {
    let mut server = connected();
    let packets: Vec<Packet> = (0..2)
        .map(|i| packet(PacketType::MsgFragment(fragment(i, 2)), &[6, 1, 20], 5))
        .collect();
    server.send_packets(5, packets.clone(), 1);
    server.handle_ack(Ack { fragment_index: 0 }, 5);
    server.handle_ack(Ack { fragment_index: 9 }, 5);
    let step = server.handle_packet(nack(1, NackType::Dropped, &[1, 6], 5), 1);
    assert_eq!(
        step.actions,
        vec![Action::Send { to: 1, packet: packets[1].clone(), delivery: Delivery::Checked }]
    );
}

#[test]
fn content_server_leaves_packets_without_sender_alone() {
    let mut server = connected();
    let packets = vec![
        packet(PacketType::MsgFragment(fragment(0, 1)), &[], 1),
        packet(PacketType::FloodResponse(FloodResponse { flood_id: 1, path_trace: vec![] }), &[], 1),
        nack(0, NackType::Dropped, &[], 1),
    ];
    for p in packets {
        assert!(server.accepts_packet(&p));
        assert_eq!(server.handle_packet(p, 1), nothing());
    }
}

#[test]
fn content_server_answers_requests() {
    let (server, _) = server_with(&[]);
    assert_eq!(
        server.answer(&ClientMessages::ServerType),
        ServerMessages::ServerType(ServerType::Content)
    );
    assert_eq!(
        server.answer(&ClientMessages::FilesList),
        ServerMessages::FilesList(vec![(0, "A".to_string())])
    );
    assert_eq!(
        server.answer(&ClientMessages::File(0)),
        ServerMessages::File(FileContent {
            title: "A".to_string(),
            text: "a".to_string(),
            media_ids: vec![],
        })
    );
    assert_eq!(
        server.answer(&ClientMessages::File(1)),
        ServerMessages::Error("file not found".to_string())
    );
    assert_eq!(server.answer(&ClientMessages::Media(3)), ServerMessages::Media(vec![9, 8]));
    assert_eq!(
        server.answer(&ClientMessages::Media(0)),
        ServerMessages::Error("media not found".to_string())
    );
    for request in [
        ClientMessages::RegistrationToChat,
        ClientMessages::ClientList,
        ClientMessages::MessageFor(1, "x".to_string()),
    ] {
        assert_eq!(
            server.answer(&request),
            ServerMessages::Error("Unknown message type".to_string())
        );
    }
}

#[test]
fn content_server_replies_along_a_shortest_route() {
    let mut server = connected();
    let message = TestMessage::WebServerMessages(ClientMessages::File(7));
    let reply = server.handle_message(20, message);
    assert_eq!(
        reply,
        Reply {
            actions: vec![
                Action::Report(ServerEvent::MessageReceived(TestMessage::WebServerMessages(
                    ClientMessages::File(7)
                ))),
                Action::Report(ServerEvent::Route(vec![6, 1, 20])),
            ],
            outgoing: Some(Outgoing {
                message: ServerMessages::Error("file not found".to_string()),
                route: vec![6, 1, 20],
                neighbour: 1,
            }),
        }
    );
    let message = TestMessage::WebClientMessages(ServerMessages::RegistrationOk);
    assert_eq!(
        server.handle_message(20, message),
        Reply { actions: vec![], outgoing: None }
    );
}

#[test]
fn content_server_announces_no_route_where_there_is_none() {
    let (mut server, _) = server_with(&[1]);
    let reply = server.send_message(ServerMessages::RegistrationOk, 20);
    assert_eq!(reply.actions, vec![Action::Report(ServerEvent::Route(vec![]))]);
    assert_eq!(reply.outgoing, None);
    let reply = server.send_message(ServerMessages::RegistrationOk, 6);
    assert_eq!(reply.actions, vec![Action::Report(ServerEvent::Route(vec![6]))]);
    assert_eq!(reply.outgoing, None);
    server.update_graph(&vec![(6, NodeType::Server), (8, NodeType::Drone)]);
    let reply = server.send_message(ServerMessages::RegistrationOk, 8);
    assert_eq!(reply.actions, vec![Action::Report(ServerEvent::Route(vec![6, 8]))]);
    assert_eq!(reply.outgoing, None);
}

#[test]
fn content_server_answers_floods() {
    let mut server = connected();
    let request = FloodRequest {
        flood_id: 77,
        initiator_id: 20,
        path_trace: vec![(20, NodeType::Client), (1, NodeType::Drone)],
    };
    let step = server.handle_packet(packet(PacketType::FloodRequest(request), &[20, 1, 6], 8), 1);
    assert_eq!(
        step,
        Step {
            actions: vec![Action::Send {
                to: 1,
                packet: Packet {
                    pack_type: PacketType::FloodResponse(FloodResponse {
                        flood_id: 77,
                        path_trace: vec![
                            (20, NodeType::Client),
                            (1, NodeType::Drone),
                            (6, NodeType::Server),
                        ],
                    }),
                    routing_header: SourceRoutingHeader { hop_index: 1, hops: vec![6, 1, 20] },
                    session_id: 8,
                },
                delivery: Delivery::Checked,
            }],
            inbound: Inbound::Nothing,
        }
    );
}

#[test]
fn content_server_learns_from_flood_responses() {
    let (mut server, _) = server_with(&[1]);
    assert_eq!(server.compute_best_path(20), None);
    let response = FloodResponse {
        flood_id: 1,
        path_trace: vec![(6, NodeType::Server), (1, NodeType::Drone), (20, NodeType::Client)],
    };
    let step = server.handle_packet(packet(PacketType::FloodResponse(response), &[20, 1, 6], 8), 1);
    assert_eq!(step, nothing());
    assert_eq!(server.compute_best_path(20), Some(vec![6, 1, 20]));
    server.remove_from_topology(1);
    assert_eq!(server.compute_best_path(20), None);
}

#[test]
fn content_server_sends_and_ends_sessions() {
    let mut server = connected();
    let packets: Vec<Packet> = (0..2)
        .map(|i| packet(PacketType::MsgFragment(fragment(i, 2)), &[6, 1, 20], 9))
        .collect();
    let actions = server.send_packets(9, packets.clone(), 1);
    let departed = |i: usize| {
        let mut p = packets[i].clone();
        p.routing_header.hop_index = 1;
        Action::Send { to: 1, packet: p, delivery: Delivery::Message }
    };
    assert_eq!(actions, vec![departed(0), departed(1)]);
    let resent = |i: usize| vec![Action::Send {
        to: 1,
        packet: packets[i].clone(),
        delivery: Delivery::Checked,
    }];
    let step = server.handle_packet(nack(1, NackType::Dropped, &[1, 6], 9), 1);
    assert_eq!(step.actions, resent(1));
    let ack = |i: u64| packet(PacketType::Ack(Ack { fragment_index: i }), &[20, 1, 6], 9);
    assert_eq!(server.handle_packet(ack(0), 1), nothing());
    let step = server.handle_packet(nack(1, NackType::Dropped, &[1, 6], 9), 1);
    assert_eq!(step.actions, resent(1));
    assert_eq!(server.handle_packet(ack(1), 1), nothing());
    let step = server.handle_packet(nack(1, NackType::Dropped, &[1, 6], 9), 1);
    assert_eq!(step, nothing());
}

#[test]
fn content_server_takes_a_detour_at_the_fourth_drop() {
    let mut server = connected();
    let sent = packet(PacketType::MsgFragment(fragment(0, 1)), &[6, 1, 20], 9);
    server.send_packets(9, vec![sent.clone()], 1);
    for _ in 0..3 {
        let step = server.handle_packet(nack(0, NackType::Dropped, &[1, 6], 9), 40);
        assert_eq!(
            step.actions,
            vec![Action::Send { to: 1, packet: sent.clone(), delivery: Delivery::Checked }]
        );
    }
    let step = server.handle_packet(nack(0, NackType::Dropped, &[1, 6], 9), 40);
    assert_eq!(step.actions.len(), 6);
    assert_eq!(step.actions[0], debug("Server 6: nack drop 4 from 1 / 0"));
    assert_eq!(step.actions[1], debug("Server 6: new route exclude {1}"));
    assert!(same_actions(&step.actions[2..4], &[flood(1, 40), flood(2, 40)]));
    assert_eq!(step.actions[4], Action::Report(ServerEvent::Route(vec![6, 2, 3, 20])));
    let mut moved = sent.clone();
    moved.routing_header = SourceRoutingHeader { hop_index: 1, hops: vec![6, 2, 3, 20] };
    assert_eq!(
        step.actions[5],
        Action::Send { to: 2, packet: moved, delivery: Delivery::Checked }
    );
    let step = server.handle_packet(nack(0, NackType::Dropped, &[1, 6], 9), 40);
    assert_eq!(step, nothing());
}

#[test]
fn content_server_reports_a_missing_detour() {
    let (mut server, _) = server_with(&[1]);
    server.update_graph(&vec![(6, NodeType::Server), (1, NodeType::Drone), (20, NodeType::Client)]);
    server.send_packets(9, vec![packet(PacketType::MsgFragment(fragment(0, 1)), &[6, 1, 20], 9)], 1);
    for _ in 0..3 {
        server.handle_packet(nack(0, NackType::Dropped, &[1, 6], 9), 40);
    }
    let step = server.handle_packet(nack(0, NackType::Dropped, &[1, 6], 9), 40);
    let missing = Action::Report(ServerEvent::Error(
        6,
        20,
        "not alternative path route available by server".to_string(),
    ));
    assert_eq!(step.actions.len(), 4);
    assert_eq!(step.actions[2], flood(1, 40));
    assert_eq!(step.actions[3], missing);
    let (route, actions) = server.compute_route_excluding(20);
    assert_eq!(route, None);
    assert_eq!(actions, vec![Action::Report(ServerEvent::Error(
        6,
        20,
        "not alternative path route available by server".to_string(),
    ))]);
}

#[test]
fn content_server_floods_and_resends_on_other_losses() {
    let mut server = connected();
    let sent = packet(PacketType::MsgFragment(fragment(0, 1)), &[6, 1, 20], 9);
    server.send_packets(9, vec![sent.clone()], 1);
    for kind in
        [NackType::ErrorInRouting(4), NackType::DestinationIsDrone, NackType::UnexpectedRecipient(2)]
    {
        let step = server.handle_packet(nack(0, kind, &[1, 6], 9), 41);
        assert_eq!(step.actions.len(), 3);
        assert!(same_actions(&step.actions[..2], &[flood(1, 41), flood(2, 41)]));
        assert_eq!(
            step.actions[2],
            Action::Send { to: 1, packet: sent.clone(), delivery: Delivery::Checked }
        );
    }
    let step = server.handle_packet(nack(0, NackType::Dropped, &[1, 6], 9), 41);
    assert_eq!(step.actions[0], debug("Server 6: nack drop 4 from 1 / 0"));
}

#[test]
fn content_server_obeys_commands() {
    let (mut server, _) = server_with(&[1]);
    let step = server.handle_command(ServerCommand::AddSender(2), 42);
    assert_eq!(step.actions[0], Action::KeepSender(2));
    assert!(same_actions(&step.actions[1..], &[flood(1, 42), flood(2, 42)]));
    assert_eq!(server.handle_command(ServerCommand::AddSender(2), 43), nothing());
    server.update_graph(&vec![(6, NodeType::Server), (1, NodeType::Drone), (20, NodeType::Client)]);
    let step = server.handle_command(ServerCommand::RemoveSender(1), 44);
    assert_eq!(step.actions, vec![Action::DropSender(1), flood(2, 44)]);
    assert_eq!(server.compute_best_path(20), None);
    assert_eq!(server.handle_command(ServerCommand::RemoveSender(1), 45), nothing());
    let step = server.handle_command(ServerCommand::RequestNetworkDiscovery, 46);
    assert_eq!(step.actions, vec![flood(2, 46)]);
    assert_eq!(server.handle_command(ServerCommand::Unhandled, 47), nothing());
    let shortcut = packet(PacketType::MsgFragment(fragment(0, 1)), &[20, 2, 6], 3);
    let step = server.handle_command(ServerCommand::ControllerShortcut(shortcut), 48);
    assert_eq!(step.inbound, Inbound::Complete { source: 20, fragments: vec![fragment(0, 1)] });
}

#[test]
fn content_server_tells_which_packets_it_can_handle() {
    let mut server = connected();
    let empty = FloodResponse { flood_id: 1, path_trace: vec![] };
    assert!(!server.accepts_packet(&packet(PacketType::FloodResponse(empty), &[1], 1)));
    let empty = FloodRequest { flood_id: 1, initiator_id: 1, path_trace: vec![] };
    assert!(!server.accepts_packet(&packet(PacketType::FloodRequest(empty), &[1], 1)));
    assert!(server.accepts_packet(&nack(0, NackType::Dropped, &[1], 9)));
    server.send_packets(9, vec![packet(PacketType::MsgFragment(fragment(0, 1)), &[6], 9)], 1);
    assert!(!server.accepts_packet(&nack(0, NackType::Dropped, &[1], 9)));
    assert!(!server.accepts_packet(&nack(0, NackType::DestinationIsDrone, &[1], 9)));
    assert!(server.accepts_packet(&nack(1, NackType::DestinationIsDrone, &[1], 9)));
    assert!(server.accepts_packet(&packet(PacketType::Ack(Ack { fragment_index: 0 }), &[1], 9)));
}
