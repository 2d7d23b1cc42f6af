//! What a communication server is for.

use crate::action::{
    action_views, Action, ActionView, Delivery, InboundView, OutgoingView, Reply, ReplyView, Step,
    StepView,
};
use crate::communication_server::{CommunicationServer, CommunicationView};
use crate::graph::GraphView;
use crate::laws::network::law_announced_route_is_best;
use crate::laws::packets::law_every_fragment_is_confirmed;
use crate::message::{
    ClientMessages, ClientMessagesView, ServerCommand, ServerEventView, ServerMessages,
    ServerMessagesView, ServerType, TestMessage,
};
use crate::node::{announced, flood_answer, NodeView};
use crate::packet::{
    packet_views, Ack, Fragment, HeaderView, Nack, NackType, NodeId, NodeType, Packet, PacketType,
    PacketTypeView, PacketView,
};
use crate::reassembly::{reconstructs, ReconstructError};
use crate::route::{is_best_route, reachable};
use crate::server::DronegowskiServer;
use crate::text::{braced, decimal, enumerates};
use std::collections::HashSet;
use vstd::prelude::*;

verus! {

/// A client that asks which clients are registered, whether it is one of them or not, is told all
/// of them in the order of their registration, and nothing changes.
pub proof fn law_client_list_is_the_register(server: CommunicationView, client: NodeId)
    ensures
        ({
            let (after, answer, to) = server.chat(client, ClientMessagesView::ClientList);
            &&& after == server
            &&& to == client
            &&& answer is ClientList
            &&& answer->ClientList_0.len() == server.registered.len()
            &&& forall|i: int|
                0 <= i < server.registered.len() ==> #[trigger] answer->ClientList_0[i]
                    == server.registered[i]
        }),
{
}

/// Two clients that ask which clients are registered are told the same.
pub proof fn law_all_clients_see_the_same_list(
    server: CommunicationView,
    client: NodeId,
    other: NodeId,
)
    ensures
        server.chat(client, ClientMessagesView::ClientList).1 == server.chat(
            other,
            ClientMessagesView::ClientList,
        ).1,
{
}

/// Once a client has registered, every client that asks is told of it and of all who were
/// registered before, in their order, and each client is on the list once.
pub proof fn law_registered_client_is_on_every_list(
    server: CommunicationView,
    client: NodeId,
    asking: NodeId,
    other: NodeId,
)
    requires
        server.registered.no_duplicates(),
    ensures
        ({
            let after = server.chat(client, ClientMessagesView::RegistrationToChat).0;
            let list = after.chat(asking, ClientMessagesView::ClientList).1->ClientList_0;
            &&& list.no_duplicates()
            &&& list.contains(other) <==> server.registered.contains(other) || other == client
            &&& forall|i: int|
                0 <= i < server.registered.len() ==> #[trigger] list[i] == server.registered[i]
        }),
{
    let registered = server.registered;
    if !registered.contains(client) {
        let after = registered.push(client);
        assert(after[registered.len() as int] == client);
        if registered.contains(other) {
            assert(after[registered.index_of(other)] == other);
        }
        if after.contains(other) {
            let i = after.index_of(other);
            assert(i < registered.len() ==> registered[i] == other);
        }
    }
}

/// A client that is not registered is added behind the others and told so; one that is registered
/// is refused. Nothing else changes.
pub proof fn law_registration(server: CommunicationView, client: NodeId)
    ensures
        ({
            let (after, answer, to) = server.chat(client, ClientMessagesView::RegistrationToChat);
            &&& to == client
            &&& after.node == server.node
            &&& after.server_type == server.server_type
            &&& if server.registered.contains(client) {
                &&& after.registered == server.registered
                &&& answer == ServerMessagesView::RegistrationError(
                    "client already registered"@,
                )
            } else {
                &&& after.registered.len() == server.registered.len() + 1
                &&& after.registered.last() == client
                &&& forall|i: int|
                    0 <= i < server.registered.len() ==> #[trigger] after.registered[i]
                        == server.registered[i]
                &&& answer == ServerMessagesView::RegistrationOk
            }
        }),
{
}

/// A chat message goes, unchanged and with the number of its sender, to its target exactly if both
/// are registered; otherwise its sender is told that it, or else the target, is not. Nothing
/// changes.
pub proof fn law_chat_message(
    server: CommunicationView,
    client: NodeId,
    target: NodeId,
    text: Seq<char>,
)
    ensures
        ({
            let (after, answer, to) = server.chat(
                client,
                ClientMessagesView::MessageFor(target, text),
            );
            &&& after == server
            &&& server.registered.contains(client) && server.registered.contains(target) ==> to
                == target && answer == ServerMessagesView::MessageFrom(client, text)
            &&& !server.registered.contains(client) ==> to == client && answer
                == ServerMessagesView::Error(
                decimal(client as nat) + " not registered to server"@,
            )
            &&& server.registered.contains(client) && !server.registered.contains(target) ==> to
                == client && answer == ServerMessagesView::Error(
                decimal(target as nat) + " not registered to server"@,
            )
        }),
{
}

/// A client that asks is told what the server is for, and every request that the server does not
/// know is refused to the client that made it. Nothing changes.
pub proof fn law_other_requests(
    server: CommunicationView,
    client: NodeId,
    request: ClientMessagesView,
)
    ensures
        request is ServerType ==> server.chat(client, request) == (
            server,
            ServerMessagesView::ServerType(server.server_type),
            client,
        ),
        request is FilesList || request is File || request is Media ==> server.chat(
            client,
            request,
        ) == (
            server,
            ServerMessagesView::Error("Unknown ClientMessage received"@),
            client,
        ),
{
}

/// A message is sent by forgetting which nodes were avoided and announcing a best route to its
/// destination, over known edges into drones or the destination itself; it is given out along that
/// route if there is a channel to its second node. Nothing else changes.
pub proof fn law_message_is_sent(
    server: CommunicationView,
    message: ServerMessagesView,
    to: NodeId,
    after: CommunicationView,
    reply: ReplyView,
)
    requires
        server.sends(message, to, after, reply),
    ensures
        after == (CommunicationView {
            node: NodeView { excluded: Set::empty(), ..server.node },
            ..server
        }),
        exists|route: Seq<NodeId>|
            #![trigger announced(
                server.node.graph.relayed(server.node.graph.edges, to),
                route,
                server.node.id,
                to,
            )]
            {
                &&& is_best_route(
                    server.node.graph.relayed(server.node.graph.edges, to),
                    if route.len() == 0 {
                        None
                    } else {
                        Some(route)
                    },
                    server.node.id,
                    to,
                )
                &&& reply.actions == seq![ActionView::Report(ServerEventView::Route(route))]
                &&& reply.outgoing == (if route.len() > 1 && server.node.neighbours.contains(
                    route[1],
                ) {
                    Some(OutgoingView { message, route, neighbour: route[1] })
                } else {
                    None
                })
            },
{
    let edges = server.node.graph.relayed(server.node.graph.edges, to);
    let route = choose|route: Seq<NodeId>| #[trigger]
        announced(edges, route, server.node.id, to) && reply == server.node.sends_along(
            route,
            message,
        );
    law_announced_route_is_best(edges, route, server.node.id, to);
    assert(reply.actions == seq![ActionView::Report(ServerEventView::Route(route))]);
}

/// `serve` does for a request what the rules of the chat say, and sends the message that follows
/// to the node that it is for; in particular a client that asks which clients are registered is
/// told all of them.
pub proof fn law_serve(
    server: &mut CommunicationServer,
    client: NodeId,
    request: ClientMessages,
    reply: Reply,
)
    requires
        call_ensures(CommunicationServer::serve, (server, client, request), reply),
    ensures
        ({
            let (served, answer, to) = old(server)@.chat(client, request@);
            served.sends(answer, to, final(server)@, reply@)
        }),
        request is ClientList ==> {
            &&& final(server)@.registered == old(server)@.registered
            &&& reply@.outgoing is Some ==> {
                &&& reply@.outgoing->0.message == ServerMessagesView::ClientList(
                    old(server)@.registered,
                )
                &&& reply@.outgoing->0.route.last() == client
            }
        },
{
}

/// `send_message` sends the message that it is given to the node that it is given.
pub proof fn law_send_message(
    server: &mut CommunicationServer,
    message: ServerMessages,
    destination: NodeId,
    reply: Reply,
)
    requires
        call_ensures(CommunicationServer::send_message, (server, message, destination), reply),
    ensures
        old(server)@.sends(message@, destination, final(server)@, reply@),
{
}

/// A client is told what the server is for.
pub proof fn law_type_is_sent(
    server: &mut CommunicationServer,
    client: NodeId,
    reply: Reply,
)
    requires
        call_ensures(CommunicationServer::send_my_type, (server, client), reply),
    ensures
        old(server)@.sends(
            ServerMessagesView::ServerType(old(server)@.server_type),
            client,
            final(server)@,
            reply@,
        ),
{
}

/// A client is told all the registered clients, in the order of their registration.
pub proof fn law_register_is_sent(
    server: &mut CommunicationServer,
    client: NodeId,
    reply: Reply,
)
    requires
        call_ensures(CommunicationServer::send_register_client, (server, client), reply),
    ensures
        old(server)@.sends(
            ServerMessagesView::ClientList(old(server)@.registered),
            client,
            final(server)@,
            reply@,
        ),
{
}

/// A chat message is sent to its target with the number of its sender.
pub proof fn law_message_is_forwarded(
    server: &mut CommunicationServer,
    target: NodeId,
    client: NodeId,
    text: String,
    reply: Reply,
)
    requires
        call_ensures(CommunicationServer::forward_message, (server, target, client, text), reply),
    ensures
        old(server)@.sends(
            ServerMessagesView::MessageFrom(client, text@),
            target,
            final(server)@,
            reply@,
        ),
{
}

/// A client that registers is registered, or refused if it was, and told which.
pub proof fn law_client_is_registered(
    server: &mut CommunicationServer,
    client: NodeId,
    reply: Reply,
)
    requires
        call_ensures(CommunicationServer::register_client, (server, client), reply),
    ensures
        ({
            let (served, answer, to) = old(server)@.chat(
                client,
                ClientMessagesView::RegistrationToChat,
            );
            served.sends(answer, to, final(server)@, reply@)
        }),
{
}

/// A request is reported, and what the rules of the chat say is done: a best route to the node that
/// the message is for is announced, and the message is given out along it if there is a channel to
/// its second node. A message that is no request does nothing.
pub proof fn law_request_is_served(
    server: &mut CommunicationServer,
    source: NodeId,
    message: TestMessage,
    reply: Reply,
)
    requires
        call_ensures(
            <CommunicationServer as DronegowskiServer>::handle_message,
            (server, source, message),
            reply,
        ),
    ensures
        message matches TestMessage::WebServerMessages(request) ==> {
            let (served, answer, to) = old(server)@.chat(source, request@);
            &&& final(server)@ == (CommunicationView {
                node: NodeView { excluded: Set::empty(), ..served.node },
                ..served
            })
            &&& reply@.actions.len() == 2
            &&& reply@.actions[0] == ActionView::Report(
                ServerEventView::MessageReceived(message@),
            )
            &&& reply@.actions[1] is Report
            &&& reply@.actions[1]->Report_0 is Route
            &&& ({
                let route = reply@.actions[1]->Report_0->Route_0;
                &&& is_best_route(
                    old(server)@.node.graph.relayed(old(server)@.node.graph.edges, to),
                    if route.len() == 0 {
                        None
                    } else {
                        Some(route)
                    },
                    old(server)@.node.id,
                    to,
                )
                &&& reply@.outgoing == (if route.len() > 1
                    && old(server)@.node.neighbours.contains(route[1]) {
                    Some(OutgoingView { message: answer, route, neighbour: route[1] })
                } else {
                    None
                })
            })
        },
        message is WebClientMessages ==> final(server)@ == old(server)@
            && reply@.actions.len() == 0 && reply@.outgoing is None,
{
    if message is WebServerMessages {
        let s = old(server)@;
        let (served, answer, to) = s.chat(source, message->WebServerMessages_0@);
        let edges = s.node.graph.relayed(s.node.graph.edges, to);
        let route = choose|route: Seq<NodeId>| #[trigger]
            announced(edges, route, s.node.id, to) && reply@ == s.node.sends_along(
                route,
                answer,
            ).after(seq![ActionView::Report(ServerEventView::MessageReceived(message@))]);
        law_announced_route_is_best(edges, route, s.node.id, to);
        assert(reply@.actions =~= seq![
            ActionView::Report(ServerEventView::MessageReceived(message@)),
            ActionView::Report(ServerEventView::Route(route)),
        ]);
    }
}

/// A fragment that takes a detour makes its whole session take it: the packet that waits at its
/// index is sent, unchanged but for its route, along a best route to its own destination over
/// drones that enters no avoided node, and every packet of the session has that route from then
/// on. Where there is no such route, that is reported twice, for the destination and for the
/// fragment; where nothing waits at the index, nothing is done.
pub proof fn law_session_takes_a_detour(
    server: CommunicationView,
    session: u64,
    fragment: u64,
    after: CommunicationView,
    actions: Seq<ActionView>,
)
    requires
        server.reroutes(session, fragment, after, actions),
    ensures
        ({
            let pending = server.node.sessions.pending;
            let id = server.node.id;
            let packet = pending[session][fragment as int];
            let target = packet.routing_header.hops.last();
            let edges = server.node.graph.relayed(
                server.node.graph.detours(server.node.excluded),
                target,
            );
            if !pending.contains_key(session) || fragment >= pending[session].len()
                || packet.routing_header.hops.len() == 0 {
                after == server && actions.len() == 0
            } else if reachable(edges, id, target) {
                let path = after.node.sessions.pending[session][fragment as int].routing_header.hops;
                &&& is_best_route(edges, Some(path), id, target)
                &&& after == CommunicationView {
                    node: NodeView {
                        sessions: server.node.sessions.rerouted(session, path),
                        ..server.node
                    },
                    ..server
                }
                &&& actions == if path.len() > 1 && server.node.neighbours.contains(path[1]) {
                    seq![
                        ActionView::Send {
                            to: path[1],
                            packet: PacketView {
                                pack_type: packet.pack_type,
                                routing_header: HeaderView { hop_index: 1, hops: path },
                                session_id: packet.session_id,
                            },
                            delivery: Delivery::Checked,
                        },
                    ]
                } else {
                    seq![]
                }
            } else {
                &&& after == server
                &&& actions == seq![
                    ActionView::Report(
                        ServerEventView::Error(
                            id,
                            target,
                            "not alternative path route available by server"@,
                        ),
                    ),
                    ActionView::Report(
                        ServerEventView::Error(
                            id,
                            target,
                            "No alternative path for fragment "@ + decimal(fragment as nat),
                        ),
                    ),
                ]
            }
        }),
{
}

/// `resend_with_new_path` makes the session of the fragment that it is given take a detour.
pub proof fn law_resend_with_new_path(
    server: &mut CommunicationServer,
    session: u64,
    fragment: u64,
    actions: Vec<Action>,
)
    requires
        call_ensures(
            CommunicationServer::resend_with_new_path,
            (server, session, fragment),
            actions,
        ),
    ensures
        old(server)@.reroutes(session, fragment, final(server)@, action_views(actions@)),
{
}

/// A fragment that a node drops, up to the ninth time, is counted for its fragment, session and
/// reporter, and sent again as it waits, along its own route; nothing else changes.
pub proof fn law_dropped_fragment_is_sent_again(
    server: CommunicationView,
    nack: Nack,
    session: u64,
    node: NodeId,
    flood_id: u64,
    after: CommunicationView,
    actions: Seq<ActionView>,
)
    requires
        server.loss_step(nack, session, node, flood_id, after, actions),
        nack.nack_type == NackType::Dropped,
        server.node.sessions.nacks.contains_key((nack.fragment_index, session, node))
            ==> server.node.sessions.nacks[(nack.fragment_index, session, node)] < 9,
    ensures
        ({
            let key = (nack.fragment_index, session, node);
            let pending = server.node.sessions.pending;
            let waits = pending.contains_key(session) && nack.fragment_index
                < pending[session].len();
            let packet = pending[session][nack.fragment_index as int];
            let hops = packet.routing_header.hops;
            &&& after == CommunicationView {
                node: NodeView {
                    sessions: server.node.sessions.with_loss(key),
                    ..server.node
                },
                ..server
            }
            &&& actions == if waits && hops.len() > 1 && server.node.neighbours.contains(hops[1]) {
                seq![ActionView::Send { to: hops[1], packet, delivery: Delivery::Checked }]
            } else {
                seq![]
            }
        }),
{
}

/// When a node drops the same fragment for the tenth time, the server reports the loss and the
/// nodes that it avoids, this one among them, forgets the count, and makes the session of the very
/// fragment that the report names take a detour.
pub proof fn law_tenth_drop_makes_that_session_take_a_detour(
    server: CommunicationView,
    nack: Nack,
    session: u64,
    node: NodeId,
    flood_id: u64,
    after: CommunicationView,
    actions: Seq<ActionView>,
)
    requires
        server.loss_step(nack, session, node, flood_id, after, actions),
        nack.nack_type == NackType::Dropped,
        server.node.sessions.nacks.contains_key((nack.fragment_index, session, node)),
        server.node.sessions.nacks[(nack.fragment_index, session, node)] == 9,
    ensures
        exists|order: Seq<NodeId>|
            {
                let id = server.node.id;
                let avoiding = CommunicationView {
                    node: NodeView {
                        excluded: server.node.excluded.insert(node),
                        sessions: server.node.sessions.without_loss(
                            (nack.fragment_index, session, node),
                        ),
                        ..server.node
                    },
                    ..server
                };
                &&& #[trigger] enumerates(order, server.node.excluded.insert(node))
                &&& actions.len() >= 2
                &&& actions[0] == ActionView::Report(
                    ServerEventView::DebugMessage(
                        id,
                        "Server "@ + decimal(id as nat) + ": nack drop "@ + decimal(10) + " from "@
                            + decimal(node as nat) + " / "@ + decimal(nack.fragment_index as nat),
                    ),
                )
                &&& actions[1] == ActionView::Report(
                    ServerEventView::DebugMessage(
                        id,
                        "Server "@ + decimal(id as nat) + ": new route exclude "@ + braced(order),
                    ),
                )
                &&& avoiding.reroutes(session, nack.fragment_index, after, actions.skip(2))
            },
{
    let key = (nack.fragment_index, session, node);
    let evading = server.with_loss(nack.fragment_index, session, node).with_excluded(
        nack.fragment_index,
        session,
        node,
    );
    let avoiding = CommunicationView {
        node: NodeView {
            excluded: server.node.excluded.insert(node),
            sessions: server.node.sessions.without_loss(key),
            ..server.node
        },
        ..server
    };
    assert(evading =~= avoiding) by {
        assert(evading.node.sessions.nacks =~= avoiding.node.sessions.nacks);
    }
    let (order, resent) = choose|order: Seq<NodeId>, resent: Seq<ActionView>|
        #[trigger] enumerates(order, evading.node.excluded) && #[trigger] evading.reroutes(
            session,
            nack.fragment_index,
            after,
            resent,
        ) && actions == seq![
            server.node.loss_report(10, node, nack.fragment_index),
            server.node.exclusion_report(order),
        ] + resent;
    assert(actions.skip(2) =~= resent);
    assert(enumerates(order, server.node.excluded.insert(node)));
}

/// A fragment that was lost otherwise makes the server forget the network, ask for paths, report
/// that it does, and send that fragment again as it waits, along its own route. Nothing is counted,
/// and nothing else changes.
pub proof fn law_fragment_lost_otherwise_is_sent_again(
    server: CommunicationView,
    nack: Nack,
    session: u64,
    node: NodeId,
    flood_id: u64,
    after: CommunicationView,
    actions: Seq<ActionView>,
)
    requires
        server.loss_step(nack, session, node, flood_id, after, actions),
        nack.nack_type != NackType::Dropped,
    ensures
        after == (CommunicationView {
            node: NodeView { graph: GraphView::unknown(), ..server.node },
            ..server
        }),
        exists|flood: Seq<ActionView>|
            {
                let pending = server.node.sessions.pending;
                let waits = pending.contains_key(session) && nack.fragment_index
                    < pending[session].len();
                let packet = pending[session][nack.fragment_index as int];
                let hops = packet.routing_header.hops;
                &&& #[trigger] server.node.floods(flood_id, flood)
                &&& actions == flood + seq![
                    ActionView::Report(
                        ServerEventView::DebugMessage(
                            server.node.id,
                            "Server "@ + decimal(server.node.id as nat) + ": new route?"@,
                        ),
                    ),
                ] + (if waits && hops.len() > 1 && server.node.neighbours.contains(hops[1]) {
                    seq![ActionView::Send { to: hops[1], packet, delivery: Delivery::Checked }]
                } else {
                    seq![]
                })
            },
{
}

/// `handle_nack` takes a loss step with the fragment, session and node that it is given.
pub proof fn law_handle_nack(
    server: &mut CommunicationServer,
    nack: Nack,
    session: u64,
    node: NodeId,
    flood_id: u64,
    actions: Vec<Action>,
)
    requires
        call_ensures(
            CommunicationServer::handle_nack,
            (server, nack, session, node, flood_id),
            actions,
        ),
    ensures
        old(server)@.loss_step(
            nack,
            session,
            node,
            flood_id,
            final(server)@,
            action_views(actions@),
        ),
{
}

/// A path is learned, a request for paths is answered to the node that it came from, a
/// confirmation is recorded, a loss is handled as reported by the first node of the route, and a
/// fragment with a sender is taken in from it; in each case nothing else of the server changes. A
/// fragment without a sender is left alone.
pub proof fn law_packet_is_handled(
    server: CommunicationView,
    packet: PacketView,
    flood_id: u64,
    after: CommunicationView,
    step: StepView,
)
    requires
        server.packet_step(packet, flood_id, after, step),
    ensures
        match packet.pack_type {
            PacketTypeView::MsgFragment(fragment) => if packet.routing_header.hops.len() > 0 {
                &&& after == CommunicationView { node: after.node, ..server }
                &&& server.node.receives(
                    "Server "@,
                    packet.routing_header.hops[0],
                    packet,
                    fragment,
                    after.node,
                    step,
                )
            } else {
                &&& after == server
                &&& step.actions.len() == 0
                &&& step.inbound == InboundView::Nothing
            },
            PacketTypeView::FloodResponse(response) => {
                &&& after == CommunicationView {
                    node: NodeView {
                        graph: server.node.graph.with_path(response.path_trace),
                        ..server.node
                    },
                    ..server
                }
                &&& step.actions.len() == 0
                &&& step.inbound == InboundView::Nothing
            },
            PacketTypeView::FloodRequest(request) => {
                &&& after == server
                &&& step.inbound == InboundView::Nothing
                &&& request.path_trace.len() > 0 ==> step.actions == (
                if server.node.neighbours.contains(request.path_trace.last().0) {
                    seq![
                        ActionView::Send {
                            to: request.path_trace.last().0,
                            packet: flood_answer(server.node.id, request, packet.session_id),
                            delivery: Delivery::Checked,
                        },
                    ]
                } else {
                    seq![]
                })
            },
            PacketTypeView::Ack(ack) => {
                &&& after == CommunicationView {
                    node: NodeView {
                        sessions: server.node.sessions.acknowledged(
                            packet.session_id,
                            ack.fragment_index,
                        ),
                        ..server.node
                    },
                    ..server
                }
                &&& step.actions.len() == 0
                &&& step.inbound == InboundView::Nothing
            },
            PacketTypeView::Nack(nack) => {
                &&& step.inbound == InboundView::Nothing
                &&& server.loss_step(
                    nack,
                    packet.session_id,
                    packet.routing_header.hops[0],
                    flood_id,
                    after,
                    step.actions,
                )
            },
        },
{
}

/// `handle_packet` takes a packet step.
pub proof fn law_handle_packet(
    server: &mut CommunicationServer,
    packet: Packet,
    flood_id: u64,
    step: Step,
)
    requires
        call_ensures(
            <CommunicationServer as DronegowskiServer>::handle_packet,
            (server, packet, flood_id),
            step,
        ),
    ensures
        old(server)@.packet_step(packet@, flood_id, final(server)@, step@),
{
}

/// Every fragment that comes in is confirmed to its sender exactly once, whatever its index and
/// total, if there is a channel to the node before the server on its route.
pub proof fn law_every_fragment_that_comes_in_is_confirmed(
    server: &mut CommunicationServer,
    packet: Packet,
    fragment: Fragment,
    flood_id: u64,
    step: Step,
)
    requires
        call_ensures(
            <CommunicationServer as DronegowskiServer>::handle_packet,
            (server, packet, flood_id),
            step,
        ),
        packet.pack_type == PacketType::MsgFragment(fragment),
        packet.routing_header.hops@.len() > 1,
        old(server)@.node.neighbours.contains(
            packet.routing_header.hops@[packet.routing_header.hops@.len() - 2],
        ),
    ensures
        ({
            let hops = packet.routing_header.hops@;
            let n = hops.len() as int;
            &&& step@.actions.len() == 2
            &&& step@.actions[0] is Report
            &&& step@.actions[1] == (ActionView::Send {
                to: hops[n - 2],
                packet: PacketView {
                    pack_type: PacketTypeView::Ack(
                        Ack { fragment_index: fragment.fragment_index },
                    ),
                    routing_header: HeaderView {
                        hop_index: 1,
                        hops: Seq::new(hops.len(), |i: int| hops[n - 1 - i]),
                    },
                    session_id: packet.session_id,
                },
                delivery: Delivery::Confirmation,
            })
        }),
{
    law_every_fragment_is_confirmed(
        old(server)@.node,
        "Server "@,
        packet.routing_header.hops@[0],
        packet@,
        fragment,
        final(server)@.node,
        step@,
    );
}

/// A packet can be handled unless it carries an empty path, or reports a loss without a sender or,
/// where the fragment was not dropped, of a packet whose route has no second node.
pub proof fn law_accepted_packets(server: &CommunicationServer, packet: &Packet, res: bool)
    requires
        call_ensures(
            <CommunicationServer as DronegowskiServer>::accepts_packet,
            (server, packet),
            res,
        ),
    ensures
        res == server.accepts(packet@),
        res == match packet.pack_type {
            PacketType::MsgFragment(_) => true,
            PacketType::Ack(_) => true,
            PacketType::FloodRequest(request) => request.path_trace@.len() > 0,
            PacketType::FloodResponse(response) => response.path_trace@.len() > 0,
            PacketType::Nack(nack) => {
                let pending = server@.node.sessions.pending;
                let stuck = pending.contains_key(packet.session_id) && nack.fragment_index
                    < pending[packet.session_id].len()
                    && pending[packet.session_id][nack.fragment_index as int].routing_header.hops.len()
                    <= 1;
                &&& packet.routing_header.hops@.len() > 0
                &&& nack.nack_type == NackType::Dropped || !stuck
            },
        },
{
}

/// A new neighbour is taken up with its channel; one that the server has changes nothing.
pub proof fn law_neighbour_is_added(
    server: &mut CommunicationServer,
    node: NodeId,
    flood_id: u64,
    actions: Vec<Action>,
)
    requires
        call_ensures(
            <CommunicationServer as DronegowskiServer>::add_neighbor,
            (server, node, flood_id),
            actions,
        ),
    ensures
        final(server)@ == (CommunicationView {
            node: NodeView {
                neighbours: old(server)@.node.neighbours.insert(node),
                ..old(server)@.node
            },
            ..old(server)@
        }),
        action_views(actions@) == (if old(server)@.node.neighbours.contains(node) {
            seq![]
        } else {
            seq![ActionView::KeepSender(node)]
        }),
{
}

/// A neighbour is let go of with its channel and is forgotten; a node that is no neighbour changes
/// nothing.
pub proof fn law_neighbour_is_removed(
    server: &mut CommunicationServer,
    node: NodeId,
    flood_id: u64,
    actions: Vec<Action>,
)
    requires
        call_ensures(
            <CommunicationServer as DronegowskiServer>::remove_neighbor,
            (server, node, flood_id),
            actions,
        ),
    ensures
        if old(server)@.node.neighbours.contains(node) {
            &&& final(server)@ == (CommunicationView {
                node: NodeView {
                    neighbours: old(server)@.node.neighbours.remove(node),
                    graph: old(server)@.node.graph.without_node(node),
                    ..old(server)@.node
                },
                ..old(server)@
            })
            &&& action_views(actions@) == seq![ActionView::DropSender(node)]
        } else {
            final(server)@ == old(server)@ && actions@.len() == 0
        },
{
    assert(action_views(actions@).len() == actions@.len());
}

/// A command adds or removes the neighbour that it names, or does neither, and then makes the
/// server forget the network and ask the neighbours that it has for paths; or it hands its packet
/// in as if it had come over the network. Any other command does nothing.
pub proof fn law_command_is_obeyed(
    server: &mut CommunicationServer,
    command: ServerCommand,
    flood_id: u64,
    step: Step,
)
    requires
        call_ensures(
            <CommunicationServer as DronegowskiServer>::handle_command,
            (server, command, flood_id),
            step,
        ),
    ensures
        ({
            let before = old(server)@;
            let after = final(server)@;
            let had = |node: NodeId| before.node.neighbours.contains(node);
            match command {
                ServerCommand::AddSender(node) => {
                    let kept: int = if had(node) {
                        0
                    } else {
                        1
                    };
                    &&& step@.inbound == InboundView::Nothing
                    &&& after == CommunicationView {
                        node: NodeView {
                            neighbours: before.node.neighbours.insert(node),
                            graph: GraphView::unknown(),
                            ..before.node
                        },
                        ..before
                    }
                    &&& step@.actions.len() >= kept
                    &&& !had(node) ==> step@.actions[0] == ActionView::KeepSender(node)
                    &&& after.node.floods(flood_id, step@.actions.skip(kept))
                },
                ServerCommand::RemoveSender(node) => {
                    let dropped: int = if had(node) {
                        1
                    } else {
                        0
                    };
                    &&& step@.inbound == InboundView::Nothing
                    &&& after == CommunicationView {
                        node: NodeView {
                            neighbours: before.node.neighbours.remove(node),
                            graph: GraphView::unknown(),
                            ..before.node
                        },
                        ..before
                    }
                    &&& step@.actions.len() >= dropped
                    &&& had(node) ==> step@.actions[0] == ActionView::DropSender(node)
                    &&& after.node.floods(flood_id, step@.actions.skip(dropped))
                },
                ServerCommand::ControllerShortcut(packet) => before.packet_step(
                    packet@,
                    flood_id,
                    after,
                    step@,
                ),
                ServerCommand::RequestNetworkDiscovery => {
                    &&& step@.inbound == InboundView::Nothing
                    &&& after == CommunicationView {
                        node: NodeView { graph: GraphView::unknown(), ..before.node },
                        ..before
                    }
                    &&& after.node.floods(flood_id, step@.actions)
                },
                ServerCommand::Unhandled => {
                    &&& after == before
                    &&& step@.inbound == InboundView::Nothing
                    &&& step@.actions.len() == 0
                },
            }
        }),
{
    let before = old(server)@;
    let after = final(server)@;
    match command {
        ServerCommand::AddSender(node) => {
            lemma_discovery(
                before.with_neighbour(node),
                flood_id,
                before.keeps(node),
                after,
                step@.actions,
            );
        },
        ServerCommand::RemoveSender(node) => {
            lemma_discovery(
                before.without_neighbour(node),
                flood_id,
                before.drops(node),
                after,
                step@.actions,
            );
            assert(!before.node.neighbours.contains(node) ==> before.node.neighbours.remove(node)
                =~= before.node.neighbours);
        },
        ServerCommand::RequestNetworkDiscovery => {
            lemma_discovery(before, flood_id, seq![], after, step@.actions);
            assert(step@.actions.skip(0) =~= step@.actions);
        },
        _ => {},
    }
}

proof fn lemma_discovery(
    server: CommunicationView,
    flood_id: u64,
    first: Seq<ActionView>,
    after: CommunicationView,
    actions: Seq<ActionView>,
)
    requires
        server.discovers(flood_id, first, after, actions),
    ensures
        after == (CommunicationView {
            node: NodeView { graph: GraphView::unknown(), ..server.node },
            ..server
        }),
        actions.len() >= first.len(),
        actions.take(first.len() as int) == first,
        forall|i: int| 0 <= i < first.len() ==> #[trigger] actions[i] == first[i],
        after.node.floods(flood_id, actions.skip(first.len() as int)),
{
    let flood = choose|flood: Seq<ActionView>| #[trigger]
        server.node.floods(flood_id, flood) && actions == first + flood;
    assert(actions.take(first.len() as int) =~= first);
    assert(actions.skip(first.len() as int) =~= flood);
    let walk = choose|walk: Seq<NodeId>|
        enumerates(walk, server.node.neighbours) && flood == #[trigger] server.node.flood(
            walk,
            flood_id,
        );
    assert(after.node.flood(walk, flood_id) =~= server.node.flood(walk, flood_id));
}

/// A new server has its number and neighbours, no registered clients, knows nothing else, and asks
/// its neighbours for paths.
pub proof fn law_new_server(
    id: NodeId,
    neighbours: HashSet<NodeId>,
    server_type: ServerType,
    flood_id: u64,
    res: (CommunicationServer, Vec<Action>),
)
    requires
        call_ensures(CommunicationServer::new, (id, neighbours, server_type, flood_id), res),
    ensures
        res.0@.node == NodeView::fresh(id, neighbours@),
        res.0@.server_type == server_type,
        res.0@.registered.len() == 0,
        res.0@.node.floods(flood_id, action_views(res.1@)),
{
}

/// Looking at the network makes the server forget what it knows of it and ask every neighbour for
/// paths.
pub proof fn law_discovery(server: &mut CommunicationServer, flood_id: u64, actions: Vec<Action>)
    requires
        call_ensures(
            <CommunicationServer as DronegowskiServer>::network_discovery,
            (server, flood_id),
            actions,
        ),
    ensures
        final(server)@ == (CommunicationView {
            node: NodeView { graph: GraphView::unknown(), ..old(server)@.node },
            ..old(server)@
        }),
        old(server)@.node.floods(flood_id, action_views(actions@)),
{
}

/// A client is registered exactly if it is on the register.
pub proof fn law_is_registered(server: &CommunicationServer, client: NodeId, res: bool)
    requires
        call_ensures(CommunicationServer::is_registered, (server, client), res),
    ensures
        res <==> exists|i: int|
            0 <= i < server@.registered.len() && #[trigger] server@.registered[i] == client,
{
}

/// The packets of a message wait under their session and leave, in order, to the neighbour that
/// takes them; nothing else changes.
pub proof fn law_packets_are_sent(
    server: &mut CommunicationServer,
    session: u64,
    packets: Vec<Packet>,
    neighbour: NodeId,
    actions: Vec<Action>,
)
    requires
        call_ensures(
            <CommunicationServer as DronegowskiServer>::send_packets,
            (server, session, packets, neighbour),
            actions,
        ),
    ensures
        action_views(actions@) == NodeView::departures(packet_views(packets@), neighbour),
        final(server)@ == (CommunicationView {
            node: NodeView {
                sessions: old(server)@.node.sessions.with_pending(
                    session,
                    packet_views(packets@),
                ),
                ..old(server)@.node
            },
            ..old(server)@
        }),
{
}

/// A confirmation is recorded for its fragment and session, and nothing else changes.
pub proof fn law_ack_is_recorded(server: &mut CommunicationServer, ack: Ack, session: u64)
    requires
        call_ensures(CommunicationServer::handle_ack, (server, ack, session), ()),
    ensures
        final(server)@ == (CommunicationView {
            node: NodeView {
                sessions: old(server)@.node.sessions.acknowledged(session, ack.fragment_index),
                ..old(server)@.node
            },
            ..old(server)@
        }),
{
}

/// A path is learned, and nothing else changes.
pub proof fn law_path_is_learned(server: &mut CommunicationServer, trace: &Vec<(NodeId, NodeType)>)
    requires
        call_ensures(
            <CommunicationServer as DronegowskiServer>::update_graph,
            (server, trace),
            (),
        ),
    ensures
        final(server)@ == (CommunicationView {
            node: NodeView {
                graph: old(server)@.node.graph.with_path(trace@),
                ..old(server)@.node
            },
            ..old(server)@
        }),
{
}

/// A node is forgotten, and nothing else changes.
pub proof fn law_topology_forgets_node(server: &mut CommunicationServer, node: NodeId)
    requires
        call_ensures(
            <CommunicationServer as DronegowskiServer>::remove_from_topology,
            (server, node),
            (),
        ),
    ensures
        final(server)@ == (CommunicationView {
            node: NodeView {
                graph: old(server)@.node.graph.without_node(node),
                ..old(server)@.node
            },
            ..old(server)@
        }),
{
}

/// A session is reconstructed from what is stored of it, and nothing but the storage changes.
pub proof fn law_session_is_reconstructed(
    server: &mut CommunicationServer,
    key: u64,
    res: Result<Vec<Fragment>, ReconstructError>,
)
    requires
        call_ensures(
            <CommunicationServer as DronegowskiServer>::reconstruct_message,
            (server, key),
            res,
        ),
    ensures
        reconstructs(
            old(server)@.node.storage,
            key,
            final(server)@.node.storage,
            match res {
                Ok(parts) => Ok(parts@),
                Err(error) => Err(error),
            },
        ),
        final(server)@ == (CommunicationView {
            node: NodeView { storage: final(server)@.node.storage, ..old(server)@.node },
            ..old(server)@
        }),
{
}

/// The best path is a best route over the known edges that enter drones or the target.
pub proof fn law_best_path(server: &CommunicationServer, target: NodeId, res: Option<Vec<NodeId>>)
    requires
        call_ensures(
            <CommunicationServer as DronegowskiServer>::compute_best_path,
            (server, target),
            res,
        ),
    ensures
        is_best_route(
            server@.node.graph.relayed(server@.node.graph.edges, target),
            match res {
                Some(path) => Some(path@),
                None => None,
            },
            server@.node.id,
            target,
        ),
{
}

/// The route around excluded nodes is a best one over drones that enters none of them; that there
/// is none is reported.
pub proof fn law_route_around_excluded_nodes(
    server: &CommunicationServer,
    target: NodeId,
    res: (Option<Vec<NodeId>>, Vec<Action>),
)
    requires
        call_ensures(CommunicationServer::compute_route_excluding, (server, target), res),
    ensures
        is_best_route(
            server@.node.graph.relayed(
                server@.node.graph.detours(server@.node.excluded),
                target,
            ),
            match res.0 {
                Some(path) => Some(path@),
                None => None,
            },
            server@.node.id,
            target,
        ),
        res.0 is Some ==> action_views(res.1@).len() == 0,
        res.0 is None ==> action_views(res.1@) == seq![
            ActionView::Report(
                ServerEventView::Error(
                    server@.node.id,
                    target,
                    "not alternative path route available by server"@,
                ),
            ),
        ],
{
}

/// A copy of a server is like the server.
pub proof fn law_copy_is_alike(server: &CommunicationServer, res: CommunicationServer)
    requires
        call_ensures(CommunicationServer::clone, (server,), res),
    ensures
        res@ == server@,
{
}

} // verus!
