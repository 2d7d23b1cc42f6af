//! What a content server is for.

use crate::action::{
    action_views, Action, ActionView, Delivery, InboundView, OutgoingView, Reply, Step, StepView,
};
use crate::content_server::{ContentServer, ContentView};
use crate::laws::network::{law_announced_route_is_best, law_flood_requests};
use crate::laws::packets::law_every_fragment_is_confirmed;
use crate::laws::store::law_last_file_of_a_digit_counts;
use crate::message::{
    ClientMessages, ClientMessagesView, ServerCommand, ServerEventView, ServerMessages,
    ServerMessagesView, ServerType, TestMessage,
};
use crate::node::{announced, flood_answer, NodeView};
use crate::packet::{
    packet_views, Ack, Fragment, HeaderView, Nack, NackType, NodeId, NodeType, Packet, PacketType,
    PacketTypeView, PacketView,
};
use crate::reassembly::{reconstructs, ReconstructError};
use crate::route::{is_best_route, is_route, joined, reachable};
use crate::server::DronegowskiServer;
use crate::store::{law_listed_texts_are_stored, MediaEntry, MediaServer, TextServer};
use crate::text::{braced, decimal, enumerates};
use std::collections::HashSet;
use vstd::prelude::*;

verus! {

/// A server that holds texts answers with a list on which every one of them is, by its number and
/// with its title, each once, and nothing else.
pub proof fn law_every_text_held_is_on_the_list(
    server: ContentView,
    answer: ServerMessagesView,
    id: u64,
    i: int,
)
    requires
        server.answers(ClientMessagesView::FilesList, answer),
    ensures
        answer is FilesList,
        answer->FilesList_0.len() == server.texts.len(),
        server.texts.contains_key(id) ==> answer->FilesList_0.contains(
            (id, server.texts[id].title),
        ),
        0 <= i < answer->FilesList_0.len() ==> server.texts.contains_key(answer->FilesList_0[i].0)
            && server.texts[answer->FilesList_0[i].0].title == answer->FilesList_0[i].1,
{
    law_listed_texts_are_stored(answer->FilesList_0, server.texts);
}

/// A text that is held is served whole under its number, whatever the number, and another number
/// is not found.
pub proof fn law_text_held_is_served(server: ContentView, id: u64, answer: ServerMessagesView)
    requires
        server.answers(ClientMessagesView::File(id), answer),
    ensures
        server.texts.contains_key(id) ==> answer == ServerMessagesView::File(server.texts[id]),
        !server.texts.contains_key(id) ==> answer == ServerMessagesView::Error("file not found"@),
{
}

/// A medium that is held is served whole under its number, whatever the number, and another
/// number is not found.
pub proof fn law_medium_held_is_served(server: ContentView, id: u64, answer: ServerMessagesView)
    requires
        server.answers(ClientMessagesView::Media(id), answer),
    ensures
        server.media.contains_key(id) ==> answer == ServerMessagesView::Media(server.media[id]),
        !server.media.contains_key(id) ==> answer == ServerMessagesView::Error(
            "media not found"@,
        ),
{
}

/// A content server says that it is one, and every request that it does not know is refused.
pub proof fn law_other_requests_are_answered(
    server: ContentView,
    request: ClientMessagesView,
    answer: ServerMessagesView,
)
    requires
        server.answers(request, answer),
    ensures
        request is ServerType ==> answer == ServerMessagesView::ServerType(ServerType::Content),
        request is RegistrationToChat || request is ClientList || request is MessageFor ==> answer
            == ServerMessagesView::Error("Unknown message type"@),
{
}

/// `answer` lists every text that the server holds, serves every text and medium that it holds
/// under its number, and finds nothing under other numbers.
pub proof fn law_answer(
    server: &ContentServer,
    request: &ClientMessages,
    answer: ServerMessages,
    id: u64,
)
    requires
        call_ensures(ContentServer::answer, (server, request), answer),
    ensures
        server@.answers(request@, answer@),
        *request is FilesList ==> answer@ is FilesList && answer@->FilesList_0.len()
            == server@.texts.len() && (server@.texts.contains_key(id)
            ==> answer@->FilesList_0.contains((id, server@.texts[id].title))),
        *request == ClientMessages::File(id) ==> answer@ == (if server@.texts.contains_key(id) {
            ServerMessagesView::File(server@.texts[id])
        } else {
            ServerMessagesView::Error("file not found"@)
        }),
        *request == ClientMessages::Media(id) ==> answer@ == (if server@.media.contains_key(id) {
            ServerMessagesView::Media(server@.media[id])
        } else {
            ServerMessagesView::Error("media not found"@)
        }),
{
    if *request is FilesList {
        law_every_text_held_is_on_the_list(server@, answer@, id, 0);
    }
}

/// A server that holds the media of a folder serves, under a digit, the bytes of the last
/// readable file whose name begins with it.
pub proof fn law_media_folder_is_served(
    entries: &Vec<MediaEntry>,
    media: MediaServer,
    server: &ContentServer,
    request: &ClientMessages,
    answer: ServerMessages,
    k: int,
    id: u64,
)
    requires
        call_ensures(MediaServer::new_from_folder, (entries,), media),
        server@.media == media@,
        *request == ClientMessages::Media(id),
        call_ensures(ContentServer::answer, (server, request), answer),
        0 <= k < entries@.len(),
        id < 10,
        entries@[k].is_file,
        entries@[k].file_name is Some,
        entries@[k].file_name->0@.len() > 0,
        entries@[k].file_name->0@[0] as int == '0' as int + id,
        entries@[k].content is Some,
        forall|j: int|
            k < j < entries@.len() && (#[trigger] entries@[j]).is_file
                && entries@[j].content is Some && entries@[j].file_name is Some
                && entries@[j].file_name->0@.len() > 0 ==> entries@[j].file_name->0@[0]
                != entries@[k].file_name->0@[0],
    ensures
        answer@ == ServerMessagesView::Media(entries@[k].content->0@),
{
    law_last_file_of_a_digit_counts(entries@, k, id);
}

/// A request is reported, then a best route to its sender is announced, and an answer to it is
/// given out along that route if there is a channel to its second node; a message that is no
/// request does nothing. The server stays as it is.
pub proof fn law_request_is_answered_to_its_sender(
    server: &mut ContentServer,
    source: NodeId,
    message: TestMessage,
    reply: Reply,
)
    requires
        call_ensures(
            <ContentServer as DronegowskiServer>::handle_message,
            (server, source, message),
            reply,
        ),
    ensures
        final(server)@ == old(server)@,
        message matches TestMessage::WebServerMessages(request) ==> exists|
            answer: ServerMessagesView,
            route: Seq<NodeId>,
        |
            #![trigger old(server)@.answers(request@, answer), announced(
                old(server)@.node.graph.edges,
                route,
                old(server)@.node.id,
                source,
            )]
            {
                &&& old(server)@.answers(request@, answer)
                &&& is_best_route(
                    old(server)@.node.graph.edges,
                    if route.len() == 0 {
                        None
                    } else {
                        Some(route)
                    },
                    old(server)@.node.id,
                    source,
                )
                &&& reply@.actions == seq![
                    ActionView::Report(ServerEventView::MessageReceived(message@)),
                    ActionView::Report(ServerEventView::Route(route)),
                ]
                &&& reply@.outgoing == (if route.len() > 1
                    && old(server)@.node.neighbours.contains(route[1]) {
                    Some(OutgoingView { message: answer, route, neighbour: route[1] })
                } else {
                    None
                })
            },
        message is WebClientMessages ==> reply@.actions.len() == 0 && reply@.outgoing is None,
{
    if message is WebServerMessages {
        let request = message->WebServerMessages_0@;
        let s = old(server)@;
        let (answer, route) = choose|answer: ServerMessagesView, route: Seq<NodeId>|
            #[trigger] s.answers(request, answer) && #[trigger] announced(
                s.node.graph.edges,
                route,
                s.node.id,
                source,
            ) && reply@ == s.node.sends_along(route, answer).after(
                seq![ActionView::Report(ServerEventView::MessageReceived(message@))],
            );
        law_announced_route_is_best(s.node.graph.edges, route, s.node.id, source);
        assert(reply@.actions =~= seq![
            ActionView::Report(ServerEventView::MessageReceived(message@)),
            ActionView::Report(ServerEventView::Route(route)),
        ]);
    }
}

/// A message is sent by announcing a best route to its destination, and is given out along it if
/// there is a channel to its second node. The server stays as it is.
pub proof fn law_message_is_sent(
    server: &mut ContentServer,
    message: ServerMessages,
    destination: NodeId,
    reply: Reply,
)
    requires
        call_ensures(ContentServer::send_message, (server, message, destination), reply),
    ensures
        final(server)@ == old(server)@,
        exists|route: Seq<NodeId>|
            #![trigger announced(
                old(server)@.node.graph.edges,
                route,
                old(server)@.node.id,
                destination,
            )]
            {
                &&& is_best_route(
                    old(server)@.node.graph.edges,
                    if route.len() == 0 {
                        None
                    } else {
                        Some(route)
                    },
                    old(server)@.node.id,
                    destination,
                )
                &&& reply@.actions == seq![
                    ActionView::Report(ServerEventView::Route(route)),
                ]
                &&& reply@.outgoing == (if route.len() > 1
                    && old(server)@.node.neighbours.contains(route[1]) {
                    Some(OutgoingView { message: message@, route, neighbour: route[1] })
                } else {
                    None
                })
            },
{
    let s = old(server)@;
    let route = choose|route: Seq<NodeId>| #[trigger]
        announced(s.node.graph.edges, route, s.node.id, destination) && reply@
            == s.node.sends_along(route, message@);
    law_announced_route_is_best(s.node.graph.edges, route, s.node.id, destination);
    assert(reply@.actions == seq![ActionView::Report(ServerEventView::Route(route))]);
}

/// A loss that is reported is counted for its fragment, session and reporter. The reporter is
/// excluded exactly if it drops the same fragment for the fourth time. Nothing else changes.
pub proof fn law_loss_is_counted(
    server: ContentView,
    nack: Nack,
    session: u64,
    node: NodeId,
    flood_id: u64,
    after: ContentView,
    actions: Seq<ActionView>,
)
    requires
        server.loss_step(nack, session, node, flood_id, after, actions),
    ensures
        ({
            let key = (nack.fragment_index, session, node);
            let fourth = server.node.sessions.nacks.contains_key(key)
                && server.node.sessions.nacks[key] == 3;
            &&& after.node.sessions == server.node.sessions.with_loss(key)
            &&& after.node.excluded == if nack.nack_type == NackType::Dropped && fourth {
                server.node.excluded.insert(node)
            } else {
                server.node.excluded
            }
            &&& after.node.id == server.node.id
            &&& after.node.neighbours == server.node.neighbours
            &&& after.node.graph == server.node.graph
            &&& after.node.storage == server.node.storage
            &&& after.server_type == server.server_type
            &&& after.texts == server.texts
            &&& after.media == server.media
        }),
{
}

/// A fragment that a node drops for the first, second or third time is sent again as it waits,
/// along its own route; from the fifth time on nothing is done.
pub proof fn law_dropped_fragment_is_sent_again(
    server: ContentView,
    nack: Nack,
    session: u64,
    node: NodeId,
    flood_id: u64,
    after: ContentView,
    actions: Seq<ActionView>,
)
    requires
        server.loss_step(nack, session, node, flood_id, after, actions),
        nack.nack_type == NackType::Dropped,
    ensures
        ({
            let key = (nack.fragment_index, session, node);
            let before = if server.node.sessions.nacks.contains_key(key) {
                server.node.sessions.nacks[key] as int
            } else {
                0
            };
            let pending = server.node.sessions.pending;
            let waits = pending.contains_key(session) && nack.fragment_index
                < pending[session].len();
            let packet = pending[session][nack.fragment_index as int];
            let hops = packet.routing_header.hops;
            &&& before < 3 ==> actions == if waits && hops.len() > 1
                && server.node.neighbours.contains(hops[1]) {
                seq![ActionView::Send { to: hops[1], packet, delivery: Delivery::Checked }]
            } else {
                seq![]
            }
            &&& before > 3 ==> actions == Seq::<ActionView>::empty()
        }),
{
}

/// When a node drops the same fragment for the fourth time, the server reports the loss and the
/// nodes that it avoids, asks for paths, and then sends the very fragment that the report names,
/// unchanged, along a best route to its destination that enters no avoided node, which it
/// announces; where there is none it says so.
pub proof fn law_fourth_drop_makes_that_fragment_take_a_detour(
    server: ContentView,
    nack: Nack,
    session: u64,
    node: NodeId,
    flood_id: u64,
    after: ContentView,
    actions: Seq<ActionView>,
)
    requires
        server.loss_step(nack, session, node, flood_id, after, actions),
        nack.nack_type == NackType::Dropped,
        server.node.sessions.nacks.contains_key((nack.fragment_index, session, node)),
        server.node.sessions.nacks[(nack.fragment_index, session, node)] == 3,
    ensures
        exists|
            order: Seq<NodeId>,
            flood: Seq<ActionView>,
            found: Option<Seq<NodeId>>,
        |
            #![trigger enumerates(order, server.node.excluded.insert(node)), server.node.floods(
                flood_id,
                flood,
            ), is_best_route(
                server.node.graph.detours(server.node.excluded.insert(node)),
                found,
                server.node.id,
                server.node.sessions.pending[session][nack.fragment_index as int].routing_header.hops.last(),
            )]
            {
                let id = server.node.id;
                let avoided = server.node.excluded.insert(node);
                let pending = server.node.sessions.pending;
                let packet = pending[session][nack.fragment_index as int];
                let target = packet.routing_header.hops.last();
                &&& enumerates(order, avoided)
                &&& server.node.floods(flood_id, flood)
                &&& is_best_route(
                    server.node.graph.detours(avoided),
                    found,
                    id,
                    target,
                )
                &&& actions == seq![
                    ActionView::Report(
                        ServerEventView::DebugMessage(
                            id,
                            "Server "@ + decimal(id as nat) + ": nack drop "@ + decimal(4)
                                + " from "@ + decimal(node as nat) + " / "@ + decimal(
                                nack.fragment_index as nat,
                            ),
                        ),
                    ),
                    ActionView::Report(
                        ServerEventView::DebugMessage(
                            id,
                            "Server "@ + decimal(id as nat) + ": new route exclude "@ + braced(
                                order,
                            ),
                        ),
                    ),
                ] + flood + (if !pending.contains_key(session) || nack.fragment_index
                    >= pending[session].len() || packet.routing_header.hops.len() == 0 {
                    seq![]
                } else {
                    match found {
                        Some(path) => seq![ActionView::Report(ServerEventView::Route(path))] + (
                        if path.len() > 1 && server.node.neighbours.contains(path[1]) {
                            seq![
                                ActionView::Send {
                                    to: path[1],
                                    packet: PacketView {
                                        pack_type: packet.pack_type,
                                        routing_header: HeaderView { hop_index: 1, hops: path },
                                        session_id: packet.session_id,
                                    },
                                    delivery: Delivery::Checked,
                                },
                            ]
                        } else {
                            seq![]
                        }),
                        None => seq![
                            ActionView::Report(
                                ServerEventView::Error(
                                    id,
                                    target,
                                    "not alternative path route available by server"@,
                                ),
                            ),
                        ],
                    }
                })
            },
{
    let id = server.node.id;
    let avoided = server.node.excluded.insert(node);
    let pending = server.node.sessions.pending;
    let packet = pending[session][nack.fragment_index as int];
    let target = packet.routing_header.hops.last();
    let edges = server.node.graph.detours(avoided);
    let (order, flood, resent) = choose|
        order: Seq<NodeId>,
        flood: Seq<ActionView>,
        resent: Seq<ActionView>,
    |
        #[trigger] enumerates(order, after.node.excluded) && #[trigger] after.node.floods(
            flood_id,
            flood,
        ) && #[trigger] after.detours(session, nack.fragment_index, resent) && actions == seq![
            after.node.loss_report(4, node, nack.fragment_index),
            after.node.exclusion_report(order),
        ] + flood + resent;
    let walk = choose|walk: Seq<NodeId>|
        enumerates(walk, after.node.neighbours) && flood == #[trigger] after.node.flood(
            walk,
            flood_id,
        );
    assert(after.node.flood(walk, flood_id) =~= server.node.flood(walk, flood_id));
    assert(server.node.floods(flood_id, flood));
    let waits = pending.contains_key(session) && nack.fragment_index < pending[session].len()
        && packet.routing_header.hops.len() > 0;
    let found = if waits {
        choose|found: Option<Seq<NodeId>>| #[trigger]
            is_best_route(edges, found, id, target) && resent == after.detour_actions(
                packet,
                target,
                found,
            )
    } else if reachable(edges, id, target) {
        Some(lemma_shortest_exists(edges, id, target))
    } else {
        None
    };
    assert(is_best_route(edges, found, id, target));
    assert(enumerates(order, avoided));
}

/// Where one node can be reached from another, one of the routes between them is shortest.
proof fn lemma_shortest_exists(edges: Set<(NodeId, NodeId)>, from: NodeId, to: NodeId) -> (path: Seq<
    NodeId,
>)
    requires
        reachable(edges, from, to),
    ensures
        is_best_route(edges, Some(path), from, to),
{
    let any = choose|path: Seq<NodeId>| is_route(edges, path, from, to);
    lemma_shorter_or_shortest(edges, from, to, any)
}

proof fn lemma_shorter_or_shortest(
    edges: Set<(NodeId, NodeId)>,
    from: NodeId,
    to: NodeId,
    path: Seq<NodeId>,
) -> (res: Seq<NodeId>)
    requires
        is_route(edges, path, from, to),
    ensures
        is_best_route(edges, Some(res), from, to),
    decreases path.len(),
{
    if exists|other: Seq<NodeId>| #[trigger]
        is_route(edges, other, from, to) && other.len() < path.len() {
        let other = choose|other: Seq<NodeId>| #[trigger]
            is_route(edges, other, from, to) && other.len() < path.len();
        lemma_shorter_or_shortest(edges, from, to, other)
    } else {
        path
    }
}

/// When a node drops the same fragment for the fourth time, whatever is sent besides requests for
/// paths is that fragment with its own content and session, on its way to its own destination; and
/// if it waits, a detour to its destination exists, and there is a channel to every node to which
/// the server has an edge, then it is sent.
pub proof fn law_fourth_drop_sends_that_fragment(
    server: ContentView,
    nack: Nack,
    session: u64,
    node: NodeId,
    flood_id: u64,
    after: ContentView,
    actions: Seq<ActionView>,
    k: int,
)
    requires
        server.loss_step(nack, session, node, flood_id, after, actions),
        nack.nack_type == NackType::Dropped,
        server.node.sessions.nacks.contains_key((nack.fragment_index, session, node)),
        server.node.sessions.nacks[(nack.fragment_index, session, node)] == 3,
    ensures
        ({
            let pending = server.node.sessions.pending;
            let waits = pending.contains_key(session) && nack.fragment_index
                < pending[session].len();
            let packet = pending[session][nack.fragment_index as int];
            &&& 0 <= k < actions.len() && actions[k] is Send && actions[k]->delivery
                != Delivery::BestEffort ==> {
                &&& waits
                &&& actions[k]->packet.pack_type == packet.pack_type
                &&& actions[k]->packet.session_id == packet.session_id
                &&& actions[k]->packet.routing_header.hops.last()
                    == packet.routing_header.hops.last()
                &&& actions[k]->packet.routing_header.hops[1] == actions[k]->to
            }
            &&& 0 <= k < actions.len() && actions[k] is Send && actions[k]->delivery
                == Delivery::BestEffort ==> actions[k]->packet.pack_type is FloodRequest
            &&& waits && packet.routing_header.hops.len() > 0
                && packet.routing_header.hops.last() != server.node.id && reachable(
                server.node.graph.detours(server.node.excluded.insert(node)),
                server.node.id,
                packet.routing_header.hops.last(),
            ) && (forall|next: NodeId| #[trigger]
                server.node.graph.detours(server.node.excluded.insert(node)).contains(
                    (server.node.id, next),
                ) ==> server.node.neighbours.contains(next)) ==> {
                let last = actions[actions.len() - 1];
                &&& actions.len() > 0
                &&& last is Send
                &&& last->packet.pack_type == packet.pack_type
                &&& last->packet.session_id == packet.session_id
                &&& last->packet.routing_header.hops.last() == packet.routing_header.hops.last()
            }
        }),
{
    law_fourth_drop_makes_that_fragment_take_a_detour(
        server,
        nack,
        session,
        node,
        flood_id,
        after,
        actions,
    );
    let id = server.node.id;
    let avoided = server.node.excluded.insert(node);
    let edges = server.node.graph.detours(avoided);
    let pending = server.node.sessions.pending;
    let packet = pending[session][nack.fragment_index as int];
    let target = packet.routing_header.hops.last();
    let (order, flood, resent) = choose|
        order: Seq<NodeId>,
        flood: Seq<ActionView>,
        resent: Seq<ActionView>,
    |
        #[trigger] enumerates(order, after.node.excluded) && #[trigger] after.node.floods(
            flood_id,
            flood,
        ) && #[trigger] after.detours(session, nack.fragment_index, resent) && actions == seq![
            after.node.loss_report(4, node, nack.fragment_index),
            after.node.exclusion_report(order),
        ] + flood + resent;
    law_flood_requests(after.node, flood_id, flood);
    let m = flood.len() as int;
    if 0 <= k < actions.len() && actions[k] is Send {
        assert(k >= 2);
        if k < 2 + m {
            assert(actions[k] == flood[k - 2]);
            assert(flood.contains(flood[k - 2]));
        } else {
            assert(actions[k] == resent[k - 2 - m]);
        }
    }
    if pending.contains_key(session) && nack.fragment_index < pending[session].len()
        && packet.routing_header.hops.len() > 0 {
        let found = choose|found: Option<Seq<NodeId>>| #[trigger]
            is_best_route(edges, found, id, target) && resent == after.detour_actions(
                packet,
                target,
                found,
            );
        if found is Some && target != id {
            assert(found->0.len() > 1);
            assert(joined(edges, found->0, 0));
            assert(edges.contains((id, found->0[1])));
            assert(resent.len() > 0 ==> actions[actions.len() - 1] == resent[resent.len() - 1]);
        }
    }
}

/// A fragment that was lost otherwise makes the server ask for paths and send that fragment again
/// as it waits, along its own route.
pub proof fn law_fragment_lost_otherwise_is_sent_again(
    server: ContentView,
    nack: Nack,
    session: u64,
    node: NodeId,
    flood_id: u64,
    after: ContentView,
    actions: Seq<ActionView>,
)
    requires
        server.loss_step(nack, session, node, flood_id, after, actions),
        nack.nack_type != NackType::Dropped,
    ensures
        exists|flood: Seq<ActionView>|
            {
                let pending = server.node.sessions.pending;
                let waits = pending.contains_key(session) && nack.fragment_index
                    < pending[session].len();
                let packet = pending[session][nack.fragment_index as int];
                let hops = packet.routing_header.hops;
                &&& #[trigger] server.node.floods(flood_id, flood)
                &&& actions == flood + (if waits && hops.len() > 1
                    && server.node.neighbours.contains(hops[1]) {
                    seq![ActionView::Send { to: hops[1], packet, delivery: Delivery::Checked }]
                } else {
                    seq![]
                })
            },
{
    let flood = choose|flood: Seq<ActionView>| #[trigger]
        after.node.floods(flood_id, flood) && actions == flood + after.node.resends(
            session,
            nack.fragment_index,
        );
    let walk = choose|walk: Seq<NodeId>|
        enumerates(walk, after.node.neighbours) && flood == #[trigger] after.node.flood(
            walk,
            flood_id,
        );
    assert(after.node.flood(walk, flood_id) =~= server.node.flood(walk, flood_id));
    assert(server.node.floods(flood_id, flood));
}

/// `handle_nack` takes a loss step with the fragment, session and node that it is given.
pub proof fn law_handle_nack(
    server: &mut ContentServer,
    nack: Nack,
    session: u64,
    node: NodeId,
    flood_id: u64,
    actions: Vec<Action>,
)
    requires
        call_ensures(
            ContentServer::handle_nack,
            (server, nack, session, node, flood_id),
            actions,
        ),
    ensures
        old(server)@.loss_step(
            nack,
            session,
            node,
            flood_id,
            final(server)@,
            action_views(actions@),
        ),
{
}

/// A packet without a sender is left alone. Of the others, a fragment is taken in from the first
/// node of its route, a path is learned, a request for paths is answered to the node that it came
/// from, a confirmation is recorded, and a loss is handled as reported by the first node of the
/// route; in each case nothing else of the server changes.
pub proof fn law_packet_is_handled(
    server: ContentView,
    packet: PacketView,
    flood_id: u64,
    after: ContentView,
    step: StepView,
)
    requires
        server.packet_step(packet, flood_id, after, step),
    ensures
        packet.routing_header.hops.len() == 0 ==> after == server && step.actions.len() == 0
            && step.inbound == InboundView::Nothing,
        packet.routing_header.hops.len() > 0 ==> match packet.pack_type {
            PacketTypeView::MsgFragment(fragment) => {
                &&& after == ContentView { node: after.node, ..server }
                &&& server.node.receives(
                    "Client "@,
                    packet.routing_header.hops[0],
                    packet,
                    fragment,
                    after.node,
                    step,
                )
            },
            PacketTypeView::FloodResponse(response) => {
                &&& after == ContentView {
                    node: NodeView {
                        graph: server.node.graph.with_path(response.path_trace),
                        ..server.node
                    },
                    ..server
                }
                &&& step.actions.len() == 0
                &&& step.inbound == InboundView::Nothing
            },
            PacketTypeView::FloodRequest(request) => {
                &&& after == server
                &&& step.inbound == InboundView::Nothing
                &&& request.path_trace.len() > 0 ==> step.actions == (
                if server.node.neighbours.contains(request.path_trace.last().0) {
                    seq![
                        ActionView::Send {
                            to: request.path_trace.last().0,
                            packet: flood_answer(server.node.id, request, packet.session_id),
                            delivery: Delivery::Checked,
                        },
                    ]
                } else {
                    seq![]
                })
            },
            PacketTypeView::Ack(ack) => {
                &&& after == ContentView {
                    node: NodeView {
                        sessions: server.node.sessions.acknowledged(
                            packet.session_id,
                            ack.fragment_index,
                        ),
                        ..server.node
                    },
                    ..server
                }
                &&& step.actions.len() == 0
                &&& step.inbound == InboundView::Nothing
            },
            PacketTypeView::Nack(nack) => {
                &&& step.inbound == InboundView::Nothing
                &&& server.loss_step(
                    nack,
                    packet.session_id,
                    packet.routing_header.hops[0],
                    flood_id,
                    after,
                    step.actions,
                )
            },
        },
{
}

/// `handle_packet` takes a packet step.
pub proof fn law_handle_packet(
    server: &mut ContentServer,
    packet: Packet,
    flood_id: u64,
    step: Step,
)
    requires
        call_ensures(
            <ContentServer as DronegowskiServer>::handle_packet,
            (server, packet, flood_id),
            step,
        ),
    ensures
        old(server)@.packet_step(packet@, flood_id, final(server)@, step@),
{
}

/// Every fragment that comes in is confirmed to its sender exactly once, whatever its index and
/// total, if there is a channel to the node before the server on its route.
pub proof fn law_every_fragment_that_comes_in_is_confirmed(
    server: &mut ContentServer,
    packet: Packet,
    fragment: Fragment,
    flood_id: u64,
    step: Step,
)
    requires
        call_ensures(
            <ContentServer as DronegowskiServer>::handle_packet,
            (server, packet, flood_id),
            step,
        ),
        packet.pack_type == PacketType::MsgFragment(fragment),
        packet.routing_header.hops@.len() > 1,
        old(server)@.node.neighbours.contains(
            packet.routing_header.hops@[packet.routing_header.hops@.len() - 2],
        ),
    ensures
        ({
            let hops = packet.routing_header.hops@;
            let n = hops.len() as int;
            &&& step@.actions.len() == 2
            &&& step@.actions[0] is Report
            &&& step@.actions[1] == (ActionView::Send {
                to: hops[n - 2],
                packet: PacketView {
                    pack_type: PacketTypeView::Ack(
                        Ack { fragment_index: fragment.fragment_index },
                    ),
                    routing_header: HeaderView {
                        hop_index: 1,
                        hops: Seq::new(hops.len(), |i: int| hops[n - 1 - i]),
                    },
                    session_id: packet.session_id,
                },
                delivery: Delivery::Confirmation,
            })
        }),
{
    law_every_fragment_is_confirmed(
        old(server)@.node,
        "Client "@,
        packet.routing_header.hops@[0],
        packet@,
        fragment,
        final(server)@.node,
        step@,
    );
}

/// A packet can be handled unless it carries an empty path, or reports a loss whose count is at
/// its end or whose packet is to be sent again along a route without a second node.
pub proof fn law_accepted_packets(server: &ContentServer, packet: &Packet, res: bool)
    requires
        call_ensures(<ContentServer as DronegowskiServer>::accepts_packet, (server, packet), res),
    ensures
        res == server.accepts(packet@),
        packet.routing_header.hops@.len() == 0 ==> res,
        packet.routing_header.hops@.len() > 0 ==> res == match packet.pack_type {
            PacketType::MsgFragment(_) => true,
            PacketType::Ack(_) => true,
            PacketType::FloodRequest(request) => request.path_trace@.len() > 0,
            PacketType::FloodResponse(response) => response.path_trace@.len() > 0,
            PacketType::Nack(nack) => {
                let sessions = server@.node.sessions;
                let key = (
                    nack.fragment_index,
                    packet.session_id,
                    packet.routing_header.hops@[0],
                );
                let before = if sessions.nacks.contains_key(key) {
                    sessions.nacks[key] as int
                } else {
                    0
                };
                let stuck = sessions.pending.contains_key(packet.session_id)
                    && nack.fragment_index < sessions.pending[packet.session_id].len()
                    && sessions.pending[packet.session_id][nack.fragment_index as int].routing_header.hops.len()
                    <= 1;
                &&& before < u64::MAX
                &&& (nack.nack_type == NackType::Dropped && before >= 3) || !stuck
            },
        },
{
}

/// A new neighbour is taken up with its channel and makes the server ask all its neighbours for
/// paths; one that it has changes nothing.
pub proof fn law_neighbour_is_added(
    server: &mut ContentServer,
    node: NodeId,
    flood_id: u64,
    actions: Vec<Action>,
)
    requires
        call_ensures(
            <ContentServer as DronegowskiServer>::add_neighbor,
            (server, node, flood_id),
            actions,
        ),
    ensures
        old(server)@.neighbour_added(node, flood_id, final(server)@, action_views(actions@)),
{
}

/// A neighbour is let go of with its channel, is forgotten, and makes the server ask those that
/// are left for paths; a node that is no neighbour changes nothing.
pub proof fn law_neighbour_is_removed(
    server: &mut ContentServer,
    node: NodeId,
    flood_id: u64,
    actions: Vec<Action>,
)
    requires
        call_ensures(
            <ContentServer as DronegowskiServer>::remove_neighbor,
            (server, node, flood_id),
            actions,
        ),
    ensures
        old(server)@.neighbour_removed(node, flood_id, final(server)@, action_views(actions@)),
{
}

/// What becomes of the server, and what it does, when a channel is offered or withdrawn.
pub proof fn law_neighbours_come_and_go(
    server: ContentView,
    node: NodeId,
    flood_id: u64,
    after: ContentView,
    actions: Seq<ActionView>,
)
    ensures
        server.neighbour_added(node, flood_id, after, actions) ==> {
            if server.node.neighbours.contains(node) {
                after == server && actions.len() == 0
            } else {
                &&& after == ContentView {
                    node: NodeView {
                        neighbours: server.node.neighbours.insert(node),
                        ..server.node
                    },
                    ..server
                }
                &&& actions.len() > 0
                &&& actions[0] == ActionView::KeepSender(node)
                &&& after.node.floods(flood_id, actions.skip(1))
            }
        },
        server.neighbour_removed(node, flood_id, after, actions) ==> {
            if server.node.neighbours.contains(node) {
                &&& after == ContentView {
                    node: NodeView {
                        neighbours: server.node.neighbours.remove(node),
                        graph: server.node.graph.without_node(node),
                        ..server.node
                    },
                    ..server
                }
                &&& actions.len() > 0
                &&& actions[0] == ActionView::DropSender(node)
                &&& after.node.floods(flood_id, actions.skip(1))
            } else {
                after == server && actions.len() == 0
            }
        },
{
    if server.neighbour_added(node, flood_id, after, actions) && !server.node.neighbours.contains(
        node,
    ) {
        let flood = choose|flood: Seq<ActionView>| #[trigger]
            after.node.floods(flood_id, flood) && actions == seq![ActionView::KeepSender(node)]
                + flood;
        assert(actions.skip(1) =~= flood);
    }
    if server.neighbour_removed(node, flood_id, after, actions) && server.node.neighbours.contains(
        node,
    ) {
        let flood = choose|flood: Seq<ActionView>| #[trigger]
            after.node.floods(flood_id, flood) && actions == seq![ActionView::DropSender(node)]
                + flood;
        assert(actions.skip(1) =~= flood);
    }
}

/// A command adds or removes the neighbour that it names, hands its packet in as if it had come
/// over the network, or makes the server ask for paths; any other command does nothing.
pub proof fn law_command_is_obeyed(
    server: &mut ContentServer,
    command: ServerCommand,
    flood_id: u64,
    step: Step,
)
    requires
        call_ensures(
            <ContentServer as DronegowskiServer>::handle_command,
            (server, command, flood_id),
            step,
        ),
    ensures
        match command {
            ServerCommand::AddSender(node) => {
                &&& step@.inbound == InboundView::Nothing
                &&& old(server)@.neighbour_added(
                    node,
                    flood_id,
                    final(server)@,
                    step@.actions,
                )
            },
            ServerCommand::RemoveSender(node) => {
                &&& step@.inbound == InboundView::Nothing
                &&& old(server)@.neighbour_removed(
                    node,
                    flood_id,
                    final(server)@,
                    step@.actions,
                )
            },
            ServerCommand::ControllerShortcut(packet) => old(server)@.packet_step(
                packet@,
                flood_id,
                final(server)@,
                step@,
            ),
            ServerCommand::RequestNetworkDiscovery => {
                &&& final(server)@ == old(server)@
                &&& step@.inbound == InboundView::Nothing
                &&& old(server)@.node.floods(flood_id, step@.actions)
            },
            ServerCommand::Unhandled => {
                &&& final(server)@ == old(server)@
                &&& step@.inbound == InboundView::Nothing
                &&& step@.actions.len() == 0
            },
        },
{
}

/// A new server has its number, neighbours, texts and media, knows nothing else, and asks its
/// neighbours for paths.
pub proof fn law_new_server(
    id: NodeId,
    neighbours: HashSet<NodeId>,
    server_type: ServerType,
    text: TextServer,
    media: MediaServer,
    flood_id: u64,
    res: (ContentServer, Vec<Action>),
)
    requires
        call_ensures(
            ContentServer::new,
            (id, neighbours, server_type, text, media, flood_id),
            res,
        ),
    ensures
        res.0@.node == NodeView::fresh(id, neighbours@),
        res.0@.server_type == server_type,
        res.0@.texts == text@,
        res.0@.media == media@,
        res.0@.node.floods(flood_id, action_views(res.1@)),
{
}

/// Looking at the network asks every neighbour for paths and changes nothing.
pub proof fn law_discovery(server: &mut ContentServer, flood_id: u64, actions: Vec<Action>)
    requires
        call_ensures(
            <ContentServer as DronegowskiServer>::network_discovery,
            (server, flood_id),
            actions,
        ),
    ensures
        final(server)@ == old(server)@,
        old(server)@.node.floods(flood_id, action_views(actions@)),
{
}

/// The packets of a message wait under their session and leave, in order, to the neighbour that
/// takes them; nothing else changes.
pub proof fn law_packets_are_sent(
    server: &mut ContentServer,
    session: u64,
    packets: Vec<Packet>,
    neighbour: NodeId,
    actions: Vec<Action>,
)
    requires
        call_ensures(
            <ContentServer as DronegowskiServer>::send_packets,
            (server, session, packets, neighbour),
            actions,
        ),
    ensures
        action_views(actions@) == NodeView::departures(packet_views(packets@), neighbour),
        final(server)@ == (ContentView {
            node: NodeView {
                sessions: old(server)@.node.sessions.with_pending(
                    session,
                    packet_views(packets@),
                ),
                ..old(server)@.node
            },
            ..old(server)@
        }),
{
}

/// A confirmation is recorded for its fragment and session, and nothing else changes.
pub proof fn law_ack_is_recorded(server: &mut ContentServer, ack: Ack, session: u64)
    requires
        call_ensures(ContentServer::handle_ack, (server, ack, session), ()),
    ensures
        final(server)@ == (ContentView {
            node: NodeView {
                sessions: old(server)@.node.sessions.acknowledged(session, ack.fragment_index),
                ..old(server)@.node
            },
            ..old(server)@
        }),
{
}

/// A path is learned, and nothing else changes.
pub proof fn law_path_is_learned(server: &mut ContentServer, trace: &Vec<(NodeId, NodeType)>)
    requires
        call_ensures(
            <ContentServer as DronegowskiServer>::update_graph,
            (server, trace),
            (),
        ),
    ensures
        final(server)@ == (ContentView {
            node: NodeView {
                graph: old(server)@.node.graph.with_path(trace@),
                ..old(server)@.node
            },
            ..old(server)@
        }),
{
}

/// A node is forgotten, and nothing else changes.
pub proof fn law_topology_forgets_node(server: &mut ContentServer, node: NodeId)
    requires
        call_ensures(
            <ContentServer as DronegowskiServer>::remove_from_topology,
            (server, node),
            (),
        ),
    ensures
        final(server)@ == (ContentView {
            node: NodeView {
                graph: old(server)@.node.graph.without_node(node),
                ..old(server)@.node
            },
            ..old(server)@
        }),
{
}

/// A session is reconstructed from what is stored of it, and nothing but the storage changes.
pub proof fn law_session_is_reconstructed(
    server: &mut ContentServer,
    key: u64,
    res: Result<Vec<Fragment>, ReconstructError>,
)
    requires
        call_ensures(
            <ContentServer as DronegowskiServer>::reconstruct_message,
            (server, key),
            res,
        ),
    ensures
        reconstructs(
            old(server)@.node.storage,
            key,
            final(server)@.node.storage,
            match res {
                Ok(parts) => Ok(parts@),
                Err(error) => Err(error),
            },
        ),
        final(server)@ == (ContentView {
            node: NodeView { storage: final(server)@.node.storage, ..old(server)@.node },
            ..old(server)@
        }),
{
}

/// The best path is a best route over all known edges.
pub proof fn law_best_path(server: &ContentServer, target: NodeId, res: Option<Vec<NodeId>>)
    requires
        call_ensures(
            <ContentServer as DronegowskiServer>::compute_best_path,
            (server, target),
            res,
        ),
    ensures
        is_best_route(
            server@.node.graph.edges,
            match res {
                Some(path) => Some(path@),
                None => None,
            },
            server@.node.id,
            target,
        ),
{
}

/// The route around excluded nodes is a best one that enters none of them; that there is none is
/// reported.
pub proof fn law_route_around_excluded_nodes(
    server: &ContentServer,
    target: NodeId,
    res: (Option<Vec<NodeId>>, Vec<Action>),
)
    requires
        call_ensures(ContentServer::compute_route_excluding, (server, target), res),
    ensures
        is_best_route(
            server@.node.graph.detours(server@.node.excluded),
            match res.0 {
                Some(path) => Some(path@),
                None => None,
            },
            server@.node.id,
            target,
        ),
        res.0 is Some ==> action_views(res.1@).len() == 0,
        res.0 is None ==> action_views(res.1@) == seq![
            ActionView::Report(
                ServerEventView::Error(
                    server@.node.id,
                    target,
                    "not alternative path route available by server"@,
                ),
            ),
        ],
{
}

} // verus!
