//! The server that relays chat messages between registered clients.

use crate::action::{
    action_views, append_actions, no_actions, push_action, Action, ActionView, Inbound,
    InboundView, Reply, ReplyView, Step, StepView,
};
use crate::graph::{
    bidirectional, ends_typed, law_graph_is_bidirectional, law_relayed_route_passes_drones,
    GraphView,
};
use crate::message::{
    ClientMessages, ClientMessagesView, ServerCommand, ServerCommandView, ServerEvent,
    ServerEventView, ServerMessages, ServerMessagesView, ServerType, TestMessage, TestMessageView,
};
use crate::node::{announced, flood_answer, route_taken, Node, NodeView};
use crate::packet::{
    copy_nodes, packet_views, Ack, Fragment, Nack, NackType, NodeId, NodeType, Packet, PacketType,
    PacketTypeView, PacketView, SourceRoutingHeader,
};
use crate::reassembly::{parts_view, reconstructs, ReconstructError};
use crate::route::{
    find_route, is_best_route, is_shortest_route, joined, reachable, route_view,
};
use crate::server::DronegowskiServer;
use crate::text::{decimal, enumerates, numbered};
use std::collections::HashSet;
use vstd::prelude::*;

verus! {

broadcast use vstd::std_specs::hash::group_hash_axioms;

/// A node that reported the loss of the same fragment more often than this is avoided.
pub const RETRY_LIMIT: u64 = 9;

/// The server that relays chat messages between registered clients.
pub struct CommunicationServer {
    node: Node,
    server_type: ServerType,
    registered_client: Vec<NodeId>,
}

/// The model of a [`CommunicationServer`].
#[verifier::ext_equal]
pub struct CommunicationView {
    pub node: NodeView,
    pub server_type: ServerType,
    /// The registered clients, in the order of their registration.
    pub registered: Seq<NodeId>,
}

/// The answer to a client that names a client who is not registered.
pub open spec fn not_registered(client: NodeId) -> ServerMessagesView {
    ServerMessagesView::Error(decimal(client as nat) + " not registered to server"@)
}

impl CommunicationView {
    /// The same server with another common state.
    pub open spec fn with_node(self, node: NodeView) -> CommunicationView {
        CommunicationView { node, ..self }
    }

    /// The same server with other knowledge of the network.
    pub open spec fn with_graph(self, graph: GraphView) -> CommunicationView {
        self.with_node(NodeView { graph, ..self.node })
    }

    /// The same server with other registered clients.
    pub open spec fn with_registered(self, registered: Seq<NodeId>) -> CommunicationView {
        CommunicationView { registered, ..self }
    }

    /// The server after a fragment was confirmed.
    pub open spec fn acknowledged(self, session: u64, fragment: u64) -> CommunicationView {
        self.with_node(
            NodeView { sessions: self.node.sessions.acknowledged(session, fragment), ..self.node },
        )
    }

    /// The server after a node reported a loss once more.
    pub open spec fn with_loss(self, fragment: u64, session: u64, node: NodeId) -> CommunicationView {
        self.with_node(
            NodeView {
                sessions: self.node.sessions.with_loss((fragment, session, node)),
                ..self.node
            },
        )
    }

    /// The server after it took a node to be unreliable: detours avoid the node, and its reports
    /// on the fragment are forgotten.
    pub open spec fn with_excluded(
        self,
        fragment: u64,
        session: u64,
        node: NodeId,
    ) -> CommunicationView {
        self.with_node(
            NodeView {
                excluded: self.node.excluded.insert(node),
                sessions: self.node.sessions.without_loss((fragment, session, node)),
                ..self.node
            },
        )
    }

    /// The server with nothing excluded, as it is whenever it sends a message.
    pub open spec fn forgiving(self) -> CommunicationView {
        self.with_node(NodeView { excluded: Set::empty(), ..self.node })
    }

    /// The edges that a route to the target may take: over drones only.
    pub open spec fn links(self, target: NodeId) -> Set<(NodeId, NodeId)> {
        self.node.graph.relayed(self.node.graph.edges, target)
    }

    /// The edges that a detour to the target may take: over drones only, and around the
    /// excluded nodes.
    pub open spec fn detour_links(self, target: NodeId) -> Set<(NodeId, NodeId)> {
        self.node.graph.relayed(self.node.graph.detours(self.node.excluded), target)
    }

    /// What a request of a client leads to: the server after it, a message, and the node that
    /// the message goes to.
    pub open spec fn chat(self, client: NodeId, request: ClientMessagesView) -> (
        CommunicationView,
        ServerMessagesView,
        NodeId,
    ) {
        match request {
            ClientMessagesView::ServerType => (
                self,
                ServerMessagesView::ServerType(self.server_type),
                client,
            ),
            ClientMessagesView::RegistrationToChat => if self.registered.contains(client) {
                (
                    self,
                    ServerMessagesView::RegistrationError("client already registered"@),
                    client,
                )
            } else {
                (
                    self.with_registered(self.registered.push(client)),
                    ServerMessagesView::RegistrationOk,
                    client,
                )
            },
            ClientMessagesView::ClientList => (
                self,
                ServerMessagesView::ClientList(self.registered),
                client,
            ),
            ClientMessagesView::MessageFor(target, text) => if !self.registered.contains(client) {
                (self, not_registered(client), client)
            } else if !self.registered.contains(target) {
                (self, not_registered(target), client)
            } else {
                (self, ServerMessagesView::MessageFrom(client, text), target)
            },
            _ => (
                self,
                ServerMessagesView::Error("Unknown ClientMessage received"@),
                client,
            ),
        }
    }

    /// A message is sent to a node.
    pub open spec fn sends(
        self,
        message: ServerMessagesView,
        to: NodeId,
        after: CommunicationView,
        reply: ReplyView,
    ) -> bool {
        after == self.forgiving() && self.node.sends(self.links(to), message, to, reply)
    }

    /// What a message leads to: a request is reported and served, and anything else is left
    /// alone.
    pub open spec fn replies(
        self,
        source: NodeId,
        message: TestMessageView,
        after: CommunicationView,
        reply: ReplyView,
    ) -> bool {
        match message {
            TestMessageView::WebServerMessages(request) => {
                let (served, answer, to) = self.chat(source, request);
                &&& after == served.forgiving()
                &&& exists|route: Seq<NodeId>| #[trigger]
                    announced(self.links(to), route, self.node.id, to) && reply
                        == self.node.sends_along(route, answer).after(
                        seq![ActionView::Report(ServerEventView::MessageReceived(message))],
                    )
            },
            TestMessageView::WebClientMessages(_) => after == self && reply == (ReplyView {
                actions: seq![],
                outgoing: None,
            }),
        }
    }

    /// The report that a fragment cannot reach its target.
    pub open spec fn stranded_report(self, target: NodeId, fragment: u64) -> ActionView {
        ActionView::Report(
            ServerEventView::Error(
                self.node.id,
                target,
                "No alternative path for fragment "@ + decimal(fragment as nat),
            ),
        )
    }

    /// What is done once a detour was looked for: the whole session takes it, or it is reported
    /// that there is none.
    pub open spec fn reroutes_along(
        self,
        session: u64,
        fragment: u64,
        packet: PacketView,
        target: NodeId,
        found: Option<Seq<NodeId>>,
    ) -> (CommunicationView, Seq<ActionView>) {
        match found {
            Some(path) => (
                self.with_node(
                    NodeView { sessions: self.node.sessions.rerouted(session, path), ..self.node },
                ),
                self.node.onward(packet.rerouted(path)),
            ),
            None => (
                self,
                seq![self.node.no_detour_report(target), self.stranded_report(target, fragment)],
            ),
        }
    }

    /// The session of a fragment, if it is still pending and has a destination, takes a detour.
    pub open spec fn reroutes(
        self,
        session: u64,
        fragment: u64,
        after: CommunicationView,
        actions: Seq<ActionView>,
    ) -> bool {
        match self.node.sessions.packet(session, fragment) {
            Some(packet) if packet.routing_header.hops.len() > 0 => {
                let target = packet.routing_header.hops.last();
                exists|found: Option<Seq<NodeId>>| #[trigger]
                    is_best_route(self.detour_links(target), found, self.node.id, target) && (
                        after,
                        actions,
                    ) == self.reroutes_along(session, fragment, packet, target, found)
            },
            _ => after == self && actions == Seq::<ActionView>::empty(),
        }
    }

    /// The report that a lost fragment is looked after.
    pub open spec fn rethinking_report(self) -> ActionView {
        ActionView::Report(
            ServerEventView::DebugMessage(
                self.node.id,
                "Server "@ + decimal(self.node.id as nat) + ": new route?"@,
            ),
        )
    }

    /// What the report of a loss leads to.
    pub open spec fn loss_step(
        self,
        nack: Nack,
        session: u64,
        node: NodeId,
        flood_id: u64,
        after: CommunicationView,
        actions: Seq<ActionView>,
    ) -> bool {
        let fragment = nack.fragment_index;
        if nack.nack_type == NackType::Dropped {
            let count = self.node.sessions.losses((fragment, session, node)) + 1;
            let counted = self.with_loss(fragment, session, node);
            if count > RETRY_LIMIT {
                let evading = counted.with_excluded(fragment, session, node);
                exists|order: Seq<NodeId>, resent: Seq<ActionView>|
                    #[trigger] enumerates(order, evading.node.excluded)
                        && #[trigger] evading.reroutes(session, fragment, after, resent)
                        && actions == seq![
                        self.node.loss_report(count, node, fragment),
                        self.node.exclusion_report(order),
                    ] + resent
            } else {
                after == counted && actions == counted.node.resends(session, fragment)
            }
        } else {
            &&& after == self.with_graph(GraphView::unknown())
            &&& exists|flood: Seq<ActionView>| #[trigger]
                self.node.floods(flood_id, flood) && actions == flood + seq![
                    self.rethinking_report(),
                ] + self.node.resends(session, fragment)
        }
    }

    /// The report of a loss can be handled: where the fragment did not get lost on a drone, a
    /// packet that is to be sent again has a node to go to.
    pub open spec fn accepts_loss(self, nack: Nack, session: u64) -> bool {
        nack.nack_type == NackType::Dropped || self.node.can_resend(session, nack.fragment_index)
    }

    /// The packet can be handled: paths on it are not empty, and a report of a loss has a sender
    /// and is one that can be handled.
    pub open spec fn accepts(self, packet: PacketView) -> bool {
        match packet.pack_type {
            PacketTypeView::FloodResponse(response) => response.path_trace.len() > 0,
            PacketTypeView::FloodRequest(request) => request.path_trace.len() > 0,
            PacketTypeView::Nack(nack) => {
                &&& packet.routing_header.hops.len() > 0
                &&& self.accepts_loss(nack, packet.session_id)
            },
            _ => true,
        }
    }

    /// What a packet leads to.
    pub open spec fn packet_step(
        self,
        packet: PacketView,
        flood_id: u64,
        after: CommunicationView,
        step: StepView,
    ) -> bool {
        match packet.pack_type {
            PacketTypeView::FloodResponse(response) => {
                &&& after == self.with_graph(self.node.graph.with_path(response.path_trace))
                &&& step == StepView::acts(seq![])
            },
            PacketTypeView::FloodRequest(request) => {
                &&& after == self
                &&& step == StepView::acts(
                    self.node.onward(flood_answer(self.node.id, request, packet.session_id)),
                )
            },
            PacketTypeView::Ack(ack) => {
                &&& after == self.acknowledged(packet.session_id, ack.fragment_index)
                &&& step == StepView::acts(seq![])
            },
            PacketTypeView::Nack(nack) => {
                &&& step.inbound == InboundView::Nothing
                &&& self.loss_step(
                    nack,
                    packet.session_id,
                    packet.routing_header.hops[0],
                    flood_id,
                    after,
                    step.actions,
                )
            },
            PacketTypeView::MsgFragment(fragment) => match packet.routing_header.source() {
                Some(source) => {
                    &&& after == self.with_node(after.node)
                    &&& self.node.receives("Server "@, source, packet, fragment, after.node, step)
                },
                None => after == self && step == StepView::acts(seq![]),
            },
        }
    }

    /// The server with a new neighbour; one that it has already changes nothing.
    pub open spec fn with_neighbour(self, node: NodeId) -> CommunicationView {
        self.with_node(NodeView { neighbours: self.node.neighbours.insert(node), ..self.node })
    }

    /// The server without a neighbour; a node that is no neighbour changes nothing.
    pub open spec fn without_neighbour(self, node: NodeId) -> CommunicationView {
        if self.node.neighbours.contains(node) {
            self.with_node(
                NodeView {
                    neighbours: self.node.neighbours.remove(node),
                    graph: self.node.graph.without_node(node),
                    ..self.node
                },
            )
        } else {
            self
        }
    }

    /// The channel of a new neighbour is kept.
    pub open spec fn keeps(self, node: NodeId) -> Seq<ActionView> {
        if self.node.neighbours.contains(node) {
            seq![]
        } else {
            seq![ActionView::KeepSender(node)]
        }
    }

    /// The channel of a neighbour is let go of.
    pub open spec fn drops(self, node: NodeId) -> Seq<ActionView> {
        if self.node.neighbours.contains(node) {
            seq![ActionView::DropSender(node)]
        } else {
            seq![]
        }
    }

    /// The server forgets what it knows of the network and asks every neighbour for paths, after
    /// some other actions.
    pub open spec fn discovers(
        self,
        flood_id: u64,
        first: Seq<ActionView>,
        after: CommunicationView,
        actions: Seq<ActionView>,
    ) -> bool {
        &&& after == self.with_graph(GraphView::unknown())
        &&& exists|flood: Seq<ActionView>| #[trigger]
            self.node.floods(flood_id, flood) && actions == first + flood
    }

    /// What a command leads to.
    pub open spec fn command_step(
        self,
        command: ServerCommandView,
        flood_id: u64,
        after: CommunicationView,
        step: StepView,
    ) -> bool {
        match command {
            ServerCommandView::AddSender(node) => {
                &&& step.inbound == InboundView::Nothing
                &&& self.with_neighbour(node).discovers(
                    flood_id,
                    self.keeps(node),
                    after,
                    step.actions,
                )
            },
            ServerCommandView::RemoveSender(node) => {
                &&& step.inbound == InboundView::Nothing
                &&& self.without_neighbour(node).discovers(
                    flood_id,
                    self.drops(node),
                    after,
                    step.actions,
                )
            },
            ServerCommandView::ControllerShortcut(packet) => self.packet_step(
                packet,
                flood_id,
                after,
                step,
            ),
            ServerCommandView::RequestNetworkDiscovery => {
                &&& step.inbound == InboundView::Nothing
                &&& self.discovers(flood_id, seq![], after, step.actions)
            },
            ServerCommandView::Unhandled => after == self && step == StepView::acts(seq![]),
        }
    }

    /// No client is registered twice, and no count of lost fragments is beyond the limit.
    pub open spec fn consistent(self) -> bool {
        &&& self.registered.no_duplicates()
        &&& forall|key: (u64, u64, NodeId)|
            #![trigger self.node.sessions.nacks.contains_key(key)]
            #![trigger self.node.sessions.nacks[key]]
            self.node.sessions.nacks.contains_key(key) ==> self.node.sessions.nacks[key]
                <= RETRY_LIMIT
    }
}

/// A client that registers is registered from then on, once, and those before it stay so.
pub proof fn law_registration_is_remembered(server: CommunicationView, client: NodeId)
    requires
        server.registered.no_duplicates(),
    ensures
        ({
            let after = server.chat(client, ClientMessagesView::RegistrationToChat).0;
            &&& after.registered.contains(client)
            &&& after.registered.no_duplicates()
            &&& forall|other: NodeId| #[trigger]
                server.registered.contains(other) ==> after.registered.contains(other)
        }),
{
    let registered = server.registered;
    if !registered.contains(client) {
        let after = registered.push(client);
        assert(after[registered.len() as int] == client);
        assert forall|other: NodeId| #[trigger] registered.contains(other) implies after.contains(
            other,
        ) by {
            let i = registered.index_of(other);
            assert(after[i] == other);
        }
    }
}

/// A client that registers again is told so, and nothing changes.
pub proof fn law_second_registration_is_refused(server: CommunicationView, client: NodeId)
    ensures
        ({
            let after = server.chat(client, ClientMessagesView::RegistrationToChat).0;
            after.chat(client, ClientMessagesView::RegistrationToChat) == (
                after,
                ServerMessagesView::RegistrationError("client already registered"@),
                client,
            )
        }),
{
    let registered = server.registered;
    if !registered.contains(client) {
        assert(registered.push(client)[registered.len() as int] == client);
    }
}

/// Requests other than registrations leave the registered clients as they are.
pub proof fn law_only_registration_registers(
    server: CommunicationView,
    client: NodeId,
    request: ClientMessagesView,
)
    requires
        request != ClientMessagesView::RegistrationToChat,
    ensures
        server.chat(client, request).0 == server,
{
}

/// A chat message is passed on, unchanged and to its target, exactly if both its sender and its
/// target are registered; otherwise the sender is told who is not.
pub proof fn law_only_registered_clients_talk(
    server: CommunicationView,
    client: NodeId,
    target: NodeId,
    text: Seq<char>,
)
    ensures
        ({
            let (after, answer, to) = server.chat(
                client,
                ClientMessagesView::MessageFor(target, text),
            );
            if server.registered.contains(client) && server.registered.contains(target) {
                answer == ServerMessagesView::MessageFrom(client, text) && to == target
            } else {
                &&& to == client
                &&& answer == not_registered(
                    if server.registered.contains(client) {
                        target
                    } else {
                        client
                    },
                )
            }
        }),
{
}

/// A message goes to the node that it is for, along a shortest route over drones, over a
/// neighbour of the server.
pub proof fn law_message_goes_to_its_target(
    server: CommunicationView,
    source: NodeId,
    request: ClientMessagesView,
    after: CommunicationView,
    reply: ReplyView,
)
    requires
        server.replies(source, TestMessageView::WebServerMessages(request), after, reply),
        reply.outgoing is Some,
    ensures
        ({
            let (served, answer, to) = server.chat(source, request);
            &&& reply.outgoing->0.message == answer
            &&& is_shortest_route(
                server.links(to),
                reply.outgoing->0.route,
                server.node.id,
                to,
            )
            &&& reply.outgoing->0.route[1] == reply.outgoing->0.neighbour
            &&& server.node.neighbours.contains(reply.outgoing->0.neighbour)
        }),
{
}

/// A message whose target can be reached over drones, with a channel to every node that the
/// server has an edge to, is sent.
pub proof fn law_reachable_target_is_served(
    server: CommunicationView,
    source: NodeId,
    request: ClientMessagesView,
    after: CommunicationView,
    reply: ReplyView,
)
    requires
        server.replies(source, TestMessageView::WebServerMessages(request), after, reply),
        reachable(
            server.links(server.chat(source, request).2),
            server.node.id,
            server.chat(source, request).2,
        ),
        server.chat(source, request).2 != server.node.id,
        forall|next: NodeId| #[trigger]
            server.node.graph.edges.contains((server.node.id, next))
                ==> server.node.neighbours.contains(next),
    ensures
        reply.outgoing is Some,
{
    let (served, answer, to) = server.chat(source, request);
    let route = choose|route: Seq<NodeId>| #[trigger]
        announced(server.links(to), route, server.node.id, to) && reply
            == server.node.sends_along(route, answer).after(
            seq![
                ActionView::Report(
                    ServerEventView::MessageReceived(TestMessageView::WebServerMessages(request)),
                ),
            ],
        );
    assert(route.len() > 1);
    assert(joined(server.links(to), route, 0));
    assert(server.node.graph.edges.contains((route[0], route[1])));
}

/// A fragment that takes a detour still goes to its destination, unchanged; the detour enters no
/// node that is taken to be unreliable, passes only through drones on its way, and is the route
/// of every packet of the session from then on.
pub proof fn law_detour_avoids_unreliable_nodes(
    server: CommunicationView,
    session: u64,
    fragment: u64,
    after: CommunicationView,
    actions: Seq<ActionView>,
    k: int,
)
    requires
        server.reroutes(session, fragment, after, actions),
        0 <= k < actions.len(),
        actions[k] is Send,
    ensures
        server.node.sessions.packet(session, fragment) is Some,
        ({
            let waiting = server.node.sessions.packet(session, fragment)->0;
            let sent = actions[k]->packet;
            let hops = sent.routing_header.hops;
            &&& sent.pack_type == waiting.pack_type
            &&& sent.session_id == waiting.session_id
            &&& hops.len() > 1
            &&& hops[0] == server.node.id
            &&& hops[1] == actions[k]->to
            &&& hops.last() == waiting.routing_header.hops.last()
            &&& forall|i: int|
                0 < i < hops.len() ==> !server.node.excluded.contains(#[trigger] hops[i])
            &&& forall|i: int|
                0 < i < hops.len() - 1 ==> server.node.graph.types.contains_key(#[trigger] hops[i])
                    && server.node.graph.types[hops[i]] == NodeType::Drone
            &&& forall|index: u64|
                (#[trigger] after.node.sessions.packet(session, index)) is Some
                    ==> after.node.sessions.packet(session, index)->0.routing_header
                    == sent.routing_header
        }),
{
    let waiting = server.node.sessions.packet(session, fragment)->0;
    let target = waiting.routing_header.hops.last();
    let edges = server.detour_links(target);
    let found = choose|found: Option<Seq<NodeId>>| #[trigger]
        is_best_route(edges, found, server.node.id, target) && (after, actions)
            == server.reroutes_along(session, fragment, waiting, target, found);
    let hops = found->0;
    assert forall|i: int| 0 < i < hops.len() implies !server.node.excluded.contains(
        #[trigger] hops[i],
    ) by {
        assert(joined(edges, hops, i - 1));
    }
    assert forall|i: int| 0 < i < hops.len() - 1 implies server.node.graph.types.contains_key(
        #[trigger] hops[i],
    ) && server.node.graph.types[hops[i]] == NodeType::Drone by {
        law_relayed_route_passes_drones(
            server.node.graph,
            server.node.graph.detours(server.node.excluded),
            hops,
            server.node.id,
            target,
            i,
        );
    }
}

/// A node is taken to be unreliable exactly when it reports that it dropped the same fragment
/// more often than the limit, and its reports on the fragment start anew; in no case does a
/// packet that waits to be confirmed get lost, or anything of it change but its route.
pub proof fn law_excluded_beyond_the_limit(
    server: CommunicationView,
    nack: Nack,
    session: u64,
    node: NodeId,
    flood_id: u64,
    after: CommunicationView,
    actions: Seq<ActionView>,
    other: u64,
    index: u64,
)
    requires
        server.consistent(),
        server.loss_step(nack, session, node, flood_id, after, actions),
    ensures
        ({
            let losses = server.node.sessions.losses((nack.fragment_index, session, node));
            let beyond = nack.nack_type == NackType::Dropped && losses + 1 > RETRY_LIMIT;
            &&& after.node.excluded == if beyond {
                server.node.excluded.insert(node)
            } else {
                server.node.excluded
            }
            &&& after.node.sessions.losses((nack.fragment_index, session, node)) == if beyond {
                0
            } else if nack.nack_type == NackType::Dropped {
                losses + 1
            } else {
                losses
            }
        }),
        after.consistent(),
        match server.node.sessions.packet(other, index) {
            Some(packet) => {
                &&& after.node.sessions.packet(other, index) is Some
                &&& after.node.sessions.packet(other, index)->0.pack_type == packet.pack_type
                &&& after.node.sessions.packet(other, index)->0.session_id == packet.session_id
                &&& other != session ==> after.node.sessions.packet(other, index) == Some(packet)
            },
            None => after.node.sessions.packet(other, index) is None,
        },
{
}

impl View for CommunicationServer {
    type V = CommunicationView;

    closed spec fn view(&self) -> CommunicationView {
        CommunicationView {
            node: self.node@,
            server_type: self.server_type,
            registered: self.registered_client@,
        }
    }
}

/// In every state of a server, each edge that it knows can be taken in both directions, the types
/// of both its ends are known, no client is registered twice, and no count of lost fragments is
/// beyond the limit.
pub proof fn law_server_is_consistent(server: CommunicationServer)
    requires
        server.wf(),
    ensures
        bidirectional(server@.node.graph),
        ends_typed(server@.node.graph),
        server@.consistent(),
{
    law_graph_is_bidirectional(server.node.graph);
}

/// The answer to a client that names a client who is not registered.
fn refusal(client: NodeId) -> (res: ServerMessages)
    ensures
        res@ == not_registered(client),
{
    let words = numbered("", client as u64, " not registered to server");
    proof {
        reveal_strlit("");
        assert(words@ =~= decimal(client as nat) + " not registered to server"@);
    }
    ServerMessages::Error(words)
}

impl Clone for CommunicationServer {
    fn clone(&self) -> (res: Self)
        ensures
            res@ == self@,
            self.wf() ==> res.wf(),
    {
        CommunicationServer {
            node: self.node.clone(),
            server_type: self.server_type,
            registered_client: copy_nodes(&self.registered_client),
        }
    }
}

impl CommunicationServer {
    /// A server with these neighbours, which looks at the network at once.
    pub fn new(
        id: NodeId,
        neighbours: HashSet<NodeId>,
        server_type: ServerType,
        flood_id: u64,
    ) -> (res: (CommunicationServer, Vec<Action>))
        ensures
            res.0.wf(),
            res.0@ == (CommunicationView {
                node: NodeView::fresh(id, neighbours@),
                server_type,
                registered: seq![],
            }),
            res.0@.node.floods(flood_id, action_views(res.1@)),
    {
        let node = Node::new(id, neighbours);
        let mut server = CommunicationServer { node, server_type, registered_client: Vec::new() };
        assert(server@.registered =~= seq![]);
        let actions = server.network_discovery(flood_id);
        (server, actions)
    }

    /// Whether a client is registered.
    pub fn is_registered(&self, client_id: NodeId) -> (res: bool)
        ensures
            res == self@.registered.contains(client_id),
    {
        let mut i: usize = 0;
        while i < self.registered_client.len()
            invariant
                i <= self.registered_client@.len(),
                forall|j: int| 0 <= j < i ==> self.registered_client@[j] != client_id,
            decreases self.registered_client.len() - i,
        {
            if self.registered_client[i] == client_id {
                return true;
            }
            i = i + 1;
        }
        false
    }

    /// Sends a message to a node along a shortest route over drones.
    pub fn send_message(&mut self, message: ServerMessages, destination: NodeId) -> (reply: Reply)
        requires
            old(self).wf(),
        ensures
            final(self).wf(),
            old(self)@.sends(message@, destination, final(self)@, reply@),
    {
        self.node.excluded.clear();
        let found = self.compute_best_path(destination);
        proof {
            let route = route_taken(found);
            assert(announced(self@.links(destination), route, self@.node.id, destination));
            assert(self@ =~= old(self)@.forgiving());
        }
        self.node.send_along(found, message)
    }

    /// Tells a client what the server is for.
    pub fn send_my_type(&mut self, client_id: NodeId) -> (reply: Reply)
        requires
            old(self).wf(),
        ensures
            final(self).wf(),
            old(self)@.sends(
                ServerMessagesView::ServerType(old(self)@.server_type),
                client_id,
                final(self)@,
                reply@,
            ),
    {
        self.send_message(ServerMessages::ServerType(self.server_type), client_id)
    }

    /// Registers a client, and tells it whether that was done.
    pub fn register_client(&mut self, client_id: NodeId) -> (reply: Reply)
        requires
            old(self).wf(),
        ensures
            final(self).wf(),
            ({
                let (served, answer, to) = old(self)@.chat(
                    client_id,
                    ClientMessagesView::RegistrationToChat,
                );
                served.sends(answer, to, final(self)@, reply@)
            }),
    {
        if self.is_registered(client_id) {
            self.send_message(
                ServerMessages::RegistrationError("client already registered".to_string()),
                client_id,
            )
        } else {
            self.registered_client.push(client_id);
            self.send_message(ServerMessages::RegistrationOk, client_id)
        }
    }

    /// Tells a client which clients are registered.
    pub fn send_register_client(&mut self, client_id: NodeId) -> (reply: Reply)
        requires
            old(self).wf(),
        ensures
            final(self).wf(),
            old(self)@.sends(
                ServerMessagesView::ClientList(old(self)@.registered),
                client_id,
                final(self)@,
                reply@,
            ),
    {
        let clients = copy_nodes(&self.registered_client);
        self.send_message(ServerMessages::ClientList(clients), client_id)
    }

    /// Passes the message of one client on to another.
    pub fn forward_message(&mut self, target_id: NodeId, client_id: NodeId, message: String) -> (reply:
        Reply)
        requires
            old(self).wf(),
        ensures
            final(self).wf(),
            old(self)@.sends(
                ServerMessagesView::MessageFrom(client_id, message@),
                target_id,
                final(self)@,
                reply@,
            ),
    {
        self.send_message(ServerMessages::MessageFrom(client_id, message), target_id)
    }

    /// Serves the request of a client.
    pub fn serve(&mut self, client_id: NodeId, request: ClientMessages) -> (reply: Reply)
        requires
            old(self).wf(),
        ensures
            final(self).wf(),
            ({
                let (served, answer, to) = old(self)@.chat(client_id, request@);
                served.sends(answer, to, final(self)@, reply@)
            }),
    {
        match request {
            ClientMessages::ServerType => self.send_my_type(client_id),
            ClientMessages::RegistrationToChat => self.register_client(client_id),
            ClientMessages::ClientList => self.send_register_client(client_id),
            ClientMessages::MessageFor(target_id, message) => {
                if self.is_registered(client_id) {
                    if self.is_registered(target_id) {
                        self.forward_message(target_id, client_id, message)
                    } else {
                        self.send_message(refusal(target_id), client_id)
                    }
                } else {
                    self.send_message(refusal(client_id), client_id)
                }
            },
            _ => self.send_message(
                ServerMessages::Error("Unknown ClientMessage received".to_string()),
                client_id,
            ),
        }
    }

    /// Records that a fragment arrived.
    pub fn handle_ack(&mut self, ack: Ack, session_id: u64)
        requires
            old(self).wf(),
        ensures
            final(self).wf(),
            final(self)@ == old(self)@.acknowledged(session_id, ack.fragment_index),
    {
        self.node.sessions.acknowledge(session_id, ack.fragment_index);
    }

    /// Finds a shortest route to a client over drones that avoids the excluded nodes, or reports
    /// that there is none.
    pub fn compute_route_excluding(&self, target_client: NodeId) -> (res: (
        Option<Vec<NodeId>>,
        Vec<Action>,
    ))
        requires
            self.wf(),
        ensures
            is_best_route(
                self@.detour_links(target_client),
                route_view(res.0),
                self@.node.id,
                target_client,
            ),
            action_views(res.1@) == match res.0 {
                Some(_) => Seq::<ActionView>::empty(),
                None => seq![self@.node.no_detour_report(target_client)],
            },
    {
        let detours = self.node.graph.detours(&self.node.excluded);
        let edges = self.node.graph.relayed(&detours, target_client);
        let found = find_route(&edges, self.node.id, target_client);
        let mut actions = no_actions();
        if found.is_none() {
            push_action(&mut actions, self.node.report_no_detour(target_client));
        }
        assert(action_views(actions@) =~= match found {
            Some(_) => Seq::<ActionView>::empty(),
            None => seq![self@.node.no_detour_report(target_client)],
        });
        (found, actions)
    }

    /// Lets the session of a fragment, if it is still pending, take a detour.
    pub fn resend_with_new_path(&mut self, session_id: u64, fragment_index: u64) -> (actions: Vec<
        Action,
    >)
        requires
            old(self).wf(),
        ensures
            final(self).wf(),
            old(self)@.reroutes(
                session_id,
                fragment_index,
                final(self)@,
                action_views(actions@),
            ),
    {
        let packet: Packet = match self.node.sessions.packet(session_id, fragment_index) {
            Some(packet) => packet,
            None => {
                return no_actions();
            },
        };
        let ghost waiting = packet@;
        assert(self@.node.sessions.packet(session_id, fragment_index) == Some(waiting));
        let length = packet.routing_header.hops.len();
        if length == 0 {
            return no_actions();
        }
        let target_client = packet.routing_header.hops[length - 1];
        assert(target_client == waiting.routing_header.hops.last());
        let (found, reports) = self.compute_route_excluding(target_client);
        let ghost route = route_view(found);
        assert(is_best_route(
            self@.detour_links(target_client),
            route,
            self@.node.id,
            target_client,
        ));
        match found {
            Some(path) => {
                self.node.sessions.reroute(session_id, &path);
                let moved = Packet {
                    pack_type: packet.pack_type,
                    routing_header: SourceRoutingHeader { hop_index: 1, hops: path },
                    session_id: packet.session_id,
                };
                assert(moved@ == waiting.rerouted(path@));
                let actions = self.node.send_onward(moved);
                assert((self@, action_views(actions@)) == old(self)@.reroutes_along(
                    session_id,
                    fragment_index,
                    waiting,
                    target_client,
                    route,
                ));
                actions
            },
            None => {
                let mut actions = reports;
                let words = numbered("No alternative path for fragment ", fragment_index, "");
                proof {
                    reveal_strlit("");
                    assert(words@ =~= "No alternative path for fragment "@ + decimal(
                        fragment_index as nat,
                    ));
                }
                push_action(
                    &mut actions,
                    Action::Report(ServerEvent::Error(self.node.id, target_client, words)),
                );
                assert(action_views(actions@) =~= seq![
                    self@.node.no_detour_report(target_client),
                    self@.stranded_report(target_client, fragment_index),
                ]);
                actions
            },
        }
    }

    /// Acts on the report of a node that a fragment was lost.
    pub fn handle_nack(
        &mut self,
        nack: Nack,
        session_id: u64,
        id_drop_drone: NodeId,
        flood_id: u64,
    ) -> (actions: Vec<Action>)
        requires
            old(self).wf(),
            old(self)@.accepts_loss(nack, session_id),
        ensures
            final(self).wf(),
            old(self)@.loss_step(
                nack,
                session_id,
                id_drop_drone,
                flood_id,
                final(self)@,
                action_views(actions@),
            ),
    {
        let fragment = nack.fragment_index;
        match nack.nack_type {
            NackType::Dropped => {
                let count = self.node.sessions.count_loss(fragment, session_id, id_drop_drone);
                if count > RETRY_LIMIT {
                    let mut actions = no_actions();
                    push_action(
                        &mut actions,
                        self.node.report_loss(count, id_drop_drone, fragment),
                    );
                    self.node.excluded.insert(id_drop_drone);
                    let exclusions = self.node.report_exclusions();
                    let ghost order = choose|order: Seq<NodeId>|
                        enumerates(order, self.node@.excluded) && exclusions@
                            == #[trigger] self.node@.exclusion_report(order);
                    push_action(&mut actions, exclusions);
                    self.node.sessions.forget_loss(fragment, session_id, id_drop_drone);
                    let ghost evading = self@;
                    proof {
                        assert(evading =~= old(self)@.with_loss(
                            fragment,
                            session_id,
                            id_drop_drone,
                        ).with_excluded(fragment, session_id, id_drop_drone));
                    }
                    let resent = self.resend_with_new_path(session_id, fragment);
                    let ghost resent_view = action_views(resent@);
                    append_actions(&mut actions, resent);
                    proof {
                        assert(action_views(actions@) =~= seq![
                            old(self)@.node.loss_report(count as nat, id_drop_drone, fragment),
                            old(self)@.node.exclusion_report(order),
                        ] + resent_view);
                    }
                    actions
                } else {
                    self.node.resend(session_id, fragment)
                }
            },
            _ => {
                let mut actions = self.network_discovery(flood_id);
                let ghost flood_view = action_views(actions@);
                let words = numbered("Server ", self.node.id as u64, ": new route?");
                push_action(
                    &mut actions,
                    Action::Report(ServerEvent::DebugMessage(self.node.id, words)),
                );
                append_actions(&mut actions, self.node.resend(session_id, fragment));
                assert(action_views(actions@) =~= flood_view + seq![
                    old(self)@.rethinking_report(),
                ] + old(self)@.node.resends(session_id, fragment));
                actions
            },
        }
    }
}

impl DronegowskiServer for CommunicationServer {
    closed spec fn wf(&self) -> bool {
        self.node.wf() && self@.consistent()
    }

    open spec fn accepts(&self, packet: PacketView) -> bool {
        self@.accepts(packet)
    }

    fn accepts_packet(&self, packet: &Packet) -> (res: bool) {
        match &packet.pack_type {
            PacketType::FloodResponse(response) => response.path_trace.len() > 0,
            PacketType::FloodRequest(request) => request.path_trace.len() > 0,
            PacketType::Nack(nack) => packet.routing_header.hops.len() > 0 && (nack.nack_type
                == NackType::Dropped || self.node.has_next_hop(
                packet.session_id,
                nack.fragment_index,
            )),
            _ => true,
        }
    }

    fn network_discovery(&mut self, flood_id: u64) -> (actions: Vec<Action>)
        ensures
            final(self)@ == old(self)@.with_graph(GraphView::unknown()),
            old(self)@.node.floods(flood_id, action_views(actions@)),
    {
        self.node.graph.clear();
        let actions = self.node.flood(flood_id);
        proof {
            let order = choose|order: Seq<NodeId>|
                enumerates(order, self@.node.neighbours) && action_views(actions@)
                    == #[trigger] self@.node.flood(order, flood_id);
            assert(self@.node.flood(order, flood_id) =~= old(self)@.node.flood(order, flood_id));
        }
        actions
    }

    fn handle_packet(&mut self, packet: Packet, flood_id: u64) -> (step: Step)
        ensures
            old(self)@.packet_step(packet@, flood_id, final(self)@, step@),
    {
        match &packet.pack_type {
            PacketType::FloodResponse(response) => {
                self.update_graph(&response.path_trace);
                Step { actions: no_actions(), inbound: Inbound::Nothing }
            },
            PacketType::FloodRequest(request) => {
                let actions = self.node.answer_flood(request, packet.session_id);
                Step { actions, inbound: Inbound::Nothing }
            },
            PacketType::Ack(ack) => {
                self.handle_ack(*ack, packet.session_id);
                Step { actions: no_actions(), inbound: Inbound::Nothing }
            },
            PacketType::Nack(nack) => {
                let drop_drone = packet.routing_header.hops[0];
                let actions = self.handle_nack(*nack, packet.session_id, drop_drone, flood_id);
                Step { actions, inbound: Inbound::Nothing }
            },
            PacketType::MsgFragment(fragment) => match packet.routing_header.source() {
                Some(client_id) => self.node.receive("Server ", client_id, &packet, *fragment),
                None => Step { actions: no_actions(), inbound: Inbound::Nothing },
            },
        }
    }

    fn handle_message(&mut self, source_id: NodeId, message: TestMessage) -> (reply: Reply)
        ensures
            old(self)@.replies(source_id, message@, final(self)@, reply@),
    {
        match message {
            TestMessage::WebServerMessages(request) => {
                let mut actions = no_actions();
                push_action(
                    &mut actions,
                    Action::Report(
                        ServerEvent::MessageReceived(
                            TestMessage::WebServerMessages(request.clone()),
                        ),
                    ),
                );
                let reply = self.serve(source_id, request);
                proof {
                    let (served, answer, to) = old(self)@.chat(source_id, request@);
                    let route = choose|route: Seq<NodeId>| #[trigger]
                        announced(served.links(to), route, served.node.id, to) && reply@
                            == served.node.sends_along(route, answer);
                    assert(announced(old(self)@.links(to), route, old(self)@.node.id, to));
                }
                let ghost sent = action_views(reply.actions@);
                append_actions(&mut actions, reply.actions);
                assert(action_views(actions@) =~= seq![
                    ActionView::Report(ServerEventView::MessageReceived(message@)),
                ] + sent);
                Reply { actions, outgoing: reply.outgoing }
            },
            TestMessage::WebClientMessages(_) => Reply { actions: no_actions(), outgoing: None },
        }
    }

    fn send_packets(&mut self, session_id: u64, packets: Vec<Packet>, neighbour: NodeId) -> (actions:
        Vec<Action>)
        ensures
            final(self)@ == old(self)@.with_node(
                NodeView {
                    sessions: old(self)@.node.sessions.with_pending(
                        session_id,
                        packet_views(packets@),
                    ),
                    ..old(self)@.node
                },
            ),
            action_views(actions@) == NodeView::departures(packet_views(packets@), neighbour),
    {
        self.node.dispatch(session_id, packets, neighbour)
    }

    fn handle_command(&mut self, command: ServerCommand, flood_id: u64) -> (step: Step)
        ensures
            old(self)@.command_step(command@, flood_id, final(self)@, step@),
    {
        match command {
            ServerCommand::AddSender(id) => {
                let mut actions = self.add_neighbor(id, flood_id);
                let flood = self.network_discovery(flood_id);
                append_actions(&mut actions, flood);
                Step { actions, inbound: Inbound::Nothing }
            },
            ServerCommand::RemoveSender(id) => {
                let mut actions = self.remove_neighbor(id, flood_id);
                let flood = self.network_discovery(flood_id);
                append_actions(&mut actions, flood);
                Step { actions, inbound: Inbound::Nothing }
            },
            ServerCommand::ControllerShortcut(packet) => self.handle_packet(packet, flood_id),
            ServerCommand::RequestNetworkDiscovery => {
                let actions = self.network_discovery(flood_id);
                assert(action_views(actions@) =~= seq![] + action_views(actions@));
                Step { actions, inbound: Inbound::Nothing }
            },
            ServerCommand::Unhandled => Step { actions: no_actions(), inbound: Inbound::Nothing },
        }
    }

    fn update_graph(&mut self, path_trace: &Vec<(NodeId, NodeType)>)
        ensures
            final(self)@ == old(self)@.with_graph(old(self)@.node.graph.with_path(path_trace@)),
    {
        self.node.graph.update(path_trace);
    }

    fn compute_best_path(&self, target_client: NodeId) -> (res: Option<Vec<NodeId>>)
        ensures
            is_best_route(
                self@.links(target_client),
                route_view(res),
                self@.node.id,
                target_client,
            ),
    {
        let edges = self.node.graph.relayed(self.node.graph.edges(), target_client);
        find_route(&edges, self.node.id, target_client)
    }

    fn reconstruct_message(&mut self, key: u64) -> (res: Result<Vec<Fragment>, ReconstructError>)
        ensures
            final(self)@ == old(self)@.with_node(
                NodeView { storage: final(self)@.node.storage, ..old(self)@.node },
            ),
            reconstructs(
                old(self)@.node.storage,
                key,
                final(self)@.node.storage,
                parts_view(res),
            ),
    {
        self.node.storage.reconstruct(key)
    }

    fn add_neighbor(&mut self, node_id: NodeId, flood_id: u64) -> (actions: Vec<Action>)
        ensures
            final(self)@ == old(self)@.with_neighbour(node_id),
            action_views(actions@) == old(self)@.keeps(node_id),
    {
        let mut actions = no_actions();
        if !self.node.neighbours.contains(&node_id) {
            self.node.neighbours.insert(node_id);
            push_action(&mut actions, Action::KeepSender(node_id));
        }
        assert(action_views(actions@) =~= old(self)@.keeps(node_id));
        assert(self@ =~= old(self)@.with_neighbour(node_id));
        actions
    }

    fn remove_neighbor(&mut self, node_id: NodeId, flood_id: u64) -> (actions: Vec<Action>)
        ensures
            final(self)@ == old(self)@.without_neighbour(node_id),
            action_views(actions@) == old(self)@.drops(node_id),
    {
        let mut actions = no_actions();
        if self.node.neighbours.contains(&node_id) {
            self.node.neighbours.remove(&node_id);
            push_action(&mut actions, Action::DropSender(node_id));
            self.remove_from_topology(node_id);
        }
        assert(action_views(actions@) =~= old(self)@.drops(node_id));
        actions
    }

    fn remove_from_topology(&mut self, node_id: NodeId)
        ensures
            final(self)@ == old(self)@.with_graph(old(self)@.node.graph.without_node(node_id)),
    {
        self.node.graph.remove_node(node_id);
    }
}

} // verus!
