//! The server that answers requests for texts and media.

use crate::action::{
    action_views, append_actions, no_actions, push_action, Action, ActionView, Inbound,
    InboundView, Reply, ReplyView, Step, StepView,
};
use crate::graph::{
    bidirectional, ends_typed, law_detour_avoids_excluded, law_graph_is_bidirectional, GraphView,
};
use crate::message::{
    ClientMessages, ClientMessagesView, FileView, ServerCommand, ServerCommandView, ServerEvent,
    ServerEventView, ServerMessages, ServerMessagesView, ServerType, TestMessage, TestMessageView,
};
use crate::node::{announced, flood_answer, route_taken, Node, NodeView};
use crate::packet::{
    copy_nodes, packet_views, Ack, Fragment, Nack, NackType, NodeId, NodeType, Packet, PacketType,
    PacketTypeView, PacketView, SourceRoutingHeader,
};
use crate::reassembly::{parts_view, reconstructs, ReconstructError};
use crate::route::{
    find_route, is_best_route, is_shortest_route, joined, reachable, route_view,
};
use crate::server::DronegowskiServer;
use crate::store::{
    folder_files, law_listed_texts_are_stored, lists_titles, numbered_files, MediaServer,
    TextEntry, TextServer,
};
use crate::text::enumerates;
use std::collections::HashSet;
use vstd::prelude::*;

verus! {

broadcast use vstd::std_specs::hash::group_hash_axioms;

/// A node that reported the loss of the same fragment this often is avoided from then on.
pub const DROP_LIMIT: u64 = 4;

/// The server that answers requests for texts and media.
pub struct ContentServer {
    node: Node,
    server_type: ServerType,
    text: TextServer,
    media: MediaServer,
}

/// The model of a [`ContentServer`].
#[verifier::ext_equal]
pub struct ContentView {
    pub node: NodeView,
    pub server_type: ServerType,
    pub texts: Map<u64, FileView>,
    pub media: Map<u64, Seq<u8>>,
}

impl ContentView {
    /// The same server with another common state.
    pub open spec fn with_node(self, node: NodeView) -> ContentView {
        ContentView { node, ..self }
    }

    /// The same server with other knowledge of the network.
    pub open spec fn with_graph(self, graph: GraphView) -> ContentView {
        self.with_node(NodeView { graph, ..self.node })
    }

    /// The server after a fragment was confirmed.
    pub open spec fn acknowledged(self, session: u64, fragment: u64) -> ContentView {
        self.with_node(
            NodeView { sessions: self.node.sessions.acknowledged(session, fragment), ..self.node },
        )
    }

    /// The server after a node reported a loss once more.
    pub open spec fn with_loss(self, fragment: u64, session: u64, node: NodeId) -> ContentView {
        self.with_node(
            NodeView {
                sessions: self.node.sessions.with_loss((fragment, session, node)),
                ..self.node
            },
        )
    }

    /// The server after it took a node to be unreliable.
    pub open spec fn with_excluded(self, node: NodeId) -> ContentView {
        self.with_node(NodeView { excluded: self.node.excluded.insert(node), ..self.node })
    }

    /// What the server answers to a request. Only the order of the list of texts is open.
    pub open spec fn answers(self, request: ClientMessagesView, answer: ServerMessagesView) -> bool {
        match request {
            ClientMessagesView::ServerType => answer == ServerMessagesView::ServerType(
                ServerType::Content,
            ),
            ClientMessagesView::FilesList => match answer {
                ServerMessagesView::FilesList(list) => lists_titles(list, self.texts),
                _ => false,
            },
            ClientMessagesView::File(id) => answer == (if self.texts.contains_key(id) {
                ServerMessagesView::File(self.texts[id])
            } else {
                ServerMessagesView::Error("file not found"@)
            }),
            ClientMessagesView::Media(id) => answer == (if self.media.contains_key(id) {
                ServerMessagesView::Media(self.media[id])
            } else {
                ServerMessagesView::Error("media not found"@)
            }),
            _ => answer == ServerMessagesView::Error("Unknown message type"@),
        }
    }

    /// What a message leads to: a request is reported and answered to its sender, and anything
    /// else is left alone.
    pub open spec fn replies(self, source: NodeId, message: TestMessageView, reply: ReplyView) -> bool {
        match message {
            TestMessageView::WebServerMessages(request) => exists|
                answer: ServerMessagesView,
                route: Seq<NodeId>,
            |
                #[trigger] self.answers(request, answer) && #[trigger] announced(
                    self.node.graph.edges,
                    route,
                    self.node.id,
                    source,
                ) && reply == self.node.sends_along(route, answer).after(
                    seq![ActionView::Report(ServerEventView::MessageReceived(message))],
                ),
            TestMessageView::WebClientMessages(_) => reply == (ReplyView {
                actions: seq![],
                outgoing: None,
            }),
        }
    }

    /// The packet of a fragment, if it is still pending and has a destination, goes there by a
    /// detour, or it is reported that there is none.
    pub open spec fn detours(self, session: u64, fragment: u64, actions: Seq<ActionView>) -> bool {
        match self.node.sessions.packet(session, fragment) {
            Some(packet) if packet.routing_header.hops.len() > 0 => {
                let target = packet.routing_header.hops.last();
                let edges = self.node.graph.detours(self.node.excluded);
                exists|found: Option<Seq<NodeId>>| #[trigger]
                    is_best_route(edges, found, self.node.id, target) && actions
                        == self.detour_actions(packet, target, found)
            },
            _ => actions == Seq::<ActionView>::empty(),
        }
    }

    /// What is done with a packet once a detour was looked for.
    pub open spec fn detour_actions(
        self,
        packet: PacketView,
        target: NodeId,
        found: Option<Seq<NodeId>>,
    ) -> Seq<ActionView> {
        match found {
            Some(path) => seq![ActionView::Report(ServerEventView::Route(path))]
                + self.node.onward(packet.rerouted(path)),
            None => seq![self.node.no_detour_report(target)],
        }
    }

    /// What the server does once it took a node to be unreliable: it reports that, looks at the
    /// network anew, and sends the fragment by a detour.
    pub open spec fn evades(
        self,
        nack: Nack,
        session: u64,
        node: NodeId,
        flood_id: u64,
        actions: Seq<ActionView>,
    ) -> bool {
        exists|order: Seq<NodeId>, flood: Seq<ActionView>, resent: Seq<ActionView>|
            #[trigger] enumerates(order, self.node.excluded) && #[trigger] self.node.floods(
                flood_id,
                flood,
            ) && #[trigger] self.detours(session, nack.fragment_index, resent) && actions == seq![
                self.node.loss_report(DROP_LIMIT as nat, node, nack.fragment_index),
                self.node.exclusion_report(order),
            ] + flood + resent
    }

    /// What the report of a loss leads to.
    pub open spec fn loss_step(
        self,
        nack: Nack,
        session: u64,
        node: NodeId,
        flood_id: u64,
        after: ContentView,
        actions: Seq<ActionView>,
    ) -> bool {
        let fragment = nack.fragment_index;
        let counted = self.with_loss(fragment, session, node);
        let count = self.node.sessions.losses((fragment, session, node)) + 1;
        if nack.nack_type == NackType::Dropped {
            if count == DROP_LIMIT {
                &&& after == counted.with_excluded(node)
                &&& after.evades(nack, session, node, flood_id, actions)
            } else {
                &&& after == counted
                &&& actions == if count < DROP_LIMIT {
                    counted.node.resends(session, fragment)
                } else {
                    Seq::<ActionView>::empty()
                }
            }
        } else {
            &&& after == counted
            &&& exists|flood: Seq<ActionView>| #[trigger]
                counted.node.floods(flood_id, flood) && actions == flood + counted.node.resends(
                    session,
                    fragment,
                )
        }
    }

    /// The report of a loss can be handled: its count does not overflow, and a packet that is
    /// to be sent again along its own route has a node to go to.
    pub open spec fn accepts_loss(self, nack: Nack, session: u64, node: NodeId) -> bool {
        let fragment = nack.fragment_index;
        let losses = self.node.sessions.losses((fragment, session, node));
        &&& losses < u64::MAX
        &&& (nack.nack_type != NackType::Dropped || losses + 1 < DROP_LIMIT)
            ==> self.node.can_resend(session, fragment)
    }

    /// The packet can be handled: paths on it are not empty, and a report of a loss is one
    /// that can be handled. A packet without a sender is left alone.
    pub open spec fn accepts(self, packet: PacketView) -> bool {
        match packet.routing_header.source() {
            Some(source) => match packet.pack_type {
                PacketTypeView::FloodResponse(response) => response.path_trace.len() > 0,
                PacketTypeView::FloodRequest(request) => request.path_trace.len() > 0,
                PacketTypeView::Nack(nack) => self.accepts_loss(nack, packet.session_id, source),
                _ => true,
            },
            None => true,
        }
    }

    /// What a packet leads to.
    pub open spec fn packet_step(
        self,
        packet: PacketView,
        flood_id: u64,
        after: ContentView,
        step: StepView,
    ) -> bool {
        match packet.routing_header.source() {
            Some(source) => match packet.pack_type {
                PacketTypeView::MsgFragment(fragment) => {
                    &&& after == self.with_node(after.node)
                    &&& self.node.receives("Client "@, source, packet, fragment, after.node, step)
                },
                PacketTypeView::FloodResponse(response) => {
                    &&& after == self.with_graph(self.node.graph.with_path(response.path_trace))
                    &&& step == StepView::acts(seq![])
                },
                PacketTypeView::FloodRequest(request) => {
                    &&& after == self
                    &&& step == StepView::acts(
                        self.node.onward(flood_answer(self.node.id, request, packet.session_id)),
                    )
                },
                PacketTypeView::Ack(ack) => {
                    &&& after == self.acknowledged(packet.session_id, ack.fragment_index)
                    &&& step == StepView::acts(seq![])
                },
                PacketTypeView::Nack(nack) => {
                    &&& step.inbound == InboundView::Nothing
                    &&& self.loss_step(
                        nack,
                        packet.session_id,
                        source,
                        flood_id,
                        after,
                        step.actions,
                    )
                },
            },
            None => after == self && step == StepView::acts(seq![]),
        }
    }

    /// The server with a new neighbour, which makes it look at the network anew; a neighbour
    /// that it has already changes nothing.
    pub open spec fn neighbour_added(
        self,
        node: NodeId,
        flood_id: u64,
        after: ContentView,
        actions: Seq<ActionView>,
    ) -> bool {
        if self.node.neighbours.contains(node) {
            after == self && actions == Seq::<ActionView>::empty()
        } else {
            &&& after == self.with_node(
                NodeView { neighbours: self.node.neighbours.insert(node), ..self.node },
            )
            &&& exists|flood: Seq<ActionView>| #[trigger]
                after.node.floods(flood_id, flood) && actions == seq![ActionView::KeepSender(node)]
                    + flood
        }
    }

    /// The server without a neighbour, which makes it look at the network anew; a node that is
    /// no neighbour changes nothing.
    pub open spec fn neighbour_removed(
        self,
        node: NodeId,
        flood_id: u64,
        after: ContentView,
        actions: Seq<ActionView>,
    ) -> bool {
        if self.node.neighbours.contains(node) {
            &&& after == self.with_node(
                NodeView {
                    neighbours: self.node.neighbours.remove(node),
                    graph: self.node.graph.without_node(node),
                    ..self.node
                },
            )
            &&& exists|flood: Seq<ActionView>| #[trigger]
                after.node.floods(flood_id, flood) && actions == seq![ActionView::DropSender(node)]
                    + flood
        } else {
            after == self && actions == Seq::<ActionView>::empty()
        }
    }

    /// What a command leads to.
    pub open spec fn command_step(
        self,
        command: ServerCommandView,
        flood_id: u64,
        after: ContentView,
        step: StepView,
    ) -> bool {
        match command {
            ServerCommandView::AddSender(node) => {
                &&& step.inbound == InboundView::Nothing
                &&& self.neighbour_added(node, flood_id, after, step.actions)
            },
            ServerCommandView::RemoveSender(node) => {
                &&& step.inbound == InboundView::Nothing
                &&& self.neighbour_removed(node, flood_id, after, step.actions)
            },
            ServerCommandView::ControllerShortcut(packet) => self.packet_step(
                packet,
                flood_id,
                after,
                step,
            ),
            ServerCommandView::RequestNetworkDiscovery => {
                &&& after == self
                &&& step.inbound == InboundView::Nothing
                &&& self.node.floods(flood_id, step.actions)
            },
            ServerCommandView::Unhandled => after == self && step == StepView::acts(seq![]),
        }
    }
}

/// The answer to a request goes to the client that asked, along a shortest route, over a
/// neighbour of the server.
pub proof fn law_answer_goes_to_requester(
    server: ContentView,
    source: NodeId,
    request: ClientMessagesView,
    reply: ReplyView,
)
    requires
        server.replies(source, TestMessageView::WebServerMessages(request), reply),
        reply.outgoing is Some,
    ensures
        server.answers(request, reply.outgoing->0.message),
        is_shortest_route(
            server.node.graph.edges,
            reply.outgoing->0.route,
            server.node.id,
            source,
        ),
        reply.outgoing->0.route[1] == reply.outgoing->0.neighbour,
        server.node.neighbours.contains(reply.outgoing->0.neighbour),
{
}

/// A request whose sender can be reached, with a channel to every node that the server has an
/// edge to, is answered.
pub proof fn law_reachable_requester_is_answered(
    server: ContentView,
    source: NodeId,
    request: ClientMessagesView,
    reply: ReplyView,
)
    requires
        server.replies(source, TestMessageView::WebServerMessages(request), reply),
        reachable(server.node.graph.edges, server.node.id, source),
        source != server.node.id,
        forall|next: NodeId| #[trigger]
            server.node.graph.edges.contains((server.node.id, next))
                ==> server.node.neighbours.contains(next),
    ensures
        reply.outgoing is Some,
{
    let (answer, route) = choose|answer: ServerMessagesView, route: Seq<NodeId>|
        #[trigger] server.answers(request, answer) && #[trigger] announced(
            server.node.graph.edges,
            route,
            server.node.id,
            source,
        ) && reply == server.node.sends_along(route, answer).after(
            seq![
                ActionView::Report(
                    ServerEventView::MessageReceived(TestMessageView::WebServerMessages(request)),
                ),
            ],
        );
    assert(route.len() > 1);
    assert(joined(server.node.graph.edges, route, 0));
}

/// Every text on the list that the server gives can be asked for by its number, and comes with
/// the title on the list.
pub proof fn law_listed_text_is_served(
    server: ContentView,
    list: Seq<(u64, Seq<char>)>,
    i: int,
    answer: ServerMessagesView,
)
    requires
        server.answers(ClientMessagesView::FilesList, ServerMessagesView::FilesList(list)),
        0 <= i < list.len(),
        server.answers(ClientMessagesView::File(list[i].0), answer),
    ensures
        answer is File,
        answer->File_0.title == list[i].1,
{
    law_listed_texts_are_stored(list, server.texts);
}

/// A server that holds the texts of a folder serves each of them under its number, and no other
/// number is found.
pub proof fn law_folder_is_served(
    server: ContentView,
    entries: Seq<TextEntry>,
    id: u64,
    answer: ServerMessagesView,
)
    requires
        server.texts == numbered_files(folder_files(entries)),
        server.answers(ClientMessagesView::File(id), answer),
    ensures
        answer == (if id < folder_files(entries).len() {
            ServerMessagesView::File(folder_files(entries)[id as int])
        } else {
            ServerMessagesView::Error("file not found"@)
        }),
{
}

/// A fragment that takes a detour still goes to its destination, unchanged, and enters no node
/// that is taken to be unreliable.
pub proof fn law_detour_avoids_unreliable_nodes(
    server: ContentView,
    session: u64,
    fragment: u64,
    actions: Seq<ActionView>,
    k: int,
)
    requires
        server.detours(session, fragment, actions),
        0 <= k < actions.len(),
        actions[k] is Send,
    ensures
        server.node.sessions.packet(session, fragment) is Some,
        ({
            let waiting = server.node.sessions.packet(session, fragment)->0;
            let sent = actions[k]->packet;
            let hops = sent.routing_header.hops;
            &&& sent.pack_type == waiting.pack_type
            &&& sent.session_id == waiting.session_id
            &&& hops.len() > 1
            &&& hops[0] == server.node.id
            &&& hops[1] == actions[k]->to
            &&& hops.last() == waiting.routing_header.hops.last()
            &&& forall|i: int|
                0 < i < hops.len() ==> !server.node.excluded.contains(#[trigger] hops[i])
        }),
{
    let waiting = server.node.sessions.packet(session, fragment)->0;
    let target = waiting.routing_header.hops.last();
    let edges = server.node.graph.detours(server.node.excluded);
    let found = choose|found: Option<Seq<NodeId>>| #[trigger]
        is_best_route(edges, found, server.node.id, target) && actions == server.detour_actions(
            waiting,
            target,
            found,
        );
    let hops = found->0;
    assert forall|i: int| 0 < i < hops.len() implies !server.node.excluded.contains(
        #[trigger] hops[i],
    ) by {
        law_detour_avoids_excluded(
            server.node.graph,
            server.node.excluded,
            hops,
            server.node.id,
            target,
            i,
        );
    }
}

/// A node is taken to be unreliable exactly when it reports for the fourth time that it dropped
/// the same fragment; the packets that wait to be confirmed stay as they are.
pub proof fn law_excluded_at_the_limit(
    server: ContentView,
    nack: Nack,
    session: u64,
    node: NodeId,
    flood_id: u64,
    after: ContentView,
    actions: Seq<ActionView>,
)
    requires
        server.accepts_loss(nack, session, node),
        server.loss_step(nack, session, node, flood_id, after, actions),
    ensures
        after.node.excluded == (if nack.nack_type == NackType::Dropped
            && server.node.sessions.losses((nack.fragment_index, session, node)) + 1
            == DROP_LIMIT {
            server.node.excluded.insert(node)
        } else {
            server.node.excluded
        }),
        after.node.sessions.losses((nack.fragment_index, session, node))
            == server.node.sessions.losses((nack.fragment_index, session, node)) + 1,
        after.node.sessions.pending == server.node.sessions.pending,
{
}

impl View for ContentServer {
    type V = ContentView;

    closed spec fn view(&self) -> ContentView {
        ContentView {
            node: self.node@,
            server_type: self.server_type,
            texts: self.text@,
            media: self.media@,
        }
    }
}

/// In every state of a server, each edge that it knows can be taken in both directions, and the
/// types of both its ends are known.
pub proof fn law_known_edges_are_bidirectional(server: ContentServer)
    requires
        server.wf(),
    ensures
        bidirectional(server@.node.graph),
        ends_typed(server@.node.graph),
{
    law_graph_is_bidirectional(server.node.graph);
}

impl ContentServer {
    /// A server with these neighbours and contents, which looks at the network at once.
    pub fn new(
        id: NodeId,
        neighbours: HashSet<NodeId>,
        server_type: ServerType,
        text: TextServer,
        media: MediaServer,
        flood_id: u64,
    ) -> (res: (ContentServer, Vec<Action>))
        ensures
            res.0.wf(),
            res.0@ == (ContentView {
                node: NodeView::fresh(id, neighbours@),
                server_type,
                texts: text@,
                media: media@,
            }),
            res.0@.node.floods(flood_id, action_views(res.1@)),
    {
        let node = Node::new(id, neighbours);
        let mut server = ContentServer { node, server_type, text, media };
        let actions = server.network_discovery(flood_id);
        (server, actions)
    }

    /// Answers a request.
    pub fn answer(&self, request: &ClientMessages) -> (answer: ServerMessages)
        ensures
            self@.answers(request@, answer@),
    {
        match request {
            ClientMessages::ServerType => ServerMessages::ServerType(ServerType::Content),
            ClientMessages::FilesList => ServerMessages::FilesList(self.text.list_files()),
            ClientMessages::File(file_id) => match self.text.get_file_text(*file_id) {
                Some(text) => ServerMessages::File(text),
                None => ServerMessages::Error("file not found".to_string()),
            },
            ClientMessages::Media(media_id) => match self.media.get_media(*media_id) {
                Some(media) => ServerMessages::Media(media),
                None => ServerMessages::Error("media not found".to_string()),
            },
            _ => ServerMessages::Error("Unknown message type".to_string()),
        }
    }

    /// Sends a message to a node along a shortest route.
    pub fn send_message(&mut self, message: ServerMessages, destination: NodeId) -> (reply: Reply)
        requires
            old(self).wf(),
        ensures
            final(self).wf(),
            final(self)@ == old(self)@,
            old(self)@.node.sends(
                old(self)@.node.graph.edges,
                message@,
                destination,
                reply@,
            ),
    {
        let found = self.compute_best_path(destination);
        proof {
            let route = route_taken(found);
            assert(announced(self@.node.graph.edges, route, self@.node.id, destination));
        }
        self.node.send_along(found, message)
    }

    /// Records that a fragment arrived.
    pub fn handle_ack(&mut self, ack: Ack, session_id: u64)
        requires
            old(self).wf(),
        ensures
            final(self).wf(),
            final(self)@ == old(self)@.acknowledged(session_id, ack.fragment_index),
    {
        self.node.sessions.acknowledge(session_id, ack.fragment_index);
    }

    /// Finds a shortest route to a client that avoids the excluded nodes, or reports that there
    /// is none.
    pub fn compute_route_excluding(&self, target_client: NodeId) -> (res: (
        Option<Vec<NodeId>>,
        Vec<Action>,
    ))
        requires
            self.wf(),
        ensures
            is_best_route(
                self@.node.graph.detours(self@.node.excluded),
                route_view(res.0),
                self@.node.id,
                target_client,
            ),
            action_views(res.1@) == match res.0 {
                Some(_) => Seq::<ActionView>::empty(),
                None => seq![self@.node.no_detour_report(target_client)],
            },
    {
        let edges = self.node.graph.detours(&self.node.excluded);
        let found = find_route(&edges, self.node.id, target_client);
        let mut actions = no_actions();
        if found.is_none() {
            push_action(&mut actions, self.node.report_no_detour(target_client));
        }
        assert(action_views(actions@) =~= match found {
            Some(_) => Seq::<ActionView>::empty(),
            None => seq![self@.node.no_detour_report(target_client)],
        });
        (found, actions)
    }

    /// Sends the packet of a fragment, if it is still pending, by a detour.
    fn resend_by_detour(&self, session_id: u64, fragment_index: u64) -> (actions: Vec<Action>)
        requires
            self.wf(),
        ensures
            self@.detours(session_id, fragment_index, action_views(actions@)),
    {
        let packet: Packet = match self.node.sessions.packet(session_id, fragment_index) {
            Some(packet) => packet,
            None => {
                return no_actions();
            },
        };
        let ghost waiting = packet@;
        assert(self@.node.sessions.packet(session_id, fragment_index) == Some(waiting));
        let length = packet.routing_header.hops.len();
        if length == 0 {
            return no_actions();
        }
        let target = packet.routing_header.hops[length - 1];
        assert(target == waiting.routing_header.hops.last());
        let (found, reports) = self.compute_route_excluding(target);
        let ghost route = route_view(found);
        assert(is_best_route(
            self@.node.graph.detours(self@.node.excluded),
            route,
            self@.node.id,
            target,
        ));
        match found {
            Some(path) => {
                let mut actions = no_actions();
                push_action(&mut actions, Action::Report(ServerEvent::Route(copy_nodes(&path))));
                let moved = Packet {
                    pack_type: packet.pack_type,
                    routing_header: SourceRoutingHeader { hop_index: 1, hops: path },
                    session_id: packet.session_id,
                };
                assert(moved@ == waiting.rerouted(path@));
                append_actions(&mut actions, self.node.send_onward(moved));
                assert(action_views(actions@) =~= self@.detour_actions(waiting, target, route));
                actions
            },
            None => {
                assert(action_views(reports@) =~= self@.detour_actions(waiting, target, route));
                reports
            },
        }
    }

    /// Acts on the report of a node that a fragment was lost.
    pub fn handle_nack(
        &mut self,
        nack: Nack,
        session_id: u64,
        id_drop_drone: NodeId,
        flood_id: u64,
    ) -> (actions: Vec<Action>)
        requires
            old(self).wf(),
            old(self)@.accepts_loss(nack, session_id, id_drop_drone),
        ensures
            final(self).wf(),
            old(self)@.loss_step(
                nack,
                session_id,
                id_drop_drone,
                flood_id,
                final(self)@,
                action_views(actions@),
            ),
    {
        let fragment = nack.fragment_index;
        let count = self.node.sessions.count_loss(fragment, session_id, id_drop_drone);
        match nack.nack_type {
            NackType::Dropped => {
                if count == DROP_LIMIT {
                    let mut actions = no_actions();
                    push_action(
                        &mut actions,
                        self.node.report_loss(count, id_drop_drone, fragment),
                    );
                    self.node.excluded.insert(id_drop_drone);
                    let exclusions = self.node.report_exclusions();
                    let ghost order = choose|order: Seq<NodeId>|
                        enumerates(order, self.node@.excluded) && exclusions@
                            == #[trigger] self.node@.exclusion_report(order);
                    push_action(&mut actions, exclusions);
                    let flood = self.network_discovery(flood_id);
                    let ghost flood_view = action_views(flood@);
                    append_actions(&mut actions, flood);
                    let resent = self.resend_by_detour(session_id, fragment);
                    let ghost resent_view = action_views(resent@);
                    append_actions(&mut actions, resent);
                    proof {
                        assert(self@ =~= old(self)@.with_loss(
                            fragment,
                            session_id,
                            id_drop_drone,
                        ).with_excluded(id_drop_drone));
                        assert(action_views(actions@) =~= seq![
                            self@.node.loss_report(DROP_LIMIT as nat, id_drop_drone, fragment),
                            self@.node.exclusion_report(order),
                        ] + flood_view + resent_view);
                    }
                    actions
                } else if count < DROP_LIMIT {
                    self.node.resend(session_id, fragment)
                } else {
                    no_actions()
                }
            },
            _ => {
                let mut actions = self.network_discovery(flood_id);
                append_actions(&mut actions, self.node.resend(session_id, fragment));
                actions
            },
        }
    }
}

impl DronegowskiServer for ContentServer {
    closed spec fn wf(&self) -> bool {
        self.node.wf()
    }

    open spec fn accepts(&self, packet: PacketView) -> bool {
        self@.accepts(packet)
    }

    fn accepts_packet(&self, packet: &Packet) -> (res: bool) {
        match packet.routing_header.source() {
            Some(source) => match &packet.pack_type {
                PacketType::FloodResponse(response) => response.path_trace.len() > 0,
                PacketType::FloodRequest(request) => request.path_trace.len() > 0,
                PacketType::Nack(nack) => {
                    let fragment = nack.fragment_index;
                    let losses = self.node.sessions.losses(fragment, packet.session_id, source);
                    losses < u64::MAX && ((nack.nack_type == NackType::Dropped && losses + 1
                        >= DROP_LIMIT) || self.node.has_next_hop(packet.session_id, fragment))
                },
                _ => true,
            },
            None => true,
        }
    }

    fn network_discovery(&mut self, flood_id: u64) -> (actions: Vec<Action>)
        ensures
            final(self)@ == old(self)@,
            old(self)@.node.floods(flood_id, action_views(actions@)),
    {
        self.node.flood(flood_id)
    }

    fn handle_packet(&mut self, packet: Packet, flood_id: u64) -> (step: Step)
        ensures
            old(self)@.packet_step(packet@, flood_id, final(self)@, step@),
    {
        let source_id: NodeId = match packet.routing_header.source() {
            Some(source_id) => source_id,
            None => {
                return Step { actions: no_actions(), inbound: Inbound::Nothing };
            },
        };
        match &packet.pack_type {
            PacketType::MsgFragment(fragment) => self.node.receive(
                "Client ",
                source_id,
                &packet,
                *fragment,
            ),
            PacketType::FloodResponse(response) => {
                self.update_graph(&response.path_trace);
                Step { actions: no_actions(), inbound: Inbound::Nothing }
            },
            PacketType::FloodRequest(request) => {
                let actions = self.node.answer_flood(request, packet.session_id);
                Step { actions, inbound: Inbound::Nothing }
            },
            PacketType::Ack(ack) => {
                self.handle_ack(*ack, packet.session_id);
                Step { actions: no_actions(), inbound: Inbound::Nothing }
            },
            PacketType::Nack(nack) => {
                let actions = self.handle_nack(*nack, packet.session_id, source_id, flood_id);
                Step { actions, inbound: Inbound::Nothing }
            },
        }
    }

    fn handle_message(&mut self, source_id: NodeId, message: TestMessage) -> (reply: Reply)
        ensures
            final(self)@ == old(self)@,
            old(self)@.replies(source_id, message@, reply@),
    {
        match message {
            TestMessage::WebServerMessages(request) => {
                let answer = self.answer(&request);
                let mut actions = no_actions();
                push_action(
                    &mut actions,
                    Action::Report(
                        ServerEvent::MessageReceived(TestMessage::WebServerMessages(request)),
                    ),
                );
                let reply = self.send_message(answer, source_id);
                let ghost route = choose|route: Seq<NodeId>| #[trigger]
                    announced(self@.node.graph.edges, route, self@.node.id, source_id) && reply@
                        == self@.node.sends_along(route, answer@);
                let ghost sent = action_views(reply.actions@);
                append_actions(&mut actions, reply.actions);
                assert(action_views(actions@) =~= seq![
                    ActionView::Report(ServerEventView::MessageReceived(message@)),
                ] + sent);
                Reply { actions, outgoing: reply.outgoing }
            },
            TestMessage::WebClientMessages(_) => Reply { actions: no_actions(), outgoing: None },
        }
    }

    fn send_packets(&mut self, session_id: u64, packets: Vec<Packet>, neighbour: NodeId) -> (actions:
        Vec<Action>)
        ensures
            final(self)@ == old(self)@.with_node(
                NodeView {
                    sessions: old(self)@.node.sessions.with_pending(
                        session_id,
                        packet_views(packets@),
                    ),
                    ..old(self)@.node
                },
            ),
            action_views(actions@) == NodeView::departures(packet_views(packets@), neighbour),
    {
        self.node.dispatch(session_id, packets, neighbour)
    }

    fn handle_command(&mut self, command: ServerCommand, flood_id: u64) -> (step: Step)
        ensures
            old(self)@.command_step(command@, flood_id, final(self)@, step@),
    {
        match command {
            ServerCommand::AddSender(id) => {
                let actions = self.add_neighbor(id, flood_id);
                Step { actions, inbound: Inbound::Nothing }
            },
            ServerCommand::RemoveSender(id) => {
                let actions = self.remove_neighbor(id, flood_id);
                Step { actions, inbound: Inbound::Nothing }
            },
            ServerCommand::ControllerShortcut(packet) => self.handle_packet(packet, flood_id),
            ServerCommand::RequestNetworkDiscovery => {
                let actions = self.network_discovery(flood_id);
                Step { actions, inbound: Inbound::Nothing }
            },
            ServerCommand::Unhandled => Step { actions: no_actions(), inbound: Inbound::Nothing },
        }
    }

    fn update_graph(&mut self, path_trace: &Vec<(NodeId, NodeType)>)
        ensures
            final(self)@ == old(self)@.with_graph(old(self)@.node.graph.with_path(path_trace@)),
    {
        self.node.graph.update(path_trace);
    }

    fn compute_best_path(&self, target_client: NodeId) -> (res: Option<Vec<NodeId>>)
        ensures
            is_best_route(
                self@.node.graph.edges,
                route_view(res),
                self@.node.id,
                target_client,
            ),
    {
        find_route(self.node.graph.edges(), self.node.id, target_client)
    }

    fn reconstruct_message(&mut self, key: u64) -> (res: Result<Vec<Fragment>, ReconstructError>)
        ensures
            final(self)@ == old(self)@.with_node(
                NodeView { storage: final(self)@.node.storage, ..old(self)@.node },
            ),
            reconstructs(
                old(self)@.node.storage,
                key,
                final(self)@.node.storage,
                parts_view(res),
            ),
    {
        self.node.storage.reconstruct(key)
    }

    fn add_neighbor(&mut self, node_id: NodeId, flood_id: u64) -> (actions: Vec<Action>)
        ensures
            old(self)@.neighbour_added(
                node_id,
                flood_id,
                final(self)@,
                action_views(actions@),
            ),
    {
        let mut actions = no_actions();
        if !self.node.neighbours.contains(&node_id) {
            self.node.neighbours.insert(node_id);
            push_action(&mut actions, Action::KeepSender(node_id));
            let flood = self.network_discovery(flood_id);
            let ghost flood_view = action_views(flood@);
            append_actions(&mut actions, flood);
            assert(action_views(actions@) =~= seq![ActionView::KeepSender(node_id)] + flood_view);
        }
        actions
    }

    fn remove_neighbor(&mut self, node_id: NodeId, flood_id: u64) -> (actions: Vec<Action>)
        ensures
            old(self)@.neighbour_removed(
                node_id,
                flood_id,
                final(self)@,
                action_views(actions@),
            ),
    {
        let mut actions = no_actions();
        if self.node.neighbours.contains(&node_id) {
            self.node.neighbours.remove(&node_id);
            push_action(&mut actions, Action::DropSender(node_id));
            self.remove_from_topology(node_id);
            let flood = self.network_discovery(flood_id);
            let ghost flood_view = action_views(flood@);
            append_actions(&mut actions, flood);
            assert(action_views(actions@) =~= seq![ActionView::DropSender(node_id)] + flood_view);
        }
        actions
    }

    fn remove_from_topology(&mut self, node_id: NodeId)
        ensures
            final(self)@ == old(self)@.with_graph(old(self)@.node.graph.without_node(node_id)),
    {
        self.node.graph.remove_node(node_id);
    }
}

} // verus!
