//! What servers of every kind have in common: their neighbours, what they know of the network,
//! the messages that come in and the messages that go out.

use crate::action::{
    action_views, append_actions, no_actions, push_action, Action, ActionView, Delivery, Inbound,
    InboundView, Outgoing, OutgoingView, Reply, ReplyView, Step, StepView,
};
use crate::graph::{GraphView, NetworkGraph};
use crate::message::{ServerEvent, ServerEventView, ServerMessages, ServerMessagesView};
use crate::packet::{
    copy_nodes, copy_trace, packet_views, reversed, Ack, FloodRequest, FloodRequestView,
    FloodResponse, FloodResponseView, Fragment, HeaderView, NodeId, NodeType, Packet, PacketType,
    PacketTypeView, PacketView, SourceRoutingHeader,
};
use crate::reassembly::{
    all_there, complete, gathers, is_message, law_any_arrival_order, stored_with, MessageStorage,
};
use crate::route::{is_shortest_route, reachable};
use crate::session::{Sessions, SessionsView};
use crate::text::{braced, decimal, enumerates, members, numbered, set_text};
use std::collections::HashSet;
use vstd::prelude::*;
use vstd::string::StringExecFns;

verus! {

broadcast use vstd::std_specs::hash::group_hash_axioms;

/// The common state of servers.
pub struct Node {
    pub(crate) id: NodeId,
    pub(crate) neighbours: HashSet<NodeId>,
    pub(crate) graph: NetworkGraph,
    pub(crate) storage: MessageStorage,
    pub(crate) sessions: Sessions,
    pub(crate) excluded: HashSet<NodeId>,
}

/// The model of a [`Node`].
#[verifier::ext_equal]
pub struct NodeView {
    pub id: NodeId,
    /// The nodes to which there is a channel.
    pub neighbours: Set<NodeId>,
    pub graph: GraphView,
    /// The fragments that have arrived, by session.
    pub storage: Map<u64, Seq<Fragment>>,
    pub sessions: SessionsView,
    /// The nodes that detours avoid.
    pub excluded: Set<NodeId>,
}

/// The packet by which a server asks a neighbour for paths.
pub open spec fn flood_request_packet(id: NodeId, to: NodeId, flood_id: u64) -> PacketView {
    PacketView {
        pack_type: PacketTypeView::FloodRequest(
            FloodRequestView {
                flood_id,
                initiator_id: id,
                path_trace: seq![(id, NodeType::Server)],
            },
        ),
        routing_header: HeaderView { hop_index: 0, hops: seq![id, to] },
        session_id: flood_id,
    }
}

/// The nodes of a path.
pub open spec fn trace_nodes(trace: Seq<(NodeId, NodeType)>) -> Seq<NodeId> {
    trace.map_values(|entry: (NodeId, NodeType)| entry.0)
}

/// The packet that answers a flood request: the path up to the server, sent back along it.
pub open spec fn flood_answer(id: NodeId, request: FloodRequestView, session_id: u64) -> PacketView {
    let trace = request.path_trace.push((id, NodeType::Server));
    PacketView {
        pack_type: PacketTypeView::FloodResponse(
            FloodResponseView { flood_id: request.flood_id, path_trace: trace },
        ),
        routing_header: HeaderView { hop_index: 1, hops: trace_nodes(trace).reverse() },
        session_id,
    }
}

/// The packet that confirms a fragment: it goes back the way that the fragment came.
pub open spec fn confirmation(packet: PacketView, fragment_index: u64) -> PacketView {
    PacketView {
        pack_type: PacketTypeView::Ack(Ack { fragment_index }),
        routing_header: HeaderView { hop_index: 1, hops: packet.routing_header.hops.reverse() },
        session_id: packet.session_id,
    }
}

/// The report that a fragment was received.
pub open spec fn received_words(role: Seq<char>, id: NodeId, source: NodeId) -> Seq<char> {
    role + decimal(id as nat) + ": received from "@ + decimal(source as nat)
}

/// The report that a node dropped a fragment once more.
pub open spec fn loss_words(id: NodeId, count: nat, node: NodeId, fragment: u64) -> Seq<char> {
    "Server "@ + decimal(id as nat) + ": nack drop "@ + decimal(count) + " from "@ + decimal(
        node as nat,
    ) + " / "@ + decimal(fragment as nat)
}

/// The report on the nodes that detours avoid, in the given order.
pub open spec fn exclusion_words(id: NodeId, order: Seq<NodeId>) -> Seq<char> {
    "Server "@ + decimal(id as nat) + ": new route exclude "@ + braced(order)
}

/// The route that is announced for a message: a shortest one, or none at all.
pub open spec fn announced(
    edges: Set<(NodeId, NodeId)>,
    route: Seq<NodeId>,
    from: NodeId,
    to: NodeId,
) -> bool {
    if reachable(edges, from, to) {
        is_shortest_route(edges, route, from, to)
    } else {
        route.len() == 0
    }
}

/// The route to be announced after a search: what was found, or no nodes at all.
pub open spec fn route_taken(found: Option<Vec<NodeId>>) -> Seq<NodeId> {
    match found {
        Some(route) => route@,
        None => Seq::empty(),
    }
}

impl NodeView {
    /// A server that knows nothing but its neighbours.
    pub open spec fn fresh(id: NodeId, neighbours: Set<NodeId>) -> NodeView {
        NodeView {
            id,
            neighbours,
            graph: GraphView::unknown(),
            storage: Map::empty(),
            sessions: SessionsView::idle(),
            excluded: Set::empty(),
        }
    }

    /// A flood request to each neighbour, in the given order.
    pub open spec fn flood(self, order: Seq<NodeId>, flood_id: u64) -> Seq<ActionView> {
        order.map_values(
            |to: NodeId|
                ActionView::Send {
                    to,
                    packet: flood_request_packet(self.id, to, flood_id),
                    delivery: Delivery::BestEffort,
                },
        )
    }

    /// The actions ask every neighbour once for paths; the order is open.
    pub open spec fn floods(self, flood_id: u64, actions: Seq<ActionView>) -> bool {
        exists|order: Seq<NodeId>|
            enumerates(order, self.neighbours) && actions == #[trigger] self.flood(order, flood_id)
    }

    /// Hands a packet to a node, if there is a channel to it.
    pub open spec fn checked(self, packet: PacketView, to: NodeId) -> Seq<ActionView> {
        if self.neighbours.contains(to) {
            seq![ActionView::Send { to, packet, delivery: Delivery::Checked }]
        } else {
            seq![]
        }
    }

    /// Hands a packet to the second node of its route, if there is one with a channel to it.
    pub open spec fn onward(self, packet: PacketView) -> Seq<ActionView> {
        if packet.routing_header.hops.len() > 1 {
            self.checked(packet, packet.routing_header.hops[1])
        } else {
            seq![]
        }
    }

    /// Confirms a fragment, if there is a channel back to where it came from.
    pub open spec fn confirms(self, packet: PacketView, fragment_index: u64) -> Seq<ActionView> {
        let ack = confirmation(packet, fragment_index);
        let hops = ack.routing_header.hops;
        if hops.len() > 1 && self.neighbours.contains(hops[1]) {
            seq![
                ActionView::Send { to: hops[1], packet: ack, delivery: Delivery::Confirmation },
            ]
        } else {
            seq![]
        }
    }

    /// The report that a node dropped a fragment once more.
    pub open spec fn loss_report(self, count: nat, node: NodeId, fragment: u64) -> ActionView {
        ActionView::Report(
            ServerEventView::DebugMessage(self.id, loss_words(self.id, count, node, fragment)),
        )
    }

    /// The report on the nodes that detours avoid, in the given order.
    pub open spec fn exclusion_report(self, order: Seq<NodeId>) -> ActionView {
        ActionView::Report(
            ServerEventView::DebugMessage(self.id, exclusion_words(self.id, order)),
        )
    }

    /// The report that no detour leads to a node.
    pub open spec fn no_detour_report(self, target: NodeId) -> ActionView {
        ActionView::Report(
            ServerEventView::Error(
                self.id,
                target,
                "not alternative path route available by server"@,
            ),
        )
    }

    /// Sends the packet of a fragment again along its own route, if it is still pending.
    pub open spec fn resends(self, session: u64, fragment: u64) -> Seq<ActionView> {
        match self.sessions.packet(session, fragment) {
            Some(packet) => self.onward(packet),
            None => seq![],
        }
    }

    /// The packet of a fragment, if it is still pending, has a node to go to.
    pub open spec fn can_resend(self, session: u64, fragment: u64) -> bool {
        match self.sessions.packet(session, fragment) {
            Some(packet) => packet.routing_header.hops.len() > 1,
            None => true,
        }
    }

    /// Hands the packets of a message to a neighbour.
    pub open spec fn departures(packets: Seq<PacketView>, to: NodeId) -> Seq<ActionView> {
        packets.map_values(
            |packet: PacketView|
                ActionView::Send { to, packet: packet.departed(), delivery: Delivery::Message },
        )
    }

    /// What arrives with a fragment: a report, a confirmation, and the whole message if with this
    /// fragment all of them have arrived; before that, every fragment is kept.
    pub open spec fn receives(
        self,
        role: Seq<char>,
        source: NodeId,
        packet: PacketView,
        fragment: Fragment,
        after: NodeView,
        step: StepView,
    ) -> bool {
        let key = packet.session_id;
        let stored = stored_with(self.storage, key, fragment);
        &&& after == (NodeView { storage: after.storage, ..self })
        &&& step.actions == seq![
            ActionView::Report(
                ServerEventView::DebugMessage(self.id, received_words(role, self.id, source)),
            ),
        ] + self.confirms(packet, fragment.fragment_index)
        &&& if complete(stored[key]) {
            &&& after.storage == stored.remove(key)
            &&& match step.inbound {
                InboundView::Complete { source: from, fragments } => {
                    from == source && gathers(stored[key], fragments)
                },
                InboundView::Nothing => false,
            }
        } else {
            after.storage == stored && step.inbound == InboundView::Nothing
        }
    }

    /// The route that was found, or none, is announced, and the message is to be sent along it
    /// if there is a channel to its second node.
    pub open spec fn sends_along(self, route: Seq<NodeId>, message: ServerMessagesView) -> ReplyView {
        ReplyView {
            actions: seq![ActionView::Report(ServerEventView::Route(route))],
            outgoing: if route.len() > 1 && self.neighbours.contains(route[1]) {
                Some(OutgoingView { message, route, neighbour: route[1] })
            } else {
                None
            },
        }
    }

    /// A message is sent to a node along a shortest route over the given edges.
    pub open spec fn sends(
        self,
        edges: Set<(NodeId, NodeId)>,
        message: ServerMessagesView,
        to: NodeId,
        reply: ReplyView,
    ) -> bool {
        exists|route: Seq<NodeId>| #[trigger]
            announced(edges, route, self.id, to) && reply == self.sends_along(route, message)
    }
}

/// Looking at the network asks every neighbour exactly once, and nobody else.
pub proof fn law_flood_asks_each_neighbour_once(
    node: NodeView,
    flood_id: u64,
    actions: Seq<ActionView>,
)
    requires
        node.floods(flood_id, actions),
    ensures
        actions.no_duplicates(),
        forall|action: ActionView| #[trigger]
            actions.contains(action) <==> {
                &&& action is Send
                &&& node.neighbours.contains(action->to)
                &&& action->packet == flood_request_packet(node.id, action->to, flood_id)
                &&& action->delivery == Delivery::BestEffort
            },
{
    let order = choose|order: Seq<NodeId>|
        enumerates(order, node.neighbours) && actions == #[trigger] node.flood(order, flood_id);
    assert forall|action: ActionView| #[trigger] actions.contains(action) <==> {
        &&& action is Send
        &&& node.neighbours.contains(action->to)
        &&& action->packet == flood_request_packet(node.id, action->to, flood_id)
        &&& action->delivery == Delivery::BestEffort
    } by {
        if actions.contains(action) {
            let i = actions.index_of(action);
            assert(order.contains(order[i]));
        }
        if action is Send && node.neighbours.contains(action->to) {
            assert(order.contains(action->to));
            let i = order.index_of(action->to);
            assert(actions[i]->to == action->to);
        }
    }
}

/// The answer to a flood request goes from the server back to the node where the path began.
pub proof fn law_flood_answer_returns(id: NodeId, request: FloodRequestView, session_id: u64)
    requires
        request.path_trace.len() > 0,
    ensures
        ({
            let hops = flood_answer(id, request, session_id).routing_header.hops;
            &&& hops.len() == request.path_trace.len() + 1
            &&& hops[0] == id
            &&& hops[1] == request.path_trace.last().0
            &&& hops.last() == request.path_trace[0].0
        }),
{
}

/// The confirmation of a fragment goes back to the sender of the fragment, along its route.
pub proof fn law_confirmation_returns(packet: PacketView, fragment_index: u64)
    requires
        packet.routing_header.hops.len() > 0,
    ensures
        ({
            let back = confirmation(packet, fragment_index).routing_header;
            &&& back.source() == Some(packet.routing_header.hops.last())
            &&& Some(back.hops.last()) == packet.routing_header.source()
            &&& back.hops.reverse() == packet.routing_header.hops
        }),
{
    let hops = packet.routing_header.hops;
    assert(hops.reverse().reverse() =~= hops);
}

/// The fragments `arrivals` come in one after the other, and `states` are the servers between
/// them.
pub open spec fn takes_in(
    states: Seq<NodeView>,
    role: Seq<char>,
    sources: Seq<NodeId>,
    packets: Seq<PacketView>,
    arrivals: Seq<Fragment>,
    steps: Seq<StepView>,
    key: u64,
) -> bool {
    &&& states.len() == arrivals.len() + 1
    &&& sources.len() == arrivals.len()
    &&& packets.len() == arrivals.len()
    &&& steps.len() == arrivals.len()
    &&& forall|k: int| 0 <= k < arrivals.len() ==> (#[trigger] packets[k]).session_id == key
    &&& forall|k: int|
        0 <= k < arrivals.len() ==> states[k].receives(
            role,
            sources[k],
            packets[k],
            arrivals[k],
            states[k + 1],
            #[trigger] steps[k],
        )
}

proof fn lemma_partly_arrived(
    states: Seq<NodeView>,
    role: Seq<char>,
    sources: Seq<NodeId>,
    packets: Seq<PacketView>,
    arrivals: Seq<Fragment>,
    steps: Seq<StepView>,
    key: u64,
    k: int,
)
    requires
        takes_in(states, role, sources, packets, arrivals, steps, key),
        !states[0].storage.contains_key(key),
        forall|m: int| 0 <= m < arrivals.len() ==> !complete(#[trigger] arrivals.take(m)),
        0 <= k < arrivals.len(),
    ensures
        stored_with(states[k].storage, key, arrivals[k]) == states[0].storage.insert(
            key,
            arrivals.take(k + 1),
        ),
        k > 0 ==> steps[k - 1].inbound == InboundView::Nothing,
    decreases k,
{
    if k == 0 {
        assert(arrivals.take(1) =~= Seq::<Fragment>::empty().push(arrivals[0]));
    } else {
        lemma_partly_arrived(states, role, sources, packets, arrivals, steps, key, k - 1);
        assert(packets[k - 1].session_id == key);
        assert(states[k - 1].receives(
            role,
            sources[k - 1],
            packets[k - 1],
            arrivals[k - 1],
            states[k],
            steps[k - 1],
        ));
        assert(!complete(arrivals.take(k)));
        assert(arrivals.take(k + 1) =~= arrivals.take(k).push(arrivals[k]));
        assert(stored_with(states[k].storage, key, arrivals[k]) =~= states[0].storage.insert(
            key,
            arrivals.take(k + 1),
        ));
    }
}

/// A message whose fragments come in, in any order and some of them more than once, is handed out
/// with the last one that was missing, put in order, and leaves nothing behind; before that,
/// nothing is handed out.
pub proof fn law_message_is_handed_out_once(
    states: Seq<NodeView>,
    role: Seq<char>,
    sources: Seq<NodeId>,
    packets: Seq<PacketView>,
    arrivals: Seq<Fragment>,
    steps: Seq<StepView>,
    key: u64,
    parts: Seq<Fragment>,
)
    requires
        takes_in(states, role, sources, packets, arrivals, steps, key),
        !states[0].storage.contains_key(key),
        is_message(parts),
        forall|j: int| 0 <= j < arrivals.len() ==> parts.contains(#[trigger] arrivals[j]),
        all_there(parts, arrivals),
        !all_there(parts, arrivals.drop_last()),
    ensures
        forall|k: int|
            0 <= k < arrivals.len() - 1 ==> (#[trigger] steps[k]).inbound == InboundView::Nothing,
        steps.last().inbound == (InboundView::Complete {
            source: sources.last(),
            fragments: parts,
        }),
        states.last().storage == states[0].storage,
{
    let n = arrivals.len() as int;
    assert(arrivals.contains(parts[0]));
    assert forall|m: int| 0 <= m < n implies !complete(#[trigger] arrivals.take(m)) by {
        let early = arrivals.take(m);
        assert forall|j: int| 0 <= j < early.len() implies parts.contains(#[trigger] early[j]) by {
            assert(early[j] == arrivals[j]);
        }
        law_any_arrival_order(parts, early, parts);
        if all_there(parts, early) {
            assert forall|i: int| 0 <= i < parts.len() implies arrivals.drop_last().contains(
                #[trigger] parts[i],
            ) by {
                assert(early.contains(parts[i]));
                let j = early.index_of(parts[i]);
                assert(arrivals.drop_last()[j] == parts[i]);
            }
        }
    }
    assert forall|k: int| 0 <= k < n - 1 implies (#[trigger] steps[k]).inbound
        == InboundView::Nothing by {
        lemma_partly_arrived(states, role, sources, packets, arrivals, steps, key, k + 1);
    }
    lemma_partly_arrived(states, role, sources, packets, arrivals, steps, key, n - 1);
    assert(packets[n - 1].session_id == key);
    assert(states[n - 1].receives(
        role,
        sources[n - 1],
        packets[n - 1],
        arrivals[n - 1],
        states[n],
        steps[n - 1],
    ));
    assert(arrivals.take(n) =~= arrivals);
    let found = match steps[n - 1].inbound {
        InboundView::Complete { source, fragments } => fragments,
        InboundView::Nothing => Seq::empty(),
    };
    law_any_arrival_order(parts, arrivals, found);
    assert(states[0].storage.insert(key, arrivals).remove(key) =~= states[0].storage);
}

impl View for Node {
    type V = NodeView;

    open(crate) spec fn view(&self) -> NodeView {
        NodeView {
            id: self.id,
            neighbours: self.neighbours@,
            graph: self.graph@,
            storage: self.storage@,
            sessions: self.sessions@,
            excluded: self.excluded@,
        }
    }
}

/// Copies a set of nodes.
fn copy_set(set: &HashSet<NodeId>) -> (res: HashSet<NodeId>)
    ensures
        res@ == set@,
{
    let order = members(set);
    let mut res: HashSet<NodeId> = HashSet::new();
    let mut i: usize = 0;
    while i < order.len()
        invariant
            i <= order@.len(),
            res@ == order@.take(i as int).to_set(),
        decreases order.len() - i,
    {
        res.insert(order[i]);
        proof {
            order@.take(i as int).lemma_push_to_set_commute(order@[i as int]);
            assert(order@.take(i + 1) =~= order@.take(i as int).push(order@[i as int]));
        }
        i = i + 1;
    }
    assert(order@.take(order@.len() as int) =~= order@);
    assert(res@ =~= set@);
    res
}

impl Clone for Node {
    fn clone(&self) -> (res: Self)
        ensures
            res@ == self@,
            self.wf() ==> res.wf(),
    {
        Node {
            id: self.id,
            neighbours: copy_set(&self.neighbours),
            graph: self.graph.clone(),
            storage: self.storage.clone(),
            sessions: self.sessions.clone(),
            excluded: copy_set(&self.excluded),
        }
    }
}

impl Node {
    pub open(crate) spec fn wf(&self) -> bool {
        self.graph.wf()
    }

    /// A server that knows nothing but its neighbours.
    pub fn new(id: NodeId, neighbours: HashSet<NodeId>) -> (res: Node)
        ensures
            res.wf(),
            res@ == NodeView::fresh(id, neighbours@),
    {
        Node {
            id,
            neighbours,
            graph: NetworkGraph::new(),
            storage: MessageStorage::new(),
            sessions: Sessions::new(),
            excluded: HashSet::new(),
        }
    }

    /// Asks every neighbour for paths.
    pub fn flood(&self, flood_id: u64) -> (actions: Vec<Action>)
        ensures
            self@.floods(flood_id, action_views(actions@)),
    {
        let order = members(&self.neighbours);
        let mut actions: Vec<Action> = Vec::new();
        let mut i: usize = 0;
        while i < order.len()
            invariant
                i <= order@.len(),
                actions@.len() == i,
                forall|j: int|
                    0 <= j < i ==> #[trigger] actions@[j]@ == self@.flood(order@, flood_id)[j],
            decreases order.len() - i,
        {
            let to = order[i];
            let mut path_trace: Vec<(NodeId, NodeType)> = Vec::new();
            path_trace.push((self.id, NodeType::Server));
            let mut hops: Vec<NodeId> = Vec::new();
            hops.push(self.id);
            hops.push(to);
            let packet = Packet {
                pack_type: PacketType::FloodRequest(
                    FloodRequest { flood_id, initiator_id: self.id, path_trace },
                ),
                routing_header: SourceRoutingHeader { hop_index: 0, hops },
                session_id: flood_id,
            };
            assert(packet@ =~= flood_request_packet(self.id, to, flood_id));
            actions.push(Action::Send { to, packet, delivery: Delivery::BestEffort });
            i = i + 1;
        }
        assert(action_views(actions@) =~= self@.flood(order@, flood_id));
        actions
    }

    /// Hands a packet to a node, if there is a channel to it.
    pub fn send_packet_and_notify(&self, packet: Packet, to: NodeId) -> (actions: Vec<Action>)
        ensures
            action_views(actions@) == self@.checked(packet@, to),
    {
        let mut actions = no_actions();
        if self.neighbours.contains(&to) {
            push_action(
                &mut actions,
                Action::Send { to, packet, delivery: Delivery::Checked },
            );
        }
        assert(action_views(actions@) =~= self@.checked(packet@, to));
        actions
    }

    /// Hands a packet to the second node of its route, if there is one with a channel to it.
    pub fn send_onward(&self, packet: Packet) -> (actions: Vec<Action>)
        ensures
            action_views(actions@) == self@.onward(packet@),
    {
        if packet.routing_header.hops.len() > 1 {
            let to = packet.routing_header.hops[1];
            self.send_packet_and_notify(packet, to)
        } else {
            no_actions()
        }
    }

    /// Answers a flood request with the path up to this server.
    pub fn answer_flood(&self, request: &FloodRequest, session_id: u64) -> (actions: Vec<Action>)
        requires
            request@.path_trace.len() > 0,
        ensures
            action_views(actions@) == self@.onward(flood_answer(self@.id, request@, session_id)),
    {
        let mut trace = copy_trace(&request.path_trace);
        trace.push((self.id, NodeType::Server));
        let mut hops: Vec<NodeId> = Vec::new();
        let mut i: usize = trace.len();
        while i > 0
            invariant
                i <= trace@.len(),
                hops@.len() == trace@.len() - i,
                forall|j: int| 0 <= j < hops@.len() ==> hops@[j] == trace@[trace@.len() - 1 - j].0,
            decreases i,
        {
            i = i - 1;
            hops.push(trace[i].0);
        }
        assert(hops@ =~= trace_nodes(trace@).reverse());
        let packet = Packet {
            pack_type: PacketType::FloodResponse(
                FloodResponse { flood_id: request.flood_id, path_trace: trace },
            ),
            routing_header: SourceRoutingHeader { hop_index: 1, hops },
            session_id,
        };
        self.send_onward(packet)
    }

    /// Confirms a fragment to the node that sent it.
    pub fn send_ack(&self, packet: &Packet, fragment_index: u64) -> (actions: Vec<Action>)
        ensures
            action_views(actions@) == self@.confirms(packet@, fragment_index),
    {
        let header = SourceRoutingHeader {
            hop_index: 1,
            hops: reversed(&packet.routing_header.hops),
        };
        let ack = Packet::new_ack(header, packet.session_id, fragment_index);
        let mut actions = no_actions();
        if ack.routing_header.hops.len() > 1 {
            let to = ack.routing_header.hops[1];
            if self.neighbours.contains(&to) {
                push_action(
                    &mut actions,
                    Action::Send { to, packet: ack, delivery: Delivery::Confirmation },
                );
            }
        }
        assert(action_views(actions@) =~= self@.confirms(packet@, fragment_index));
        actions
    }

    /// Reports that a node dropped a fragment once more.
    pub fn report_loss(&self, count: u64, node: NodeId, fragment: u64) -> (action: Action)
        ensures
            action@ == self@.loss_report(count as nat, node, fragment),
    {
        let mut words = numbered("Server ", self.id as u64, ": nack drop ");
        words.append(numbered("", count, " from ").as_str());
        words.append(numbered("", node as u64, " / ").as_str());
        words.append(numbered("", fragment, "").as_str());
        proof {
            reveal_strlit("");
            assert(words@ =~= loss_words(self.id, count as nat, node, fragment));
        }
        Action::Report(ServerEvent::DebugMessage(self.id, words))
    }

    /// Reports the nodes that detours avoid.
    pub fn report_exclusions(&self) -> (action: Action)
        ensures
            exists|order: Seq<NodeId>|
                enumerates(order, self@.excluded) && action@ == #[trigger] self@.exclusion_report(
                    order,
                ),
    {
        let mut words = numbered("Server ", self.id as u64, ": new route exclude ");
        let listing = set_text(&self.excluded);
        words.append(listing.as_str());
        let ghost order = choose|order: Seq<u8>|
            enumerates(order, self.excluded@) && listing@ == #[trigger] braced(order);
        assert(words@ =~= exclusion_words(self.id, order));
        let action = Action::Report(ServerEvent::DebugMessage(self.id, words));
        assert(action@ == self@.exclusion_report(order));
        action
    }

    /// Reports that no detour leads to a node.
    pub fn report_no_detour(&self, target: NodeId) -> (action: Action)
        ensures
            action@ == self@.no_detour_report(target),
    {
        Action::Report(
            ServerEvent::Error(
                self.id,
                target,
                "not alternative path route available by server".to_string(),
            ),
        )
    }

    /// Sends the packet of a fragment again along its own route, if it is still pending.
    pub fn resend(&self, session: u64, fragment: u64) -> (actions: Vec<Action>)
        ensures
            action_views(actions@) == self@.resends(session, fragment),
    {
        match self.sessions.packet(session, fragment) {
            Some(packet) => self.send_onward(packet),
            None => no_actions(),
        }
    }

    /// Whether the packet of a fragment, if it is still pending, has a node to go to.
    pub fn has_next_hop(&self, session: u64, fragment: u64) -> (res: bool)
        ensures
            res == self@.can_resend(session, fragment),
    {
        match self.sessions.packet(session, fragment) {
            Some(packet) => packet.routing_header.hops.len() > 1,
            None => true,
        }
    }

    /// Takes a fragment in: reports it, confirms it, and gives the whole message once all its
    /// fragments are there.
    pub fn receive(&mut self, role: &str, source: NodeId, packet: &Packet, fragment: Fragment) -> (step:
        Step)
        requires
            old(self).wf(),
        ensures
            final(self).wf(),
            old(self)@.receives(role@, source, packet@, fragment, final(self)@, step@),
    {
        let key = packet.session_id;
        let mut words = String::from_str(role);
        words.append(numbered("", self.id as u64, ": received from ").as_str());
        words.append(numbered("", source as u64, "").as_str());
        proof {
            reveal_strlit("");
            assert(words@ =~= received_words(role@, self.id, source));
        }
        let mut actions = no_actions();
        push_action(&mut actions, Action::Report(ServerEvent::DebugMessage(self.id, words)));
        let ack = self.send_ack(packet, fragment.fragment_index);
        append_actions(&mut actions, ack);
        proof {
            assert(action_views(actions@) =~= seq![
                ActionView::Report(
                    ServerEventView::DebugMessage(
                        self@.id,
                        received_words(role@, self@.id, source),
                    ),
                ),
            ] + self@.confirms(packet@, fragment.fragment_index));
        }
        self.storage.store(key, fragment);
        match self.storage.take_complete(key) {
            Some(fragments) => Step { actions, inbound: Inbound::Complete { source, fragments } },
            None => Step { actions, inbound: Inbound::Nothing },
        }
    }

    /// Announces the route of a message, and gives the message out to be sent along it.
    pub fn send_along(&self, found: Option<Vec<NodeId>>, message: ServerMessages) -> (reply: Reply)
        ensures
            reply@ == self@.sends_along(route_taken(found), message@),
    {
        let route: Vec<NodeId> = match found {
            Some(route) => route,
            None => Vec::new(),
        };
        let mut actions = no_actions();
        push_action(&mut actions, Action::Report(ServerEvent::Route(copy_nodes(&route))));
        assert(action_views(actions@) =~= seq![
            ActionView::Report(ServerEventView::Route(route@)),
        ]);
        if route.len() > 1 && self.neighbours.contains(&route[1]) {
            let neighbour = route[1];
            Reply { actions, outgoing: Some(Outgoing { message, route, neighbour }) }
        } else {
            Reply { actions, outgoing: None }
        }
    }

    /// Remembers the packets of a message and hands them to the neighbour that takes them.
    pub fn dispatch(&mut self, session_id: u64, packets: Vec<Packet>, neighbour: NodeId) -> (actions:
        Vec<Action>)
        requires
            old(self).wf(),
        ensures
            final(self).wf(),
            final(self)@ == (NodeView {
                sessions: old(self)@.sessions.with_pending(session_id, packet_views(packets@)),
                ..old(self)@
            }),
            action_views(actions@) == NodeView::departures(packet_views(packets@), neighbour),
    {
        let mut actions: Vec<Action> = Vec::new();
        let mut i: usize = 0;
        while i < packets.len()
            invariant
                i <= packets@.len(),
                actions@.len() == i,
                forall|j: int|
                    0 <= j < i ==> #[trigger] actions@[j]@ == (ActionView::Send {
                        to: neighbour,
                        packet: packets@[j]@.departed(),
                        delivery: Delivery::Message,
                    }),
            decreases packets.len() - i,
        {
            let mut packet = packets[i].clone();
            packet.routing_header.hop_index = 1;
            actions.push(Action::Send { to: neighbour, packet, delivery: Delivery::Message });
            i = i + 1;
        }
        assert(action_views(actions@) =~= NodeView::departures(packet_views(packets@), neighbour));
        self.sessions.add_pending(session_id, packets);
        actions
    }
}

} // verus!
