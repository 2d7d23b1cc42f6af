//! What is sent in answer to what comes in.

use crate::action::{
    ActionView, Delivery, InboundView, OutgoingView, Settled, SettledView, Step, StepView,
};
use crate::graph::GraphView;
use crate::laws::reassembly::{law_complete_means_every_index, law_gathered_parts};
use crate::message::{ServerEventView, ServerMessagesView};
use crate::node::{flood_answer, Node, NodeView};
use crate::packet::{
    Ack, FloodRequestView, FloodResponseView, Fragment, HeaderView, NodeId, NodeType, Packet,
    PacketTypeView, PacketView,
};
use crate::reassembly::{complete, has_index};
use crate::session::SessionsView;
use crate::text::{braced, decimal};
use vstd::prelude::*;

verus! {

/// A fragment that is taken in is reported, and confirmed to its sender exactly once, whatever
/// its index and total, if there is a channel to the node before the server on its route: the
/// confirmation carries the index of the fragment, its session, and its route from the last node
/// to the first.
pub proof fn law_every_fragment_is_confirmed(
    node: NodeView,
    role: Seq<char>,
    source: NodeId,
    packet: PacketView,
    fragment: Fragment,
    after: NodeView,
    step: StepView,
)
    requires
        node.receives(role, source, packet, fragment, after, step),
    ensures
        ({
            let hops = packet.routing_header.hops;
            let n = hops.len() as int;
            let report = ActionView::Report(
                ServerEventView::DebugMessage(
                    node.id,
                    role + decimal(node.id as nat) + ": received from "@ + decimal(source as nat),
                ),
            );
            if n > 1 && node.neighbours.contains(hops[n - 2]) {
                step.actions == seq![
                    report,
                    ActionView::Send {
                        to: hops[n - 2],
                        packet: PacketView {
                            pack_type: PacketTypeView::Ack(
                                Ack { fragment_index: fragment.fragment_index },
                            ),
                            routing_header: HeaderView {
                                hop_index: 1,
                                hops: Seq::new(hops.len(), |i: int| hops[n - 1 - i]),
                            },
                            session_id: packet.session_id,
                        },
                        delivery: Delivery::Confirmation,
                    },
                ]
            } else {
                step.actions == seq![report]
            }
        }),
{
    let hops = packet.routing_header.hops;
    let n = hops.len() as int;
    assert(hops.reverse() =~= Seq::new(hops.len(), |i: int| hops[n - 1 - i]));
    if n > 1 {
        assert(hops.reverse()[1] == hops[n - 2]);
    }
}

/// A fragment that is taken in is kept with those of its session, until every index that the
/// first of them announces is there: then the message is handed out with its sender, each index
/// once and in order, by the fragment that arrived last with it, and the session is forgotten.
/// Nothing else of the server changes.
pub proof fn law_fragments_are_kept_until_all_are_there(
    node: NodeView,
    role: Seq<char>,
    source: NodeId,
    packet: PacketView,
    fragment: Fragment,
    after: NodeView,
    step: StepView,
    held: Seq<Fragment>,
    i: int,
)
    requires
        node.receives(role, source, packet, fragment, after, step),
        held == (if node.storage.contains_key(packet.session_id) {
            node.storage[packet.session_id].push(fragment)
        } else {
            seq![fragment]
        }),
    ensures
        ({
            let key = packet.session_id;
            let total = held[0].total_n_fragments;
            match step.inbound {
                InboundView::Complete { source: from, fragments } => {
                    &&& after.storage == node.storage.remove(key)
                    &&& from == source
                    &&& total > 0
                    &&& fragments.len() == total
                    &&& 0 <= i < total ==> fragments[i].fragment_index == i && exists|j: int|
                        0 <= j < held.len() && #[trigger] held[j] == fragments[i] && forall|k: int|
                            j < k < held.len() ==> (#[trigger] held[k]).fragment_index != i
                },
                InboundView::Nothing => {
                    &&& after.storage == node.storage.insert(key, held)
                    &&& total == 0 || exists|index: int|
                        #![trigger has_index(held, index)]
                        0 <= index < total && forall|j: int|
                            0 <= j < held.len() ==> (#[trigger] held[j]).fragment_index != index
                },
            }
        }),
        after.id == node.id,
        after.neighbours == node.neighbours,
        after.graph == node.graph,
        after.sessions == node.sessions,
        after.excluded == node.excluded,
{
    let key = packet.session_id;
    assert(seq![fragment] =~= Seq::<Fragment>::empty().push(fragment));
    law_complete_means_every_index(held, i);
    assert(node.storage.insert(key, held).remove(key) =~= node.storage.remove(key));
    assert(held.len() > 0);
    if complete(held) {
        law_gathered_parts(held, step.inbound->fragments, i);
    }
}

/// `Node::receive` takes a fragment in.
pub proof fn law_receive(
    node: &mut Node,
    role: &str,
    source: NodeId,
    packet: &Packet,
    fragment: Fragment,
    step: Step,
)
    requires
        call_ensures(Node::receive, (node, role, source, packet, fragment), step),
    ensures
        old(node)@.receives(role@, source, packet@, fragment, final(node)@, step@),
{
}

/// A flood request is answered with its path and the server at the end of it, sent back along
/// that path.
pub proof fn law_flood_answer(id: NodeId, request: FloodRequestView, session_id: u64)
    ensures
        ({
            let n = request.path_trace.len() as int;
            flood_answer(id, request, session_id) == (PacketView {
                pack_type: PacketTypeView::FloodResponse(
                    FloodResponseView {
                        flood_id: request.flood_id,
                        path_trace: request.path_trace.push((id, NodeType::Server)),
                    },
                ),
                routing_header: HeaderView {
                    hop_index: 1,
                    hops: Seq::new(
                        (n + 1) as nat,
                        |i: int|
                            if i == 0 {
                                id
                            } else {
                                request.path_trace[n - i].0
                            },
                    ),
                },
                session_id,
            })
        }),
{
    let n = request.path_trace.len() as int;
    assert(flood_answer(id, request, session_id).routing_header.hops =~= Seq::new(
        (n + 1) as nat,
        |i: int|
            if i == 0 {
                id
            } else {
                request.path_trace[n - i].0
            },
    ));
}

/// A packet goes onward exactly if its route has a second node to which there is a channel, and
/// then to that node, as it is.
pub proof fn law_packet_goes_to_its_second_node(node: NodeView, packet: PacketView)
    ensures
        ({
            let hops = packet.routing_header.hops;
            node.onward(packet) == (if hops.len() > 1 && node.neighbours.contains(hops[1]) {
                seq![ActionView::Send { to: hops[1], packet, delivery: Delivery::Checked }]
            } else {
                seq![]
            })
        }),
{
}

/// A fragment is sent again as the packet that waits at its index, along its own route.
pub proof fn law_resent_fragment_is_the_one_that_waits(
    node: NodeView,
    session: u64,
    fragment: u64,
)
    ensures
        ({
            let waits = node.sessions.pending.contains_key(session) && fragment
                < node.sessions.pending[session].len();
            let packet = node.sessions.pending[session][fragment as int];
            let hops = packet.routing_header.hops;
            &&& node.resends(session, fragment) == (if waits && hops.len() > 1
                && node.neighbours.contains(hops[1]) {
                seq![ActionView::Send { to: hops[1], packet, delivery: Delivery::Checked }]
            } else {
                seq![]
            })
            &&& node.can_resend(session, fragment) == (waits ==> hops.len() > 1)
        }),
{
}

/// The packets of a message leave in their order, all to the same neighbour, as they are but for
/// the hop that they are at.
pub proof fn law_packets_depart_in_order(packets: Seq<PacketView>, to: NodeId, i: int)
    ensures
        NodeView::departures(packets, to).len() == packets.len(),
        0 <= i < packets.len() ==> NodeView::departures(packets, to)[i] == (ActionView::Send {
            to,
            packet: PacketView {
                pack_type: packets[i].pack_type,
                routing_header: HeaderView { hop_index: 1, hops: packets[i].routing_header.hops },
                session_id: packets[i].session_id,
            },
            delivery: Delivery::Message,
        }),
{
}

/// A route is announced as it is, and the message is given out to be sent along it exactly if
/// there is a channel to its second node.
pub proof fn law_message_follows_its_route(
    node: NodeView,
    route: Seq<NodeId>,
    message: ServerMessagesView,
)
    ensures
        node.sends_along(route, message).actions == seq![
            ActionView::Report(ServerEventView::Route(route)),
        ],
        node.sends_along(route, message).outgoing == (if route.len() > 1
            && node.neighbours.contains(route[1]) {
            Some(OutgoingView { message, route, neighbour: route[1] })
        } else {
            None
        }),
{
}

/// A new server has its number and its neighbours and nothing else.
pub proof fn law_fresh_server(id: NodeId, neighbours: Set<NodeId>)
    ensures
        ({
            let node = NodeView::fresh(id, neighbours);
            &&& node.id == id
            &&& node.neighbours == neighbours
            &&& node.graph == GraphView { edges: Set::empty(), types: Map::empty() }
            &&& node.storage == Map::<u64, Seq<Fragment>>::empty()
            &&& node.sessions == SessionsView {
                pending: Map::empty(),
                acked: Map::empty(),
                nacks: Map::empty(),
            }
            &&& node.excluded == Set::<NodeId>::empty()
        }),
{
}

/// A packet that a channel took is reported as sent, and so is one that nobody relies on. Another
/// packet that was refused is passed over if it was sent in passing, and is fatal, in words of
/// its own, if it is part of a message or a confirmation.
pub proof fn law_delivery_is_settled(
    delivery: Delivery,
    packet: Packet,
    taken: bool,
    res: Settled,
)
    requires
        call_ensures(Delivery::settle, (delivery, packet, taken), res),
    ensures
        taken ==> res@ == SettledView::Report(ServerEventView::PacketSent(packet@)),
        !taken ==> res@ == match delivery {
            Delivery::BestEffort => SettledView::Report(ServerEventView::PacketSent(packet@)),
            Delivery::Checked => SettledView::Nothing,
            Delivery::Message => SettledView::Fatal(
                "Error occurred sending the message to the neighbour."@,
            ),
            Delivery::Confirmation => SettledView::Fatal(
                "Error occurred sending the ack to the neighbour."@,
            ),
        },
{
}

/// The reports of a server carry its number.
pub proof fn law_reports_carry_the_server(
    node: NodeView,
    count: nat,
    other: NodeId,
    fragment: u64,
    order: Seq<NodeId>,
)
    ensures
        node.loss_report(count, other, fragment) == ActionView::Report(
            ServerEventView::DebugMessage(
                node.id,
                "Server "@ + decimal(node.id as nat) + ": nack drop "@ + decimal(count) + " from "@
                    + decimal(other as nat) + " / "@ + decimal(fragment as nat),
            ),
        ),
        node.exclusion_report(order) == ActionView::Report(
            ServerEventView::DebugMessage(
                node.id,
                "Server "@ + decimal(node.id as nat) + ": new route exclude "@
                    + braced(order),
            ),
        ),
        node.no_detour_report(other) == ActionView::Report(
            ServerEventView::Error(
                node.id,
                other,
                "not alternative path route available by server"@,
            ),
        ),
{
}

} // verus!
