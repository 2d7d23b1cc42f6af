//! What every server of the network can do.

use crate::action::{Action, Reply, Step};
use crate::message::{ServerCommand, ServerCommandView, TestMessage};
use crate::packet::{Fragment, NodeId, NodeType, Packet, PacketView};
use crate::reassembly::ReconstructError;
use vstd::prelude::*;

verus! {

/// A server of the network.
///
/// A server changes its own state and says what is to be done; it sends nothing itself. Where it
/// would draw a fresh number for a flood, the caller hands one in.
pub trait DronegowskiServer: Sized {
    /// The server's own data fit together.
    spec fn wf(&self) -> bool;

    /// The server can handle this packet. A packet that it cannot handle lacks a part that the
    /// server relies on.
    spec fn accepts(&self, packet: PacketView) -> bool;

    /// Whether the server can handle this packet.
    fn accepts_packet(&self, packet: &Packet) -> (res: bool)
        ensures
            res == self.accepts(packet@),
    ;

    /// Asks every neighbour for paths.
    fn network_discovery(&mut self, flood_id: u64) -> (actions: Vec<Action>)
        requires
            old(self).wf(),
        ensures
            final(self).wf(),
    ;

    /// Takes a packet in.
    fn handle_packet(&mut self, packet: Packet, flood_id: u64) -> (step: Step)
        requires
            old(self).wf(),
            old(self).accepts(packet@),
        ensures
            final(self).wf(),
    ;

    /// Takes in a message that was put together from its fragments and read.
    fn handle_message(&mut self, source_id: NodeId, message: TestMessage) -> (reply: Reply)
        requires
            old(self).wf(),
        ensures
            final(self).wf(),
    ;

    /// Takes the packets of a message that was cut into fragments, and sends them.
    fn send_packets(&mut self, session_id: u64, packets: Vec<Packet>, neighbour: NodeId) -> (actions:
        Vec<Action>)
        requires
            old(self).wf(),
        ensures
            final(self).wf(),
    ;

    /// Obeys a command of the simulation controller.
    fn handle_command(&mut self, command: ServerCommand, flood_id: u64) -> (step: Step)
        requires
            old(self).wf(),
            command@ matches ServerCommandView::ControllerShortcut(packet) ==> old(self).accepts(
                packet,
            ),
        ensures
            final(self).wf(),
    ;

    /// Learns from a path through the network.
    fn update_graph(&mut self, path_trace: &Vec<(NodeId, NodeType)>)
        requires
            old(self).wf(),
            path_trace@.len() > 0,
        ensures
            final(self).wf(),
    ;

    /// Finds a shortest route to a client.
    fn compute_best_path(&self, target_client: NodeId) -> (res: Option<Vec<NodeId>>)
        requires
            self.wf(),
    ;

    /// Takes the fragments of a session out and puts them in order.
    fn reconstruct_message(&mut self, key: u64) -> (res: Result<Vec<Fragment>, ReconstructError>)
        requires
            old(self).wf(),
        ensures
            final(self).wf(),
    ;

    /// Takes up a new neighbour.
    fn add_neighbor(&mut self, node_id: NodeId, flood_id: u64) -> (actions: Vec<Action>)
        requires
            old(self).wf(),
        ensures
            final(self).wf(),
    ;

    /// Lets go of a neighbour.
    fn remove_neighbor(&mut self, node_id: NodeId, flood_id: u64) -> (actions: Vec<Action>)
        requires
            old(self).wf(),
        ensures
            final(self).wf(),
    ;

    /// Forgets a node of the network.
    fn remove_from_topology(&mut self, node_id: NodeId)
        requires
            old(self).wf(),
        ensures
            final(self).wf(),
    ;
}

} // verus!
