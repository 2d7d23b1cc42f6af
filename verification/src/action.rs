//! What a server asks its surroundings to do.

use crate::message::{ServerEvent, ServerEventView, ServerMessages, ServerMessagesView};
use crate::packet::{Fragment, NodeId, Packet, PacketView};
use vstd::prelude::*;

verus! {

/// How much depends on a packet that is handed to a neighbour.
#[derive(Clone, Copy, Debug, PartialEq, Eq, Structural)]
pub enum Delivery {
    /// The packet is reported as sent whether or not the channel took it.
    BestEffort,
    /// The packet is reported as sent only if the channel took it.
    Checked,
    /// Part of a message: the server cannot go on if the channel does not take it.
    Message,
    /// A confirmation: the server cannot go on if the channel does not take it.
    Confirmation,
}

/// What follows once a packet was handed to a channel.
#[derive(Debug, PartialEq, Eq)]
pub enum Settled {
    /// The simulation controller is to be told.
    Report(ServerEvent),
    Nothing,
    /// The server cannot go on, for the reason given.
    Fatal(String),
}

/// The model of [`Settled`].
#[verifier::ext_equal]
pub enum SettledView {
    Report(ServerEventView),
    Nothing,
    Fatal(Seq<char>),
}

impl View for Settled {
    type V = SettledView;

    open spec fn view(&self) -> SettledView {
        match *self {
            Settled::Report(event) => SettledView::Report(event@),
            Settled::Nothing => SettledView::Nothing,
            Settled::Fatal(reason) => SettledView::Fatal(reason@),
        }
    }
}

impl Delivery {
    /// What follows once the channel took the packet or refused it.
    pub open spec fn settled(self, packet: PacketView, taken: bool) -> SettledView {
        if taken || self == Delivery::BestEffort {
            SettledView::Report(ServerEventView::PacketSent(packet))
        } else {
            match self {
                Delivery::Message => SettledView::Fatal(
                    "Error occurred sending the message to the neighbour."@,
                ),
                Delivery::Confirmation => SettledView::Fatal(
                    "Error occurred sending the ack to the neighbour."@,
                ),
                _ => SettledView::Nothing,
            }
        }
    }

    /// Decides what follows once the channel took the packet or refused it.
    pub fn settle(self, packet: Packet, taken: bool) -> (res: Settled)
        ensures
            res@ == self.settled(packet@, taken),
    {
        if taken || self == Delivery::BestEffort {
            Settled::Report(ServerEvent::PacketSent(packet))
        } else {
            match self {
                Delivery::Message => Settled::Fatal(
                    "Error occurred sending the message to the neighbour.".to_string(),
                ),
                Delivery::Confirmation => Settled::Fatal(
                    "Error occurred sending the ack to the neighbour.".to_string(),
                ),
                _ => Settled::Nothing,
            }
        }
    }
}

/// One thing to be done.
#[derive(Debug, PartialEq, Eq)]
pub enum Action {
    /// Report to the simulation controller.
    Report(ServerEvent),
    /// Hand a packet to the channel of a neighbour.
    Send { to: NodeId, packet: Packet, delivery: Delivery },
    /// Keep the channel that was offered for this node.
    KeepSender(NodeId),
    /// Let go of the channel to this node.
    DropSender(NodeId),
}

/// The model of an [`Action`].
#[verifier::ext_equal]
pub enum ActionView {
    Report(ServerEventView),
    Send { to: NodeId, packet: PacketView, delivery: Delivery },
    KeepSender(NodeId),
    DropSender(NodeId),
}

impl View for Action {
    type V = ActionView;

    open spec fn view(&self) -> ActionView {
        match *self {
            Action::Report(event) => ActionView::Report(event@),
            Action::Send { to, packet, delivery } => ActionView::Send {
                to,
                packet: packet@,
                delivery,
            },
            Action::KeepSender(id) => ActionView::KeepSender(id),
            Action::DropSender(id) => ActionView::DropSender(id),
        }
    }
}

/// The models of some actions.
pub open spec fn action_views(actions: Seq<Action>) -> Seq<ActionView> {
    actions.map_values(|action: Action| action@)
}

/// Adds an action to a list.
pub fn push_action(actions: &mut Vec<Action>, action: Action)
    ensures
        action_views(final(actions)@) == action_views(old(actions)@) + seq![action@],
{
    actions.push(action);
    assert(action_views(actions@) =~= action_views(old(actions)@) + seq![action@]);
}

/// Adds the actions of one list to another.
pub fn append_actions(actions: &mut Vec<Action>, more: Vec<Action>)
    ensures
        action_views(final(actions)@) == action_views(old(actions)@) + action_views(more@),
{
    let mut more = more;
    let ghost added = more@;
    actions.append(&mut more);
    assert(action_views(actions@) =~= action_views(old(actions)@) + action_views(added));
}

/// An empty list of actions.
pub fn no_actions() -> (res: Vec<Action>)
    ensures
        action_views(res@) == Seq::<ActionView>::empty(),
{
    let res: Vec<Action> = Vec::new();
    assert(action_views(res@) =~= Seq::empty());
    res
}

/// What became of an incoming message.
#[derive(Debug, PartialEq, Eq)]
pub enum Inbound {
    /// Nothing is to be read yet.
    Nothing,
    /// All fragments are there, in order, and can be put together and read.
    Complete { source: NodeId, fragments: Vec<Fragment> },
}

/// The model of an [`Inbound`].
#[verifier::ext_equal]
pub enum InboundView {
    Nothing,
    Complete { source: NodeId, fragments: Seq<Fragment> },
}

impl View for Inbound {
    type V = InboundView;

    open spec fn view(&self) -> InboundView {
        match *self {
            Inbound::Nothing => InboundView::Nothing,
            Inbound::Complete { source, fragments } => InboundView::Complete {
                source,
                fragments: fragments@,
            },
        }
    }
}

/// What a packet leads to: actions, in order, and after them perhaps a message to be read.
#[derive(Debug, PartialEq, Eq)]
pub struct Step {
    pub actions: Vec<Action>,
    pub inbound: Inbound,
}

/// The model of a [`Step`].
#[verifier::ext_equal]
pub struct StepView {
    pub actions: Seq<ActionView>,
    pub inbound: InboundView,
}

impl View for Step {
    type V = StepView;

    open spec fn view(&self) -> StepView {
        StepView { actions: action_views(self.actions@), inbound: self.inbound@ }
    }
}

impl StepView {
    /// Actions, and no message.
    pub open spec fn acts(actions: Seq<ActionView>) -> StepView {
        StepView { actions, inbound: InboundView::Nothing }
    }
}

/// A message that is to be cut into fragments and sent along a route.
#[derive(Debug, PartialEq, Eq)]
pub struct Outgoing {
    pub message: ServerMessages,
    pub route: Vec<NodeId>,
    /// The neighbour that takes the packets: the second node of the route.
    pub neighbour: NodeId,
}

/// The model of an [`Outgoing`].
#[verifier::ext_equal]
pub struct OutgoingView {
    pub message: ServerMessagesView,
    pub route: Seq<NodeId>,
    pub neighbour: NodeId,
}

impl View for Outgoing {
    type V = OutgoingView;

    open spec fn view(&self) -> OutgoingView {
        OutgoingView { message: self.message@, route: self.route@, neighbour: self.neighbour }
    }
}

/// The model of an outgoing message that may not be there.
pub open spec fn outgoing_view(outgoing: Option<Outgoing>) -> Option<OutgoingView> {
    match outgoing {
        Some(outgoing) => Some(outgoing@),
        None => None,
    }
}

/// What a message leads to: actions, in order, and after them perhaps a message to be sent.
#[derive(Debug, PartialEq, Eq)]
pub struct Reply {
    pub actions: Vec<Action>,
    pub outgoing: Option<Outgoing>,
}

/// The model of a [`Reply`].
#[verifier::ext_equal]
pub struct ReplyView {
    pub actions: Seq<ActionView>,
    pub outgoing: Option<OutgoingView>,
}

impl View for Reply {
    type V = ReplyView;

    open spec fn view(&self) -> ReplyView {
        ReplyView {
            actions: action_views(self.actions@),
            outgoing: outgoing_view(self.outgoing),
        }
    }
}

impl ReplyView {
    /// The same with some actions before it.
    pub open spec fn after(self, actions: Seq<ActionView>) -> ReplyView {
        ReplyView { actions: actions + self.actions, ..self }
    }
}

} // verus!
