//! That the models of values leave nothing out.

use crate::action::{action_views, Action, ActionView, Inbound, InboundView, Reply, Step};
use crate::message::{
    named_views, ClientMessages, ClientMessagesView, FileContent, ServerCommand, ServerCommandView,
    ServerEvent, ServerEventView, ServerMessages, ServerMessagesView, TestMessage, TestMessageView,
};
use crate::packet::{
    packet_views, FloodRequest, FloodResponse, NodeId, Packet, PacketType, PacketTypeView,
    SourceRoutingHeader,
};
use crate::route::route_view;
use vstd::prelude::*;

verus! {

/// The model of a packet holds its route, its session and what it carries.
pub proof fn law_packet_model(packet: Packet)
    ensures
        packet@.routing_header.hop_index == packet.routing_header.hop_index,
        packet@.routing_header.hops == packet.routing_header.hops@,
        packet@.session_id == packet.session_id,
        match packet.pack_type {
            PacketType::MsgFragment(fragment) => packet@.pack_type == PacketTypeView::MsgFragment(
                fragment,
            ),
            PacketType::Ack(ack) => packet@.pack_type == PacketTypeView::Ack(ack),
            PacketType::Nack(nack) => packet@.pack_type == PacketTypeView::Nack(nack),
            PacketType::FloodRequest(request) => {
                &&& packet@.pack_type is FloodRequest
                &&& packet@.pack_type->FloodRequest_0.flood_id == request.flood_id
                &&& packet@.pack_type->FloodRequest_0.initiator_id == request.initiator_id
                &&& packet@.pack_type->FloodRequest_0.path_trace == request.path_trace@
            },
            PacketType::FloodResponse(response) => {
                &&& packet@.pack_type is FloodResponse
                &&& packet@.pack_type->FloodResponse_0.flood_id == response.flood_id
                &&& packet@.pack_type->FloodResponse_0.path_trace == response.path_trace@
            },
        },
{
}

/// The sender of a packet is the first hop of its route, if there is one.
pub proof fn law_sender_is_the_first_hop(header: &SourceRoutingHeader, res: Option<NodeId>)
    requires
        call_ensures(SourceRoutingHeader::source, (header,), res),
    ensures
        header.hops@.len() == 0 ==> res is None && header@.source() is None,
        header.hops@.len() > 0 ==> res == Some(header.hops@[0]) && header@.source() == Some(
            header.hops@[0],
        ),
{
}

/// The model of a file holds its title, its text and the number and name of each medium.
pub proof fn law_file_model(file: FileContent, i: int)
    ensures
        file@.title == file.title@,
        file@.text == file.text@,
        file@.media_ids.len() == file.media_ids@.len(),
        0 <= i < file.media_ids@.len() ==> file@.media_ids[i] == (
            file.media_ids@[i].0,
            file.media_ids@[i].1@,
        ),
{
}

/// The model of a list of numbered names holds each number and name at its place.
pub proof fn law_named_model(pairs: Seq<(u64, String)>, i: int)
    ensures
        named_views(pairs).len() == pairs.len(),
        0 <= i < pairs.len() ==> named_views(pairs)[i] == (pairs[i].0, pairs[i].1@),
{
}

/// The model of a request is the request with what it asks for.
pub proof fn law_request_model(request: ClientMessages)
    ensures
        request@ == match request {
            ClientMessages::ServerType => ClientMessagesView::ServerType,
            ClientMessages::FilesList => ClientMessagesView::FilesList,
            ClientMessages::File(id) => ClientMessagesView::File(id),
            ClientMessages::Media(id) => ClientMessagesView::Media(id),
            ClientMessages::RegistrationToChat => ClientMessagesView::RegistrationToChat,
            ClientMessages::ClientList => ClientMessagesView::ClientList,
            ClientMessages::MessageFor(id, text) => ClientMessagesView::MessageFor(id, text@),
        },
{
}

/// The model of an answer is the answer with what it holds.
pub proof fn law_answer_model(answer: ServerMessages)
    ensures
        answer@ == match answer {
            ServerMessages::ServerType(server_type) => ServerMessagesView::ServerType(server_type),
            ServerMessages::FilesList(list) => ServerMessagesView::FilesList(named_views(list@)),
            ServerMessages::File(file) => ServerMessagesView::File(file@),
            ServerMessages::Media(bytes) => ServerMessagesView::Media(bytes@),
            ServerMessages::ClientList(clients) => ServerMessagesView::ClientList(clients@),
            ServerMessages::MessageFrom(id, text) => ServerMessagesView::MessageFrom(id, text@),
            ServerMessages::RegistrationOk => ServerMessagesView::RegistrationOk,
            ServerMessages::RegistrationError(text) => ServerMessagesView::RegistrationError(text@),
            ServerMessages::Error(text) => ServerMessagesView::Error(text@),
        },
{
}

/// The model of a message is the message of its direction.
pub proof fn law_message_model(message: TestMessage)
    ensures
        message@ == match message {
            TestMessage::WebServerMessages(request) => TestMessageView::WebServerMessages(request@),
            TestMessage::WebClientMessages(answer) => TestMessageView::WebClientMessages(answer@),
        },
{
}

/// The model of an event is the event with what it reports.
pub proof fn law_event_model(event: ServerEvent)
    ensures
        event@ == match event {
            ServerEvent::PacketSent(packet) => ServerEventView::PacketSent(packet@),
            ServerEvent::MessageReceived(message) => ServerEventView::MessageReceived(message@),
            ServerEvent::Route(route) => ServerEventView::Route(route@),
            ServerEvent::DebugMessage(id, text) => ServerEventView::DebugMessage(id, text@),
            ServerEvent::Error(id, target, text) => ServerEventView::Error(id, target, text@),
        },
{
}

/// The model of a command is the command with what it names.
pub proof fn law_command_model(command: ServerCommand)
    ensures
        command@ == match command {
            ServerCommand::AddSender(id) => ServerCommandView::AddSender(id),
            ServerCommand::RemoveSender(id) => ServerCommandView::RemoveSender(id),
            ServerCommand::ControllerShortcut(packet) => ServerCommandView::ControllerShortcut(
                packet@,
            ),
            ServerCommand::RequestNetworkDiscovery => ServerCommandView::RequestNetworkDiscovery,
            ServerCommand::Unhandled => ServerCommandView::Unhandled,
        },
{
}

/// The model of an action is the action with all that it says.
pub proof fn law_action_model(action: Action)
    ensures
        action@ == match action {
            Action::Report(event) => ActionView::Report(event@),
            Action::Send { to, packet, delivery } => ActionView::Send {
                to,
                packet: packet@,
                delivery,
            },
            Action::KeepSender(id) => ActionView::KeepSender(id),
            Action::DropSender(id) => ActionView::DropSender(id),
        },
{
}

/// The models of lists have the models of their members, each at its place.
pub proof fn law_list_models(actions: Seq<Action>, packets: Seq<Packet>, i: int)
    ensures
        action_views(actions).len() == actions.len(),
        0 <= i < actions.len() ==> action_views(actions)[i] == actions[i]@,
        packet_views(packets).len() == packets.len(),
        0 <= i < packets.len() ==> packet_views(packets)[i] == packets[i]@,
{
}

/// The model of a step holds its actions and what came in.
pub proof fn law_step_model(step: Step)
    ensures
        step@.actions == action_views(step.actions@),
        step@.inbound == match step.inbound {
            Inbound::Nothing => InboundView::Nothing,
            Inbound::Complete { source, fragments } => InboundView::Complete {
                source,
                fragments: fragments@,
            },
        },
{
}

/// The model of a reply holds its actions and the message to be sent with its route and the
/// neighbour that takes it.
pub proof fn law_reply_model(reply: Reply)
    ensures
        reply@.actions == action_views(reply.actions@),
        reply@.outgoing is Some <==> reply.outgoing is Some,
        reply.outgoing matches Some(outgoing) ==> {
            &&& reply@.outgoing->0.message == outgoing.message@
            &&& reply@.outgoing->0.route == outgoing.route@
            &&& reply@.outgoing->0.neighbour == outgoing.neighbour
        },
{
}

/// The model of a route that may not be there is the route.
pub proof fn law_route_model(route: Option<Vec<NodeId>>)
    ensures
        route_view(route) == match route {
            Some(path) => Some(path@),
            None => None,
        },
{
}

} // verus!
