//! What clients, servers and the simulation controller say to one another.

use crate::packet::{copy_nodes, NodeId, Packet};
use vstd::prelude::*;

verus! {

/// A text with its title and the media that belong to it.
#[derive(Debug, PartialEq, Eq)]
pub struct FileContent {
    pub title: String,
    pub text: String,
    pub media_ids: Vec<(u64, String)>,
}

/// The model of a [`FileContent`].
#[verifier::ext_equal]
pub struct FileView {
    pub title: Seq<char>,
    pub text: Seq<char>,
    pub media_ids: Seq<(u64, Seq<char>)>,
}

/// The models of some numbered names.
pub open spec fn named_views(pairs: Seq<(u64, String)>) -> Seq<(u64, Seq<char>)> {
    pairs.map_values(|pair: (u64, String)| (pair.0, pair.1@))
}

impl View for FileContent {
    type V = FileView;

    open spec fn view(&self) -> FileView {
        FileView {
            title: self.title@,
            text: self.text@,
            media_ids: named_views(self.media_ids@),
        }
    }
}

impl Clone for FileContent {
    fn clone(&self) -> (res: Self)
        ensures
            res@ == self@,
    {
        FileContent {
            title: self.title.clone(),
            text: self.text.clone(),
            media_ids: copy_named(&self.media_ids),
        }
    }
}

/// Copies a list of numbered names.
pub fn copy_named(pairs: &Vec<(u64, String)>) -> (res: Vec<(u64, String)>)
    ensures
        named_views(res@) == named_views(pairs@),
{
    let mut res: Vec<(u64, String)> = Vec::new();
    let mut i: usize = 0;
    while i < pairs.len()
        invariant
            i <= pairs@.len(),
            res@.len() == i,
            forall|j: int|
                0 <= j < i ==> #[trigger] res@[j].0 == pairs@[j].0 && res@[j].1@ == pairs@[j].1@,
        decreases pairs.len() - i,
    {
        res.push((pairs[i].0, pairs[i].1.clone()));
        i = i + 1;
    }
    assert(named_views(res@) =~= named_views(pairs@));
    res
}

/// Copies bytes.
pub fn copy_bytes(bytes: &Vec<u8>) -> (res: Vec<u8>)
    ensures
        res@ == bytes@,
{
    let res = bytes.clone();
    assert(res@ =~= bytes@);
    res
}

/// What a server is for.
#[derive(Clone, Copy, Debug, PartialEq, Eq, Structural)]
pub enum ServerType {
    Communication,
    Content,
}

/// What a client asks of a server.
#[derive(Debug, PartialEq, Eq)]
pub enum ClientMessages {
    ServerType,
    FilesList,
    File(u64),
    Media(u64),
    RegistrationToChat,
    ClientList,
    MessageFor(NodeId, String),
}

/// The model of a [`ClientMessages`].
#[verifier::ext_equal]
pub enum ClientMessagesView {
    ServerType,
    FilesList,
    File(u64),
    Media(u64),
    RegistrationToChat,
    ClientList,
    MessageFor(NodeId, Seq<char>),
}

impl View for ClientMessages {
    type V = ClientMessagesView;

    open spec fn view(&self) -> ClientMessagesView {
        match *self {
            ClientMessages::ServerType => ClientMessagesView::ServerType,
            ClientMessages::FilesList => ClientMessagesView::FilesList,
            ClientMessages::File(id) => ClientMessagesView::File(id),
            ClientMessages::Media(id) => ClientMessagesView::Media(id),
            ClientMessages::RegistrationToChat => ClientMessagesView::RegistrationToChat,
            ClientMessages::ClientList => ClientMessagesView::ClientList,
            ClientMessages::MessageFor(id, text) => ClientMessagesView::MessageFor(id, text@),
        }
    }
}

impl Clone for ClientMessages {
    fn clone(&self) -> (res: Self)
        ensures
            res@ == self@,
    {
        match self {
            ClientMessages::ServerType => ClientMessages::ServerType,
            ClientMessages::FilesList => ClientMessages::FilesList,
            ClientMessages::File(id) => ClientMessages::File(*id),
            ClientMessages::Media(id) => ClientMessages::Media(*id),
            ClientMessages::RegistrationToChat => ClientMessages::RegistrationToChat,
            ClientMessages::ClientList => ClientMessages::ClientList,
            ClientMessages::MessageFor(id, text) => ClientMessages::MessageFor(*id, text.clone()),
        }
    }
}

/// What a server answers to a client.
#[derive(Debug, PartialEq, Eq)]
pub enum ServerMessages {
    ServerType(ServerType),
    FilesList(Vec<(u64, String)>),
    File(FileContent),
    Media(Vec<u8>),
    ClientList(Vec<NodeId>),
    MessageFrom(NodeId, String),
    RegistrationOk,
    RegistrationError(String),
    Error(String),
}

/// The model of a [`ServerMessages`].
#[verifier::ext_equal]
pub enum ServerMessagesView {
    ServerType(ServerType),
    FilesList(Seq<(u64, Seq<char>)>),
    File(FileView),
    Media(Seq<u8>),
    ClientList(Seq<NodeId>),
    MessageFrom(NodeId, Seq<char>),
    RegistrationOk,
    RegistrationError(Seq<char>),
    Error(Seq<char>),
}

impl View for ServerMessages {
    type V = ServerMessagesView;

    open spec fn view(&self) -> ServerMessagesView {
        match *self {
            ServerMessages::ServerType(server_type) => ServerMessagesView::ServerType(server_type),
            ServerMessages::FilesList(list) => ServerMessagesView::FilesList(named_views(list@)),
            ServerMessages::File(file) => ServerMessagesView::File(file@),
            ServerMessages::Media(bytes) => ServerMessagesView::Media(bytes@),
            ServerMessages::ClientList(clients) => ServerMessagesView::ClientList(clients@),
            ServerMessages::MessageFrom(id, text) => ServerMessagesView::MessageFrom(id, text@),
            ServerMessages::RegistrationOk => ServerMessagesView::RegistrationOk,
            ServerMessages::RegistrationError(text) => ServerMessagesView::RegistrationError(text@),
            ServerMessages::Error(text) => ServerMessagesView::Error(text@),
        }
    }
}

impl Clone for ServerMessages {
    fn clone(&self) -> (res: Self)
        ensures
            res@ == self@,
    {
        match self {
            ServerMessages::ServerType(server_type) => ServerMessages::ServerType(*server_type),
            ServerMessages::FilesList(list) => ServerMessages::FilesList(copy_named(list)),
            ServerMessages::File(file) => ServerMessages::File(file.clone()),
            ServerMessages::Media(bytes) => ServerMessages::Media(copy_bytes(bytes)),
            ServerMessages::ClientList(clients) => ServerMessages::ClientList(copy_nodes(clients)),
            ServerMessages::MessageFrom(id, text) => ServerMessages::MessageFrom(*id, text.clone()),
            ServerMessages::RegistrationOk => ServerMessages::RegistrationOk,
            ServerMessages::RegistrationError(text) => ServerMessages::RegistrationError(
                text.clone(),
            ),
            ServerMessages::Error(text) => ServerMessages::Error(text.clone()),
        }
    }
}

/// A message of either direction, as it travels in fragments.
#[derive(Debug, PartialEq, Eq)]
pub enum TestMessage {
    /// From a client to a server.
    WebServerMessages(ClientMessages),
    /// From a server to a client.
    WebClientMessages(ServerMessages),
}

/// The model of a [`TestMessage`].
#[verifier::ext_equal]
pub enum TestMessageView {
    WebServerMessages(ClientMessagesView),
    WebClientMessages(ServerMessagesView),
}

impl View for TestMessage {
    type V = TestMessageView;

    open spec fn view(&self) -> TestMessageView {
        match *self {
            TestMessage::WebServerMessages(message) => TestMessageView::WebServerMessages(message@),
            TestMessage::WebClientMessages(message) => TestMessageView::WebClientMessages(message@),
        }
    }
}

/// What a server reports to the simulation controller.
#[derive(Debug, PartialEq, Eq)]
pub enum ServerEvent {
    PacketSent(Packet),
    MessageReceived(TestMessage),
    Route(Vec<NodeId>),
    DebugMessage(NodeId, String),
    /// The reporting server, the node that it could not reach, and why.
    Error(NodeId, NodeId, String),
}

/// The model of a [`ServerEvent`].
#[verifier::ext_equal]
pub enum ServerEventView {
    PacketSent(crate::packet::PacketView),
    MessageReceived(TestMessageView),
    Route(Seq<NodeId>),
    DebugMessage(NodeId, Seq<char>),
    Error(NodeId, NodeId, Seq<char>),
}

impl View for ServerEvent {
    type V = ServerEventView;

    open spec fn view(&self) -> ServerEventView {
        match *self {
            ServerEvent::PacketSent(packet) => ServerEventView::PacketSent(packet@),
            ServerEvent::MessageReceived(message) => ServerEventView::MessageReceived(message@),
            ServerEvent::Route(route) => ServerEventView::Route(route@),
            ServerEvent::DebugMessage(id, text) => ServerEventView::DebugMessage(id, text@),
            ServerEvent::Error(id, target, text) => ServerEventView::Error(id, target, text@),
        }
    }
}

/// What the simulation controller asks of a server.
#[derive(Debug, PartialEq, Eq)]
pub enum ServerCommand {
    /// A channel to this node is offered.
    AddSender(NodeId),
    /// The channel to this node is withdrawn.
    RemoveSender(NodeId),
    /// A packet that bypasses the network.
    ControllerShortcut(Packet),
    RequestNetworkDiscovery,
    /// A command that servers leave alone.
    Unhandled,
}

/// The model of a [`ServerCommand`].
#[verifier::ext_equal]
pub enum ServerCommandView {
    AddSender(NodeId),
    RemoveSender(NodeId),
    ControllerShortcut(crate::packet::PacketView),
    RequestNetworkDiscovery,
    Unhandled,
}

impl View for ServerCommand {
    type V = ServerCommandView;

    open spec fn view(&self) -> ServerCommandView {
        match *self {
            ServerCommand::AddSender(id) => ServerCommandView::AddSender(id),
            ServerCommand::RemoveSender(id) => ServerCommandView::RemoveSender(id),
            ServerCommand::ControllerShortcut(packet) => ServerCommandView::ControllerShortcut(
                packet@,
            ),
            ServerCommand::RequestNetworkDiscovery => ServerCommandView::RequestNetworkDiscovery,
            ServerCommand::Unhandled => ServerCommandView::Unhandled,
        }
    }
}

} // verus!
