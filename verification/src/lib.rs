//! Servers of a drone-routed packet network: a content server that answers
//! requests for texts and media, and a communication server that relays chat
//! messages between registered clients.

pub mod action;
pub mod communication_server;
pub mod content_server;
pub mod graph;
pub mod json;
pub mod laws;
pub mod message;
pub mod node;
pub mod packet;
pub mod reassembly;
pub mod route;
pub mod server;
pub mod session;
pub mod store;
pub mod text;

pub use action::{Action, Delivery, Inbound, Outgoing, Reply, Settled, Step};
pub use communication_server::CommunicationServer;
pub use content_server::ContentServer;
pub use message::{
    ClientMessages, FileContent, ServerCommand, ServerEvent, ServerMessages, ServerType,
    TestMessage,
};
pub use packet::{
    Ack, FloodRequest, FloodResponse, Fragment, Nack, NackType, NodeId, NodeType, Packet,
    PacketType, SourceRoutingHeader,
};
pub use reassembly::ReconstructError;
pub use server::DronegowskiServer;
pub use store::{MediaEntry, MediaServer, TextEntry, TextServer};
