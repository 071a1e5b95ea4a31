//! The decisions of the swarm's event loop: what to do with each event
//! that the network or the local node produces.

use vstd::prelude::*;

verus! {

/// The gossip topic that carries mesh traffic.
pub open spec fn mesh_topic_name() -> Seq<char> {
    "librenet-mesh"@
}

/// An event of the swarm loop, reduced to what the loop decides on.
#[derive(Debug, Clone)]
pub enum MeshEvent {
    /// The swarm listens on a new address.
    NewListenAddr(String),
    /// A gossip message arrived on the mesh topic.
    GossipMessage(Vec<u8>),
    /// The local node hands over a packet to send.
    OutgoingPacket(Vec<u8>),
    /// Any other swarm event.
    Other,
}

/// What the loop does in answer.
#[derive(Debug, Clone)]
pub enum MeshAction {
    /// Report the new listen address.
    LogListenAddr(String),
    /// Pass the message data to the local node.
    DeliverIncoming(Vec<u8>),
    /// Publish the data on the topic.
    Publish { topic: String, data: Vec<u8> },
    /// Nothing to do.
    Ignore,
}

/// The mesh topic's name.
pub fn mesh_topic() -> (topic: String)
    ensures
        topic@ == mesh_topic_name(),
{
    String::from_str("librenet-mesh")
}

/// The loop's decision for one event.
pub fn mesh_step(event: MeshEvent) -> (action: MeshAction)
    ensures
        match event {
            MeshEvent::NewListenAddr(addr) => action == MeshAction::LogListenAddr(addr),
            MeshEvent::GossipMessage(data) => action == MeshAction::DeliverIncoming(data),
            MeshEvent::OutgoingPacket(data) => action matches MeshAction::Publish { topic, data: sent }
                && topic@ == mesh_topic_name() && sent == data,
            MeshEvent::Other => action == MeshAction::Ignore,
        },
{
    match event {
        MeshEvent::NewListenAddr(addr) => MeshAction::LogListenAddr(addr),
        MeshEvent::GossipMessage(data) => MeshAction::DeliverIncoming(data),
        MeshEvent::OutgoingPacket(data) => MeshAction::Publish { topic: mesh_topic(), data },
        MeshEvent::Other => MeshAction::Ignore,
    }
}

} // verus!
