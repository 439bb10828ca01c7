//! Messages used for inter-node communication.

use vstd::prelude::*;
use crate::ttl::TimeToLive;

verus! {

/// Messages used for inter-node communication.
#[derive(Debug, Clone, PartialEq, Eq)]
pub enum ProtocolMessage<T> {
    /// `JOIN` message.
    Join(JoinMessage<T>),
    /// `FORWARD_JOIN` message.
    ForwardJoin(ForwardJoinMessage<T>),
    /// `NEIGHBOR` message.
    Neighbor(NeighborMessage<T>),
    /// `SHUFFLE` message.
    Shuffle(ShuffleMessage<T>),
    /// `SHUFFLE_REPLY` message.
    ShuffleReply(ShuffleReplyMessage<T>),
    /// `DISCONNECT` messsage.
    Disconnect(DisconnectMessage<T>),
}

/// `JOIN` message.
///
/// This is sent by new nodes for joining a HyParView cluster.
/// The receiver is the contact node of the cluster.
#[derive(Debug, Clone, PartialEq, Eq)]
pub struct JoinMessage<T> {
    /// The node ID of the message sender.
    ///
    /// It is also a new node that wishes to join the cluster.
    pub sender: T,
}

/// `FORWARD_JOIN` message.
///
/// This is used for disseminating a `JOIN` request to the members of the cluster to
/// which the contact node belongs.
#[derive(Debug, Clone, PartialEq, Eq)]
pub struct ForwardJoinMessage<T> {
    /// The node ID of the message sender.
    pub sender: T,
    /// The ID of the new joining node.
    pub new_node: T,
    /// TTL of the message.
    pub ttl: TimeToLive,
}

/// `NEIGHBOR` message.
///
/// This is used for refilling active view shrunk by node disconnections.
///
/// It is also used for notifying a new node that a HyParView level
/// connection has been established.
#[derive(Debug, Clone, PartialEq, Eq)]
pub struct NeighborMessage<T> {
    /// The node ID of the message sender.
    pub sender: T,
    /// Whether the priority of the sender is high or low.
    pub high_priority: bool,
}

/// `SHUFFLE` message.
///
/// This and `SHUFFLE_REPLY` messages are used for shuffling passive views of two nodes.
#[derive(Debug, Clone, PartialEq, Eq)]
pub struct ShuffleMessage<T> {
    /// The node ID of the message sender.
    pub sender: T,
    /// The ID of the origin node that emitted the shuffle request.
    pub origin: T,
    /// The nodes selected by `origin` for shuffling.
    pub nodes: Vec<T>,
    /// TTL of the message.
    pub ttl: TimeToLive,
}

/// `SHUFFLE_REPLY` message.
#[derive(Debug, Clone, PartialEq, Eq)]
pub struct ShuffleReplyMessage<T> {
    /// The node ID of the message sender.
    pub sender: T,
    /// The nodes selected by `sender` as the reply of the associated `Shuffle` message.
    pub nodes: Vec<T>,
}

/// `DISCONNECT` message.
///
/// This is sent by a node for removing the sender from the active view of the receiver.
#[derive(Debug, Clone, PartialEq, Eq)]
pub struct DisconnectMessage<T> {
    /// The node ID of the message sender.
    pub sender: T,
    /// Whether the sender is alive or not.
    ///
    /// If it is `false`, the receiver of the message will remove the sender from its passive view.
    pub alive: bool,
}

/// What a message says: its kind and fields, with node lists as sequences
/// and the TTL as a number.
pub enum MessageView<T> {
    /// A `JOIN` request of `sender`.
    Join { sender: T },
    /// A `FORWARD_JOIN` walk for `new_node`, sent on by `sender`.
    ForwardJoin { sender: T, new_node: T, ttl: u8 },
    /// A `NEIGHBOR` request of `sender`.
    Neighbor { sender: T, high_priority: bool },
    /// A `SHUFFLE` walk started by `origin`, sent on by `sender`.
    Shuffle { sender: T, origin: T, nodes: Seq<T>, ttl: u8 },
    /// The answer of `sender` to a `SHUFFLE` request.
    ShuffleReply { sender: T, nodes: Seq<T> },
    /// The notice that `sender` leaves the receiver's active view.
    Disconnect { sender: T, alive: bool },
}

impl<T> MessageView<T> {
    /// The node that the message names as its sender.
    pub open spec fn sender(self) -> T {
        match self {
            MessageView::Join { sender } => sender,
            MessageView::ForwardJoin { sender, .. } => sender,
            MessageView::Neighbor { sender, .. } => sender,
            MessageView::Shuffle { sender, .. } => sender,
            MessageView::ShuffleReply { sender, .. } => sender,
            MessageView::Disconnect { sender, .. } => sender,
        }
    }
}

impl<T> View for ProtocolMessage<T> {
    type V = MessageView<T>;

    open spec fn view(&self) -> MessageView<T> {
        match *self {
            ProtocolMessage::Join(m) => MessageView::Join { sender: m.sender },
            ProtocolMessage::ForwardJoin(m) => MessageView::ForwardJoin {
                sender: m.sender,
                new_node: m.new_node,
                ttl: m.ttl@,
            },
            ProtocolMessage::Neighbor(m) => MessageView::Neighbor {
                sender: m.sender,
                high_priority: m.high_priority,
            },
            ProtocolMessage::Shuffle(m) => MessageView::Shuffle {
                sender: m.sender,
                origin: m.origin,
                nodes: m.nodes@,
                ttl: m.ttl@,
            },
            ProtocolMessage::ShuffleReply(m) => MessageView::ShuffleReply {
                sender: m.sender,
                nodes: m.nodes@,
            },
            ProtocolMessage::Disconnect(m) => MessageView::Disconnect {
                sender: m.sender,
                alive: m.alive,
            },
        }
    }
}

impl<T> ProtocolMessage<T> {
    /// Returns the node ID of the sender of the message.
    pub fn sender(&self) -> (r: &T)
        ensures
            *r == self@.sender(),
    {
        match self {
            ProtocolMessage::Join(m) => &m.sender,
            ProtocolMessage::ForwardJoin(m) => &m.sender,
            ProtocolMessage::Neighbor(m) => &m.sender,
            ProtocolMessage::Shuffle(m) => &m.sender,
            ProtocolMessage::ShuffleReply(m) => &m.sender,
            ProtocolMessage::Disconnect(m) => &m.sender,
        }
    }
}

impl<T: Clone> ProtocolMessage<T> {
    /// Makes a `JOIN` message whose sender is a clone of `sender`.
    pub fn join(sender: &T) -> (r: Self)
        ensures
            r@ is Join,
            cloned(*sender, r@.sender()),
    {
        ProtocolMessage::Join(JoinMessage { sender: sender.clone() })
    }

    /// Makes a `FORWARD_JOIN` message whose sender is a clone of `sender`.
    pub fn forward_join(sender: &T, new_node: T, ttl: TimeToLive) -> (r: Self)
        ensures
            r@ == (MessageView::ForwardJoin { sender: r@.sender(), new_node, ttl: ttl@ }),
            cloned(*sender, r@.sender()),
    {
        ProtocolMessage::ForwardJoin(ForwardJoinMessage { sender: sender.clone(), new_node, ttl })
    }

    /// Makes a `NEIGHBOR` message whose sender is a clone of `sender`.
    pub fn neighbor(sender: &T, high_priority: bool) -> (r: Self)
        ensures
            r@ == (MessageView::Neighbor { sender: r@.sender(), high_priority }),
            cloned(*sender, r@.sender()),
    {
        ProtocolMessage::Neighbor(NeighborMessage { sender: sender.clone(), high_priority })
    }

    /// Makes a `SHUFFLE` message whose sender is a clone of `sender`.
    pub fn shuffle(sender: &T, origin: T, nodes: Vec<T>, ttl: TimeToLive) -> (r: Self)
        ensures
            r@ == (MessageView::Shuffle { sender: r@.sender(), origin, nodes: nodes@, ttl: ttl@ }),
            cloned(*sender, r@.sender()),
    {
        ProtocolMessage::Shuffle(ShuffleMessage { sender: sender.clone(), origin, nodes, ttl })
    }

    /// Makes a `SHUFFLE_REPLY` message whose sender is a clone of `sender`.
    pub fn shuffle_reply(sender: &T, nodes: Vec<T>) -> (r: Self)
        ensures
            r@ == (MessageView::ShuffleReply { sender: r@.sender(), nodes: nodes@ }),
            cloned(*sender, r@.sender()),
    {
        ProtocolMessage::ShuffleReply(ShuffleReplyMessage { sender: sender.clone(), nodes })
    }

    /// Makes a `DISCONNECT` message whose sender is a clone of `sender`.
    pub fn disconnect(sender: &T, alive: bool) -> (r: Self)
        ensures
            r@ == (MessageView::Disconnect { sender: r@.sender(), alive }),
            cloned(*sender, r@.sender()),
    {
        ProtocolMessage::Disconnect(DisconnectMessage { sender: sender.clone(), alive })
    }
}

impl<T> From<JoinMessage<T>> for ProtocolMessage<T> {
    fn from(f: JoinMessage<T>) -> (r: Self) {
        ProtocolMessage::Join(f)
    }
}

impl<T> vstd::std_specs::convert::FromSpecImpl<JoinMessage<T>> for ProtocolMessage<T> {
    open spec fn obeys_from_spec() -> bool {
        true
    }

    open spec fn from_spec(f: JoinMessage<T>) -> Self {
        ProtocolMessage::Join(f)
    }
}

impl<T> From<ForwardJoinMessage<T>> for ProtocolMessage<T> {
    fn from(f: ForwardJoinMessage<T>) -> (r: Self) {
        ProtocolMessage::ForwardJoin(f)
    }
}

impl<T> vstd::std_specs::convert::FromSpecImpl<ForwardJoinMessage<T>> for ProtocolMessage<T> {
    open spec fn obeys_from_spec() -> bool {
        true
    }

    open spec fn from_spec(f: ForwardJoinMessage<T>) -> Self {
        ProtocolMessage::ForwardJoin(f)
    }
}

impl<T> From<NeighborMessage<T>> for ProtocolMessage<T> {
    fn from(f: NeighborMessage<T>) -> (r: Self) {
        ProtocolMessage::Neighbor(f)
    }
}

impl<T> vstd::std_specs::convert::FromSpecImpl<NeighborMessage<T>> for ProtocolMessage<T> {
    open spec fn obeys_from_spec() -> bool {
        true
    }

    open spec fn from_spec(f: NeighborMessage<T>) -> Self {
        ProtocolMessage::Neighbor(f)
    }
}

impl<T> From<ShuffleMessage<T>> for ProtocolMessage<T> {
    fn from(f: ShuffleMessage<T>) -> (r: Self) {
        ProtocolMessage::Shuffle(f)
    }
}

impl<T> vstd::std_specs::convert::FromSpecImpl<ShuffleMessage<T>> for ProtocolMessage<T> {
    open spec fn obeys_from_spec() -> bool {
        true
    }

    open spec fn from_spec(f: ShuffleMessage<T>) -> Self {
        ProtocolMessage::Shuffle(f)
    }
}

impl<T> From<ShuffleReplyMessage<T>> for ProtocolMessage<T> {
    fn from(f: ShuffleReplyMessage<T>) -> (r: Self) {
        ProtocolMessage::ShuffleReply(f)
    }
}

impl<T> vstd::std_specs::convert::FromSpecImpl<ShuffleReplyMessage<T>> for ProtocolMessage<T> {
    open spec fn obeys_from_spec() -> bool {
        true
    }

    open spec fn from_spec(f: ShuffleReplyMessage<T>) -> Self {
        ProtocolMessage::ShuffleReply(f)
    }
}

impl<T> From<DisconnectMessage<T>> for ProtocolMessage<T> {
    fn from(f: DisconnectMessage<T>) -> (r: Self) {
        ProtocolMessage::Disconnect(f)
    }
}

impl<T> vstd::std_specs::convert::FromSpecImpl<DisconnectMessage<T>> for ProtocolMessage<T> {
    open spec fn obeys_from_spec() -> bool {
        true
    }

    open spec fn from_spec(f: DisconnectMessage<T>) -> Self {
        ProtocolMessage::Disconnect(f)
    }
}

} // verus!
