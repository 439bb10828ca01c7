//! What a node asks its host to do.

use vstd::prelude::*;
use crate::event::Event;
use crate::message::{MessageView, ProtocolMessage};

verus! {

/// Actions instructed by a HyParView node.
///
/// For running HyParView nodes, the users must handle the actions correctly,
/// in the order in which the node hands them out.
#[derive(Debug, PartialEq, Eq)]
pub enum Action<T> {
    /// Send a message.
    ///
    /// If there is no existing connection between the sender and the destination,
    /// new connection should be established automatically.
    ///
    /// If the destination node does not exist, the message will be discarded silently.
    Send {
        /// The ID of the destination node of the message.
        destination: T,
        /// An outgoing message.
        message: ProtocolMessage<T>,
    },
    /// Close a connection.
    ///
    /// The connection between the local node and `node` must be disconnected.
    /// If there is no such connection, this action will be silently ignored.
    Disconnect {
        /// The ID of the target node.
        node: T,
    },
    /// Notify an event.
    ///
    /// If there are some listeners that monitor HyParView events,
    /// the events emitted by nodes should be notified to them.
    Notify {
        /// An event emitted by a HyParView node.
        event: Event<T>,
    },
}

/// What an action asks for, with the message it carries taken by its view.
pub enum ActionView<T> {
    /// Deliver `message` to `destination`.
    Send { destination: T, message: MessageView<T> },
    /// Close the connection to `node`.
    Disconnect { node: T },
    /// Report `event` to the listeners.
    Notify { event: Event<T> },
}

impl<T> View for Action<T> {
    type V = ActionView<T>;

    open spec fn view(&self) -> ActionView<T> {
        match *self {
            Action::Send { destination, message } => ActionView::Send {
                destination,
                message: message@,
            },
            Action::Disconnect { node } => ActionView::Disconnect { node },
            Action::Notify { event } => ActionView::Notify { event },
        }
    }
}

impl<T> Action<T> {
    /// The action that sends `message` to `destination`.
    pub fn send(destination: T, message: ProtocolMessage<T>) -> (r: Self)
        ensures
            r == (Action::Send { destination, message }),
    {
        Action::Send { destination, message }
    }

    /// The action that closes the connection to `node`.
    pub fn disconnect(node: T) -> (r: Self)
        ensures
            r == (Action::Disconnect { node }),
    {
        Action::Disconnect { node }
    }

    /// The action that reports `node` as a new neighbor.
    pub fn notify_up(node: T) -> (r: Self)
        ensures
            r == (Action::Notify { event: Event::NeighborUp { node } }),
    {
        Action::Notify { event: Event::NeighborUp { node } }
    }

    /// The action that reports `node` as a departed neighbor.
    pub fn notify_down(node: T) -> (r: Self)
        ensures
            r == (Action::Notify { event: Event::NeighborDown { node } }),
    {
        Action::Notify { event: Event::NeighborDown { node } }
    }
}

} // verus!
