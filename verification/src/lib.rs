//! A HyParView membership engine.
//!
//! A [`Node`] keeps the partial view that one participant of a gossip
//! overlay has of the others: a small active view of neighbors and a larger
//! passive view of peers in reserve. It opens no connection and keeps no
//! clock. Its host hands it the protocol messages that arrive, calls the
//! maintenance entry points at the pace it likes, and carries out the
//! [`Action`]s that the node queues, in the order in which it polls them.
//!
//! The node is verified against a model of its state, [`model::NodeView`].
//! Every transition is a function or a relation on that model; where the
//! node draws at random the relation holds of every draw. The modules under
//! [`laws`] prove what follows from the transitions: the views stay
//! well-formed and within their limits, reports follow their requests, and
//! full views evict exactly one member.
//!
//! # References
//!
//! - HyParView: a membership protocol for reliable gossip-based broadcast,
//!   <http://asc.di.fct.unl.pt/~jleitao/pdf/dsn07-leitao.pdf>

pub mod action;
pub mod event;
pub mod identity;
pub mod laws;
pub mod message;
pub mod model;
pub mod node;
pub mod node_options;
mod random;
pub mod sequences;
pub mod ttl;

pub use action::Action;
pub use event::Event;
pub use node::Node;
pub use node_options::NodeOptions;
pub use ttl::TimeToLive;
