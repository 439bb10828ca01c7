//! What holds of every transition of a node, proved over the model of its
//! state.

pub mod boundaries;
pub mod limits;
pub mod order;
pub mod reports;
pub mod well_formed;
