//! Tuning parameters of a node.

use vstd::prelude::*;

verus! {

/// Options for a HyParView node.
#[derive(Debug, Clone)]
pub struct NodeOptions {
    /// Maximum number of nodes in the active view.
    pub max_active_view_size: u8,
    /// Maximum number of nodes in the passive view.
    pub max_passive_view_size: u8,
    /// Protocol parameter that is called `ka` in the paper: how many members
    /// of the active view a shuffle request carries at most.
    pub shuffle_active_view_size: u8,
    /// Protocol parameter that is called `kp` in the paper: how many members
    /// of the passive view a shuffle request carries at most.
    pub shuffle_passive_view_size: u8,
    /// Protocol parameter that is called `ARWL` in the paper.
    ///
    /// This is the initial TTL value for `ForwardJoin` and `Shuffle` messages.
    pub active_random_walk_len: u8,
    /// Protocol parameter that is called `PRWL` in the paper.
    ///
    /// A node that forwards a `ForwardJoin` message whose TTL equals this
    /// value also adds the new node to its passive view.
    pub passive_random_walk_len: u8,
}

impl NodeOptions {
    /// The default value of `max_active_view_size` field.
    pub const DEFAULT_MAX_ACTIVE_VIEW_SIZE: u8 = 4;

    /// The default value of `max_passive_view_size` field.
    pub const DEFAULT_MAX_PASSIVE_VIEW_SIZE: u8 = 24;

    /// The default value of `shuffle_active_view_size` field.
    pub const DEFAULT_SHUFFLE_ACTIVE_VIEW_SIZE: u8 = 2;

    /// The default value of `shuffle_passive_view_size` field.
    pub const DEFAULT_SHUFFLE_PASSIVE_VIEW_SIZE: u8 = 2;

    /// The default value of `active_random_walk_len` field.
    pub const DEFAULT_ACTIVE_RANDOM_WALK_LEN: u8 = 5;

    /// The default value of `passive_random_walk_len` field.
    pub const DEFAULT_PASSIVE_RANDOM_WALK_LEN: u8 = 2;

    /// The options that `default` returns.
    pub open spec fn spec_default() -> Self {
        NodeOptions {
            max_active_view_size: 4,
            max_passive_view_size: 24,
            shuffle_active_view_size: 2,
            shuffle_passive_view_size: 2,
            active_random_walk_len: 5,
            passive_random_walk_len: 2,
        }
    }
}

impl Default for NodeOptions {
    fn default() -> (r: Self)
        ensures
            r == NodeOptions::spec_default(),
    {
        NodeOptions {
            max_active_view_size: Self::DEFAULT_MAX_ACTIVE_VIEW_SIZE,
            max_passive_view_size: Self::DEFAULT_MAX_PASSIVE_VIEW_SIZE,
            shuffle_active_view_size: Self::DEFAULT_SHUFFLE_ACTIVE_VIEW_SIZE,
            shuffle_passive_view_size: Self::DEFAULT_SHUFFLE_PASSIVE_VIEW_SIZE,
            active_random_walk_len: Self::DEFAULT_ACTIVE_RANDOM_WALK_LEN,
            passive_random_walk_len: Self::DEFAULT_PASSIVE_RANDOM_WALK_LEN,
        }
    }
}

} // verus!
