//! The views do not outgrow their limits: no transition makes a view larger
//! than it was unless the view is within its limit afterwards. A limit of
//! zero counts as one here, since a view that has nobody to evict takes a
//! peer all the same.

use vstd::prelude::*;
use crate::message::MessageView;
use crate::model::NodeView;
use crate::sequences::lemma_permutation;

verus! {

/// The size that a view with this limit can grow to.
pub open spec fn reach(limit: u8) -> nat {
    if limit == 0 {
        1
    } else {
        limit as nat
    }
}

impl<T> NodeView<T> {
    /// The options are those of `pre`, and each view is within the reach of
    /// its limit or no larger than it was in `pre`.
    pub open spec fn not_outgrown_since(self, pre: Self) -> bool {
        &&& self.options == pre.options
        &&& self.active.len() <= pre.active.len() || self.active.len() <= reach(
            self.options.max_active_view_size,
        )
        &&& self.passive.len() <= pre.passive.len() || self.passive.len() <= reach(
            self.options.max_passive_view_size,
        )
    }

    /// Views that were within their limits and have not outgrown them since
    /// are within their limits.
    pub proof fn lemma_within_limits_kept(pre: Self, post: Self)
        requires
            pre.within_limits(),
            post.not_outgrown_since(pre),
        ensures
            post.within_limits(),
    {
    }

    /// The passive view does not outgrow its limit where a peer is offered
    /// to it.
    pub proof fn lemma_passive_admits_not_outgrown(pre: Self, p: T, post: Self)
        requires
            pre.passive_admits(p, post),
        ensures
            post.not_outgrown_since(pre),
    {
    }

    /// The passive view does not outgrow its limit where peers are offered
    /// to it.
    pub proof fn lemma_passive_admits_all_not_outgrown(pre: Self, nodes: Seq<T>, post: Self)
        requires
            pre.passive_admits_all(nodes, post),
        ensures
            post.not_outgrown_since(pre),
        decreases nodes.len(),
    {
        if nodes.len() > 0 {
            let mid = choose|mid: Self|
                pre.passive_admits_all(nodes.drop_last(), mid) && #[trigger] mid.passive_admits(
                    nodes.last(),
                    post,
                );
            Self::lemma_passive_admits_all_not_outgrown(pre, nodes.drop_last(), mid);
            Self::lemma_passive_admits_not_outgrown(mid, nodes.last(), post);
        }
    }

    /// Taking a peer out of the passive view does not enlarge it.
    pub proof fn lemma_passive_removed_not_outgrown(pre: Self, p: T)
        ensures
            pre.passive_removed(p).not_outgrown_since(pre),
            pre.passive_removed(p).passive.len() <= pre.passive.len(),
    {
        pre.passive.index_of_first_ensures(p);
    }

    /// Neither view outgrows its limit where a peer is admitted to the
    /// active view.
    pub proof fn lemma_active_admits_not_outgrown(
        pre: Self,
        p: T,
        high_priority: bool,
        post: Self,
    )
        requires
            pre.active_admits(p, high_priority, post),
        ensures
            post.not_outgrown_since(pre),
    {
        let (a, b) = choose|a: int, b: int|
            pre.fits_active(a) && pre.fits_passive(b) && post == #[trigger] pre.active_added(
                p,
                high_priority,
                a,
                b,
            );
        if !(p == pre.id || pre.active.contains(p)) {
            let room = if pre.evicts_active() {
                pre.active_removed_at(a, b)
            } else {
                pre
            };
            assert(room.not_outgrown_since(pre));
            Self::lemma_passive_removed_not_outgrown(room, p);
        }
    }

    /// Neither view outgrows its limit where the node answers a message.
    pub proof fn lemma_responds_not_outgrown(pre: Self, message: MessageView<T>, post: Self)
        requires
            pre.responds(message, post),
        ensures
            post.not_outgrown_since(pre),
    {
        match message {
            MessageView::Join { sender } => {
                let admitted = choose|admitted: Self| #[trigger]
                    pre.active_admits(sender, true, admitted) && post == (NodeView {
                        actions: admitted.actions + admitted.join_announcements(sender),
                        ..admitted
                    });
                Self::lemma_active_admits_not_outgrown(pre, sender, true, admitted);
            },
            MessageView::ForwardJoin { sender, new_node, ttl } => {
                if ttl == 0 || pre.active.len() == 0 {
                    Self::lemma_active_admits_not_outgrown(pre, new_node, true, post);
                } else {
                    let noted = choose|noted: Self| #[trigger]
                        pre.notes_joiner(new_node, ttl, noted) && noted.forwards_or_admits(
                            sender,
                            new_node,
                            ttl,
                            post,
                        );
                    if noted.has_candidate(seq![sender]) {
                        lemma_permutation(post.active, noted.active);
                    } else {
                        Self::lemma_active_admits_not_outgrown(noted, new_node, true, post);
                    }
                }
            },
            MessageView::Neighbor { sender, high_priority } => {
                if high_priority || !pre.active_full() {
                    Self::lemma_active_admits_not_outgrown(pre, sender, false, post);
                }
            },
            MessageView::Shuffle { sender, origin, nodes, ttl } => {
                if ttl == 0 {
                    let answered = choose|answered: Self| #[trigger]
                        pre.answers_shuffle(origin, nodes.len(), answered)
                            && answered.passive_admits_all(nodes, post);
                    lemma_permutation(answered.passive, pre.passive);
                    Self::lemma_passive_admits_all_not_outgrown(answered, nodes, post);
                } else {
                    lemma_permutation(post.active, pre.active);
                }
            },
            MessageView::ShuffleReply { sender, nodes } => {
                Self::lemma_passive_admits_all_not_outgrown(pre, nodes, post);
            },
            MessageView::Disconnect { sender, alive } => {
                let parted = choose|parted: Self| #[trigger]
                    pre.parts_with(sender, parted) && if alive {
                        parted.passive_admits(sender, post)
                    } else {
                        post == parted
                    };
                if pre.active.contains(sender) {
                    let pick = choose|pick: int|
                        pre.fits_passive(pick) && (#[trigger] pre.active_removed(
                            sender,
                            pick,
                        )).passive_removed(sender).refills(parted);
                    pre.active.index_of_first_ensures(sender);
                    let removed = pre.active_removed(sender, pick);
                    Self::lemma_passive_removed_not_outgrown(removed, sender);
                    Self::lemma_refills_in_order(removed.passive_removed(sender), parted);
                }
            },
        }
    }

    /// Whatever message the node handles, neither view outgrows its limit.
    pub proof fn lemma_handles_not_outgrown(pre: Self, message: MessageView<T>, post: Self)
        requires
            pre.handles(message, post),
        ensures
            post.not_outgrown_since(pre),
    {
        if message is Disconnect {
            Self::lemma_responds_not_outgrown(pre, message, post);
        } else {
            let answered = choose|answered: Self| #[trigger]
                pre.responds(message, answered) && post == answered.housekept(message.sender());
            Self::lemma_responds_not_outgrown(pre, message, answered);
        }
    }

    /// Views that are within their limits stay within them, whatever
    /// message the node handles, as long as each limit is at least one.
    pub proof fn lemma_handles_within_limits(pre: Self, message: MessageView<T>, post: Self)
        requires
            pre.within_limits(),
            pre.handles(message, post),
        ensures
            post.within_limits(),
    {
        Self::lemma_handles_not_outgrown(pre, message, post);
        Self::lemma_within_limits_kept(pre, post);
    }

    /// Starting a shuffle reorders the views and does not resize them.
    pub proof fn lemma_starts_shuffle_not_outgrown(pre: Self, post: Self)
        requires
            pre.starts_shuffle(post),
        ensures
            post.not_outgrown_since(pre),
    {
        if pre.active.len() > 0 {
            lemma_permutation(post.active, pre.active);
            lemma_permutation(post.passive, pre.passive);
        }
    }
}

} // verus!
