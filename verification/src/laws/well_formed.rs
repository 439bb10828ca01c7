//! The views stay well-formed: the node is in neither, no peer is in both,
//! and no peer is twice in one.

use vstd::prelude::*;
use crate::action::ActionView;
use crate::event::Event;
use crate::message::MessageView;
use crate::model::NodeView;
use crate::sequences::{
    lemma_permutation, lemma_push_fresh, lemma_swap_removed, lemma_without, swap_removed,
};

verus! {

impl<T> NodeView<T> {
    /// Offering a peer to the passive view keeps the views well-formed.
    pub proof fn lemma_passive_admits_wf(pre: Self, p: T, post: Self)
        requires
            pre.wf(),
            pre.passive_admits(p, post),
        ensures
            post.wf(),
    {
        let pick = choose|pick: int|
            pre.fits_passive(pick) && post == #[trigger] pre.passive_added(p, pick);
        if !pre.knows(p) {
            let room = if pre.evicts_passive() {
                swap_removed(pre.passive, pick)
            } else {
                pre.passive
            };
            if pre.evicts_passive() {
                lemma_swap_removed(pre.passive, pick);
            }
            lemma_push_fresh(room, p);
        }
    }

    /// Offering peers to the passive view keeps the views well-formed.
    pub proof fn lemma_passive_admits_all_wf(pre: Self, nodes: Seq<T>, post: Self)
        requires
            pre.wf(),
            pre.passive_admits_all(nodes, post),
        ensures
            post.wf(),
        decreases nodes.len(),
    {
        if nodes.len() > 0 {
            let mid = choose|mid: Self|
                pre.passive_admits_all(nodes.drop_last(), mid) && #[trigger] mid.passive_admits(
                    nodes.last(),
                    post,
                );
            Self::lemma_passive_admits_all_wf(pre, nodes.drop_last(), mid);
            Self::lemma_passive_admits_wf(mid, nodes.last(), post);
        }
    }

    /// Taking a peer out of the passive view keeps the views well-formed.
    pub proof fn lemma_passive_removed_wf(pre: Self, p: T)
        requires
            pre.wf(),
        ensures
            pre.passive_removed(p).wf(),
            !pre.passive_removed(p).passive.contains(p),
    {
        lemma_without(pre.passive, p);
    }

    /// The removal of a neighbor keeps the views well-formed; the neighbor
    /// is in the passive view afterwards.
    pub proof fn lemma_active_removed_at_wf(pre: Self, index: int, pick: int)
        requires
            pre.wf(),
            0 <= index < pre.active.len(),
            pre.fits_passive(pick),
        ensures
            pre.active_removed_at(index, pick).wf(),
            pre.active_removed_at(index, pick).passive.contains(pre.active[index]),
            !pre.active_removed_at(index, pick).active.contains(pre.active[index]),
    {
        let peer = pre.active[index];
        let taken = pre.with_active(swap_removed(pre.active, index)).queued(
            pre.farewell(peer),
        ).queued(ActionView::Disconnect { node: peer }).queued(
            ActionView::Notify { event: Event::NeighborDown { node: peer } },
        );
        lemma_swap_removed(pre.active, index);
        assert(pre.active.contains(peer));
        assert(taken.wf());
        assert(taken.fits_passive(pick));
        assert(taken.passive_admits(peer, taken.passive_added(peer, pick)));
        Self::lemma_passive_admits_wf(taken, peer, taken.passive_added(peer, pick));
        assert(!taken.knows(peer));
        assert(taken.passive_added(peer, pick).passive.last() == peer);
    }

    /// Admitting a peer to the active view keeps the views well-formed.
    pub proof fn lemma_active_admits_wf(pre: Self, p: T, high_priority: bool, post: Self)
        requires
            pre.wf(),
            pre.active_admits(p, high_priority, post),
        ensures
            post.wf(),
    {
        let (a, b) = choose|a: int, b: int|
            pre.fits_active(a) && pre.fits_passive(b) && post == #[trigger] pre.active_added(
                p,
                high_priority,
                a,
                b,
            );
        if !(p == pre.id || pre.active.contains(p)) {
            let room = if pre.evicts_active() {
                pre.active_removed_at(a, b)
            } else {
                pre
            };
            if pre.evicts_active() {
                Self::lemma_active_removed_at_wf(pre, a, b);
                lemma_swap_removed(pre.active, a);
                Self::lemma_active_removed_at_actions(pre, a, b);
            }
            assert(!room.active.contains(p));
            Self::lemma_passive_removed_wf(room, p);
            let cleared = room.passive_removed(p);
            lemma_without(room.passive, p);
            lemma_push_fresh(cleared.active, p);
        }
    }

    /// Whatever the node answers to a message, the views stay well-formed.
    pub proof fn lemma_responds_wf(pre: Self, message: MessageView<T>, post: Self)
        requires
            pre.wf(),
            pre.responds(message, post),
        ensures
            post.wf(),
    {
        match message {
            MessageView::Join { sender } => {
                let admitted = choose|admitted: Self| #[trigger]
                    pre.active_admits(sender, true, admitted) && post == (NodeView {
                        actions: admitted.actions + admitted.join_announcements(sender),
                        ..admitted
                    });
                Self::lemma_active_admits_wf(pre, sender, true, admitted);
            },
            MessageView::ForwardJoin { sender, new_node, ttl } => {
                if ttl == 0 || pre.active.len() == 0 {
                    Self::lemma_active_admits_wf(pre, new_node, true, post);
                } else {
                    let noted = choose|noted: Self| #[trigger]
                        pre.notes_joiner(new_node, ttl, noted) && noted.forwards_or_admits(
                            sender,
                            new_node,
                            ttl,
                            post,
                        );
                    if ttl == pre.options.passive_random_walk_len {
                        Self::lemma_passive_admits_wf(pre, new_node, noted);
                    }
                    if noted.has_candidate(seq![sender]) {
                        lemma_permutation(post.active, noted.active);
                    } else {
                        Self::lemma_active_admits_wf(noted, new_node, true, post);
                    }
                }
            },
            MessageView::Neighbor { sender, high_priority } => {
                if high_priority || !pre.active_full() {
                    Self::lemma_active_admits_wf(pre, sender, false, post);
                }
            },
            MessageView::Shuffle { sender, origin, nodes, ttl } => {
                if ttl == 0 {
                    let answered = choose|answered: Self| #[trigger]
                        pre.answers_shuffle(origin, nodes.len(), answered)
                            && answered.passive_admits_all(nodes, post);
                    lemma_permutation(answered.passive, pre.passive);
                    Self::lemma_passive_admits_all_wf(answered, nodes, post);
                } else {
                    lemma_permutation(post.active, pre.active);
                }
            },
            MessageView::ShuffleReply { sender, nodes } => {
                Self::lemma_passive_admits_all_wf(pre, nodes, post);
            },
            MessageView::Disconnect { sender, alive } => {
                let parted = choose|parted: Self| #[trigger]
                    pre.parts_with(sender, parted) && if alive {
                        parted.passive_admits(sender, post)
                    } else {
                        post == parted
                    };
                if pre.active.contains(sender) {
                    let pick = choose|pick: int|
                        pre.fits_passive(pick) && (#[trigger] pre.active_removed(
                            sender,
                            pick,
                        )).passive_removed(sender).refills(parted);
                    pre.active.index_of_first_ensures(sender);
                    let index = pre.active.index_of_first(sender).unwrap();
                    let removed = pre.active_removed(sender, pick);
                    Self::lemma_active_removed_at_wf(pre, index, pick);
                    Self::lemma_passive_removed_wf(removed, sender);
                    Self::lemma_refills_in_order(removed.passive_removed(sender), parted);
                }
                if alive {
                    Self::lemma_passive_admits_wf(parted, sender, post);
                }
            },
        }
    }

    /// Whatever message the node handles, afterwards it is in neither of
    /// its views, no peer is in both, and no peer is twice in one.
    pub proof fn lemma_handles_wf(pre: Self, message: MessageView<T>, post: Self)
        requires
            pre.wf(),
            pre.handles(message, post),
        ensures
            post.wf(),
    {
        if message is Disconnect {
            Self::lemma_responds_wf(pre, message, post);
        } else {
            let answered = choose|answered: Self| #[trigger]
                pre.responds(message, answered) && post == answered.housekept(message.sender());
            Self::lemma_responds_wf(pre, message, answered);
        }
    }

    /// Starting a shuffle keeps the views well-formed.
    pub proof fn lemma_starts_shuffle_wf(pre: Self, post: Self)
        requires
            pre.wf(),
            pre.starts_shuffle(post),
        ensures
            post.wf(),
    {
        if pre.active.len() > 0 {
            lemma_permutation(post.active, pre.active);
            lemma_permutation(post.passive, pre.passive);
        }
    }
}

} // verus!
