//! Every change of the active view is reported: a peer that has become a
//! neighbor is reported up, and one that is a neighbor no longer is reported
//! down.

use vstd::prelude::*;
use crate::laws::order::{reports_down, reports_up};
use crate::message::MessageView;
use crate::model::NodeView;
use crate::sequences::{lemma_permutation, lemma_push_fresh, lemma_swap_removed};

verus! {

impl<T> NodeView<T> {
    /// Among the actions queued since `pre` there is, for every peer that
    /// has entered the active view since, a report that it is up, and for
    /// every peer that has left it a report that it is down.
    pub open spec fn reported_since(self, pre: Self) -> bool {
        &&& forall|p: T|
            self.active.contains(p) && !pre.active.contains(p) ==> exists|k: int|
                #[trigger] reports_up(self.emitted_since(pre), k, p)
        &&& forall|p: T|
            pre.active.contains(p) && !self.active.contains(p) ==> exists|k: int|
                #[trigger] reports_down(self.emitted_since(pre), k, p)
    }

    /// What is reported of two steps in a row is reported of both together.
    pub proof fn lemma_reported_since_chain(pre: Self, mid: Self, post: Self)
        requires
            mid.in_order_since(pre),
            post.in_order_since(mid),
            mid.reported_since(pre),
            post.reported_since(mid),
        ensures
            post.reported_since(pre),
    {
        let a = mid.emitted_since(pre);
        let b = post.emitted_since(mid);
        let c = post.emitted_since(pre);
        assert(post.actions =~= pre.actions + (a + b));
        assert(c =~= a + b);
        assert forall|p: T| post.active.contains(p) && !pre.active.contains(p) implies exists|
            k: int,
        | #[trigger] reports_up(c, k, p) by {
            if mid.active.contains(p) {
                let k = choose|k: int| #[trigger] reports_up(a, k, p);
                assert(reports_up(c, k, p));
            } else {
                let k = choose|k: int| #[trigger] reports_up(b, k, p);
                assert(reports_up(c, a.len() + k, p));
            }
        }
        assert forall|p: T| pre.active.contains(p) && !post.active.contains(p) implies exists|
            k: int,
        | #[trigger] reports_down(c, k, p) by {
            if !mid.active.contains(p) {
                let k = choose|k: int| #[trigger] reports_down(a, k, p);
                assert(reports_down(c, k, p));
            } else {
                let k = choose|k: int| #[trigger] reports_down(b, k, p);
                assert(reports_down(c, a.len() + k, p));
            }
        }
    }

    /// A state with the neighbors of `pre` has nothing to report.
    pub proof fn lemma_reported_since_same(pre: Self, post: Self)
        requires
            forall|p: T| post.active.contains(p) <==> pre.active.contains(p),
        ensures
            post.reported_since(pre),
    {
    }

    /// The removal of a neighbor is reported.
    pub proof fn lemma_active_removed_at_reported(pre: Self, index: int, pick: int)
        requires
            pre.wf(),
            0 <= index < pre.active.len(),
        ensures
            pre.active_removed_at(index, pick).reported_since(pre),
    {
        let post = pre.active_removed_at(index, pick);
        lemma_swap_removed(pre.active, index);
        Self::lemma_active_removed_at_actions(pre, index, pick);
        let batch = post.emitted_since(pre);
        assert(reports_down(batch, 2, pre.active[index]));
    }

    /// The admission of a peer to the active view is reported, and so is the
    /// eviction that makes room for it.
    pub proof fn lemma_active_admits_reported(pre: Self, p: T, high_priority: bool, post: Self)
        requires
            pre.wf(),
            pre.active_admits(p, high_priority, post),
        ensures
            post.reported_since(pre),
    {
        let (a, b) = choose|a: int, b: int|
            pre.fits_active(a) && pre.fits_passive(b) && post == #[trigger] pre.active_added(
                p,
                high_priority,
                a,
                b,
            );
        Self::lemma_active_added_actions(pre, p, high_priority, a, b);
        let batch = post.emitted_since(pre);
        if !(p == pre.id || pre.active.contains(p)) {
            let room = if pre.evicts_active() {
                pre.active_removed_at(a, b)
            } else {
                pre
            };
            if pre.evicts_active() {
                lemma_swap_removed(pre.active, a);
                Self::lemma_active_removed_at_actions(pre, a, b);
                assert(reports_down(batch, 2, pre.active[a]));
                assert(reports_up(batch, 4, p));
            } else {
                assert(reports_up(batch, 1, p));
            }
            lemma_push_fresh(room.active, p);
            assert(post.active == room.active.push(p));
        }
    }

    /// Whatever the node answers to a message, it reports every change of
    /// its active view.
    pub proof fn lemma_responds_reported(pre: Self, message: MessageView<T>, post: Self)
        requires
            pre.wf(),
            pre.responds(message, post),
        ensures
            post.reported_since(pre),
    {
        match message {
            MessageView::Join { sender } => {
                let admitted = choose|admitted: Self| #[trigger]
                    pre.active_admits(sender, true, admitted) && post == (NodeView {
                        actions: admitted.actions + admitted.join_announcements(sender),
                        ..admitted
                    });
                Self::lemma_active_admits_reported(pre, sender, true, admitted);
                Self::lemma_active_admits_in_order(pre, sender, true, admitted);
                Self::lemma_responds_in_order(pre, message, post);
                Self::lemma_reported_since_same(admitted, post);
                assert(post.in_order_since(admitted)) by {
                    Self::lemma_in_order_since_requests(
                        admitted,
                        admitted.join_announcements(sender),
                        post,
                    );
                }
                Self::lemma_reported_since_chain(pre, admitted, post);
            },
            MessageView::ForwardJoin { sender, new_node, ttl } => {
                if ttl == 0 || pre.active.len() == 0 {
                    Self::lemma_active_admits_reported(pre, new_node, true, post);
                } else {
                    let noted = choose|noted: Self| #[trigger]
                        pre.notes_joiner(new_node, ttl, noted) && noted.forwards_or_admits(
                            sender,
                            new_node,
                            ttl,
                            post,
                        );
                    if ttl == pre.options.passive_random_walk_len {
                        Self::lemma_passive_admits_wf(pre, new_node, noted);
                    }
                    Self::lemma_in_order_since_same(pre, noted);
                    Self::lemma_reported_since_same(pre, noted);
                    if noted.has_candidate(seq![sender]) {
                        lemma_permutation(post.active, noted.active);
                        Self::lemma_reported_since_same(noted, post);
                        Self::lemma_passes_on_in_order(
                            noted,
                            seq![sender],
                            noted.forward_join(new_node, (ttl - 1) as u8),
                            post,
                        );
                    } else {
                        Self::lemma_active_admits_reported(noted, new_node, true, post);
                        Self::lemma_active_admits_in_order(noted, new_node, true, post);
                    }
                    Self::lemma_reported_since_chain(pre, noted, post);
                }
            },
            MessageView::Neighbor { sender, high_priority } => {
                if high_priority || !pre.active_full() {
                    Self::lemma_active_admits_reported(pre, sender, false, post);
                }
            },
            MessageView::Shuffle { sender, origin, nodes, ttl } => {
                if ttl == 0 {
                    let answered = choose|answered: Self| #[trigger]
                        pre.answers_shuffle(origin, nodes.len(), answered)
                            && answered.passive_admits_all(nodes, post);
                    Self::lemma_passive_admits_all_silent(answered, nodes, post);
                } else {
                    lemma_permutation(post.active, pre.active);
                }
            },
            MessageView::ShuffleReply { sender, nodes } => {
                Self::lemma_passive_admits_all_silent(pre, nodes, post);
            },
            MessageView::Disconnect { sender, alive } => {
                let parted = choose|parted: Self| #[trigger]
                    pre.parts_with(sender, parted) && if alive {
                        parted.passive_admits(sender, post)
                    } else {
                        post == parted
                    };
                if pre.active.contains(sender) {
                    let pick = choose|pick: int|
                        pre.fits_passive(pick) && (#[trigger] pre.active_removed(
                            sender,
                            pick,
                        )).passive_removed(sender).refills(parted);
                    pre.active.index_of_first_ensures(sender);
                    let index = pre.active.index_of_first(sender).unwrap();
                    let removed = pre.active_removed(sender, pick);
                    let cleared = removed.passive_removed(sender);
                    Self::lemma_active_removed_at_reported(pre, index, pick);
                    Self::lemma_active_removed_at_actions(pre, index, pick);
                    Self::lemma_in_order_since_same(removed, cleared);
                    Self::lemma_refills_in_order(cleared, parted);
                    Self::lemma_in_order_since_chain(removed, cleared, parted);
                    Self::lemma_reported_since_same(removed, parted);
                    Self::lemma_reported_since_chain(pre, removed, parted);
                }
                Self::lemma_responds_in_order(pre, message, post);
                assert(post.emitted_since(pre) =~= parted.emitted_since(pre));
            },
        }
    }

    /// Whatever message the node handles, it reports every change of its
    /// active view: a peer that has become a neighbor is reported up, and
    /// one that is a neighbor no longer is reported down.
    pub proof fn lemma_handles_reported(pre: Self, message: MessageView<T>, post: Self)
        requires
            pre.wf(),
            pre.handles(message, post),
        ensures
            post.reported_since(pre),
    {
        if message is Disconnect {
            Self::lemma_responds_reported(pre, message, post);
        } else {
            let answered = choose|answered: Self| #[trigger]
                pre.responds(message, answered) && post == answered.housekept(message.sender());
            Self::lemma_responds_reported(pre, message, answered);
            Self::lemma_responds_in_order(pre, message, answered);
            Self::lemma_housekept_in_order(answered, message.sender());
            Self::lemma_reported_since_same(answered, post);
            Self::lemma_reported_since_chain(pre, answered, post);
        }
    }
}

} // verus!
