//! The order in which a node queues its actions: every report stands
//! behind the requests that belong to it, and every message names the node
//! as its sender.

use vstd::prelude::*;
use crate::action::ActionView;
use crate::event::Event;
use crate::message::MessageView;
use crate::model::NodeView;
use crate::sequences::{excluded_last, first_n, is_permutation, swap_removed};

verus! {

/// The action at `k` asks to send `peer` a `NEIGHBOR` request.
pub open spec fn greets<T>(batch: Seq<ActionView<T>>, k: int, peer: T) -> bool {
    &&& 0 <= k < batch.len()
    &&& batch[k] matches ActionView::Send { destination, message }
    &&& destination == peer
    &&& message is Neighbor
}

/// The action at `k` asks to send `peer` a `DISCONNECT` notice that says
/// the sender is alive.
pub open spec fn bids_farewell<T>(batch: Seq<ActionView<T>>, k: int, peer: T) -> bool {
    &&& 0 <= k < batch.len()
    &&& batch[k] matches ActionView::Send { destination, message }
    &&& destination == peer
    &&& message matches MessageView::Disconnect { alive, .. }
    &&& alive
}

/// The action at `k` reports that `peer` has become a neighbor.
pub open spec fn reports_up<T>(batch: Seq<ActionView<T>>, k: int, peer: T) -> bool {
    0 <= k < batch.len() && batch[k] == (ActionView::Notify {
        event: Event::NeighborUp { node: peer },
    })
}

/// The action at `k` reports that `peer` is a neighbor no longer.
pub open spec fn reports_down<T>(batch: Seq<ActionView<T>>, k: int, peer: T) -> bool {
    0 <= k < batch.len() && batch[k] == (ActionView::Notify {
        event: Event::NeighborDown { node: peer },
    })
}

/// The action asks to send a `SHUFFLE_REPLY`.
pub open spec fn is_shuffle_reply<T>(action: ActionView<T>) -> bool {
    &&& action matches ActionView::Send { destination, message }
    &&& message is ShuffleReply
}

/// Every report of a new neighbor stands directly behind the `NEIGHBOR`
/// request to that neighbor, and every report of a departed neighbor
/// directly behind the farewell to it and the request to close the
/// connection, in this order.
pub open spec fn in_order<T>(batch: Seq<ActionView<T>>) -> bool {
    forall|k: int|
        0 <= k < batch.len() ==> match #[trigger] batch[k] {
            ActionView::Notify { event: Event::NeighborUp { node } } => greets(batch, k - 1, node),
            ActionView::Notify { event: Event::NeighborDown { node } } => {
                &&& bids_farewell(batch, k - 2, node)
                &&& batch[k - 1] == ActionView::Disconnect { node }
            },
            _ => true,
        }
}

/// Every message that the batch asks to send names `id` as its sender.
pub open spec fn signed_by<T>(batch: Seq<ActionView<T>>, id: T) -> bool {
    forall|k: int|
        0 <= k < batch.len() ==> (#[trigger] batch[k] matches ActionView::Send { message, .. }
            ==> message.sender() == id)
}

/// Two batches that name `id` as the sender of every message do so one
/// after the other.
pub proof fn lemma_signed_by_concat<T>(a: Seq<ActionView<T>>, b: Seq<ActionView<T>>, id: T)
    requires
        signed_by(a, id),
        signed_by(b, id),
    ensures
        signed_by(a + b, id),
{
    let c = a + b;
    assert forall|k: int| 0 <= k < c.len() implies (#[trigger] c[k] matches ActionView::Send {
        message,
        ..
    } ==> message.sender() == id) by {
        if k < a.len() {
            assert(c[k] == a[k]);
        } else {
            assert(c[k] == b[k - a.len()]);
        }
    }
}

/// Two batches that are in order are in order one after the other.
pub proof fn lemma_in_order_concat<T>(a: Seq<ActionView<T>>, b: Seq<ActionView<T>>)
    requires
        in_order(a),
        in_order(b),
    ensures
        in_order(a + b),
{
    let c = a + b;
    assert forall|k: int| 0 <= k < c.len() implies match #[trigger] c[k] {
        ActionView::Notify { event: Event::NeighborUp { node } } => greets(c, k - 1, node),
        ActionView::Notify { event: Event::NeighborDown { node } } => {
            &&& bids_farewell(c, k - 2, node)
            &&& c[k - 1] == ActionView::Disconnect { node }
        },
        _ => true,
    } by {
        if k < a.len() {
            assert(c[k] == a[k]);
            match a[k] {
                ActionView::Notify { event: Event::NeighborUp { node } } => {
                    assert(c[k - 1] == a[k - 1]);
                },
                ActionView::Notify { event: Event::NeighborDown { node } } => {
                    assert(c[k - 1] == a[k - 1]);
                    assert(c[k - 2] == a[k - 2]);
                },
                _ => {},
            }
        } else {
            let j = k - a.len();
            assert(c[k] == b[j]);
            match b[j] {
                ActionView::Notify { event: Event::NeighborUp { node } } => {
                    assert(c[k - 1] == b[j - 1]);
                },
                ActionView::Notify { event: Event::NeighborDown { node } } => {
                    assert(c[k - 1] == b[j - 1]);
                    assert(c[k - 2] == b[j - 2]);
                },
                _ => {},
            }
        }
    }
}

impl<T> NodeView<T> {
    /// The actions that were queued since the node was in the state `pre`.
    pub open spec fn emitted_since(self, pre: Self) -> Seq<ActionView<T>> {
        self.actions.skip(pre.actions.len() as int)
    }

    /// The queue of `pre` was appended to and not touched otherwise, the
    /// identifier and the options are those of `pre`, and what was appended
    /// is in order and names the node as the sender of every message.
    pub open spec fn in_order_since(self, pre: Self) -> bool {
        &&& self.id == pre.id
        &&& self.options == pre.options
        &&& self.actions == pre.actions + self.emitted_since(pre)
        &&& in_order(self.emitted_since(pre))
        &&& signed_by(self.emitted_since(pre), pre.id)
    }

    /// What holds of two steps in a row holds of both together.
    pub proof fn lemma_in_order_since_chain(pre: Self, mid: Self, post: Self)
        requires
            mid.in_order_since(pre),
            post.in_order_since(mid),
        ensures
            post.in_order_since(pre),
    {
        let a = mid.emitted_since(pre);
        let b = post.emitted_since(mid);
        lemma_in_order_concat(a, b);
        assert(post.actions =~= pre.actions + (a + b));
        assert(post.emitted_since(pre) =~= a + b);
        lemma_signed_by_concat(a, b, pre.id);
    }

    /// A state whose queue is that of `pre` has queued nothing since.
    pub proof fn lemma_in_order_since_same(pre: Self, post: Self)
        requires
            post.actions == pre.actions,
            post.id == pre.id,
            post.options == pre.options,
        ensures
            post.in_order_since(pre),
    {
        assert(post.emitted_since(pre) =~= Seq::empty());
        assert(post.actions =~= pre.actions + post.emitted_since(pre));
    }

    /// A request to send a message of the node is in order after whatever
    /// came before.
    pub proof fn lemma_in_order_since_sending(pre: Self, destination: T, message: MessageView<T>)
        requires
            message.sender() == pre.id,
        ensures
            pre.sending(destination, message).in_order_since(pre),
    {
        let post = pre.sending(destination, message);
        assert(post.emitted_since(pre) =~= seq![ActionView::Send { destination, message }]);
        assert(post.actions =~= pre.actions + post.emitted_since(pre));
    }

    /// Offering peers to the passive view queues nothing and leaves the
    /// active view alone.
    pub proof fn lemma_passive_admits_all_silent(pre: Self, nodes: Seq<T>, post: Self)
        requires
            pre.passive_admits_all(nodes, post),
        ensures
            post == pre.with_passive(post.passive),
        decreases nodes.len(),
    {
        if nodes.len() > 0 {
            let mid = choose|mid: Self|
                pre.passive_admits_all(nodes.drop_last(), mid) && #[trigger] mid.passive_admits(
                    nodes.last(),
                    post,
                );
            Self::lemma_passive_admits_all_silent(pre, nodes.drop_last(), mid);
        }
    }

    /// The actions that the removal of `peer` from the active view queues.
    pub open spec fn parting(self, peer: T) -> Seq<ActionView<T>> {
        seq![
            self.farewell(peer),
            ActionView::Disconnect { node: peer },
            ActionView::Notify { event: Event::NeighborDown { node: peer } },
        ]
    }

    /// The actions that the arrival of `peer` in the active view queues.
    pub open spec fn welcome(self, peer: T, high_priority: bool) -> Seq<ActionView<T>> {
        seq![
            self.greeting(peer, high_priority),
            ActionView::Notify { event: Event::NeighborUp { node: peer } },
        ]
    }

    /// The removal of a neighbor queues the farewell to it, the request to
    /// close the connection and the report, in this order, and nothing
    /// else.
    pub proof fn lemma_active_removed_at_actions(pre: Self, index: int, pick: int)
        ensures
            pre.active_removed_at(index, pick).actions == pre.actions + pre.parting(
                pre.active[index],
            ),
            pre.active_removed_at(index, pick).in_order_since(pre),
            pre.active_removed_at(index, pick).active == swap_removed(
                pre.active,
                index,
            ),
    {
        let post = pre.active_removed_at(index, pick);
        let batch = pre.parting(pre.active[index]);
        assert(post.actions =~= pre.actions + batch);
        assert(post.emitted_since(pre) =~= batch);
        assert(in_order(batch)) by {
            assert(bids_farewell(batch, 0, pre.active[index]));
        }
    }

    /// The admission of a peer to the active view queues what the removal
    /// of an evicted neighbor queues, if one is evicted, and then the
    /// `NEIGHBOR` request to the peer and the report of its arrival.
    pub proof fn lemma_active_added_actions(
        pre: Self,
        p: T,
        high_priority: bool,
        pick_active: int,
        pick_passive: int,
    )
        ensures
            ({
                let post = pre.active_added(p, high_priority, pick_active, pick_passive);
                &&& post.in_order_since(pre)
                &&& post.emitted_since(pre) == if p == pre.id || pre.active.contains(p) {
                    Seq::<ActionView<T>>::empty()
                } else if pre.evicts_active() {
                    pre.parting(pre.active[pick_active]) + pre.welcome(p, high_priority)
                } else {
                    pre.welcome(p, high_priority)
                }
            }),
    {
        let post = pre.active_added(p, high_priority, pick_active, pick_passive);
        if p == pre.id || pre.active.contains(p) {
            Self::lemma_in_order_since_same(pre, post);
            assert(post.emitted_since(pre) =~= Seq::empty());
        } else {
            let room = if pre.evicts_active() {
                pre.active_removed_at(pick_active, pick_passive)
            } else {
                pre
            };
            if pre.evicts_active() {
                Self::lemma_active_removed_at_actions(pre, pick_active, pick_passive);
            } else {
                Self::lemma_in_order_since_same(pre, room);
            }
            let batch = pre.welcome(p, high_priority);
            assert(post.actions =~= room.actions + batch);
            assert(post.emitted_since(room) =~= batch);
            assert(in_order(batch)) by {
                assert(greets(batch, 0, p));
            }
            Self::lemma_in_order_since_chain(pre, room, post);
            if pre.evicts_active() {
                assert(post.emitted_since(pre) =~= pre.parting(pre.active[pick_active]) + batch);
            } else {
                assert(post.emitted_since(pre) =~= batch);
            }
        }
    }

    /// Appending a batch of the node's requests, without reports, to the
    /// queue keeps it in order.
    pub proof fn lemma_in_order_since_requests(pre: Self, batch: Seq<ActionView<T>>, post: Self)
        requires
            forall|k: int| 0 <= k < batch.len() ==> !(#[trigger] batch[k] is Notify),
            signed_by(batch, pre.id),
            post == (NodeView { actions: pre.actions + batch, ..pre }),
        ensures
            post.in_order_since(pre),
    {
        assert(post.emitted_since(pre) =~= batch);
    }

    /// Admitting a peer to the active view queues its actions in order.
    pub proof fn lemma_active_admits_in_order(pre: Self, p: T, high_priority: bool, post: Self)
        requires
            pre.active_admits(p, high_priority, post),
        ensures
            post.in_order_since(pre),
    {
        let (a, b) = choose|a: int, b: int|
            pre.fits_active(a) && pre.fits_passive(b) && post == #[trigger] pre.active_added(
                p,
                high_priority,
                a,
                b,
            );
        Self::lemma_active_added_actions(pre, p, high_priority, a, b);
    }

    /// Passing a message of the node on queues one request.
    pub proof fn lemma_passes_on_in_order(
        pre: Self,
        excludes: Seq<T>,
        message: MessageView<T>,
        post: Self,
    )
        requires
            message.sender() == pre.id,
            pre.passes_on(excludes, message, post),
        ensures
            post.in_order_since(pre),
    {
        let destination = choose|destination: T|
            {
                &&& pre.active.contains(destination)
                &&& !excludes.contains(destination)
                &&& is_permutation(post.active, pre.active)
                &&& excluded_last(post.active, excludes)
                &&& post == #[trigger] pre.with_active(post.active).sending(destination, message)
            };
        let turned = pre.with_active(post.active);
        Self::lemma_in_order_since_same(pre, turned);
        Self::lemma_in_order_since_sending(turned, destination, message);
        Self::lemma_in_order_since_chain(pre, turned, post);
    }

    /// Filling the active view queues at most one request.
    pub proof fn lemma_refills_in_order(pre: Self, post: Self)
        requires
            pre.refills(post),
        ensures
            post.in_order_since(pre),
            post.active == pre.active,
            post.passive == pre.passive,
    {
        if !pre.active_full() && pre.passive.len() > 0 {
            let pick = choose|pick: int|
                0 <= pick < pre.passive.len() && post == #[trigger] pre.refill_requested(pick);
            Self::lemma_in_order_since_sending(
                pre,
                pre.passive[pick],
                MessageView::Neighbor { sender: pre.id, high_priority: pre.active.len() == 0 },
            );
        } else {
            Self::lemma_in_order_since_same(pre, post);
        }
    }

    /// The actions of every transition that answers a message are queued in
    /// order, before the node looks at the sender once more.
    pub proof fn lemma_responds_in_order(pre: Self, message: MessageView<T>, post: Self)
        requires
            pre.responds(message, post),
        ensures
            post.in_order_since(pre),
    {
        match message {
            MessageView::Join { sender } => {
                let admitted = choose|admitted: Self| #[trigger]
                    pre.active_admits(sender, true, admitted) && post == (NodeView {
                        actions: admitted.actions + admitted.join_announcements(sender),
                        ..admitted
                    });
                Self::lemma_active_admits_in_order(pre, sender, true, admitted);
                Self::lemma_in_order_since_requests(
                    admitted,
                    admitted.join_announcements(sender),
                    post,
                );
                Self::lemma_in_order_since_chain(pre, admitted, post);
            },
            MessageView::ForwardJoin { sender, new_node, ttl } => {
                if ttl == 0 || pre.active.len() == 0 {
                    Self::lemma_active_admits_in_order(pre, new_node, true, post);
                } else {
                    let noted = choose|noted: Self| #[trigger]
                        pre.notes_joiner(new_node, ttl, noted) && noted.forwards_or_admits(
                            sender,
                            new_node,
                            ttl,
                            post,
                        );
                    Self::lemma_in_order_since_same(pre, noted);
                    if noted.has_candidate(seq![sender]) {
                        Self::lemma_passes_on_in_order(
                            noted,
                            seq![sender],
                            noted.forward_join(new_node, (ttl - 1) as u8),
                            post,
                        );
                    } else {
                        Self::lemma_active_admits_in_order(noted, new_node, true, post);
                    }
                    Self::lemma_in_order_since_chain(pre, noted, post);
                }
            },
            MessageView::Neighbor { sender, high_priority } => {
                if high_priority || !pre.active_full() {
                    Self::lemma_active_admits_in_order(pre, sender, false, post);
                } else {
                    Self::lemma_in_order_since_same(pre, post);
                }
            },
            MessageView::Shuffle { sender, origin, nodes, ttl } => {
                if ttl == 0 {
                    let answered = choose|answered: Self| #[trigger]
                        pre.answers_shuffle(origin, nodes.len(), answered)
                            && answered.passive_admits_all(nodes, post);
                    let turned = pre.with_passive(answered.passive);
                    Self::lemma_in_order_since_same(pre, turned);
                    Self::lemma_in_order_since_sending(
                        turned,
                        origin,
                        MessageView::ShuffleReply {
                            sender: pre.id,
                            nodes: first_n(answered.passive, nodes.len()),
                        },
                    );
                    Self::lemma_in_order_since_chain(pre, turned, answered);
                    Self::lemma_passive_admits_all_silent(answered, nodes, post);
                    Self::lemma_in_order_since_same(answered, post);
                    Self::lemma_in_order_since_chain(pre, answered, post);
                } else if pre.has_candidate(seq![origin, sender]) {
                    Self::lemma_passes_on_in_order(
                        pre,
                        seq![origin, sender],
                        MessageView::Shuffle {
                            sender: pre.id,
                            origin,
                            nodes,
                            ttl: (ttl - 1) as u8,
                        },
                        post,
                    );
                } else {
                    Self::lemma_in_order_since_same(pre, post);
                }
            },
            MessageView::ShuffleReply { sender, nodes } => {
                Self::lemma_passive_admits_all_silent(pre, nodes, post);
                Self::lemma_in_order_since_same(pre, post);
            },
            MessageView::Disconnect { sender, alive } => {
                let parted = choose|parted: Self| #[trigger]
                    pre.parts_with(sender, parted) && if alive {
                        parted.passive_admits(sender, post)
                    } else {
                        post == parted
                    };
                if pre.active.contains(sender) {
                    let pick = choose|pick: int|
                        pre.fits_passive(pick) && (#[trigger] pre.active_removed(
                            sender,
                            pick,
                        )).passive_removed(sender).refills(parted);
                    pre.active.index_of_first_ensures(sender);
                    let index = pre.active.index_of_first(sender).unwrap();
                    let removed = pre.active_removed(sender, pick);
                    let cleared = removed.passive_removed(sender);
                    Self::lemma_active_removed_at_actions(pre, index, pick);
                    Self::lemma_in_order_since_same(removed, cleared);
                    Self::lemma_refills_in_order(cleared, parted);
                    Self::lemma_in_order_since_chain(pre, removed, cleared);
                    Self::lemma_in_order_since_chain(pre, cleared, parted);
                } else {
                    Self::lemma_in_order_since_same(pre, parted);
                }
                Self::lemma_in_order_since_same(parted, post);
                Self::lemma_in_order_since_chain(pre, parted, post);
            },
        }
    }

    /// Looking at the sender once more queues a farewell and the request to
    /// close the connection, or nothing.
    pub proof fn lemma_housekept_in_order(pre: Self, sender: T)
        ensures
            pre.housekept(sender).in_order_since(pre),
    {
        let post = pre.housekept(sender);
        if !pre.active.contains(sender) && pre.id != sender {
            let batch = seq![pre.farewell(sender), ActionView::Disconnect { node: sender }];
            assert(post.actions =~= pre.actions + batch);
            Self::lemma_in_order_since_requests(pre, batch, post);
        } else {
            Self::lemma_in_order_since_same(pre, post);
        }
    }

    /// Whatever a message leads to, the actions that handling it queues
    /// are in order: every report that a neighbor is up follows the
    /// `NEIGHBOR` request to it, and every report that a neighbor is down
    /// follows the farewell to it and the request to close the connection.
    pub proof fn lemma_handles_in_order(pre: Self, message: MessageView<T>, post: Self)
        requires
            pre.handles(message, post),
        ensures
            post.in_order_since(pre),
    {
        if message is Disconnect {
            Self::lemma_responds_in_order(pre, message, post);
        } else {
            let answered = choose|answered: Self| #[trigger]
                pre.responds(message, answered) && post == answered.housekept(message.sender());
            Self::lemma_responds_in_order(pre, message, answered);
            Self::lemma_housekept_in_order(answered, message.sender());
            Self::lemma_in_order_since_chain(pre, answered, post);
        }
    }

    /// Starting a shuffle queues at most one request.
    pub proof fn lemma_starts_shuffle_in_order(pre: Self, post: Self)
        requires
            pre.starts_shuffle(post),
        ensures
            post.in_order_since(pre),
    {
        if pre.active.len() == 0 {
            Self::lemma_in_order_since_same(pre, post);
        } else {
            let turned = pre.with_active(post.active).with_passive(post.passive);
            Self::lemma_in_order_since_same(pre, turned);
            let target = choose|target: T|
                post == #[trigger] turned.sending(
                    target,
                    MessageView::Shuffle {
                        sender: pre.id,
                        origin: pre.id,
                        nodes: post.shuffle_payload(),
                        ttl: pre.options.active_random_walk_len,
                    },
                );
            Self::lemma_in_order_since_sending(
                turned,
                target,
                MessageView::Shuffle {
                    sender: pre.id,
                    origin: pre.id,
                    nodes: post.shuffle_payload(),
                    ttl: pre.options.active_random_walk_len,
                },
            );
            Self::lemma_in_order_since_chain(pre, turned, post);
        }
    }

    /// Reassuring the neighbors queues requests only.
    pub proof fn lemma_synced_in_order(pre: Self)
        ensures
            pre.synced().in_order_since(pre),
    {
        Self::lemma_in_order_since_requests(
            pre,
            pre.active.map_values(pre.reassuring()),
            pre.synced(),
        );
    }
}

} // verus!
