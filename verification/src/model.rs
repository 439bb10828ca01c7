//! The mathematical model of a node: its two views and its queue of pending
//! actions as sequences, and each transition of the protocol as a function
//! or a relation on that model.
//!
//! Where a transition draws at random, the function that describes it takes
//! the drawn index as an argument, and the relation beside it holds of every
//! index that can be drawn.

use vstd::prelude::*;
use crate::action::ActionView;
use crate::event::Event;
use crate::message::MessageView;
use crate::node_options::NodeOptions;
use crate::sequences::{excluded_last, first_n, is_permutation, swap_removed, without};

verus! {

/// The state of a node as the protocol sees it.
pub struct NodeView<T> {
    /// The node's own identifier.
    pub id: T,
    /// The active view, in the order in which the node keeps it.
    pub active: Seq<T>,
    /// The passive view, in the order in which the node keeps it.
    pub passive: Seq<T>,
    /// The actions that the host has not polled yet, oldest first.
    pub actions: Seq<ActionView<T>>,
    /// The tuning parameters in force.
    pub options: NodeOptions,
}

impl<T> NodeView<T> {
    /// The node is in neither view, no peer is in both, and no peer is twice
    /// in one.
    pub open spec fn wf(self) -> bool {
        &&& !self.active.contains(self.id)
        &&& !self.passive.contains(self.id)
        &&& self.active.no_duplicates()
        &&& self.passive.no_duplicates()
        &&& forall|p: T| #[trigger] self.active.contains(p) ==> !self.passive.contains(p)
    }

    /// Each view may hold a peer, and neither holds more than the options
    /// allow.
    pub open spec fn within_limits(self) -> bool {
        &&& 1 <= self.options.max_active_view_size
        &&& 1 <= self.options.max_passive_view_size
        &&& self.active.len() <= self.options.max_active_view_size
        &&& self.passive.len() <= self.options.max_passive_view_size
    }

    /// `p` is the node itself or a member of one of its views.
    pub open spec fn knows(self, p: T) -> bool {
        p == self.id || self.active.contains(p) || self.passive.contains(p)
    }

    /// The active view has reached its limit.
    pub open spec fn active_full(self) -> bool {
        self.active.len() >= self.options.max_active_view_size
    }

    /// The passive view has reached its limit.
    pub open spec fn passive_full(self) -> bool {
        self.passive.len() >= self.options.max_passive_view_size
    }

    /// Admitting a peer to the active view evicts a member first: the view
    /// is full and has a member to evict.
    pub open spec fn evicts_active(self) -> bool {
        self.active_full() && self.active.len() > 0
    }

    /// Admitting a peer to the passive view evicts a member first.
    pub open spec fn evicts_passive(self) -> bool {
        self.passive_full() && self.passive.len() > 0
    }

    /// The state with `action` appended to the queue.
    pub open spec fn queued(self, action: ActionView<T>) -> Self {
        NodeView { actions: self.actions.push(action), ..self }
    }

    /// The state with the request to send `message` to `destination`
    /// appended to the queue.
    pub open spec fn sending(self, destination: T, message: MessageView<T>) -> Self {
        self.queued(ActionView::Send { destination, message })
    }

    /// The state with another order of the active view.
    pub open spec fn with_active(self, active: Seq<T>) -> Self {
        NodeView { active, ..self }
    }

    /// The state with another order of the passive view.
    pub open spec fn with_passive(self, passive: Seq<T>) -> Self {
        NodeView { passive, ..self }
    }

    /// The notice that tells `peer` that this node drops it.
    pub open spec fn farewell(self, peer: T) -> ActionView<T> {
        ActionView::Send {
            destination: peer,
            message: MessageView::Disconnect { sender: self.id, alive: true },
        }
    }

    /// The request that offers `peer` a place among this node's neighbors.
    pub open spec fn greeting(self, peer: T, high_priority: bool) -> ActionView<T> {
        ActionView::Send {
            destination: peer,
            message: MessageView::Neighbor { sender: self.id, high_priority },
        }
    }

    /// `pick` can be drawn where a member of the passive view is evicted.
    pub open spec fn fits_passive(self, pick: int) -> bool {
        self.evicts_passive() ==> 0 <= pick < self.passive.len()
    }

    /// `pick` can be drawn where a member of the active view is evicted.
    pub open spec fn fits_active(self, pick: int) -> bool {
        self.evicts_active() ==> 0 <= pick < self.active.len()
    }

    /// The state after `p` was offered to the passive view, where `pick` is
    /// the index drawn for an eviction.
    ///
    /// A peer that the node knows already changes nothing. Otherwise a full
    /// view loses the member at `pick`, and `p` is appended. No action is
    /// queued.
    pub open spec fn passive_added(self, p: T, pick: int) -> Self {
        if self.knows(p) {
            self
        } else if self.evicts_passive() {
            self.with_passive(swap_removed(self.passive, pick).push(p))
        } else {
            self.with_passive(self.passive.push(p))
        }
    }

    /// Offering `p` to the passive view can lead from this state to `post`.
    pub open spec fn passive_admits(self, p: T, post: Self) -> bool {
        exists|pick: int| self.fits_passive(pick) && post == #[trigger] self.passive_added(p, pick)
    }

    /// Offering the peers of `nodes` to the passive view, one after the
    /// other, can lead from this state to `post`.
    pub open spec fn passive_admits_all(self, nodes: Seq<T>, post: Self) -> bool
        decreases nodes.len(),
    {
        if nodes.len() == 0 {
            post == self
        } else {
            exists|mid: Self|
                self.passive_admits_all(nodes.drop_last(), mid) && #[trigger] mid.passive_admits(
                    nodes.last(),
                    post,
                )
        }
    }

    /// The state after `p` was taken out of the passive view.
    pub open spec fn passive_removed(self, p: T) -> Self {
        self.with_passive(without(self.passive, p))
    }

    /// The state after the member at `index` left the active view, where
    /// `pick` is the index drawn for an eviction from the passive view.
    ///
    /// The member is swap-removed. The node queues a farewell to it, the
    /// request to close the connection and the event that reports it down,
    /// in this order, and then offers it to the passive view.
    pub open spec fn active_removed_at(self, index: int, pick: int) -> Self {
        let peer = self.active[index];
        self.with_active(swap_removed(self.active, index)).queued(self.farewell(peer)).queued(
            ActionView::Disconnect { node: peer },
        ).queued(ActionView::Notify { event: Event::NeighborDown { node: peer } }).passive_added(
            peer,
            pick,
        )
    }

    /// The state after `p` left the active view, if it was there, where
    /// `pick` is the index drawn for an eviction from the passive view.
    pub open spec fn active_removed(self, p: T, pick: int) -> Self {
        match self.active.index_of_first(p) {
            Some(index) => self.active_removed_at(index, pick),
            None => self,
        }
    }

    /// The state after `p` was admitted to the active view, where
    /// `pick_active` and `pick_passive` are the indices drawn for evictions.
    ///
    /// The node itself and a member of the active view change nothing.
    /// Otherwise a full view first loses the member at `pick_active`; `p`
    /// leaves the passive view if it is there and is appended to the active
    /// view; the node queues a greeting to it and then the event that
    /// reports it up.
    pub open spec fn active_added(
        self,
        p: T,
        high_priority: bool,
        pick_active: int,
        pick_passive: int,
    ) -> Self {
        if p == self.id || self.active.contains(p) {
            self
        } else {
            let room = if self.evicts_active() {
                self.active_removed_at(pick_active, pick_passive)
            } else {
                self
            };
            let cleared = room.passive_removed(p);
            cleared.with_active(cleared.active.push(p)).queued(
                self.greeting(p, high_priority),
            ).queued(ActionView::Notify { event: Event::NeighborUp { node: p } })
        }
    }

    /// Admitting `p` to the active view can lead from this state to `post`.
    pub open spec fn active_admits(self, p: T, high_priority: bool, post: Self) -> bool {
        exists|pick_active: int, pick_passive: int|
            self.fits_active(pick_active) && self.fits_passive(pick_passive) && post
                == #[trigger] self.active_added(p, high_priority, pick_active, pick_passive)
    }

    /// The state after the node answered a message of `sender`: a sender
    /// that is neither the node nor one of its neighbors gets a farewell,
    /// and the connection to it is closed.
    pub open spec fn housekept(self, sender: T) -> Self {
        if !self.active.contains(sender) && self.id != sender {
            self.queued(self.farewell(sender)).queued(ActionView::Disconnect { node: sender })
        } else {
            self
        }
    }

    /// `post` is this state with the active view in another order, in which
    /// the neighbors among `excludes` stand behind the others.
    pub open spec fn sets_aside(self, excludes: Seq<T>, post: Self) -> bool {
        &&& is_permutation(post.active, self.active)
        &&& excluded_last(post.active, excludes)
        &&& post == self.with_active(post.active)
    }

    /// Some member of the active view is not among `excludes`.
    pub open spec fn has_candidate(self, excludes: Seq<T>) -> bool {
        exists|p: T| #[trigger] self.active.contains(p) && !excludes.contains(p)
    }

    /// Passing `message` on to a neighbor that is not among `excludes` can
    /// lead from this state to `post`: the neighbors among `excludes` are
    /// set aside, and the request to send `message` to one of the others is
    /// queued.
    pub open spec fn passes_on(
        self,
        excludes: Seq<T>,
        message: MessageView<T>,
        post: Self,
    ) -> bool {
        exists|destination: T|
            {
                &&& self.active.contains(destination)
                &&& !excludes.contains(destination)
                &&& is_permutation(post.active, self.active)
                &&& excluded_last(post.active, excludes)
                &&& post == #[trigger] self.with_active(post.active).sending(destination, message)
            }
    }

    /// The `FORWARD_JOIN` message by which this node passes `joiner` on
    /// with `ttl` hops left.
    pub open spec fn forward_join(self, joiner: T, ttl: u8) -> MessageView<T> {
        MessageView::ForwardJoin { sender: self.id, new_node: joiner, ttl }
    }

    /// The request to send `destination` the `FORWARD_JOIN` message by which
    /// this node passes `joiner` on with `ttl` hops left.
    pub open spec fn forwarding(self, destination: T, joiner: T, ttl: u8) -> ActionView<T> {
        ActionView::Send { destination, message: self.forward_join(joiner, ttl) }
    }

    /// Tells the peers other than `joiner` from `joiner`.
    pub open spec fn other_than(joiner: T) -> spec_fn(T) -> bool {
        |n: T| n != joiner
    }

    /// Makes for a neighbor the request that tells it of `joiner`: a
    /// `FORWARD_JOIN` with the full walk length.
    pub open spec fn announcing(self, joiner: T) -> spec_fn(T) -> ActionView<T> {
        |n: T| self.forwarding(n, joiner, self.options.active_random_walk_len)
    }

    /// The requests by which the node tells its neighbors other than
    /// `joiner` of `joiner`, in the order of the active view.
    pub open spec fn join_announcements(self, joiner: T) -> Seq<ActionView<T>> {
        self.active.filter(Self::other_than(joiner)).map_values(self.announcing(joiner))
    }

    /// Answering a `JOIN` of `joiner` can lead from this state to `post`:
    /// the joiner is admitted to the active view with high priority, and
    /// every other neighbor is sent a `FORWARD_JOIN` with the full walk
    /// length.
    pub open spec fn join_handled(self, joiner: T, post: Self) -> bool {
        exists|admitted: Self| #[trigger]
            self.active_admits(joiner, true, admitted) && post == (NodeView {
                actions: admitted.actions + admitted.join_announcements(joiner),
                ..admitted
            })
    }

    /// A node that forwards a `FORWARD_JOIN` whose TTL equals the passive
    /// walk length offers the joiner to its passive view.
    pub open spec fn notes_joiner(self, joiner: T, ttl: u8, post: Self) -> bool {
        if ttl == self.options.passive_random_walk_len {
            self.passive_admits(joiner, post)
        } else {
            post == self
        }
    }

    /// The walk goes on to a neighbor other than `sender` with one hop
    /// less, or ends here, with the joiner admitted, where there is no such
    /// neighbor.
    pub open spec fn forwards_or_admits(self, sender: T, joiner: T, ttl: u8, post: Self) -> bool {
        if self.has_candidate(seq![sender]) {
            self.passes_on(seq![sender], self.forward_join(joiner, (ttl - 1) as u8), post)
        } else {
            self.active_admits(joiner, true, post)
        }
    }

    /// Answering a `FORWARD_JOIN` can lead from this state to `post`.
    ///
    /// An expired TTL or an empty active view ends the walk: the joiner is
    /// admitted to the active view with high priority. Otherwise the node
    /// notes the joiner if the TTL asks for it, and forwards the message.
    pub open spec fn forward_join_handled(self, sender: T, joiner: T, ttl: u8, post: Self) -> bool {
        if ttl == 0 || self.active.len() == 0 {
            self.active_admits(joiner, true, post)
        } else {
            exists|noted: Self| #[trigger]
                self.notes_joiner(joiner, ttl, noted) && noted.forwards_or_admits(
                    sender,
                    joiner,
                    ttl,
                    post,
                )
        }
    }

    /// Answering a `NEIGHBOR` request can lead from this state to `post`:
    /// the sender is admitted where its priority is high or the active view
    /// has room, and nothing happens otherwise.
    pub open spec fn neighbor_handled(self, sender: T, high_priority: bool, post: Self) -> bool {
        if high_priority || !self.active_full() {
            self.active_admits(sender, false, post)
        } else {
            post == self
        }
    }

    /// Replying to a shuffle of `origin` that carried `count` nodes can lead
    /// from this state to `post`: the passive view is shuffled, and its
    /// first `count` members, or all of them, are sent to `origin`.
    pub open spec fn answers_shuffle(self, origin: T, count: nat, post: Self) -> bool {
        &&& is_permutation(post.passive, self.passive)
        &&& post == self.with_passive(post.passive).sending(
            origin,
            MessageView::ShuffleReply { sender: self.id, nodes: first_n(post.passive, count) },
        )
    }

    /// Answering a `SHUFFLE` can lead from this state to `post`.
    ///
    /// With an expired TTL the walk ends here: the node replies to `origin`
    /// and offers the nodes of the message to its passive view. Otherwise
    /// the message goes on, with one hop less, to a neighbor that is neither
    /// `origin` nor `sender`; where there is none it is dropped. Either way
    /// the two are set aside in the active view.
    pub open spec fn shuffle_handled(
        self,
        sender: T,
        origin: T,
        nodes: Seq<T>,
        ttl: u8,
        post: Self,
    ) -> bool {
        if ttl == 0 {
            exists|answered: Self| #[trigger]
                self.answers_shuffle(origin, nodes.len(), answered) && answered.passive_admits_all(
                    nodes,
                    post,
                )
        } else if self.has_candidate(seq![origin, sender]) {
            self.passes_on(
                seq![origin, sender],
                MessageView::Shuffle { sender: self.id, origin, nodes, ttl: (ttl - 1) as u8 },
                post,
            )
        } else {
            self.sets_aside(seq![origin, sender], post)
        }
    }

    /// The state after the node asked the member at `pick` of its passive
    /// view to become a neighbor; the request has high priority where the
    /// node has no neighbor left.
    pub open spec fn refill_requested(self, pick: int) -> Self {
        self.queued(self.greeting(self.passive[pick], self.active.len() == 0))
    }

    /// Filling the active view can lead from this state to `post`: where
    /// the active view has room and the passive view a member, one member
    /// of the passive view is asked to become a neighbor. It stays in the
    /// passive view.
    pub open spec fn refills(self, post: Self) -> bool {
        if !self.active_full() && self.passive.len() > 0 {
            exists|pick: int|
                0 <= pick < self.passive.len() && post == #[trigger] self.refill_requested(pick)
        } else {
            post == self
        }
    }

    /// Parting with `peer` can lead from this state to `post`: a neighbor
    /// leaves the active view and both views' record of it is cleared, and
    /// the node tries to fill the gap; any other peer changes nothing.
    pub open spec fn parts_with(self, peer: T, post: Self) -> bool {
        if self.active.contains(peer) {
            exists|pick: int|
                self.fits_passive(pick) && (#[trigger] self.active_removed(
                    peer,
                    pick,
                )).passive_removed(peer).refills(post)
        } else {
            post == self
        }
    }

    /// Answering a `DISCONNECT` of `sender` can lead from this state to
    /// `post`: the node parts with the sender, and keeps it in the passive
    /// view only if it is alive.
    pub open spec fn disconnect_handled(self, sender: T, alive: bool, post: Self) -> bool {
        exists|parted: Self| #[trigger]
            self.parts_with(sender, parted) && if alive {
                parted.passive_admits(sender, post)
            } else {
                post == parted
            }
    }

    /// What the handler of the message's kind can do to this state, before
    /// the node looks at the sender once more.
    pub open spec fn responds(self, message: MessageView<T>, post: Self) -> bool {
        match message {
            MessageView::Join { sender } => self.join_handled(sender, post),
            MessageView::ForwardJoin { sender, new_node, ttl } => self.forward_join_handled(
                sender,
                new_node,
                ttl,
                post,
            ),
            MessageView::Neighbor { sender, high_priority } => self.neighbor_handled(
                sender,
                high_priority,
                post,
            ),
            MessageView::Shuffle { sender, origin, nodes, ttl } => self.shuffle_handled(
                sender,
                origin,
                nodes,
                ttl,
                post,
            ),
            MessageView::ShuffleReply { sender, nodes } => self.passive_admits_all(nodes, post),
            MessageView::Disconnect { sender, alive } => self.disconnect_handled(
                sender,
                alive,
                post,
            ),
        }
    }

    /// Handling `message` can lead from this state to `post`.
    ///
    /// The handler of the message's kind runs. After every message but a
    /// `DISCONNECT`, a sender that is then neither the node nor a neighbor
    /// is sent a farewell and disconnected.
    pub open spec fn handles(self, message: MessageView<T>, post: Self) -> bool {
        if message is Disconnect {
            self.responds(message, post)
        } else {
            exists|answered: Self| #[trigger]
                self.responds(message, answered) && post == answered.housekept(message.sender())
        }
    }

    /// The nodes that a shuffle request of this node carries: the leading
    /// members of the passive and of the active view, as many as the options
    /// say, and the node itself.
    pub open spec fn shuffle_payload(self) -> Seq<T> {
        first_n(self.passive, self.options.shuffle_passive_view_size as nat) + first_n(
            self.active,
            self.options.shuffle_active_view_size as nat,
        ) + seq![self.id]
    }

    /// Starting a shuffle can lead from this state to `post`: a node
    /// without neighbors does nothing; otherwise both views are shuffled and
    /// one neighbor is sent a `SHUFFLE` with the payload and the full walk
    /// length.
    pub open spec fn starts_shuffle(self, post: Self) -> bool {
        if self.active.len() == 0 {
            post == self
        } else {
            exists|target: T|
                {
                    &&& self.active.contains(target)
                    &&& is_permutation(post.active, self.active)
                    &&& is_permutation(post.passive, self.passive)
                    &&& post == #[trigger] self.with_active(post.active).with_passive(
                        post.passive,
                    ).sending(
                        target,
                        MessageView::Shuffle {
                            sender: self.id,
                            origin: self.id,
                            nodes: post.shuffle_payload(),
                            ttl: self.options.active_random_walk_len,
                        },
                    )
                }
        }
    }

    /// The state after the host polled once: the oldest action has left the
    /// queue, if there was one.
    pub open spec fn polled(self) -> Self {
        if self.actions.len() > 0 {
            NodeView { actions: self.actions.drop_first(), ..self }
        } else {
            self
        }
    }

    /// Makes for a neighbor a `NEIGHBOR` request of low priority.
    pub open spec fn reassuring(self) -> spec_fn(T) -> ActionView<T> {
        |n: T| self.greeting(n, false)
    }

    /// The state after every neighbor was sent a `NEIGHBOR` request of low
    /// priority, in the order of the active view.
    pub open spec fn synced(self) -> Self {
        NodeView { actions: self.actions + self.active.map_values(self.reassuring()), ..self }
    }
}

} // verus!
