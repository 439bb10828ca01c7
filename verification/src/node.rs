//! The node: the two views, the queue of actions and the transitions that
//! the host drives.

use vstd::prelude::*;
use rand::Rng;
use rand::rngs::ThreadRng;
use std::collections::VecDeque;
use crate::action::{Action, ActionView};
use crate::identity::{copy_node, same_node, value_semantic};
use crate::message::{
    DisconnectMessage, ForwardJoinMessage, JoinMessage, MessageView, NeighborMessage,
    ProtocolMessage, ShuffleMessage, ShuffleReplyMessage,
};
use crate::model::NodeView;
use crate::node_options::NodeOptions;
use crate::random::{random_index, shuffle, swap_entries};
use crate::sequences::{
    first_n, is_permutation, lemma_permutation, lemma_permutation_single, lemma_push_fresh,
    lemma_swap_removed, lemma_swapped, lemma_without, swap_removed, without,
};
use crate::ttl::TimeToLive;

verus! {

/// HyParView node.
///
/// # Note on the guarantee of the connectivity of a HyParView cluster
///
/// Because HyParView is a probabilistic algorithm, there is no strong
/// guarantee about the connectivity of the nodes which make up a cluster.
/// If the membership of a cluster changes drastically, there is a (usually
/// very low) possibility that the cluster will be split into sub-clusters.
///
/// For recovering the connectivity, an upper layer has to provide some kind
/// of connectivity checking mechanism. When a division is detected,
/// `Node::join` should be called on some nodes.
#[derive(Debug)]
pub struct Node<T, R = ThreadRng> {
    id: T,
    actions: VecDeque<Action<T>>,
    active_view: Vec<T>,
    passive_view: Vec<T>,
    rng: R,
    options: NodeOptions,
}

/// What a queue of actions asks for, oldest first.
pub open spec fn pending<T>(actions: Seq<Action<T>>) -> Seq<ActionView<T>> {
    actions.map_values(|a: Action<T>| a@)
}

impl<T, R> View for Node<T, R> {
    type V = NodeView<T>;

    closed spec fn view(&self) -> NodeView<T> {
        NodeView {
            id: self.id,
            active: self.active_view@,
            passive: self.passive_view@,
            actions: pending(self.actions@),
            options: self.options,
        }
    }
}

/// Appends to `actions` the request to send `message` to `destination`.
fn send<T>(actions: &mut VecDeque<Action<T>>, destination: T, message: ProtocolMessage<T>)
    ensures
        pending(final(actions)@) == pending(old(actions)@).push(
            ActionView::Send { destination, message: message@ },
        ),
{
    enqueue(actions, Action::send(destination, message));
}

/// Appends `action` to `actions`.
fn enqueue<T>(actions: &mut VecDeque<Action<T>>, action: Action<T>)
    ensures
        pending(final(actions)@) == pending(old(actions)@).push(action@),
{
    actions.push_back(action);
    assert(pending(actions@) =~= pending(old(actions)@).push(action@));
}

/// Tells whether `node` is among `excludes`.
fn is_excluded<T: Clone + Eq>(excludes: &[&T], node: &T) -> (r: bool)
    requires
        value_semantic::<T>(),
    ensures
        r == excludes@.unref().contains(*node),
{
    let mut k: usize = 0;
    while k < excludes.len()
        invariant
            k <= excludes@.len(),
            value_semantic::<T>(),
            forall|j: int| 0 <= j < k ==> excludes@.unref()[j] != *node,
        decreases excludes@.len() - k,
    {
        if same_node(excludes[k], node) {
            assert(excludes@.unref()[k as int] == *node);
            return true;
        }
        k += 1;
    }
    false
}

/// Finds the place of `node` in `view`.
fn position<T: Clone + Eq>(view: &Vec<T>, node: &T) -> (r: Option<usize>)
    requires
        value_semantic::<T>(),
    ensures
        match r {
            Some(i) => view@.index_of_first(*node) == Some(i as int) && i < view@.len()
                && view@[i as int] == *node,
            None => view@.index_of_first(*node) is None && !view@.contains(*node),
        },
{
    proof {
        view@.index_of_first_ensures(*node);
    }
    let mut i: usize = 0;
    while i < view.len()
        invariant
            i <= view@.len(),
            value_semantic::<T>(),
            forall|j: int| 0 <= j < i ==> view@[j] != *node,
        decreases view@.len() - i,
    {
        if same_node(&view[i], node) {
            proof {
                view@.index_of_first_ensures(*node);
            }
            return Some(i);
        }
        i += 1;
    }
    None
}

/// Copies the first `count` entries of `view`, or all of them where it has
/// fewer.
fn leading<T: Clone + Eq>(view: &Vec<T>, count: usize) -> (r: Vec<T>)
    requires
        value_semantic::<T>(),
    ensures
        r@ == first_n(view@, count as nat),
{
    let mut r: Vec<T> = Vec::new();
    let mut k: usize = 0;
    while k < view.len() && k < count
        invariant
            k <= view@.len(),
            k <= count,
            value_semantic::<T>(),
            r@ == view@.take(k as int),
        decreases view@.len() - k,
    {
        r.push(copy_node(&view[k]));
        assert(r@ =~= view@.take(k + 1));
        k += 1;
    }
    assert(view@.take(view@.len() as int) =~= view@);
    r
}

/// Tells whether `node` is in `view`.
fn holds<T: Clone + Eq>(view: &Vec<T>, node: &T) -> (r: bool)
    requires
        value_semantic::<T>(),
    ensures
        r == view@.contains(*node),
{
    position(view, node).is_some()
}

/// What a node offers without drawing from its random source.
impl<T, R> Node<T, R> where T: Clone + Eq {
    /// The node's type of identifiers behaves as values do, and the views
    /// are well-formed: the node is in neither, no peer is in both, and no
    /// peer is twice in one. Every node is made so and stays so.
    pub open spec fn wf(&self) -> bool {
        value_semantic::<T>() && self@.wf()
    }

    /// Returns a reference to the ID of the instance.
    pub fn id(&self) -> (r: &T)
        ensures
            *r == self@.id,
    {
        &self.id
    }

    /// Returns a reference to the active view of the instance.
    pub fn active_view(&self) -> (r: &[T])
        ensures
            r@ == self@.active,
    {
        self.active_view.as_slice()
    }

    /// Returns a reference to the passive view of the instance.
    pub fn passive_view(&self) -> (r: &[T])
        ensures
            r@ == self@.passive,
    {
        self.passive_view.as_slice()
    }

    /// Returns a reference to the options of the instance.
    pub fn options(&self) -> (r: &NodeOptions)
        ensures
            *r == self@.options,
    {
        &self.options
    }

    /// Returns a mutable reference to the options of the instance.
    ///
    /// What the caller writes through it are the node's options from then
    /// on; the views and the queue stay as they are.
    pub fn options_mut(&mut self) -> (r: &mut NodeOptions)
        ensures
            *r == old(self)@.options,
            final(self)@ == (NodeView { options: *final(r), ..old(self)@ }),
            old(self).wf() ==> final(self).wf(),
    {
        &mut self.options
    }

    /// Starts joining the cluster to which `contact_node_id` belongs.
    ///
    /// This method may be called multiple times for recovering cluster
    /// connectivity if an upper layer detects that the cluster is split into
    /// sub-clusters.
    pub fn join(&mut self, contact_node_id: T)
        requires
            old(self).wf(),
        ensures
            final(self).wf(),
            final(self)@ == old(self)@.sending(
                contact_node_id,
                MessageView::Join { sender: old(self)@.id },
            ),
            final(self)@.in_order_since(old(self)@),
            final(self)@.not_outgrown_since(old(self)@),
            old(self)@.within_limits() ==> final(self)@.within_limits(),
    {
        let request = ProtocolMessage::join(&self.id);
        send(&mut self.actions, contact_node_id, request);
        proof {
            NodeView::lemma_in_order_since_sending(
                old(self)@,
                contact_node_id,
                MessageView::Join { sender: old(self)@.id },
            );
        }
    }

    /// Sends `NEIGHBOR` message to the members of the active view for
    /// maintaining the symmetry property of the view.
    ///
    /// This method should be invoked periodically to keep the symmetry
    /// property of the active view.
    pub fn sync_active_view(&mut self)
        requires
            old(self).wf(),
        ensures
            final(self).wf(),
            final(self)@ == old(self)@.synced(),
            final(self)@.in_order_since(old(self)@),
            final(self)@.not_outgrown_since(old(self)@),
            old(self)@.within_limits() ==> final(self)@.within_limits(),
    {
        let ghost start = self@;
        let mut k: usize = 0;
        while k < self.active_view.len()
            invariant
                k <= self.active_view@.len(),
                self.wf(),
                start == old(self)@,
                self@ == (NodeView {
                    actions: start.actions + start.active.take(k as int).map_values(
                        start.reassuring(),
                    ),
                    ..start
                }),
            decreases self.active_view@.len() - k,
        {
            let message = ProtocolMessage::neighbor(&self.id, false);
            send(&mut self.actions, copy_node(&self.active_view[k]), message);
            proof {
                let done = start.active.take(k as int);
                let greet = start.reassuring();
                assert(start.active.take(k + 1) =~= done.push(start.active[k as int]));
                assert(done.push(start.active[k as int]).map_values(greet) =~= done.map_values(
                    greet,
                ).push(greet(start.active[k as int])));
                assert(self@.actions =~= start.actions + start.active.take(k + 1).map_values(
                    greet,
                ));
            }
            k += 1;
        }
        assert(start.active.take(k as int) =~= start.active);
        proof {
            NodeView::lemma_synced_in_order(start);
        }
    }

    /// Polls the next action that the node wants to execute.
    ///
    /// For running the HyParView node correctly, this method must be called
    /// periodically and the resulting action must be executed by the caller.
    pub fn poll_action(&mut self) -> (r: Option<Action<T>>)
        ensures
            old(self).wf() ==> final(self).wf(),
            final(self)@ == old(self)@.polled(),
            r is Some <==> old(self)@.actions.len() > 0,
            r matches Some(action) ==> action@ == old(self)@.actions[0],
    {
        let r = self.actions.pop_front();
        assert(self@.actions =~= old(self)@.polled().actions);
        r
    }

    /// Tells whether the active view has reached its limit.
    fn is_active_view_full(&self) -> (r: bool)
        ensures
            r == self@.active_full(),
    {
        self.active_view.len() >= self.options.max_active_view_size as usize
    }

    /// Tells whether the passive view has reached its limit.
    fn is_passive_view_full(&self) -> (r: bool)
        ensures
            r == self@.passive_full(),
    {
        self.passive_view.len() >= self.options.max_passive_view_size as usize
    }

    /// Takes `node` out of the passive view if it is there.
    fn remove_from_passive_view(&mut self, node: &T)
        requires
            old(self).wf(),
        ensures
            final(self).wf(),
            final(self)@ == old(self)@.passive_removed(*node),
    {
        proof {
            lemma_without(self.passive_view@, *node);
        }
        let index = position(&self.passive_view, node);
        if let Some(i) = index {
            self.passive_view.swap_remove(i);
        }
        assert(self@.passive =~= without(old(self)@.passive, *node));
    }

    /// Sends a farewell to `node` and has the connection closed, unless
    /// `node` is a neighbor or the node itself.
    fn disconnect_unless_active_view_node(&mut self, node: T)
        requires
            old(self).wf(),
        ensures
            final(self).wf(),
            final(self)@ == old(self)@.housekept(node),
    {
        if !holds(&self.active_view, &node) && !same_node(&self.id, &node) {
            let farewell = ProtocolMessage::disconnect(&self.id, true);
            send(&mut self.actions, copy_node(&node), farewell);
            enqueue(&mut self.actions, Action::disconnect(node));
        }
    }
}

/// How a node is made, and what it does with its random source.
impl<T, R> Node<T, R> where T: Clone + Eq, R: Rng {
    /// Makes a new `Node` instance with the default options.
    pub fn new(node_id: T, rng: R) -> (r: Self)
        requires
            value_semantic::<T>(),
        ensures
            r.wf(),
            r@ == (NodeView {
                id: node_id,
                active: Seq::empty(),
                passive: Seq::empty(),
                actions: Seq::empty(),
                options: NodeOptions::spec_default(),
            }),
    {
        Node::with_options(node_id, rng, NodeOptions::default())
    }

    /// Makes a new `Node` instance with the given options.
    ///
    /// A limit of zero is taken as it is: a view with such a limit never
    /// holds more than one peer, since it evicts whenever it has a member.
    pub fn with_options(node_id: T, rng: R, options: NodeOptions) -> (r: Self)
        requires
            value_semantic::<T>(),
        ensures
            r.wf(),
            r@ == (NodeView {
                id: node_id,
                active: Seq::empty(),
                passive: Seq::empty(),
                actions: Seq::empty(),
                options,
            }),
    {
        let active_view = Vec::with_capacity(options.max_active_view_size as usize);
        let passive_view = Vec::with_capacity(options.max_passive_view_size as usize);
        let r = Node {
            id: node_id,
            actions: VecDeque::new(),
            active_view,
            passive_view,
            rng,
            options,
        };
        assert(r@.actions =~= Seq::empty());
        r
    }

    /// Removes `node` from the active view of the instance.
    ///
    /// If there is no such node, it is simply ignored. If the active view is
    /// then not full, a node randomly selected from the passive view is
    /// asked to become a neighbor.
    ///
    /// This is what handling a `DISCONNECT` message of `node` does. A node
    /// that is alive is kept in the passive view.
    pub fn disconnect(&mut self, node: &T, alive: bool)
        requires
            old(self).wf(),
        ensures
            final(self).wf(),
            old(self)@.handles(MessageView::Disconnect { sender: *node, alive }, final(self)@),
            final(self)@.in_order_since(old(self)@),
            final(self)@.not_outgrown_since(old(self)@),
            old(self)@.within_limits() ==> final(self)@.within_limits(),
    {
        let notice = ProtocolMessage::disconnect(node, alive);
        self.handle_protocol_message(notice);
    }

    /// Handles the given incoming message.
    ///
    /// What the node does is what `NodeView::handles` describes: the handler
    /// of the message's kind changes the views and queues its actions, and
    /// a sender that is then neither a neighbor nor the node itself is sent
    /// a farewell, unless the message is a `DISCONNECT`. Where the node
    /// draws at random, every index that it can draw is possible.
    pub fn handle_protocol_message(&mut self, message: ProtocolMessage<T>)
        requires
            old(self).wf(),
        ensures
            final(self).wf(),
            old(self)@.handles(message@, final(self)@),
            final(self)@.in_order_since(old(self)@),
            final(self)@.not_outgrown_since(old(self)@),
            old(self)@.within_limits() ==> final(self)@.within_limits(),
    {
        let sender = copy_node(message.sender());
        match message {
            ProtocolMessage::Join(m) => self.handle_join(m),
            ProtocolMessage::ForwardJoin(m) => self.handle_forward_join(m),
            ProtocolMessage::Neighbor(m) => self.handle_neighbor(m),
            ProtocolMessage::Shuffle(m) => self.handle_shuffle(m),
            ProtocolMessage::ShuffleReply(m) => self.handle_shuffle_reply(m),
            ProtocolMessage::Disconnect(m) => {
                self.handle_disconnect(m);
                proof {
                    NodeView::lemma_handles_in_order(old(self)@, message@, self@);
                    NodeView::lemma_handles_not_outgrown(old(self)@, message@, self@);
                }
                return ;
            },
        }
        assert(old(self)@.responds(message@, self@));
        self.disconnect_unless_active_view_node(sender);
        proof {
            NodeView::lemma_handles_in_order(old(self)@, message@, self@);
            NodeView::lemma_handles_not_outgrown(old(self)@, message@, self@);
        }
    }

    /// Starts shuffling the passive view of the instance.
    ///
    /// This method should be invoked periodically to keep the passive view fresh.
    ///
    /// A node without neighbors does nothing. Otherwise it shuffles both
    /// views and sends one neighbor, drawn before the shuffle, a `SHUFFLE`
    /// request that carries the leading members of both views and the node
    /// itself.
    pub fn shuffle_passive_view(&mut self)
        requires
            old(self).wf(),
        ensures
            final(self).wf(),
            old(self)@.starts_shuffle(final(self)@),
            final(self)@.in_order_since(old(self)@),
            final(self)@.not_outgrown_since(old(self)@),
            old(self)@.within_limits() ==> final(self)@.within_limits(),
    {
        if let Some(node) = self.select_random_from_active_view() {
            shuffle(&mut self.rng, &mut self.passive_view);
            shuffle(&mut self.rng, &mut self.active_view);
            proof {
                lemma_permutation(self.passive_view@, old(self)@.passive);
                lemma_permutation(self.active_view@, old(self)@.active);
            }
            let pv_size = self.options.shuffle_passive_view_size as usize;
            let av_size = self.options.shuffle_active_view_size as usize;

            let mut nodes = leading(&self.passive_view, pv_size);
            let mut head = leading(&self.active_view, av_size);
            nodes.append(&mut head);
            nodes.push(copy_node(&self.id));

            let ttl = TimeToLive::new(self.options.active_random_walk_len);
            assert(nodes@ =~= self@.shuffle_payload());
            let message = ProtocolMessage::shuffle(&self.id, copy_node(&self.id), nodes, ttl);
            send(&mut self.actions, node, message);
            assert(self@ == old(self)@.with_active(self@.active).with_passive(
                self@.passive,
            ).sending(
                node,
                MessageView::Shuffle {
                    sender: old(self)@.id,
                    origin: old(self)@.id,
                    nodes: self@.shuffle_payload(),
                    ttl: old(self)@.options.active_random_walk_len,
                },
            ));
        }
        proof {
            NodeView::lemma_starts_shuffle_in_order(old(self)@, self@);
            NodeView::lemma_starts_shuffle_not_outgrown(old(self)@, self@);
        }
    }

    /// Asks a node of the passive view to become a neighbor if the active
    /// view is not full.
    ///
    /// This method should be invoked periodically to keep the active view full.
    ///
    /// The peer that is asked stays in the passive view; it becomes a
    /// neighbor when its own `NEIGHBOR` request arrives. The request has
    /// high priority where the node has no neighbor at all.
    pub fn fill_active_view(&mut self)
        requires
            old(self).wf(),
        ensures
            final(self).wf(),
            old(self)@.refills(final(self)@),
            final(self)@.in_order_since(old(self)@),
            final(self)@.not_outgrown_since(old(self)@),
            old(self)@.within_limits() ==> final(self)@.within_limits(),
    {
        proof {
            if old(self)@.active_full() || old(self)@.passive.len() == 0 {
                NodeView::lemma_refills_in_order(old(self)@, old(self)@);
            }
        }
        if !self.is_active_view_full() {
            if let Some((node, pick)) = self.select_random_from_passive_view() {
                let high_priority = self.active_view.is_empty();
                let message = ProtocolMessage::neighbor(&self.id, high_priority);
                send(&mut self.actions, node, message);
                assert(self@ == old(self)@.refill_requested(pick@));
                proof {
                    NodeView::lemma_refills_in_order(old(self)@, self@);
                }
            }
        }
    }

    /// Admits the joiner and tells every other neighbor of it.
    fn handle_join(&mut self, m: JoinMessage<T>)
        requires
            old(self).wf(),
        ensures
            final(self).wf(),
            old(self)@.join_handled(m.sender, final(self)@),
    {
        let new_node = m.sender;
        self.add_to_active_view(copy_node(&new_node), true);
        let ttl = TimeToLive::new(self.options.active_random_walk_len);
        let ghost admitted = self@;
        let ghost other = NodeView::other_than(new_node);
        let ghost announce = admitted.announcing(new_node);
        assert(old(self)@.active_admits(new_node, true, admitted));
        let mut k: usize = 0;
        while k < self.active_view.len()
            invariant
                k <= self.active_view@.len(),
                self.wf(),
                ttl@ == admitted.options.active_random_walk_len,
                other == NodeView::other_than(new_node),
                announce == admitted.announcing(new_node),
                self@ == (NodeView {
                    actions: admitted.actions + admitted.active.take(k as int).filter(
                        other,
                    ).map_values(announce),
                    ..admitted
                }),
            decreases self.active_view@.len() - k,
        {
            proof {
                let done = admitted.active.take(k as int);
                let n = admitted.active[k as int];
                assert(admitted.active.take(k + 1) =~= done.push(n));
                done.lemma_filter_push(n, other);
                assert(done.filter(other).push(n).map_values(announce) =~= done.filter(
                    other,
                ).map_values(announce).push(announce(n)));
            }
            if !same_node(&self.active_view[k], &new_node) {
                let message = ProtocolMessage::forward_join(&self.id, copy_node(&new_node), ttl);
                send(&mut self.actions, copy_node(&self.active_view[k]), message);
                assert(self@.actions =~= admitted.actions + admitted.active.take(k + 1).filter(
                    other,
                ).map_values(announce));
            }
            k += 1;
        }
        assert(admitted.active.take(k as int) =~= admitted.active);
    }

    /// Ends the walk of a joiner here or sends it one hop further.
    fn handle_forward_join(&mut self, m: ForwardJoinMessage<T>)
        requires
            old(self).wf(),
        ensures
            final(self).wf(),
            old(self)@.forward_join_handled(m.sender, m.new_node, m.ttl@, final(self)@),
    {
        if m.ttl.is_expired() || self.active_view.is_empty() {
            self.add_to_active_view(m.new_node, true);
        } else {
            if m.ttl.as_u8() == self.options.passive_random_walk_len {
                self.add_to_passive_view(copy_node(&m.new_node));
            }
            let ghost noted = self@;
            assert(old(self)@.notes_joiner(m.new_node, m.ttl@, noted));
            let excludes = [&m.sender];
            assert(excludes@.unref() =~= seq![m.sender]);
            if let Some(next) = self.select_forwarding_destination(excludes.as_slice()) {
                let message = ProtocolMessage::forward_join(
                    &self.id,
                    m.new_node,
                    m.ttl.decrement(),
                );
                send(&mut self.actions, next, message);
                assert(self@ == noted.with_active(self@.active).sending(
                    next,
                    noted.forward_join(m.new_node, (m.ttl@ - 1) as u8),
                ));
                assert(noted.has_candidate(seq![m.sender]));
            } else {
                proof {
                    assert forall|j: int| 0 <= j < noted.active.len() implies noted.active[j]
                        == m.sender by {
                        assert(noted.active.contains(noted.active[j]));
                        assert(seq![m.sender].contains(noted.active[j]));
                    }
                    lemma_permutation_single(self@.active, noted.active, m.sender);
                    assert(self@ == noted);
                }
                self.add_to_active_view(m.new_node, true);
                assert(noted.active_admits(m.new_node, true, self@));
            }
            assert(noted.forwards_or_admits(m.sender, m.new_node, m.ttl@, self@));
        }
    }

    /// Admits the sender where its priority is high or there is room.
    fn handle_neighbor(&mut self, m: NeighborMessage<T>)
        requires
            old(self).wf(),
        ensures
            final(self).wf(),
            old(self)@.neighbor_handled(m.sender, m.high_priority, final(self)@),
    {
        if m.high_priority || !self.is_active_view_full() {
            self.add_to_active_view(m.sender, false);
        }
    }

    /// Answers a shuffle whose walk ends here, or sends it one hop further.
    fn handle_shuffle(&mut self, m: ShuffleMessage<T>)
        requires
            old(self).wf(),
        ensures
            final(self).wf(),
            old(self)@.shuffle_handled(m.sender, m.origin, m.nodes@, m.ttl@, final(self)@),
    {
        if m.ttl.is_expired() {
            shuffle(&mut self.rng, &mut self.passive_view);
            proof {
                lemma_permutation(self.passive_view@, old(self)@.passive);
            }
            let reply_nodes = leading(&self.passive_view, m.nodes.len());
            let message = ProtocolMessage::shuffle_reply(&self.id, reply_nodes);
            send(&mut self.actions, copy_node(&m.origin), message);
            assert(old(self)@.answers_shuffle(m.origin, m.nodes@.len(), self@));
            self.add_shuffled_nodes_to_passive_view(m.nodes);
        } else {
            let excludes = [&m.origin, &m.sender];
            assert(excludes@.unref() =~= seq![m.origin, m.sender]);
            if let Some(destination) = self.select_forwarding_destination(excludes.as_slice()) {
                let message = ProtocolMessage::shuffle(
                    &self.id,
                    m.origin,
                    m.nodes,
                    m.ttl.decrement(),
                );
                send(&mut self.actions, destination, message);
                assert(self@ == old(self)@.with_active(self@.active).sending(
                    destination,
                    MessageView::Shuffle {
                        sender: old(self)@.id,
                        origin: m.origin,
                        nodes: m.nodes@,
                        ttl: (m.ttl@ - 1) as u8,
                    },
                ));
                assert(old(self)@.has_candidate(seq![m.origin, m.sender]));
            }
        }
    }

    /// Offers the nodes of the reply to the passive view.
    fn handle_shuffle_reply(&mut self, m: ShuffleReplyMessage<T>)
        requires
            old(self).wf(),
        ensures
            final(self).wf(),
            old(self)@.passive_admits_all(m.nodes@, final(self)@),
    {
        self.add_shuffled_nodes_to_passive_view(m.nodes);
    }

    /// Parts with the sender and keeps it in reserve only if it is alive.
    fn handle_disconnect(&mut self, m: DisconnectMessage<T>)
        requires
            old(self).wf(),
        ensures
            final(self).wf(),
            old(self)@.disconnect_handled(m.sender, m.alive, final(self)@),
    {
        proof {
            self@.active.index_of_first_ensures(m.sender);
        }
        let removed = self.remove_from_active_view(&m.sender);
        if removed.0 {
            self.remove_from_passive_view(&m.sender);
            let ghost cleared = self@;
            self.fill_active_view();
            assert(cleared == old(self)@.active_removed(m.sender, removed.1@).passive_removed(
                m.sender,
            ));
            assert(cleared.refills(self@));
        }
        assert(old(self)@.parts_with(m.sender, self@));
        if m.alive {
            self.add_to_passive_view(m.sender);
        }
    }

    /// Offers the nodes to the passive view, first to last.
    fn add_shuffled_nodes_to_passive_view(&mut self, nodes: Vec<T>)
        requires
            old(self).wf(),
        ensures
            final(self).wf(),
            old(self)@.passive_admits_all(nodes@, final(self)@),
    {
        let mut k: usize = 0;
        while k < nodes.len()
            invariant
                k <= nodes@.len(),
                self.wf(),
                old(self)@.passive_admits_all(nodes@.take(k as int), self@),
            decreases nodes@.len() - k,
        {
            let ghost before = self@;
            self.add_to_passive_view(copy_node(&nodes[k]));
            proof {
                let next = nodes@.take(k + 1);
                assert(next.drop_last() =~= nodes@.take(k as int));
                assert(next.last() == nodes@[k as int]);
                assert(before.passive_admits(next.last(), self@));
                assert(old(self)@.passive_admits_all(next.drop_last(), before));
            }
            k += 1;
        }
        assert(nodes@.take(k as int) =~= nodes@);
    }

    /// Admits `node` to the active view, unless it is the node itself or a
    /// member already. Returns the indices drawn for evictions.
    fn add_to_active_view(&mut self, node: T, high_priority: bool) -> (picks: Ghost<(int, int)>)
        requires
            old(self).wf(),
        ensures
            final(self).wf(),
            old(self)@.fits_active(picks@.0),
            old(self)@.fits_passive(picks@.1),
            final(self)@ == old(self)@.active_added(node, high_priority, picks@.0, picks@.1),
    {
        if holds(&self.active_view, &node) || same_node(&node, &self.id) {
            return Ghost((0, 0));
        }
        let picks = self.remove_random_from_active_view_if_full();
        proof {
            lemma_without(self.passive_view@, node);
        }
        self.remove_from_passive_view(&node);
        proof {
            lemma_push_fresh(self.active_view@, node);
        }
        self.active_view.push(copy_node(&node));
        let greeting = ProtocolMessage::neighbor(&self.id, high_priority);
        send(&mut self.actions, copy_node(&node), greeting);
        enqueue(&mut self.actions, Action::notify_up(node));
        picks
    }

    /// Offers `node` to the passive view, which takes it unless the node
    /// knows it already. Returns the index drawn for an eviction.
    fn add_to_passive_view(&mut self, node: T) -> (pick: Ghost<int>)
        requires
            old(self).wf(),
        ensures
            final(self).wf(),
            old(self)@.fits_passive(pick@),
            final(self)@ == old(self)@.passive_added(node, pick@),
    {
        if holds(&self.active_view, &node) || holds(&self.passive_view, &node) || same_node(
            &node,
            &self.id,
        ) {
            return Ghost(0);
        }
        let pick = self.remove_random_from_passive_view_if_full();
        proof {
            lemma_push_fresh(self.passive_view@, node);
        }
        self.passive_view.push(node);
        pick
    }

    /// Takes `node` out of the active view if it is there, and says whether
    /// it was. Returns also the index drawn for an eviction from the passive
    /// view.
    fn remove_from_active_view(&mut self, node: &T) -> (r: (bool, Ghost<int>))
        requires
            old(self).wf(),
        ensures
            final(self).wf(),
            old(self)@.fits_passive(r.1@),
            r.0 == old(self)@.active.contains(*node),
            final(self)@ == old(self)@.active_removed(*node, r.1@),
    {
        let index = position(&self.active_view, node);
        if let Some(i) = index {
            let pick = self.remove_from_active_view_by_index(i);
            (true, pick)
        } else {
            (false, Ghost(0))
        }
    }

    /// Takes the member at `i` out of the active view, tells it and the
    /// host, and offers it to the passive view. Returns the index drawn for
    /// an eviction from the passive view.
    fn remove_from_active_view_by_index(&mut self, i: usize) -> (pick: Ghost<int>)
        requires
            old(self).wf(),
            i < old(self)@.active.len(),
        ensures
            final(self).wf(),
            old(self)@.fits_passive(pick@),
            final(self)@ == old(self)@.active_removed_at(i as int, pick@),
    {
        proof {
            lemma_swap_removed(self.active_view@, i as int);
        }
        let node = self.active_view.swap_remove(i);
        let farewell = ProtocolMessage::disconnect(&self.id, true);
        send(&mut self.actions, copy_node(&node), farewell);
        enqueue(&mut self.actions, Action::disconnect(copy_node(&node)));
        enqueue(&mut self.actions, Action::notify_down(copy_node(&node)));
        self.add_to_passive_view(node)
    }

    /// Evicts a member of the active view, drawn at random, if the view is
    /// full. Returns the indices drawn.
    fn remove_random_from_active_view_if_full(&mut self) -> (picks: Ghost<(int, int)>)
        requires
            old(self).wf(),
        ensures
            final(self).wf(),
            old(self)@.fits_active(picks@.0),
            old(self)@.fits_passive(picks@.1),
            final(self)@ == if old(self)@.evicts_active() {
                old(self)@.active_removed_at(picks@.0, picks@.1)
            } else {
                old(self)@
            },
    {
        if self.is_active_view_full() && self.active_view.len() > 0 {
            let i = random_index(&mut self.rng, self.active_view.len());
            let pick = self.remove_from_active_view_by_index(i);
            Ghost((i as int, pick@))
        } else {
            Ghost((0, 0))
        }
    }

    /// Evicts a member of the passive view, drawn at random, if the view is
    /// full. Returns the index drawn.
    fn remove_random_from_passive_view_if_full(&mut self) -> (pick: Ghost<int>)
        requires
            old(self).wf(),
        ensures
            final(self).wf(),
            old(self)@.fits_passive(pick@),
            final(self)@ == if old(self)@.evicts_passive() {
                old(self)@.with_passive(swap_removed(old(self)@.passive, pick@))
            } else {
                old(self)@
            },
    {
        if self.is_passive_view_full() && self.passive_view.len() > 0 {
            let i = random_index(&mut self.rng, self.passive_view.len());
            proof {
                lemma_swap_removed(self.passive_view@, i as int);
            }
            self.passive_view.swap_remove(i);
            Ghost(i as int)
        } else {
            Ghost(0)
        }
    }

    /// Picks a member of the active view at random.
    fn select_random_from_active_view(&mut self) -> (r: Option<T>)
        requires
            old(self).wf(),
        ensures
            final(self).wf(),
            final(self)@ == old(self)@,
            match r {
                Some(node) => old(self)@.active.contains(node),
                None => old(self)@.active.len() == 0,
            },
    {
        if self.active_view.is_empty() {
            None
        } else {
            let i = random_index(&mut self.rng, self.active_view.len());
            let node = copy_node(&self.active_view[i]);
            assert(self.active_view@.contains(node));
            Some(node)
        }
    }

    /// Picks a member of the passive view at random.
    fn select_random_from_passive_view(&mut self) -> (r: Option<(T, Ghost<int>)>)
        requires
            old(self).wf(),
        ensures
            final(self).wf(),
            final(self)@ == old(self)@,
            match r {
                Some((node, pick)) => 0 <= pick@ < old(self)@.passive.len() && node == old(
                    self,
                )@.passive[pick@],
                None => old(self)@.passive.len() == 0,
            },
    {
        if self.passive_view.is_empty() {
            None
        } else {
            let i = random_index(&mut self.rng, self.passive_view.len());
            Some((copy_node(&self.passive_view[i]), Ghost(i as int)))
        }
    }

    /// Picks at random a member of the active view that is not among
    /// `excludes`, or reports that there is none. The members that it
    /// passes over move to the end of the view.
    fn select_forwarding_destination(&mut self, excludes: &[&T]) -> (r: Option<T>)
        requires
            old(self).wf(),
        ensures
            final(self).wf(),
            old(self)@.sets_aside(excludes@.unref(), final(self)@),
            match r {
                Some(destination) => old(self)@.active.contains(destination)
                    && !excludes@.unref().contains(destination),
                None => !old(self)@.has_candidate(excludes@.unref()),
            },
    {
        let mut i: usize = 0;
        let mut tail: usize = self.active_view.len();
        while i < tail
            invariant
                i <= tail <= self.active_view@.len(),
                value_semantic::<T>(),
                is_permutation(self.active_view@, old(self)@.active),
                self@ == old(self)@.with_active(self.active_view@),
                forall|j: int|
                    0 <= j < i ==> !excludes@.unref().contains(#[trigger] self.active_view@[j]),
                forall|j: int|
                    tail <= j < self.active_view@.len() ==> excludes@.unref().contains(
                        #[trigger] self.active_view@[j],
                    ),
            decreases tail - i,
        {
            if is_excluded(excludes, &self.active_view[i]) {
                proof {
                    lemma_swapped(self.active_view@, i as int, tail - 1);
                }
                swap_entries(&mut self.active_view, i, tail - 1);
                tail -= 1;
            } else {
                i += 1;
            }
        }
        proof {
            lemma_permutation(self.active_view@, old(self)@.active);
        }
        if tail == 0 {
            None
        } else {
            let k = random_index(&mut self.rng, tail);
            let destination = copy_node(&self.active_view[k]);
            assert(self.active_view@.contains(destination));
            Some(destination)
        }
    }
}

} // verus!
