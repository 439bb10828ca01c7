//! What happens at the boundaries: full views, the passive walk length, an
//! expired shuffle, a repeated join and the disconnect of a stranger.

use vstd::prelude::*;
use crate::action::ActionView;
use crate::laws::order::{is_shuffle_reply, reports_up};
use crate::message::MessageView;
use crate::model::NodeView;
use crate::sequences::{
    excluded_last, first_n, is_permutation, lemma_push_fresh, lemma_swap_removed, lemma_without,
    swap_removed, without,
};

verus! {

impl<T> NodeView<T> {
    /// Admitting a new peer to a full active view evicts exactly one
    /// neighbor: the view keeps its size and holds afterwards the peer and
    /// the neighbors from before but one, which is in the passive view
    /// then, and the node queues one report of a departure and one of an
    /// arrival, each behind its requests.
    pub proof fn lemma_active_admits_when_full(pre: Self, p: T, high_priority: bool, post: Self)
        requires
            pre.wf(),
            pre.evicts_active(),
            p != pre.id,
            !pre.active.contains(p),
            pre.active_admits(p, high_priority, post),
        ensures
            post.active.len() == pre.active.len(),
            exists|evicted: T|
                {
                    &&& pre.active.contains(evicted)
                    &&& post.passive.contains(evicted)
                    &&& forall|q: T|
                        post.active.contains(q) <==> (pre.active.contains(q) && q != evicted) || q
                            == p
                    &&& post.emitted_since(pre) == #[trigger] pre.parting(evicted) + pre.welcome(
                        p,
                        high_priority,
                    )
                },
    {
        let (a, b) = choose|a: int, b: int|
            pre.fits_active(a) && pre.fits_passive(b) && post == #[trigger] pre.active_added(
                p,
                high_priority,
                a,
                b,
            );
        let evicted = pre.active[a];
        let room = pre.active_removed_at(a, b);
        lemma_swap_removed(pre.active, a);
        lemma_push_fresh(room.active, p);
        Self::lemma_active_added_actions(pre, p, high_priority, a, b);
        assert(post.active == room.active.push(p));
        assert(pre.active.contains(evicted));
        Self::lemma_active_removed_at_wf(pre, a, b);
        lemma_without(room.passive, p);
        assert(post.passive == without(room.passive, p));
        assert(post.passive.contains(evicted));
        assert forall|q: T|
            post.active.contains(q) <==> (pre.active.contains(q) && q != evicted) || q == p by {
            assert(room.active.push(p).contains(q) <==> room.active.contains(q) || q == p);
            assert(room.active.contains(q) <==> pre.active.contains(q) && q != evicted);
        }
    }

    /// Offering a new peer to a full passive view evicts exactly one
    /// member: the view keeps its size and holds afterwards the peer and the
    /// members from before but one. Nothing is queued, and nothing else
    /// changes.
    pub proof fn lemma_passive_admits_when_full(pre: Self, p: T, post: Self)
        requires
            pre.wf(),
            pre.evicts_passive(),
            !pre.knows(p),
            pre.passive_admits(p, post),
        ensures
            post.passive.len() == pre.passive.len(),
            post == pre.with_passive(post.passive),
            exists|evicted: T|
                {
                    &&& #[trigger] pre.passive.contains(evicted)
                    &&& forall|q: T|
                        post.passive.contains(q) <==> (pre.passive.contains(q) && q != evicted)
                            || q == p
                },
    {
        let pick = choose|pick: int|
            pre.fits_passive(pick) && post == #[trigger] pre.passive_added(p, pick);
        let evicted = pre.passive[pick];
        let room = swap_removed(pre.passive, pick);
        lemma_swap_removed(pre.passive, pick);
        lemma_push_fresh(room, p);
        assert(pre.passive.contains(evicted));
        assert forall|q: T|
            post.passive.contains(q) <==> (pre.passive.contains(q) && q != evicted) || q
                == p by {
            assert(room.push(p).contains(q) <==> room.contains(q) || q == p);
            assert(room.contains(q) <==> pre.passive.contains(q) && q != evicted);
        }
    }

    /// A node that forwards a `FORWARD_JOIN` whose TTL equals the passive
    /// walk length holds the joiner in its passive view afterwards, unless
    /// the joiner is the node itself or one of its neighbors, and the first
    /// action it queues sends the message on, with one hop less, to a
    /// neighbor other than the sender.
    pub proof fn lemma_forward_join_notes_joiner(
        pre: Self,
        sender: T,
        joiner: T,
        ttl: u8,
        post: Self,
    )
        requires
            ttl == pre.options.passive_random_walk_len,
            ttl != 0,
            pre.has_candidate(seq![sender]),
            joiner != pre.id,
            !pre.active.contains(joiner),
            pre.handles(MessageView::ForwardJoin { sender, new_node: joiner, ttl }, post),
        ensures
            post.passive.contains(joiner),
            post.emitted_since(pre).len() >= 1,
            exists|destination: T|
                {
                    &&& pre.active.contains(destination)
                    &&& destination != sender
                    &&& post.emitted_since(pre)[0] == #[trigger] pre.forwarding(
                        destination,
                        joiner,
                        (ttl - 1) as u8,
                    )
                },
    {
        let message = MessageView::ForwardJoin { sender, new_node: joiner, ttl };
        let answered = choose|answered: Self| #[trigger]
            pre.responds(message, answered) && post == answered.housekept(sender);
        let witness = choose|p: T| #[trigger] pre.active.contains(p) && !seq![sender].contains(p);
        let noted = choose|noted: Self| #[trigger]
            pre.notes_joiner(joiner, ttl, noted) && noted.forwards_or_admits(
                sender,
                joiner,
                ttl,
                answered,
            );
        let pick = choose|pick: int|
            pre.fits_passive(pick) && noted == #[trigger] pre.passive_added(joiner, pick);
        assert(noted.passive.contains(joiner)) by {
            if !pre.knows(joiner) {
                assert(noted.passive.last() == joiner);
            }
        }
        assert(noted.active.contains(witness));
        assert(noted.has_candidate(seq![sender]));
        let forwarded = noted.forward_join(joiner, (ttl - 1) as u8);
        let destination = choose|destination: T|
            {
                &&& noted.active.contains(destination)
                &&& !seq![sender].contains(destination)
                &&& is_permutation(answered.active, noted.active)
                &&& excluded_last(answered.active, seq![sender])
                &&& answered == #[trigger] noted.with_active(answered.active).sending(
                    destination,
                    forwarded,
                )
            };
        assert(seq![sender][0] == sender);
        assert(destination != sender);
        let sent = pre.forwarding(destination, joiner, (ttl - 1) as u8);
        assert(answered.actions == pre.actions.push(sent));
        Self::lemma_housekept_in_order(answered, sender);
        assert(post.actions[pre.actions.len() as int] == sent);
    }

    /// A node that handles a `SHUFFLE` whose TTL is expired replies to the
    /// origin of the shuffle: the first action it queues sends a
    /// `SHUFFLE_REPLY` of the node to `origin`, and it queues no other
    /// `SHUFFLE_REPLY`.
    pub proof fn lemma_expired_shuffle_replies_to_origin(
        pre: Self,
        sender: T,
        origin: T,
        nodes: Seq<T>,
        post: Self,
    )
        requires
            pre.handles(MessageView::Shuffle { sender, origin, nodes, ttl: 0 }, post),
        ensures
            post.emitted_since(pre).len() >= 1,
            is_shuffle_reply(post.emitted_since(pre)[0]),
            post.emitted_since(pre)[0]->destination == origin,
            post.emitted_since(pre)[0]->message.sender() == pre.id,
            forall|k: int|
                1 <= k < post.emitted_since(pre).len() ==> !is_shuffle_reply(
                    #[trigger] post.emitted_since(pre)[k],
                ),
    {
        let message = MessageView::Shuffle { sender, origin, nodes, ttl: 0 };
        let handled = choose|handled: Self| #[trigger]
            pre.responds(message, handled) && post == handled.housekept(sender);
        let answered = choose|answered: Self| #[trigger]
            pre.answers_shuffle(origin, nodes.len(), answered) && answered.passive_admits_all(
                nodes,
                handled,
            );
        Self::lemma_passive_admits_all_silent(answered, nodes, handled);
        let reply = ActionView::Send {
            destination: origin,
            message: MessageView::ShuffleReply {
                sender: pre.id,
                nodes: first_n(answered.passive, nodes.len()),
            },
        };
        assert(handled.actions == pre.actions.push(reply));
        let batch = post.emitted_since(pre);
        assert(batch[0] == reply);
        assert forall|k: int| 1 <= k < batch.len() implies !is_shuffle_reply(
            #[trigger] batch[k],
        ) by {
            assert(batch[k] == post.actions[pre.actions.len() + k]);
        }
    }

    /// A node that handles the same `JOIN` twice in a row reports the
    /// joiner up at most once.
    pub proof fn lemma_join_twice_reports_once(pre: Self, joiner: T, mid: Self, post: Self)
        requires
            pre.handles(MessageView::Join { sender: joiner }, mid),
            mid.handles(MessageView::Join { sender: joiner }, post),
        ensures
            forall|i: int, j: int|
                reports_up(post.emitted_since(pre), i, joiner) && reports_up(
                    post.emitted_since(pre),
                    j,
                    joiner,
                ) ==> i == j,
    {
        let message = MessageView::Join { sender: joiner };
        Self::lemma_handles_in_order(pre, message, mid);
        Self::lemma_handles_in_order(mid, message, post);
        Self::lemma_join_reports(pre, joiner, mid);
        Self::lemma_join_reports(mid, joiner, post);
        let first = mid.emitted_since(pre);
        let second = post.emitted_since(mid);
        let both = post.emitted_since(pre);
        assert(post.actions =~= pre.actions + (first + second));
        assert(both =~= first + second);
        assert forall|k: int| !reports_up(second, k, joiner) by {
            assert(mid.active.contains(joiner) || joiner == mid.id);
        }
        assert forall|i: int, j: int|
            reports_up(both, i, joiner) && reports_up(both, j, joiner) implies i
            == j by {
            if i >= first.len() {
                assert(reports_up(second, i - first.len(), joiner));
            }
            if j >= first.len() {
                assert(reports_up(second, j - first.len(), joiner));
            }
            assert(reports_up(first, i, joiner));
            assert(reports_up(first, j, joiner));
        }
    }

    /// Handling a `JOIN` reports the joiner up at most once, and not at all
    /// where the joiner is the node itself or a neighbor already; afterwards
    /// the joiner is a neighbor unless it is the node itself.
    pub proof fn lemma_join_reports(pre: Self, joiner: T, post: Self)
        requires
            pre.handles(MessageView::Join { sender: joiner }, post),
        ensures
            joiner == post.id || post.active.contains(joiner),
            post.id == pre.id,
            forall|i: int, j: int|
                reports_up(post.emitted_since(pre), i, joiner) && reports_up(
                    post.emitted_since(pre),
                    j,
                    joiner,
                ) ==> i == j,
            joiner == pre.id || pre.active.contains(joiner) ==> forall|k: int|
                !reports_up(post.emitted_since(pre), k, joiner),
    {
        let message = MessageView::Join { sender: joiner };
        let answered = choose|answered: Self| #[trigger]
            pre.responds(message, answered) && post == answered.housekept(joiner);
        let admitted = choose|admitted: Self| #[trigger]
            pre.active_admits(joiner, true, admitted) && answered == (NodeView {
                actions: admitted.actions + admitted.join_announcements(joiner),
                ..admitted
            });
        let (a, b) = choose|a: int, b: int|
            pre.fits_active(a) && pre.fits_passive(b) && admitted == #[trigger] pre.active_added(
                joiner,
                true,
                a,
                b,
            );
        Self::lemma_active_added_actions(pre, joiner, true, a, b);
        let entry = admitted.emitted_since(pre);
        let told = admitted.join_announcements(joiner);
        let kept = post.emitted_since(answered);
        Self::lemma_housekept_in_order(answered, joiner);
        let batch = post.emitted_since(pre);
        assert(post.actions =~= pre.actions + (entry + told + kept));
        assert(batch =~= entry + told + kept);
        if !(joiner == pre.id || pre.active.contains(joiner)) {
            assert(admitted.active.last() == joiner);
        }
        assert(kept.len() == 0);
        assert forall|k: int| reports_up(batch, k, joiner) implies k == entry.len() - 1
            && !(joiner == pre.id || pre.active.contains(joiner)) by {
            if k >= entry.len() {
                assert(batch[k] == told[k - entry.len()]);
            } else {
                assert(batch[k] == entry[k]);
                if pre.evicts_active() && !(joiner == pre.id || pre.active.contains(joiner)) {
                    assert(pre.active[a] != joiner);
                }
            }
        }
    }

    /// Disconnecting a peer that is not a neighbor queues no action and
    /// leaves the active view alone. It changes nothing at all where the
    /// peer is not alive or is known to the node; a stranger that is alive
    /// is offered to the passive view.
    pub proof fn lemma_disconnect_of_stranger(pre: Self, peer: T, alive: bool, post: Self)
        requires
            !pre.active.contains(peer),
            pre.handles(MessageView::Disconnect { sender: peer, alive }, post),
        ensures
            post == pre.with_passive(post.passive),
            !alive || pre.knows(peer) ==> post == pre,
            alive ==> pre.passive_admits(peer, post),
    {
    }
}

} // verus!
