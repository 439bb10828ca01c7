use hyparview::message::{
    DisconnectMessage, ForwardJoinMessage, JoinMessage, NeighborMessage, ProtocolMessage,
    ShuffleMessage, ShuffleReplyMessage,
};
use hyparview::{Action, Event, Node, NodeOptions, TimeToLive};
use rand::{Error, RngCore};

/// A random source that hands out the given numbers and then zeros.
struct Script {
    values: Vec<u64>,
    at: usize,
}

impl RngCore for Script {
    fn next_u32(&mut self) -> u32 {
        self.next_u64() as u32
    }

    fn next_u64(&mut self) -> u64 {
        let value = if self.at < self.values.len() { self.values[self.at] } else { 0 };
        self.at += 1;
        value
    }

    fn fill_bytes(&mut self, dest: &mut [u8]) {
        for byte in dest.iter_mut() {
            *byte = self.next_u64() as u8;
        }
    }

    fn try_fill_bytes(&mut self, dest: &mut [u8]) -> Result<(), Error> {
        self.fill_bytes(dest);
        Ok(())
    }
}

/// The number that makes a draw from `len` indices come out as `index`.
fn draw(index: u64, len: u64) -> u64 {
    assert!(index < len);
    if index == 0 {
        0
    } else {
        (((index as u128) << 64) / (len as u128)) as u64 + 1
    }
}

type TestNode = Node<&'static str, Script>;

fn node(options: NodeOptions, draws: Vec<u64>) -> TestNode {
    Node::with_options("me", Script { values: draws, at: 0 }, options)
}

fn drain(node: &mut TestNode) -> Vec<Action<&'static str>> {
    let mut actions = Vec::new();
    while let Some(action) = node.poll_action() {
        actions.push(action);
    }
    actions
}

fn neighbor(sender: &'static str, high_priority: bool) -> ProtocolMessage<&'static str> {
    ProtocolMessage::Neighbor(NeighborMessage { sender, high_priority })
}

fn shuffle_reply(
    sender: &'static str,
    nodes: Vec<&'static str>,
) -> ProtocolMessage<&'static str> {
    ProtocolMessage::ShuffleReply(ShuffleReplyMessage { sender, nodes })
}

/// A node with the given neighbors and passive members, in this order, and
/// an empty queue.
fn settled(
    options: NodeOptions,
    active: &[&'static str],
    passive: &[&'static str],
    draws: Vec<u64>,
) -> TestNode {
    let mut node = node(options, draws);
    for peer in active {
        node.handle_protocol_message(neighbor(peer, true));
    }
    if !passive.is_empty() {
        node.handle_protocol_message(shuffle_reply(active[0], passive.to_vec()));
    }
    drain(&mut node);
    assert_eq!(node.active_view(), active);
    assert_eq!(node.passive_view(), passive);
    node
}

fn farewell(peer: &'static str) -> Action<&'static str> {
    Action::send(peer, ProtocolMessage::disconnect(&"me", true))
}

fn greeting(peer: &'static str, high_priority: bool) -> Action<&'static str> {
    Action::send(peer, ProtocolMessage::neighbor(&"me", high_priority))
}

#[test]
fn new_node_is_empty() {
    let mut node = Node::new("me", Script { values: vec![], at: 0 });
    assert_eq!(*node.id(), "me");
    assert!(node.active_view().is_empty());
    assert!(node.passive_view().is_empty());
    assert_eq!(node.options().max_active_view_size, 4);
    assert_eq!(node.options().max_passive_view_size, 24);
    assert_eq!(node.options().active_random_walk_len, 5);
    assert!(node.poll_action().is_none());
}

#[test]
fn with_options_keeps_the_options() {
    let options = NodeOptions {
        max_active_view_size: 7,
        max_passive_view_size: 9,
        shuffle_active_view_size: 1,
        shuffle_passive_view_size: 3,
        active_random_walk_len: 6,
        passive_random_walk_len: 4,
    };
    let node = node(options, vec![]);
    assert_eq!(node.options().max_active_view_size, 7);
    assert_eq!(node.options().max_passive_view_size, 9);
    assert_eq!(node.options().shuffle_active_view_size, 1);
    assert_eq!(node.options().shuffle_passive_view_size, 3);
    assert_eq!(node.options().active_random_walk_len, 6);
    assert_eq!(node.options().passive_random_walk_len, 4);
}

#[test]
fn options_mut_changes_the_options_only() {
    let mut node = settled(NodeOptions::default(), &["a", "b"], &["p"], vec![]);
    node.options_mut().active_random_walk_len = 9;
    node.options_mut().max_active_view_size = 3;
    assert_eq!(node.options().active_random_walk_len, 9);
    assert_eq!(node.options().max_active_view_size, 3);
    assert_eq!(node.options().max_passive_view_size, 24);
    assert_eq!(node.active_view(), ["a", "b"]);
    assert_eq!(node.passive_view(), ["p"]);
    assert!(node.poll_action().is_none());

    node.handle_protocol_message(ProtocolMessage::Join(JoinMessage { sender: "j" }));
    assert_eq!(
        drain(&mut node),
        vec![
            greeting("j", true),
            Action::notify_up("j"),
            Action::send("a", ProtocolMessage::forward_join(&"me", "j", TimeToLive::new(9))),
            Action::send("b", ProtocolMessage::forward_join(&"me", "j", TimeToLive::new(9))),
        ]
    );
}

#[test]
fn join_asks_the_contact() {
    let mut node = node(NodeOptions::default(), vec![]);
    node.join("contact");
    node.join("other");
    assert_eq!(
        drain(&mut node),
        vec![
            Action::send("contact", ProtocolMessage::join(&"me")),
            Action::send("other", ProtocolMessage::join(&"me")),
        ]
    );
    assert!(node.active_view().is_empty());
    assert!(node.passive_view().is_empty());
}

#[test]
fn actions_are_polled_oldest_first() {
    let mut node = node(NodeOptions::default(), vec![]);
    node.join("first");
    node.join("second");
    node.join("third");
    assert_eq!(node.poll_action(), Some(Action::send("first", ProtocolMessage::join(&"me"))));
    assert_eq!(node.poll_action(), Some(Action::send("second", ProtocolMessage::join(&"me"))));
    node.join("fourth");
    assert_eq!(node.poll_action(), Some(Action::send("third", ProtocolMessage::join(&"me"))));
    assert_eq!(node.poll_action(), Some(Action::send("fourth", ProtocolMessage::join(&"me"))));
    assert_eq!(node.poll_action(), None);
    assert_eq!(node.poll_action(), None);
}

#[test]
fn join_admits_the_joiner_with_high_priority() {
    let mut node = node(NodeOptions::default(), vec![]);
    node.handle_protocol_message(ProtocolMessage::Join(JoinMessage { sender: "j" }));
    assert_eq!(node.active_view(), ["j"]);
    assert!(node.passive_view().is_empty());
    assert_eq!(drain(&mut node), vec![greeting("j", true), Action::notify_up("j")]);
}

#[test]
fn join_is_forwarded_to_every_other_neighbor() {
    let mut node = settled(NodeOptions::default(), &["a", "b", "c"], &[], vec![]);
    node.handle_protocol_message(ProtocolMessage::Join(JoinMessage { sender: "j" }));
    assert_eq!(node.active_view(), ["a", "b", "c", "j"]);
    assert_eq!(
        drain(&mut node),
        vec![
            greeting("j", true),
            Action::notify_up("j"),
            Action::send("a", ProtocolMessage::forward_join(&"me", "j", TimeToLive::new(5))),
            Action::send("b", ProtocolMessage::forward_join(&"me", "j", TimeToLive::new(5))),
            Action::send("c", ProtocolMessage::forward_join(&"me", "j", TimeToLive::new(5))),
        ]
    );
}

#[test]
fn join_of_a_neighbor_is_only_forwarded() {
    let mut node = settled(NodeOptions::default(), &["a", "j", "c"], &[], vec![]);
    node.handle_protocol_message(ProtocolMessage::Join(JoinMessage { sender: "j" }));
    assert_eq!(node.active_view(), ["a", "j", "c"]);
    assert_eq!(
        drain(&mut node),
        vec![
            Action::send("a", ProtocolMessage::forward_join(&"me", "j", TimeToLive::new(5))),
            Action::send("c", ProtocolMessage::forward_join(&"me", "j", TimeToLive::new(5))),
        ]
    );
}

#[test]
fn same_join_twice_reports_the_joiner_once() {
    let mut node = settled(NodeOptions::default(), &["a"], &[], vec![]);
    node.handle_protocol_message(ProtocolMessage::Join(JoinMessage { sender: "j" }));
    node.handle_protocol_message(ProtocolMessage::Join(JoinMessage { sender: "j" }));
    let actions = drain(&mut node);
    let ups = actions.iter().filter(|a| **a == Action::notify_up("j")).count();
    assert_eq!(ups, 1);
    assert_eq!(
        actions,
        vec![
            greeting("j", true),
            Action::notify_up("j"),
            Action::send("a", ProtocolMessage::forward_join(&"me", "j", TimeToLive::new(5))),
            Action::send("a", ProtocolMessage::forward_join(&"me", "j", TimeToLive::new(5))),
        ]
    );
    assert_eq!(node.active_view(), ["a", "j"]);
}

#[test]
fn own_join_changes_no_view() {
    let mut node = settled(NodeOptions::default(), &["a"], &[], vec![]);
    node.handle_protocol_message(ProtocolMessage::Join(JoinMessage { sender: "me" }));
    assert_eq!(node.active_view(), ["a"]);
    assert!(node.passive_view().is_empty());
    assert_eq!(
        drain(&mut node),
        vec![Action::send("a", ProtocolMessage::forward_join(&"me", "me", TimeToLive::new(5)))]
    );
}

#[test]
fn joiner_leaves_the_passive_view() {
    let mut node = settled(NodeOptions::default(), &["a"], &["p", "j", "q"], vec![]);
    node.handle_protocol_message(ProtocolMessage::Join(JoinMessage { sender: "j" }));
    assert_eq!(node.active_view(), ["a", "j"]);
    assert_eq!(node.passive_view(), ["p", "q"]);
}

#[test]
fn full_active_view_evicts_exactly_one() {
    let options = NodeOptions { max_active_view_size: 2, ..Default::default() };
    let mut node = settled(options, &["a", "b"], &[], vec![draw(1, 2)]);
    node.handle_protocol_message(neighbor("c", true));
    assert_eq!(node.active_view(), ["a", "c"]);
    assert_eq!(node.passive_view(), ["b"]);
    let actions = drain(&mut node);
    assert_eq!(
        actions,
        vec![
            farewell("b"),
            Action::disconnect("b"),
            Action::notify_down("b"),
            greeting("c", false),
            Action::notify_up("c"),
        ]
    );
    let downs = actions
        .iter()
        .filter(|a| matches!(a, Action::Notify { event: Event::NeighborDown { .. } }))
        .count();
    let ups = actions
        .iter()
        .filter(|a| matches!(a, Action::Notify { event: Event::NeighborUp { .. } }))
        .count();
    assert_eq!((downs, ups), (1, 1));
}

#[test]
fn full_active_view_evicts_the_drawn_neighbor() {
    let options = NodeOptions { max_active_view_size: 3, ..Default::default() };
    let mut node = settled(options, &["a", "b", "c"], &[], vec![draw(0, 3)]);
    node.handle_protocol_message(neighbor("d", true));
    assert_eq!(node.active_view(), ["c", "b", "d"]);
    assert_eq!(node.passive_view(), ["a"]);
    assert_eq!(
        drain(&mut node),
        vec![
            farewell("a"),
            Action::disconnect("a"),
            Action::notify_down("a"),
            greeting("d", false),
            Action::notify_up("d"),
        ]
    );
}

#[test]
fn low_priority_neighbor_is_refused_by_a_full_view() {
    let options = NodeOptions { max_active_view_size: 2, ..Default::default() };
    let mut node = settled(options, &["a", "b"], &[], vec![]);
    node.handle_protocol_message(neighbor("c", false));
    assert_eq!(node.active_view(), ["a", "b"]);
    assert!(node.passive_view().is_empty());
    assert_eq!(drain(&mut node), vec![farewell("c"), Action::disconnect("c")]);
}

#[test]
fn low_priority_neighbor_is_admitted_where_there_is_room() {
    let mut node = settled(NodeOptions::default(), &["a"], &[], vec![]);
    node.handle_protocol_message(neighbor("c", false));
    assert_eq!(node.active_view(), ["a", "c"]);
    assert_eq!(drain(&mut node), vec![greeting("c", false), Action::notify_up("c")]);
}

#[test]
fn neighbor_request_of_a_neighbor_changes_nothing() {
    let mut node = settled(NodeOptions::default(), &["a", "b"], &["p"], vec![]);
    node.handle_protocol_message(neighbor("b", true));
    assert_eq!(node.active_view(), ["a", "b"]);
    assert_eq!(node.passive_view(), ["p"]);
    assert!(drain(&mut node).is_empty());
}

#[test]
fn full_passive_view_evicts_exactly_one_in_silence() {
    let options = NodeOptions { max_passive_view_size: 3, ..Default::default() };
    let mut node = settled(options, &["a"], &["p", "q", "r"], vec![draw(1, 3)]);
    node.handle_protocol_message(shuffle_reply("a", vec!["s"]));
    assert_eq!(node.passive_view(), ["p", "r", "s"]);
    assert_eq!(node.active_view(), ["a"]);
    assert!(drain(&mut node).is_empty());
}

#[test]
fn passive_view_takes_strangers_only() {
    let mut node = settled(NodeOptions::default(), &["a", "b"], &["p"], vec![]);
    node.handle_protocol_message(shuffle_reply("a", vec!["me", "a", "p", "x", "b", "x", "y"]));
    assert_eq!(node.passive_view(), ["p", "x", "y"]);
    assert_eq!(node.active_view(), ["a", "b"]);
    assert!(drain(&mut node).is_empty());
}

#[test]
fn shuffle_reply_of_a_stranger_is_answered_with_a_farewell() {
    let mut node = settled(NodeOptions::default(), &["a"], &[], vec![]);
    node.handle_protocol_message(shuffle_reply("s", vec!["x"]));
    assert_eq!(node.passive_view(), ["x"]);
    assert_eq!(drain(&mut node), vec![farewell("s"), Action::disconnect("s")]);
}

#[test]
fn expired_forward_join_admits_the_joiner() {
    let mut node = settled(NodeOptions::default(), &["a", "b"], &[], vec![]);
    node.handle_protocol_message(ProtocolMessage::ForwardJoin(ForwardJoinMessage {
        sender: "a",
        new_node: "n",
        ttl: TimeToLive::new(0),
    }));
    assert_eq!(node.active_view(), ["a", "b", "n"]);
    assert_eq!(drain(&mut node), vec![greeting("n", true), Action::notify_up("n")]);
}

#[test]
fn forward_join_to_a_lonely_node_admits_the_joiner() {
    let mut node = node(NodeOptions::default(), vec![]);
    node.handle_protocol_message(ProtocolMessage::ForwardJoin(ForwardJoinMessage {
        sender: "a",
        new_node: "n",
        ttl: TimeToLive::new(4),
    }));
    assert_eq!(node.active_view(), ["n"]);
    assert!(node.passive_view().is_empty());
    assert_eq!(
        drain(&mut node),
        vec![
            greeting("n", true),
            Action::notify_up("n"),
            farewell("a"),
            Action::disconnect("a"),
        ]
    );
}

#[test]
fn forward_join_at_passive_walk_length_notes_the_joiner() {
    let mut node = settled(NodeOptions::default(), &["a", "b"], &[], vec![]);
    node.handle_protocol_message(ProtocolMessage::ForwardJoin(ForwardJoinMessage {
        sender: "a",
        new_node: "n",
        ttl: TimeToLive::new(2),
    }));
    assert_eq!(node.passive_view(), ["n"]);
    assert_eq!(
        drain(&mut node),
        vec![Action::send("b", ProtocolMessage::forward_join(&"me", "n", TimeToLive::new(1)))]
    );
    assert_eq!(node.active_view(), ["b", "a"]);
}

#[test]
fn forward_join_at_another_length_is_only_forwarded() {
    let mut node = settled(NodeOptions::default(), &["a", "b"], &[], vec![]);
    node.handle_protocol_message(ProtocolMessage::ForwardJoin(ForwardJoinMessage {
        sender: "a",
        new_node: "n",
        ttl: TimeToLive::new(3),
    }));
    assert!(node.passive_view().is_empty());
    assert_eq!(
        drain(&mut node),
        vec![Action::send("b", ProtocolMessage::forward_join(&"me", "n", TimeToLive::new(2)))]
    );
}

#[test]
fn forward_join_goes_to_the_drawn_neighbor() {
    let mut node =
        settled(NodeOptions::default(), &["a", "b", "c", "d"], &[], vec![draw(2, 3)]);
    node.handle_protocol_message(ProtocolMessage::ForwardJoin(ForwardJoinMessage {
        sender: "b",
        new_node: "n",
        ttl: TimeToLive::new(5),
    }));
    assert_eq!(node.active_view(), ["a", "d", "c", "b"]);
    assert_eq!(
        drain(&mut node),
        vec![Action::send("c", ProtocolMessage::forward_join(&"me", "n", TimeToLive::new(4)))]
    );
}

#[test]
fn forward_join_of_a_stranger_is_answered_with_a_farewell() {
    let mut node = settled(NodeOptions::default(), &["a"], &[], vec![]);
    node.handle_protocol_message(ProtocolMessage::ForwardJoin(ForwardJoinMessage {
        sender: "s",
        new_node: "n",
        ttl: TimeToLive::new(3),
    }));
    assert_eq!(
        drain(&mut node),
        vec![
            Action::send("a", ProtocolMessage::forward_join(&"me", "n", TimeToLive::new(2))),
            farewell("s"),
            Action::disconnect("s"),
        ]
    );
}

#[test]
fn forward_join_without_another_neighbor_admits_the_joiner() {
    let mut node = settled(NodeOptions::default(), &["a"], &[], vec![]);
    node.handle_protocol_message(ProtocolMessage::ForwardJoin(ForwardJoinMessage {
        sender: "a",
        new_node: "n",
        ttl: TimeToLive::new(3),
    }));
    assert_eq!(node.active_view(), ["a", "n"]);
    assert_eq!(drain(&mut node), vec![greeting("n", true), Action::notify_up("n")]);
}

#[test]
fn expired_shuffle_replies_to_the_origin() {
    let mut node = settled(NodeOptions::default(), &["a"], &["p", "q", "r"], vec![0, 0]);
    node.handle_protocol_message(ProtocolMessage::Shuffle(ShuffleMessage {
        sender: "s",
        origin: "o",
        nodes: vec!["x", "y"],
        ttl: TimeToLive::new(0),
    }));
    assert_eq!(
        drain(&mut node),
        vec![
            Action::send("o", ProtocolMessage::shuffle_reply(&"me", vec!["q", "r"])),
            farewell("s"),
            Action::disconnect("s"),
        ]
    );
    assert_eq!(node.passive_view(), ["q", "r", "p", "x", "y"]);
    assert_eq!(node.active_view(), ["a"]);
}

#[test]
fn expired_shuffle_replies_with_its_shuffled_passive_view() {
    let mut node = settled(
        NodeOptions::default(),
        &["a"],
        &["p", "q", "r"],
        vec![draw(1, 3), draw(1, 2)],
    );
    node.handle_protocol_message(ProtocolMessage::Shuffle(ShuffleMessage {
        sender: "a",
        origin: "o",
        nodes: vec!["x", "y", "z", "w"],
        ttl: TimeToLive::new(0),
    }));
    assert_eq!(
        drain(&mut node),
        vec![Action::send("o", ProtocolMessage::shuffle_reply(&"me", vec!["p", "r", "q"]))]
    );
    assert_eq!(node.passive_view(), ["p", "r", "q", "x", "y", "z", "w"]);
}

#[test]
fn shuffle_is_forwarded_past_origin_and_sender() {
    let mut node = settled(NodeOptions::default(), &["a", "b", "c"], &[], vec![]);
    node.handle_protocol_message(ProtocolMessage::Shuffle(ShuffleMessage {
        sender: "a",
        origin: "b",
        nodes: vec!["x"],
        ttl: TimeToLive::new(3),
    }));
    assert_eq!(
        drain(&mut node),
        vec![Action::send(
            "c",
            ProtocolMessage::shuffle(&"me", "b", vec!["x"], TimeToLive::new(2)),
        )]
    );
    assert_eq!(node.active_view(), ["c", "b", "a"]);
    assert!(node.passive_view().is_empty());
}

#[test]
fn shuffle_without_a_destination_is_dropped() {
    let mut node = settled(NodeOptions::default(), &["a", "b"], &[], vec![]);
    node.handle_protocol_message(ProtocolMessage::Shuffle(ShuffleMessage {
        sender: "a",
        origin: "b",
        nodes: vec!["x"],
        ttl: TimeToLive::new(3),
    }));
    assert!(drain(&mut node).is_empty());
    assert!(node.passive_view().is_empty());
    let mut neighbors = node.active_view().to_vec();
    neighbors.sort();
    assert_eq!(neighbors, ["a", "b"]);
}

#[test]
fn disconnect_of_a_living_neighbor_keeps_it_in_reserve() {
    let mut node = settled(NodeOptions::default(), &["a", "b"], &["p"], vec![]);
    node.disconnect(&"a", true);
    assert_eq!(node.active_view(), ["b"]);
    assert_eq!(node.passive_view(), ["p", "a"]);
    assert_eq!(
        drain(&mut node),
        vec![
            farewell("a"),
            Action::disconnect("a"),
            Action::notify_down("a"),
            greeting("p", false),
        ]
    );
}

#[test]
fn disconnect_of_a_dead_neighbor_forgets_it() {
    let mut node = settled(NodeOptions::default(), &["a", "b"], &["p"], vec![]);
    node.disconnect(&"a", false);
    assert_eq!(node.active_view(), ["b"]);
    assert_eq!(node.passive_view(), ["p"]);
    assert_eq!(
        drain(&mut node),
        vec![
            farewell("a"),
            Action::disconnect("a"),
            Action::notify_down("a"),
            greeting("p", false),
        ]
    );
}

#[test]
fn disconnect_of_the_last_neighbor_asks_with_high_priority() {
    let mut node = settled(NodeOptions::default(), &["a"], &["p", "q"], vec![draw(1, 2)]);
    node.handle_protocol_message(ProtocolMessage::Disconnect(DisconnectMessage {
        sender: "a",
        alive: false,
    }));
    assert!(node.active_view().is_empty());
    assert_eq!(node.passive_view(), ["p", "q"]);
    assert_eq!(
        drain(&mut node),
        vec![
            farewell("a"),
            Action::disconnect("a"),
            Action::notify_down("a"),
            greeting("q", true),
        ]
    );
}

#[test]
fn disconnect_of_an_unknown_peer_queues_nothing() {
    let mut node = settled(NodeOptions::default(), &["a", "b"], &["p"], vec![]);
    node.disconnect(&"z", false);
    assert!(drain(&mut node).is_empty());
    assert_eq!(node.active_view(), ["a", "b"]);
    assert_eq!(node.passive_view(), ["p"]);

    node.disconnect(&"p", false);
    assert!(drain(&mut node).is_empty());
    assert_eq!(node.active_view(), ["a", "b"]);
    assert_eq!(node.passive_view(), ["p"]);

    node.disconnect(&"z", true);
    assert!(drain(&mut node).is_empty());
    assert_eq!(node.active_view(), ["a", "b"]);
    assert_eq!(node.passive_view(), ["p", "z"]);

    node.disconnect(&"me", true);
    assert!(drain(&mut node).is_empty());
    assert_eq!(node.passive_view(), ["p", "z"]);
}

#[test]
fn fill_active_view_asks_a_passive_peer_and_keeps_it_there() {
    let mut node = settled(NodeOptions::default(), &["a"], &["p", "q", "r"], vec![draw(2, 3)]);
    node.fill_active_view();
    assert_eq!(drain(&mut node), vec![greeting("r", false)]);
    assert_eq!(node.active_view(), ["a"]);
    assert_eq!(node.passive_view(), ["p", "q", "r"]);
}

#[test]
fn fill_active_view_does_nothing_for_a_full_view() {
    let options = NodeOptions { max_active_view_size: 2, ..Default::default() };
    let mut node = settled(options, &["a", "b"], &["p"], vec![]);
    node.fill_active_view();
    assert!(drain(&mut node).is_empty());
}

#[test]
fn fill_active_view_does_nothing_without_reserve() {
    let mut node = settled(NodeOptions::default(), &["a"], &[], vec![]);
    node.fill_active_view();
    assert!(drain(&mut node).is_empty());
}

#[test]
fn sync_active_view_greets_every_neighbor() {
    let mut node = settled(NodeOptions::default(), &["a", "b", "c"], &["p"], vec![]);
    node.sync_active_view();
    assert_eq!(
        drain(&mut node),
        vec![greeting("a", false), greeting("b", false), greeting("c", false)]
    );
    assert_eq!(node.active_view(), ["a", "b", "c"]);

    let mut lonely = node_without_neighbors();
    lonely.sync_active_view();
    assert!(drain(&mut lonely).is_empty());
}

fn node_without_neighbors() -> TestNode {
    node(NodeOptions::default(), vec![])
}

#[test]
fn shuffle_passive_view_needs_a_neighbor() {
    let mut node = node_without_neighbors();
    node.handle_protocol_message(shuffle_reply("me", vec!["p", "q"]));
    drain(&mut node);
    node.shuffle_passive_view();
    assert!(drain(&mut node).is_empty());
    assert_eq!(node.passive_view(), ["p", "q"]);
}

#[test]
fn shuffle_passive_view_sends_the_payload_to_a_neighbor() {
    let mut node = settled(
        NodeOptions::default(),
        &["a", "b", "c"],
        &["p", "q", "r"],
        vec![draw(1, 3), 0, 0, 0, 0],
    );
    node.shuffle_passive_view();
    assert_eq!(node.passive_view(), ["q", "r", "p"]);
    assert_eq!(node.active_view(), ["b", "c", "a"]);
    assert_eq!(
        drain(&mut node),
        vec![Action::send(
            "b",
            ProtocolMessage::shuffle(
                &"me",
                "me",
                vec!["q", "r", "b", "c", "me"],
                TimeToLive::new(5),
            ),
        )]
    );
}

#[test]
fn shuffle_payload_takes_what_the_views_hold() {
    let options = NodeOptions {
        shuffle_active_view_size: 3,
        shuffle_passive_view_size: 4,
        active_random_walk_len: 7,
        ..Default::default()
    };
    let mut node = settled(options, &["a"], &["p"], vec![]);
    node.shuffle_passive_view();
    assert_eq!(
        drain(&mut node),
        vec![Action::send(
            "a",
            ProtocolMessage::shuffle(&"me", "me", vec!["p", "a", "me"], TimeToLive::new(7)),
        )]
    );
}

#[test]
fn lowered_limit_stops_growth() {
    let mut node = settled(NodeOptions::default(), &["a", "b", "c"], &[], vec![draw(1, 3)]);
    node.options_mut().max_active_view_size = 1;
    node.handle_protocol_message(neighbor("d", true));
    assert_eq!(node.active_view(), ["a", "c", "d"]);
    assert_eq!(node.passive_view(), ["b"]);
}

#[test]
fn limit_of_zero_leaves_nobody_to_evict() {
    let options = NodeOptions {
        max_active_view_size: 0,
        max_passive_view_size: 0,
        ..Default::default()
    };
    let mut node = node(options, vec![]);
    node.handle_protocol_message(neighbor("a", true));
    assert_eq!(node.active_view(), ["a"]);
    assert_eq!(drain(&mut node), vec![greeting("a", false), Action::notify_up("a")]);

    node.handle_protocol_message(neighbor("b", true));
    assert_eq!(node.active_view(), ["b"]);
    assert_eq!(node.passive_view(), ["a"]);

    node.handle_protocol_message(neighbor("c", false));
    assert_eq!(node.active_view(), ["b"]);
    assert_eq!(node.passive_view(), ["a"]);
}
