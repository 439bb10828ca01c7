use hyparview::message::{
    DisconnectMessage, ForwardJoinMessage, JoinMessage, NeighborMessage, ProtocolMessage,
    ShuffleMessage, ShuffleReplyMessage,
};
use hyparview::{Action, Event, Node, NodeOptions, TimeToLive};
use rand::{Error, RngCore};

/// A small deterministic generator (SplitMix64).
struct SplitMix {
    state: u64,
}

impl SplitMix {
    fn below(&mut self, bound: u64) -> u64 {
        self.next_u64() % bound
    }
}

impl RngCore for SplitMix {
    fn next_u32(&mut self) -> u32 {
        (self.next_u64() >> 32) as u32
    }

    fn next_u64(&mut self) -> u64 {
        self.state = self.state.wrapping_add(0x9E37_79B9_7F4A_7C15);
        let mut z = self.state;
        z = (z ^ (z >> 30)).wrapping_mul(0xBF58_476D_1CE4_E5B9);
        z = (z ^ (z >> 27)).wrapping_mul(0x94D0_49BB_1331_11EB);
        z ^ (z >> 31)
    }

    fn fill_bytes(&mut self, dest: &mut [u8]) {
        for byte in dest.iter_mut() {
            *byte = self.next_u64() as u8;
        }
    }

    fn try_fill_bytes(&mut self, dest: &mut [u8]) -> Result<(), Error> {
        self.fill_bytes(dest);
        Ok(())
    }
}

type TestNode = Node<u32, SplitMix>;

const PEERS: u64 = 9;

fn views_are_well_formed(node: &TestNode) {
    let active = node.active_view();
    let passive = node.passive_view();
    assert!(!active.contains(node.id()));
    assert!(!passive.contains(node.id()));
    for (i, peer) in active.iter().enumerate() {
        assert!(!active[i + 1..].contains(peer));
        assert!(!passive.contains(peer));
    }
    for (i, peer) in passive.iter().enumerate() {
        assert!(!passive[i + 1..].contains(peer));
    }
}

fn views_are_within_limits(node: &TestNode) {
    assert!(node.active_view().len() <= node.options().max_active_view_size as usize);
    assert!(node.passive_view().len() <= node.options().max_passive_view_size as usize);
}

fn drain(node: &mut TestNode) -> Vec<Action<u32>> {
    let mut actions = Vec::new();
    while let Some(action) = node.poll_action() {
        actions.push(action);
    }
    actions
}

fn is_greeting(action: &Action<u32>, peer: u32) -> bool {
    match action {
        Action::Send { destination, message: ProtocolMessage::Neighbor(m) } => {
            *destination == peer && m.sender == 0
        }
        _ => false,
    }
}

fn is_farewell(action: &Action<u32>, peer: u32) -> bool {
    match action {
        Action::Send { destination, message: ProtocolMessage::Disconnect(m) } => {
            *destination == peer && m.sender == 0 && m.alive
        }
        _ => false,
    }
}

fn batch_is_in_order(batch: &[Action<u32>]) {
    for (k, action) in batch.iter().enumerate() {
        match action {
            Action::Notify { event: Event::NeighborUp { node } } => {
                assert!(k >= 1);
                assert!(is_greeting(&batch[k - 1], *node));
            }
            Action::Notify { event: Event::NeighborDown { node } } => {
                assert!(k >= 2);
                assert!(is_farewell(&batch[k - 2], *node));
                assert_eq!(batch[k - 1], Action::disconnect(*node));
            }
            Action::Send { message, .. } => {
                assert_eq!(*message.sender(), 0);
            }
            Action::Disconnect { .. } => {}
        }
    }
}

fn some_peers(source: &mut SplitMix) -> Vec<u32> {
    let count = source.below(5);
    (0..count).map(|_| source.below(PEERS) as u32).collect()
}

fn some_message(source: &mut SplitMix) -> ProtocolMessage<u32> {
    let sender = source.below(PEERS) as u32;
    let other = source.below(PEERS) as u32;
    let ttl = TimeToLive::new(source.below(4) as u8);
    match source.below(6) {
        0 => ProtocolMessage::Join(JoinMessage { sender }),
        1 => ProtocolMessage::ForwardJoin(ForwardJoinMessage { sender, new_node: other, ttl }),
        2 => ProtocolMessage::Neighbor(NeighborMessage {
            sender,
            high_priority: source.below(2) == 0,
        }),
        3 => ProtocolMessage::Shuffle(ShuffleMessage {
            sender,
            origin: other,
            nodes: some_peers(source),
            ttl,
        }),
        4 => ProtocolMessage::ShuffleReply(ShuffleReplyMessage {
            sender,
            nodes: some_peers(source),
        }),
        _ => ProtocolMessage::Disconnect(DisconnectMessage {
            sender,
            alive: source.below(2) == 0,
        }),
    }
}

fn changes_are_reported(before: &[u32], after: &[u32], batch: &[Action<u32>]) {
    for peer in after.iter().filter(|p| !before.contains(p)) {
        assert!(batch.contains(&Action::notify_up(*peer)));
    }
    for peer in before.iter().filter(|p| !after.contains(p)) {
        assert!(batch.contains(&Action::notify_down(*peer)));
    }
}

fn run(seed: u64, options: NodeOptions, steps: usize, limits_hold: bool) {
    let mut source = SplitMix { state: seed };
    let mut node = Node::with_options(0u32, SplitMix { state: seed ^ 0xABCD }, options);
    for _ in 0..steps {
        let before = node.active_view().to_vec();
        match source.below(10) {
            0 => node.join(source.below(PEERS) as u32),
            1 => node.fill_active_view(),
            2 => node.sync_active_view(),
            3 => node.shuffle_passive_view(),
            4 => {
                let peer = source.below(PEERS) as u32;
                node.disconnect(&peer, source.below(2) == 0)
            }
            _ => node.handle_protocol_message(some_message(&mut source)),
        }
        views_are_well_formed(&node);
        if limits_hold {
            views_are_within_limits(&node);
        }
        let batch = drain(&mut node);
        batch_is_in_order(&batch);
        changes_are_reported(&before, node.active_view(), &batch);
    }
}

#[test]
fn views_stay_well_formed_and_within_limits() {
    for seed in 0..40u64 {
        let options = NodeOptions {
            max_active_view_size: 1 + (seed % 4) as u8,
            max_passive_view_size: 1 + (seed % 3) as u8,
            passive_random_walk_len: (seed % 4) as u8,
            ..Default::default()
        };
        run(seed, options, 400, true);
    }
}

#[test]
fn views_stay_well_formed_with_default_options() {
    for seed in 100..110u64 {
        run(seed, NodeOptions::default(), 1000, true);
    }
}

#[test]
fn views_stay_well_formed_without_room() {
    for seed in 200..210u64 {
        let options = NodeOptions {
            max_active_view_size: 0,
            max_passive_view_size: 0,
            ..Default::default()
        };
        run(seed, options, 300, false);
    }
}

#[test]
fn views_hold_at_most_one_peer_without_room() {
    let options =
        NodeOptions { max_active_view_size: 0, max_passive_view_size: 0, ..Default::default() };
    let mut source = SplitMix { state: 7 };
    let mut node = Node::with_options(0u32, SplitMix { state: 8 }, options);
    for _ in 0..300 {
        node.handle_protocol_message(some_message(&mut source));
        assert!(node.active_view().len() <= 1);
        assert!(node.passive_view().len() <= 1);
    }
}

#[test]
fn reports_follow_their_requests() {
    let options = NodeOptions { max_active_view_size: 2, ..Default::default() };
    let mut node = Node::with_options(0u32, SplitMix { state: 3 }, options);
    for peer in 1..=6u32 {
        node.handle_protocol_message(ProtocolMessage::Join(JoinMessage { sender: peer }));
    }
    let batch = drain(&mut node);
    batch_is_in_order(&batch);
    let ups = batch
        .iter()
        .filter(|a| matches!(a, Action::Notify { event: Event::NeighborUp { .. } }))
        .count();
    let downs = batch
        .iter()
        .filter(|a| matches!(a, Action::Notify { event: Event::NeighborDown { .. } }))
        .count();
    assert_eq!(ups, 6);
    assert_eq!(downs, 4);
    assert_eq!(node.active_view().len(), 2);
    assert_eq!(node.passive_view().len(), 4);
}
