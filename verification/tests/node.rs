use splash::address_book::{routing_seeds, BootstrapAddress, RoutingSeed, StartupError};
use splash::gossip::{
    content_hash, message_id, message_id_of, Admission, GossipChannel, PublishError,
    HEARTBEAT_INTERVAL_SECS, IDENTIFY_PROTOCOL, MAX_OFFER_SIZE, OFFER_TOPIC, QUERY_TIMEOUT_SECS,
    ROUTING_PROTOCOL,
};
use splash::node::{Node, NodeAction, NodeEvent};

#[test]
fn peer_connects_then_disconnects() {
    let mut node = Node::new(MAX_OFFER_SIZE);
    assert_eq!(node.peer_count(), 0);
    let up = node.step(NodeEvent::ConnectionEstablished { connection: 7 });
    assert_eq!(up, NodeAction::NotifyPeerCount { count: 1 });
    assert_eq!(node.peer_count(), 1);
    let down = node.step(NodeEvent::ConnectionClosed { connection: 7 });
    assert_eq!(down, NodeAction::NotifyPeerCount { count: 0 });
    assert_eq!(node.peer_count(), 0);
}

#[test]
fn peer_count_follows_the_open_connections() {
    let mut node = Node::new(MAX_OFFER_SIZE);
    let mut counts = Vec::new();
    for event in [
        NodeEvent::ConnectionEstablished { connection: 1 },
        NodeEvent::ConnectionEstablished { connection: 2 },
        NodeEvent::ConnectionEstablished { connection: 2 },
        NodeEvent::ConnectionClosed { connection: 9 },
        NodeEvent::ConnectionEstablished { connection: 3 },
        NodeEvent::ConnectionClosed { connection: 1 },
        NodeEvent::ConnectionClosed { connection: 2 },
        NodeEvent::ConnectionClosed { connection: 3 },
    ] {
        match node.step(event) {
            NodeAction::NotifyPeerCount { count } => {
                assert_eq!(count, node.peer_count());
                counts.push(count);
            }
            other => panic!("unexpected action {:?}", other),
        }
    }
    assert_eq!(counts, vec![1, 2, 2, 2, 3, 2, 1, 0]);
}

#[test]
fn duplicates_are_told_by_content_hash() {
    let mut node = Node::new(10);
    let first = NodeEvent::GossipMessage { payload: b"first".to_vec(), content_hash: 42 };
    let same_hash = NodeEvent::GossipMessage { payload: b"second".to_vec(), content_hash: 42 };
    assert_eq!(node.step(first), NodeAction::Ignore);
    assert_eq!(node.step(same_hash), NodeAction::Ignore);
}

#[test]
fn channel_screens_incoming_payloads() {
    let mut channel = GossipChannel::new(100);
    assert_eq!(channel.max_payload(), 100);
    assert_eq!(channel.screen(101, 1), Admission::Oversized);
    assert_eq!(channel.screen(100, 1), Admission::Fresh);
    assert_eq!(channel.screen(100, 1), Admission::Duplicate);
    assert_eq!(channel.screen(5, 1), Admission::Duplicate);
    assert_eq!(channel.screen(101, 1), Admission::Oversized);
    assert_eq!(channel.screen(0, 2), Admission::Fresh);
    assert_eq!(channel.screen(0, 2), Admission::Duplicate);
}

#[test]
fn channel_refuses_to_publish_above_the_cap() {
    let mut channel = GossipChannel::new(100);
    assert_eq!(channel.publish(101, 1), Err(PublishError::PayloadTooLarge));
    assert_eq!(channel.screen(10, 1), Admission::Fresh);
    assert_eq!(channel.publish(100, 2), Ok(()));
    assert_eq!(channel.screen(10, 2), Admission::Duplicate);
}

#[test]
fn oversized_offer_is_never_sent() {
    let mut node = Node::new(4);
    assert_eq!(
        node.submit("offer1".to_string()),
        NodeAction::RejectPublish { error: PublishError::PayloadTooLarge }
    );
    assert_eq!(
        node.step(NodeEvent::PublishRequest { offer: "12345".to_string(), content_hash: 3 }),
        NodeAction::RejectPublish { error: PublishError::PayloadTooLarge }
    );
    assert_eq!(
        node.step(NodeEvent::PublishRequest { offer: "1234".to_string(), content_hash: 3 }),
        NodeAction::Publish { payload: b"1234".to_vec() }
    );
    let mut wide = Node::new(MAX_OFFER_SIZE);
    let large = "a".repeat(MAX_OFFER_SIZE + 1);
    assert_eq!(
        wide.submit(large),
        NodeAction::RejectPublish { error: PublishError::PayloadTooLarge }
    );
    let fitting = "a".repeat(MAX_OFFER_SIZE);
    assert_eq!(
        wide.submit(fitting.clone()),
        NodeAction::Publish { payload: fitting.into_bytes() }
    );
}

#[test]
fn published_payload_is_the_text_in_utf8() {
    let mut node = Node::new(MAX_OFFER_SIZE);
    assert_eq!(
        node.submit("grüß".to_string()),
        NodeAction::Publish { payload: vec![0x67, 0x72, 0xc3, 0xbc, 0xc3, 0x9f] }
    );
}

#[test]
fn message_identity_is_the_content_hash_in_decimal() {
    assert_eq!(message_id_of(0), "0");
    assert_eq!(message_id_of(7), "7");
    assert_eq!(message_id_of(12345), "12345");
    assert_eq!(message_id_of(u64::MAX), "18446744073709551615");
    let payload = b"offer1example".to_vec();
    assert_eq!(message_id(&payload), message_id_of(content_hash(&payload)));
    assert_eq!(message_id(&payload), message_id(&payload.clone()));
    assert_eq!(content_hash(b"one"), content_hash(&b"one".to_vec()));
    assert_ne!(content_hash(b"one"), content_hash(b"two"));
    assert_ne!(message_id(b"one"), message_id(b"two"));
}

#[test]
fn routing_table_is_seeded_from_the_address_book() {
    let book = vec![
        BootstrapAddress {
            address: "/dns4/one.example/tcp/11511/p2p/one".to_string(),
            peer_id: Some(vec![1, 2, 3]),
        },
        BootstrapAddress {
            address: "/ip4/10.0.0.2/tcp/11511/p2p/two".to_string(),
            peer_id: Some(vec![4, 5]),
        },
    ];
    assert_eq!(
        routing_seeds(&book),
        Ok(vec![
            RoutingSeed {
                peer_id: vec![1, 2, 3],
                address: "/dns4/one.example/tcp/11511/p2p/one".to_string(),
            },
            RoutingSeed {
                peer_id: vec![4, 5],
                address: "/ip4/10.0.0.2/tcp/11511/p2p/two".to_string(),
            },
        ])
    );
    assert_eq!(routing_seeds(&Vec::new()), Ok(Vec::new()));
}

#[test]
fn address_without_identity_stops_the_start() {
    let with = |n: u8| BootstrapAddress {
        address: format!("/ip4/10.0.0.{}/tcp/1/p2p/x", n),
        peer_id: Some(vec![n]),
    };
    let without = |n: u8| BootstrapAddress {
        address: format!("/ip4/10.0.0.{}/tcp/1", n),
        peer_id: None,
    };
    let error = routing_seeds(&vec![with(1), with(2), without(3), with(4), without(5)]);
    assert_eq!(error, Err(StartupError::MissingPeerIdentity { index: 2 }));
    assert_eq!(
        StartupError::MissingPeerIdentity { index: 2 }.message(),
        "Expect peer multiaddr to contain peer ID."
    );
    assert_eq!(
        routing_seeds(&vec![without(1)]),
        Err(StartupError::MissingPeerIdentity { index: 0 })
    );
}

#[test]
fn channel_settings_are_fixed() {
    assert_eq!(MAX_OFFER_SIZE, 307_200);
    assert_eq!(HEARTBEAT_INTERVAL_SECS, 5);
    assert_eq!(QUERY_TIMEOUT_SECS, 60);
    assert_eq!(OFFER_TOPIC, "/splash/offers/1");
    assert_eq!(ROUTING_PROTOCOL, "/splash/kad/1");
    assert_eq!(IDENTIFY_PROTOCOL, "/splash/id/1");
}
