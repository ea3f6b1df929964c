//! The decisions of the node: from its state and one event to its next state
//! and the one action that the event calls for.

use crate::codec::{has_offer_prefix, starts_with_offer_prefix};
use crate::gossip::{
    content_hash, content_hash_of, Admission, GossipChannel, GossipChannelView, PublishError,
};
use crate::summary::{offer_summary, parse_offer, OfferSummary, OfferSummaryView};
use std::collections::HashSet;
use vstd::prelude::*;

verus! {

broadcast use vstd::std_specs::hash::group_hash_axioms;

/// The text that `String::from_utf8_lossy` makes of a byte string: the text
/// that the bytes encode, with the replacement character in the place of
/// what is no UTF-8.
pub uninterp spec fn lossy_text(bytes: Seq<u8>) -> Seq<char>;

/// Calls `String::from_utf8_lossy` and takes the text into a `String`.
#[verifier::external_body]
fn text_of_payload(payload: &[u8]) -> (text: String)
    ensures
        text@ == lossy_text(payload@),
{
    String::from_utf8_lossy(payload).into_owned()
}

/// What can happen to a node.
#[derive(Clone, Debug, PartialEq, Eq)]
pub enum NodeEvent {
    /// A connection was opened. Each open connection has a number of its own.
    ConnectionEstablished { connection: u64 },
    /// A connection was closed.
    ConnectionClosed { connection: u64 },
    /// A message arrived on the offer topic.
    GossipMessage { payload: Vec<u8>, content_hash: u64 },
    /// The host asks for an offer to be broadcast.
    PublishRequest { offer: String, content_hash: u64 },
}

/// What a node does about an event.
#[derive(Clone, Debug, PartialEq, Eq)]
pub enum NodeAction {
    /// Tell the host how many connections are open now.
    NotifyPeerCount { count: usize },
    /// Tell the host of an offer that was discovered.
    NotifyOffer { summary: OfferSummary },
    /// Hand the payload to the transport for broadcast.
    Publish { payload: Vec<u8> },
    /// Tell the host that its offer was not sent.
    RejectPublish { error: PublishError },
    /// Nothing: the event is dropped in silence.
    Ignore,
}

pub ghost enum NodeEventView {
    ConnectionEstablished { connection: u64 },
    ConnectionClosed { connection: u64 },
    GossipMessage { payload: Seq<u8>, content_hash: u64 },
    PublishRequest { offer: Seq<char>, content_hash: u64 },
}

pub ghost enum NodeActionView {
    NotifyPeerCount { count: nat },
    NotifyOffer { summary: OfferSummaryView },
    Publish { payload: Seq<u8> },
    RejectPublish { error: PublishError },
    Ignore,
}

impl View for NodeEvent {
    type V = NodeEventView;

    open spec fn view(&self) -> NodeEventView {
        match *self {
            NodeEvent::ConnectionEstablished { connection } => NodeEventView::ConnectionEstablished {
                connection,
            },
            NodeEvent::ConnectionClosed { connection } => NodeEventView::ConnectionClosed {
                connection,
            },
            NodeEvent::GossipMessage { payload, content_hash } => NodeEventView::GossipMessage {
                payload: payload@,
                content_hash,
            },
            NodeEvent::PublishRequest { offer, content_hash } => NodeEventView::PublishRequest {
                offer: offer@,
                content_hash,
            },
        }
    }
}

impl View for NodeAction {
    type V = NodeActionView;

    open spec fn view(&self) -> NodeActionView {
        match *self {
            NodeAction::NotifyPeerCount { count } => NodeActionView::NotifyPeerCount {
                count: count as nat,
            },
            NodeAction::NotifyOffer { summary } => NodeActionView::NotifyOffer { summary: summary@ },
            NodeAction::Publish { payload } => NodeActionView::Publish { payload: payload@ },
            NodeAction::RejectPublish { error } => NodeActionView::RejectPublish { error },
            NodeAction::Ignore => NodeActionView::Ignore,
        }
    }
}

/// The state of a node: the connections that are open and the gossip channel.
#[derive(Debug)]
pub struct Node {
    connections: HashSet<u64>,
    channel: GossipChannel,
}

pub ghost struct NodeView {
    pub connections: Set<u64>,
    pub channel: GossipChannelView,
}

impl View for Node {
    type V = NodeView;

    closed spec fn view(&self) -> NodeView {
        NodeView { connections: self.connections@, channel: self.channel@ }
    }
}

/// What an offer that was received calls for: a notification where it has a
/// summary, nothing where it has none.
pub open spec fn discovery(text: Seq<char>) -> NodeActionView {
    if has_offer_prefix(text) {
        match offer_summary(text) {
            Ok(summary) => NodeActionView::NotifyOffer { summary },
            Err(_) => NodeActionView::Ignore,
        }
    } else {
        NodeActionView::Ignore
    }
}

/// The arrival of a payload with a content hash.
pub open spec fn gossip_message(payload: Seq<u8>, content_hash: u64) -> NodeEventView {
    NodeEventView::GossipMessage { payload, content_hash }
}

/// The host's request to broadcast an offer whose bytes have a content hash.
pub open spec fn publish_request(offer: Seq<char>, content_hash: u64) -> NodeEventView {
    NodeEventView::PublishRequest { offer, content_hash }
}

impl NodeView {
    /// Whether a state and an action are what an event leads to.
    pub open spec fn handles(self, event: NodeEventView, after: NodeView, action: NodeActionView)
        -> bool {
        after == self.next(event) && action == self.action(event)
    }

    /// The number of open connections is a number.
    pub open spec fn well_formed(self) -> bool {
        self.connections.finite()
    }

    /// The peer count: the number of open connections.
    pub open spec fn peer_count(self) -> nat {
        self.connections.len()
    }

    /// A node without connections that has met no payload.
    pub open spec fn initial(max_payload: usize) -> NodeView {
        NodeView {
            connections: Set::empty(),
            channel: GossipChannelView { max_payload, seen: Set::empty() },
        }
    }

    /// The state after an event.
    pub open spec fn next(self, event: NodeEventView) -> NodeView {
        match event {
            NodeEventView::ConnectionEstablished { connection } => NodeView {
                connections: self.connections.insert(connection),
                ..self
            },
            NodeEventView::ConnectionClosed { connection } => NodeView {
                connections: self.connections.remove(connection),
                ..self
            },
            NodeEventView::GossipMessage { payload, content_hash } => NodeView {
                channel: self.channel.after_inbound(payload.len(), content_hash),
                ..self
            },
            NodeEventView::PublishRequest { offer, content_hash } => NodeView {
                channel: self.channel.after_publish(
                    vstd::utf8::encode_utf8(offer).len(),
                    content_hash,
                ),
                ..self
            },
        }
    }

    /// The action that an event calls for. A change of the connections is
    /// told to the host with the new count. A message is looked at only where
    /// the channel lets it through as fresh. An offer of the host goes to the
    /// transport unless it is above the cap.
    pub open spec fn action(self, event: NodeEventView) -> NodeActionView {
        match event {
            NodeEventView::ConnectionEstablished { .. }
            | NodeEventView::ConnectionClosed { .. } => NodeActionView::NotifyPeerCount {
                count: self.next(event).peer_count(),
            },
            NodeEventView::GossipMessage { payload, content_hash } => if self.channel.admission(
                payload.len(),
                content_hash,
            ) == Admission::Fresh {
                discovery(lossy_text(payload))
            } else {
                NodeActionView::Ignore
            },
            NodeEventView::PublishRequest { offer, content_hash } => {
                let payload = vstd::utf8::encode_utf8(offer);
                if self.channel.may_publish(payload.len()) {
                    NodeActionView::Publish { payload }
                } else {
                    NodeActionView::RejectPublish { error: PublishError::PayloadTooLarge }
                }
            },
        }
    }
}

impl Node {
    /// The number of open connections is a number.
    pub open spec fn well_formed(&self) -> bool {
        self@.well_formed()
    }

    /// A node without connections that has met no payload.
    pub fn new(max_payload: usize) -> (node: Node)
        ensures
            node.well_formed(),
            node@ == NodeView::initial(max_payload),
    {
        Node { connections: HashSet::new(), channel: GossipChannel::new(max_payload) }
    }

    /// The peer count: the number of connections that are open.
    pub fn peer_count(&self) -> (count: usize)
        ensures
            count == self@.peer_count(),
    {
        self.connections.len()
    }

    /// Looks at a text that arrived as a fresh message.
    fn discover(text: &str) -> (action: NodeAction)
        ensures
            action@ == discovery(text@),
            action matches NodeAction::NotifyOffer { summary } ==> summary.well_formed(),
    {
        if starts_with_offer_prefix(text) {
            match parse_offer(text) {
                Ok(summary) => NodeAction::NotifyOffer { summary },
                Err(_) => NodeAction::Ignore,
            }
        } else {
            NodeAction::Ignore
        }
    }

    /// Handles one event: changes the state and says what is to be done.
    pub fn step(&mut self, event: NodeEvent) -> (action: NodeAction)
        requires
            old(self).well_formed(),
        ensures
            final(self).well_formed(),
            final(self)@ == old(self)@.next(event@),
            action@ == old(self)@.action(event@),
            action matches NodeAction::NotifyOffer { summary } ==> summary.well_formed(),
    {
        match event {
            NodeEvent::ConnectionEstablished { connection } => {
                self.connections.insert(connection);
                NodeAction::NotifyPeerCount { count: self.connections.len() }
            },
            NodeEvent::ConnectionClosed { connection } => {
                self.connections.remove(&connection);
                NodeAction::NotifyPeerCount { count: self.connections.len() }
            },
            NodeEvent::GossipMessage { payload, content_hash } => {
                match self.channel.screen(payload.len(), content_hash) {
                    Admission::Fresh => {
                        let text = text_of_payload(payload.as_slice());
                        Node::discover(text.as_str())
                    },
                    _ => NodeAction::Ignore,
                }
            },
            NodeEvent::PublishRequest { offer, content_hash } => {
                let payload = offer.as_str().as_bytes_vec();
                match self.channel.publish(payload.len(), content_hash) {
                    Ok(()) => NodeAction::Publish { payload },
                    Err(error) => NodeAction::RejectPublish { error },
                }
            },
        }
    }

    /// Handles a message that arrived on the offer topic.
    pub fn receive(&mut self, payload: Vec<u8>) -> (action: NodeAction)
        requires
            old(self).well_formed(),
        ensures
            final(self).well_formed(),
            old(self)@.handles(
                gossip_message(payload@, content_hash_of(payload@)),
                final(self)@,
                action@,
            ),
            action matches NodeAction::NotifyOffer { summary } ==> summary.well_formed(),
    {
        let content_hash = content_hash(payload.as_slice());
        let ghost event = gossip_message(payload@, content_hash);
        let action = self.step(NodeEvent::GossipMessage { payload, content_hash });
        assert(old(self)@.handles(event, self@, action@));
        action
    }

    /// Handles an offer that the host wants broadcast.
    pub fn submit(&mut self, offer: String) -> (action: NodeAction)
        requires
            old(self).well_formed(),
        ensures
            final(self).well_formed(),
            old(self)@.handles(
                publish_request(offer@, content_hash_of(vstd::utf8::encode_utf8(offer@))),
                final(self)@,
                action@,
            ),
    {
        let content_hash = content_hash(offer.as_str().as_bytes());
        let ghost event = publish_request(offer@, content_hash);
        let action = self.step(NodeEvent::PublishRequest { offer, content_hash });
        assert(old(self)@.handles(event, self@, action@));
        action
    }
}

/// The state after a sequence of events, taken in their order.
pub open spec fn run(node: NodeView, events: Seq<NodeEventView>) -> NodeView
    decreases events.len(),
{
    if events.len() == 0 {
        node
    } else {
        run(node, events.drop_last()).next(events.last())
    }
}

/// Whether an event is the arrival of a payload with a given content hash.
pub open spec fn carries(event: NodeEventView, content_hash: u64) -> bool {
    event matches NodeEventView::GossipMessage { content_hash: carried, .. } && carried
        == content_hash
}

/// How often, over a sequence of events, the host is told of an offer that
/// arrived with a given content hash.
pub open spec fn discoveries(node: NodeView, events: Seq<NodeEventView>, content_hash: u64) -> nat
    decreases events.len(),
{
    if events.len() == 0 {
        0
    } else {
        let before = run(node, events.drop_last());
        discoveries(node, events.drop_last(), content_hash) + if carries(
            events.last(),
            content_hash,
        ) && before.action(events.last()) is NotifyOffer {
            1nat
        } else {
            0nat
        }
    }
}

/// A payload above the cap changes nothing and calls for nothing: it is not
/// decoded, and the host is not told.
pub proof fn lemma_oversized_message_is_ignored(node: NodeView, payload: Seq<u8>, content_hash: u64)
    requires
        payload.len() > node.channel.max_payload,
    ensures
        node.next(gossip_message(payload, content_hash)) == node,
        node.action(gossip_message(payload, content_hash)) == NodeActionView::Ignore,
{
}

/// An offer of the host above the cap is refused and leaves no trace.
pub proof fn lemma_oversized_offer_is_refused(node: NodeView, offer: Seq<char>, content_hash: u64)
    requires
        vstd::utf8::encode_utf8(offer).len() > node.channel.max_payload,
    ensures
        node.next(publish_request(offer, content_hash)) == node,
        node.action(publish_request(offer, content_hash)) == (NodeActionView::RejectPublish {
            error: PublishError::PayloadTooLarge,
        }),
{
}

/// The same payload delivered a second time, by whichever peer, changes
/// nothing and calls for nothing.
pub proof fn lemma_second_delivery_is_ignored(node: NodeView, payload: Seq<u8>, content_hash: u64)
    ensures
        ({
            let event = gossip_message(payload, content_hash);
            let after = node.next(event);
            after.next(event) == after && after.action(event) == NodeActionView::Ignore
        }),
{
}

/// The same payload arriving twice, from whichever peers, is looked at once:
/// the second arrival changes nothing and calls for nothing, so the host is
/// told of the offer at most once.
pub proof fn lemma_same_payload_is_told_once(node: NodeView, payload: Seq<u8>)
    ensures
        ({
            let event = gossip_message(payload, content_hash_of(payload));
            let after = node.next(event);
            &&& after.next(event) == after
            &&& after.action(event) == NodeActionView::Ignore
            &&& discoveries(node, seq![event, event], content_hash_of(payload)) <= 1
        }),
{
    let event = gossip_message(payload, content_hash_of(payload));
    lemma_at_most_one_discovery(node, seq![event, event], content_hash_of(payload));
}

/// What the channel has met, it never forgets.
pub proof fn lemma_seen_is_kept(node: NodeView, event: NodeEventView, content_hash: u64)
    requires
        node.channel.seen.contains(content_hash),
    ensures
        node.next(event).channel.seen.contains(content_hash),
{
}

/// Over any sequence of events the host is told at most once of an offer
/// with a given content hash, however often and from wherever it arrives.
pub proof fn lemma_at_most_one_discovery(
    node: NodeView,
    events: Seq<NodeEventView>,
    content_hash: u64,
)
    ensures
        discoveries(node, events, content_hash) <= 1,
        discoveries(node, events, content_hash) == 1 ==> run(node, events).channel.seen.contains(
            content_hash,
        ),
        node.channel.seen.contains(content_hash) ==> discoveries(node, events, content_hash) == 0
            && run(node, events).channel.seen.contains(content_hash),
    decreases events.len(),
{
    if events.len() > 0 {
        let before = run(node, events.drop_last());
        lemma_at_most_one_discovery(node, events.drop_last(), content_hash);
        if before.channel.seen.contains(content_hash) {
            lemma_seen_is_kept(before, events.last(), content_hash);
        }
    }
}

/// A connection that opens and closes again brings the peer count up by one
/// and back to where it was, and the host is told of both counts.
pub proof fn lemma_connect_then_disconnect(node: NodeView, connection: u64)
    requires
        node.well_formed(),
        !node.connections.contains(connection),
    ensures
        ({
            let opened = NodeEventView::ConnectionEstablished { connection };
            let closed = NodeEventView::ConnectionClosed { connection };
            let connected = node.next(opened);
            &&& node.action(opened) == NodeActionView::NotifyPeerCount {
                count: node.peer_count() + 1,
            }
            &&& connected.peer_count() == node.peer_count() + 1
            &&& connected.action(closed) == NodeActionView::NotifyPeerCount {
                count: node.peer_count(),
            }
            &&& connected.next(closed) == node
        }),
{
    let opened = NodeEventView::ConnectionEstablished { connection };
    let closed = NodeEventView::ConnectionClosed { connection };
    let connected = node.next(opened);
    assert(connected.connections.remove(connection) =~= node.connections);
    assert(connected.next(closed).connections == node.connections);
}

/// The count that the host is told is the number of connections open after
/// the event.
pub proof fn lemma_count_follows_connections(node: NodeView, event: NodeEventView)
    requires
        event is ConnectionEstablished || event is ConnectionClosed,
    ensures
        node.action(event) == (NodeActionView::NotifyPeerCount {
            count: node.next(event).peer_count(),
        }),
{
}

} // verus!
