//! The gossip channel: which payloads are let through, and under which
//! identity a message travels.

use crate::encoding::{decimal_string, decimal_text};
use std::collections::hash_map::DefaultHasher;
use std::collections::HashSet;
use std::hash::{Hash, Hasher};
use vstd::prelude::*;
use vstd::std_specs::hash::DefaultHasherAdditionalSpecFns;

verus! {

broadcast use vstd::std_specs::hash::group_hash_axioms;

/// The largest payload that is sent or accepted, in bytes.
pub const MAX_OFFER_SIZE: usize = 300 * 1024;

/// The seconds between two heartbeats of the gossip protocol.
pub const HEARTBEAT_INTERVAL_SECS: u64 = 5;

/// The seconds after which a query of the routing table gives up.
pub const QUERY_TIMEOUT_SECS: u64 = 60;

/// The topic on which offers are gossiped.
pub const OFFER_TOPIC: &'static str = "/splash/offers/1";

/// The protocol name of the routing table.
pub const ROUTING_PROTOCOL: &'static str = "/splash/kad/1";

/// The protocol name under which nodes identify themselves.
pub const IDENTIFY_PROTOCOL: &'static str = "/splash/id/1";

/// The writes by which `Hash::hash` feeds a byte slice to a hasher: the
/// length of the slice and its bytes, in the form that the standard library
/// of the build gives them.
pub uninterp spec fn hashed_writes(payload: Seq<u8>) -> Seq<Seq<u8>>;

/// The hash of a payload by which duplicates are told: what a new
/// `DefaultHasher` gives once the payload is fed to it. It depends on the
/// bytes of the payload alone, not on who sent them.
pub open spec fn content_hash_of(payload: Seq<u8>) -> u64 {
    DefaultHasher::spec_finish(hashed_writes(payload))
}

/// Calls `Hash::hash` for a byte slice, which adds to what the hasher was
/// fed before and writes nothing but what the slice holds.
#[verifier::external_body]
fn feed_payload(payload: &[u8], state: &mut DefaultHasher)
    ensures
        final(state)@ == old(state)@ + hashed_writes(payload@),
{
    Hash::hash(payload, state)
}

/// Computes the content hash of a payload.
pub fn content_hash(payload: &[u8]) -> (hash: u64)
    ensures
        hash == content_hash_of(payload@),
{
    let mut state = DefaultHasher::new();
    feed_payload(payload, &mut state);
    assert(state@ =~= hashed_writes(payload@));
    state.finish()
}

/// The identity of a message with a given content hash: the hash in decimal
/// notation.
pub fn message_id_of(content_hash: u64) -> (id: String)
    ensures
        id@ == decimal_text(content_hash as nat),
{
    decimal_string(content_hash)
}

/// The identity of a message: the content hash of its payload in decimal
/// notation, whoever sent it and by whichever path it came.
pub fn message_id(payload: &[u8]) -> (id: String)
    ensures
        id@ == decimal_text(content_hash_of(payload@) as nat),
{
    message_id_of(content_hash(payload))
}

/// Why a payload was not published.
#[derive(Clone, Copy, Debug, PartialEq, Eq)]
pub enum PublishError {
    /// The payload is larger than the channel's cap.
    PayloadTooLarge,
}

/// What the channel makes of an incoming payload.
#[derive(Clone, Copy, Debug, PartialEq, Eq)]
pub enum Admission {
    /// The payload is larger than the cap: it is dropped unread.
    Oversized,
    /// A payload with this content hash was let through or published before.
    Duplicate,
    /// The payload is new: it goes on to the local consumers.
    Fresh,
}

/// The state of the channel: the cap on payloads and the content hashes of
/// the payloads met so far.
#[derive(Debug)]
pub struct GossipChannel {
    max_payload: usize,
    seen: HashSet<u64>,
}

pub ghost struct GossipChannelView {
    pub max_payload: usize,
    pub seen: Set<u64>,
}

impl GossipChannelView {
    /// What the channel makes of an incoming payload of a given size and
    /// content hash.
    pub open spec fn admission(self, size: nat, content_hash: u64) -> Admission {
        if size > self.max_payload {
            Admission::Oversized
        } else if self.seen.contains(content_hash) {
            Admission::Duplicate
        } else {
            Admission::Fresh
        }
    }

    /// The channel after it has met a content hash.
    pub open spec fn remember(self, content_hash: u64) -> GossipChannelView {
        GossipChannelView { seen: self.seen.insert(content_hash), ..self }
    }

    /// The channel after an incoming payload: only a fresh one leaves a trace.
    pub open spec fn after_inbound(self, size: nat, content_hash: u64) -> GossipChannelView {
        if self.admission(size, content_hash) == Admission::Fresh {
            self.remember(content_hash)
        } else {
            self
        }
    }

    /// Whether a payload of a given size may be published.
    pub open spec fn may_publish(self, size: nat) -> bool {
        size <= self.max_payload
    }

    /// The channel after a request to publish: a payload that is sent is
    /// remembered, so that its echo is told as a duplicate.
    pub open spec fn after_publish(self, size: nat, content_hash: u64) -> GossipChannelView {
        if self.may_publish(size) {
            self.remember(content_hash)
        } else {
            self
        }
    }
}

impl View for GossipChannel {
    type V = GossipChannelView;

    closed spec fn view(&self) -> GossipChannelView {
        GossipChannelView { max_payload: self.max_payload, seen: self.seen@ }
    }
}

impl GossipChannel {
    /// A channel with a cap that has met nothing yet.
    pub fn new(max_payload: usize) -> (channel: GossipChannel)
        ensures
            channel@ == (GossipChannelView { max_payload, seen: Set::<u64>::empty() }),
    {
        GossipChannel { max_payload, seen: HashSet::new() }
    }

    /// The cap on payloads, in bytes.
    pub fn max_payload(&self) -> (cap: usize)
        ensures
            cap == self@.max_payload,
    {
        self.max_payload
    }

    /// Decides on an incoming payload by its size and content hash. An
    /// oversized payload and a duplicate leave the channel as it was; a fresh
    /// payload is remembered.
    pub fn screen(&mut self, size: usize, content_hash: u64) -> (admission: Admission)
        ensures
            admission == old(self)@.admission(size as nat, content_hash),
            final(self)@ == old(self)@.after_inbound(size as nat, content_hash),
    {
        if size > self.max_payload {
            Admission::Oversized
        } else if self.seen.contains(&content_hash) {
            Admission::Duplicate
        } else {
            self.seen.insert(content_hash);
            Admission::Fresh
        }
    }

    /// Decides on a request to publish a payload of a given size. A payload
    /// above the cap is refused and never sent; any other is remembered.
    pub fn publish(&mut self, size: usize, content_hash: u64) -> (r: Result<(), PublishError>)
        ensures
            r is Ok <==> old(self)@.may_publish(size as nat),
            r is Err ==> r == Err::<(), PublishError>(PublishError::PayloadTooLarge),
            final(self)@ == old(self)@.after_publish(size as nat, content_hash),
    {
        if size > self.max_payload {
            Err(PublishError::PayloadTooLarge)
        } else {
            self.seen.insert(content_hash);
            Ok(())
        }
    }
}

/// A payload above the cap is dropped and leaves no trace in the channel.
pub proof fn lemma_oversized_is_dropped(channel: GossipChannelView, size: nat, content_hash: u64)
    requires
        size > channel.max_payload,
    ensures
        channel.admission(size, content_hash) == Admission::Oversized,
        channel.after_inbound(size, content_hash) == channel,
        !channel.may_publish(size),
        channel.after_publish(size, content_hash) == channel,
{
}

/// A payload that was let through once is a duplicate the next time, from
/// whichever peer it comes.
pub proof fn lemma_second_delivery_is_duplicate(
    channel: GossipChannelView,
    size: nat,
    content_hash: u64,
)
    requires
        channel.admission(size, content_hash) == Admission::Fresh,
    ensures
        channel.after_inbound(size, content_hash).admission(size, content_hash)
            == Admission::Duplicate,
{
}

} // verus!
