//! The address book: the bootstrap peers with which the routing table starts.

use crate::bundle::copy_bytes;
use vstd::prelude::*;

verus! {

/// A bootstrap address as it was supplied: its text, and the peer identity
/// that its last component carries, if it carries one.
#[derive(Clone, Debug, PartialEq, Eq)]
pub struct BootstrapAddress {
    pub address: String,
    pub peer_id: Option<Vec<u8>>,
}

/// A peer to seed the routing table with: its identity and an address under
/// which it was reachable.
#[derive(Clone, Debug, PartialEq, Eq)]
pub struct RoutingSeed {
    pub peer_id: Vec<u8>,
    pub address: String,
}

/// Why a node cannot start.
#[derive(Clone, Copy, Debug, PartialEq, Eq)]
pub enum StartupError {
    /// The bootstrap address at this position carries no peer identity.
    MissingPeerIdentity { index: usize },
}

/// Whether every address before a position carries a peer identity.
pub open spec fn identified_before(addresses: Seq<BootstrapAddress>, n: int) -> bool {
    forall|i: int| 0 <= i < n ==> (#[trigger] addresses[i]).peer_id is Some
}

/// The seeds of the routing table: one for each bootstrap address, in the
/// order of the address book. The first address without a peer identity
/// stops the start.
pub fn routing_seeds(addresses: &Vec<BootstrapAddress>) -> (r: Result<
    Vec<RoutingSeed>,
    StartupError,
>)
    ensures
        match r {
            Ok(seeds) => {
                &&& identified_before(addresses@, addresses@.len() as int)
                &&& seeds@.len() == addresses@.len()
                &&& forall|i: int|
                    0 <= i < seeds@.len() ==> {
                        &&& (#[trigger] seeds@[i]).peer_id@ == addresses@[i].peer_id.unwrap()@
                        &&& seeds@[i].address@ == addresses@[i].address@
                    }
            },
            Err(StartupError::MissingPeerIdentity { index }) => {
                &&& index < addresses@.len()
                &&& addresses@[index as int].peer_id is None
                &&& identified_before(addresses@, index as int)
            },
        },
{
    let mut seeds: Vec<RoutingSeed> = Vec::new();
    let mut i: usize = 0;
    while i < addresses.len()
        invariant
            i <= addresses.len(),
            identified_before(addresses@, i as int),
            seeds@.len() == i,
            forall|j: int|
                0 <= j < i ==> {
                    &&& (#[trigger] seeds@[j]).peer_id@ == addresses@[j].peer_id.unwrap()@
                    &&& seeds@[j].address@ == addresses@[j].address@
                },
        decreases addresses.len() - i,
    {
        match &addresses[i].peer_id {
            Some(peer_id) => {
                seeds.push(
                    RoutingSeed {
                        peer_id: copy_bytes(peer_id),
                        address: addresses[i].address.clone(),
                    },
                );
            },
            None => {
                return Err(StartupError::MissingPeerIdentity { index: i });
            },
        }
        i += 1;
    }
    Ok(seeds)
}

impl StartupError {
    /// The message with which the start is given up.
    pub fn message(&self) -> (text: String)
        ensures
            text@ == "Expect peer multiaddr to contain peer ID."@,
    {
        "Expect peer multiaddr to contain peer ID.".to_owned()
    }
}

} // verus!
