//! Offer relay node: decoding of trade offers, classification of the assets
//! they move, summaries for the host, and the decisions of the gossip node.

pub mod address_book;
pub mod asset;
pub mod bundle;
pub mod codec;
pub mod encoding;
pub mod gossip;
pub mod node;
pub mod offer;
pub mod payments;
pub mod requested;
pub mod summary;
pub mod totals;
