//! The requested payments of an offer, grouped by asset in the order in which
//! the assets first appear.

use crate::asset::{AssetId, AssetIdView};
use crate::payments::{notarized_views, NotarizedPayment, NotarizedPaymentView};
use vstd::prelude::*;

verus! {

#[verifier::external_type_specification]
#[verifier::external_body]
#[verifier::reject_recursive_types(K)]
#[verifier::reject_recursive_types(V)]
#[verifier::reject_recursive_types(S)]
pub struct ExIndexMap<K, V, S>(indexmap::IndexMap<K, V, S>);

/// What is requested of one asset: the puzzle of the first settlement record
/// that named the asset, and the notarized payments of all such records.
#[derive(Clone, Debug, PartialEq, Eq)]
pub struct RequestedEntry {
    pub puzzle: Vec<u8>,
    pub payments: Vec<NotarizedPayment>,
}

pub ghost struct RequestedEntryView {
    pub puzzle: Seq<u8>,
    pub payments: Seq<NotarizedPaymentView>,
}

impl View for RequestedEntry {
    type V = RequestedEntryView;

    open spec fn view(&self) -> RequestedEntryView {
        RequestedEntryView { puzzle: self.puzzle@, payments: notarized_views(self.payments@) }
    }
}

/// The key of an asset: the kind of the asset and the 32 bytes that name it
/// within its kind.
pub type AssetKey = (u8, [u8; 32]);

/// The key of an asset with its identifier as a byte sequence.
pub type KeyView = (u8, Seq<u8>);

/// The kind of the native currency, whose identifier is 32 zero bytes.
pub const KIND_NATIVE: u8 = 0;

/// The kind of a fungible token.
pub const KIND_TOKEN: u8 = 1;

/// The kind of a non-fungible item.
pub const KIND_NFT: u8 = 2;

/// The requested payments, keyed by kind and identifier of the asset.
pub type RequestedPayments = indexmap::IndexMap<(u8, [u8; 32]), RequestedEntry>;

/// The entries of the map as a sequence of keys and values.
pub type Entries = Seq<(KeyView, RequestedEntryView)>;

/// The key of an asset. Assets of different kinds have different keys, also
/// where their identifiers hold the same bytes.
pub open spec fn requested_key(asset: AssetIdView) -> KeyView {
    match asset {
        AssetIdView::Native => (KIND_NATIVE, Seq::new(32, |i: int| 0u8)),
        AssetIdView::Token { asset_id } => (KIND_TOKEN, asset_id),
        AssetIdView::Nft { launcher_id } => (KIND_NFT, launcher_id),
    }
}

/// The asset of a key. A kind that is neither token nor item is the native
/// currency.
pub open spec fn key_asset(key: KeyView) -> AssetIdView {
    if key.0 == KIND_TOKEN {
        AssetIdView::Token { asset_id: key.1 }
    } else if key.0 == KIND_NFT {
        AssetIdView::Nft { launcher_id: key.1 }
    } else {
        AssetIdView::Native
    }
}

/// The key of an asset.
pub fn asset_key(asset: &AssetId) -> (key: AssetKey)
    ensures
        (key.0, key.1@) == requested_key(asset@),
{
    match asset {
        AssetId::Native => {
            let zeros = [0u8; 32];
            assert(zeros@ =~= Seq::new(32, |i: int| 0u8));
            (KIND_NATIVE, zeros)
        },
        AssetId::Token { asset_id } => (KIND_TOKEN, *asset_id),
        AssetId::Nft { launcher_id } => (KIND_NFT, *launcher_id),
    }
}

/// The asset of a key.
pub fn asset_of_key(key: &AssetKey) -> (asset: AssetId)
    ensures
        asset@ == key_asset((key.0, key.1@)),
{
    if key.0 == KIND_TOKEN {
        AssetId::Token { asset_id: key.1 }
    } else if key.0 == KIND_NFT {
        AssetId::Nft { launcher_id: key.1 }
    } else {
        AssetId::Native
    }
}

/// An asset is found again by its key.
pub proof fn lemma_key_names_asset(asset: AssetIdView)
    ensures
        key_asset(requested_key(asset)) == asset,
{
}

/// The entries that an `IndexMap` holds, in its own order, which is the order
/// in which the keys were first inserted.
pub uninterp spec fn entries_of(map: RequestedPayments) -> Entries;

/// Whether some entry has the key.
pub open spec fn has_key(entries: Entries, key: KeyView) -> bool {
    exists|i: int| 0 <= i < entries.len() && (#[trigger] entries[i]).0 == key
}

/// The position of an entry with the key.
pub open spec fn key_index(entries: Entries, key: KeyView) -> int {
    choose|i: int| 0 <= i < entries.len() && (#[trigger] entries[i]).0 == key
}

/// No key occurs twice.
pub open spec fn keys_distinct(entries: Entries) -> bool {
    forall|i: int, j: int|
        0 <= i < j < entries.len() ==> (#[trigger] entries[i]).0 != (#[trigger] entries[j]).0
}

/// The entries after a value is stored under a key: in the place of the old
/// value where the key is present, at the end otherwise.
pub open spec fn stored(entries: Entries, key: KeyView, value: RequestedEntryView) -> Entries {
    if has_key(entries, key) {
        entries.update(key_index(entries, key), (key, value))
    } else {
        entries.push((key, value))
    }
}

/// The value under a key, or the given one where the key is absent.
pub open spec fn value_or(entries: Entries, key: KeyView, fresh: RequestedEntryView)
    -> RequestedEntryView {
    if has_key(entries, key) {
        entries[key_index(entries, key)].1
    } else {
        fresh
    }
}

/// Calls `IndexMap::new`, which makes a map without entries.
#[verifier::external_body]
pub(crate) fn new_requested() -> (map: RequestedPayments)
    ensures
        entries_of(map) == Entries::empty(),
{
    indexmap::IndexMap::new()
}

/// Calls `IndexMap::entry` and `Entry::or_insert`. Where the key is present
/// the reference leads to its value and nothing moves; where it is absent the
/// key enters at the end with the given value. What the caller then writes
/// through the reference is what the map holds under the key.
#[verifier::external_body]
pub(crate) fn entry_or_insert(
    map: &mut RequestedPayments,
    key: AssetKey,
    fresh: RequestedEntry,
) -> (slot: &mut RequestedEntry)
    ensures
        slot@ == value_or(entries_of(*old(map)), (key.0, key.1@), fresh@),
        entries_of(*final(map)) == stored(
            entries_of(*old(map)),
            (key.0, key.1@),
            (*final(slot))@,
        ),
{
    map.entry(key).or_insert(fresh)
}

/// Calls `IndexMap::len`, the number of entries.
#[verifier::external_body]
pub(crate) fn requested_len(map: &RequestedPayments) -> (len: usize)
    ensures
        len == entries_of(*map).len(),
{
    map.len()
}

/// Calls `IndexMap::get_index`, which hands out the entry at a position
/// below the length.
#[verifier::external_body]
pub(crate) fn requested_at(map: &RequestedPayments, index: usize) -> (entry: (
    &AssetKey,
    &RequestedEntry,
))
    requires
        index < entries_of(*map).len(),
    ensures
        (((*entry.0).0, (*entry.0).1@), (*entry.1)@) == entries_of(*map)[index as int],
{
    map.get_index(index).unwrap()
}

/// Storing under a key keeps the keys distinct.
pub proof fn lemma_stored_keeps_distinct(entries: Entries, key: KeyView, value: RequestedEntryView)
    requires
        keys_distinct(entries),
    ensures
        keys_distinct(stored(entries, key, value)),
        has_key(stored(entries, key, value), key),
{
    let after = stored(entries, key, value);
    if has_key(entries, key) {
        let k = key_index(entries, key);
        assert(after[k].0 == key);
        assert forall|i: int, j: int| 0 <= i < j < after.len() implies (#[trigger] after[i]).0
            != (#[trigger] after[j]).0 by {
            assert(entries[i].0 != entries[j].0);
            if i == k {
                assert(entries[k].0 == key);
            }
            if j == k {
                assert(entries[k].0 == key);
            }
        }
    } else {
        assert(after[entries.len() as int].0 == key);
        assert forall|i: int, j: int| 0 <= i < j < after.len() implies (#[trigger] after[i]).0
            != (#[trigger] after[j]).0 by {
            if j < entries.len() {
                assert(entries[i].0 != entries[j].0);
            } else {
                assert(entries[i].0 != key);
            }
        }
    }
}

} // verus!
