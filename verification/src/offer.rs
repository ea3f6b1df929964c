//! An offer taken apart: the coins it offers and the payments it requests.

use crate::asset::{asset_of, classify_puzzle, is_program, load_program, token_layer_of};
use crate::bundle::{
    coin_spend_views, copy_bytes, CoinSpend, CoinSpendView, SpendBundle, SpendBundleView,
};
use crate::payments::{
    lemma_notarized_total_concat, notarized_total, notarized_views, parse_settlement_solution,
    settlement_payments, NotarizedPaymentView,
};
use crate::requested::{
    asset_key, entries_of, entry_or_insert, has_key, key_index, keys_distinct,
    lemma_stored_keeps_distinct, new_requested, requested_key, stored, value_or, AssetKey, Entries,
    KeyView, RequestedEntry, RequestedEntryView, RequestedPayments, KIND_NFT, KIND_TOKEN,
};
use vstd::prelude::*;

verus! {

/// Why a settlement record could not be read.
#[derive(Clone, Copy, Debug, PartialEq, Eq)]
pub enum ClassifyError {
    /// The solution of a settlement record is no serialised program.
    UnreadableSolution,
    /// The solution of a settlement record is no list of notarized payments.
    MalformedSolution,
    /// The puzzle of a settlement record is no serialised program.
    UnreadablePuzzle,
}

impl ClassifyError {
    /// The reason in words.
    pub open spec fn spec_message(&self) -> Seq<char> {
        match *self {
            ClassifyError::UnreadableSolution => "unreadable settlement solution"@,
            ClassifyError::MalformedSolution => "malformed settlement solution"@,
            ClassifyError::UnreadablePuzzle => "unreadable settlement puzzle"@,
        }
    }

    /// The reason in words, for the host to show.
    pub fn message(&self) -> (text: String)
        ensures
            text@ == self.spec_message(),
    {
        match self {
            ClassifyError::UnreadableSolution => "unreadable settlement solution".to_owned(),
            ClassifyError::MalformedSolution => "malformed settlement solution".to_owned(),
            ClassifyError::UnreadablePuzzle => "unreadable settlement puzzle".to_owned(),
        }
    }
}

/// The coin spends that offer something, in their order in the bundle, and
/// the requested payments grouped by asset.
#[derive(Debug)]
pub struct ParsedOffer {
    pub coin_spends: Vec<CoinSpend>,
    pub aggregated_signature: [u8; 96],
    pub requested_payments: RequestedPayments,
}

pub ghost struct ParsedOfferView {
    pub coin_spends: Seq<CoinSpendView>,
    pub aggregated_signature: Seq<u8>,
    pub requested_payments: Entries,
}

impl View for ParsedOffer {
    type V = ParsedOfferView;

    open spec fn view(&self) -> ParsedOfferView {
        ParsedOfferView {
            coin_spends: coin_spend_views(self.coin_spends@),
            aggregated_signature: self.aggregated_signature@,
            requested_payments: entries_of(self.requested_payments),
        }
    }
}

impl ParsedOfferView {
    /// No asset has two entries among the requested payments.
    pub open spec fn well_formed(self) -> bool {
        keys_distinct(self.requested_payments)
    }
}

impl ParsedOffer {
    /// No asset has two entries among the requested payments.
    pub open spec fn well_formed(&self) -> bool {
        self@.well_formed()
    }
}

/// The entries after the payments of one settlement record are added: they
/// follow the payments already requested of the asset, and the puzzle of the
/// asset's first record stays.
pub open spec fn with_payments(
    entries: Entries,
    key: KeyView,
    puzzle: Seq<u8>,
    payments: Seq<NotarizedPaymentView>,
) -> Entries {
    let before = value_or(entries, key, RequestedEntryView { puzzle, payments: Seq::empty() });
    stored(
        entries,
        key,
        RequestedEntryView { puzzle: before.puzzle, payments: before.payments + payments },
    )
}

/// An offer without coin spends and without requested payments.
pub open spec fn nothing_parsed(aggregated_signature: Seq<u8>) -> ParsedOfferView {
    ParsedOfferView {
        coin_spends: Seq::empty(),
        aggregated_signature,
        requested_payments: Seq::empty(),
    }
}

/// One record more: an offered coin is kept as it is; the payments of a
/// settlement record are read from its solution and added under the asset
/// of its puzzle.
pub open spec fn with_record(offer: ParsedOfferView, record: CoinSpendView) -> Result<
    ParsedOfferView,
    ClassifyError,
> {
    if !record.is_settlement() {
        Ok(ParsedOfferView { coin_spends: offer.coin_spends.push(record), ..offer })
    } else if !is_program(record.solution) {
        Err(ClassifyError::UnreadableSolution)
    } else {
        match settlement_payments(record.solution) {
            None => Err(ClassifyError::MalformedSolution),
            Some(payments) => if !is_program(record.puzzle_reveal) {
                Err(ClassifyError::UnreadablePuzzle)
            } else {
                Ok(
                    ParsedOfferView {
                        requested_payments: with_payments(
                            offer.requested_payments,
                            requested_key(asset_of(record.puzzle_reveal)),
                            record.puzzle_reveal,
                            payments,
                        ),
                        ..offer
                    },
                )
            },
        }
    }
}

/// The records of a bundle taken one after the other; the first record that
/// cannot be read gives the error.
pub open spec fn with_records(aggregated_signature: Seq<u8>, records: Seq<CoinSpendView>) -> Result<
    ParsedOfferView,
    ClassifyError,
>
    decreases records.len(),
{
    if records.len() == 0 {
        Ok(nothing_parsed(aggregated_signature))
    } else {
        match with_records(aggregated_signature, records.drop_last()) {
            Err(e) => Err(e),
            Ok(offer) => with_record(offer, records.last()),
        }
    }
}

/// What taking a bundle apart gives.
pub open spec fn parsed(bundle: SpendBundleView) -> Result<ParsedOfferView, ClassifyError> {
    with_records(bundle.aggregated_signature, bundle.coin_spends)
}

/// Once a record has failed, the records after it change nothing.
pub proof fn lemma_failure_is_final(
    aggregated_signature: Seq<u8>,
    records: Seq<CoinSpendView>,
    n: int,
)
    requires
        0 <= n <= records.len(),
        with_records(aggregated_signature, records.take(n)) is Err,
    ensures
        with_records(aggregated_signature, records) == with_records(
            aggregated_signature,
            records.take(n),
        ),
    decreases records.len() - n,
{
    if n < records.len() {
        assert(records.take(n + 1).drop_last() =~= records.take(n));
        lemma_failure_is_final(aggregated_signature, records, n + 1);
    } else {
        assert(records.take(n) =~= records);
    }
}

/// The requested payments of a parsed offer never hold an asset twice.
pub proof fn lemma_parsed_is_well_formed(aggregated_signature: Seq<u8>, records: Seq<CoinSpendView>)
    ensures
        with_records(aggregated_signature, records) matches Ok(offer) ==> offer.well_formed(),
    decreases records.len(),
{
    if records.len() > 0 {
        lemma_parsed_is_well_formed(aggregated_signature, records.drop_last());
        match with_records(aggregated_signature, records.drop_last()) {
            Ok(offer) => {
                let record = records.last();
                if with_record(offer, record) is Ok && record.is_settlement() {
                    let key = requested_key(asset_of(record.puzzle_reveal));
                    let before = value_or(
                        offer.requested_payments,
                        key,
                        RequestedEntryView { puzzle: record.puzzle_reveal, payments: Seq::empty() },
                    );
                    lemma_stored_keeps_distinct(
                        offer.requested_payments,
                        key,
                        RequestedEntryView {
                            puzzle: before.puzzle,
                            payments: before.payments + settlement_payments(
                                record.solution,
                            ).unwrap(),
                        },
                    );
                }
            },
            Err(_) => {},
        }
    }
}

/// The sum of all payments requested under a key.
pub open spec fn requested_total(entries: Entries, key: KeyView) -> nat {
    if has_key(entries, key) {
        notarized_total(entries[key_index(entries, key)].1.payments)
    } else {
        0
    }
}

/// The sum of all payments that the settlement records of a sequence request
/// under a key.
pub open spec fn requested_by_records(records: Seq<CoinSpendView>, key: KeyView) -> nat
    decreases records.len(),
{
    if records.len() == 0 {
        0
    } else {
        let record = records.last();
        requested_by_records(records.drop_last(), key) + if record.is_settlement()
            && requested_key(asset_of(record.puzzle_reveal)) == key {
            match settlement_payments(record.solution) {
                Some(payments) => notarized_total(payments),
                None => 0,
            }
        } else {
            0
        }
    }
}

/// Where no key occurs twice, an entry is found by its key.
proof fn lemma_key_index_is_unique(entries: Entries, index: int)
    requires
        keys_distinct(entries),
        0 <= index < entries.len(),
    ensures
        has_key(entries, entries[index].0),
        key_index(entries, entries[index].0) == index,
{
    let key = entries[index].0;
    let found = key_index(entries, key);
    assert(entries[found].0 == key);
    if found < index {
        assert(entries[found].0 != entries[index].0);
    }
    if index < found {
        assert(entries[index].0 != entries[found].0);
    }
}

/// The payments of a settlement record are appended to those already
/// requested of its asset; nothing is replaced, and the payments requested
/// of other assets stay as they are.
pub proof fn lemma_payments_accumulate(
    entries: Entries,
    key: KeyView,
    puzzle: Seq<u8>,
    payments: Seq<NotarizedPaymentView>,
    other: KeyView,
)
    requires
        keys_distinct(entries),
    ensures
        ({
            let after = with_payments(entries, key, puzzle, payments);
            let before = value_or(
                entries,
                key,
                RequestedEntryView { puzzle, payments: Seq::empty() },
            );
            &&& keys_distinct(after)
            &&& has_key(after, key)
            &&& after[key_index(after, key)].1 == RequestedEntryView {
                puzzle: before.puzzle,
                payments: before.payments + payments,
            }
            &&& requested_total(after, key) == requested_total(entries, key) + notarized_total(
                payments,
            )
            &&& other != key ==> has_key(after, other) == has_key(entries, other)
                && requested_total(after, other) == requested_total(entries, other)
        }),
{
    let before = value_or(entries, key, RequestedEntryView { puzzle, payments: Seq::empty() });
    let value = RequestedEntryView { puzzle: before.puzzle, payments: before.payments + payments };
    let after = stored(entries, key, value);
    lemma_stored_keeps_distinct(entries, key, value);
    let place = if has_key(entries, key) {
        key_index(entries, key)
    } else {
        entries.len() as int
    };
    assert(after[place] == (key, value));
    lemma_key_index_is_unique(after, place);
    lemma_notarized_total_concat(before.payments, payments);
    if !has_key(entries, key) {
        assert(before.payments =~= Seq::empty());
    }
    if other != key {
        if has_key(entries, other) {
            let at = key_index(entries, other);
            assert(after[at] == entries[at]);
            lemma_key_index_is_unique(entries, at);
            lemma_key_index_is_unique(after, at);
        }
        if has_key(after, other) {
            let at = key_index(after, other);
            assert(at != place);
            assert(entries[at] == after[at]);
            lemma_key_index_is_unique(entries, at);
            lemma_key_index_is_unique(after, at);
        }
    }
}

/// Of each asset a parsed offer requests, in total, what the settlement
/// records of that asset request.
pub proof fn lemma_requested_totals(
    aggregated_signature: Seq<u8>,
    records: Seq<CoinSpendView>,
    key: KeyView,
)
    ensures
        with_records(aggregated_signature, records) matches Ok(offer) ==> requested_total(
            offer.requested_payments,
            key,
        ) == requested_by_records(records, key),
    decreases records.len(),
{
    if records.len() > 0 {
        lemma_requested_totals(aggregated_signature, records.drop_last(), key);
        lemma_parsed_is_well_formed(aggregated_signature, records.drop_last());
        match with_records(aggregated_signature, records.drop_last()) {
            Ok(offer) => {
                let record = records.last();
                if with_record(offer, record) is Ok && record.is_settlement() {
                    lemma_payments_accumulate(
                        offer.requested_payments,
                        requested_key(asset_of(record.puzzle_reveal)),
                        record.puzzle_reveal,
                        settlement_payments(record.solution).unwrap(),
                        key,
                    );
                }
            },
            Err(_) => {},
        }
    }
}

/// Whether some settlement record of a sequence is classified under a key.
pub open spec fn requests_under(records: Seq<CoinSpendView>, key: KeyView) -> bool {
    exists|i: int|
        0 <= i < records.len() && (#[trigger] records[i]).is_settlement() && requested_key(
            asset_of(records[i].puzzle_reveal),
        ) == key
}

/// The keys of the requested payments are the keys under which the
/// settlement records are classified, and no others.
pub proof fn lemma_keys_come_from_records(
    aggregated_signature: Seq<u8>,
    records: Seq<CoinSpendView>,
    key: KeyView,
)
    ensures
        with_records(aggregated_signature, records) matches Ok(offer) ==> (has_key(
            offer.requested_payments,
            key,
        ) <==> requests_under(records, key)),
    decreases records.len(),
{
    if records.len() > 0 {
        let earlier = records.drop_last();
        let record = records.last();
        lemma_keys_come_from_records(aggregated_signature, earlier, key);
        lemma_parsed_is_well_formed(aggregated_signature, earlier);
        match with_records(aggregated_signature, earlier) {
            Ok(offer) => {
                if with_record(offer, record) is Ok {
                    let own = requested_key(asset_of(record.puzzle_reveal));
                    if record.is_settlement() {
                        lemma_payments_accumulate(
                            offer.requested_payments,
                            own,
                            record.puzzle_reveal,
                            settlement_payments(record.solution).unwrap(),
                            key,
                        );
                    }
                    if requests_under(earlier, key) {
                        let i = choose|i: int|
                            0 <= i < earlier.len() && (#[trigger] earlier[i]).is_settlement()
                                && requested_key(asset_of(earlier[i].puzzle_reveal)) == key;
                        assert(records[i] == earlier[i]);
                    }
                    if requests_under(records, key) {
                        let i = choose|i: int|
                            0 <= i < records.len() && (#[trigger] records[i]).is_settlement()
                                && requested_key(asset_of(records[i].puzzle_reveal)) == key;
                        if i < earlier.len() {
                            assert(earlier[i] == records[i]);
                        }
                    }
                    if record.is_settlement() && own == key {
                        assert(records[records.len() - 1] == record);
                    }
                }
            },
            Err(_) => {},
        }
    }
}

/// The payments of a settlement record whose puzzle holds the token wrapper
/// are requested under the token's key, whatever else the puzzle holds. An
/// item inside the wrapper has a key only where another record is classified
/// as that item.
pub proof fn lemma_token_wrapped_request_is_keyed_by_token(
    aggregated_signature: Seq<u8>,
    records: Seq<CoinSpendView>,
    index: int,
    asset_id: Seq<u8>,
    launcher_id: Seq<u8>,
)
    requires
        0 <= index < records.len(),
        records[index].is_settlement(),
        token_layer_of(records[index].puzzle_reveal) == Some(asset_id),
        with_records(aggregated_signature, records) is Ok,
    ensures
        requested_key(asset_of(records[index].puzzle_reveal)) == (KIND_TOKEN, asset_id),
        ({
            let offer = with_records(aggregated_signature, records).unwrap();
            &&& has_key(offer.requested_payments, (KIND_TOKEN, asset_id))
            &&& requested_total(offer.requested_payments, (KIND_TOKEN, asset_id))
                == requested_by_records(records, (KIND_TOKEN, asset_id))
            &&& has_key(offer.requested_payments, (KIND_NFT, launcher_id)) ==> requests_under(
                records,
                (KIND_NFT, launcher_id),
            )
        }),
{
    lemma_keys_come_from_records(aggregated_signature, records, (KIND_TOKEN, asset_id));
    lemma_keys_come_from_records(aggregated_signature, records, (KIND_NFT, launcher_id));
    lemma_requested_totals(aggregated_signature, records, (KIND_TOKEN, asset_id));
}

/// A parsed offer keeps exactly the records that are no settlement records,
/// in their order, and the signature of the bundle.
pub proof fn lemma_offered_coins_are_kept(
    aggregated_signature: Seq<u8>,
    records: Seq<CoinSpendView>,
)
    ensures
        with_records(aggregated_signature, records) matches Ok(offer) ==> offer.coin_spends
            == records.filter(|record: CoinSpendView| !record.is_settlement())
            && offer.aggregated_signature == aggregated_signature,
    decreases records.len(),
{
    reveal(Seq::filter);
    if records.len() > 0 {
        lemma_offered_coins_are_kept(aggregated_signature, records.drop_last());
    }
}

/// The key under which the payments requested through a puzzle are kept.
fn requested_key_of(puzzle: &[u8]) -> (key: AssetKey)
    ensures
        (key.0, key.1@) == requested_key(asset_of(puzzle@)),
{
    let asset = classify_puzzle(puzzle);
    asset_key(&asset)
}

/// Takes apart a bundle that holds at least one coin spend. The coin spends
/// that offer something are kept in
/// their order. Each settlement record has its solution read into notarized
/// payments, which are added to those already requested of the asset that
/// its puzzle stands for. The first record that cannot be read gives the
/// error, and no offer comes back.
pub fn parse(bundle: SpendBundle) -> (r: Result<ParsedOffer, ClassifyError>)
    requires
        bundle.well_formed(),
    ensures
        match parsed(bundle@) {
            Ok(offer) => r matches Ok(p) && p@ == offer && p.well_formed(),
            Err(e) => r == Err::<ParsedOffer, ClassifyError>(e),
        },
{
    let ghost signature = bundle.aggregated_signature@;
    let ghost records = bundle@.coin_spends;
    let mut coin_spends: Vec<CoinSpend> = Vec::new();
    let mut requested = new_requested();
    let mut i: usize = 0;
    proof {
        assert(records.take(0) =~= Seq::empty());
        assert(coin_spend_views(coin_spends@) =~= Seq::empty());
    }
    while i < bundle.coin_spends.len()
        invariant
            i <= bundle.coin_spends.len(),
            signature == bundle.aggregated_signature@,
            records == coin_spend_views(bundle.coin_spends@),
            with_records(signature, records.take(i as int)) == Ok::<ParsedOfferView, ClassifyError>(
                ParsedOfferView {
                    coin_spends: coin_spend_views(coin_spends@),
                    aggregated_signature: signature,
                    requested_payments: entries_of(requested),
                },
            ),
        decreases bundle.coin_spends.len() - i,
    {
        let record = &bundle.coin_spends[i];
        let ghost offer = ParsedOfferView {
            coin_spends: coin_spend_views(coin_spends@),
            aggregated_signature: signature,
            requested_payments: entries_of(requested),
        };
        proof {
            assert(records.take(i + 1).drop_last() =~= records.take(i as int));
            assert(records.take(i + 1).last() == record@);
            assert(with_records(signature, records.take(i + 1)) == with_record(offer, record@));
        }
        if !record.is_settlement() {
            coin_spends.push(record.duplicate());
            assert(coin_spend_views(coin_spends@) =~= offer.coin_spends.push(record@));
        } else {
            if load_program(record.solution.as_slice()).is_err() {
                proof {
                    lemma_failure_is_final(signature, records, i + 1);
                }
                return Err(ClassifyError::UnreadableSolution);
            }
            let mut payments = match parse_settlement_solution(record.solution.as_slice()) {
                Ok(payments) => payments,
                Err(_) => {
                    proof {
                        lemma_failure_is_final(signature, records, i + 1);
                    }
                    return Err(ClassifyError::MalformedSolution);
                },
            };
            if load_program(record.puzzle_reveal.as_slice()).is_err() {
                proof {
                    lemma_failure_is_final(signature, records, i + 1);
                }
                return Err(ClassifyError::UnreadablePuzzle);
            }
            let key = requested_key_of(record.puzzle_reveal.as_slice());
            let fresh = RequestedEntry {
                puzzle: copy_bytes(&record.puzzle_reveal),
                payments: Vec::new(),
            };
            let ghost added = payments@;
            let ghost held = value_or(entries_of(requested), (key.0, key.1@), fresh@);
            proof {
                assert(fresh@.payments =~= Seq::empty());
            }
            let slot = entry_or_insert(&mut requested, key, fresh);
            let ghost first = slot.payments@;
            slot.payments.append(&mut payments);
            proof {
                assert(notarized_views(first + added) =~= notarized_views(first) + notarized_views(
                    added,
                ));
                assert(slot@ == RequestedEntryView {
                    puzzle: held.puzzle,
                    payments: held.payments + notarized_views(added),
                });
            }
        }
        i += 1;
    }
    proof {
        assert(records.take(i as int) =~= records);
        lemma_parsed_is_well_formed(signature, records);
    }
    Ok(
        ParsedOffer {
            coin_spends,
            aggregated_signature: bundle.aggregated_signature,
            requested_payments: requested,
        },
    )
}

} // verus!
