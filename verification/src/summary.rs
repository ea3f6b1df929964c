//! The summary of an offer: its identifier and what it offers and requests,
//! added up per asset.

use crate::asset::{asset_label, asset_name, asset_of, get_asset_id, is_program, load_program};
use crate::bundle::{CoinSpendView, SpendBundleView};
use crate::codec::{decode, decoded, DecodeError};
use crate::encoding::{base58_encode, base58_text, sha256_digest, sha256_of_text};
use crate::offer::{
    lemma_keys_come_from_records, parse, parsed, with_payments, with_record, with_records,
    requests_under, ClassifyError, ParsedOffer, ParsedOfferView,
};
use crate::payments::{
    lemma_notarized_total_concat, notarized_total, settlement_payments, sum_notarized,
    NotarizedPaymentView,
};
use crate::requested::{
    asset_of_key, entries_of, has_key, key_asset, key_index, lemma_key_names_asset, requested_at,
    requested_key, requested_len, value_or, Entries, KeyView, RequestedEntryView,
};
use crate::totals::{
    amount_of, labelled, lemma_single_asset_total, lemma_total_covers_item,
    lemma_total_for_push, lemma_total_for_update, lemma_total_is_bounded, lemma_total_of_prefix,
    lemma_totals_push, lemma_unlabelled_total, total_for, total_of_all,
    totals, totals_fit, entry_items, AssetAmount, AssetTotals, Tally,
};
use vstd::prelude::*;

verus! {

/// Why a parsed offer has no summary.
#[derive(Clone, Copy, Debug, PartialEq, Eq)]
pub enum SummaryError {
    /// The puzzle of an offered coin is no serialised program.
    UnreadablePuzzle,
    /// The amounts of one asset add up to more than 64 bits hold.
    AmountOverflow,
}

/// Why the text of an offer has no summary: the step that failed, with its
/// reason.
#[derive(Clone, Copy, Debug, PartialEq, Eq)]
pub enum ParseFailure {
    Decode(DecodeError),
    Classify(ClassifyError),
    Summary(SummaryError),
}

impl SummaryError {
    /// The reason in words.
    pub open spec fn spec_message(&self) -> Seq<char> {
        match *self {
            SummaryError::UnreadablePuzzle => "unreadable puzzle"@,
            SummaryError::AmountOverflow => "amount overflow"@,
        }
    }

    /// The reason in words, for the host to show.
    pub fn message(&self) -> (text: String)
        ensures
            text@ == self.spec_message(),
    {
        match self {
            SummaryError::UnreadablePuzzle => "unreadable puzzle".to_owned(),
            SummaryError::AmountOverflow => "amount overflow".to_owned(),
        }
    }
}

impl ParseFailure {
    /// The reason in words: that of the step that failed.
    pub fn message(&self) -> (text: String)
        ensures
            text@ == match *self {
                ParseFailure::Decode(e) => e.spec_message(),
                ParseFailure::Classify(e) => e.spec_message(),
                ParseFailure::Summary(e) => e.spec_message(),
            },
    {
        match self {
            ParseFailure::Decode(e) => e.message(),
            ParseFailure::Classify(e) => e.message(),
            ParseFailure::Summary(e) => e.message(),
        }
    }
}

/// What a node tells its host about an offer.
#[derive(Clone, Debug, PartialEq, Eq)]
pub struct OfferSummary {
    /// The SHA-256 digest of the offer's text in base 58.
    pub id: String,
    /// The amount offered of each asset, under the asset's reported identifier.
    pub offered_assets: AssetTotals,
    /// The amount requested of each asset, under the asset's reported identifier.
    pub requested_assets: AssetTotals,
    /// The text of the offer as it was received.
    pub offer_string: String,
}

pub ghost struct OfferSummaryView {
    pub id: Seq<char>,
    pub offered_assets: Map<Seq<char>, nat>,
    pub requested_assets: Map<Seq<char>, nat>,
    pub offer_string: Seq<char>,
}

impl View for OfferSummary {
    type V = OfferSummaryView;

    open spec fn view(&self) -> OfferSummaryView {
        OfferSummaryView {
            id: self.id@,
            offered_assets: self.offered_assets@,
            requested_assets: self.requested_assets@,
            offer_string: self.offer_string@,
        }
    }
}

impl OfferSummary {
    /// Both maps hold each identifier once.
    pub open spec fn well_formed(&self) -> bool {
        self.offered_assets.well_formed() && self.requested_assets.well_formed()
    }
}

/// The identifier of an offer: the digest of its text, in base 58.
pub open spec fn offer_id(raw: Seq<char>) -> Seq<char> {
    base58_text(sha256_digest(raw))
}

/// Each offered coin with the reported identifier of its asset.
pub open spec fn offered_items(spends: Seq<CoinSpendView>) -> Tally {
    Seq::new(
        spends.len(),
        |i: int| (asset_label(asset_of(spends[i].puzzle_reveal)), spends[i].coin.amount as nat),
    )
}

/// Each requested asset with the sum of all payments requested of it, under
/// the reported identifier of the asset that its key names.
pub open spec fn requested_items(entries: Entries) -> Tally {
    Seq::new(
        entries.len(),
        |i: int| (asset_label(key_asset(entries[i].0)), notarized_total(entries[i].1.payments)),
    )
}

/// Whether the puzzle of every offered coin is a serialised program.
pub open spec fn puzzles_readable(spends: Seq<CoinSpendView>) -> bool {
    forall|i: int| 0 <= i < spends.len() ==> is_program((#[trigger] spends[i]).puzzle_reveal)
}

/// The summary of a parsed offer. There is none where the puzzle of an
/// offered coin cannot be read, nor where a total does not fit into 64 bits.
pub open spec fn summary_of(raw: Seq<char>, offer: ParsedOfferView) -> Result<
    OfferSummaryView,
    SummaryError,
> {
    if !puzzles_readable(offer.coin_spends) {
        Err(SummaryError::UnreadablePuzzle)
    } else if !totals_fit(offered_items(offer.coin_spends)) || !totals_fit(
        requested_items(offer.requested_payments),
    ) {
        Err(SummaryError::AmountOverflow)
    } else {
        Ok(
            OfferSummaryView {
                id: offer_id(raw),
                offered_assets: totals(offered_items(offer.coin_spends)),
                requested_assets: totals(requested_items(offer.requested_payments)),
                offer_string: raw,
            },
        )
    }
}

/// The summary of an offer given as text: decode it, take the bundle apart,
/// add up. The first step that fails gives the failure.
pub open spec fn offer_summary(raw: Seq<char>) -> Result<OfferSummaryView, ParseFailure> {
    match decoded(raw) {
        Err(e) => Err(ParseFailure::Decode(e)),
        Ok(bundle) => match parsed(bundle) {
            Err(e) => Err(ParseFailure::Classify(e)),
            Ok(offer) => match summary_of(raw, offer) {
                Err(e) => Err(ParseFailure::Summary(e)),
                Ok(summary) => Ok(summary),
            },
        },
    }
}

/// Adds the items up one after the other.
proof fn lemma_add_matches_push(items: Tally, n: int)
    requires
        0 <= n < items.len(),
    ensures
        amount_of(totals(items.take(n)), items[n].0) == total_for(items.take(n), items[n].0),
        totals(items.take(n + 1)) == totals(items.take(n)).insert(
            items[n].0,
            total_for(items.take(n), items[n].0) + items[n].1,
        ),
        total_for(items.take(n), items[n].0) + items[n].1 <= total_for(items, items[n].0),
{
    let label = items[n].0;
    if !labelled(items.take(n), label) {
        lemma_unlabelled_total(items.take(n), label);
    }
    assert(items.take(n + 1) =~= items.take(n).push(items[n]));
    lemma_totals_push(items.take(n), items[n]);
    lemma_total_of_prefix(items, n + 1, label);
    assert(items.take(n + 1).drop_last() =~= items.take(n));
}

/// The totals of labelled amounts, where each fits into 64 bits.
fn add_up(list: &Vec<AssetAmount>) -> (r: Option<AssetTotals>)
    ensures
        match r {
            Some(held) => held.well_formed() && totals_fit(entry_items(list@)) && held@ == totals(
                entry_items(list@),
            ),
            None => !totals_fit(entry_items(list@)),
        },
{
    let ghost items = entry_items(list@);
    let mut held = AssetTotals::new();
    let mut i: usize = 0;
    proof {
        assert(items.take(0) =~= Tally::empty());
        assert(totals(Tally::empty()) =~= Map::<Seq<char>, nat>::empty());
    }
    while i < list.len()
        invariant
            i <= list.len(),
            items == entry_items(list@),
            held.well_formed(),
            held@ == totals(items.take(i as int)),
            forall|label: Seq<char>| #[trigger] total_for(items.take(i as int), label) <= u64::MAX,
        decreases list.len() - i,
    {
        let label = list[i].asset_id.clone();
        proof {
            assert(items[i as int] == (label@, list[i as int].amount as nat));
            lemma_add_matches_push(items, i as int);
        }
        if !held.add(label, list[i].amount) {
            assert(total_for(items, items[i as int].0) > u64::MAX);
            return None;
        }
        proof {
            assert forall|other: Seq<char>| #[trigger]
                total_for(items.take(i + 1), other) <= u64::MAX by {
                assert(items.take(i + 1).drop_last() =~= items.take(i as int));
                assert(total_for(items.take(i as int), other) <= u64::MAX);
            }
        }
        i += 1;
    }
    proof {
        assert(items.take(i as int) =~= items);
    }
    Some(held)
}

/// Each offered coin with the reported identifier of its asset.
fn list_offered(offer: &ParsedOffer) -> (list: Vec<AssetAmount>)
    ensures
        entry_items(list@) == offered_items(offer@.coin_spends),
{
    let mut list: Vec<AssetAmount> = Vec::new();
    let mut i: usize = 0;
    while i < offer.coin_spends.len()
        invariant
            i <= offer.coin_spends.len(),
            entry_items(list@) == offered_items(offer@.coin_spends).take(i as int),
        decreases offer.coin_spends.len() - i,
    {
        let spend = &offer.coin_spends[i];
        let asset_id = get_asset_id(spend.puzzle_reveal.as_slice());
        let ghost items = offered_items(offer@.coin_spends);
        let ghost before = entry_items(list@);
        proof {
            assert(offer@.coin_spends[i as int] == spend@);
            assert(items[i as int] == (asset_id@, spend.coin.amount as nat));
            assert(items.take(i + 1) =~= items.take(i as int).push(items[i as int]));
        }
        list.push(AssetAmount { asset_id, amount: spend.coin.amount });
        assert(entry_items(list@) =~= before.push(items[i as int]));
        i += 1;
    }
    assert(offered_items(offer@.coin_spends).take(i as int) =~= offered_items(
        offer@.coin_spends,
    ));
    list
}

/// Each requested asset with its reported identifier and the sum of the
/// payments requested of it, where each sum fits into 64 bits.
fn list_requested(offer: &ParsedOffer) -> (r: Option<Vec<AssetAmount>>)
    ensures
        match r {
            Some(list) => entry_items(list@) == requested_items(offer@.requested_payments),
            None => !totals_fit(requested_items(offer@.requested_payments)),
        },
{
    let ghost items = requested_items(offer@.requested_payments);
    let mut list: Vec<AssetAmount> = Vec::new();
    let len = requested_len(&offer.requested_payments);
    let mut i: usize = 0;
    while i < len
        invariant
            i <= len,
            len == entries_of(offer.requested_payments).len(),
            items == requested_items(offer@.requested_payments),
            items.len() == len,
            entry_items(list@) == items.take(i as int),
        decreases len - i,
    {
        let (key, entry) = requested_at(&offer.requested_payments, i);
        let asset = asset_of_key(key);
        let asset_id = asset_name(&asset);
        let amount = match sum_notarized(&entry.payments) {
            Some(amount) => amount,
            None => {
                proof {
                    lemma_total_covers_item(items, i as int);
                    assert(total_for(items, items[i as int].0) > u64::MAX);
                }
                return None;
            },
        };
        let ghost before = entry_items(list@);
        proof {
            assert(items[i as int] == (asset_id@, amount as nat));
            assert(items.take(i + 1) =~= items.take(i as int).push(items[i as int]));
        }
        list.push(AssetAmount { asset_id, amount });
        assert(entry_items(list@) =~= before.push(items[i as int]));
        i += 1;
    }
    assert(items.take(i as int) =~= items);
    Some(list)
}

/// The totals of the offered coins, where each fits into 64 bits.
fn tally_offered(offer: &ParsedOffer) -> (r: Option<AssetTotals>)
    ensures
        match r {
            Some(held) => held.well_formed() && totals_fit(offered_items(offer@.coin_spends))
                && held@ == totals(offered_items(offer@.coin_spends)),
            None => !totals_fit(offered_items(offer@.coin_spends)),
        },
{
    let list = list_offered(offer);
    add_up(&list)
}

/// The totals of the requested payments, where each fits into 64 bits.
fn tally_requested(offer: &ParsedOffer) -> (r: Option<AssetTotals>)
    ensures
        match r {
            Some(held) => held.well_formed() && totals_fit(
                requested_items(offer@.requested_payments),
            ) && held@ == totals(requested_items(offer@.requested_payments)),
            None => !totals_fit(requested_items(offer@.requested_payments)),
        },
{
    match list_requested(offer) {
        Some(list) => add_up(&list),
        None => None,
    }
}

/// Whether the puzzle of every offered coin is a serialised program.
fn check_puzzles(offer: &ParsedOffer) -> (readable: bool)
    ensures
        readable == puzzles_readable(offer@.coin_spends),
{
    let mut i: usize = 0;
    while i < offer.coin_spends.len()
        invariant
            i <= offer.coin_spends.len(),
            forall|j: int| 0 <= j < i ==> is_program((#[trigger] offer@.coin_spends[j]).puzzle_reveal),
        decreases offer.coin_spends.len() - i,
    {
        if load_program(offer.coin_spends[i].puzzle_reveal.as_slice()).is_err() {
            assert(!is_program(offer@.coin_spends[i as int].puzzle_reveal));
            return false;
        }
        i += 1;
    }
    true
}

/// Summarises a parsed offer. Each offered coin adds its amount to the total
/// of the asset that its puzzle stands for; the payments requested of each
/// asset are added up; the identifier is the digest of the text. No summary
/// comes back where a puzzle cannot be read or a total does not fit.
pub fn summarize(raw: &str, offer: &ParsedOffer) -> (r: Result<OfferSummary, SummaryError>)
    ensures
        match summary_of(raw@, offer@) {
            Ok(summary) => r matches Ok(s) && s@ == summary && s.well_formed(),
            Err(e) => r == Err::<OfferSummary, SummaryError>(e),
        },
{
    if !check_puzzles(offer) {
        return Err(SummaryError::UnreadablePuzzle);
    }
    let offered_assets = match tally_offered(offer) {
        Some(held) => held,
        None => {
            return Err(SummaryError::AmountOverflow);
        },
    };
    let requested_assets = match tally_requested(offer) {
        Some(held) => held,
        None => {
            return Err(SummaryError::AmountOverflow);
        },
    };
    let digest = sha256_of_text(raw);
    let id = base58_encode(digest.as_slice());
    Ok(OfferSummary { id, offered_assets, requested_assets, offer_string: raw.to_owned() })
}

/// Decodes the text of an offer, takes its bundle apart and summarises it.
pub fn parse_offer(raw: &str) -> (r: Result<OfferSummary, ParseFailure>)
    ensures
        match offer_summary(raw@) {
            Ok(summary) => r matches Ok(s) && s@ == summary && s.well_formed(),
            Err(e) => r == Err::<OfferSummary, ParseFailure>(e),
        },
{
    let bundle = match decode(raw) {
        Ok(bundle) => bundle,
        Err(e) => {
            return Err(ParseFailure::Decode(e));
        },
    };
    let offer = match parse(bundle) {
        Ok(offer) => offer,
        Err(e) => {
            return Err(ParseFailure::Classify(e));
        },
    };
    match summarize(raw, &offer) {
        Ok(summary) => Ok(summary),
        Err(e) => Err(ParseFailure::Summary(e)),
    }
}

/// An offer has one summary: two summaries of the same text are equal, and
/// so are their identifiers.
pub proof fn lemma_summary_is_determined(
    raw: Seq<char>,
    first: Result<OfferSummaryView, ParseFailure>,
    second: Result<OfferSummaryView, ParseFailure>,
)
    requires
        first == offer_summary(raw),
        second == offer_summary(raw),
    ensures
        first == second,
        first matches Ok(summary) ==> summary.id == offer_id(raw) && summary.offer_string == raw,
{
}

/// Where all offered coins are of one asset, the summary holds for that asset
/// the exact sum of their amounts, and holds no other asset as offered.
pub proof fn lemma_offered_total_is_exact(
    raw: Seq<char>,
    offer: ParsedOfferView,
    label: Seq<char>,
)
    requires
        offer.coin_spends.len() > 0,
        forall|i: int|
            0 <= i < offer.coin_spends.len() ==> asset_label(
                asset_of((#[trigger] offer.coin_spends[i]).puzzle_reveal),
            ) == label,
        summary_of(raw, offer) is Ok,
    ensures
        summary_of(raw, offer).unwrap().offered_assets == Map::<Seq<char>, nat>::empty().insert(
            label,
            total_of_all(offered_items(offer.coin_spends)),
        ),
        total_of_all(offered_items(offer.coin_spends)) <= u64::MAX,
{
    let items = offered_items(offer.coin_spends);
    assert forall|i: int| 0 <= i < items.len() implies (#[trigger] items[i]).0 == label by {
        assert(asset_label(asset_of(offer.coin_spends[i].puzzle_reveal)) == label);
    }
    lemma_single_asset_total(items, label);
    assert(total_for(items, label) <= u64::MAX);
}

/// Amounts whose sum fits into 64 bits never overflow a total.
pub proof fn lemma_small_amounts_fit(items: Tally)
    requires
        total_of_all(items) <= u64::MAX,
    ensures
        totals_fit(items),
{
    assert forall|label: Seq<char>| #[trigger] total_for(items, label) <= u64::MAX by {
        lemma_total_is_bounded(items, label);
    }
}

/// The sum of all payments that the settlement records of a sequence request
/// of the asset with a reported identifier.
pub open spec fn requested_by_label(records: Seq<CoinSpendView>, label: Seq<char>) -> nat
    decreases records.len(),
{
    if records.len() == 0 {
        0
    } else {
        let record = records.last();
        requested_by_label(records.drop_last(), label) + if record.is_settlement() && asset_label(
            asset_of(record.puzzle_reveal),
        ) == label {
            match settlement_payments(record.solution) {
                Some(payments) => notarized_total(payments),
                None => 0,
            }
        } else {
            0
        }
    }
}

/// Whether some settlement record of a sequence asks for the asset with a
/// reported identifier.
pub open spec fn requests_label(records: Seq<CoinSpendView>, label: Seq<char>) -> bool {
    exists|i: int|
        0 <= i < records.len() && (#[trigger] records[i]).is_settlement() && asset_label(
            asset_of(records[i].puzzle_reveal),
        ) == label
}

/// The payments of one settlement record add to the total of the identifier
/// that its key names, and to no other.
proof fn lemma_label_total_after_payments(
    entries: Entries,
    key: KeyView,
    puzzle: Seq<u8>,
    payments: Seq<NotarizedPaymentView>,
    label: Seq<char>,
)
    ensures
        total_for(requested_items(with_payments(entries, key, puzzle, payments)), label)
            == total_for(requested_items(entries), label) + if asset_label(key_asset(key))
            == label {
            notarized_total(payments)
        } else {
            0
        },
{
    let items = requested_items(entries);
    let after = requested_items(with_payments(entries, key, puzzle, payments));
    let before = value_or(entries, key, RequestedEntryView { puzzle, payments: Seq::empty() });
    let amount = notarized_total(before.payments + payments);
    lemma_notarized_total_concat(before.payments, payments);
    if has_key(entries, key) {
        let at = key_index(entries, key);
        assert(items[at] == (asset_label(key_asset(key)), notarized_total(before.payments)));
        assert(after =~= items.update(at, (items[at].0, amount)));
        lemma_total_for_update(items, at, amount, label);
    } else {
        assert(before.payments =~= Seq::empty());
        assert(after =~= items.push((asset_label(key_asset(key)), amount)));
        lemma_total_for_push(items, (asset_label(key_asset(key)), amount), label);
    }
}

/// Of each asset a parsed offer requests, under the asset's reported
/// identifier, the sum of what the settlement records classified as that
/// asset request; and it requests only assets that some settlement record
/// asks for.
pub proof fn lemma_requested_totals_by_label(
    aggregated_signature: Seq<u8>,
    records: Seq<CoinSpendView>,
    label: Seq<char>,
)
    ensures
        with_records(aggregated_signature, records) matches Ok(offer) ==> {
            &&& total_for(requested_items(offer.requested_payments), label) == requested_by_label(
                records,
                label,
            )
            &&& labelled(requested_items(offer.requested_payments), label) <==> requests_label(
                records,
                label,
            )
        },
    decreases records.len(),
{
    if records.len() > 0 {
        let earlier = records.drop_last();
        let record = records.last();
        lemma_requested_totals_by_label(aggregated_signature, earlier, label);
        match with_records(aggregated_signature, earlier) {
            Ok(offer) => {
                if with_record(offer, record) is Ok && record.is_settlement() {
                    lemma_key_names_asset(asset_of(record.puzzle_reveal));
                    lemma_label_total_after_payments(
                        offer.requested_payments,
                        requested_key(asset_of(record.puzzle_reveal)),
                        record.puzzle_reveal,
                        settlement_payments(record.solution).unwrap(),
                        label,
                    );
                }
            },
            Err(_) => {},
        }
    }
    match with_records(aggregated_signature, records) {
        Ok(offer) => {
            let entries = offer.requested_payments;
            let items = requested_items(entries);
            if labelled(items, label) {
                let at = choose|i: int| 0 <= i < items.len() && (#[trigger] items[i]).0 == label;
                let key = entries[at].0;
                assert(has_key(entries, key));
                lemma_keys_come_from_records(aggregated_signature, records, key);
                let i = choose|i: int|
                    0 <= i < records.len() && (#[trigger] records[i]).is_settlement()
                        && requested_key(asset_of(records[i].puzzle_reveal)) == key;
                lemma_key_names_asset(asset_of(records[i].puzzle_reveal));
                assert(requests_label(records, label));
            }
            if requests_label(records, label) {
                let i = choose|i: int|
                    0 <= i < records.len() && (#[trigger] records[i]).is_settlement()
                        && asset_label(asset_of(records[i].puzzle_reveal)) == label;
                let key = requested_key(asset_of(records[i].puzzle_reveal));
                lemma_key_names_asset(asset_of(records[i].puzzle_reveal));
                assert(requests_under(records, key));
                lemma_keys_come_from_records(aggregated_signature, records, key);
                let at = key_index(entries, key);
                assert(items[at].0 == label);
            }
        },
        Err(_) => {},
    }
}

/// The summary of a bundle holds as requested, for every identifier, the sum
/// of what the settlement records classified under that identifier ask for,
/// and holds an identifier exactly where some settlement record asks for it.
pub proof fn lemma_requested_assets_by_label(
    raw: Seq<char>,
    bundle: SpendBundleView,
    label: Seq<char>,
)
    requires
        parsed(bundle) is Ok,
        summary_of(raw, parsed(bundle).unwrap()) is Ok,
    ensures
        ({
            let summary = summary_of(raw, parsed(bundle).unwrap()).unwrap();
            &&& summary.requested_assets.contains_key(label) <==> requests_label(
                bundle.coin_spends,
                label,
            )
            &&& summary.requested_assets.contains_key(label) ==> summary.requested_assets[label]
                == requested_by_label(bundle.coin_spends, label)
        }),
{
    lemma_requested_totals_by_label(bundle.aggregated_signature, bundle.coin_spends, label);
}

} // verus!
