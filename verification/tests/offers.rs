use chia_protocol::Bytes32;
use chia_sdk_driver::{CatLayer, Layer, NftInfo, SpendContext};
use chia_traits::Streamable;
use clvmr::NodePtr;
use indexmap::IndexMap;
use splash::asset::{asset_name, classify_asset, classify_puzzle, get_asset_id, AssetId};
use splash::bundle::{Coin, CoinSpend, SpendBundle};
use splash::codec::{
    bundle_from_bytes, decode, decode_offer_data, decompress_offer_bytes,
    starts_with_offer_prefix, DecodeError,
};
use splash::gossip::MAX_OFFER_SIZE;
use splash::node::{Node, NodeAction, NodeEvent};
use splash::offer::{parse, ClassifyError, ParsedOffer};
use splash::payments::{sum_notarized, sum_payments, NotarizedPayment, Payment};
use splash::requested::{
    asset_key, asset_of_key, RequestedEntry, KIND_NATIVE, KIND_NFT, KIND_TOKEN,
};
use splash::summary::{parse_offer, summarize, ParseFailure, SummaryError};
use std::io::Read;

const ZERO: [u8; 32] = [0u8; 32];
const NFT_33: &str = "nft1xvenxvenxvenxvenxvenxvenxvenxvenxvenxvenxvenxvenxveslsland";

fn dictionary_of_codec() -> Vec<u8> {
    splash::codec::dictionary()
}

fn token_puzzle(asset_id: [u8; 32]) -> Vec<u8> {
    let mut ctx = SpendContext::new();
    let ptr = CatLayer::new(Bytes32::new(asset_id), NodePtr::NIL)
        .construct_puzzle(&mut ctx)
        .unwrap();
    ctx.serialize(&ptr).unwrap().to_vec()
}

fn nft_info(launcher_id: [u8; 32]) -> NftInfo<NodePtr> {
    NftInfo::new(
        Bytes32::new(launcher_id),
        NodePtr::NIL,
        Bytes32::new([2u8; 32]),
        None,
        Bytes32::new([3u8; 32]),
        300,
        Bytes32::new([4u8; 32]),
    )
}

fn nft_puzzle(launcher_id: [u8; 32]) -> Vec<u8> {
    let mut ctx = SpendContext::new();
    let ptr = nft_info(launcher_id)
        .into_layers(NodePtr::NIL)
        .construct_puzzle(&mut ctx)
        .unwrap();
    ctx.serialize(&ptr).unwrap().to_vec()
}

fn token_wrapped_nft_puzzle(asset_id: [u8; 32], launcher_id: [u8; 32]) -> Vec<u8> {
    let mut ctx = SpendContext::new();
    let layers = nft_info(launcher_id).into_layers(NodePtr::NIL);
    let ptr = CatLayer::new(Bytes32::new(asset_id), layers)
        .construct_puzzle(&mut ctx)
        .unwrap();
    ctx.serialize(&ptr).unwrap().to_vec()
}

fn plain_puzzle() -> Vec<u8> {
    chia_puzzles::standard::STANDARD_PUZZLE.to_vec()
}

fn settlement_solution(groups: &[&[u64]]) -> Vec<u8> {
    let mut ctx = SpendContext::new();
    let notarized_payments = groups
        .iter()
        .map(|amounts| chia_puzzles::offer::NotarizedPayment {
            nonce: Bytes32::new([9u8; 32]),
            payments: amounts
                .iter()
                .map(|amount| chia_puzzles::offer::Payment::new(Bytes32::new([8u8; 32]), *amount))
                .collect(),
        })
        .collect();
    let solution = chia_puzzles::offer::SettlementPaymentsSolution { notarized_payments };
    ctx.serialize(&solution).unwrap().to_vec()
}

fn nil() -> Vec<u8> {
    vec![0x80]
}

fn offered(parent: u8, amount: u64, puzzle: Vec<u8>) -> CoinSpend {
    CoinSpend {
        coin: Coin { parent_coin_info: [parent; 32], puzzle_hash: [6u8; 32], amount },
        puzzle_reveal: puzzle,
        solution: nil(),
    }
}

fn settlement(puzzle: Vec<u8>, solution: Vec<u8>) -> CoinSpend {
    CoinSpend {
        coin: Coin { parent_coin_info: ZERO, puzzle_hash: [6u8; 32], amount: 0 },
        puzzle_reveal: puzzle,
        solution,
    }
}

fn no_signature() -> [u8; 96] {
    chia_bls::Signature::default().to_bytes()
}

fn bundle(coin_spends: Vec<CoinSpend>) -> SpendBundle {
    SpendBundle { coin_spends, aggregated_signature: no_signature() }
}

fn to_chia(bundle: &SpendBundle) -> chia_protocol::SpendBundle {
    let coin_spends = bundle
        .coin_spends
        .iter()
        .map(|spend| {
            chia_protocol::CoinSpend::new(
                chia_protocol::Coin::new(
                    Bytes32::new(spend.coin.parent_coin_info),
                    Bytes32::new(spend.coin.puzzle_hash),
                    spend.coin.amount,
                ),
                chia_protocol::Program::from(spend.puzzle_reveal.clone()),
                chia_protocol::Program::from(spend.solution.clone()),
            )
        })
        .collect();
    chia_protocol::SpendBundle::new(
        coin_spends,
        chia_bls::Signature::from_bytes(&bundle.aggregated_signature).unwrap(),
    )
}

fn dictionary() -> Vec<u8> {
    [
        &chia_puzzles::standard::STANDARD_PUZZLE[..],
        &chia_puzzles::cat::CAT_PUZZLE_V1,
        &chia_puzzles::offer::SETTLEMENT_PAYMENTS_PUZZLE_V1,
        &chia_puzzles::singleton::SINGLETON_TOP_LAYER_PUZZLE,
        &chia_puzzles::nft::NFT_STATE_LAYER_PUZZLE,
        &chia_puzzles::nft::NFT_OWNERSHIP_LAYER_PUZZLE,
        &chia_puzzles::nft::NFT_METADATA_UPDATER_PUZZLE,
        &chia_puzzles::nft::NFT_ROYALTY_TRANSFER_PUZZLE,
        &chia_puzzles::cat::CAT_PUZZLE,
        &chia_puzzles::offer::SETTLEMENT_PAYMENTS_PUZZLE,
    ]
    .concat()
}

fn compress(version: u16, bytes: &[u8]) -> Vec<u8> {
    let mut state = flate2::Compress::new(flate2::Compression::new(6), true);
    state.set_dictionary(&dictionary()).unwrap();
    let mut payload = version.to_be_bytes().to_vec();
    flate2::read::ZlibEncoder::new_with_compress(bytes, state)
        .read_to_end(&mut payload)
        .unwrap();
    payload
}

fn bech32_text(hrp: &str, payload: &[u8], variant: bech32::Variant) -> String {
    let words: Vec<bech32::u5> = bech32::convert_bits(payload, 8, 5, true)
        .unwrap()
        .into_iter()
        .map(|word| bech32::u5::try_from_u8(word).unwrap())
        .collect();
    bech32::encode(hrp, words, variant).unwrap()
}

fn offer_text_of_bytes(bytes: &[u8]) -> String {
    bech32_text("offer", &compress(6, bytes), bech32::Variant::Bech32m)
}

fn offer_text(bundle: &SpendBundle) -> String {
    offer_text_of_bytes(&to_chia(bundle).to_bytes().unwrap())
}

fn sample_bundle() -> SpendBundle {
    bundle(vec![
        offered(1, 500, plain_puzzle()),
        offered(2, 250, token_puzzle([0x11; 32])),
        settlement(token_puzzle([0x22; 32]), settlement_solution(&[&[1000]])),
    ])
}

fn empty_offer() -> ParsedOffer {
    ParsedOffer {
        coin_spends: Vec::new(),
        aggregated_signature: no_signature(),
        requested_payments: IndexMap::new(),
    }
}

#[test]
fn prefix_is_recognised() {
    assert!(starts_with_offer_prefix("offer1qqqq"));
    assert!(starts_with_offer_prefix("offer1"));
    assert!(!starts_with_offer_prefix("offer"));
    assert!(!starts_with_offer_prefix("OFFER1qqqq"));
    assert!(!starts_with_offer_prefix("xoffer1qqqq"));
    assert!(!starts_with_offer_prefix(""));
}

#[test]
fn decode_rejects_text_without_prefix() {
    assert_eq!(decode("hello"), Err(DecodeError::UnrecognizedFormat));
    assert_eq!(decode(""), Err(DecodeError::UnrecognizedFormat));
    let other = bech32_text("coupon", &compress(6, &[1, 2, 3]), bech32::Variant::Bech32m);
    assert_eq!(decode(&other), Err(DecodeError::UnrecognizedFormat));
}

#[test]
fn decode_rejects_malformed_encoding() {
    assert_eq!(decode("offer1"), Err(DecodeError::MalformedEncoding));
    assert_eq!(decode("offer1bbbbbbbbbb"), Err(DecodeError::MalformedEncoding));
    let old_checksum = bech32_text("offer", &compress(6, &[1, 2, 3]), bech32::Variant::Bech32);
    assert_eq!(decode(&old_checksum), Err(DecodeError::MalformedEncoding));
    let longer_prefix = bech32_text("offer1x", &compress(6, &[1, 2, 3]), bech32::Variant::Bech32m);
    assert!(longer_prefix.starts_with("offer1"));
    assert_eq!(decode(&longer_prefix), Err(DecodeError::MalformedEncoding));
}

#[test]
fn decode_rejects_corrupted_tail() {
    let text = offer_text(&sample_bundle());
    let last = text.chars().last().unwrap();
    let replacement = if last == 'q' { 'p' } else { 'q' };
    let mut corrupted = text[..text.len() - 1].to_string();
    corrupted.push(replacement);
    assert_eq!(decode(&corrupted), Err(DecodeError::MalformedEncoding));

    let payload = compress(6, &to_chia(&sample_bundle()).to_bytes().unwrap());
    let truncated = bech32_text("offer", &payload[..payload.len() - 7], bech32::Variant::Bech32m);
    let outcome = decode(&truncated);
    assert!(matches!(
        outcome,
        Err(DecodeError::MalformedEncoding) | Err(DecodeError::DecompressionFailure)
    ));
}

#[test]
fn decode_rejects_bad_compression() {
    let short = bech32_text("offer", &[0], bech32::Variant::Bech32m);
    assert_eq!(decode(&short), Err(DecodeError::DecompressionFailure));
    let bytes = to_chia(&sample_bundle()).to_bytes().unwrap();
    let newer = bech32_text("offer", &compress(7, &bytes), bech32::Variant::Bech32m);
    assert_eq!(decode(&newer), Err(DecodeError::DecompressionFailure));
    let mut plain = vec![0u8, 6u8];
    plain.extend_from_slice(&bytes);
    let uncompressed = bech32_text("offer", &plain, bech32::Variant::Bech32m);
    assert_eq!(decode(&uncompressed), Err(DecodeError::DecompressionFailure));
    // Every version up to the highest is inflated against the one shared
    // dictionary.
    for version in 0..=6u16 {
        let text = bech32_text("offer", &compress(version, &bytes), bech32::Variant::Bech32m);
        assert_eq!(decode(&text), Ok(sample_bundle()));
    }
}

#[test]
fn decode_rejects_malformed_bundle() {
    assert_eq!(
        decode(&offer_text_of_bytes(&[1, 2, 3, 4, 5])),
        Err(DecodeError::MalformedBundle)
    );
    let mut trailing = to_chia(&sample_bundle()).to_bytes().unwrap();
    trailing.push(0);
    assert_eq!(decode(&offer_text_of_bytes(&trailing)), Err(DecodeError::MalformedBundle));
}

#[test]
fn decode_rejects_bundle_without_coin_spends() {
    let empty = bundle(Vec::new());
    let bytes = to_chia(&empty).to_bytes().unwrap();
    assert_eq!(bundle_from_bytes(&bytes), Err(DecodeError::MalformedBundle));
    assert_eq!(decode(&offer_text(&empty)), Err(DecodeError::MalformedBundle));
}

#[test]
fn decode_returns_the_bundle() {
    let expected = sample_bundle();
    let decoded = decode(&offer_text(&expected)).unwrap();
    assert_eq!(decoded, expected);
    assert_eq!(decoded.coin_spends.len(), 3);
    assert_eq!(decoded.coin_spends[0].coin.amount, 500);
    assert_eq!(decoded.coin_spends[1].coin.parent_coin_info, [2u8; 32]);
}

#[test]
fn decoded_bundle_serialises_to_the_decompressed_bytes() {
    let bytes = to_chia(&sample_bundle()).to_bytes().unwrap();
    let text = offer_text_of_bytes(&bytes);
    let payload = decode_offer_data(&text).unwrap();
    let decompressed = decompress_offer_bytes(&payload).unwrap();
    assert_eq!(decompressed, bytes);
    let decoded = decode(&text).unwrap();
    assert_eq!(to_chia(&decoded).to_bytes().unwrap(), decompressed);
}

#[test]
fn decode_steps_agree_with_their_inverses() {
    let payload = compress(6, &[7u8; 100]);
    assert_eq!(payload[..2], [0u8, 6u8]);
    let text = bech32_text("offer", &payload, bech32::Variant::Bech32m);
    assert_eq!(decode_offer_data(&text), Ok(payload.clone()));
    assert_eq!(decompress_offer_bytes(&payload), Ok(vec![7u8; 100]));
    assert_eq!(decompress_offer_bytes(&Vec::new()), Err(DecodeError::DecompressionFailure));
    assert_eq!(decode_offer_data("offer1!"), Err(DecodeError::MalformedEncoding));
}

#[test]
fn recognisers_find_each_asset() {
    assert_eq!(classify_puzzle(&plain_puzzle()), AssetId::Native);
    assert_eq!(
        classify_puzzle(&token_puzzle([0x11; 32])),
        AssetId::Token { asset_id: [0x11; 32] }
    );
    assert_eq!(
        classify_puzzle(&nft_puzzle([0x33; 32])),
        AssetId::Nft { launcher_id: [0x33; 32] }
    );
    assert_eq!(classify_puzzle(&nil()), AssetId::Native);
    assert_eq!(classify_puzzle(&[0xff]), AssetId::Native);
}

#[test]
fn token_wrapped_item_is_a_token() {
    let puzzle = token_wrapped_nft_puzzle([0x44; 32], [0x55; 32]);
    assert_eq!(classify_puzzle(&puzzle), AssetId::Token { asset_id: [0x44; 32] });
    assert_eq!(get_asset_id(&puzzle), "44".repeat(32));
    assert_eq!(
        classify_asset(Some([0x44; 32]), Some([0x55; 32])),
        AssetId::Token { asset_id: [0x44; 32] }
    );
    assert_eq!(classify_asset(None, Some([0x55; 32])), AssetId::Nft { launcher_id: [0x55; 32] });
    assert_eq!(classify_asset(None, None), AssetId::Native);
}

#[test]
fn assets_are_reported_under_their_identifiers() {
    assert_eq!(get_asset_id(&plain_puzzle()), "xch");
    assert_eq!(get_asset_id(&token_puzzle([0xab; 32])), "ab".repeat(32));
    assert_eq!(
        get_asset_id(&nft_puzzle([5u8; 32])),
        "nft1q5zs2pg9q5zs2pg9q5zs2pg9q5zs2pg9q5zs2pg9q5zs2pg9q5zs4v3tdv"
    );
    assert_eq!(asset_name(&AssetId::Native), "xch");
    let mut counting = [0u8; 32];
    for (i, byte) in counting.iter_mut().enumerate() {
        *byte = i as u8;
    }
    assert_eq!(
        asset_name(&AssetId::Token { asset_id: counting }),
        "000102030405060708090a0b0c0d0e0f101112131415161718191a1b1c1d1e1f"
    );
    assert_eq!(
        asset_name(&AssetId::Nft { launcher_id: counting }),
        "nft1qqqsyqcyq5rqwzqfpg9scrgwpugpzysnzs23v9ccrydpk8qarc0s9s222c"
    );
}

#[test]
fn parse_keeps_offered_coins_in_order() {
    let parsed = parse(sample_bundle()).unwrap();
    assert_eq!(parsed.coin_spends.len(), 2);
    assert_eq!(parsed.coin_spends[0], offered(1, 500, plain_puzzle()));
    assert_eq!(parsed.coin_spends[1], offered(2, 250, token_puzzle([0x11; 32])));
    assert_eq!(parsed.aggregated_signature, no_signature());
    assert_eq!(parsed.requested_payments.len(), 1);
}

#[test]
fn parse_tells_settlement_records_by_parent_and_amount() {
    let zero_parent_with_amount = CoinSpend {
        coin: Coin { parent_coin_info: ZERO, puzzle_hash: [6u8; 32], amount: 1 },
        puzzle_reveal: plain_puzzle(),
        solution: vec![0xff],
    };
    let zero_amount_with_parent = CoinSpend {
        coin: Coin { parent_coin_info: [1u8; 32], puzzle_hash: [6u8; 32], amount: 0 },
        puzzle_reveal: plain_puzzle(),
        solution: vec![0xff],
    };
    assert!(!zero_parent_with_amount.is_settlement());
    assert!(!zero_amount_with_parent.is_settlement());
    assert!(settlement(plain_puzzle(), nil()).is_settlement());
    let parsed = parse(bundle(vec![
        zero_parent_with_amount.clone(),
        zero_amount_with_parent.clone(),
    ]))
    .unwrap();
    assert_eq!(parsed.coin_spends, vec![zero_parent_with_amount, zero_amount_with_parent]);
    assert!(parsed.requested_payments.is_empty());
}

#[test]
fn parse_groups_requested_payments_by_asset() {
    let token = token_puzzle([0x22; 32]);
    let item = nft_puzzle([0x33; 32]);
    let parsed = parse(bundle(vec![
        settlement(token.clone(), settlement_solution(&[&[1, 2]])),
        settlement(plain_puzzle(), settlement_solution(&[&[10]])),
        settlement(item.clone(), settlement_solution(&[&[1]])),
        settlement(token.clone(), settlement_solution(&[&[3], &[4, 5]])),
        settlement(nil(), settlement_solution(&[&[20]])),
    ]))
    .unwrap();
    assert!(parsed.coin_spends.is_empty());
    let keys: Vec<(u8, [u8; 32])> = parsed.requested_payments.keys().copied().collect();
    assert_eq!(keys, vec![(KIND_TOKEN, [0x22; 32]), (KIND_NATIVE, ZERO), (KIND_NFT, [0x33; 32])]);
    let payment = |amount: u64| Payment { puzzle_hash: [8u8; 32], amount };
    let notarized = |amounts: &[u64]| NotarizedPayment {
        nonce: [9u8; 32],
        payments: amounts.iter().map(|amount| payment(*amount)).collect(),
    };
    assert_eq!(
        parsed.requested_payments[&(KIND_TOKEN, [0x22; 32])],
        RequestedEntry {
            puzzle: token,
            payments: vec![notarized(&[1, 2]), notarized(&[3]), notarized(&[4, 5])],
        }
    );
    assert_eq!(
        parsed.requested_payments[&(KIND_NATIVE, ZERO)],
        RequestedEntry {
            puzzle: plain_puzzle(),
            payments: vec![notarized(&[10]), notarized(&[20])],
        }
    );
    assert_eq!(
        parsed.requested_payments[&(KIND_NFT, [0x33; 32])],
        RequestedEntry { puzzle: item, payments: vec![notarized(&[1])] }
    );
}

#[test]
fn parse_reports_the_first_unreadable_record() {
    let good = settlement(plain_puzzle(), settlement_solution(&[&[1]]));
    let unreadable_solution = settlement(plain_puzzle(), vec![0xff]);
    let malformed_solution = settlement(plain_puzzle(), vec![0x01]);
    let unreadable_puzzle = settlement(vec![0xff], settlement_solution(&[&[1]]));
    assert_eq!(
        parse(bundle(vec![good.clone(), unreadable_solution.clone(), malformed_solution.clone()]))
            .err(),
        Some(ClassifyError::UnreadableSolution)
    );
    assert_eq!(
        parse(bundle(vec![malformed_solution, unreadable_solution])).err(),
        Some(ClassifyError::MalformedSolution)
    );
    assert_eq!(
        parse(bundle(vec![good, unreadable_puzzle])).err(),
        Some(ClassifyError::UnreadablePuzzle)
    );
    let offered_unreadable = offered(1, 5, vec![0xff]);
    assert!(parse(bundle(vec![offered_unreadable])).is_ok());
}

#[test]
fn requested_token_payment_is_summarised() {
    let asset = [0x22; 32];
    let parsed = parse(bundle(vec![settlement(
        token_puzzle(asset),
        settlement_solution(&[&[1000]]),
    )]))
    .unwrap();
    let summary = summarize("offer1example", &parsed).unwrap();
    assert_eq!(summary.requested_assets.len(), 1);
    assert_eq!(summary.requested_assets.get(&"22".repeat(32)), Some(1000));
    assert_eq!(summary.offered_assets.len(), 0);
}

#[test]
fn offered_native_and_token_are_summarised() {
    let asset = [0x11; 32];
    let parsed = parse(bundle(vec![
        offered(1, 500, plain_puzzle()),
        offered(2, 250, token_puzzle(asset)),
    ]))
    .unwrap();
    let summary = summarize("offer1example", &parsed).unwrap();
    assert_eq!(summary.offered_assets.len(), 2);
    assert_eq!(summary.offered_assets.get("xch"), Some(500));
    assert_eq!(summary.offered_assets.get(&"11".repeat(32)), Some(250));
    assert_eq!(summary.offered_assets.get("nft"), None);
    assert_eq!(summary.requested_assets.len(), 0);
}

#[test]
fn amounts_of_one_asset_add_up_exactly() {
    let asset = [0x11; 32];
    let amounts = [1u64, 20, 300, 4_000, 50_000, 18_000_000_000_000_000_000];
    let spends = amounts
        .iter()
        .enumerate()
        .map(|(i, amount)| offered(i as u8 + 1, *amount, token_puzzle(asset)))
        .collect();
    let summary = summarize("offer1example", &parse(bundle(spends)).unwrap()).unwrap();
    assert_eq!(summary.offered_assets.len(), 1);
    assert_eq!(
        summary.offered_assets.get(&"11".repeat(32)),
        Some(18_000_000_000_000_054_321)
    );
}

#[test]
fn totals_that_do_not_fit_give_no_summary() {
    let parsed = parse(bundle(vec![
        offered(1, u64::MAX, plain_puzzle()),
        offered(2, 7, token_puzzle([0x11; 32])),
        offered(3, 1, plain_puzzle()),
    ]))
    .unwrap();
    assert_eq!(summarize("x", &parsed).err(), Some(SummaryError::AmountOverflow));
    let fitting = parse(bundle(vec![
        offered(1, u64::MAX - 1, plain_puzzle()),
        offered(3, 1, plain_puzzle()),
    ]))
    .unwrap();
    assert_eq!(summarize("x", &fitting).unwrap().offered_assets.get("xch"), Some(u64::MAX));
    let requested = parse(bundle(vec![
        settlement(plain_puzzle(), settlement_solution(&[&[u64::MAX]])),
        settlement(plain_puzzle(), settlement_solution(&[&[1]])),
    ]))
    .unwrap();
    assert_eq!(summarize("x", &requested).err(), Some(SummaryError::AmountOverflow));
}

#[test]
fn unreadable_offered_puzzle_gives_no_summary() {
    let parsed = parse(bundle(vec![
        offered(1, u64::MAX, plain_puzzle()),
        offered(2, u64::MAX, plain_puzzle()),
        offered(3, 1, vec![0xff]),
    ]))
    .unwrap();
    assert_eq!(summarize("x", &parsed).err(), Some(SummaryError::UnreadablePuzzle));
}

#[test]
fn requested_amounts_are_summed_per_asset() {
    let parsed = parse(bundle(vec![
        settlement(token_puzzle([0x22; 32]), settlement_solution(&[&[1, 2], &[3]])),
        settlement(plain_puzzle(), settlement_solution(&[&[10]])),
        settlement(token_puzzle([0x22; 32]), settlement_solution(&[&[4]])),
        settlement(nft_puzzle([0x33; 32]), settlement_solution(&[&[1]])),
    ]))
    .unwrap();
    let summary = summarize("x", &parsed).unwrap();
    assert_eq!(summary.requested_assets.len(), 3);
    assert_eq!(summary.requested_assets.get(&"22".repeat(32)), Some(10));
    assert_eq!(summary.requested_assets.get("xch"), Some(10));
    assert_eq!(summary.requested_assets.get(NFT_33), Some(1));
    assert_eq!(summary.requested_assets.get(&"00".repeat(32)), None);
    assert_eq!(summary.requested_assets.get(&"33".repeat(32)), None);
    assert_eq!(summary.requested_assets.entry(0).asset_id, "22".repeat(32));
    assert_eq!(summary.requested_assets.entry(1).asset_id, "xch");
    assert_eq!(summary.requested_assets.entry(1).amount, 10);
    assert_eq!(summary.requested_assets.entry(2).asset_id, NFT_33);
}

#[test]
fn an_asset_has_one_identifier_offered_or_requested() {
    let parsed = parse(bundle(vec![
        offered(1, 1, nft_puzzle([0x33; 32])),
        offered(2, 500, plain_puzzle()),
        offered(3, 250, token_puzzle([0x22; 32])),
        settlement(nft_puzzle([0x33; 32]), settlement_solution(&[&[1]])),
        settlement(plain_puzzle(), settlement_solution(&[&[7]])),
        settlement(token_puzzle([0x22; 32]), settlement_solution(&[&[9]])),
    ]))
    .unwrap();
    let summary = summarize("x", &parsed).unwrap();
    assert_eq!(summary.offered_assets.get(NFT_33), Some(1));
    assert_eq!(summary.requested_assets.get(NFT_33), Some(1));
    assert_eq!(summary.offered_assets.get("xch"), Some(500));
    assert_eq!(summary.requested_assets.get("xch"), Some(7));
    assert_eq!(summary.offered_assets.get(&"22".repeat(32)), Some(250));
    assert_eq!(summary.requested_assets.get(&"22".repeat(32)), Some(9));
    assert_eq!(summary.offered_assets.len(), 3);
    assert_eq!(summary.requested_assets.len(), 3);
}

#[test]
fn token_wrapped_item_is_requested_as_the_token() {
    let wrapped = token_wrapped_nft_puzzle([0x44; 32], [0x55; 32]);
    let parsed = parse(bundle(vec![
        settlement(wrapped.clone(), settlement_solution(&[&[3]])),
        settlement(token_puzzle([0x44; 32]), settlement_solution(&[&[4]])),
    ]))
    .unwrap();
    let keys: Vec<(u8, [u8; 32])> = parsed.requested_payments.keys().copied().collect();
    assert_eq!(keys, vec![(KIND_TOKEN, [0x44; 32])]);
    assert_eq!(parsed.requested_payments[&(KIND_TOKEN, [0x44; 32])].puzzle, wrapped);
    assert!(!parsed.requested_payments.contains_key(&(KIND_NFT, [0x55; 32])));
    assert!(!parsed.requested_payments.contains_key(&(KIND_TOKEN, [0x55; 32])));
    let summary = summarize("x", &parsed).unwrap();
    assert_eq!(summary.requested_assets.len(), 1);
    assert_eq!(summary.requested_assets.get(&"44".repeat(32)), Some(7));
}

#[test]
fn assets_of_different_kinds_with_the_same_bytes_stay_apart() {
    let parsed = parse(bundle(vec![
        settlement(plain_puzzle(), settlement_solution(&[&[1]])),
        settlement(token_puzzle(ZERO), settlement_solution(&[&[2]])),
        settlement(token_puzzle([0x66; 32]), settlement_solution(&[&[4]])),
        settlement(nft_puzzle([0x66; 32]), settlement_solution(&[&[8]])),
        settlement(nft_puzzle(ZERO), settlement_solution(&[&[16]])),
        settlement(token_puzzle(ZERO), settlement_solution(&[&[32]])),
    ]))
    .unwrap();
    let keys: Vec<(u8, [u8; 32])> = parsed.requested_payments.keys().copied().collect();
    assert_eq!(
        keys,
        vec![
            (KIND_NATIVE, ZERO),
            (KIND_TOKEN, ZERO),
            (KIND_TOKEN, [0x66; 32]),
            (KIND_NFT, [0x66; 32]),
            (KIND_NFT, ZERO),
        ]
    );
    let summary = summarize("x", &parsed).unwrap();
    assert_eq!(summary.requested_assets.len(), 5);
    assert_eq!(summary.requested_assets.get("xch"), Some(1));
    assert_eq!(summary.requested_assets.get(&"00".repeat(32)), Some(34));
    assert_eq!(summary.requested_assets.get(&"66".repeat(32)), Some(4));
    assert_eq!(
        summary.requested_assets.get(&asset_name(&AssetId::Nft { launcher_id: [0x66; 32] })),
        Some(8)
    );
    assert_eq!(
        summary.requested_assets.get(&asset_name(&AssetId::Nft { launcher_id: ZERO })),
        Some(16)
    );

    let offered_too = parse(bundle(vec![
        offered(1, 5, token_puzzle(ZERO)),
        settlement(plain_puzzle(), settlement_solution(&[&[1]])),
        settlement(token_puzzle(ZERO), settlement_solution(&[&[2]])),
    ]))
    .unwrap();
    let summary = summarize("x", &offered_too).unwrap();
    assert_eq!(summary.offered_assets.get(&"00".repeat(32)), Some(5));
    assert_eq!(summary.offered_assets.get("xch"), None);
    assert_eq!(summary.requested_assets.len(), 2);
    assert_eq!(summary.requested_assets.get("xch"), Some(1));
    assert_eq!(summary.requested_assets.get(&"00".repeat(32)), Some(2));
}

#[test]
fn keys_name_their_assets() {
    for asset in [
        AssetId::Native,
        AssetId::Token { asset_id: ZERO },
        AssetId::Token { asset_id: [7u8; 32] },
        AssetId::Nft { launcher_id: ZERO },
        AssetId::Nft { launcher_id: [7u8; 32] },
    ] {
        assert_eq!(asset_of_key(&asset_key(&asset)), asset);
    }
    assert_eq!(asset_key(&AssetId::Native), (KIND_NATIVE, ZERO));
    assert_eq!(asset_key(&AssetId::Token { asset_id: [7u8; 32] }), (KIND_TOKEN, [7u8; 32]));
    assert_eq!(asset_key(&AssetId::Nft { launcher_id: [7u8; 32] }), (KIND_NFT, [7u8; 32]));
    assert_eq!(asset_of_key(&(9, [7u8; 32])), AssetId::Native);
}

#[test]
fn dictionary_holds_the_well_known_puzzles_in_order() {
    let built = dictionary_of_codec();
    assert_eq!(built, dictionary());
    assert_eq!(built.len(), 227 + 1420 + 267 + 967 + 827 + 1226 + 241 + 687 + 1672 + 293);
    assert_eq!(built[..227], chia_puzzles::standard::STANDARD_PUZZLE[..]);
    assert_eq!(built[built.len() - 293..], chia_puzzles::offer::SETTLEMENT_PAYMENTS_PUZZLE[..]);
}

#[test]
fn stream_without_dictionary_is_refused() {
    let bytes = to_chia(&sample_bundle()).to_bytes().unwrap();
    let mut payload = vec![0u8, 6u8];
    flate2::read::ZlibEncoder::new(&bytes[..], flate2::Compression::new(6))
        .read_to_end(&mut payload)
        .unwrap();
    assert_eq!(decompress_offer_bytes(&payload), Err(DecodeError::DecompressionFailure));
    let text = bech32_text("offer", &payload, bech32::Variant::Bech32m);
    assert_eq!(decode(&text), Err(DecodeError::DecompressionFailure));
    let mut other = 6u16.to_be_bytes().to_vec();
    let mut state = flate2::Compress::new(flate2::Compression::new(6), true);
    state.set_dictionary(b"some other dictionary").unwrap();
    flate2::read::ZlibEncoder::new_with_compress(&bytes[..], state)
        .read_to_end(&mut other)
        .unwrap();
    assert_eq!(decompress_offer_bytes(&other), Err(DecodeError::DecompressionFailure));
}

#[test]
fn payment_sums_are_exact() {
    let payment = |amount: u64| Payment { puzzle_hash: [8u8; 32], amount };
    assert_eq!(sum_payments(&Vec::new()), Some(0));
    assert_eq!(sum_payments(&vec![payment(1), payment(2), payment(3)]), Some(6));
    assert_eq!(sum_payments(&vec![payment(u64::MAX), payment(1)]), None);
    let notarized = |amounts: &[u64]| NotarizedPayment {
        nonce: [9u8; 32],
        payments: amounts.iter().map(|amount| payment(*amount)).collect(),
    };
    assert_eq!(sum_notarized(&vec![notarized(&[1, 2]), notarized(&[]), notarized(&[4])]), Some(7));
    assert_eq!(sum_notarized(&vec![notarized(&[u64::MAX]), notarized(&[1])]), None);
}

#[test]
fn summary_carries_identifier_and_text() {
    let summary = summarize("abc", &empty_offer()).unwrap();
    assert_eq!(summary.id, "DYu3G8aGTMBW1WrTw76zxQJQU4DHLw9MLyy7peG4LKkY");
    assert_eq!(summary.offer_string, "abc");
    let other = summarize("offer1example", &empty_offer()).unwrap();
    assert_eq!(other.id, "DQf2M3vU6yBK2UdPNmWppi273bi8KcZA15vouJiSXh9S");
    assert_eq!(other.offer_string, "offer1example");
}

#[test]
fn summarising_twice_gives_the_same_summary() {
    let text = offer_text(&sample_bundle());
    let first = parse_offer(&text).unwrap();
    let second = parse_offer(&text).unwrap();
    assert_eq!(first, second);
    assert_eq!(first.id, second.id);
    let parsed = parse(sample_bundle()).unwrap();
    assert_eq!(summarize(&text, &parsed), summarize(&text, &parsed));
    assert_eq!(summarize(&text, &parsed).unwrap(), first);
}

#[test]
fn parse_offer_summarises_the_text_of_an_offer() {
    let text = offer_text(&sample_bundle());
    let summary = parse_offer(&text).unwrap();
    assert_eq!(summary.offer_string, text);
    assert_eq!(summary.offered_assets.len(), 2);
    assert_eq!(summary.offered_assets.get("xch"), Some(500));
    assert_eq!(summary.offered_assets.get(&"11".repeat(32)), Some(250));
    assert_eq!(summary.requested_assets.len(), 1);
    assert_eq!(summary.requested_assets.get(&"22".repeat(32)), Some(1000));
}

#[test]
fn parse_offer_wraps_the_failing_step() {
    assert_eq!(
        parse_offer("hello").err(),
        Some(ParseFailure::Decode(DecodeError::UnrecognizedFormat))
    );
    assert_eq!(
        parse_offer("offer1bbbb").err(),
        Some(ParseFailure::Decode(DecodeError::MalformedEncoding))
    );
    let unreadable = bundle(vec![settlement(plain_puzzle(), vec![0xff])]);
    assert_eq!(
        parse_offer(&offer_text_of_bytes(&raw_bundle_bytes(&unreadable))).err(),
        Some(ParseFailure::Decode(DecodeError::MalformedBundle))
    );
    let malformed = bundle(vec![settlement(plain_puzzle(), vec![0x01])]);
    assert_eq!(
        parse_offer(&offer_text(&malformed)).err(),
        Some(ParseFailure::Classify(ClassifyError::MalformedSolution))
    );
    let overflowing = bundle(vec![
        offered(1, u64::MAX, plain_puzzle()),
        offered(2, 1, plain_puzzle()),
    ]);
    assert_eq!(
        parse_offer(&offer_text(&overflowing)).err(),
        Some(ParseFailure::Summary(SummaryError::AmountOverflow))
    );
}

fn raw_bundle_bytes(bundle: &SpendBundle) -> Vec<u8> {
    let mut bytes = (bundle.coin_spends.len() as u32).to_be_bytes().to_vec();
    for spend in &bundle.coin_spends {
        bytes.extend_from_slice(&spend.coin.parent_coin_info);
        bytes.extend_from_slice(&spend.coin.puzzle_hash);
        bytes.extend_from_slice(&spend.coin.amount.to_be_bytes());
        bytes.extend_from_slice(&spend.puzzle_reveal);
        bytes.extend_from_slice(&spend.solution);
    }
    bytes.extend_from_slice(&bundle.aggregated_signature);
    bytes
}

#[test]
fn streamable_layout_is_read_field_by_field() {
    let expected = sample_bundle();
    assert_eq!(raw_bundle_bytes(&expected), to_chia(&expected).to_bytes().unwrap());
    assert_eq!(bundle_from_bytes(&raw_bundle_bytes(&expected)), Ok(expected));
}

#[test]
fn node_tells_the_host_of_a_discovered_offer_once() {
    let text = offer_text(&sample_bundle());
    let expected = parse_offer(&text).unwrap();
    let mut node = Node::new(MAX_OFFER_SIZE);
    let first = node.receive(text.clone().into_bytes());
    assert_eq!(first, NodeAction::NotifyOffer { summary: expected.clone() });
    let second = node.receive(text.clone().into_bytes());
    assert_eq!(second, NodeAction::Ignore);
    let third = node.step(NodeEvent::ConnectionEstablished { connection: 1 });
    assert_eq!(third, NodeAction::NotifyPeerCount { count: 1 });
    assert_eq!(node.receive(text.into_bytes()), NodeAction::Ignore);

    let other = offer_text(&bundle(vec![offered(1, 5, plain_puzzle())]));
    assert!(matches!(node.receive(other.into_bytes()), NodeAction::NotifyOffer { .. }));
}

#[test]
fn node_drops_what_is_no_offer() {
    let mut node = Node::new(MAX_OFFER_SIZE);
    assert_eq!(node.receive(b"hello".to_vec()), NodeAction::Ignore);
    assert_eq!(node.receive(b"offer1bbbb".to_vec()), NodeAction::Ignore);
    assert_eq!(node.receive(vec![0xff, 0xfe, 0x00]), NodeAction::Ignore);
    let malformed = bundle(vec![settlement(plain_puzzle(), vec![0x01])]);
    assert_eq!(node.receive(offer_text(&malformed).into_bytes()), NodeAction::Ignore);
}

#[test]
fn node_never_reads_an_oversized_payload() {
    let text = offer_text(&sample_bundle());
    let cap = text.len() - 1;
    let mut small = Node::new(cap);
    assert_eq!(small.receive(text.clone().into_bytes()), NodeAction::Ignore);
    assert_eq!(small.receive(text.clone().into_bytes()), NodeAction::Ignore);
    let mut exact = Node::new(text.len());
    assert!(matches!(exact.receive(text.into_bytes()), NodeAction::NotifyOffer { .. }));
}

#[test]
fn node_does_not_discover_what_it_published() {
    let text = offer_text(&sample_bundle());
    let mut node = Node::new(MAX_OFFER_SIZE);
    assert_eq!(
        node.submit(text.clone()),
        NodeAction::Publish { payload: text.clone().into_bytes() }
    );
    assert_eq!(node.receive(text.into_bytes()), NodeAction::Ignore);
}
