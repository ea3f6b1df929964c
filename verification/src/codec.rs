//! The offer codec: from the text of an offer to its spend bundle.

use crate::bundle::{Coin, CoinSpend, SpendBundle, SpendBundleView};
use chia_puzzles::cat::{CAT_PUZZLE, CAT_PUZZLE_V1};
use chia_puzzles::nft::{
    NFT_METADATA_UPDATER_PUZZLE, NFT_OWNERSHIP_LAYER_PUZZLE, NFT_ROYALTY_TRANSFER_PUZZLE,
    NFT_STATE_LAYER_PUZZLE,
};
use chia_puzzles::offer::{SETTLEMENT_PAYMENTS_PUZZLE, SETTLEMENT_PAYMENTS_PUZZLE_V1};
use chia_puzzles::singleton::SINGLETON_TOP_LAYER_PUZZLE;
use chia_puzzles::standard::STANDARD_PUZZLE;
use chia_traits::Streamable;
use std::io::Read;
use vstd::prelude::*;

verus! {

#[verifier::external_type_specification]
#[verifier::external_body]
pub struct ExStreamableError(chia_traits::Error);

#[verifier::external_type_specification]
#[verifier::external_body]
pub struct ExDecompressError(flate2::DecompressError);

/// Why the text of an offer could not be turned into a spend bundle.
#[derive(Clone, Copy, Debug, PartialEq, Eq)]
pub enum DecodeError {
    /// The text does not start with the format prefix.
    UnrecognizedFormat,
    /// The text after the prefix is no valid bech32m encoding of bytes.
    MalformedEncoding,
    /// The bytes are no compressed stream of a supported version.
    DecompressionFailure,
    /// The decompressed bytes are no spend bundle, or one without coin spends.
    MalformedBundle,
}

impl DecodeError {
    /// The reason in words.
    pub open spec fn spec_message(&self) -> Seq<char> {
        match *self {
            DecodeError::UnrecognizedFormat => "unrecognized format"@,
            DecodeError::MalformedEncoding => "malformed encoding"@,
            DecodeError::DecompressionFailure => "decompression failure"@,
            DecodeError::MalformedBundle => "malformed bundle"@,
        }
    }

    /// The reason in words, for the host to show.
    pub fn message(&self) -> (text: String)
        ensures
            text@ == self.spec_message(),
    {
        match self {
            DecodeError::UnrecognizedFormat => "unrecognized format".to_owned(),
            DecodeError::MalformedEncoding => "malformed encoding".to_owned(),
            DecodeError::DecompressionFailure => "decompression failure".to_owned(),
            DecodeError::MalformedBundle => "malformed bundle".to_owned(),
        }
    }
}

/// The checksum variants of bech32.
#[derive(Clone, Copy, Debug, PartialEq, Eq)]
pub enum Checksum {
    Bech32,
    Bech32m,
}

/// What `bech32::decode` makes of a text: the human-readable part, the data
/// words (each below 32) and the checksum variant, or nothing where it
/// rejects the text.
pub uninterp spec fn bech32_parts(text: Seq<char>) -> Option<(Seq<char>, Seq<u8>, Checksum)>;

/// What `bech32::convert_bits` makes of a sequence of `from`-bit words
/// regrouped into `to`-bit words, or nothing where it rejects the input.
pub uninterp spec fn regrouped_bits(data: Seq<u8>, from: u32, to: u32, pad: bool) -> Option<
    Seq<u8>,
>;

/// The puzzles whose serialised programs make up the compression dictionary.
#[derive(Clone, Copy, Debug, PartialEq, Eq)]
pub enum WellKnownPuzzle {
    Standard,
    CatV1,
    SettlementPaymentsV1,
    SingletonTopLayer,
    NftStateLayer,
    NftOwnershipLayer,
    NftMetadataUpdater,
    NftRoyaltyTransfer,
    Cat,
    SettlementPayments,
}

/// The serialised program that `chia_puzzles` holds for a well-known puzzle.
pub uninterp spec fn puzzle_bytes(puzzle: WellKnownPuzzle) -> Seq<u8>;

/// Whether a first call of `Decompress::decompress`, with no room for
/// output, accepts the start of a zlib stream. It does so for a stream whose
/// header names no preset dictionary, and fails where the header is invalid
/// or asks for a dictionary.
pub uninterp spec fn header_accepted(stream: Seq<u8>) -> bool;

/// What `flate2` inflates from a zlib stream once the dictionary that the
/// stream's header asks for is supplied, or nothing where the dictionary is
/// refused or the stream is truncated or corrupt.
pub uninterp spec fn zlib_inflated(stream: Seq<u8>, dictionary: Seq<u8>) -> Option<Seq<u8>>;

/// The spend bundle that `SpendBundle::from_bytes` reads from a byte string
/// in the streamable layout, or nothing where it rejects the bytes.
pub uninterp spec fn streamed_bundle(bytes: Seq<u8>) -> Option<SpendBundleView>;

/// Calls `bech32::decode` and hands out the human-readable part, the data
/// words as bytes and the checksum variant.
#[verifier::external_body]
fn bech32_decode(text: &str) -> (r: Result<(String, Vec<u8>, Checksum), bech32::Error>)
    ensures
        match r {
            Ok((hrp, data, checksum)) => bech32_parts(text@) == Some((hrp@, data@, checksum)),
            Err(_) => bech32_parts(text@) is None,
        },
{
    let (hrp, data, variant) = bech32::decode(text)?;
    let checksum = match variant {
        bech32::Variant::Bech32 => Checksum::Bech32,
        bech32::Variant::Bech32m => Checksum::Bech32m,
    };
    Ok((hrp, data.into_iter().map(|word| word.to_u8()).collect(), checksum))
}

/// Calls `bech32::convert_bits`, which panics for a word size of zero or
/// above eight.
#[verifier::external_body]
fn convert_bits(data: &[u8], from: u32, to: u32, pad: bool) -> (r: Result<Vec<u8>, bech32::Error>)
    requires
        1 <= from <= 8,
        1 <= to <= 8,
    ensures
        match r {
            Ok(bytes) => regrouped_bits(data@, from, to, pad) == Some(bytes@),
            Err(_) => regrouped_bits(data@, from, to, pad) is None,
        },
{
    bech32::convert_bits(data, from, to, pad)
}

/// Copies one of the puzzle constants of `chia_puzzles` into a vector.
#[verifier::external_body]
fn well_known_puzzle(puzzle: WellKnownPuzzle) -> (bytes: Vec<u8>)
    ensures
        bytes@ == puzzle_bytes(puzzle),
{
    match puzzle {
        WellKnownPuzzle::Standard => STANDARD_PUZZLE.to_vec(),
        WellKnownPuzzle::CatV1 => CAT_PUZZLE_V1.to_vec(),
        WellKnownPuzzle::SettlementPaymentsV1 => SETTLEMENT_PAYMENTS_PUZZLE_V1.to_vec(),
        WellKnownPuzzle::SingletonTopLayer => SINGLETON_TOP_LAYER_PUZZLE.to_vec(),
        WellKnownPuzzle::NftStateLayer => NFT_STATE_LAYER_PUZZLE.to_vec(),
        WellKnownPuzzle::NftOwnershipLayer => NFT_OWNERSHIP_LAYER_PUZZLE.to_vec(),
        WellKnownPuzzle::NftMetadataUpdater => NFT_METADATA_UPDATER_PUZZLE.to_vec(),
        WellKnownPuzzle::NftRoyaltyTransfer => NFT_ROYALTY_TRANSFER_PUZZLE.to_vec(),
        WellKnownPuzzle::Cat => CAT_PUZZLE.to_vec(),
        WellKnownPuzzle::SettlementPayments => SETTLEMENT_PAYMENTS_PUZZLE.to_vec(),
    }
}

/// Calls `Decompress::decompress` on a new zlib state with the whole stream
/// as input, an empty output buffer and `FlushDecompress::Finish`.
#[verifier::external_body]
fn read_header(stream: &[u8]) -> (r: Result<(), flate2::DecompressError>)
    ensures
        r is Ok <==> header_accepted(stream@),
{
    let mut state = flate2::Decompress::new(true);
    state.decompress(stream, &mut [], flate2::FlushDecompress::Finish).map(|_| ())
}

/// Inflates a zlib stream against a preset dictionary with `flate2`:
/// `Decompress::decompress` reads the header, `Decompress::set_dictionary`
/// supplies the dictionary, and a `ZlibDecoder` made by `new_with_decompress`
/// reads what follows the `total_in` bytes of the header to its end. The
/// result depends on the stream and the dictionary alone.
#[verifier::external_body]
fn inflate(stream: &[u8], dictionary: &[u8]) -> (r: Option<Vec<u8>>)
    ensures
        match r {
            Some(bytes) => zlib_inflated(stream@, dictionary@) == Some(bytes@),
            None => zlib_inflated(stream@, dictionary@) is None,
        },
{
    let mut state = flate2::Decompress::new(true);
    let _ = state.decompress(stream, &mut [], flate2::FlushDecompress::Finish);
    state.set_dictionary(dictionary).ok()?;
    let consumed = usize::try_from(state.total_in()).ok()?;
    let mut bytes = Vec::new();
    flate2::read::ZlibDecoder::new_with_decompress(stream.get(consumed..)?, state)
        .read_to_end(&mut bytes).ok()?;
    Some(bytes)
}

/// Calls `SpendBundle::from_bytes`, which accepts exactly the byte strings
/// that hold one bundle in the streamable layout and nothing after it, and
/// copies the fields out.
#[verifier::external_body]
fn read_bundle(bytes: &[u8]) -> (r: Result<SpendBundle, chia_traits::Error>)
    ensures
        match r {
            Ok(bundle) => streamed_bundle(bytes@) == Some(bundle@),
            Err(_) => streamed_bundle(bytes@) is None,
        },
{
    let bundle = chia_protocol::SpendBundle::from_bytes(bytes)?;
    let coin_spends = bundle.coin_spends.into_iter().map(|spend| CoinSpend {
        coin: Coin {
            parent_coin_info: spend.coin.parent_coin_info.to_bytes(),
            puzzle_hash: spend.coin.puzzle_hash.to_bytes(),
            amount: spend.coin.amount,
        },
        puzzle_reveal: spend.puzzle_reveal.into_bytes(),
        solution: spend.solution.into_bytes(),
    }).collect();
    Ok(SpendBundle { coin_spends, aggregated_signature: bundle.aggregated_signature.to_bytes() })
}

/// An offer starts with the human-readable part `offer` and the separator.
pub open spec fn has_offer_prefix(raw: Seq<char>) -> bool {
    raw.len() >= 6 && raw.subrange(0, 6) == "offer1"@
}

/// The bytes that the text of an offer encodes: the text is bech32m, its
/// human-readable part is `offer`, and its five-bit words regroup into whole
/// bytes without padding.
pub open spec fn offer_payload(raw: Seq<char>) -> Option<Seq<u8>> {
    match bech32_parts(raw) {
        Some((hrp, data, checksum)) => if checksum == Checksum::Bech32m && hrp == "offer"@ {
            regrouped_bits(data, 5, 8, false)
        } else {
            None
        },
        None => None,
    }
}

/// The highest version of the compressed layout that is understood.
pub const MAX_COMPRESSION_VERSION: u16 = 6;

/// The dictionary against which offers are compressed: the well-known
/// puzzles one after the other, in the order in which the layout took them up.
pub open spec fn compression_dictionary() -> Seq<u8> {
    puzzle_bytes(WellKnownPuzzle::Standard) + puzzle_bytes(WellKnownPuzzle::CatV1) + puzzle_bytes(
        WellKnownPuzzle::SettlementPaymentsV1,
    ) + puzzle_bytes(WellKnownPuzzle::SingletonTopLayer) + puzzle_bytes(
        WellKnownPuzzle::NftStateLayer,
    ) + puzzle_bytes(WellKnownPuzzle::NftOwnershipLayer) + puzzle_bytes(
        WellKnownPuzzle::NftMetadataUpdater,
    ) + puzzle_bytes(WellKnownPuzzle::NftRoyaltyTransfer) + puzzle_bytes(WellKnownPuzzle::Cat)
        + puzzle_bytes(WellKnownPuzzle::SettlementPayments)
}

/// The decompressed content of a payload. Two bytes give the version, big
/// end first, and the rest is a zlib stream. A stream that names no preset
/// dictionary is refused as not compressed; any other is inflated against
/// the compression dictionary.
pub open spec fn inflated_payload(payload: Seq<u8>) -> Option<Seq<u8>> {
    if payload.len() >= 2 && payload[0] as int * 256 + payload[1] as int
        <= MAX_COMPRESSION_VERSION {
        let stream = payload.subrange(2, payload.len() as int);
        if header_accepted(stream) {
            None
        } else {
            zlib_inflated(stream, compression_dictionary())
        }
    } else {
        None
    }
}

/// The bundle in decompressed bytes: what the streamable layout holds, if
/// it holds at least one coin spend.
pub open spec fn bundle_in(bytes: Seq<u8>) -> Option<SpendBundleView> {
    match streamed_bundle(bytes) {
        Some(bundle) => if bundle.well_formed() {
            Some(bundle)
        } else {
            None
        },
        None => None,
    }
}

/// What decoding the text of an offer gives: the bundle, or the first step
/// that failed.
pub open spec fn decoded(raw: Seq<char>) -> Result<SpendBundleView, DecodeError> {
    if !has_offer_prefix(raw) {
        Err(DecodeError::UnrecognizedFormat)
    } else {
        match offer_payload(raw) {
            None => Err(DecodeError::MalformedEncoding),
            Some(payload) => match inflated_payload(payload) {
                None => Err(DecodeError::DecompressionFailure),
                Some(bytes) => match bundle_in(bytes) {
                    None => Err(DecodeError::MalformedBundle),
                    Some(bundle) => Ok(bundle),
                },
            },
        }
    }
}

/// Whether a text starts with the prefix of an offer.
pub fn starts_with_offer_prefix(raw: &str) -> (found: bool)
    ensures
        found == has_offer_prefix(raw@),
{
    let prefix = "offer1";
    proof {
        reveal_strlit("offer1");
    }
    if raw.unicode_len() < 6 {
        return false;
    }
    let mut i: usize = 0;
    while i < 6
        invariant
            i <= 6,
            raw@.len() >= 6,
            prefix@ == "offer1"@,
            prefix@.len() == 6,
            forall|j: int| 0 <= j < i ==> raw@[j] == prefix@[j],
        decreases 6 - i,
    {
        if raw.get_char(i) != prefix.get_char(i) {
            assert(raw@.subrange(0, 6)[i as int] == raw@[i as int]);
            return false;
        }
        i += 1;
    }
    assert(raw@.subrange(0, 6) =~= "offer1"@);
    true
}

/// Decodes the bech32m text of an offer into the bytes it carries.
pub fn decode_offer_data(raw: &str) -> (r: Result<Vec<u8>, DecodeError>)
    ensures
        match offer_payload(raw@) {
            Some(payload) => r matches Ok(bytes) && bytes@ == payload,
            None => r == Err::<Vec<u8>, DecodeError>(DecodeError::MalformedEncoding),
        },
{
    match bech32_decode(raw) {
        Ok((hrp, data, checksum)) => {
            let modern = match checksum {
                Checksum::Bech32m => true,
                Checksum::Bech32 => false,
            };
            let expected = "offer".to_owned();
            if modern && hrp == expected {
                match convert_bits(data.as_slice(), 5, 8, false) {
                    Ok(bytes) => Ok(bytes),
                    Err(_) => Err(DecodeError::MalformedEncoding),
                }
            } else {
                Err(DecodeError::MalformedEncoding)
            }
        },
        Err(_) => Err(DecodeError::MalformedEncoding),
    }
}

/// Builds the compression dictionary from the well-known puzzles.
pub fn dictionary() -> (dictionary: Vec<u8>)
    ensures
        dictionary@ == compression_dictionary(),
{
    let mut dictionary = well_known_puzzle(WellKnownPuzzle::Standard);
    let mut part = well_known_puzzle(WellKnownPuzzle::CatV1);
    dictionary.append(&mut part);
    let mut part = well_known_puzzle(WellKnownPuzzle::SettlementPaymentsV1);
    dictionary.append(&mut part);
    let mut part = well_known_puzzle(WellKnownPuzzle::SingletonTopLayer);
    dictionary.append(&mut part);
    let mut part = well_known_puzzle(WellKnownPuzzle::NftStateLayer);
    dictionary.append(&mut part);
    let mut part = well_known_puzzle(WellKnownPuzzle::NftOwnershipLayer);
    dictionary.append(&mut part);
    let mut part = well_known_puzzle(WellKnownPuzzle::NftMetadataUpdater);
    dictionary.append(&mut part);
    let mut part = well_known_puzzle(WellKnownPuzzle::NftRoyaltyTransfer);
    dictionary.append(&mut part);
    let mut part = well_known_puzzle(WellKnownPuzzle::Cat);
    dictionary.append(&mut part);
    let mut part = well_known_puzzle(WellKnownPuzzle::SettlementPayments);
    dictionary.append(&mut part);
    dictionary
}

/// Checks the version of a compressed payload, refuses a stream that was not
/// compressed against a dictionary, and inflates the stream.
pub fn decompress_offer_bytes(payload: &Vec<u8>) -> (r: Result<Vec<u8>, DecodeError>)
    ensures
        match inflated_payload(payload@) {
            Some(content) => r matches Ok(bytes) && bytes@ == content,
            None => r == Err::<Vec<u8>, DecodeError>(DecodeError::DecompressionFailure),
        },
{
    if payload.len() < 2 {
        return Err(DecodeError::DecompressionFailure);
    }
    let version: u16 = (payload[0] as u16) * 256 + (payload[1] as u16);
    if version > MAX_COMPRESSION_VERSION {
        return Err(DecodeError::DecompressionFailure);
    }
    let mut stream: Vec<u8> = Vec::new();
    let mut i: usize = 2;
    while i < payload.len()
        invariant
            2 <= i <= payload.len(),
            stream@ == payload@.subrange(2, i as int),
        decreases payload.len() - i,
    {
        stream.push(payload[i]);
        assert(stream@ =~= payload@.subrange(2, i + 1));
        i += 1;
    }
    if read_header(stream.as_slice()).is_ok() {
        return Err(DecodeError::DecompressionFailure);
    }
    let dictionary = dictionary();
    match inflate(stream.as_slice(), dictionary.as_slice()) {
        Some(bytes) => Ok(bytes),
        None => Err(DecodeError::DecompressionFailure),
    }
}

/// Reads the spend bundle out of decompressed bytes. A bundle without coin
/// spends is refused.
pub fn bundle_from_bytes(bytes: &[u8]) -> (r: Result<SpendBundle, DecodeError>)
    ensures
        match bundle_in(bytes@) {
            Some(bundle) => r matches Ok(b) && b@ == bundle && b.well_formed(),
            None => r == Err::<SpendBundle, DecodeError>(DecodeError::MalformedBundle),
        },
{
    match read_bundle(bytes) {
        Ok(bundle) => {
            if bundle.coin_spends.len() == 0 {
                Err(DecodeError::MalformedBundle)
            } else {
                Ok(bundle)
            }
        },
        Err(_) => Err(DecodeError::MalformedBundle),
    }
}

/// Decodes the text of an offer: checks the prefix, decodes the bech32m
/// text, inflates the payload and reads the spend bundle. Each step has an
/// error of its own, and the first step that fails gives the result.
pub fn decode(raw: &str) -> (r: Result<SpendBundle, DecodeError>)
    ensures
        match decoded(raw@) {
            Ok(bundle) => r matches Ok(b) && b@ == bundle && b.well_formed(),
            Err(e) => r == Err::<SpendBundle, DecodeError>(e),
        },
{
    if !starts_with_offer_prefix(raw) {
        return Err(DecodeError::UnrecognizedFormat);
    }
    let payload = match decode_offer_data(raw) {
        Ok(payload) => payload,
        Err(e) => {
            return Err(e);
        },
    };
    let bytes = match decompress_offer_bytes(&payload) {
        Ok(bytes) => bytes,
        Err(e) => {
            return Err(e);
        },
    };
    bundle_from_bytes(bytes.as_slice())
}

} // verus!
