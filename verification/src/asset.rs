//! Asset classification: which asset a puzzle stands for, and under which
//! identifier it is reported.

use crate::encoding::{bech32m_encode, bech32m_text, hex_encode, hex_text, hrp_accepted};
use chia_sdk_driver::Layer;
use clvm_traits::ToClvm;
use vstd::prelude::*;

verus! {

#[verifier::external_type_specification]
#[verifier::external_body]
pub struct ExDriverError(chia_sdk_driver::DriverError);

#[verifier::external_type_specification]
#[verifier::external_body]
pub struct ExToClvmError(clvm_traits::ToClvmError);

/// Whether a byte string is the serialisation of a program, that is whether
/// `Program::to_clvm` loads it into an empty allocator.
pub uninterp spec fn is_program(bytes: Seq<u8>) -> bool;

/// The asset identifier that `CatLayer::parse_puzzle` finds in a puzzle,
/// if it finds the token wrapper there.
pub uninterp spec fn token_layer_of(puzzle: Seq<u8>) -> Option<Seq<u8>>;

/// The launcher identifier that `NftInfo::parse` finds in a puzzle, if it
/// finds the layers of a non-fungible item there.
pub uninterp spec fn nft_layer_of(puzzle: Seq<u8>) -> Option<Seq<u8>>;

/// Calls `Program::to_clvm` on a fresh allocator. Whether it succeeds depends
/// on the bytes alone.
#[verifier::external_body]
pub(crate) fn load_program(bytes: &[u8]) -> (r: Result<(), clvm_traits::ToClvmError>)
    ensures
        r is Ok <==> is_program(bytes@),
{
    let mut allocator = clvmr::Allocator::new();
    chia_protocol::Program::from(bytes).to_clvm(&mut allocator)?;
    Ok(())
}

/// Loads the puzzle into a fresh allocator and calls
/// `CatLayer::<NodePtr>::parse_puzzle` on it. The asset identifier comes back
/// exactly when the call returns a layer.
#[verifier::external_body]
pub(crate) fn parse_token_layer(puzzle: &[u8]) -> (r: Result<
    Option<[u8; 32]>,
    chia_sdk_driver::DriverError,
>)
    ensures
        match r {
            Ok(Some(asset_id)) => token_layer_of(puzzle@) == Some(asset_id@),
            _ => token_layer_of(puzzle@) is None,
        },
{
    let mut allocator = clvmr::Allocator::new();
    let ptr = chia_protocol::Program::from(puzzle).to_clvm(&mut allocator)?;
    let parsed = chia_sdk_driver::Puzzle::parse(&allocator, ptr);
    let layer = chia_sdk_driver::CatLayer::<clvmr::NodePtr>::parse_puzzle(&allocator, parsed)?;
    Ok(layer.map(|found| found.asset_id.to_bytes()))
}

/// Loads the puzzle into a fresh allocator and calls
/// `NftInfo::<NodePtr>::parse` on it. The launcher identifier comes back
/// exactly when the call returns the item's description.
#[verifier::external_body]
pub(crate) fn parse_nft_layer(puzzle: &[u8]) -> (r: Result<
    Option<[u8; 32]>,
    chia_sdk_driver::DriverError,
>)
    ensures
        match r {
            Ok(Some(launcher_id)) => nft_layer_of(puzzle@) == Some(launcher_id@),
            _ => nft_layer_of(puzzle@) is None,
        },
{
    let mut allocator = clvmr::Allocator::new();
    let ptr = chia_protocol::Program::from(puzzle).to_clvm(&mut allocator)?;
    let parsed = chia_sdk_driver::Puzzle::parse(&allocator, ptr);
    let info = chia_sdk_driver::NftInfo::<clvmr::NodePtr>::parse(&allocator, parsed)?;
    Ok(info.map(|found| found.0.launcher_id.to_bytes()))
}

/// The closed set of assets that an offer can move.
#[derive(Clone, Copy, Debug, PartialEq, Eq)]
pub enum AssetId {
    /// The chain's own currency.
    Native,
    /// A fungible token, named by the hash of its issuance program.
    Token { asset_id: [u8; 32] },
    /// A non-fungible item, named by its launcher coin.
    Nft { launcher_id: [u8; 32] },
}

/// An asset with its identifier as a byte sequence.
pub ghost enum AssetIdView {
    Native,
    Token { asset_id: Seq<u8> },
    Nft { launcher_id: Seq<u8> },
}

/// The asset that two recognition results stand for. The token wrapper is
/// looked for first: where both are found, the asset is the token.
pub open spec fn classified(token: Option<Seq<u8>>, nft: Option<Seq<u8>>) -> AssetIdView {
    match token {
        Some(asset_id) => AssetIdView::Token { asset_id },
        None => match nft {
            Some(launcher_id) => AssetIdView::Nft { launcher_id },
            None => AssetIdView::Native,
        },
    }
}

impl View for AssetId {
    type V = AssetIdView;

    open spec fn view(&self) -> AssetIdView {
        match *self {
            AssetId::Native => AssetIdView::Native,
            AssetId::Token { asset_id } => AssetIdView::Token { asset_id: asset_id@ },
            AssetId::Nft { launcher_id } => AssetIdView::Nft { launcher_id: launcher_id@ },
        }
    }
}

/// The asset of a puzzle given as bytes.
pub open spec fn asset_of(puzzle: Seq<u8>) -> AssetIdView {
    classified(token_layer_of(puzzle), nft_layer_of(puzzle))
}

/// The identifier under which an asset is reported: `xch` for the native
/// currency, 64 hexadecimal digits for a token, a bech32m address with the
/// prefix `nft` for a non-fungible item.
pub open spec fn asset_label(asset: AssetIdView) -> Seq<char> {
    match asset {
        AssetIdView::Native => "xch"@,
        AssetIdView::Token { asset_id } => hex_text(asset_id),
        AssetIdView::Nft { launcher_id } => bech32m_text("nft"@, launcher_id),
    }
}

/// Decides the asset from what the two recognisers found.
pub fn classify_asset(token: Option<[u8; 32]>, nft: Option<[u8; 32]>) -> (asset: AssetId)
    ensures
        token matches Some(asset_id) ==> asset == (AssetId::Token { asset_id }),
        token is None ==> (nft matches Some(launcher_id) ==> asset == (AssetId::Nft {
            launcher_id,
        })),
        token is None && nft is None ==> asset == AssetId::Native,
        asset@ == classified(
            match token {
                Some(id) => Some(id@),
                None => None,
            },
            match nft {
                Some(id) => Some(id@),
                None => None,
            },
        ),
{
    match token {
        Some(asset_id) => AssetId::Token { asset_id },
        None => match nft {
            Some(launcher_id) => AssetId::Nft { launcher_id },
            None => AssetId::Native,
        },
    }
}

/// Runs the recognisers on a puzzle in their fixed order and classifies it.
/// The second recogniser runs only where the first found nothing.
pub fn classify_puzzle(puzzle: &[u8]) -> (asset: AssetId)
    ensures
        asset@ == asset_of(puzzle@),
{
    let token = match parse_token_layer(puzzle) {
        Ok(Some(asset_id)) => Some(asset_id),
        _ => None,
    };
    if token.is_some() {
        classify_asset(token, None)
    } else {
        let nft = match parse_nft_layer(puzzle) {
            Ok(Some(launcher_id)) => Some(launcher_id),
            _ => None,
        };
        classify_asset(None, nft)
    }
}

/// Renders the identifier of an asset.
pub fn asset_name(asset: &AssetId) -> (label: String)
    ensures
        label@ == asset_label(asset@),
{
    match asset {
        AssetId::Native => "xch".to_owned(),
        AssetId::Token { asset_id } => hex_encode(asset_id.as_slice()),
        AssetId::Nft { launcher_id } => {
            proof {
                reveal_strlit("nft");
                assert(hrp_accepted("nft"@));
            }
            match bech32m_encode("nft", launcher_id.as_slice()) {
                Ok(label) => label,
                Err(_) => vstd::pervasive::unreached(),
            }
        },
    }
}

/// The reported identifier of the asset behind a puzzle. Bytes in which
/// neither recogniser finds its layers, be they a program or not, stand for
/// the native currency.
pub fn get_asset_id(puzzle: &[u8]) -> (label: String)
    ensures
        label@ == asset_label(asset_of(puzzle@)),
{
    let asset = classify_puzzle(puzzle);
    asset_name(&asset)
}

/// A puzzle in which the token wrapper is found is a token, whatever the
/// recogniser of non-fungible items would find in it.
pub proof fn lemma_token_takes_precedence(token: Seq<u8>, nft: Option<Seq<u8>>)
    ensures
        classified(Some(token), nft) == (AssetIdView::Token { asset_id: token }),
{
}

} // verus!
