//! The spend bundle behind an offer, as plain values.

use vstd::prelude::*;

verus! {

/// A coin reference: where the coin came from, who owns it, how much it holds.
#[derive(Clone, Copy, Debug, PartialEq, Eq)]
pub struct Coin {
    pub parent_coin_info: [u8; 32],
    pub puzzle_hash: [u8; 32],
    pub amount: u64,
}

/// One coin being spent: the coin, the program that guards it and the
/// arguments handed to that program, both in serialised form.
#[derive(Clone, Debug, PartialEq, Eq)]
pub struct CoinSpend {
    pub coin: Coin,
    pub puzzle_reveal: Vec<u8>,
    pub solution: Vec<u8>,
}

/// An ordered sequence of coin spends under one aggregated signature.
#[derive(Clone, Debug, PartialEq, Eq)]
pub struct SpendBundle {
    pub coin_spends: Vec<CoinSpend>,
    pub aggregated_signature: [u8; 96],
}

pub ghost struct CoinView {
    pub parent_coin_info: Seq<u8>,
    pub puzzle_hash: Seq<u8>,
    pub amount: u64,
}

pub ghost struct CoinSpendView {
    pub coin: CoinView,
    pub puzzle_reveal: Seq<u8>,
    pub solution: Seq<u8>,
}

pub ghost struct SpendBundleView {
    pub coin_spends: Seq<CoinSpendView>,
    pub aggregated_signature: Seq<u8>,
}

impl View for Coin {
    type V = CoinView;

    open spec fn view(&self) -> CoinView {
        CoinView {
            parent_coin_info: self.parent_coin_info@,
            puzzle_hash: self.puzzle_hash@,
            amount: self.amount,
        }
    }
}

impl View for CoinSpend {
    type V = CoinSpendView;

    open spec fn view(&self) -> CoinSpendView {
        CoinSpendView {
            coin: self.coin@,
            puzzle_reveal: self.puzzle_reveal@,
            solution: self.solution@,
        }
    }
}

/// The views of a sequence of coin spends, in the same order.
pub open spec fn coin_spend_views(spends: Seq<CoinSpend>) -> Seq<CoinSpendView> {
    Seq::new(spends.len(), |i: int| spends[i]@)
}

impl View for SpendBundle {
    type V = SpendBundleView;

    open spec fn view(&self) -> SpendBundleView {
        SpendBundleView {
            coin_spends: coin_spend_views(self.coin_spends@),
            aggregated_signature: self.aggregated_signature@,
        }
    }
}

/// Thirty-two zero bytes: the parent of a settlement record.
pub open spec fn is_zero_id(id: Seq<u8>) -> bool {
    forall|i: int| 0 <= i < id.len() ==> id[i] == 0
}

impl CoinSpendView {
    /// A settlement record stands for something requested: its coin has a
    /// zero parent and a zero amount. Every other record offers its coin.
    pub open spec fn is_settlement(self) -> bool {
        is_zero_id(self.coin.parent_coin_info) && self.coin.amount == 0
    }
}

impl SpendBundleView {
    /// A bundle holds at least one coin spend.
    pub open spec fn well_formed(self) -> bool {
        self.coin_spends.len() > 0
    }
}

impl SpendBundle {
    /// A bundle holds at least one coin spend.
    pub open spec fn well_formed(&self) -> bool {
        self@.well_formed()
    }
}

/// Whether all thirty-two bytes of an identifier are zero.
pub fn is_zero(id: &[u8; 32]) -> (zero: bool)
    ensures
        zero == is_zero_id(id@),
{
    let mut i: usize = 0;
    while i < 32
        invariant
            i <= 32,
            id@.len() == 32,
            forall|j: int| 0 <= j < i ==> id@[j] == 0,
        decreases 32 - i,
    {
        if id[i] != 0 {
            return false;
        }
        i += 1;
    }
    true
}

/// A copy of a byte vector.
pub fn copy_bytes(bytes: &Vec<u8>) -> (copy: Vec<u8>)
    ensures
        copy@ == bytes@,
{
    let mut copy: Vec<u8> = Vec::with_capacity(bytes.len());
    let mut i: usize = 0;
    while i < bytes.len()
        invariant
            i <= bytes.len(),
            copy@ == bytes@.take(i as int),
        decreases bytes.len() - i,
    {
        copy.push(bytes[i]);
        assert(copy@ =~= bytes@.take(i + 1));
        i += 1;
    }
    assert(bytes@.take(bytes.len() as int) =~= bytes@);
    copy
}

impl CoinSpend {
    /// A copy of the record.
    pub fn duplicate(&self) -> (copy: CoinSpend)
        ensures
            copy@ == self@,
    {
        CoinSpend {
            coin: self.coin,
            puzzle_reveal: copy_bytes(&self.puzzle_reveal),
            solution: copy_bytes(&self.solution),
        }
    }

    /// Tells a settlement record from an offered coin.
    pub fn is_settlement(&self) -> (settlement: bool)
        ensures
            settlement == self@.is_settlement(),
    {
        is_zero(&self.coin.parent_coin_info) && self.coin.amount == 0
    }
}

} // verus!
