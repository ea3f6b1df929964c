//! Amounts added up per asset.

use vstd::prelude::*;

verus! {

/// Labelled amounts in the order in which they were met.
pub type Tally = Seq<(Seq<char>, nat)>;

/// The sum of the amounts that carry a label.
pub open spec fn total_for(items: Tally, label: Seq<char>) -> nat
    decreases items.len(),
{
    if items.len() == 0 {
        0
    } else {
        total_for(items.drop_last(), label) + if items.last().0 == label {
            items.last().1
        } else {
            0
        }
    }
}

/// The sum of all amounts, whatever their label.
pub open spec fn total_of_all(items: Tally) -> nat
    decreases items.len(),
{
    if items.len() == 0 {
        0
    } else {
        total_of_all(items.drop_last()) + items.last().1
    }
}

/// Whether some amount carries the label.
pub open spec fn labelled(items: Tally, label: Seq<char>) -> bool {
    exists|i: int| 0 <= i < items.len() && (#[trigger] items[i]).0 == label
}

/// The total of each label that occurs.
pub open spec fn totals(items: Tally) -> Map<Seq<char>, nat> {
    Map::new(|label: Seq<char>| labelled(items, label), |label: Seq<char>| total_for(items, label))
}

/// Whether the total of every label fits into 64 bits.
pub open spec fn totals_fit(items: Tally) -> bool {
    forall|label: Seq<char>| #[trigger] total_for(items, label) <= u64::MAX
}

/// No label occurs twice.
pub open spec fn labels_distinct(items: Tally) -> bool {
    forall|i: int, j: int|
        0 <= i < j < items.len() ==> (#[trigger] items[i]).0 != (#[trigger] items[j]).0
}

/// The amount that a map holds for a label, zero where it holds none.
pub open spec fn amount_of(held: Map<Seq<char>, nat>, label: Seq<char>) -> nat {
    if held.contains_key(label) {
        held[label]
    } else {
        0
    }
}

/// One more item adds its amount to the total of its label and to no other.
pub proof fn lemma_total_for_push(items: Tally, item: (Seq<char>, nat), label: Seq<char>)
    ensures
        total_for(items.push(item), label) == total_for(items, label) + if item.0 == label {
            item.1
        } else {
            0
        },
{
    assert(items.push(item).drop_last() =~= items);
}

/// A label that does not occur has the total zero.
pub proof fn lemma_unlabelled_total(items: Tally, label: Seq<char>)
    requires
        !labelled(items, label),
    ensures
        total_for(items, label) == 0,
    decreases items.len(),
{
    if items.len() > 0 {
        assert(items[items.len() - 1].0 != label);
        assert forall|i: int| 0 <= i < items.drop_last().len() implies (
        #[trigger] items.drop_last()[i]).0 != label by {
            assert(items[i].0 != label);
        }
        lemma_unlabelled_total(items.drop_last(), label);
    }
}

/// The total of a label is at least each amount that carries it.
pub proof fn lemma_total_covers_item(items: Tally, index: int)
    requires
        0 <= index < items.len(),
    ensures
        total_for(items, items[index].0) >= items[index].1,
    decreases items.len(),
{
    if index < items.len() - 1 {
        lemma_total_covers_item(items.drop_last(), index);
    }
}

/// The total over a prefix never exceeds the total over the whole.
pub proof fn lemma_total_of_prefix(items: Tally, n: int, label: Seq<char>)
    requires
        0 <= n <= items.len(),
    ensures
        total_for(items.take(n), label) <= total_for(items, label),
    decreases items.len() - n,
{
    if n < items.len() {
        assert(items.take(n + 1).drop_last() =~= items.take(n));
        lemma_total_of_prefix(items, n + 1, label);
    } else {
        assert(items.take(n) =~= items);
    }
}

/// Where no label occurs twice, the total of a label is the one amount that
/// carries it.
pub proof fn lemma_distinct_total(items: Tally, index: int)
    requires
        labels_distinct(items),
        0 <= index < items.len(),
    ensures
        total_for(items, items[index].0) == items[index].1,
    decreases items.len(),
{
    let label = items[index].0;
    let rest = items.drop_last();
    if index == items.len() - 1 {
        assert forall|i: int| 0 <= i < rest.len() implies (#[trigger] rest[i]).0 != label by {
            assert(items[i].0 != items[items.len() - 1].0);
        }
        assert(!labelled(rest, label));
        lemma_unlabelled_total(rest, label);
    } else {
        assert(items[index].0 != items[items.len() - 1].0);
        assert forall|i: int, j: int| 0 <= i < j < rest.len() implies (#[trigger] rest[i]).0 != (
        #[trigger] rest[j]).0 by {
            assert(items[i].0 != items[j].0);
        }
        lemma_distinct_total(rest, index);
    }
}

/// Replacing the amount of one item moves the total of its label by the
/// difference and leaves every other total alone.
pub proof fn lemma_total_for_update(items: Tally, index: int, amount: nat, label: Seq<char>)
    requires
        0 <= index < items.len(),
    ensures
        total_for(items.update(index, (items[index].0, amount)), label) + (if items[index].0
            == label {
            items[index].1
        } else {
            0
        }) == total_for(items, label) + (if items[index].0 == label {
            amount
        } else {
            0
        }),
    decreases items.len(),
{
    let after = items.update(index, (items[index].0, amount));
    if index == items.len() - 1 {
        assert(after.drop_last() =~= items.drop_last());
    } else {
        assert(after.drop_last() =~= items.drop_last().update(index, (items[index].0, amount)));
        lemma_total_for_update(items.drop_last(), index, amount, label);
    }
}

/// No total exceeds the sum of all amounts.
pub proof fn lemma_total_is_bounded(items: Tally, label: Seq<char>)
    ensures
        total_for(items, label) <= total_of_all(items),
    decreases items.len(),
{
    if items.len() > 0 {
        lemma_total_is_bounded(items.drop_last(), label);
    }
}

/// Where every amount carries the same label, the total of that label is the
/// exact sum of all amounts.
pub proof fn lemma_single_asset_total(items: Tally, label: Seq<char>)
    requires
        forall|i: int| 0 <= i < items.len() ==> (#[trigger] items[i]).0 == label,
    ensures
        total_for(items, label) == total_of_all(items),
        items.len() > 0 ==> totals(items) == Map::<Seq<char>, nat>::empty().insert(
            label,
            total_of_all(items),
        ),
    decreases items.len(),
{
    if items.len() > 0 {
        let rest = items.drop_last();
        assert forall|i: int| 0 <= i < rest.len() implies (#[trigger] rest[i]).0 == label by {
            assert(items[i].0 == label);
        }
        lemma_single_asset_total(rest, label);
        assert(items[items.len() - 1].0 == label);
        assert(labelled(items, label));
        assert forall|other: Seq<char>| labelled(items, other) implies other == label by {
            let i = choose|i: int| 0 <= i < items.len() && (#[trigger] items[i]).0 == other;
            assert(items[i].0 == label);
        }
        assert(totals(items) =~= Map::<Seq<char>, nat>::empty().insert(
            label,
            total_of_all(items),
        ));
    }
}

/// The totals after one more item: the total of its label grows by its
/// amount, and the label is present from then on.
pub proof fn lemma_totals_push(items: Tally, item: (Seq<char>, nat))
    ensures
        totals(items.push(item)) == totals(items).insert(
            item.0,
            amount_of(totals(items), item.0) + item.1,
        ),
{
    let after = items.push(item);
    let expected = totals(items).insert(item.0, amount_of(totals(items), item.0) + item.1);
    assert forall|label: Seq<char>| labelled(after, label) <==> (labelled(items, label) || label
        == item.0) by {
        if labelled(after, label) {
            let i = choose|i: int| 0 <= i < after.len() && (#[trigger] after[i]).0 == label;
            if i < items.len() {
                assert(items[i].0 == label);
            }
        }
        if labelled(items, label) {
            let i = choose|i: int| 0 <= i < items.len() && (#[trigger] items[i]).0 == label;
            assert(after[i].0 == label);
        }
        if label == item.0 {
            assert(after[items.len() as int].0 == label);
        }
    }
    assert forall|label: Seq<char>| #[trigger] expected.contains_key(label) implies totals(
        after,
    )[label] == expected[label] by {
        lemma_total_for_push(items, item, label);
        if !labelled(items, item.0) {
            lemma_unlabelled_total(items, item.0);
        }
    }
    assert(totals(after) =~= expected);
}

/// An asset identifier with the amount added up for it.
#[derive(Clone, Debug, PartialEq, Eq)]
pub struct AssetAmount {
    pub asset_id: String,
    pub amount: u64,
}

/// The labelled amounts that a vector of entries holds.
pub open spec fn entry_items(entries: Seq<AssetAmount>) -> Tally {
    Seq::new(entries.len(), |i: int| (entries[i].asset_id@, entries[i].amount as nat))
}

/// A map from asset identifiers to amounts. Each identifier is held once, in
/// the order in which the identifiers were first added.
#[derive(Clone, Debug, PartialEq, Eq)]
pub struct AssetTotals {
    entries: Vec<AssetAmount>,
}

impl View for AssetTotals {
    type V = Map<Seq<char>, nat>;

    open spec fn view(&self) -> Map<Seq<char>, nat> {
        totals(self.items())
    }
}

impl AssetTotals {
    /// Each identifier is held once.
    pub closed spec fn well_formed(&self) -> bool {
        labels_distinct(entry_items(self.entries@))
    }

    /// The identifiers with their amounts, in the order of the entries.
    pub closed spec fn items(&self) -> Tally {
        entry_items(self.entries@)
    }

    /// A map without entries.
    pub fn new() -> (empty: AssetTotals)
        ensures
            empty.well_formed(),
            empty@ == Map::<Seq<char>, nat>::empty(),
            empty.items() == Tally::empty(),
    {
        let empty = AssetTotals { entries: Vec::new() };
        proof {
            assert(empty.items() =~= Tally::empty());
            assert(empty@ =~= Map::<Seq<char>, nat>::empty());
        }
        empty
    }

    /// The number of identifiers held.
    pub fn len(&self) -> (len: usize)
        ensures
            len == self.items().len(),
    {
        self.entries.len()
    }

    /// The entry at a position below the length.
    pub fn entry(&self, index: usize) -> (entry: &AssetAmount)
        requires
            self.well_formed(),
            index < self.items().len(),
        ensures
            (entry.asset_id@, entry.amount as nat) == self.items()[index as int],
            self@.contains_key(entry.asset_id@),
            self@[entry.asset_id@] == entry.amount,
    {
        proof {
            lemma_distinct_total(self.items(), index as int);
            assert(self.items()[index as int].0 == self.entries@[index as int].asset_id@);
        }
        &self.entries[index]
    }

    /// The position of an identifier among the entries.
    fn position(&self, asset_id: &String) -> (found: Option<usize>)
        ensures
            match found {
                Some(index) => index < self.items().len() && self.items()[index as int].0
                    == asset_id@,
                None => !labelled(self.items(), asset_id@),
            },
    {
        let mut i: usize = 0;
        while i < self.entries.len()
            invariant
                i <= self.entries.len(),
                forall|j: int| 0 <= j < i ==> (#[trigger] self.items()[j]).0 != asset_id@,
            decreases self.entries.len() - i,
        {
            if self.entries[i].asset_id == *asset_id {
                return Some(i);
            }
            i += 1;
        }
        None
    }

    /// The amount held for an identifier.
    pub fn get(&self, asset_id: &str) -> (amount: Option<u64>)
        requires
            self.well_formed(),
        ensures
            match amount {
                Some(held) => self@.contains_key(asset_id@) && self@[asset_id@] == held,
                None => !self@.contains_key(asset_id@),
            },
    {
        let wanted = asset_id.to_owned();
        match self.position(&wanted) {
            Some(index) => {
                proof {
                    lemma_distinct_total(self.items(), index as int);
                }
                Some(self.entries[index].amount)
            },
            None => None,
        }
    }

    /// Adds an amount to what is held for an identifier. Where the sum does
    /// not fit into 64 bits nothing changes and `false` comes back.
    pub fn add(&mut self, asset_id: String, amount: u64) -> (added: bool)
        requires
            old(self).well_formed(),
        ensures
            final(self).well_formed(),
            added == (amount_of(old(self)@, asset_id@) + amount <= u64::MAX),
            added ==> final(self)@ == old(self)@.insert(
                asset_id@,
                (amount_of(old(self)@, asset_id@) + amount) as nat,
            ),
            !added ==> *final(self) == *old(self),
            added && !labelled(old(self).items(), asset_id@) ==> final(self).items() == old(
                self,
            ).items().push((asset_id@, amount as nat)),
            added && labelled(old(self).items(), asset_id@) ==> final(self).items().len() == old(
                self,
            ).items().len(),
    {
        let ghost before = self.items();
        match self.position(&asset_id) {
            Some(index) => {
                proof {
                    lemma_distinct_total(before, index as int);
                }
                let held = self.entries[index].amount;
                if amount > u64::MAX - held {
                    return false;
                }
                self.entries.set(index, AssetAmount { asset_id, amount: held + amount });
                proof {
                    let after = entry_items(self.entries@);
                    let sum = (held + amount) as nat;
                    assert(after =~= before.update(index as int, (asset_id@, sum)));
                    assert forall|i: int, j: int| 0 <= i < j < after.len() implies (
                    #[trigger] after[i]).0 != (#[trigger] after[j]).0 by {
                        assert(before[i].0 != before[j].0);
                    }
                    assert forall|label: Seq<char>| labelled(after, label) <==> labelled(
                        before,
                        label,
                    ) by {
                        if labelled(after, label) {
                            let i = choose|i: int|
                                0 <= i < after.len() && (#[trigger] after[i]).0 == label;
                            assert(before[i].0 == label);
                        }
                        if labelled(before, label) {
                            let i = choose|i: int|
                                0 <= i < before.len() && (#[trigger] before[i]).0 == label;
                            assert(after[i].0 == label);
                        }
                    }
                    assert(labelled(before, asset_id@));
                    assert forall|label: Seq<char>| labelled(after, label) implies total_for(
                        after,
                        label,
                    ) == totals(before).insert(asset_id@, sum)[label] by {
                        lemma_total_for_update(before, index as int, sum, label);
                    }
                    assert(totals(after) =~= totals(before).insert(asset_id@, sum));
                }
                true
            },
            None => {
                proof {
                    lemma_unlabelled_total(before, asset_id@);
                    lemma_totals_push(before, (asset_id@, amount as nat));
                }
                self.entries.push(AssetAmount { asset_id, amount });
                proof {
                    let after = entry_items(self.entries@);
                    assert(after =~= before.push((asset_id@, amount as nat)));
                    assert forall|i: int, j: int| 0 <= i < j < after.len() implies (
                    #[trigger] after[i]).0 != (#[trigger] after[j]).0 by {
                        if j < before.len() {
                            assert(before[i].0 != before[j].0);
                        } else {
                            assert(before[i].0 != asset_id@);
                        }
                    }
                }
                true
            },
        }
    }
}

} // verus!
