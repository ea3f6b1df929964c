//! Requested payments: what the solution of a settlement record asks for.

use clvm_traits::{FromClvm, ToClvm};
use vstd::prelude::*;

verus! {

/// One requested payment: where it goes and how much it carries.
#[derive(Clone, Copy, Debug, PartialEq, Eq)]
pub struct Payment {
    pub puzzle_hash: [u8; 32],
    pub amount: u64,
}

/// The payments that one party must receive, bound to a nonce.
#[derive(Clone, Debug, PartialEq, Eq)]
pub struct NotarizedPayment {
    pub nonce: [u8; 32],
    pub payments: Vec<Payment>,
}

pub ghost struct PaymentView {
    pub puzzle_hash: Seq<u8>,
    pub amount: u64,
}

pub ghost struct NotarizedPaymentView {
    pub nonce: Seq<u8>,
    pub payments: Seq<PaymentView>,
}

impl View for Payment {
    type V = PaymentView;

    open spec fn view(&self) -> PaymentView {
        PaymentView { puzzle_hash: self.puzzle_hash@, amount: self.amount }
    }
}

/// The views of a sequence of payments, in the same order.
pub open spec fn payment_views(payments: Seq<Payment>) -> Seq<PaymentView> {
    Seq::new(payments.len(), |i: int| payments[i]@)
}

impl View for NotarizedPayment {
    type V = NotarizedPaymentView;

    open spec fn view(&self) -> NotarizedPaymentView {
        NotarizedPaymentView { nonce: self.nonce@, payments: payment_views(self.payments@) }
    }
}

/// The views of a sequence of notarized payments, in the same order.
pub open spec fn notarized_views(list: Seq<NotarizedPayment>) -> Seq<NotarizedPaymentView> {
    Seq::new(list.len(), |i: int| list[i]@)
}

/// The sum of the amounts of a sequence of payments.
pub open spec fn payments_total(payments: Seq<PaymentView>) -> nat
    decreases payments.len(),
{
    if payments.len() == 0 {
        0
    } else {
        payments_total(payments.drop_last()) + payments.last().amount as nat
    }
}

/// The sum of the amounts of all payments in a sequence of notarized payments.
pub open spec fn notarized_total(list: Seq<NotarizedPaymentView>) -> nat
    decreases list.len(),
{
    if list.len() == 0 {
        0
    } else {
        notarized_total(list.drop_last()) + payments_total(list.last().payments)
    }
}

/// The notarized payments that `SettlementPaymentsSolution::from_clvm` reads
/// from a solution given as bytes, or nothing where the bytes are no program
/// or the program is no list of notarized payments.
pub uninterp spec fn settlement_payments(solution: Seq<u8>) -> Option<Seq<NotarizedPaymentView>>;

/// Loads the solution into a fresh allocator with `Program::to_clvm`, calls
/// `SettlementPaymentsSolution::from_clvm` on it and copies nonce,
/// destination and amount of each payment out. Memos are left behind.
#[verifier::external_body]
pub(crate) fn parse_settlement_solution(solution: &[u8]) -> (r: Result<
    Vec<NotarizedPayment>,
    chia_sdk_driver::DriverError,
>)
    ensures
        match r {
            Ok(list) => settlement_payments(solution@) == Some(notarized_views(list@)),
            Err(_) => settlement_payments(solution@) is None,
        },
{
    let mut allocator = clvmr::Allocator::new();
    let ptr = chia_protocol::Program::from(solution).to_clvm(&mut allocator)?;
    let parsed = chia_puzzles::offer::SettlementPaymentsSolution::from_clvm(&allocator, ptr)?;
    Ok(parsed.notarized_payments.into_iter().map(|notarized| NotarizedPayment {
        nonce: notarized.nonce.to_bytes(),
        payments: notarized.payments.into_iter().map(|payment| Payment {
            puzzle_hash: payment.puzzle_hash.to_bytes(),
            amount: payment.amount,
        }).collect(),
    }).collect())
}

/// The total over a prefix never exceeds the total over the whole.
pub proof fn lemma_payments_total_prefix(payments: Seq<PaymentView>, n: int)
    requires
        0 <= n <= payments.len(),
    ensures
        payments_total(payments.take(n)) <= payments_total(payments),
    decreases payments.len() - n,
{
    if n < payments.len() {
        assert(payments.take(n + 1).drop_last() =~= payments.take(n));
        lemma_payments_total_prefix(payments, n + 1);
    } else {
        assert(payments.take(n) =~= payments);
    }
}

/// The total over a prefix never exceeds the total over the whole.
pub proof fn lemma_notarized_total_prefix(list: Seq<NotarizedPaymentView>, n: int)
    requires
        0 <= n <= list.len(),
    ensures
        notarized_total(list.take(n)) <= notarized_total(list),
    decreases list.len() - n,
{
    if n < list.len() {
        assert(list.take(n + 1).drop_last() =~= list.take(n));
        lemma_notarized_total_prefix(list, n + 1);
    } else {
        assert(list.take(n) =~= list);
    }
}

/// The sum of the amounts of a vector of payments, where it fits into 64 bits.
pub fn sum_payments(payments: &Vec<Payment>) -> (sum: Option<u64>)
    ensures
        match sum {
            Some(total) => total == payments_total(payment_views(payments@)),
            None => payments_total(payment_views(payments@)) > u64::MAX,
        },
{
    let ghost views = payment_views(payments@);
    let mut total: u64 = 0;
    let mut i: usize = 0;
    proof {
        assert(views.take(0) =~= Seq::empty());
    }
    while i < payments.len()
        invariant
            i <= payments.len(),
            views == payment_views(payments@),
            total == payments_total(views.take(i as int)),
        decreases payments.len() - i,
    {
        let amount = payments[i].amount;
        proof {
            assert(views.take(i + 1).drop_last() =~= views.take(i as int));
            assert(views.take(i + 1).last().amount == amount);
            lemma_payments_total_prefix(views, i + 1);
        }
        if amount > u64::MAX - total {
            return None;
        }
        total = total + amount;
        i += 1;
    }
    proof {
        assert(views.take(i as int) =~= views);
    }
    Some(total)
}

/// The sum of the amounts of all payments in a vector of notarized payments,
/// where it fits into 64 bits.
pub fn sum_notarized(list: &Vec<NotarizedPayment>) -> (sum: Option<u64>)
    ensures
        match sum {
            Some(total) => total == notarized_total(notarized_views(list@)),
            None => notarized_total(notarized_views(list@)) > u64::MAX,
        },
{
    let ghost views = notarized_views(list@);
    let mut total: u64 = 0;
    let mut i: usize = 0;
    proof {
        assert(views.take(0) =~= Seq::empty());
    }
    while i < list.len()
        invariant
            i <= list.len(),
            views == notarized_views(list@),
            total == notarized_total(views.take(i as int)),
        decreases list.len() - i,
    {
        proof {
            assert(views.take(i + 1).drop_last() =~= views.take(i as int));
            assert(views.take(i + 1).last().payments == payment_views(list@[i as int].payments@));
            lemma_notarized_total_prefix(views, i + 1);
        }
        let part = match sum_payments(&list[i].payments) {
            Some(part) => part,
            None => {
                return None;
            },
        };
        if part > u64::MAX - total {
            return None;
        }
        total = total + part;
        i += 1;
    }
    proof {
        assert(views.take(i as int) =~= views);
    }
    Some(total)
}

/// The total of a concatenation is the sum of the totals.
pub proof fn lemma_notarized_total_concat(
    first: Seq<NotarizedPaymentView>,
    second: Seq<NotarizedPaymentView>,
)
    ensures
        notarized_total(first + second) == notarized_total(first) + notarized_total(second),
    decreases second.len(),
{
    if second.len() == 0 {
        assert(first + second =~= first);
    } else {
        lemma_notarized_total_concat(first, second.drop_last());
        assert((first + second).drop_last() =~= first + second.drop_last());
        assert((first + second).last() == second.last());
    }
}

} // verus!
