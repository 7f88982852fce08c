//! The fee ledger of the staking state: what each validator holds to pay for
//! the data it disseminates, and the fees that wait to be shared out.

use crate::assoc::AssocMap;
use crate::model::{LaneBytesSize, ValidatorPublicKey};
use vstd::prelude::*;

verus! {

/// What the ledger holds for one validator.
#[derive(Debug, Clone, Copy, PartialEq, Eq)]
pub struct ValidatorFeeState {
    /// May go below zero: the validator then owes fees.
    pub balance: i128,
    /// The size of the lane up to which the validator has paid.
    pub paid_cumul_size: LaneBytesSize,
}

/// The fee state of a validator that the ledger has not seen yet.
pub open spec fn fresh_fee_state() -> ValidatorFeeState {
    ValidatorFeeState { balance: 0, paid_cumul_size: LaneBytesSize(0) }
}

/// `balance` raised by `amount`, held at the largest balance.
pub open spec fn credit(balance: i128, amount: u128) -> i128 {
    if balance + amount > i128::MAX {
        i128::MAX
    } else {
        (balance + amount) as i128
    }
}

/// `balance` lowered by `amount`, held at the smallest balance.
pub open spec fn debit(balance: i128, amount: u128) -> i128 {
    if balance - amount < i128::MIN {
        i128::MIN
    } else {
        (balance - amount) as i128
    }
}

/// The fee ledger as a mathematical value.
pub struct FeesView {
    pub balances: Map<Seq<u8>, ValidatorFeeState>,
    pub pending: u128,
}

/// The state that the ledger holds for `holder`.
pub open spec fn fee_state_of(f: FeesView, holder: Seq<u8>) -> ValidatorFeeState {
    if f.balances.contains_key(holder) {
        f.balances[holder]
    } else {
        fresh_fee_state()
    }
}

/// The ledger after `amount` was credited to `holder`.
pub open spec fn fees_credited(f: FeesView, holder: Seq<u8>, amount: u128) -> FeesView {
    let s = fee_state_of(f, holder);
    FeesView {
        balances: f.balances.insert(
            holder,
            ValidatorFeeState {
                balance: credit(s.balance, amount),
                paid_cumul_size: s.paid_cumul_size,
            },
        ),
        pending: f.pending,
    }
}

/// The fee that `holder` owes once its lane has reached `cumul_size`: one token a byte
/// for what it has not paid yet.
pub open spec fn fee_due(f: FeesView, holder: Seq<u8>, cumul_size: u64) -> u64 {
    if cumul_size > fee_state_of(f, holder).paid_cumul_size.0 {
        (cumul_size - fee_state_of(f, holder).paid_cumul_size.0) as u64
    } else {
        0
    }
}

/// The ledger after `holder` paid for its lane up to `cumul_size`.
pub open spec fn fees_paid(f: FeesView, holder: Seq<u8>, cumul_size: u64) -> FeesView {
    let s = fee_state_of(f, holder);
    let due = fee_due(f, holder, cumul_size);
    if due == 0 {
        f
    } else {
        FeesView {
            balances: f.balances.insert(
                holder,
                ValidatorFeeState {
                    balance: debit(s.balance, due as u128),
                    paid_cumul_size: LaneBytesSize(cumul_size),
                },
            ),
            pending: if f.pending + due > u128::MAX {
                u128::MAX
            } else {
                (f.pending + due) as u128
            },
        }
    }
}

/// The balances after `share` was credited to each of `receivers` in turn.
pub open spec fn fees_shared(f: FeesView, receivers: Seq<Seq<u8>>, share: u128) -> FeesView
    decreases receivers.len(),
{
    if receivers.len() == 0 {
        f
    } else {
        fees_credited(fees_shared(f, receivers.drop_last(), share), receivers.last(), share)
    }
}

/// The ledger after the pending fees were shared equally among `bonded`; what
/// cannot be shared equally stays pending.
pub open spec fn fees_distributed(f: FeesView, bonded: Seq<Seq<u8>>) -> FeesView {
    if bonded.len() == 0 {
        f
    } else {
        let share = (f.pending as int / bonded.len() as int) as u128;
        let g = fees_shared(f, bonded, share);
        FeesView { balances: g.balances, pending: (f.pending as int % bonded.len() as int) as u128 }
    }
}

/// Sharing out leaves the pending fees as they were.
pub proof fn lemma_fees_shared_pending(f: FeesView, receivers: Seq<Seq<u8>>, share: u128)
    ensures
        fees_shared(f, receivers, share).pending == f.pending,
    decreases receivers.len(),
{
    if receivers.len() > 0 {
        lemma_fees_shared_pending(f, receivers.drop_last(), share);
    }
}

/// The fee ledger.
pub struct Fees {
    pub(crate) balances: AssocMap<ValidatorPublicKey, ValidatorFeeState>,
    pub(crate) pending_fees: u128,
}

impl View for Fees {
    type V = FeesView;

    closed spec fn view(&self) -> FeesView {
        FeesView { balances: self.balances@, pending: self.pending_fees }
    }
}

impl Fees {
    /// No key occurs twice in the ledger.
    pub closed spec fn wf(&self) -> bool {
        self.balances.wf()
    }

    /// The empty ledger.
    pub fn new() -> (r: Self)
        ensures
            r.wf(),
            r@.balances == Map::<Seq<u8>, ValidatorFeeState>::empty(),
            r@.pending == 0,
    {
        Fees { balances: AssocMap::new(), pending_fees: 0 }
    }

    /// The state held for `holder`, or a fresh one.
    fn state_of(&self, holder: &ValidatorPublicKey) -> (r: ValidatorFeeState)
        requires
            self.wf(),
        ensures
            r == fee_state_of(self@, holder@),
    {
        match self.balances.get(holder) {
            Some(s) => *s,
            None => ValidatorFeeState { balance: 0, paid_cumul_size: LaneBytesSize(0) },
        }
    }

    /// What the ledger holds for `holder`, if it has seen that validator.
    pub fn fee_state(&self, holder: &ValidatorPublicKey) -> (r: Option<ValidatorFeeState>)
        requires
            self.wf(),
        ensures
            r == if self@.balances.contains_key(holder@) {
                Some(self@.balances[holder@])
            } else {
                None
            },
    {
        match self.balances.get(holder) {
            Some(s) => Some(*s),
            None => None,
        }
    }

    /// The fees that wait to be shared out.
    pub fn pending_fees(&self) -> (r: u128)
        ensures
            r == self@.pending,
    {
        self.pending_fees
    }

    /// Credits `amount` to `holder`.
    pub fn deposit_for_fees(&mut self, holder: ValidatorPublicKey, amount: u128)
        requires
            old(self).wf(),
        ensures
            final(self).wf(),
            final(self)@ == fees_credited(old(self)@, holder@, amount),
    {
        let s = self.state_of(&holder);
        let balance: i128 = match s.balance.checked_add_unsigned(amount) {
            Some(b) => b,
            None => i128::MAX,
        };
        self.balances.insert(
            holder,
            ValidatorFeeState { balance, paid_cumul_size: s.paid_cumul_size },
        );
    }

    /// Charges `disseminator` for its lane up to `cumul_size`, and keeps the fee
    /// to be shared out. Fails for a validator that never deposited.
    pub fn pay_for_dadi(&mut self, disseminator: ValidatorPublicKey, cumul_size: LaneBytesSize) -> (r:
        Result<(), String>)
        requires
            old(self).wf(),
        ensures
            final(self).wf(),
            r is Ok == old(self)@.balances.contains_key(disseminator@),
            r is Ok ==> final(self)@ == fees_paid(old(self)@, disseminator@, cumul_size.0),
            r matches Err(e) ==> final(self)@ == old(self)@ && e@
                == "Logic issue: validator pays while it has no fee state"@,
    {
        if !self.balances.contains_key(&disseminator) {
            return Err("Logic issue: validator pays while it has no fee state".to_string());
        }
        let s = self.state_of(&disseminator);
        if cumul_size.0 > s.paid_cumul_size.0 {
            let due: u64 = cumul_size.0 - s.paid_cumul_size.0;
            let balance: i128 = match s.balance.checked_sub_unsigned(due as u128) {
                Some(b) => b,
                None => i128::MIN,
            };
            self.balances.insert(
                disseminator,
                ValidatorFeeState { balance, paid_cumul_size: cumul_size },
            );
            self.pending_fees = self.pending_fees.saturating_add(due as u128);
        }
        Ok(())
    }

    /// Shares the pending fees equally among `bonded`.
    pub fn distribute(&mut self, bonded: &Vec<ValidatorPublicKey>) -> (r: Result<(), String>)
        requires
            old(self).wf(),
        ensures
            final(self).wf(),
            r is Ok,
            final(self)@ == fees_distributed(old(self)@, bonded.deep_view()),
    {
        let n: usize = bonded.len();
        if n == 0 {
            return Ok(());
        }
        let share: u128 = self.pending_fees / (n as u128);
        let rest: u128 = self.pending_fees % (n as u128);
        let ghost start = self@;
        let mut i: usize = 0;
        while i < n
            invariant
                n == bonded.len(),
                i <= n,
                self.wf(),
                self@ == fees_shared(start, bonded.deep_view().take(i as int), share),
            decreases n - i,
        {
            proof {
                let all = bonded.deep_view();
                assert(all.take(i as int + 1).drop_last() =~= all.take(i as int));
                assert(all.take(i as int + 1).last() == bonded@[i as int]@);
            }
            self.deposit_for_fees(bonded[i].clone(), share);
            i += 1;
        }
        proof {
            assert(bonded.deep_view().take(n as int) =~= bonded.deep_view());
            lemma_fees_shared_pending(start, bonded.deep_view(), share);
        }
        self.pending_fees = rest;
        Ok(())
    }
}

} // verus!
