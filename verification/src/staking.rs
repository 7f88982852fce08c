//! The staking state: who has staked how much, who delegates to which
//! validator, and which validators are bonded, that is part of consensus.

use crate::assoc::{lemma_entries_dom, lemma_entries_lookup, AssocMap};
use crate::fees::{fees_credited, fees_distributed, fees_paid, Fees, FeesView, ValidatorFeeState};
use crate::model::{BlockHeight, Identity, LaneBytesSize, LaneId, ValidatorPublicKey};
use crate::text::{
    bytes_eq, lemma_lex_le_total, lemma_lex_le_trans, lex_at_most, lex_le, str_eq,
};
use vstd::prelude::*;
use vstd::string::StringExecFns;

verus! {

/// The least stake with which a validator can be bonded.
pub const MIN_STAKE: u128 = 32;

/// A claim on the rewards of some blocks.
#[derive(Debug, PartialEq, Eq)]
pub struct RewardsClaim {
    pub block_heights: Vec<BlockHeight>,
}

/// What a transaction can ask of the staking state.
#[derive(Debug, PartialEq, Eq)]
pub enum StakingAction {
    Stake { amount: u128 },
    Delegate { validator: ValidatorPublicKey },
    Distribute { claim: RewardsClaim },
    DepositForFees { holder: ValidatorPublicKey, amount: u128 },
}

/// What the staking state reads of a block.
#[derive(Debug, PartialEq, Eq)]
pub struct Block {
    pub staking_actions: Vec<(Identity, StakingAction)>,
    pub new_bounded_validators: Vec<ValidatorPublicKey>,
}

/// The staking state as a mathematical value.
#[verifier::ext_equal]
pub struct StakingView {
    pub stakes: Map<Seq<char>, u128>,
    pub delegations: Map<Seq<u8>, Seq<Seq<char>>>,
    pub bonded: Seq<Seq<u8>>,
    pub total_bond: u128,
    pub fees: FeesView,
}

/// A number held at the largest `u128`.
pub open spec fn capped(n: int) -> u128 {
    if n > u128::MAX {
        u128::MAX
    } else {
        n as u128
    }
}

/// What `who` has staked: nothing, for one who has not staked.
pub open spec fn stake_of(stakes: Map<Seq<char>, u128>, who: Seq<char>) -> u128 {
    if stakes.contains_key(who) {
        stakes[who]
    } else {
        0
    }
}

/// The stakes of `delegators` together.
pub open spec fn sum_stakes(stakes: Map<Seq<char>, u128>, delegators: Seq<Seq<char>>) -> int
    decreases delegators.len(),
{
    if delegators.len() == 0 {
        0
    } else {
        sum_stakes(stakes, delegators.drop_last()) + stake_of(stakes, delegators.last())
    }
}

/// The stake behind `validator`: what its delegators have staked together, if
/// anyone ever delegated to it.
pub open spec fn stake_behind(s: StakingView, validator: Seq<u8>) -> Option<u128> {
    if s.delegations.contains_key(validator) {
        Some(capped(sum_stakes(s.stakes, s.delegations[validator])))
    } else {
        None
    }
}

/// Whether `who` delegates to some validator.
pub open spec fn is_delegator(s: StakingView, who: Seq<char>) -> bool {
    exists|v: Seq<u8>| #[trigger] s.delegations.contains_key(v) && s.delegations[v].contains(who)
}

/// Those who delegate to `validator`.
pub open spec fn delegators_of(s: StakingView, validator: Seq<u8>) -> Seq<Seq<char>> {
    if s.delegations.contains_key(validator) {
        s.delegations[validator]
    } else {
        Seq::empty()
    }
}

/// The voting power of `validators`: the stake behind each of them, a validator
/// that is named several times counted once.
pub open spec fn voting_power(s: StakingView, validators: Seq<Seq<u8>>) -> int
    decreases validators.len(),
{
    if validators.len() == 0 {
        0
    } else {
        let rest = validators.drop_last();
        let v = validators.last();
        voting_power(s, rest) + if rest.contains(v) {
            0
        } else {
            match stake_behind(s, v) {
                Some(x) => x as int,
                None => 0,
            }
        }
    }
}

/// The keys are in lexicographic order.
pub open spec fn keys_sorted(keys: Seq<Seq<u8>>) -> bool {
    forall|i: int, j: int| 0 <= i < j < keys.len() ==> lex_le(#[trigger] keys[i], #[trigger] keys[j])
}

/// Where `key` goes among sorted `keys`: behind the keys that are at most `key`.
pub open spec fn insert_pos(keys: Seq<Seq<u8>>, key: Seq<u8>) -> int
    decreases keys.len(),
{
    if keys.len() == 0 || !lex_le(keys[0], key) {
        0
    } else {
        1 + insert_pos(keys.drop_first(), key)
    }
}

/// `keys` with `key` put at its place.
pub open spec fn sorted_insert(keys: Seq<Seq<u8>>, key: Seq<u8>) -> Seq<Seq<u8>> {
    keys.insert(insert_pos(keys, key), key)
}

/// The place of a key is within the keys, the keys before it are at most the
/// key, and the key at it, if any, is not.
pub proof fn lemma_insert_pos(keys: Seq<Seq<u8>>, key: Seq<u8>)
    ensures
        0 <= insert_pos(keys, key) <= keys.len(),
        forall|j: int| 0 <= j < insert_pos(keys, key) ==> lex_le(#[trigger] keys[j], key),
        insert_pos(keys, key) < keys.len() ==> !lex_le(keys[insert_pos(keys, key)], key),
    decreases keys.len(),
{
    if keys.len() == 0 || !lex_le(keys[0], key) {
    } else {
        let rest = keys.drop_first();
        lemma_insert_pos(rest, key);
        assert forall|j: int| 0 <= j < insert_pos(keys, key) implies lex_le(
            #[trigger] keys[j],
            key,
        ) by {
            if j > 0 {
                assert(keys[j] == rest[j - 1]);
            }
        }
        if insert_pos(keys, key) < keys.len() {
            assert(keys[insert_pos(keys, key)] == rest[insert_pos(rest, key)]);
        }
    }
}

/// Sorted keys stay sorted when a key is put at its place.
pub proof fn lemma_sorted_insert(keys: Seq<Seq<u8>>, key: Seq<u8>)
    requires
        keys_sorted(keys),
    ensures
        keys_sorted(sorted_insert(keys, key)),
{
    lemma_insert_pos(keys, key);
    let p = insert_pos(keys, key);
    let out = sorted_insert(keys, key);
    assert forall|i: int, j: int| 0 <= i < j < out.len() implies lex_le(
        #[trigger] out[i],
        #[trigger] out[j],
    ) by {
        if j < p {
            assert(out[i] == keys[i] && out[j] == keys[j]);
        } else if j == p {
            assert(out[i] == keys[i]);
        } else if i == p {
            assert(out[j] == keys[j - 1]);
            lemma_lex_le_total(keys[p], key);
            if j - 1 > p {
                assert(lex_le(keys[p], keys[j - 1]));
                lemma_lex_le_trans(key, keys[p], keys[j - 1]);
            }
        } else if i < p {
            assert(out[i] == keys[i] && out[j] == keys[j - 1]);
            if i == j - 1 {
            } else {
                assert(lex_le(keys[i], keys[j - 1]));
            }
        } else {
            assert(out[i] == keys[i - 1] && out[j] == keys[j - 1]);
        }
    }
}

/// The state after `validator` was bonded, or why it cannot be.
pub open spec fn bonded_with(s: StakingView, validator: Seq<u8>) -> Result<StakingView, Seq<char>> {
    if s.bonded.contains(validator) {
        Err("Validator already bonded"@)
    } else {
        match stake_behind(s, validator) {
            Some(stake) if stake >= MIN_STAKE => Ok(
                StakingView {
                    bonded: sorted_insert(s.bonded, validator),
                    total_bond: capped(s.total_bond + stake),
                    ..s
                },
            ),
            _ => Err("Validator does not have enough stake"@),
        }
    }
}

/// The state after `staker` staked `amount`, or why it cannot.
pub open spec fn staked_with(s: StakingView, staker: Seq<char>, amount: u128) -> Result<
    StakingView,
    Seq<char>,
> {
    if s.stakes.contains_key(staker) {
        Err("Staking balance is frozen for "@ + staker + " (already staked)"@)
    } else {
        Ok(StakingView { stakes: s.stakes.insert(staker, amount), ..s })
    }
}

/// The state after `staker` delegated to `validator`, or why it cannot.
pub open spec fn delegated_with(s: StakingView, staker: Seq<char>, validator: Seq<u8>) -> Result<
    StakingView,
    Seq<char>,
> {
    if is_delegator(s, staker) {
        Err("Already delegated"@)
    } else {
        Ok(
            StakingView {
                delegations: s.delegations.insert(
                    validator,
                    delegators_of(s, validator).push(staker),
                ),
                ..s
            },
        )
    }
}

/// The state after `amount` was deposited for the fees of `holder`.
pub open spec fn deposited_with(s: StakingView, holder: Seq<u8>, amount: u128) -> StakingView {
    StakingView { fees: fees_credited(s.fees, holder, amount), ..s }
}

/// The staking state.
pub struct Staking {
    pub(crate) stakes: AssocMap<Identity, u128>,
    pub(crate) delegations: AssocMap<ValidatorPublicKey, Vec<Identity>>,
    /// The blocks for which a validator has shared out rewards.
    pub(crate) rewarded: AssocMap<ValidatorPublicKey, Vec<BlockHeight>>,
    /// The validators that are part of consensus, in the order of their keys.
    pub(crate) bonded: Vec<ValidatorPublicKey>,
    pub(crate) total_bond: u128,
    pub(crate) fees: Fees,
}

impl View for Staking {
    type V = StakingView;

    closed spec fn view(&self) -> StakingView {
        StakingView {
            stakes: self.stakes@,
            delegations: self.delegations@.map_values(|l: Vec<Identity>| l.deep_view()),
            bonded: self.bonded.deep_view(),
            total_bond: self.total_bond,
            fees: self.fees@,
        }
    }
}

/// Whether `who` is in `list`.
fn list_has(list: &Vec<Identity>, who: &Identity) -> (r: bool)
    ensures
        r == list.deep_view().contains(who@),
{
    let mut j: usize = 0;
    while j < list.len()
        invariant
            j <= list.len(),
            forall|k: int| 0 <= k < j ==> list.deep_view()[k] != who@,
        decreases list.len() - j,
    {
        if str_eq(list[j].0.as_str(), who.0.as_str()) {
            assert(list.deep_view()[j as int] == who@);
            return true;
        }
        j += 1;
    }
    false
}

/// A copy of a list of identities.
fn copy_identities(list: &Vec<Identity>) -> (r: Vec<Identity>)
    ensures
        r.deep_view() == list.deep_view(),
{
    let mut out: Vec<Identity> = Vec::new();
    let mut j: usize = 0;
    while j < list.len()
        invariant
            j <= list.len(),
            out.len() == j,
            forall|k: int| 0 <= k < j ==> out[k]@ == list[k]@,
        decreases list.len() - j,
    {
        out.push(list[j].clone());
        j += 1;
    }
    assert(out.deep_view() =~= list.deep_view());
    out
}

/// Whether `key` is among the first `upto` of `keys`.
fn keys_have(keys: &[ValidatorPublicKey], upto: usize, key: &ValidatorPublicKey) -> (r: bool)
    requires
        upto <= keys.len(),
    ensures
        r == keys.deep_view().take(upto as int).contains(key@),
{
    let mut j: usize = 0;
    while j < upto
        invariant
            j <= upto,
            upto <= keys.len(),
            forall|k: int| 0 <= k < j ==> keys.deep_view()[k] != key@,
        decreases upto - j,
    {
        if bytes_eq(keys[j].0.as_slice(), key.0.as_slice()) {
            assert(keys.deep_view().take(upto as int)[j as int] == key@);
            return true;
        }
        j += 1;
    }
    false
}

/// The stakes of delegators are no negative number.
pub proof fn lemma_sum_stakes_nonneg(stakes: Map<Seq<char>, u128>, delegators: Seq<Seq<char>>)
    ensures
        sum_stakes(stakes, delegators) >= 0,
    decreases delegators.len(),
{
    if delegators.len() > 0 {
        lemma_sum_stakes_nonneg(stakes, delegators.drop_last());
    }
}

/// Voting power is no negative number.
pub proof fn lemma_voting_power_nonneg(s: StakingView, validators: Seq<Seq<u8>>)
    ensures
        voting_power(s, validators) >= 0,
    decreases validators.len(),
{
    if validators.len() > 0 {
        lemma_voting_power_nonneg(s, validators.drop_last());
    }
}

/// Whether a call ended as the model says: with the new state on success, with
/// the reason and the state unchanged on failure.
pub open spec fn meets<T>(
    r: Result<T, String>,
    before: StakingView,
    after: StakingView,
    expected: Result<StakingView, Seq<char>>,
) -> bool {
    match expected {
        Ok(s) => r is Ok && after == s,
        Err(e) => r is Err && r->Err_0@ == e && after == before,
    }
}

impl Staking {
    /// No key occurs twice in a map of the state, and the bonded validators are
    /// in the order of their keys.
    pub closed spec fn wf(&self) -> bool {
        &&& self.stakes.wf()
        &&& self.delegations.wf()
        &&& self.rewarded.wf()
        &&& self.fees.wf()
        &&& keys_sorted(self.bonded.deep_view())
    }

    /// The state in which nobody has staked.
    pub fn new() -> (r: Self)
        ensures
            r.wf(),
            r@.stakes == Map::<Seq<char>, u128>::empty(),
            r@.delegations == Map::<Seq<u8>, Seq<Seq<char>>>::empty(),
            r@.bonded == Seq::<Seq<u8>>::empty(),
            r@.total_bond == 0,
            r@.fees.balances == Map::<Seq<u8>, ValidatorFeeState>::empty(),
            r@.fees.pending == 0,
    {
        let r = Staking {
            stakes: AssocMap::new(),
            delegations: AssocMap::new(),
            rewarded: AssocMap::new(),
            bonded: Vec::new(),
            total_bond: 0,
            fees: Fees::new(),
        };
        proof {
            assert(r@.delegations =~= Map::<Seq<u8>, Seq<Seq<char>>>::empty());
            assert(r@.bonded =~= Seq::<Seq<u8>>::empty());
        }
        r
    }

    /// Whether anyone ever delegated to `key`.
    pub fn is_known(&self, key: &ValidatorPublicKey) -> (r: bool)
        requires
            self.wf(),
        ensures
            r == self@.delegations.contains_key(key@),
    {
        self.delegations.contains_key(key)
    }

    /// The bonded validators, in the order of their keys.
    pub fn bonded(&self) -> (r: &Vec<ValidatorPublicKey>)
        ensures
            r.deep_view() == self@.bonded,
    {
        &self.bonded
    }

    /// The stake behind the bonded validators together.
    pub fn total_bond(&self) -> (r: u128)
        ensures
            r == self@.total_bond,
    {
        self.total_bond
    }

    /// Whether `pubkey` is bonded.
    pub fn is_bonded(&self, pubkey: &ValidatorPublicKey) -> (r: bool)
        ensures
            r == self@.bonded.contains(pubkey@),
    {
        let keys = self.bonded.as_slice();
        proof {
            assert(keys.deep_view() =~= self.bonded.deep_view());
            assert(keys.deep_view().take(keys.len() as int) =~= keys.deep_view());
        }
        keys_have(keys, keys.len(), pubkey)
    }

    /// A third of the total bond, rounded down: the stake that may fail.
    pub fn compute_f(&self) -> (r: u128)
        ensures
            r == self@.total_bond / 3,
    {
        self.total_bond / 3
    }

    /// The stake behind `validator`, if anyone ever delegated to it.
    pub fn get_stake(&self, validator: &ValidatorPublicKey) -> (r: Option<u128>)
        requires
            self.wf(),
        ensures
            r == stake_behind(self@, validator@),
    {
        match self.delegations.get(validator) {
            None => None,
            Some(delegators) => {
                let mut total: u128 = 0;
                let mut j: usize = 0;
                while j < delegators.len()
                    invariant
                        self.wf(),
                        j <= delegators.len(),
                        total == capped(
                            sum_stakes(self.stakes@, delegators.deep_view().take(j as int)),
                        ),
                    decreases delegators.len() - j,
                {
                    proof {
                        let all = delegators.deep_view();
                        assert(all.take(j as int + 1).drop_last() =~= all.take(j as int));
                        assert(all.take(j as int + 1).last() == delegators@[j as int]@);
                        lemma_sum_stakes_nonneg(self.stakes@, all.take(j as int));
                    }
                    let one: u128 = match self.stakes.get(&delegators[j]) {
                        Some(x) => *x,
                        None => 0,
                    };
                    total = total.saturating_add(one);
                    j += 1;
                }
                proof {
                    assert(delegators.deep_view().take(j as int) =~= delegators.deep_view());
                }
                Some(total)
            },
        }
    }

    /// The voting power of `validators`.
    pub fn compute_voting_power(&self, validators: &[ValidatorPublicKey]) -> (r: u128)
        requires
            self.wf(),
        ensures
            r == capped(voting_power(self@, validators.deep_view())),
    {
        let mut total: u128 = 0;
        let mut i: usize = 0;
        while i < validators.len()
            invariant
                self.wf(),
                i <= validators.len(),
                total == capped(voting_power(self@, validators.deep_view().take(i as int))),
            decreases validators.len() - i,
        {
            proof {
                let all = validators.deep_view();
                assert(all.take(i as int + 1).drop_last() =~= all.take(i as int));
                assert(all.take(i as int + 1).last() == validators@[i as int]@);
                lemma_voting_power_nonneg(self@, all.take(i as int));
            }
            if !keys_have(validators, i, &validators[i]) {
                let one: u128 = match self.get_stake(&validators[i]) {
                    Some(x) => x,
                    None => 0,
                };
                total = total.saturating_add(one);
            }
            i += 1;
        }
        proof {
            assert(validators.deep_view().take(i as int) =~= validators.deep_view());
        }
        total
    }

    /// Makes `validator` part of consensus. Fails for a validator that is
    /// bonded already, and for one with less than the least stake behind it.
    pub fn bond(&mut self, validator: ValidatorPublicKey) -> (r: Result<(), String>)
        requires
            old(self).wf(),
        ensures
            final(self).wf(),
            meets(r, old(self)@, final(self)@, bonded_with(old(self)@, validator@)),
    {
        if self.is_bonded(&validator) {
            return Err("Validator already bonded".to_string());
        }
        match self.get_stake(&validator) {
            Some(stake) => {
                if stake < MIN_STAKE {
                    return Err("Validator does not have enough stake".to_string());
                }
                let ghost keys = self.bonded.deep_view();
                let mut pos: usize = 0;
                proof {
                    assert(keys.skip(0) =~= keys);
                }
                while pos < self.bonded.len() && lex_at_most(
                    self.bonded[pos].0.as_slice(),
                    validator.0.as_slice(),
                )
                    invariant
                        pos <= self.bonded.len(),
                        keys == self.bonded.deep_view(),
                        insert_pos(keys, validator@) == pos + insert_pos(
                            keys.skip(pos as int),
                            validator@,
                        ),
                    decreases self.bonded.len() - pos,
                {
                    proof {
                        assert(keys.skip(pos as int).drop_first() =~= keys.skip(pos as int + 1));
                        assert(keys.skip(pos as int)[0] == keys[pos as int]);
                    }
                    pos += 1;
                }
                proof {
                    if pos < self.bonded.len() {
                        assert(keys.skip(pos as int)[0] == keys[pos as int]);
                    } else {
                        assert(keys.skip(pos as int).len() == 0);
                    }
                    lemma_sorted_insert(keys, validator@);
                }
                self.bonded.insert(pos, validator);
                self.total_bond = self.total_bond.saturating_add(stake);
                proof {
                    assert(self.bonded.deep_view() =~= sorted_insert(keys, validator@));
                    assert(self@ =~= bonded_with(old(self)@, validator@)->Ok_0);
                }
                Ok(())
            },
            None => Err("Validator does not have enough stake".to_string()),
        }
    }

    /// Records that `staker` staked `amount`. Fails for one who has staked already.
    pub fn stake(&mut self, staker: Identity, amount: u128) -> (r: Result<String, String>)
        requires
            old(self).wf(),
        ensures
            final(self).wf(),
            meets(r, old(self)@, final(self)@, staked_with(old(self)@, staker@, amount)),
            r matches Ok(msg) ==> msg@ == "Staked"@,
    {
        if self.stakes.contains_key(&staker) {
            let msg = String::from_str("Staking balance is frozen for ").concat(
                staker.0.as_str(),
            ).concat(" (already staked)");
            return Err(msg);
        }
        self.stakes.insert(staker, amount);
        proof {
            assert(self@ =~= staked_with(old(self)@, staker@, amount)->Ok_0);
        }
        Ok("Staked".to_string())
    }

    /// Records that `staker` delegates to `validator`. Fails for one who
    /// delegates already, to this validator or to another.
    pub fn delegate_to(&mut self, staker: Identity, validator: ValidatorPublicKey) -> (r: Result<
        String,
        String,
    >)
        requires
            old(self).wf(),
        ensures
            final(self).wf(),
            meets(r, old(self)@, final(self)@, delegated_with(old(self)@, staker@, validator@)),
            r matches Ok(msg) ==> msg@ == "Delegated"@,
    {
        let mut i: usize = 0;
        while i < self.delegations.len()
            invariant
                self.wf(),
                i <= self.delegations.entries().len(),
                forall|k: int|
                    0 <= k < i ==> !(#[trigger] self.delegations.entries()[k]).1.deep_view().contains(
                        staker@,
                    ),
            decreases self.delegations.entries().len() - i,
        {
            if list_has(self.delegations.value_at(i), &staker) {
                proof {
                    lemma_entries_lookup(self.delegations.entries(), i as int);
                    let v = self.delegations.entries()[i as int].0@;
                    assert(self@.delegations.contains_key(v));
                    assert(self@.delegations[v].contains(staker@));
                }
                return Err("Already delegated".to_string());
            }
            i += 1;
        }
        proof {
            assert forall|v: Seq<u8>| #[trigger]
                self@.delegations.contains_key(v) implies !self@.delegations[v].contains(staker@) by {
                lemma_entries_dom(self.delegations.entries(), v);
                let k = choose|k: int|
                    0 <= k < self.delegations.entries().len() && (
                    #[trigger] self.delegations.entries()[k]).0@ == v;
                lemma_entries_lookup(self.delegations.entries(), k);
            }
        }
        let mut list: Vec<Identity> = match self.delegations.get(&validator) {
            Some(l) => copy_identities(l),
            None => Vec::new(),
        };
        list.push(staker);
        proof {
            assert(list.deep_view() =~= delegators_of(old(self)@, validator@).push(staker@));
        }
        self.delegations.insert(validator, list);
        proof {
            assert(self@.delegations =~= old(self)@.delegations.insert(
                validator@,
                delegators_of(old(self)@, validator@).push(staker@),
            ));
            assert(self@ =~= delegated_with(old(self)@, staker@, validator@)->Ok_0);
        }
        Ok("Delegated".to_string())
    }

    /// What the fee ledger holds for `holder`, if it has seen that validator.
    pub fn fee_state(&self, holder: &ValidatorPublicKey) -> (r: Option<ValidatorFeeState>)
        requires
            self.wf(),
        ensures
            r == if self@.fees.balances.contains_key(holder@) {
                Some(self@.fees.balances[holder@])
            } else {
                None
            },
    {
        self.fees.fee_state(holder)
    }

    /// The fees that wait to be shared out.
    pub fn pending_fees(&self) -> (r: u128)
        ensures
            r == self@.fees.pending,
    {
        self.fees.pending_fees()
    }

    /// Deposits `amount` for the fees of `holder`.
    pub fn deposit_for_fees(&mut self, holder: ValidatorPublicKey, amount: u128) -> (r: Result<
        String,
        String,
    >)
        requires
            old(self).wf(),
        ensures
            final(self).wf(),
            r matches Ok(msg) && msg@ == "Deposited"@,
            final(self)@ == deposited_with(old(self)@, holder@, amount),
    {
        self.fees.deposit_for_fees(holder, amount);
        Ok("Deposited".to_string())
    }

    /// Charges the validator of `lane_id` for its lane up to `cumul_size`.
    /// Fails, and changes nothing, for a validator that never deposited.
    pub fn pay_for_dadi(&mut self, lane_id: LaneId, cumul_size: LaneBytesSize) -> (r: Result<
        (),
        String,
    >)
        requires
            old(self).wf(),
        ensures
            final(self).wf(),
            r is Ok == old(self)@.fees.balances.contains_key(lane_id.0@),
            r is Ok ==> final(self)@ == (StakingView {
                fees: fees_paid(old(self)@.fees, lane_id.0@, cumul_size.0),
                ..old(self)@
            }),
            r is Err ==> final(self)@ == old(self)@,
    {
        self.fees.pay_for_dadi(lane_id.0, cumul_size)
    }

    /// Shares the pending fees equally among the bonded validators.
    pub fn distribute(&mut self) -> (r: Result<(), String>)
        requires
            old(self).wf(),
        ensures
            final(self).wf(),
            r is Ok,
            final(self)@ == (StakingView {
                fees: fees_distributed(old(self)@.fees, old(self)@.bonded),
                ..old(self)@
            }),
    {
        self.fees.distribute(&self.bonded)
    }
}

/// A staking action as a mathematical value.
pub enum StakingActionView {
    Stake { amount: u128 },
    Delegate { validator: Seq<u8> },
    Distribute,
    DepositForFees { holder: Seq<u8>, amount: u128 },
}

impl View for StakingAction {
    type V = StakingActionView;

    open spec fn view(&self) -> StakingActionView {
        match self {
            StakingAction::Stake { amount } => StakingActionView::Stake { amount: *amount },
            StakingAction::Delegate { validator } => StakingActionView::Delegate {
                validator: validator@,
            },
            StakingAction::Distribute { .. } => StakingActionView::Distribute,
            StakingAction::DepositForFees { holder, amount } => StakingActionView::DepositForFees {
                holder: holder@,
                amount: *amount,
            },
        }
    }
}

/// The staking actions of a block, each with the identity that asks for it.
pub open spec fn actions_of(block: &Block) -> Seq<(Seq<char>, StakingActionView)> {
    Seq::new(
        block.staking_actions@.len(),
        |i: int| (block.staking_actions@[i].0@, block.staking_actions@[i].1@),
    )
}

/// No staking action of the block shares out rewards.
pub open spec fn shares_no_rewards(block: &Block) -> bool {
    forall|i: int|
        0 <= i < actions_of(block).len() ==> !((#[trigger] actions_of(block)[i]).1 is Distribute)
}

/// The state after `who` asked for `action`, or why it cannot be done.
/// Sharing out rewards is no action of a block.
pub open spec fn applied(s: StakingView, who: Seq<char>, action: StakingActionView) -> Result<
    StakingView,
    Seq<char>,
> {
    match action {
        StakingActionView::Stake { amount } => staked_with(s, who, amount),
        StakingActionView::Delegate { validator } => delegated_with(s, who, validator),
        StakingActionView::Distribute => Ok(s),
        StakingActionView::DepositForFees { holder, amount } => Ok(
            deposited_with(s, holder, amount),
        ),
    }
}

/// The state after the actions were applied in turn, up to the first that
/// cannot be, and the reason why that one cannot.
pub open spec fn applied_all(s: StakingView, actions: Seq<(Seq<char>, StakingActionView)>) -> (
    StakingView,
    Option<Seq<char>>,
)
    decreases actions.len(),
{
    if actions.len() == 0 {
        (s, None)
    } else {
        match applied(s, actions[0].0, actions[0].1) {
            Ok(t) => applied_all(t, actions.drop_first()),
            Err(e) => (s, Some(e)),
        }
    }
}

/// The state after the validators were bonded in turn, up to the first that
/// cannot be, and the reason why that one cannot.
pub open spec fn bonded_all(s: StakingView, validators: Seq<Seq<u8>>) -> (
    StakingView,
    Option<Seq<char>>,
)
    decreases validators.len(),
{
    if validators.len() == 0 {
        (s, None)
    } else {
        match bonded_with(s, validators[0]) {
            Ok(t) => bonded_all(t, validators.drop_first()),
            Err(e) => (s, Some(e)),
        }
    }
}

/// The state after a block: its staking actions, then its new validators.
pub open spec fn block_applied(
    s: StakingView,
    actions: Seq<(Seq<char>, StakingActionView)>,
    validators: Seq<Seq<u8>>,
) -> (StakingView, Option<Seq<char>>) {
    let (t, stopped) = applied_all(s, actions);
    if stopped is Some {
        (t, stopped)
    } else {
        bonded_all(t, validators)
    }
}

impl Staking {
    /// Applies the staking actions of `block` in turn, then bonds its new
    /// validators in turn. Stops at the first step that fails, with what was done
    /// before it kept. A block holds no action that shares out rewards.
    pub fn process_block(&mut self, block: &Block) -> (r: Result<(), String>)
        requires
            old(self).wf(),
            shares_no_rewards(block),
        ensures
            final(self).wf(),
            final(self)@ == block_applied(
                old(self)@,
                actions_of(block),
                block.new_bounded_validators.deep_view(),
            ).0,
            match block_applied(
                old(self)@,
                actions_of(block),
                block.new_bounded_validators.deep_view(),
            ).1 {
                None => r is Ok,
                Some(e) => r is Err && r->Err_0@ == e,
            },
    {
        let ghost actions = actions_of(block);
        let ghost validators = block.new_bounded_validators.deep_view();
        let mut i: usize = 0;
        proof {
            assert(actions.skip(0) =~= actions);
        }
        while i < block.staking_actions.len()
            invariant
                self.wf(),
                i <= block.staking_actions.len(),
                actions == actions_of(block),
                shares_no_rewards(block),
                applied_all(old(self)@, actions) == applied_all(self@, actions.skip(i as int)),
            decreases block.staking_actions.len() - i,
        {
            proof {
                assert(actions.skip(i as int).drop_first() =~= actions.skip(i as int + 1));
                assert(actions.skip(i as int)[0] == actions[i as int]);
                assert(!(actions_of(block)[i as int].1 is Distribute));
            }
            let who: Identity = block.staking_actions[i].0.clone();
            match &block.staking_actions[i].1 {
                StakingAction::Stake { amount } => {
                    match self.stake(who, *amount) {
                        Ok(_) => {},
                        Err(e) => {
                            return Err(e);
                        },
                    }
                },
                StakingAction::Delegate { validator } => {
                    match self.delegate_to(who, validator.clone()) {
                        Ok(_) => {},
                        Err(e) => {
                            return Err(e);
                        },
                    }
                },
                StakingAction::Distribute { .. } => {},
                StakingAction::DepositForFees { holder, amount } => {
                    match self.deposit_for_fees(holder.clone(), *amount) {
                        Ok(_) => {},
                        Err(e) => {
                            return Err(e);
                        },
                    }
                },
            }
            i += 1;
        }
        proof {
            assert(actions.skip(i as int).len() == 0);
            assert(validators.skip(0) =~= validators);
        }
        let ghost mid = self@;
        let mut j: usize = 0;
        while j < block.new_bounded_validators.len()
            invariant
                self.wf(),
                j <= block.new_bounded_validators.len(),
                validators == block.new_bounded_validators.deep_view(),
                applied_all(old(self)@, actions_of(block)) == (mid, None::<Seq<char>>),
                bonded_all(mid, validators) == bonded_all(self@, validators.skip(j as int)),
            decreases block.new_bounded_validators.len() - j,
        {
            proof {
                assert(validators.skip(j as int).drop_first() =~= validators.skip(j as int + 1));
                assert(validators.skip(j as int)[0] == validators[j as int]);
            }
            match self.bond(block.new_bounded_validators[j].clone()) {
                Ok(_) => {},
                Err(e) => {
                    return Err(e);
                },
            }
            j += 1;
        }
        proof {
            assert(validators.skip(j as int).len() == 0);
        }
        Ok(())
    }
}

impl Default for Staking {
    fn default() -> (r: Self)
        ensures
            r.wf(),
            r@.stakes == Map::<Seq<char>, u128>::empty(),
            r@.delegations == Map::<Seq<u8>, Seq<Seq<char>>>::empty(),
            r@.bonded == Seq::<Seq<u8>>::empty(),
            r@.total_bond == 0,
    {
        Staking::new()
    }
}

} // verus!
