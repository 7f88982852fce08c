//! The transactions that the first block is made of, as a plan: who sends
//! each of them and what it asks of which contract. The contracts of the node
//! turn the plan into blobs and outputs.

use crate::assoc::AssocMap;
use crate::genesis::block::GenesisError;
use crate::genesis::validators::{Validator, ValidatorView};
use crate::hash::{hex, hex_of};
use crate::model::{ContractName, Identity, ValidatorPublicKey};
use vstd::prelude::*;
use vstd::string::StringExecFns;

verus! {

/// The identity that holds the tokens before anybody else does.
pub const FAUCET_ID: &'static str = "hyle-faucet";

/// The identity that receives what the faucet has left.
pub const WALLET_ID: &'static str = "hyli@wallet";

/// The password of the identities of the first block.
pub const GENESIS_PASSWORD: &'static str = "password";

/// The contract that knows identities.
pub const HYDENTITY: &'static str = "hydentity";

/// The contract of the token in which stake is held.
pub const HYLLAR: &'static str = "hyllar";

/// The contract of the staking state.
pub const STAKING: &'static str = "staking";

/// What each validator gets beside its stake, and deposits for the fees of
/// the data it will disseminate.
pub const FEES_DEPOSIT: u128 = 100_000_000_000;

/// The supply of each of the three other tokens.
pub const TOKEN_SUPPLY: u128 = 100_000_000_000_000;

/// What a transaction of the first block asks of a contract.
#[derive(Debug, Clone, PartialEq, Eq)]
pub enum GenesisAction {
    /// Register the sender with the contract of identities.
    RegisterIdentity { contract: ContractName, password: String },
    /// Show that the sender is who it says.
    VerifyIdentity { contract: ContractName, password: String },
    /// Transfer tokens from the sender.
    Transfer { contract: ContractName, recipient: String, amount: u128 },
    /// Transfer all the tokens that the sender has left.
    TransferAll { contract: ContractName, recipient: String },
    /// Stake tokens of the sender.
    Stake { contract: ContractName, amount: u128 },
    /// Deposit tokens of the sender for the fees of a validator.
    DepositForFees { contract: ContractName, holder: ValidatorPublicKey, amount: u128 },
    /// Delegate the stake of the sender to a validator.
    Delegate { validator: ValidatorPublicKey },
}

/// An action as a mathematical value.
pub enum ActionView {
    RegisterIdentity { contract: Seq<char>, password: Seq<char> },
    VerifyIdentity { contract: Seq<char>, password: Seq<char> },
    Transfer { contract: Seq<char>, recipient: Seq<char>, amount: u128 },
    TransferAll { contract: Seq<char>, recipient: Seq<char> },
    Stake { contract: Seq<char>, amount: u128 },
    DepositForFees { contract: Seq<char>, holder: Seq<u8>, amount: u128 },
    Delegate { validator: Seq<u8> },
}

impl View for GenesisAction {
    type V = ActionView;

    open spec fn view(&self) -> ActionView {
        match self {
            GenesisAction::RegisterIdentity { contract, password } => ActionView::RegisterIdentity {
                contract: contract@,
                password: password@,
            },
            GenesisAction::VerifyIdentity { contract, password } => ActionView::VerifyIdentity {
                contract: contract@,
                password: password@,
            },
            GenesisAction::Transfer { contract, recipient, amount } => ActionView::Transfer {
                contract: contract@,
                recipient: recipient@,
                amount: *amount,
            },
            GenesisAction::TransferAll { contract, recipient } => ActionView::TransferAll {
                contract: contract@,
                recipient: recipient@,
            },
            GenesisAction::Stake { contract, amount } => ActionView::Stake {
                contract: contract@,
                amount: *amount,
            },
            GenesisAction::DepositForFees { contract, holder, amount } => ActionView::DepositForFees {
                contract: contract@,
                holder: holder@,
                amount: *amount,
            },
            GenesisAction::Delegate { validator } => ActionView::Delegate { validator: validator@ },
        }
    }
}

impl DeepView for GenesisAction {
    type V = ActionView;

    open spec fn deep_view(&self) -> ActionView {
        self@
    }
}

/// A transaction of the first block before its contracts have executed it.
#[derive(Debug, Clone, PartialEq, Eq)]
pub struct PlannedTx {
    pub identity: Identity,
    pub actions: Vec<GenesisAction>,
}

/// A planned transaction as a mathematical value.
pub struct PlannedTxView {
    pub identity: Seq<char>,
    pub actions: Seq<ActionView>,
}

impl View for PlannedTx {
    type V = PlannedTxView;

    open spec fn view(&self) -> PlannedTxView {
        PlannedTxView { identity: self.identity@, actions: self.actions.deep_view() }
    }
}

impl DeepView for PlannedTx {
    type V = PlannedTxView;

    open spec fn deep_view(&self) -> PlannedTxView {
        self@
    }
}

/// The stake of each node of the first block, by the name of the node.
pub type Stakers = AssocMap<String, u64>;

/// The identity of a validator: its public key in hexadecimal, known to the
/// contract of identities.
pub open spec fn validator_identity(pubkey: Seq<u8>) -> Seq<char> {
    hex(pubkey) + "@hydentity"@
}

/// The transaction by which `identity` registers itself.
pub open spec fn registration_of(identity: Seq<char>) -> PlannedTxView {
    PlannedTxView {
        identity,
        actions: seq![
            ActionView::RegisterIdentity { contract: HYDENTITY@, password: GENESIS_PASSWORD@ },
        ],
    }
}

/// The transactions that register the identities of the first block: the
/// faucet, then each validator in turn.
pub open spec fn register_plan(validators: Seq<ValidatorView>) -> Seq<PlannedTxView> {
    seq![registration_of(FAUCET_ID@)] + Seq::new(
        validators.len(),
        |i: int| registration_of(validator_identity(validators[i].pubkey)),
    )
}

/// What the faucet sends to a validator with the stake `stake`.
pub open spec fn faucet_amount(stake: u64) -> u128 {
    (stake + FEES_DEPOSIT) as u128
}

/// The transaction by which the faucet sends a validator its stake and its
/// deposit for fees.
pub open spec fn faucet_tx(v: ValidatorView, stake: u64) -> PlannedTxView {
    PlannedTxView {
        identity: FAUCET_ID@,
        actions: seq![
            ActionView::VerifyIdentity { contract: HYDENTITY@, password: GENESIS_PASSWORD@ },
            ActionView::Transfer {
                contract: HYLLAR@,
                recipient: validator_identity(v.pubkey),
                amount: faucet_amount(stake),
            },
        ],
    }
}

/// The transaction by which a validator stakes, pays its stake to the
/// staking contract, deposits for fees, pays the deposit, and delegates to itself.
pub open spec fn stake_tx(v: ValidatorView, stake: u64) -> PlannedTxView {
    PlannedTxView {
        identity: validator_identity(v.pubkey),
        actions: seq![
            ActionView::VerifyIdentity { contract: HYDENTITY@, password: GENESIS_PASSWORD@ },
            ActionView::Stake { contract: STAKING@, amount: stake as u128 },
            ActionView::Transfer { contract: HYLLAR@, recipient: STAKING@, amount: stake as u128 },
            ActionView::DepositForFees {
                contract: STAKING@,
                holder: v.pubkey,
                amount: FEES_DEPOSIT,
            },
            ActionView::Transfer { contract: HYLLAR@, recipient: STAKING@, amount: FEES_DEPOSIT },
            ActionView::Delegate { validator: v.pubkey },
        ],
    }
}

/// Whether every validator has a stake.
pub open spec fn all_stakers(validators: Seq<ValidatorView>, stakes: Map<Seq<char>, u64>) -> bool {
    forall|i: int| 0 <= i < validators.len() ==> stakes.contains_key((#[trigger] validators[i]).name)
}

/// The transactions by which the faucet pays the validators, in their order.
pub open spec fn faucet_plan(validators: Seq<ValidatorView>, stakes: Map<Seq<char>, u64>) -> Seq<
    PlannedTxView,
> {
    Seq::new(validators.len(), |i: int| faucet_tx(validators[i], stakes[validators[i].name]))
}

/// The transactions by which the validators stake, in their order.
pub open spec fn stake_plan(validators: Seq<ValidatorView>, stakes: Map<Seq<char>, u64>) -> Seq<
    PlannedTxView,
> {
    Seq::new(validators.len(), |i: int| stake_tx(validators[i], stakes[validators[i].name]))
}

/// The transaction by which the faucet gives away all of one token.
pub open spec fn token_tx(token: Seq<char>) -> PlannedTxView {
    PlannedTxView {
        identity: FAUCET_ID@,
        actions: seq![
            ActionView::VerifyIdentity { contract: HYDENTITY@, password: GENESIS_PASSWORD@ },
            ActionView::Transfer { contract: token, recipient: WALLET_ID@, amount: TOKEN_SUPPLY },
        ],
    }
}

/// The transactions by which the faucet gives what it has left to the
/// wallet: its balance of the staking token, then the supply of each of the
/// three other tokens.
pub open spec fn token_plan() -> Seq<PlannedTxView> {
    seq![
        PlannedTxView {
            identity: FAUCET_ID@,
            actions: seq![
                ActionView::VerifyIdentity { contract: HYDENTITY@, password: GENESIS_PASSWORD@ },
                ActionView::TransferAll { contract: HYLLAR@, recipient: WALLET_ID@ },
            ],
        },
        token_tx("oranj"@),
        token_tx("oxygen"@),
        token_tx("vitamin"@),
    ]
}

/// The identity of the validator with the key `pubkey`.
pub fn identity_of(pubkey: &ValidatorPublicKey) -> (r: String)
    ensures
        r@ == validator_identity(pubkey@),
{
    hex_of(pubkey.0.as_slice()).concat("@hydentity")
}

/// The action that shows a sender of the first block to be who it says.
fn verify_action() -> (r: GenesisAction)
    ensures
        r@ == (ActionView::VerifyIdentity { contract: HYDENTITY@, password: GENESIS_PASSWORD@ }),
{
    GenesisAction::VerifyIdentity {
        contract: ContractName::new(HYDENTITY),
        password: GENESIS_PASSWORD.to_string(),
    }
}

/// The transaction by which `identity` registers itself.
fn registration(identity: String) -> (r: PlannedTx)
    ensures
        r@ == registration_of(identity@),
{
    let mut actions: Vec<GenesisAction> = Vec::new();
    actions.push(
        GenesisAction::RegisterIdentity {
            contract: ContractName::new(HYDENTITY),
            password: GENESIS_PASSWORD.to_string(),
        },
    );
    let r = PlannedTx { identity: Identity(identity), actions };
    assert(r@.actions =~= registration_of(identity@).actions);
    r
}

/// Plans the transactions that register the identities of the first block.
pub fn generate_register_txs(validators: &Vec<Validator>) -> (r: Vec<PlannedTx>)
    ensures
        r.deep_view() == register_plan(validators.deep_view()),
{
    let mut txs: Vec<PlannedTx> = Vec::new();
    txs.push(registration(FAUCET_ID.to_string()));
    let ghost all = validators.deep_view();
    let mut i: usize = 0;
    assert(txs.deep_view() =~= register_plan(all.take(0)));
    while i < validators.len()
        invariant
            i <= validators.len(),
            all == validators.deep_view(),
            txs.deep_view() == register_plan(all.take(i as int)),
        decreases validators.len() - i,
    {
        let ghost before = txs.deep_view();
        txs.push(registration(identity_of(&validators[i].pubkey)));
        proof {
            assert(txs.deep_view() =~= before.push(
                registration_of(validator_identity(all[i as int].pubkey)),
            ));
            assert(txs.deep_view() =~= register_plan(all.take(i as int + 1)));
        }
        i += 1;
    }
    proof {
        assert(all.take(i as int) =~= all);
    }
    txs
}

/// Plans the transactions by which the faucet pays the validators. Fails for
/// a validator without a stake.
pub fn generate_faucet_txs(validators: &Vec<Validator>, genesis_stakers: &Stakers) -> (r: Result<
    Vec<PlannedTx>,
    GenesisError,
>)
    requires
        genesis_stakers.wf(),
    ensures
        r is Ok == all_stakers(validators.deep_view(), genesis_stakers@),
        r matches Ok(txs) ==> txs.deep_view() == faucet_plan(
            validators.deep_view(),
            genesis_stakers@,
        ),
        r matches Err(e) ==> e == GenesisError::UnknownStaker,
{
    let mut txs: Vec<PlannedTx> = Vec::new();
    let ghost all = validators.deep_view();
    let mut i: usize = 0;
    assert(txs.deep_view() =~= faucet_plan(all.take(0), genesis_stakers@));
    while i < validators.len()
        invariant
            genesis_stakers.wf(),
            i <= validators.len(),
            all == validators.deep_view(),
            all_stakers(all.take(i as int), genesis_stakers@),
            txs.deep_view() == faucet_plan(all.take(i as int), genesis_stakers@),
        decreases validators.len() - i,
    {
        let stake: u64 = match genesis_stakers.get(&validators[i].name) {
            Some(s) => *s,
            None => {
                assert(!genesis_stakers@.contains_key(all[i as int].name));
                return Err(GenesisError::UnknownStaker);
            },
        };
        let amount: u128 = (stake as u128) + FEES_DEPOSIT;
        let mut actions: Vec<GenesisAction> = Vec::new();
        actions.push(verify_action());
        actions.push(
            GenesisAction::Transfer {
                contract: ContractName::new(HYLLAR),
                recipient: identity_of(&validators[i].pubkey),
                amount,
            },
        );
        let tx = PlannedTx { identity: Identity::new(FAUCET_ID), actions };
        proof {
            assert(tx@.actions =~= faucet_tx(all[i as int], stake).actions);
        }
        let ghost before = txs.deep_view();
        txs.push(tx);
        proof {
            assert(txs.deep_view() =~= before.push(faucet_tx(all[i as int], stake)));
            assert(txs.deep_view() =~= faucet_plan(all.take(i as int + 1), genesis_stakers@));
            assert forall|k: int| 0 <= k < i + 1 implies genesis_stakers@.contains_key(
                (#[trigger] all.take(i as int + 1)[k]).name,
            ) by {
                if k < i {
                    assert(all.take(i as int)[k] == all.take(i as int + 1)[k]);
                }
            }
        }
        i += 1;
    }
    proof {
        assert(all.take(i as int) =~= all);
    }
    Ok(txs)
}

/// Plans the transactions by which the validators stake. Fails for a
/// validator without a stake.
pub fn generate_stake_txs(validators: &Vec<Validator>, genesis_stakers: &Stakers) -> (r: Result<
    Vec<PlannedTx>,
    GenesisError,
>)
    requires
        genesis_stakers.wf(),
    ensures
        r is Ok == all_stakers(validators.deep_view(), genesis_stakers@),
        r matches Ok(txs) ==> txs.deep_view() == stake_plan(validators.deep_view(), genesis_stakers@),
        r matches Err(e) ==> e == GenesisError::UnknownStaker,
{
    let mut txs: Vec<PlannedTx> = Vec::new();
    let ghost all = validators.deep_view();
    let mut i: usize = 0;
    assert(txs.deep_view() =~= stake_plan(all.take(0), genesis_stakers@));
    while i < validators.len()
        invariant
            genesis_stakers.wf(),
            i <= validators.len(),
            all == validators.deep_view(),
            all_stakers(all.take(i as int), genesis_stakers@),
            txs.deep_view() == stake_plan(all.take(i as int), genesis_stakers@),
        decreases validators.len() - i,
    {
        let stake: u64 = match genesis_stakers.get(&validators[i].name) {
            Some(s) => *s,
            None => {
                assert(!genesis_stakers@.contains_key(all[i as int].name));
                return Err(GenesisError::UnknownStaker);
            },
        };
        let peer = &validators[i].pubkey;
        let mut actions: Vec<GenesisAction> = Vec::new();
        actions.push(verify_action());
        actions.push(
            GenesisAction::Stake { contract: ContractName::new(STAKING), amount: stake as u128 },
        );
        actions.push(
            GenesisAction::Transfer {
                contract: ContractName::new(HYLLAR),
                recipient: STAKING.to_string(),
                amount: stake as u128,
            },
        );
        actions.push(
            GenesisAction::DepositForFees {
                contract: ContractName::new(STAKING),
                holder: peer.clone(),
                amount: FEES_DEPOSIT,
            },
        );
        actions.push(
            GenesisAction::Transfer {
                contract: ContractName::new(HYLLAR),
                recipient: STAKING.to_string(),
                amount: FEES_DEPOSIT,
            },
        );
        actions.push(GenesisAction::Delegate { validator: peer.clone() });
        let tx = PlannedTx { identity: Identity(identity_of(peer)), actions };
        proof {
            assert(tx@.actions =~= stake_tx(all[i as int], stake).actions);
        }
        let ghost before = txs.deep_view();
        txs.push(tx);
        proof {
            assert(txs.deep_view() =~= before.push(stake_tx(all[i as int], stake)));
            assert(txs.deep_view() =~= stake_plan(all.take(i as int + 1), genesis_stakers@));
            assert forall|k: int| 0 <= k < i + 1 implies genesis_stakers@.contains_key(
                (#[trigger] all.take(i as int + 1)[k]).name,
            ) by {
                if k < i {
                    assert(all.take(i as int)[k] == all.take(i as int + 1)[k]);
                }
            }
        }
        i += 1;
    }
    proof {
        assert(all.take(i as int) =~= all);
    }
    Ok(txs)
}

/// The transaction by which the faucet gives away all of `token`.
fn token_transfer(token: &str) -> (r: PlannedTx)
    ensures
        r@ == token_tx(token@),
{
    let mut actions: Vec<GenesisAction> = Vec::new();
    actions.push(verify_action());
    actions.push(
        GenesisAction::Transfer {
            contract: ContractName::new(token),
            recipient: WALLET_ID.to_string(),
            amount: TOKEN_SUPPLY,
        },
    );
    let r = PlannedTx { identity: Identity::new(FAUCET_ID), actions };
    assert(r@.actions =~= token_tx(token@).actions);
    r
}

/// Plans the transactions by which the faucet gives what it has left to the
/// wallet. They come last.
pub fn generate_token_txs() -> (r: Vec<PlannedTx>)
    ensures
        r.deep_view() == token_plan(),
{
    let mut txs: Vec<PlannedTx> = Vec::new();
    let mut actions: Vec<GenesisAction> = Vec::new();
    actions.push(verify_action());
    actions.push(
        GenesisAction::TransferAll {
            contract: ContractName::new(HYLLAR),
            recipient: WALLET_ID.to_string(),
        },
    );
    let first = PlannedTx { identity: Identity::new(FAUCET_ID), actions };
    assert(first@.actions =~= token_plan()[0].actions);
    txs.push(first);
    txs.push(token_transfer("oranj"));
    txs.push(token_transfer("oxygen"));
    txs.push(token_transfer("vitamin"));
    assert(txs.deep_view() =~= token_plan());
    txs
}

} // verus!
