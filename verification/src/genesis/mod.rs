//! The construction of the first block: which node builds it, which peers it
//! waits for, and what the block holds.

pub mod block;
pub mod plan;
pub mod registration;
pub mod validators;

use crate::bus::BusMessage;
use crate::genesis::block::{
    all_registered, are_genesis_txs, is_genesis_block, ExecutedTx, GenesisError, SignedBlock,
    Transaction,
};
use crate::genesis::registration::{
    genesis_contracts_txs, genesis_fits, genesis_program_ids, genesis_registrations,
    registration_blobs, GenesisPrograms, GenesisStates, GENESIS_REGISTRAR,
};
use crate::genesis::plan::{
    all_stakers, faucet_plan, generate_faucet_txs, generate_register_txs, generate_stake_txs,
    generate_token_txs, register_plan, stake_plan, token_plan, PlannedTx, PlannedTxView, Stakers,
};
use crate::genesis::validators::{
    distinct_names, lemma_arrival_order_irrelevant, lemma_validators_determined, lists,
    peers_after, peers_view, sorted_validators, validators_sorted, PeerPublicKeyMap, Validator,
    ValidatorView,
};
use crate::model::{BlockHeight, ValidatorPublicKey};
use vstd::prelude::*;

verus! {

/// What the first block reads of the configuration of the node.
pub struct GenesisConfig {
    /// The name of the node.
    pub id: String,
    /// Whether the node starts a network alone.
    pub solo: bool,
    /// The time of the first block, in seconds.
    pub genesis_timestamp: u64,
    /// The stake of each node that takes part in the first block.
    pub stakers: Stakers,
    /// Whether the faucet keeps what it has left.
    pub keep_tokens_in_faucet: bool,
}

/// What the node hears of its peers.
#[derive(Debug, Clone, PartialEq, Eq)]
pub enum PeerEvent {
    NewPeer { name: String, pubkey: ValidatorPublicKey, height: BlockHeight, da_address: String },
}

/// What the construction of the first block ends in.
#[derive(Debug, Clone, PartialEq, Eq)]
pub enum GenesisEvent {
    /// The network exists, or this node does not start it: the node catches up.
    NoGenesis,
    /// The first block.
    GenesisBlock(SignedBlock),
}

impl BusMessage for PeerEvent {
}

impl BusMessage for GenesisEvent {
}

/// Where the construction of the first block stands.
#[derive(Debug, Clone, Copy, PartialEq, Eq)]
pub enum GenesisPhase {
    /// Nothing was decided yet.
    Initial,
    /// The node waits until it knows the key of every staker.
    AwaitPeers,
    /// It was decided whether the node builds the first block.
    Done,
}

/// What the node does next.
#[derive(Debug, Clone, Copy, PartialEq, Eq)]
pub enum GenesisStep {
    /// Publish that there is no first block to build, and stop.
    NoGenesis,
    /// Wait for the next peer.
    AwaitPeers,
    /// Build the first block from the peers that are known, publish it, and stop.
    Build,
    /// Nothing: the message came at a time at which it says nothing.
    Ignore,
}

/// The construction of the first block as a mathematical value.
#[verifier::ext_equal]
pub struct GenesisView {
    pub phase: GenesisPhase,
    pub id: Seq<char>,
    pub solo: bool,
    pub stakers: Map<Seq<char>, u64>,
    pub peers: Map<Seq<char>, Seq<u8>>,
}

/// How the construction starts: a node that has handled the first block
/// before, or that neither starts a network alone nor is a staker, builds
/// nothing. Another node knows itself as the first peer; it builds at once if
/// it starts a network alone or is the only staker, and waits for its peers
/// otherwise.
pub open spec fn started(v: GenesisView, already_handled: bool, own_key: Seq<u8>) -> (
    GenesisView,
    GenesisStep,
) {
    if v.phase != GenesisPhase::Initial {
        (v, GenesisStep::Ignore)
    } else if already_handled || (!v.solo && !v.stakers.contains_key(v.id)) {
        (GenesisView { phase: GenesisPhase::Done, ..v }, GenesisStep::NoGenesis)
    } else {
        let peers = v.peers.insert(v.id, own_key);
        if !v.solo && v.stakers.dom().len() > 1 {
            (GenesisView { phase: GenesisPhase::AwaitPeers, peers, ..v }, GenesisStep::AwaitPeers)
        } else {
            (GenesisView { phase: GenesisPhase::Done, peers, ..v }, GenesisStep::Build)
        }
    }
}

/// How the construction goes on when a peer is heard of: a peer that is no
/// staker is passed over; a staker beyond height zero shows that the network
/// exists, so nothing is built; another staker is noted, and the block is built
/// once as many peers are known as there are stakers.
pub open spec fn peer_joined(v: GenesisView, name: Seq<char>, key: Seq<u8>, height: u64) -> (
    GenesisView,
    GenesisStep,
) {
    if v.phase != GenesisPhase::AwaitPeers {
        (v, GenesisStep::Ignore)
    } else if !v.stakers.contains_key(name) {
        (v, GenesisStep::Ignore)
    } else if height > 0 {
        (GenesisView { phase: GenesisPhase::Done, ..v }, GenesisStep::NoGenesis)
    } else {
        let peers = v.peers.insert(name, key);
        if peers.dom().len() == v.stakers.dom().len() {
            (GenesisView { phase: GenesisPhase::Done, peers, ..v }, GenesisStep::Build)
        } else {
            (GenesisView { peers, ..v }, GenesisStep::AwaitPeers)
        }
    }
}

/// The construction of the first block.
pub struct Genesis {
    config: GenesisConfig,
    peer_pubkey: PeerPublicKeyMap,
    phase: GenesisPhase,
}

impl View for Genesis {
    type V = GenesisView;

    closed spec fn view(&self) -> GenesisView {
        GenesisView {
            phase: self.phase,
            id: self.config.id@,
            solo: self.config.solo,
            stakers: self.config.stakers@,
            peers: peers_view(self.peer_pubkey),
        }
    }
}

impl Genesis {
    /// No name occurs twice among the stakers or among the peers.
    pub closed spec fn wf(&self) -> bool {
        self.config.stakers.wf() && self.peer_pubkey.wf()
    }

    /// The peers that are known.
    pub closed spec fn peers(&self) -> PeerPublicKeyMap {
        self.peer_pubkey
    }

    /// The configuration.
    pub closed spec fn configuration(&self) -> GenesisConfig {
        self.config
    }

    /// The construction of the first block for a node with that
    /// configuration, before anything is decided. No staker occurs twice.
    pub fn new(config: GenesisConfig) -> (r: Self)
        requires
            config.stakers.wf(),
        ensures
            r.wf(),
            r.configuration() == config,
            r@ == (GenesisView {
                phase: GenesisPhase::Initial,
                id: config.id@,
                solo: config.solo,
                stakers: config.stakers@,
                peers: Map::<Seq<char>, Seq<u8>>::empty(),
            }),
    {
        let r = Genesis {
            config,
            peer_pubkey: PeerPublicKeyMap::new(),
            phase: GenesisPhase::Initial,
        };
        proof {
            assert(r@.peers =~= Map::<Seq<char>, Seq<u8>>::empty());
        }
        r
    }

    /// Starts the construction, for a node with the public key `own_key`
    /// that has, or has not, handled the first block before.
    pub fn start(&mut self, already_handled_genesis: bool, own_key: ValidatorPublicKey) -> (r:
        GenesisStep)
        requires
            old(self).wf(),
        ensures
            final(self).wf(),
            final(self).configuration() == old(self).configuration(),
            (final(self)@, r) == started(old(self)@, already_handled_genesis, own_key@),
    {
        match self.phase {
            GenesisPhase::Initial => {},
            _ => {
                return GenesisStep::Ignore;
            },
        }
        if already_handled_genesis {
            self.phase = GenesisPhase::Done;
            return GenesisStep::NoGenesis;
        }
        self.do_genesis(own_key)
    }

    /// Decides whether this node builds the first block, and whether it has
    /// to wait for peers first.
    pub fn do_genesis(&mut self, own_key: ValidatorPublicKey) -> (r: GenesisStep)
        requires
            old(self).wf(),
        ensures
            final(self).wf(),
            final(self).configuration() == old(self).configuration(),
            (final(self)@, r) == started(old(self)@, false, own_key@),
    {
        match self.phase {
            GenesisPhase::Initial => {},
            _ => {
                return GenesisStep::Ignore;
            },
        }
        let single_node = self.config.solo;
        if !single_node && !self.config.stakers.contains_key(&self.config.id) {
            self.phase = GenesisPhase::Done;
            return GenesisStep::NoGenesis;
        }
        self.peer_pubkey.insert(self.config.id.clone(), own_key);
        proof {
            assert(peers_view(self.peer_pubkey) =~= peers_view(old(self).peer_pubkey).insert(
                self.config.id@,
                own_key@,
            ));
        }
        if !single_node && self.config.stakers.len() > 1 {
            self.phase = GenesisPhase::AwaitPeers;
            GenesisStep::AwaitPeers
        } else {
            self.phase = GenesisPhase::Done;
            GenesisStep::Build
        }
    }

    /// Takes note of what the node hears of a peer.
    pub fn on_peer_event(&mut self, event: PeerEvent) -> (r: GenesisStep)
        requires
            old(self).wf(),
        ensures
            final(self).wf(),
            final(self).configuration() == old(self).configuration(),
            event matches PeerEvent::NewPeer { name, pubkey, height, .. } && (final(self)@, r)
                == peer_joined(old(self)@, name@, pubkey@, height.0),
    {
        match event {
            PeerEvent::NewPeer { name, pubkey, height, .. } => {
                match self.phase {
                    GenesisPhase::AwaitPeers => {},
                    _ => {
                        return GenesisStep::Ignore;
                    },
                }
                if !self.config.stakers.contains_key(&name) {
                    return GenesisStep::Ignore;
                }
                if height.0 > 0 {
                    self.phase = GenesisPhase::Done;
                    return GenesisStep::NoGenesis;
                }
                self.peer_pubkey.insert(name, pubkey);
                proof {
                    assert(peers_view(self.peer_pubkey) =~= peers_view(
                        old(self).peer_pubkey,
                    ).insert(name@, pubkey@));
                    assert(peers_view(self.peer_pubkey).dom() =~= self.peer_pubkey@.dom());
                }
                if self.peer_pubkey.len() == self.config.stakers.len() {
                    self.phase = GenesisPhase::Done;
                    GenesisStep::Build
                } else {
                    GenesisStep::AwaitPeers
                }
            },
        }
    }

    /// The peers that are known.
    pub fn peer_pubkey(&self) -> (r: &PeerPublicKeyMap)
        ensures
            *r == self.peers(),
            self.wf() ==> r.wf() && peers_view(*r) == self@.peers,
    {
        &self.peer_pubkey
    }

    /// The configuration.
    pub fn config(&self) -> (r: &GenesisConfig)
        ensures
            *r == self.configuration(),
            self.wf() ==> r.stakers.wf(),
    {
        &self.config
    }
}

/// The plan of the transactions of the first block behind the registration of
/// its contracts: the identities, the payments of the faucet, the stakes,
/// and, unless the faucet keeps them, the tokens that it has left.
pub open spec fn genesis_plan(
    validators: Seq<ValidatorView>,
    stakes: Map<Seq<char>, u64>,
    keep_tokens_in_faucet: bool,
) -> Seq<PlannedTxView> {
    register_plan(validators) + faucet_plan(validators, stakes) + stake_plan(validators, stakes)
        + if keep_tokens_in_faucet {
        Seq::empty()
    } else {
        token_plan()
    }
}

/// Moves the transactions of `more` behind those of `txs`.
fn append_plan(txs: &mut Vec<PlannedTx>, more: Vec<PlannedTx>)
    ensures
        final(txs).deep_view() == old(txs).deep_view() + more.deep_view(),
{
    let mut more = more;
    let ghost added = more.deep_view();
    txs.append(&mut more);
    assert(txs.deep_view() =~= old(txs).deep_view() + added);
}

/// Plans the transactions of the first block for `validators`, which are in
/// their order. Fails for a validator without a stake.
pub fn plan_genesis_txs(
    validators: &Vec<Validator>,
    genesis_stakers: &Stakers,
    keep_tokens_in_faucet: bool,
) -> (r: Result<Vec<PlannedTx>, GenesisError>)
    requires
        genesis_stakers.wf(),
    ensures
        r is Ok == all_stakers(validators.deep_view(), genesis_stakers@),
        r matches Ok(txs) ==> txs.deep_view() == genesis_plan(
            validators.deep_view(),
            genesis_stakers@,
            keep_tokens_in_faucet,
        ),
        r matches Err(e) ==> e == GenesisError::UnknownStaker,
{
    let mut txs = generate_register_txs(validators);
    let faucet_txs = match generate_faucet_txs(validators, genesis_stakers) {
        Ok(t) => t,
        Err(e) => {
            return Err(e);
        },
    };
    let stake_txs = match generate_stake_txs(validators, genesis_stakers) {
        Ok(t) => t,
        Err(e) => {
            return Err(e);
        },
    };
    append_plan(&mut txs, faucet_txs);
    append_plan(&mut txs, stake_txs);
    if !keep_tokens_in_faucet {
        append_plan(&mut txs, generate_token_txs());
    } else {
        assert(txs.deep_view() + Seq::<PlannedTxView>::empty() =~= txs.deep_view());
    }
    Ok(txs)
}

/// The keys of validators, in the order of the validators.
pub open spec fn keys_of(validators: Seq<ValidatorView>) -> Seq<Seq<u8>> {
    Seq::new(validators.len(), |i: int| validators[i].pubkey)
}

/// The keys of `validators`, in their order.
pub fn validator_keys(validators: &Vec<Validator>) -> (r: Vec<ValidatorPublicKey>)
    ensures
        r.deep_view() == keys_of(validators.deep_view()),
{
    let mut out: Vec<ValidatorPublicKey> = Vec::new();
    let mut i: usize = 0;
    while i < validators.len()
        invariant
            i <= validators.len(),
            out.len() == i,
            forall|k: int| 0 <= k < i ==> out[k]@ == validators[k]@.pubkey,
        decreases validators.len() - i,
    {
        out.push(validators[i].pubkey.clone());
        i += 1;
    }
    assert(out.deep_view() =~= keys_of(validators.deep_view()));
    out
}

/// Whether `txs` is the one transaction that registers the contracts of the
/// first block.
pub open spec fn is_registration(
    txs: Seq<Transaction>,
    programs: GenesisPrograms,
    states: GenesisStates,
) -> bool {
    &&& txs.len() == 1
    &&& txs[0] matches Transaction::Blob(tx)
    &&& tx.identity@ == GENESIS_REGISTRAR@
    &&& tx.blobs.deep_view() == registration_blobs(genesis_registrations(programs, states))
}

impl Genesis {
    /// The validators of the first block, in their order: the peers that are
    /// known, by public key.
    pub fn validators(&self) -> (r: Vec<Validator>)
        requires
            self.wf(),
        ensures
            validators_sorted(r.deep_view()),
            lists(r.deep_view(), self@.peers),
    {
        sorted_validators(&self.peer_pubkey)
    }

    /// Plans the transactions of the first block for the peers that are
    /// known, with the stakes and the choice on the faucet of the configuration.
    /// Fails for a peer without a stake.
    pub fn plan_genesis_txs(&self, validators: &Vec<Validator>) -> (r: Result<
        Vec<PlannedTx>,
        GenesisError,
    >)
        requires
            self.wf(),
        ensures
            r is Ok == all_stakers(validators.deep_view(), self@.stakers),
            r matches Ok(txs) ==> txs.deep_view() == genesis_plan(
                validators.deep_view(),
                self@.stakers,
                self.configuration().keep_tokens_in_faucet,
            ),
            r matches Err(e) ==> e == GenesisError::UnknownStaker,
    {
        plan_genesis_txs(validators, &self.config.stakers, self.config.keep_tokens_in_faucet)
    }

    /// The transactions of the first block: the registration of its
    /// contracts, then each planned transaction as the contracts of the node have
    /// executed it, followed by the proof transaction of its outputs. Fails where a
    /// program or a state is too long for the layout of blobs, or where a
    /// transaction is for a contract that the first block does not register.
    pub fn generate_genesis_txs(
        &self,
        programs: &GenesisPrograms,
        states: &GenesisStates,
        executed: Vec<ExecutedTx>,
    ) -> (r: Result<Vec<Transaction>, GenesisError>)
        ensures
            r is Ok == (genesis_fits(*programs, *states) && all_registered(
                genesis_program_ids(*programs),
                executed@,
            )),
            r matches Ok(txs) ==> exists|registration: Seq<Transaction>|
                #![auto]
                is_registration(registration, *programs, *states) && are_genesis_txs(
                    txs@,
                    genesis_program_ids(*programs),
                    registration,
                    executed@,
                ),
            r matches Err(e) ==> e == if genesis_fits(*programs, *states) {
                GenesisError::UnregisteredContract
            } else {
                GenesisError::FieldTooLong
            },
    {
        let (ids, register) = match genesis_contracts_txs(programs, states) {
            Ok(pair) => pair,
            Err(e) => {
                return Err(e);
            },
        };
        let ghost registration = register@;
        let r = crate::genesis::block::generate_genesis_txs(&ids, register, executed);
        proof {
            if r is Ok {
                assert(is_registration(registration, *programs, *states));
            }
        }
        r
    }

    /// The first block, of `initial_validators` in their order and at the
    /// time of the configuration. There is at least one validator.
    pub fn make_genesis_block(
        &self,
        genesis_txs: Vec<Transaction>,
        initial_validators: Vec<ValidatorPublicKey>,
    ) -> (r: SignedBlock)
        requires
            initial_validators@.len() > 0,
        ensures
            is_genesis_block(
                r,
                genesis_txs@,
                initial_validators.deep_view(),
                self.configuration().genesis_timestamp,
            ),
            r.consensus_proposal.staking_actions@.len() == initial_validators@.len(),
    {
        crate::genesis::block::make_genesis_block(
            genesis_txs,
            initial_validators,
            self.config.genesis_timestamp,
        )
    }
}

/// Nodes that hear of the same peers, in whatever order, plan the same
/// transactions for the first block and name the same validators in the same
/// order: whatever lists of validators they arrive at, as long as each is in
/// order and lists the peers that its node knows.
pub proof fn lemma_genesis_is_deterministic(
    known: Map<Seq<char>, Seq<u8>>,
    first: Seq<(Seq<char>, Seq<u8>)>,
    second: Seq<(Seq<char>, Seq<u8>)>,
    a: Seq<ValidatorView>,
    b: Seq<ValidatorView>,
    stakes: Map<Seq<char>, u64>,
    keep_tokens_in_faucet: bool,
)
    requires
        distinct_names(first),
        distinct_names(second),
        forall|p: (Seq<char>, Seq<u8>)| first.contains(p) <==> second.contains(p),
        validators_sorted(a),
        validators_sorted(b),
        lists(a, peers_after(known, first)),
        lists(b, peers_after(known, second)),
    ensures
        a == b,
        keys_of(a) == keys_of(b),
        genesis_plan(a, stakes, keep_tokens_in_faucet) == genesis_plan(
            b,
            stakes,
            keep_tokens_in_faucet,
        ),
{
    lemma_arrival_order_irrelevant(known, first, second);
    lemma_validators_determined(a, b, peers_after(known, first));
}

} // verus!
