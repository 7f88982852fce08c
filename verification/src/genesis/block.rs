//! The transactions of the first block and the block itself.

use crate::assoc::AssocMap;
use crate::hash::{hash_bytes, hash_text, tx_hash_text};
use crate::model::{
    flat, flatten_blobs, Blob, BlobData, BlobIndex, BlobTransaction, BlobView, ContractName,
    Identity, LaneBytesSize, LaneId, ProgramId, ProofData, ProofDataHash, StateCommitment, TxHash,
    ValidatorPublicKey, Verifier,
};
use crate::output::{HyleOutput, HyleOutputView, OnchainEffectView};
use crate::seqs::reversed;
use crate::text::utf8;
use crate::verifiers::RISC0_1;
use vstd::prelude::*;
use vstd::string::StringSliceAdditionalSpecFns;

verus! {

/// The contract that stands for recursive proofs.
pub const RISC0_RECURSION: &'static str = "risc0-recursion";

/// The hash of a data proposal.
#[derive(Debug, Clone, PartialEq, Eq)]
pub struct DataProposalHash(pub String);

/// The hash of a consensus proposal.
#[derive(Debug, Clone, PartialEq, Eq)]
pub struct ConsensusProposalHash(pub String);

/// The bytes of a signature.
#[derive(Debug, Clone, PartialEq, Eq)]
pub struct Signature(pub Vec<u8>);

/// What a proof has shown of one blob.
#[derive(Debug, Clone, PartialEq, Eq)]
pub struct BlobProofOutput {
    pub original_proof_hash: ProofDataHash,
    pub verifier: Verifier,
    pub program_id: ProgramId,
    pub blob_tx_hash: TxHash,
    pub hyle_output: HyleOutput,
}

/// A transaction that carries the outputs of a proof that was verified.
#[derive(Debug, Clone, PartialEq, Eq)]
pub struct VerifiedProofTransaction {
    pub contract_name: ContractName,
    pub program_id: ProgramId,
    pub verifier: Verifier,
    pub proven_blobs: Vec<BlobProofOutput>,
    pub is_recursive: bool,
    pub proof_hash: ProofDataHash,
    pub proof_size: usize,
    pub proof: Option<ProofData>,
}

/// A transaction of a block.
#[derive(Debug, Clone, PartialEq, Eq)]
pub enum Transaction {
    Blob(BlobTransaction),
    VerifiedProof(VerifiedProofTransaction),
}

/// The transactions that a validator proposes on its lane.
#[derive(Debug, Clone, PartialEq, Eq)]
pub struct DataProposal {
    pub parent_data_proposal_hash: Option<DataProposalHash>,
    pub txs: Vec<Transaction>,
}

/// A signature of several validators.
#[derive(Debug, Clone, PartialEq, Eq)]
pub struct AggregateSignature {
    pub signature: Signature,
    pub validators: Vec<ValidatorPublicKey>,
}

/// What a validator says of itself when it asks to be bonded.
#[derive(Debug, Clone, PartialEq, Eq)]
pub struct ValidatorCandidacy {
    pub peer_address: String,
}

/// The signature of one validator.
#[derive(Debug, Clone, PartialEq, Eq)]
pub struct ValidatorSignature {
    pub signature: Signature,
    pub validator: ValidatorPublicKey,
}

/// A candidacy with the signature of its validator.
#[derive(Debug, Clone, PartialEq, Eq)]
pub struct SignedCandidacy {
    pub msg: ValidatorCandidacy,
    pub signature: ValidatorSignature,
}

/// What a block asks of the staking state.
#[derive(Debug, Clone, PartialEq, Eq)]
pub enum ConsensusStakingAction {
    Bond { candidate: SignedCandidacy },
    PayFeesForDaDi { lane_id: LaneId, cumul_size: LaneBytesSize },
}

/// One data proposal that a block commits to.
#[derive(Debug, Clone, PartialEq, Eq)]
pub struct CutEntry {
    pub lane_id: LaneId,
    pub data_proposal_hash: DataProposalHash,
    pub cumul_size: LaneBytesSize,
    pub signature: AggregateSignature,
}

/// What consensus agrees on for one slot.
#[derive(Debug, Clone, PartialEq, Eq)]
pub struct ConsensusProposal {
    pub slot: u64,
    /// In milliseconds.
    pub timestamp: u128,
    pub cut: Vec<CutEntry>,
    pub staking_actions: Vec<ConsensusStakingAction>,
    pub parent_hash: ConsensusProposalHash,
}

/// A block with the signature of the validators that agreed on it.
#[derive(Debug, Clone, PartialEq, Eq)]
pub struct SignedBlock {
    pub data_proposals: Vec<(LaneId, Vec<DataProposal>)>,
    pub certificate: AggregateSignature,
    pub consensus_proposal: ConsensusProposal,
}

/// Whether a data proposal among `proposals` holds a transaction.
pub open spec fn some_txs(proposals: Seq<DataProposal>) -> bool {
    exists|j: int| 0 <= j < proposals.len() && (#[trigger] proposals[j]).txs@.len() > 0
}

impl SignedBlock {
    /// Whether a data proposal of the block holds a transaction.
    pub fn has_txs(&self) -> (r: bool)
        ensures
            r == exists|i: int|
                0 <= i < self.data_proposals@.len() && some_txs(
                    (#[trigger] self.data_proposals@[i]).1@,
                ),
    {
        let mut i: usize = 0;
        while i < self.data_proposals.len()
            invariant
                i <= self.data_proposals.len(),
                forall|k: int| 0 <= k < i ==> !some_txs((#[trigger] self.data_proposals@[k]).1@),
            decreases self.data_proposals.len() - i,
        {
            let proposals = &self.data_proposals[i].1;
            let mut j: usize = 0;
            while j < proposals.len()
                invariant
                    j <= proposals.len(),
                    i < self.data_proposals.len(),
                    *proposals == self.data_proposals@[i as int].1,
                    forall|k: int| 0 <= k < j ==> (#[trigger] proposals@[k]).txs@.len() == 0,
                decreases proposals.len() - j,
            {
                if proposals[j].txs.len() > 0 {
                    assert(some_txs(self.data_proposals@[i as int].1@));
                    return true;
                }
                j += 1;
            }
            i += 1;
        }
        false
    }
}

/// Why the first block cannot be built.
#[derive(Debug, Clone, Copy, PartialEq, Eq)]
pub enum GenesisError {
    /// A transaction of the first block is for a contract that the first
    /// block does not register.
    UnregisteredContract,
    /// A validator of the first block has no stake in the configuration.
    UnknownStaker,
    /// A field is longer than the layout of blobs has room for.
    FieldTooLong,
}

/// The programs of the contracts that the first block registers, by the
/// name of the contract.
pub type ProgramIds = AssocMap<ContractName, ProgramId>;

/// The programs of the contracts as mathematical values.
pub open spec fn program_ids_view(ids: ProgramIds) -> Map<Seq<char>, Seq<u8>> {
    ids@.map_values(|p: ProgramId| p@)
}

/// A transaction of the first block as its contracts have executed it: its
/// blobs, and for each of them the contract and the output.
#[derive(Debug, Clone, PartialEq, Eq)]
pub struct ExecutedTx {
    pub identity: Identity,
    pub blobs: Vec<Blob>,
    pub outputs: Vec<(ContractName, HyleOutput)>,
}

/// The output that stands for the transfer of a token whose contract keeps
/// its accounts in a tree: the blob at index one of a transaction of two
/// blobs, which takes the contract from one root of the tree to the next.
pub open spec fn token_output(
    identity: Seq<char>,
    blobs: Seq<BlobView>,
    initial_state: Seq<u8>,
    next_state: Seq<u8>,
) -> HyleOutputView {
    HyleOutputView {
        version: 1,
        initial_state,
        next_state,
        identity,
        blob_index: 1,
        blobs: flat(blobs),
        success: true,
        tx_hash: tx_hash_text(identity, blobs),
        tx_ctx: None,
        onchain_effects: Seq::empty(),
        program_outputs: Seq::empty(),
    }
}

/// Whether `after` is the executed transaction `before` with the transfer of
/// a token behind it: the blob of the transfer is added, the first output is
/// told of the blobs and of the hash that the transaction now has, the other
/// outputs stay, and the output of the transfer is added.
pub open spec fn with_token_transfer(
    before: ExecutedTx,
    after: ExecutedTx,
    token: Seq<char>,
    transfer: Seq<u8>,
    initial_state: Seq<u8>,
    next_state: Seq<u8>,
) -> bool {
    let blobs = before.blobs.deep_view().push(BlobView { contract_name: token, data: transfer });
    &&& after.identity == before.identity
    &&& after.blobs.deep_view() == blobs
    &&& after.outputs@.len() == before.outputs@.len() + 1
    &&& after.outputs@[0].0 == before.outputs@[0].0
    &&& after.outputs@[0].1@ == (HyleOutputView {
        tx_hash: tx_hash_text(before.identity@, blobs),
        blobs: flat(blobs),
        ..before.outputs@[0].1@
    })
    &&& forall|i: int| 1 <= i < before.outputs@.len() ==> after.outputs@[i] == before.outputs@[i]
    &&& after.outputs@.last().0@ == token
    &&& after.outputs@.last().1@ == token_output(before.identity@, blobs, initial_state, next_state)
}

/// Puts the transfer of a token behind a transaction that its contracts have
/// executed. The transaction has an output already.
pub fn add_token_transfer(
    ptx: &mut ExecutedTx,
    token: ContractName,
    transfer: Vec<u8>,
    initial_state: StateCommitment,
    next_state: StateCommitment,
)
    requires
        old(ptx).outputs@.len() > 0,
    ensures
        with_token_transfer(
            *old(ptx),
            *final(ptx),
            token@,
            transfer@,
            initial_state@,
            next_state@,
        ),
{
    let ghost before = *ptx;
    let ghost blobs = before.blobs.deep_view().push(
        BlobView { contract_name: token@, data: transfer@ },
    );
    ptx.blobs.push(Blob { contract_name: token.clone(), data: BlobData(transfer) });
    assert(ptx.blobs.deep_view() =~= blobs);
    let tx_hash = BlobTransaction::new(ptx.identity.clone(), copy_blobs(&ptx.blobs)).hashed();
    let mut taken: Vec<(ContractName, HyleOutput)> = Vec::new();
    core::mem::swap(&mut ptx.outputs, &mut taken);
    let mut stack = reversed(taken);
    let mut outputs: Vec<(ContractName, HyleOutput)> = Vec::new();
    match stack.pop() {
        Some((contract, first)) => {
            outputs.push(
                (
                    contract,
                    HyleOutput {
                        version: first.version,
                        initial_state: first.initial_state,
                        next_state: first.next_state,
                        identity: first.identity,
                        blob_index: first.blob_index,
                        blobs: flatten_blobs(ptx.blobs.as_slice()),
                        success: first.success,
                        tx_hash: tx_hash.clone(),
                        tx_ctx: first.tx_ctx,
                        onchain_effects: first.onchain_effects,
                        program_outputs: first.program_outputs,
                    },
                ),
            );
        },
        None => {},
    }
    while stack.len() > 0
        invariant
            before.outputs@.len() > 0,
            stack@.len() + outputs@.len() == before.outputs@.len(),
            outputs@.len() >= 1,
            forall|k: int|
                0 <= k < stack@.len() ==> stack@[k] == before.outputs@[before.outputs@.len() - 1
                    - k],
            outputs@[0].0 == before.outputs@[0].0,
            outputs@[0].1@ == (HyleOutputView {
                tx_hash: tx_hash_text(before.identity@, blobs),
                blobs: flat(blobs),
                ..before.outputs@[0].1@
            }),
            forall|i: int| 1 <= i < outputs@.len() ==> outputs@[i] == before.outputs@[i],
        decreases stack.len(),
    {
        match stack.pop() {
            Some(x) => {
                outputs.push(x);
            },
            None => {},
        }
    }
    let last = HyleOutput {
        version: 1,
        initial_state,
        next_state,
        identity: ptx.identity.clone(),
        blob_index: BlobIndex(1),
        blobs: flatten_blobs(ptx.blobs.as_slice()),
        success: true,
        tx_hash,
        tx_ctx: None,
        onchain_effects: Vec::new(),
        program_outputs: Vec::new(),
    };
    assert(last.onchain_effects.deep_view() =~= Seq::<OnchainEffectView>::empty());
    outputs.push((token, last));
    ptx.outputs = outputs;
}

/// A copy of a list of blobs.
fn copy_blobs(blobs: &Vec<Blob>) -> (r: Vec<Blob>)
    ensures
        r.deep_view() == blobs.deep_view(),
{
    let mut out: Vec<Blob> = Vec::new();
    let mut j: usize = 0;
    while j < blobs.len()
        invariant
            j <= blobs.len(),
            out.len() == j,
            forall|k: int| 0 <= k < j ==> out[k]@ == blobs[k]@,
        decreases blobs.len() - j,
    {
        out.push(blobs[j].clone());
        j += 1;
    }
    assert(out.deep_view() =~= blobs.deep_view());
    out
}

/// The hash of the proof that the transactions of the first block claim:
/// that of no bytes at all.
pub open spec fn zero_proof_hash() -> Seq<char> {
    hash_text(Seq::empty())
}

/// Whether `proven` is what the first block claims to be proved of the
/// outputs of a transaction with the hash `tx_hash`: for each output in turn,
/// under the RISC Zero verifier and the program of the output's contract.
pub open spec fn proves(
    proven: Seq<BlobProofOutput>,
    ids: Map<Seq<char>, Seq<u8>>,
    tx_hash: Seq<char>,
    outputs: Seq<(ContractName, HyleOutput)>,
) -> bool {
    &&& proven.len() == outputs.len()
    &&& forall|j: int|
        0 <= j < proven.len() ==> {
            &&& (#[trigger] proven[j]).original_proof_hash.0@ == zero_proof_hash()
            &&& proven[j].verifier@ == RISC0_1@
            &&& ids.contains_key(outputs[j].0@)
            &&& proven[j].program_id@ == ids[outputs[j].0@]
            &&& proven[j].blob_tx_hash@ == tx_hash
            &&& proven[j].hyle_output == outputs[j].1
        }
}

/// Whether `tx` is the proof transaction that follows the executed
/// transaction `executed` in the first block: a recursive proof, without
/// bytes, of all of its outputs.
pub open spec fn is_genesis_proof(
    tx: Transaction,
    ids: Map<Seq<char>, Seq<u8>>,
    executed: ExecutedTx,
) -> bool {
    &&& tx matches Transaction::VerifiedProof(vp)
    &&& vp.contract_name@ == RISC0_RECURSION@
    &&& ids.contains_key(RISC0_RECURSION@)
    &&& vp.program_id@ == ids[RISC0_RECURSION@]
    &&& vp.verifier@ == RISC0_1@
    &&& vp.is_recursive
    &&& vp.proof_hash.0@ == zero_proof_hash()
    &&& vp.proof_size == 0
    &&& vp.proof is None
    &&& proves(
        vp.proven_blobs@,
        ids,
        tx_hash_text(executed.identity@, executed.blobs.deep_view()),
        executed.outputs@,
    )
}

/// Whether `tx` is the executed transaction `executed` as a blob transaction.
pub open spec fn is_genesis_blob_tx(tx: Transaction, executed: ExecutedTx) -> bool {
    &&& tx matches Transaction::Blob(b)
    &&& b.identity == executed.identity
    &&& b.blobs == executed.blobs
}

/// Whether the first block registers every contract that the executed
/// transactions are for, and the contract of recursive proofs if there is a
/// transaction at all.
pub open spec fn all_registered(ids: Map<Seq<char>, Seq<u8>>, executed: Seq<ExecutedTx>) -> bool {
    &&& executed.len() > 0 ==> ids.contains_key(RISC0_RECURSION@)
    &&& forall|i: int, j: int|
        0 <= i < executed.len() && 0 <= j < executed[i].outputs@.len() ==> ids.contains_key(
            (#[trigger] executed[i].outputs@[j]).0@,
        )
}

/// What the first block claims to be proved of `outputs`.
fn proven_blobs(ids: &ProgramIds, tx_hash: &TxHash, outputs: Vec<(ContractName, HyleOutput)>) -> (r:
    Option<Vec<BlobProofOutput>>)
    requires
        ids.wf(),
    ensures
        r is Some == (forall|j: int|
            0 <= j < outputs@.len() ==> program_ids_view(*ids).contains_key(
                (#[trigger] outputs@[j]).0@,
            )),
        r matches Some(p) ==> proves(p@, program_ids_view(*ids), tx_hash@, outputs@),
{
    let ghost all = outputs@;
    let mut stack = reversed(outputs);
    let mut out: Vec<BlobProofOutput> = Vec::new();
    while stack.len() > 0
        invariant
            ids.wf(),
            all == outputs@,
            stack@.len() + out@.len() == all.len(),
            forall|k: int| 0 <= k < stack@.len() ==> stack@[k] == all[all.len() - 1 - k],
            proves(out@, program_ids_view(*ids), tx_hash@, all.take(out@.len() as int)),
        decreases stack.len(),
    {
        let ghost n = out@.len();
        match stack.pop() {
            Some((contract, output)) => {
                assert((contract, output) == all[n as int]);
                let program_id = match ids.get(&contract) {
                    Some(p) => p.clone(),
                    None => {
                        return None;
                    },
                };
                let zero = hash_bytes(ProofData::default().0.as_slice());
                let ghost before = out@;
                out.push(
                    BlobProofOutput {
                        original_proof_hash: ProofDataHash(zero),
                        verifier: Verifier::new(RISC0_1),
                        program_id,
                        blob_tx_hash: tx_hash.clone(),
                        hyle_output: output,
                    },
                );
                proof {
                    let ids_v = program_ids_view(*ids);
                    let upto = all.take(n as int + 1);
                    assert forall|j: int| 0 <= j < out@.len() implies {
                        &&& (#[trigger] out@[j]).original_proof_hash.0@ == zero_proof_hash()
                        &&& out@[j].verifier@ == RISC0_1@
                        &&& ids_v.contains_key(upto[j].0@)
                        &&& out@[j].program_id@ == ids_v[upto[j].0@]
                        &&& out@[j].blob_tx_hash@ == tx_hash@
                        &&& out@[j].hyle_output == upto[j].1
                    } by {
                        if j < n {
                            assert(out@[j] == before[j]);
                            assert(upto[j] == all.take(n as int)[j]);
                        }
                    }
                }
            },
            None => {},
        }
    }
    proof {
        assert(all.take(all.len() as int) =~= all);
        assert forall|j: int| 0 <= j < all.len() implies program_ids_view(*ids).contains_key(
            (#[trigger] all[j]).0@,
        ) by {
            assert(out@[j].hyle_output == all[j].1);
        }
    }
    Some(out)
}

/// Whether `txs` are the transactions of the first block: those that
/// register its contracts, then each executed transaction, followed by the
/// proof transaction of its outputs.
pub open spec fn are_genesis_txs(
    txs: Seq<Transaction>,
    ids: Map<Seq<char>, Seq<u8>>,
    registration: Seq<Transaction>,
    executed: Seq<ExecutedTx>,
) -> bool {
    &&& txs.len() == registration.len() + 2 * executed.len()
    &&& forall|k: int| 0 <= k < registration.len() ==> (#[trigger] txs[k]) == registration[k]
    &&& forall|i: int|
        0 <= i < executed.len() ==> is_genesis_blob_tx(
            txs[registration.len() + 2 * i],
            #[trigger] executed[i],
        ) && is_genesis_proof(txs[registration.len() + 2 * i + 1], ids, executed[i])
}

/// The transactions of the first block, in their order. Every node executes
/// them alike, so the proof transactions hold no proof. Fails where a
/// transaction is for a contract that the first block does not register.
pub fn generate_genesis_txs(
    contract_program_ids: &ProgramIds,
    genesis_txs: Vec<Transaction>,
    builders: Vec<ExecutedTx>,
) -> (r: Result<Vec<Transaction>, GenesisError>)
    requires
        contract_program_ids.wf(),
    ensures
        r is Ok == all_registered(program_ids_view(*contract_program_ids), builders@),
        r matches Ok(txs) ==> are_genesis_txs(
            txs@,
            program_ids_view(*contract_program_ids),
            genesis_txs@,
            builders@,
        ),
        r matches Err(e) ==> e == GenesisError::UnregisteredContract,
{
    let ghost ids = program_ids_view(*contract_program_ids);
    let ghost all = builders@;
    let ghost g = genesis_txs@.len();
    let mut txs = genesis_txs;
    let total: usize = builders.len();
    let mut stack = reversed(builders);
    let recursion = ContractName::new(RISC0_RECURSION);
    let mut done: usize = 0;
    proof {
        assert(all.take(0).len() == 0);
    }
    while stack.len() > 0
        invariant
            contract_program_ids.wf(),
            ids == program_ids_view(*contract_program_ids),
            all == builders@,
            g == genesis_txs@.len(),
            recursion@ == RISC0_RECURSION@,
            all.len() == total,
            stack@.len() + done == all.len(),
            forall|k: int| 0 <= k < stack@.len() ==> stack@[k] == all[all.len() - 1 - k],
            all_registered(ids, all.take(done as int)),
            are_genesis_txs(txs@, ids, genesis_txs@, all.take(done as int)),
        decreases stack.len(),
    {
        match stack.pop() {
            Some(b) => {
                assert(b == all[done as int]);
                let tx = BlobTransaction::new(b.identity, b.blobs);
                let blob_tx_hash = tx.hashed();
                let program_id = match contract_program_ids.get(&recursion) {
                    Some(p) => p.clone(),
                    None => {
                        return Err(GenesisError::UnregisteredContract);
                    },
                };
                let proven = match proven_blobs(contract_program_ids, &blob_tx_hash, b.outputs) {
                    Some(p) => p,
                    None => {
                        proof {
                            let j = choose|j: int|
                                0 <= j < all[done as int].outputs@.len() && !ids.contains_key(
                                    (#[trigger] all[done as int].outputs@[j]).0@,
                                );
                            assert(!ids.contains_key(all[done as int].outputs@[j].0@));
                        }
                        return Err(GenesisError::UnregisteredContract);
                    },
                };
                let zero = hash_bytes(ProofData::default().0.as_slice());
                let ghost before = txs@;
                txs.push(Transaction::Blob(tx));
                txs.push(
                    Transaction::VerifiedProof(
                        VerifiedProofTransaction {
                            contract_name: ContractName::new(RISC0_RECURSION),
                            program_id,
                            verifier: Verifier::new(RISC0_1),
                            proven_blobs: proven,
                            is_recursive: true,
                            proof_hash: ProofDataHash(zero),
                            proof_size: 0,
                            proof: None,
                        },
                    ),
                );
                proof {
                    let upto = all.take(done as int + 1);
                    let prev = all.take(done as int);
                    assert forall|k: int| 0 <= k < g implies (#[trigger] txs@[k])
                        == genesis_txs@[k] by {
                        assert(txs@[k] == before[k]);
                    }
                    assert forall|i: int| 0 <= i < upto.len() implies is_genesis_blob_tx(
                        txs@[g + 2 * i],
                        #[trigger] upto[i],
                    ) && is_genesis_proof(txs@[g + 2 * i + 1], ids, upto[i]) by {
                        if i < done {
                            assert(upto[i] == prev[i]);
                            assert(txs@[g + 2 * i] == before[g + 2 * i]);
                            assert(txs@[g + 2 * i + 1] == before[g + 2 * i + 1]);
                        }
                    }
                    assert forall|i: int, j: int|
                        0 <= i < upto.len() && 0 <= j < upto[i].outputs@.len()
                        implies ids.contains_key((#[trigger] upto[i].outputs@[j]).0@) by {
                        if i < done {
                            assert(upto[i] == prev[i]);
                            assert(ids.contains_key(prev[i].outputs@[j].0@));
                        }
                    }
                }
                done += 1;
            },
            None => {},
        }
    }
    proof {
        assert(all.take(done as int) =~= all);
    }
    Ok(txs)
}

/// Whether `actions` are the candidacies of `validators`, one for each in
/// turn, without an address and without a signature.
pub open spec fn are_candidacies(
    actions: Seq<ConsensusStakingAction>,
    validators: Seq<Seq<u8>>,
) -> bool {
    &&& actions.len() == validators.len()
    &&& forall|i: int|
        0 <= i < actions.len() ==> {
            &&& (#[trigger] actions[i]) matches ConsensusStakingAction::Bond { candidate }
            &&& candidate.msg.peer_address@ == Seq::<char>::empty()
            &&& candidate.signature.signature.0@ == Seq::<u8>::empty()
            &&& candidate.signature.validator@ == validators[i]
        }
}

/// Whether `block` is the first block of `validators` with the transactions
/// `txs`: one data proposal on the lane of the first validator, a signature
/// that names all validators and signs nothing, slot zero, the time of the
/// configuration in milliseconds, no cut, and the candidacy of each validator.
pub open spec fn is_genesis_block(
    block: SignedBlock,
    txs: Seq<Transaction>,
    validators: Seq<Seq<u8>>,
    genesis_timestamp: u64,
) -> bool {
    &&& block.data_proposals@.len() == 1
    &&& block.data_proposals@[0].0.0@ == validators[0]
    &&& block.data_proposals@[0].1@.len() == 1
    &&& block.data_proposals@[0].1@[0].parent_data_proposal_hash is None
    &&& block.data_proposals@[0].1@[0].txs@ == txs
    &&& block.certificate.signature.0@ == utf8("fake"@)
    &&& block.certificate.validators.deep_view() == validators
    &&& block.consensus_proposal.slot == 0
    &&& block.consensus_proposal.timestamp == genesis_timestamp * 1000
    &&& block.consensus_proposal.cut@.len() == 0
    &&& block.consensus_proposal.parent_hash.0@ == "genesis"@
    &&& are_candidacies(block.consensus_proposal.staking_actions@, validators)
}

/// A copy of a list of public keys.
fn copy_keys(keys: &Vec<ValidatorPublicKey>) -> (r: Vec<ValidatorPublicKey>)
    ensures
        r.deep_view() == keys.deep_view(),
{
    let mut out: Vec<ValidatorPublicKey> = Vec::new();
    let mut j: usize = 0;
    while j < keys.len()
        invariant
            j <= keys.len(),
            out.len() == j,
            forall|k: int| 0 <= k < j ==> out[k]@ == keys[k]@,
        decreases keys.len() - j,
    {
        out.push(keys[j].clone());
        j += 1;
    }
    assert(out.deep_view() =~= keys.deep_view());
    out
}

/// The first block, of the validators in their order. There is at least one
/// validator: the first of them leads the round.
pub fn make_genesis_block(
    genesis_txs: Vec<Transaction>,
    initial_validators: Vec<ValidatorPublicKey>,
    genesis_timestamp: u64,
) -> (r: SignedBlock)
    requires
        initial_validators@.len() > 0,
    ensures
        is_genesis_block(r, genesis_txs@, initial_validators.deep_view(), genesis_timestamp),
        r.consensus_proposal.staking_actions@.len() == initial_validators@.len(),
{
    let round_leader = initial_validators[0].clone();
    let dp = DataProposal { parent_data_proposal_hash: None, txs: genesis_txs };
    let mut staking_actions: Vec<ConsensusStakingAction> = Vec::new();
    let ghost validators = initial_validators.deep_view();
    let mut i: usize = 0;
    while i < initial_validators.len()
        invariant
            i <= initial_validators.len(),
            validators == initial_validators.deep_view(),
            are_candidacies(staking_actions@, validators.take(i as int)),
        decreases initial_validators.len() - i,
    {
        let ghost before = staking_actions@;
        staking_actions.push(
            ConsensusStakingAction::Bond {
                candidate: SignedCandidacy {
                    msg: ValidatorCandidacy { peer_address: String::new() },
                    signature: ValidatorSignature {
                        signature: Signature(Vec::new()),
                        validator: initial_validators[i].clone(),
                    },
                },
            },
        );
        proof {
            let upto = validators.take(i as int + 1);
            assert forall|k: int| 0 <= k < staking_actions@.len() implies {
                &&& (#[trigger] staking_actions@[k]) matches ConsensusStakingAction::Bond {
                    candidate,
                }
                &&& candidate.msg.peer_address@ == Seq::<char>::empty()
                &&& candidate.signature.signature.0@ == Seq::<u8>::empty()
                &&& candidate.signature.validator@ == upto[k]
            } by {
                if k < i {
                    assert(staking_actions@[k] == before[k]);
                    assert(upto[k] == validators.take(i as int)[k]);
                }
            }
        }
        i += 1;
    }
    proof {
        assert(validators.take(i as int) =~= validators);
    }
    let mut fake: Vec<u8> = Vec::new();
    fake.extend_from_slice("fake".as_bytes());
    assert(fake@ =~= utf8("fake"@));
    let certificate = AggregateSignature {
        signature: Signature(fake),
        validators: copy_keys(&initial_validators),
    };
    let mut proposals: Vec<DataProposal> = Vec::new();
    proposals.push(dp);
    let mut data_proposals: Vec<(LaneId, Vec<DataProposal>)> = Vec::new();
    data_proposals.push((LaneId(round_leader), proposals));
    let timestamp: u128 = (genesis_timestamp as u128) * 1000;
    SignedBlock {
        data_proposals,
        certificate,
        consensus_proposal: ConsensusProposal {
            slot: 0,
            timestamp,
            cut: Vec::new(),
            staking_actions,
            parent_hash: ConsensusProposalHash("genesis".to_string()),
        },
    }
}

} // verus!
