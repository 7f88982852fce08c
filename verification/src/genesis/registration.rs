//! The transaction that registers the contracts of the first block.

use crate::contract::{
    encode_register, lemma_register_round_trip, register_blob, register_fits, register_in,
    RegisterContractAction, RegisterView, TimeoutWindow,
};
use crate::genesis::block::{program_ids_view, GenesisError, ProgramIds, Transaction, RISC0_RECURSION};
use crate::genesis::plan::{HYDENTITY, HYLLAR, STAKING};
use crate::model::{
    Blob, BlobData, BlobTransaction, BlobView, ContractName, Identity, ProgramId, StateCommitment,
    Verifier,
};
use crate::text::utf8;
use crate::tld::HYLE;
use crate::verifiers::{NativeVerifiers, RISC0_1};
use vstd::prelude::*;

verus! {

/// The identity that registers the contracts of the first block.
pub const GENESIS_REGISTRAR: &'static str = "hyle@hyle";

/// The programs of the contracts that the first block registers for the
/// RISC Zero verifier.
#[derive(Debug, PartialEq, Eq)]
pub struct GenesisPrograms {
    pub staking: ProgramId,
    pub hyllar: ProgramId,
    pub smt_token: ProgramId,
    pub hydentity: ProgramId,
    pub risc0_recursion: ProgramId,
}

/// The states in which the contracts of the first block start.
#[derive(Debug, PartialEq, Eq)]
pub struct GenesisStates {
    pub staking: StateCommitment,
    pub hyllar: StateCommitment,
    pub smt_token: StateCommitment,
    pub hydentity: StateCommitment,
}

/// The registration of `hyle` itself, or of the contract of a native
/// verifier: under its own name as verifier, without state and without timeout.
pub open spec fn native_registration(name: Seq<char>, program_id: Seq<u8>) -> RegisterView {
    RegisterView {
        verifier: name,
        program_id,
        state_commitment: Seq::empty(),
        contract_name: name,
        timeout_window: Some(TimeoutWindow::NoTimeout),
        constructor_metadata: None,
    }
}

/// The registration of a contract that is proved with RISC Zero: with the
/// timeout window of contracts that name none.
pub open spec fn zk_registration(name: Seq<char>, program_id: Seq<u8>, state: Seq<u8>) -> RegisterView {
    RegisterView {
        verifier: RISC0_1@,
        program_id,
        state_commitment: state,
        contract_name: name,
        timeout_window: None,
        constructor_metadata: None,
    }
}

/// The program of `hyle` itself.
pub open spec fn hyle_program_id() -> Seq<u8> {
    seq![0u8, 0u8, 0u8, 0u8]
}

/// The registrations of the first block, in their order.
pub open spec fn genesis_registrations(programs: GenesisPrograms, states: GenesisStates) -> Seq<
    RegisterView,
> {
    seq![
        native_registration(HYLE@, hyle_program_id()),
        native_registration("blst"@, utf8("blst"@)),
        native_registration("sha3_256"@, utf8("sha3_256"@)),
        native_registration("secp256k1"@, utf8("secp256k1"@)),
        zk_registration(STAKING@, programs.staking@, states.staking@),
        zk_registration(HYLLAR@, programs.hyllar@, states.hyllar@),
        zk_registration("oranj"@, programs.smt_token@, states.smt_token@),
        zk_registration("oxygen"@, programs.smt_token@, states.smt_token@),
        zk_registration("vitamin"@, programs.smt_token@, states.smt_token@),
        zk_registration(HYDENTITY@, programs.hydentity@, states.hydentity@),
        zk_registration(RISC0_RECURSION@, programs.risc0_recursion@, Seq::empty()),
    ]
}

/// The programs of the contracts of the first block, by the name of the contract.
pub open spec fn genesis_program_ids(programs: GenesisPrograms) -> Map<Seq<char>, Seq<u8>> {
    Map::<Seq<char>, Seq<u8>>::empty().insert(HYLE@, hyle_program_id()).insert(
        "blst"@,
        utf8("blst"@),
    ).insert("sha3_256"@, utf8("sha3_256"@)).insert("secp256k1"@, utf8("secp256k1"@)).insert(
        HYLLAR@,
        programs.hyllar@,
    ).insert("oranj"@, programs.smt_token@).insert("oxygen"@, programs.smt_token@).insert(
        "vitamin"@,
        programs.smt_token@,
    ).insert(HYDENTITY@, programs.hydentity@).insert(STAKING@, programs.staking@).insert(
        RISC0_RECURSION@,
        programs.risc0_recursion@,
    )
}

/// Whether the programs and states are short enough for the layout of blobs.
pub open spec fn genesis_fits(programs: GenesisPrograms, states: GenesisStates) -> bool {
    forall|i: int|
        0 <= i < genesis_registrations(programs, states).len() ==> register_fits(
            #[trigger] genesis_registrations(programs, states)[i],
        )
}

/// The blobs that carry `registrations` to `hyle`.
pub open spec fn registration_blobs(registrations: Seq<RegisterView>) -> Seq<BlobView> {
    Seq::new(
        registrations.len(),
        |i: int| BlobView { contract_name: HYLE@, data: register_blob(registrations[i]) },
    )
}

/// Each blob of the registration of the first block is read as the
/// registration that it was made of.
pub proof fn lemma_genesis_registrations_read_back(
    programs: GenesisPrograms,
    states: GenesisStates,
    i: int,
)
    requires
        genesis_fits(programs, states),
        0 <= i < genesis_registrations(programs, states).len(),
    ensures
        registration_blobs(genesis_registrations(programs, states))[i].contract_name == HYLE@,
        register_in(registration_blobs(genesis_registrations(programs, states))[i].data) == Some(
            genesis_registrations(programs, states)[i],
        ),
{
    lemma_register_round_trip(genesis_registrations(programs, states)[i]);
}

/// Adds to `blobs` the blob that asks `hyle` to register a contract. Adds
/// nothing, and says so, where a field is too long for the layout.
pub fn register_hyle_contract(
    blobs: &mut Vec<Blob>,
    new_contract_name: ContractName,
    verifier: Verifier,
    program_id: ProgramId,
    state_commitment: StateCommitment,
    timeout_window: Option<TimeoutWindow>,
    constructor_metadata: Option<Vec<u8>>,
) -> (ok: bool)
    ensures
        ({
            let action = RegisterContractAction {
                verifier,
                program_id,
                state_commitment,
                contract_name: new_contract_name,
                timeout_window,
                constructor_metadata,
            };
            &&& ok == register_fits(action@)
            &&& ok ==> final(blobs).deep_view() == old(blobs).deep_view().push(
                BlobView { contract_name: HYLE@, data: register_blob(action@) },
            )
            &&& !ok ==> final(blobs).deep_view() == old(blobs).deep_view()
        }),
{
    let action = RegisterContractAction {
        verifier,
        program_id,
        state_commitment,
        contract_name: new_contract_name,
        timeout_window,
        constructor_metadata,
    };
    match encode_register(&action) {
        Some(data) => {
            blobs.push(Blob { contract_name: ContractName::new(HYLE), data: BlobData(data) });
            assert(blobs.deep_view() =~= old(blobs).deep_view().push(
                BlobView { contract_name: HYLE@, data: register_blob(action@) },
            ));
            true
        },
        None => false,
    }
}

/// The programs of the contracts of the first block.
fn program_ids(programs: &GenesisPrograms) -> (r: ProgramIds)
    ensures
        r.wf(),
        program_ids_view(r) == genesis_program_ids(*programs),
{
    let mut map: ProgramIds = ProgramIds::new();
    let mut zeros: Vec<u8> = Vec::new();
    zeros.push(0u8);
    zeros.push(0u8);
    zeros.push(0u8);
    zeros.push(0u8);
    assert(zeros@ =~= hyle_program_id());
    map.insert(ContractName::new(HYLE), ProgramId(zeros));
    map.insert(ContractName::new("blst"), NativeVerifiers::Blst.program_id());
    map.insert(ContractName::new("sha3_256"), NativeVerifiers::Sha3_256.program_id());
    map.insert(ContractName::new("secp256k1"), NativeVerifiers::Secp256k1.program_id());
    map.insert(ContractName::new(HYLLAR), programs.hyllar.clone());
    map.insert(ContractName::new("oranj"), programs.smt_token.clone());
    map.insert(ContractName::new("oxygen"), programs.smt_token.clone());
    map.insert(ContractName::new("vitamin"), programs.smt_token.clone());
    map.insert(ContractName::new(HYDENTITY), programs.hydentity.clone());
    map.insert(ContractName::new(STAKING), programs.staking.clone());
    map.insert(ContractName::new(RISC0_RECURSION), programs.risc0_recursion.clone());
    assert(program_ids_view(map) =~= genesis_program_ids(*programs));
    map
}

/// The programs of the contracts of the first block, and the transaction
/// that registers them: `hyle` itself, the contracts of the three native
/// verifiers, then staking, the staking token, the three other tokens, the
/// contract of identities and the contract of recursive proofs. Fails where a
/// program or a state is too long for the layout of blobs.
pub fn genesis_contracts_txs(programs: &GenesisPrograms, states: &GenesisStates) -> (r: Result<
    (ProgramIds, Vec<Transaction>),
    GenesisError,
>)
    ensures
        r is Ok == genesis_fits(*programs, *states),
        r matches Ok((ids, txs)) ==> {
            &&& ids.wf()
            &&& program_ids_view(ids) == genesis_program_ids(*programs)
            &&& txs@.len() == 1
            &&& txs@[0] matches Transaction::Blob(tx)
            &&& tx.identity@ == GENESIS_REGISTRAR@
            &&& tx.blobs.deep_view() == registration_blobs(genesis_registrations(*programs, *states))
        },
        r matches Err(e) ==> e == GenesisError::FieldTooLong,
{
    let ghost regs = genesis_registrations(*programs, *states);
    let mut blobs: Vec<Blob> = Vec::new();
    let mut zeros: Vec<u8> = Vec::new();
    zeros.push(0u8);
    zeros.push(0u8);
    zeros.push(0u8);
    zeros.push(0u8);
    assert(zeros@ =~= hyle_program_id());
    if !register_hyle_contract(
        &mut blobs,
        ContractName::new(HYLE),
        Verifier::new(HYLE),
        ProgramId(zeros),
        StateCommitment::default(),
        Some(TimeoutWindow::NoTimeout),
        None,
    ) {
        assert(!register_fits(regs[0]));
        return Err(GenesisError::FieldTooLong);
    }
    if !register_hyle_contract(
        &mut blobs,
        ContractName::new("blst"),
        Verifier::new("blst"),
        NativeVerifiers::Blst.program_id(),
        StateCommitment::default(),
        Some(TimeoutWindow::NoTimeout),
        None,
    ) {
        assert(!register_fits(regs[1]));
        return Err(GenesisError::FieldTooLong);
    }
    if !register_hyle_contract(
        &mut blobs,
        ContractName::new("sha3_256"),
        Verifier::new("sha3_256"),
        NativeVerifiers::Sha3_256.program_id(),
        StateCommitment::default(),
        Some(TimeoutWindow::NoTimeout),
        None,
    ) {
        assert(!register_fits(regs[2]));
        return Err(GenesisError::FieldTooLong);
    }
    if !register_hyle_contract(
        &mut blobs,
        ContractName::new("secp256k1"),
        Verifier::new("secp256k1"),
        NativeVerifiers::Secp256k1.program_id(),
        StateCommitment::default(),
        Some(TimeoutWindow::NoTimeout),
        None,
    ) {
        assert(!register_fits(regs[3]));
        return Err(GenesisError::FieldTooLong);
    }
    if !register_hyle_contract(
        &mut blobs,
        ContractName::new(STAKING),
        Verifier::new(RISC0_1),
        programs.staking.clone(),
        states.staking.clone(),
        None,
        None,
    ) {
        assert(!register_fits(regs[4]));
        return Err(GenesisError::FieldTooLong);
    }
    if !register_hyle_contract(
        &mut blobs,
        ContractName::new(HYLLAR),
        Verifier::new(RISC0_1),
        programs.hyllar.clone(),
        states.hyllar.clone(),
        None,
        None,
    ) {
        assert(!register_fits(regs[5]));
        return Err(GenesisError::FieldTooLong);
    }
    if !register_hyle_contract(
        &mut blobs,
        ContractName::new("oranj"),
        Verifier::new(RISC0_1),
        programs.smt_token.clone(),
        states.smt_token.clone(),
        None,
        None,
    ) {
        assert(!register_fits(regs[6]));
        return Err(GenesisError::FieldTooLong);
    }
    if !register_hyle_contract(
        &mut blobs,
        ContractName::new("oxygen"),
        Verifier::new(RISC0_1),
        programs.smt_token.clone(),
        states.smt_token.clone(),
        None,
        None,
    ) {
        assert(!register_fits(regs[7]));
        return Err(GenesisError::FieldTooLong);
    }
    if !register_hyle_contract(
        &mut blobs,
        ContractName::new("vitamin"),
        Verifier::new(RISC0_1),
        programs.smt_token.clone(),
        states.smt_token.clone(),
        None,
        None,
    ) {
        assert(!register_fits(regs[8]));
        return Err(GenesisError::FieldTooLong);
    }
    if !register_hyle_contract(
        &mut blobs,
        ContractName::new(HYDENTITY),
        Verifier::new(RISC0_1),
        programs.hydentity.clone(),
        states.hydentity.clone(),
        None,
        None,
    ) {
        assert(!register_fits(regs[9]));
        return Err(GenesisError::FieldTooLong);
    }
    if !register_hyle_contract(
        &mut blobs,
        ContractName::new(RISC0_RECURSION),
        Verifier::new(RISC0_1),
        programs.risc0_recursion.clone(),
        StateCommitment::default(),
        None,
        None,
    ) {
        assert(!register_fits(regs[10]));
        return Err(GenesisError::FieldTooLong);
    }
    proof {
        assert(blobs.deep_view() =~= registration_blobs(regs));
        assert forall|i: int| 0 <= i < regs.len() implies register_fits(#[trigger] regs[i]) by {
            if i == 0 {
            } else if i == 1 {
            } else if i == 2 {
            } else if i == 3 {
            } else if i == 4 {
            } else if i == 5 {
            } else if i == 6 {
            } else if i == 7 {
            } else if i == 8 {
            } else if i == 9 {
            } else {
            }
        }
    }
    let tx = BlobTransaction::new(Identity::new(GENESIS_REGISTRAR), blobs);
    let mut txs: Vec<Transaction> = Vec::new();
    txs.push(Transaction::Blob(tx));
    Ok((program_ids(programs), txs))
}

} // verus!
