//! The privileged `hyle` contract: it registers contracts, deletes them, and
//! gives them another program or another timeout window.

use crate::assoc::AssocMap;
use crate::contract::{
    decode_delete, decode_program_update, decode_register, decode_window_update,
    default_timeout_window, delete_in, lemma_registration_is_nothing_else, opt_bytes_view,
    program_update_in, register_in, window_update_in, Contract, ContractView, DeleteContractAction, RegisterContractAction,
    RegisterView, TimeoutWindow, UpdateContractProgramIdAction, UpdateContractTimeoutWindowAction,
};
use crate::model::{Blob, BlobTransaction, BlobView, ContractName};
use crate::text::chars_of;
use crate::verifiers::{program_id_ok, validate_program_id};
use vstd::prelude::*;

verus! {

/// The only identity that may delete or update a contract.
pub const HYLI_TLD_ID: &'static str = "hyli@wallet";

/// The name of the privileged contract.
pub const HYLE: &'static str = "hyle";

/// The largest number of bytes that the commitment to the state of a
/// contract may have: ten mebibytes.
pub const MAX_STATE_COMMITMENT_SIZE: usize = 10485760;

/// Why a blob for the `hyle` contract is refused.
#[derive(Debug, Clone, Copy, PartialEq, Eq)]
pub enum TldError {
    /// The blob carries none of the four actions.
    InvalidBlob,
    /// The name is neither a new top-level name nor a direct subdomain of `hyle`.
    InvalidContractName,
    /// The program identifier is not one of the verifier.
    InvalidProgramId,
    /// The state commitment is larger than a commitment may be.
    StateCommitmentTooLarge,
    /// The contract exists, or the transaction has proposed it before.
    ContractAlreadyRegistered,
    /// `hyle` itself cannot be deleted.
    CannotDeleteHyle,
    /// `hyle` itself cannot be updated.
    CannotUpdateHyle,
    /// There is no contract of that name to delete.
    ContractNotRegistered,
    /// There is no contract of that name to update.
    ContractNotFound,
    /// Only `hyli@wallet` may delete or update.
    UnauthorizedTldAction,
    /// A blob for `hyle` that carries none of the four actions.
    UnsupportedAction,
}

/// What the transaction makes of a contract.
#[derive(Debug, PartialEq, Eq)]
pub enum ContractStatus {
    Updated(Contract),
    Deleted,
}

/// The status of a contract as a mathematical value.
pub enum StatusView {
    Updated(ContractView),
    Deleted,
}

impl View for ContractStatus {
    type V = StatusView;

    open spec fn view(&self) -> StatusView {
        match self {
            ContractStatus::Updated(c) => StatusView::Updated(c@),
            ContractStatus::Deleted => StatusView::Deleted,
        }
    }
}

impl Clone for ContractStatus {
    fn clone(&self) -> (r: Self)
        ensures
            r@ == self@,
    {
        match self {
            ContractStatus::Updated(c) => ContractStatus::Updated(c.clone()),
            ContractStatus::Deleted => ContractStatus::Deleted,
        }
    }
}

/// Which fields of a contract the transaction has changed.
#[derive(Debug, Clone, Copy, PartialEq, Eq)]
pub struct ModifiedContractFields {
    pub program_id: bool,
    pub state: bool,
    pub verifier: bool,
    pub timeout_window: bool,
}

impl ModifiedContractFields {
    /// Every field.
    pub fn all() -> (r: Self)
        ensures
            r == all_fields(),
    {
        ModifiedContractFields { program_id: true, state: true, verifier: true, timeout_window: true }
    }
}

impl Default for ModifiedContractFields {
    fn default() -> (r: Self)
        ensures
            r == no_fields(),
    {
        ModifiedContractFields {
            program_id: false,
            state: false,
            verifier: false,
            timeout_window: false,
        }
    }
}

/// Every field.
pub open spec fn all_fields() -> ModifiedContractFields {
    ModifiedContractFields { program_id: true, state: true, verifier: true, timeout_window: true }
}

/// No field.
pub open spec fn no_fields() -> ModifiedContractFields {
    ModifiedContractFields { program_id: false, state: false, verifier: false, timeout_window: false }
}

/// What a change of the registry sets off.
#[derive(Debug, PartialEq, Eq)]
pub enum SideEffect {
    Register(Option<Vec<u8>>),
    UpdateState,
    UpdateProgramId,
    UpdateTimeoutWindow,
    Delete,
}

/// A side effect as a mathematical value.
pub enum SideEffectView {
    Register(Option<Seq<u8>>),
    UpdateState,
    UpdateProgramId,
    UpdateTimeoutWindow,
    Delete,
}

impl View for SideEffect {
    type V = SideEffectView;

    open spec fn view(&self) -> SideEffectView {
        match self {
            SideEffect::Register(m) => SideEffectView::Register(opt_bytes_view(*m)),
            SideEffect::UpdateState => SideEffectView::UpdateState,
            SideEffect::UpdateProgramId => SideEffectView::UpdateProgramId,
            SideEffect::UpdateTimeoutWindow => SideEffectView::UpdateTimeoutWindow,
            SideEffect::Delete => SideEffectView::Delete,
        }
    }
}

impl DeepView for SideEffect {
    type V = SideEffectView;

    open spec fn deep_view(&self) -> SideEffectView {
        self@
    }
}

impl Clone for SideEffect {
    fn clone(&self) -> (r: Self)
        ensures
            r@ == self@,
    {
        match self {
            SideEffect::Register(m) => SideEffect::Register(
                match m {
                    Some(b) => Some(b.clone()),
                    None => None,
                },
            ),
            SideEffect::UpdateState => SideEffect::UpdateState,
            SideEffect::UpdateProgramId => SideEffect::UpdateProgramId,
            SideEffect::UpdateTimeoutWindow => SideEffect::UpdateTimeoutWindow,
            SideEffect::Delete => SideEffect::Delete,
        }
    }
}

/// What a transaction has changed of one contract so far: its status, the
/// fields that changed, and what the change sets off.
pub type ModifiedContractData = (ContractStatus, ModifiedContractFields, Vec<SideEffect>);

/// A change as a mathematical value.
pub struct ChangeView {
    pub status: StatusView,
    pub fields: ModifiedContractFields,
    pub effects: Seq<SideEffectView>,
}

/// A change as a mathematical value.
pub open spec fn change_view(c: ModifiedContractData) -> ChangeView {
    ChangeView { status: c.0@, fields: c.1, effects: c.2.deep_view() }
}

/// The contracts that exist.
pub type Contracts = AssocMap<ContractName, Contract>;

/// The changes that a transaction has made so far.
pub type ContractChanges = AssocMap<ContractName, ModifiedContractData>;

/// The contracts that exist, by name.
pub open spec fn contracts_view(m: Contracts) -> Map<Seq<char>, ContractView> {
    m@.map_values(|c: Contract| c@)
}

/// The changes of a transaction, by the name of the contract.
pub open spec fn changes_view(m: ContractChanges) -> Map<Seq<char>, ChangeView> {
    m@.map_values(|c: ModifiedContractData| change_view(c))
}

/// The suffix of a direct subdomain of `hyle`.
pub open spec fn dot_hyle() -> Seq<char> {
    seq!['.', 'h', 'y', 'l', 'e']
}

/// Whether `name` can be registered: it is not empty, and either holds no
/// dot, or ends in `.hyle` behind a label that is not empty and holds no dot.
pub open spec fn valid_contract_name(name: Seq<char>) -> bool {
    &&& name.len() > 0
    &&& (name.contains('.') ==> {
        &&& name.len() > 5
        &&& name.subrange(name.len() - 5, name.len() as int) == dot_hyle()
        &&& !name.subrange(0, name.len() - 5).contains('.')
    })
}

/// Whether a dot is among the first `upto` characters.
fn has_dot(chars: &Vec<char>, upto: usize) -> (r: bool)
    requires
        upto <= chars.len(),
    ensures
        r == chars@.subrange(0, upto as int).contains('.'),
{
    let mut i: usize = 0;
    while i < upto
        invariant
            i <= upto,
            upto <= chars.len(),
            forall|k: int| 0 <= k < i ==> chars@[k] != '.',
        decreases upto - i,
    {
        if chars[i] == '.' {
            assert(chars@.subrange(0, upto as int)[i as int] == '.');
            return true;
        }
        i += 1;
    }
    false
}

/// Checks that `name` can be registered.
pub fn validate_contract_name(name: &ContractName) -> (r: bool)
    ensures
        r == valid_contract_name(name@),
{
    let chars = chars_of(name.0.as_str());
    let n: usize = chars.len();
    if n == 0 {
        return false;
    }
    proof {
        assert(chars@.subrange(0, n as int) =~= chars@);
    }
    if !has_dot(&chars, n) {
        return true;
    }
    if n <= 5 {
        return false;
    }
    let ends = chars[n - 5] == '.' && chars[n - 4] == 'h' && chars[n - 3] == 'y' && chars[n - 2]
        == 'l' && chars[n - 1] == 'e';
    proof {
        let tail = chars@.subrange(n - 5, n as int);
        if ends {
            assert(tail =~= dot_hyle());
        } else {
            assert(tail[0] == chars@[n - 5]);
            assert(tail[1] == chars@[n - 4]);
            assert(tail[2] == chars@[n - 3]);
            assert(tail[3] == chars@[n - 2]);
            assert(tail[4] == chars@[n - 1]);
        }
    }
    ends && !has_dot(&chars, n - 5)
}

/// The contract that a transaction sees under `name`: the one it has updated,
/// else the one that exists.
pub open spec fn contract_in(
    contracts: Map<Seq<char>, ContractView>,
    changes: Map<Seq<char>, ChangeView>,
    name: Seq<char>,
) -> Option<ContractView> {
    if changes.contains_key(name) && changes[name].status is Updated {
        Some(changes[name].status->Updated_0)
    } else if contracts.contains_key(name) {
        Some(contracts[name])
    } else {
        None
    }
}

/// The changes after a registration, or why it is refused.
pub open spec fn registered(
    contracts: Map<Seq<char>, ContractView>,
    changes: Map<Seq<char>, ChangeView>,
    reg: RegisterView,
) -> Result<Map<Seq<char>, ChangeView>, TldError> {
    if !valid_contract_name(reg.contract_name) {
        Err(TldError::InvalidContractName)
    } else if !program_id_ok(reg.verifier, reg.program_id) {
        Err(TldError::InvalidProgramId)
    } else if reg.state_commitment.len() > MAX_STATE_COMMITMENT_SIZE {
        Err(TldError::StateCommitmentTooLarge)
    } else if contracts.contains_key(reg.contract_name) || changes.contains_key(
        reg.contract_name,
    ) {
        Err(TldError::ContractAlreadyRegistered)
    } else {
        Ok(
            changes.insert(
                reg.contract_name,
                ChangeView {
                    status: StatusView::Updated(
                        ContractView {
                            name: reg.contract_name,
                            program_id: reg.program_id,
                            state: reg.state_commitment,
                            verifier: reg.verifier,
                            timeout_window: match reg.timeout_window {
                                Some(w) => w,
                                None => default_timeout_window(),
                            },
                        },
                    ),
                    fields: all_fields(),
                    effects: seq![SideEffectView::Register(reg.constructor_metadata)],
                },
            ),
        )
    }
}

/// The changes after a deletion, or why it is refused.
pub open spec fn deleted(
    contracts: Map<Seq<char>, ContractView>,
    changes: Map<Seq<char>, ChangeView>,
    name: Seq<char>,
) -> Result<Map<Seq<char>, ChangeView>, TldError> {
    if name == HYLE@ {
        Err(TldError::CannotDeleteHyle)
    } else if contracts.contains_key(name) || changes.contains_key(name) {
        Ok(
            changes.insert(
                name,
                ChangeView {
                    status: StatusView::Deleted,
                    fields: all_fields(),
                    effects: seq![SideEffectView::Delete],
                },
            ),
        )
    } else {
        Err(TldError::ContractNotRegistered)
    }
}

/// The changes after a contract was given another program, or why that is refused.
pub open spec fn program_updated(
    contracts: Map<Seq<char>, ContractView>,
    changes: Map<Seq<char>, ChangeView>,
    name: Seq<char>,
    program_id: Seq<u8>,
) -> Result<Map<Seq<char>, ChangeView>, TldError> {
    if name == HYLE@ {
        Err(TldError::CannotUpdateHyle)
    } else {
        match contract_in(contracts, changes, name) {
            None => Err(TldError::ContractNotFound),
            Some(current) => Ok(
                changes.insert(
                    name,
                    if changes.contains_key(name) {
                        let before = changes[name];
                        ChangeView {
                            status: match before.status {
                                StatusView::Updated(c) => StatusView::Updated(
                                    ContractView { program_id, ..c },
                                ),
                                StatusView::Deleted => StatusView::Deleted,
                            },
                            fields: ModifiedContractFields { program_id: true, ..before.fields },
                            effects: before.effects.push(SideEffectView::UpdateProgramId),
                        }
                    } else {
                        ChangeView {
                            status: StatusView::Updated(ContractView { program_id, ..current }),
                            fields: ModifiedContractFields { program_id: true, ..no_fields() },
                            effects: seq![SideEffectView::UpdateProgramId],
                        }
                    },
                ),
            ),
        }
    }
}

/// The changes after a contract was given another timeout window, or why that
/// is refused.
pub open spec fn window_updated(
    contracts: Map<Seq<char>, ContractView>,
    changes: Map<Seq<char>, ChangeView>,
    name: Seq<char>,
    timeout_window: TimeoutWindow,
) -> Result<Map<Seq<char>, ChangeView>, TldError> {
    if name == HYLE@ {
        Err(TldError::CannotUpdateHyle)
    } else {
        match contract_in(contracts, changes, name) {
            None => Err(TldError::ContractNotFound),
            Some(current) => Ok(
                changes.insert(
                    name,
                    if changes.contains_key(name) {
                        let before = changes[name];
                        ChangeView {
                            status: match before.status {
                                StatusView::Updated(c) => StatusView::Updated(
                                    ContractView { timeout_window, ..c },
                                ),
                                StatusView::Deleted => StatusView::Deleted,
                            },
                            fields: ModifiedContractFields {
                                timeout_window: true,
                                ..before.fields
                            },
                            effects: before.effects.push(SideEffectView::UpdateTimeoutWindow),
                        }
                    } else {
                        ChangeView {
                            status: StatusView::Updated(
                                ContractView { timeout_window, ..current },
                            ),
                            fields: ModifiedContractFields { timeout_window: true, ..no_fields() },
                            effects: seq![SideEffectView::UpdateTimeoutWindow],
                        }
                    },
                ),
            ),
        }
    }
}

/// The changes after the action that `data` carries: the first of
/// registration, deletion, change of program and change of timeout window that
/// the data can be read as.
pub open spec fn tld_blob_applied(
    contracts: Map<Seq<char>, ContractView>,
    changes: Map<Seq<char>, ChangeView>,
    data: Seq<u8>,
) -> Result<Map<Seq<char>, ChangeView>, TldError> {
    if register_in(data) is Some {
        registered(contracts, changes, register_in(data)->Some_0)
    } else if delete_in(data) is Some {
        deleted(contracts, changes, delete_in(data)->Some_0)
    } else if program_update_in(data) is Some {
        program_updated(
            contracts,
            changes,
            program_update_in(data)->Some_0.0,
            program_update_in(data)->Some_0.1,
        )
    } else if window_update_in(data) is Some {
        window_updated(
            contracts,
            changes,
            window_update_in(data)->Some_0.0,
            window_update_in(data)->Some_0.1,
        )
    } else {
        Err(TldError::InvalidBlob)
    }
}

/// Whether a handler ended as the model says: with the new changes on
/// success, with the reason and the changes as they were on failure.
pub open spec fn handled(
    r: Result<(), TldError>,
    before: Map<Seq<char>, ChangeView>,
    after: Map<Seq<char>, ChangeView>,
    expected: Result<Map<Seq<char>, ChangeView>, TldError>,
) -> bool {
    match expected {
        Ok(m) => r is Ok && after == m,
        Err(e) => r == Err::<(), TldError>(e) && after == before,
    }
}

/// A contract is registered once: after a registration, a transaction
/// cannot register another contract of that name.
pub proof fn lemma_no_second_registration(
    contracts: Map<Seq<char>, ContractView>,
    changes: Map<Seq<char>, ChangeView>,
    first: RegisterView,
    second: RegisterView,
)
    requires
        registered(contracts, changes, first) is Ok,
        second.contract_name == first.contract_name,
        program_id_ok(second.verifier, second.program_id),
        second.state_commitment.len() <= MAX_STATE_COMMITMENT_SIZE,
    ensures
        registered(contracts, registered(contracts, changes, first)->Ok_0, second) == Err::<
            Map<Seq<char>, ChangeView>,
            TldError,
        >(TldError::ContractAlreadyRegistered),
{
}

/// A contract that exists cannot be registered again, `hyle` no more than
/// another: a registration that is sound in itself is refused because the
/// contract exists.
pub proof fn lemma_no_registration_of_existing(
    contracts: Map<Seq<char>, ContractView>,
    changes: Map<Seq<char>, ChangeView>,
    reg: RegisterView,
)
    requires
        contracts.contains_key(reg.contract_name),
    ensures
        registered(contracts, changes, reg) is Err,
        valid_contract_name(reg.contract_name) && program_id_ok(reg.verifier, reg.program_id)
            && reg.state_commitment.len() <= MAX_STATE_COMMITMENT_SIZE ==> registered(
            contracts,
            changes,
            reg,
        ) == Err::<Map<Seq<char>, ChangeView>, TldError>(TldError::ContractAlreadyRegistered),
{
}

/// The contract `hyle` can be neither deleted nor updated, whatever exists
/// and whatever the transaction has changed.
pub proof fn lemma_hyle_is_protected(
    contracts: Map<Seq<char>, ContractView>,
    changes: Map<Seq<char>, ChangeView>,
    program_id: Seq<u8>,
    timeout_window: TimeoutWindow,
)
    ensures
        deleted(contracts, changes, HYLE@) == Err::<Map<Seq<char>, ChangeView>, TldError>(
            TldError::CannotDeleteHyle,
        ),
        program_updated(contracts, changes, HYLE@, program_id) == Err::<
            Map<Seq<char>, ChangeView>,
            TldError,
        >(TldError::CannotUpdateHyle),
        window_updated(contracts, changes, HYLE@, timeout_window) == Err::<
            Map<Seq<char>, ChangeView>,
            TldError,
        >(TldError::CannotUpdateHyle),
{
}

/// Only `hyli@wallet` may send a blob that deletes or updates a contract.
pub proof fn lemma_privileged_needs_wallet(identity: Seq<char>, blob: BlobView)
    requires
        blob.contract_name == HYLE@,
        privileged(blob.data),
    ensures
        blob_allowed(identity, blob) is Ok <==> identity == HYLI_TLD_ID@,
        identity != HYLI_TLD_ID@ ==> blob_allowed(identity, blob) == Err::<(), TldError>(
            TldError::UnauthorizedTldAction,
        ),
{
}

/// A transaction whose blobs are all allowed, and whose sender is not
/// `hyli@wallet`, holds no blob that deletes or updates a contract: each of its
/// blobs for `hyle` is a registration, as which the handler takes it.
pub proof fn lemma_strangers_only_register(identity: Seq<char>, blobs: Seq<BlobView>, i: int)
    requires
        first_refusal(identity, blobs) is Ok,
        identity != HYLI_TLD_ID@,
        0 <= i < blobs.len(),
        blobs[i].contract_name == HYLE@,
    ensures
        !privileged(blobs[i].data),
        register_in(blobs[i].data) is Some,
    decreases blobs.len(),
{
    if i > 0 {
        let rest = blobs.drop_first();
        assert(rest[i - 1] == blobs[i]);
        lemma_strangers_only_register(identity, rest, i - 1);
    }
}

/// The handler and the check on senders agree on what a registration is: a
/// blob that the handler takes as a registration is open to every sender.
pub proof fn lemma_registration_is_open(identity: Seq<char>, blob: BlobView)
    requires
        register_in(blob.data) is Some,
    ensures
        blob_allowed(identity, blob) is Ok,
{
    lemma_registration_is_nothing_else(blob.data);
}

/// A copy of a list of side effects.
fn copy_effects(list: &Vec<SideEffect>) -> (r: Vec<SideEffect>)
    ensures
        r.deep_view() == list.deep_view(),
{
    let mut out: Vec<SideEffect> = Vec::new();
    let mut j: usize = 0;
    while j < list.len()
        invariant
            j <= list.len(),
            out.len() == j,
            forall|k: int| 0 <= k < j ==> out[k]@ == list[k]@,
        decreases list.len() - j,
    {
        out.push(list[j].clone());
        j += 1;
    }
    assert(out.deep_view() =~= list.deep_view());
    out
}

/// The contract that a transaction sees under `name`.
pub fn get_contract(contracts: &Contracts, contract_changes: &ContractChanges, name: &ContractName) -> (r:
    Option<Contract>)
    requires
        contracts.wf(),
        contract_changes.wf(),
    ensures
        match contract_in(contracts_view(*contracts), changes_view(*contract_changes), name@) {
            Some(c) => r is Some && r->Some_0@ == c,
            None => r is None,
        },
{
    match contract_changes.get(name) {
        Some(change) => {
            match &change.0 {
                ContractStatus::Updated(c) => {
                    return Some(c.clone());
                },
                ContractStatus::Deleted => {},
            }
        },
        None => {},
    }
    match contracts.get(name) {
        Some(c) => Some(c.clone()),
        None => None,
    }
}

/// Registers a contract, unless its name, its program, the size of its state
/// commitment or a contract of that name stands in the way.
pub fn handle_register_blob(
    contracts: &Contracts,
    contract_changes: &mut ContractChanges,
    reg: &RegisterContractAction,
) -> (r: Result<(), TldError>)
    requires
        contracts.wf(),
        old(contract_changes).wf(),
    ensures
        final(contract_changes).wf(),
        handled(
            r,
            changes_view(*old(contract_changes)),
            changes_view(*final(contract_changes)),
            registered(contracts_view(*contracts), changes_view(*old(contract_changes)), reg@),
        ),
{
    if !validate_contract_name(&reg.contract_name) {
        return Err(TldError::InvalidContractName);
    }
    if validate_program_id(&reg.verifier, &reg.program_id).is_err() {
        return Err(TldError::InvalidProgramId);
    }
    if reg.state_commitment.0.len() > MAX_STATE_COMMITMENT_SIZE {
        return Err(TldError::StateCommitmentTooLarge);
    }
    if contracts.contains_key(&reg.contract_name) || contract_changes.contains_key(
        &reg.contract_name,
    ) {
        return Err(TldError::ContractAlreadyRegistered);
    }
    let metadata: Option<Vec<u8>> = match &reg.constructor_metadata {
        Some(b) => Some(b.clone()),
        None => None,
    };
    let mut effects: Vec<SideEffect> = Vec::new();
    effects.push(SideEffect::Register(metadata));
    let change: ModifiedContractData = (
        ContractStatus::Updated(
            Contract {
                name: reg.contract_name.clone(),
                program_id: reg.program_id.clone(),
                state: reg.state_commitment.clone(),
                verifier: reg.verifier.clone(),
                timeout_window: match reg.timeout_window {
                    Some(w) => w,
                    None => TimeoutWindow::default(),
                },
            },
        ),
        ModifiedContractFields::all(),
        effects,
    );
    proof {
        assert(change.2.deep_view() =~= seq![SideEffectView::Register(reg@.constructor_metadata)]);
    }
    contract_changes.insert(reg.contract_name.clone(), change);
    proof {
        assert(changes_view(*contract_changes) =~= changes_view(*old(contract_changes)).insert(
            reg@.contract_name,
            change_view(change),
        ));
    }
    Ok(())
}

/// Deletes a contract, unless it is `hyle` or does not exist.
pub fn handle_delete_blob(
    contracts: &Contracts,
    contract_changes: &mut ContractChanges,
    delete: &DeleteContractAction,
) -> (r: Result<(), TldError>)
    requires
        contracts.wf(),
        old(contract_changes).wf(),
    ensures
        final(contract_changes).wf(),
        handled(
            r,
            changes_view(*old(contract_changes)),
            changes_view(*final(contract_changes)),
            deleted(
                contracts_view(*contracts),
                changes_view(*old(contract_changes)),
                delete.contract_name@,
            ),
        ),
{
    if delete.contract_name.is(HYLE) {
        return Err(TldError::CannotDeleteHyle);
    }
    if contracts.contains_key(&delete.contract_name) || contract_changes.contains_key(
        &delete.contract_name,
    ) {
        let mut effects: Vec<SideEffect> = Vec::new();
        effects.push(SideEffect::Delete);
        let change: ModifiedContractData = (
            ContractStatus::Deleted,
            ModifiedContractFields::all(),
            effects,
        );
        proof {
            assert(change.2.deep_view() =~= seq![SideEffectView::Delete]);
        }
        contract_changes.insert(delete.contract_name.clone(), change);
        proof {
            assert(changes_view(*contract_changes) =~= changes_view(*old(contract_changes)).insert(
                delete.contract_name@,
                change_view(change),
            ));
        }
        Ok(())
    } else {
        Err(TldError::ContractNotRegistered)
    }
}

/// Gives a contract another program, unless it is `hyle` or does not exist.
pub fn handle_update_program_id_blob(
    contracts: &Contracts,
    contract_changes: &mut ContractChanges,
    update: &UpdateContractProgramIdAction,
) -> (r: Result<(), TldError>)
    requires
        contracts.wf(),
        old(contract_changes).wf(),
    ensures
        final(contract_changes).wf(),
        handled(
            r,
            changes_view(*old(contract_changes)),
            changes_view(*final(contract_changes)),
            program_updated(
                contracts_view(*contracts),
                changes_view(*old(contract_changes)),
                update.contract_name@,
                update.program_id@,
            ),
        ),
{
    if update.contract_name.is(HYLE) {
        return Err(TldError::CannotUpdateHyle);
    }
    let current = match get_contract(contracts, contract_changes, &update.contract_name) {
        Some(c) => c,
        None => {
            return Err(TldError::ContractNotFound);
        },
    };
    let change: ModifiedContractData = match contract_changes.get(&update.contract_name) {
        Some(before) => {
            let status = match &before.0 {
                ContractStatus::Updated(c) => {
                    let mut c2 = c.clone();
                    c2.program_id = update.program_id.clone();
                    ContractStatus::Updated(c2)
                },
                ContractStatus::Deleted => ContractStatus::Deleted,
            };
            let mut fields = before.1;
            fields.program_id = true;
            let mut effects = copy_effects(&before.2);
            effects.push(SideEffect::UpdateProgramId);
            proof {
                assert(effects.deep_view() =~= before.2.deep_view().push(
                    SideEffectView::UpdateProgramId,
                ));
            }
            (status, fields, effects)
        },
        None => {
            let mut c2 = current;
            c2.program_id = update.program_id.clone();
            let mut fields = ModifiedContractFields::default();
            fields.program_id = true;
            let mut effects: Vec<SideEffect> = Vec::new();
            effects.push(SideEffect::UpdateProgramId);
            proof {
                assert(effects.deep_view() =~= seq![SideEffectView::UpdateProgramId]);
            }
            (ContractStatus::Updated(c2), fields, effects)
        },
    };
    contract_changes.insert(update.contract_name.clone(), change);
    proof {
        assert(changes_view(*contract_changes) =~= changes_view(*old(contract_changes)).insert(
            update.contract_name@,
            change_view(change),
        ));
    }
    Ok(())
}

/// Gives a contract another timeout window, unless it is `hyle` or does not exist.
pub fn handle_update_timeout_window_blob(
    contracts: &Contracts,
    contract_changes: &mut ContractChanges,
    update: &UpdateContractTimeoutWindowAction,
) -> (r: Result<(), TldError>)
    requires
        contracts.wf(),
        old(contract_changes).wf(),
    ensures
        final(contract_changes).wf(),
        handled(
            r,
            changes_view(*old(contract_changes)),
            changes_view(*final(contract_changes)),
            window_updated(
                contracts_view(*contracts),
                changes_view(*old(contract_changes)),
                update.contract_name@,
                update.timeout_window,
            ),
        ),
{
    if update.contract_name.is(HYLE) {
        return Err(TldError::CannotUpdateHyle);
    }
    let current = match get_contract(contracts, contract_changes, &update.contract_name) {
        Some(c) => c,
        None => {
            return Err(TldError::ContractNotFound);
        },
    };
    let change: ModifiedContractData = match contract_changes.get(&update.contract_name) {
        Some(before) => {
            let status = match &before.0 {
                ContractStatus::Updated(c) => {
                    let mut c2 = c.clone();
                    c2.timeout_window = update.timeout_window;
                    ContractStatus::Updated(c2)
                },
                ContractStatus::Deleted => ContractStatus::Deleted,
            };
            let mut fields = before.1;
            fields.timeout_window = true;
            let mut effects = copy_effects(&before.2);
            effects.push(SideEffect::UpdateTimeoutWindow);
            proof {
                assert(effects.deep_view() =~= before.2.deep_view().push(
                    SideEffectView::UpdateTimeoutWindow,
                ));
            }
            (status, fields, effects)
        },
        None => {
            let mut c2 = current;
            c2.timeout_window = update.timeout_window;
            let mut fields = ModifiedContractFields::default();
            fields.timeout_window = true;
            let mut effects: Vec<SideEffect> = Vec::new();
            effects.push(SideEffect::UpdateTimeoutWindow);
            proof {
                assert(effects.deep_view() =~= seq![SideEffectView::UpdateTimeoutWindow]);
            }
            (ContractStatus::Updated(c2), fields, effects)
        },
    };
    contract_changes.insert(update.contract_name.clone(), change);
    proof {
        assert(changes_view(*contract_changes) =~= changes_view(*old(contract_changes)).insert(
            update.contract_name@,
            change_view(change),
        ));
    }
    Ok(())
}

/// Applies the action that a blob for `hyle` carries to the changes of its
/// transaction.
pub fn handle_blob_for_hyle_tld(
    contracts: &Contracts,
    contract_changes: &mut ContractChanges,
    current_blob: &Blob,
) -> (r: Result<(), TldError>)
    requires
        contracts.wf(),
        old(contract_changes).wf(),
    ensures
        final(contract_changes).wf(),
        handled(
            r,
            changes_view(*old(contract_changes)),
            changes_view(*final(contract_changes)),
            tld_blob_applied(
                contracts_view(*contracts),
                changes_view(*old(contract_changes)),
                current_blob.data@,
            ),
        ),
{
    let data = current_blob.data.0.as_slice();
    if let Some(reg) = decode_register(data) {
        handle_register_blob(contracts, contract_changes, &reg)
    } else if let Some(delete) = decode_delete(data) {
        handle_delete_blob(contracts, contract_changes, &delete)
    } else if let Some(update) = decode_program_update(data) {
        handle_update_program_id_blob(contracts, contract_changes, &update)
    } else if let Some(update) = decode_window_update(data) {
        handle_update_timeout_window_blob(contracts, contract_changes, &update)
    } else {
        Err(TldError::InvalidBlob)
    }
}

/// Whether `data` carries an action that only `hyli@wallet` may ask for.
pub open spec fn privileged(data: Seq<u8>) -> bool {
    program_update_in(data) is Some || delete_in(data) is Some || window_update_in(data) is Some
}

/// Whether `identity` may send the blob: a blob for another contract passes;
/// one for `hyle` must carry one of the four actions, and any of them but a
/// registration only from `hyli@wallet`.
pub open spec fn blob_allowed(identity: Seq<char>, blob: BlobView) -> Result<(), TldError> {
    if blob.contract_name != HYLE@ {
        Ok(())
    } else if privileged(blob.data) {
        if identity == HYLI_TLD_ID@ {
            Ok(())
        } else {
            Err(TldError::UnauthorizedTldAction)
        }
    } else if register_in(blob.data) is Some {
        Ok(())
    } else {
        Err(TldError::UnsupportedAction)
    }
}

/// Why the first blob that `identity` may not send is refused, if there is one.
pub open spec fn first_refusal(identity: Seq<char>, blobs: Seq<BlobView>) -> Result<(), TldError>
    decreases blobs.len(),
{
    if blobs.len() == 0 {
        Ok(())
    } else {
        match blob_allowed(identity, blobs[0]) {
            Ok(_) => first_refusal(identity, blobs.drop_first()),
            Err(e) => Err(e),
        }
    }
}

/// Checks that the sender of a transaction may send each of its blobs for `hyle`.
pub fn validate_hyle_contract_blobs(tx: &BlobTransaction) -> (r: Result<(), TldError>)
    ensures
        r == first_refusal(tx@.identity, tx@.blobs),
{
    let ghost all = tx@.blobs;
    let mut i: usize = 0;
    proof {
        assert(all.skip(0) =~= all);
    }
    while i < tx.blobs.len()
        invariant
            i <= tx.blobs.len(),
            all == tx@.blobs,
            first_refusal(tx@.identity, all) == first_refusal(tx@.identity, all.skip(i as int)),
        decreases tx.blobs.len() - i,
    {
        proof {
            assert(all.skip(i as int).drop_first() =~= all.skip(i as int + 1));
            assert(all.skip(i as int)[0] == tx.blobs@[i as int]@);
        }
        let blob = &tx.blobs[i];
        if blob.contract_name.is(HYLE) {
            let data = blob.data.0.as_slice();
            if decode_program_update(data).is_some() || decode_delete(data).is_some()
                || decode_window_update(data).is_some() {
                if !tx.identity.is(HYLI_TLD_ID) {
                    return Err(TldError::UnauthorizedTldAction);
                }
            } else if decode_register(data).is_some() {
            } else {
                return Err(TldError::UnsupportedAction);
            }
        }
        i += 1;
    }
    proof {
        assert(all.skip(i as int).len() == 0);
    }
    Ok(())
}

} // verus!
