//! What a contract does with its input inside its verifier: it reads the
//! blob that is meant for it, checks who calls it, and makes its output.

use crate::codec::Cursor;
use crate::contract::{
    decode_delete, decode_program_update, decode_register, decode_window_update,
    delete_in, program_update_in, read_links, register_in, take_links, window_update_in, BlobLinks,
    DeleteContractAction, LinksView, RegisterContractAction, UpdateContractProgramIdAction,
    UpdateContractTimeoutWindowAction,
};
use crate::model::{
    flat, flatten_blobs, Blob, BlobIndex, BlobView, ContractName, Identity, StateCommitment, TxHash,
};
use crate::output::{
    ctx_view, HyleOutput, HyleOutputView, OnchainEffect, OnchainEffectView, TxContext,
};
use crate::text::utf8;
use vstd::prelude::*;
use vstd::string::StringSliceAdditionalSpecFns;

verus! {

/// A state of a contract, of which a digest stands on the chain.
pub trait Digestable {
    /// The digest of the state.
    spec fn digest(&self) -> Seq<u8>;

    /// The digest of the state.
    fn as_digest(&self) -> (r: StateCommitment)
        ensures
            r@ == self.digest(),
    ;
}

impl Digestable for StateCommitment {
    open spec fn digest(&self) -> Seq<u8> {
        self@
    }

    fn as_digest(&self) -> (r: StateCommitment) {
        self.clone()
    }
}

/// The verifier of RISC Zero as the place in which a contract runs.
#[derive(Debug, Clone, Copy, PartialEq, Eq)]
pub struct Risc0Env;

/// The verifier of SP1 as the place in which a contract runs.
#[derive(Debug, Clone, Copy, PartialEq, Eq)]
pub struct SP1Env;

/// What a contract is given to execute one blob of a transaction.
#[derive(Debug, PartialEq, Eq)]
pub struct ContractInput {
    pub state: Vec<u8>,
    pub identity: Identity,
    pub index: BlobIndex,
    pub blobs: Vec<Blob>,
    pub tx_hash: TxHash,
    pub tx_ctx: Option<TxContext>,
    pub private_input: Vec<u8>,
}

/// What a contract made of a blob: what it has to say, its next state and
/// what it sets off; or why it failed.
pub type RunResult<State> = Result<(String, State, Vec<OnchainEffect>), String>;

/// The output of a contract for the blob of `input`, from the state with the
/// digest `initial`.
pub open spec fn output_view(
    input: ContractInput,
    initial: Seq<u8>,
    next: Seq<u8>,
    success: bool,
    effects: Seq<OnchainEffectView>,
    program_outputs: Seq<u8>,
) -> HyleOutputView {
    HyleOutputView {
        version: 1,
        initial_state: initial,
        next_state: next,
        identity: input.identity@,
        blob_index: input.index.0,
        blobs: flat(input.blobs.deep_view()),
        success,
        tx_hash: input.tx_hash@,
        tx_ctx: ctx_view(input.tx_ctx),
        onchain_effects: effects,
        program_outputs,
    }
}

/// The output of a contract that failed: the state stays as it was, nothing
/// is set off, and the message says why.
pub fn fail<State: Digestable>(input: ContractInput, initial_state: State, message: &str) -> (r:
    HyleOutput)
    ensures
        r@ == output_view(
            input,
            initial_state.digest(),
            initial_state.digest(),
            false,
            Seq::empty(),
            utf8(message@),
        ),
{
    let digest = initial_state.as_digest();
    let mut program_outputs: Vec<u8> = Vec::new();
    program_outputs.extend_from_slice(message.as_bytes());
    assert(program_outputs@ =~= utf8(message@));
    let out = HyleOutput {
        version: 1,
        initial_state: digest.clone(),
        next_state: digest,
        identity: input.identity,
        blob_index: input.index,
        blobs: flatten_blobs(input.blobs.as_slice()),
        success: false,
        tx_hash: input.tx_hash,
        tx_ctx: input.tx_ctx,
        onchain_effects: Vec::new(),
        program_outputs,
    };
    assert(out.onchain_effects.deep_view() =~= Seq::<OnchainEffectView>::empty());
    out
}

/// The output of a contract, given what it made of its blob. What the
/// contract had to say and what it sets off move into the output.
pub fn as_hyle_output<State: Digestable>(
    initial_state: State,
    contract_input: ContractInput,
    res: &mut RunResult<State>,
) -> (r: HyleOutput)
    ensures
        match *old(res) {
            Ok((said, next, effects)) => {
                &&& r@ == output_view(
                    contract_input,
                    initial_state.digest(),
                    next.digest(),
                    true,
                    effects.deep_view(),
                    utf8(said@),
                )
                &&& *final(res) matches Ok((left, state, none))
                &&& left@.len() == 0
                &&& state == next
                &&& none@.len() == 0
            },
            Err(message) => r@ == output_view(
                contract_input,
                initial_state.digest(),
                initial_state.digest(),
                false,
                Seq::empty(),
                utf8(message@),
            ) && *final(res) == *old(res),
        },
{
    let mut taken: RunResult<State> = Err(String::new());
    core::mem::swap(res, &mut taken);
    match taken {
        Ok((said, next, effects)) => {
            let mut program_outputs: Vec<u8> = Vec::new();
            program_outputs.extend_from_slice(said.as_str().as_bytes());
            assert(program_outputs@ =~= utf8(said@));
            let out = HyleOutput {
                version: 1,
                initial_state: initial_state.as_digest(),
                next_state: next.as_digest(),
                identity: contract_input.identity,
                blob_index: contract_input.index,
                blobs: flatten_blobs(contract_input.blobs.as_slice()),
                success: true,
                tx_hash: contract_input.tx_hash,
                tx_ctx: contract_input.tx_ctx,
                onchain_effects: effects,
                program_outputs,
            };
            *res = Ok((String::new(), next, Vec::new()));
            out
        },
        Err(message) => {
            let out = fail(contract_input, initial_state, message.as_str());
            *res = Err(message);
            out
        },
    }
}

/// The links of a blob that starts with links.
pub open spec fn links_of(blob: BlobView) -> LinksView {
    take_links(blob.data)->Some_0.0
}

/// Whether each of the first `k` of `callees` names the blob at `index` as
/// its caller.
pub open spec fn agree_before(
    blobs: Seq<BlobView>,
    index: usize,
    callees: Seq<usize>,
    k: int,
) -> bool {
    forall|j: int|
        0 <= j < k && j < callees.len() ==> links_of(blobs[(#[trigger] callees[j]) as int]).caller
            == Some(index)
}

/// Whether the callees can be read as far as they are looked at: each of
/// them, up to the first that does not name the blob at `index` as its caller,
/// is a blob of the transaction that starts with links. What stands behind
/// that first one is not looked at.
pub open spec fn callees_readable(blobs: Seq<BlobView>, index: usize, callees: Seq<usize>) -> bool {
    forall|k: int|
        0 <= k < callees.len() && #[trigger] agree_before(blobs, index, callees, k) ==> callees[k]
            < blobs.len() && take_links(blobs[callees[k] as int].data) is Some
}

/// Whether each of `callees` names the blob at `index` as its caller.
pub open spec fn callees_agree(blobs: Seq<BlobView>, index: usize, callees: Seq<usize>) -> bool {
    forall|k: int|
        0 <= k < callees.len() ==> links_of(blobs[(#[trigger] callees[k]) as int]).caller == Some(
            index,
        )
}

/// Whether the blobs that the links of the blob at `index` name can be read
/// as far as they are looked at: the callees up to the first that disagrees,
/// and the caller where no callee disagrees. Such a blob is a blob of the
/// transaction, and starts with links itself.
pub open spec fn links_readable(blobs: Seq<BlobView>, index: usize, links: LinksView) -> bool {
    &&& links.callees matches Some(callees) ==> callees_readable(blobs, index, callees)
    &&& links.caller matches Some(c) ==> (links.callees is None || callees_agree(
        blobs,
        index,
        links.callees->Some_0,
    )) ==> c < blobs.len() && take_links(blobs[c as int].data) is Some
}

/// In whose name the blob at `index` acts: every blob that it calls must name
/// it as its caller; a blob that is called acts in the name of the contract
/// of its caller, which must name it among its callees if it names callees
/// at all; a blob that nobody calls acts in the name of the sender.
pub open spec fn caller_of(
    identity: Seq<char>,
    index: usize,
    blobs: Seq<BlobView>,
    links: LinksView,
) -> Result<Seq<char>, Seq<char>> {
    if links.callees is Some && !callees_agree(blobs, index, links.callees->Some_0) {
        Err("One Callee does not have this blob as caller"@)
    } else {
        match links.caller {
            Some(c) => {
                let theirs = links_of(blobs[c as int]);
                if theirs.callees is Some && !theirs.callees->Some_0.contains(index) {
                    Err("Incorrect Caller for this blob"@)
                } else {
                    Ok(blobs[c as int].contract_name)
                }
            },
            None => Ok(identity),
        }
    }
}

/// The links of a blob that starts with links.
fn blob_links(blob: &Blob) -> (r: BlobLinks)
    requires
        take_links(blob.data@) is Some,
    ensures
        r@ == links_of(blob@),
{
    let mut c = Cursor::new(blob.data.0.as_slice());
    match read_links(&mut c) {
        Some(l) => l,
        None => BlobLinks { caller: None, callees: None },
    }
}

/// Finds in whose name the blob of `input` acts, given the links of that
/// blob. The blobs that the links name can be read, as far as they are looked
/// at: the callees up to the first that disagrees, and the caller where no
/// callee disagrees.
pub fn check_caller_callees(input: &ContractInput, links: &BlobLinks) -> (r: Result<
    Identity,
    String,
>)
    requires
        links_readable(input.blobs.deep_view(), input.index.0, links@),
    ensures
        match caller_of(input.identity@, input.index.0, input.blobs.deep_view(), links@) {
            Ok(name) => r is Ok && r->Ok_0@ == name,
            Err(why) => r is Err && r->Err_0@ == why,
        },
{
    let ghost blobs = input.blobs.deep_view();
    match &links.callees {
        Some(callees) => {
            let ghost list = links@.callees->Some_0;
            let mut k: usize = 0;
            while k < callees.len()
                invariant
                    k <= callees.len(),
                    blobs == input.blobs.deep_view(),
                    list == Seq::new(callees@.len(), |i: int| callees@[i].0),
                    links@.callees == Some(list),
                    callees_readable(blobs, input.index.0, list),
                    forall|j: int|
                        0 <= j < k ==> links_of(blobs[(#[trigger] list[j]) as int]).caller == Some(
                            input.index.0,
                        ),
                decreases callees.len() - k,
            {
                assert(list[k as int] == callees@[k as int].0);
                assert(agree_before(blobs, input.index.0, list, k as int));
                assert(blobs[list[k as int] as int] == input.blobs@[callees@[k as int].0 as int]@);
                let theirs = blob_links(&input.blobs[callees[k].0]);
                let agrees = match theirs.caller {
                    Some(c) => c.0 == input.index.0,
                    None => false,
                };
                if !agrees {
                    assert(links_of(blobs[list[k as int] as int]).caller != Some(input.index.0));
                    return Err("One Callee does not have this blob as caller".to_string());
                }
                k += 1;
            }
        },
        None => {},
    }
    match links.caller {
        Some(c) => {
            assert(blobs[c.0 as int] == input.blobs@[c.0 as int]@);
            let caller_blob = &input.blobs[c.0];
            let theirs = blob_links(caller_blob);
            match &theirs.callees {
                Some(named) => {
                    let ghost list = theirs@.callees->Some_0;
                    let mut found = false;
                    let mut k: usize = 0;
                    while k < named.len()
                        invariant
                            k <= named.len(),
                            list == Seq::new(named@.len(), |i: int| named@[i].0),
                            found == list.take(k as int).contains(input.index.0),
                        decreases named.len() - k,
                    {
                        if named[k].0 == input.index.0 {
                            found = true;
                            assert(list.take(k as int + 1)[k as int] == input.index.0);
                        } else {
                            proof {
                                let now = list.take(k as int + 1);
                                let before = list.take(k as int);
                                if now.contains(input.index.0) {
                                    let j = choose|j: int|
                                        0 <= j < now.len() && now[j] == input.index.0;
                                    assert(before[j] == input.index.0);
                                }
                                if before.contains(input.index.0) {
                                    let j = choose|j: int|
                                        0 <= j < before.len() && before[j] == input.index.0;
                                    assert(now[j] == input.index.0);
                                }
                            }
                        }
                        k += 1;
                    }
                    proof {
                        assert(list.take(k as int) =~= list);
                    }
                    if !found {
                        return Err("Incorrect Caller for this blob".to_string());
                    }
                },
                None => {},
            }
            Ok(Identity(caller_blob.contract_name.0.clone()))
        },
        None => Ok(input.identity.clone()),
    }
}

/// What a blob can carry for a contract: a value that is read from the data
/// of the blob.
pub trait BlobParameters: Sized {
    /// Whether `data` holds such a value, and nothing more.
    spec fn readable(data: Seq<u8>) -> bool;

    /// Whether `self` is the value that `data` holds.
    spec fn read_from(&self, data: Seq<u8>) -> bool;

    /// The value that `data` holds.
    fn read(data: &[u8]) -> (r: Option<Self>)
        ensures
            r is Some == Self::readable(data@),
            r matches Some(v) ==> v.read_from(data@),
    ;
}

impl BlobParameters for RegisterContractAction {
    open spec fn readable(data: Seq<u8>) -> bool {
        register_in(data) is Some
    }

    open spec fn read_from(&self, data: Seq<u8>) -> bool {
        register_in(data) == Some(self@)
    }

    fn read(data: &[u8]) -> (r: Option<Self>) {
        decode_register(data)
    }
}

impl BlobParameters for DeleteContractAction {
    open spec fn readable(data: Seq<u8>) -> bool {
        delete_in(data) is Some
    }

    open spec fn read_from(&self, data: Seq<u8>) -> bool {
        delete_in(data) == Some(self.contract_name@)
    }

    fn read(data: &[u8]) -> (r: Option<Self>) {
        decode_delete(data)
    }
}

impl BlobParameters for UpdateContractProgramIdAction {
    open spec fn readable(data: Seq<u8>) -> bool {
        program_update_in(data) is Some
    }

    open spec fn read_from(&self, data: Seq<u8>) -> bool {
        program_update_in(data) == Some((self.contract_name@, self.program_id@))
    }

    fn read(data: &[u8]) -> (r: Option<Self>) {
        decode_program_update(data)
    }
}

impl BlobParameters for UpdateContractTimeoutWindowAction {
    open spec fn readable(data: Seq<u8>) -> bool {
        window_update_in(data) is Some
    }

    open spec fn read_from(&self, data: Seq<u8>) -> bool {
        window_update_in(data) == Some((self.contract_name@, self.timeout_window))
    }

    fn read(data: &[u8]) -> (r: Option<Self>) {
        decode_window_update(data)
    }
}

/// What the blob at `index` carries, if there is such a blob and it can be read.
pub fn parse_blob<Parameters: BlobParameters>(blobs: &[Blob], index: &BlobIndex) -> (r: Option<
    Parameters,
>)
    ensures
        r is Some == (index.0 < blobs@.len() && Parameters::readable(
            blobs@[index.0 as int].data@,
        )),
        r matches Some(v) ==> v.read_from(blobs@[index.0 as int].data@),
{
    if index.0 >= blobs.len() {
        return None;
    }
    Parameters::read(blobs[index.0].data.0.as_slice())
}

/// A blob with what it carries, and its links.
#[derive(Debug, PartialEq, Eq)]
pub struct StructuredBlob<Parameters> {
    pub contract_name: ContractName,
    pub links: BlobLinks,
    pub parameters: Parameters,
}

/// The blob at `index` with what it carries, if there is such a blob. A blob
/// that is there can be read.
pub fn parse_structured_blob<Parameters: BlobParameters>(blobs: &[Blob], index: &BlobIndex) -> (r:
    Option<StructuredBlob<Parameters>>)
    requires
        index.0 < blobs@.len() ==> Parameters::readable(blobs@[index.0 as int].data@) && take_links(
            blobs@[index.0 as int].data@,
        ) is Some,
    ensures
        r is Some == (index.0 < blobs@.len()),
        r matches Some(b) ==> b.contract_name@ == blobs@[index.0 as int].contract_name@
            && b.links@ == links_of(blobs@[index.0 as int]@) && b.parameters.read_from(
            blobs@[index.0 as int].data@,
        ),
{
    if index.0 >= blobs.len() {
        return None;
    }
    let blob = &blobs[index.0];
    let links = blob_links(blob);
    match Parameters::read(blob.data.0.as_slice()) {
        Some(parameters) => Some(
            StructuredBlob { contract_name: blob.contract_name.clone(), links, parameters },
        ),
        None => None,
    }
}

/// The input of a contract with what its blob carries, if that can be read.
pub fn init_raw<Parameters: BlobParameters>(input: ContractInput) -> (r: (
    ContractInput,
    Option<Parameters>,
))
    ensures
        r.0 == input,
        r.1 is Some == (input.index.0 < input.blobs@.len() && Parameters::readable(
            input.blobs@[input.index.0 as int].data@,
        )),
        r.1 matches Some(v) ==> v.read_from(input.blobs@[input.index.0 as int].data@),
{
    let parsed = parse_blob::<Parameters>(input.blobs.as_slice(), &input.index);
    (input, parsed)
}

/// The input of a contract with the blob that is meant for it and the
/// identity in whose name the blob acts. Fails where the input names no blob
/// of the transaction, or where callers and callees do not agree. The blob of
/// the input can be read, and so can the blobs that it names, as far as they
/// are looked at.
pub fn init_with_caller<Parameters: BlobParameters>(input: ContractInput) -> (r: Result<
    (ContractInput, StructuredBlob<Parameters>, Identity),
    String,
>)
    requires
        input.index.0 < input.blobs@.len() ==> {
            &&& Parameters::readable(input.blobs@[input.index.0 as int].data@)
            &&& take_links(input.blobs@[input.index.0 as int].data@) is Some
            &&& links_readable(
                input.blobs.deep_view(),
                input.index.0,
                links_of(input.blobs@[input.index.0 as int]@),
            )
        },
    ensures
        input.index.0 >= input.blobs@.len() ==> r is Err && r->Err_0@
            == "Failed to parse input blob"@,
        input.index.0 < input.blobs@.len() ==> match caller_of(
            input.identity@,
            input.index.0,
            input.blobs.deep_view(),
            links_of(input.blobs@[input.index.0 as int]@),
        ) {
            Ok(name) => r matches Ok((same, blob, caller)) && same == input && caller@ == name
                && blob.links@ == links_of(input.blobs@[input.index.0 as int]@)
                && blob.parameters.read_from(input.blobs@[input.index.0 as int].data@),
            Err(why) => r is Err && r->Err_0@ == why,
        },
{
    let parsed = match parse_structured_blob::<Parameters>(input.blobs.as_slice(), &input.index) {
        Some(b) => b,
        None => {
            return Err("Failed to parse input blob".to_string());
        },
    };
    let caller = match check_caller_callees(&input, &parsed.links) {
        Ok(c) => c,
        Err(e) => {
            return Err(e);
        },
    };
    Ok((input, parsed, caller))
}

} // verus!
