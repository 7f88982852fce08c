//! What a verifier hands to consensus for one blob of a transaction, and the
//! byte layout in which lists of such outputs travel.

use crate::codec::{
    take_bytes, take_flag, take_text, take_u128, take_u32, take_u64, take_u8, Cursor,
};
use crate::contract::{read_opt_window, take_opt_window, TimeoutWindow};
use crate::model::{
    BlobIndex, BlockHeight, ContractName, Identity, LaneId, ProgramId, StateCommitment, TxHash,
    ValidatorPublicKey, Verifier,
};
use vstd::prelude::*;

verus! {

/// Where in the chain a transaction is executed.
#[derive(Debug, Clone, PartialEq, Eq)]
pub struct TxContext {
    pub lane_id: LaneId,
    pub block_hash: String,
    pub block_height: BlockHeight,
    pub timestamp: u128,
    pub chain_id: u128,
}

/// A context as a mathematical value.
pub struct TxContextView {
    pub lane_id: Seq<u8>,
    pub block_hash: Seq<char>,
    pub block_height: u64,
    pub timestamp: u128,
    pub chain_id: u128,
}

impl View for TxContext {
    type V = TxContextView;

    open spec fn view(&self) -> TxContextView {
        TxContextView {
            lane_id: self.lane_id.0@,
            block_hash: self.block_hash@,
            block_height: self.block_height.0,
            timestamp: self.timestamp,
            chain_id: self.chain_id,
        }
    }
}

/// A context that may be absent, as a mathematical value.
pub open spec fn ctx_view(ctx: Option<TxContext>) -> Option<TxContextView> {
    match ctx {
        Some(c) => Some(c@),
        None => None,
    }
}

/// The registration of a contract, as an effect of a proof.
#[derive(Debug, Clone, PartialEq, Eq)]
pub struct RegisterContractEffect {
    pub verifier: Verifier,
    pub program_id: ProgramId,
    pub state_commitment: StateCommitment,
    pub contract_name: ContractName,
    pub timeout_window: Option<TimeoutWindow>,
}

/// What a proof changes on the chain besides the state of its contract.
#[derive(Debug, Clone, PartialEq, Eq)]
pub enum OnchainEffect {
    RegisterContract(RegisterContractEffect),
    DeleteContract(ContractName),
}

/// An effect as a mathematical value.
pub enum OnchainEffectView {
    RegisterContract {
        verifier: Seq<char>,
        program_id: Seq<u8>,
        state_commitment: Seq<u8>,
        contract_name: Seq<char>,
        timeout_window: Option<TimeoutWindow>,
    },
    DeleteContract(Seq<char>),
}

impl View for OnchainEffect {
    type V = OnchainEffectView;

    open spec fn view(&self) -> OnchainEffectView {
        match self {
            OnchainEffect::RegisterContract(r) => OnchainEffectView::RegisterContract {
                verifier: r.verifier@,
                program_id: r.program_id@,
                state_commitment: r.state_commitment@,
                contract_name: r.contract_name@,
                timeout_window: r.timeout_window,
            },
            OnchainEffect::DeleteContract(name) => OnchainEffectView::DeleteContract(name@),
        }
    }
}

impl DeepView for OnchainEffect {
    type V = OnchainEffectView;

    open spec fn deep_view(&self) -> OnchainEffectView {
        self@
    }
}

/// The result of a verifier for one blob: the state of the contract before
/// and after, whether the blob succeeded, and what it sets off.
#[derive(Debug, Clone, PartialEq, Eq)]
pub struct HyleOutput {
    pub version: u32,
    pub initial_state: StateCommitment,
    pub next_state: StateCommitment,
    pub identity: Identity,
    pub blob_index: BlobIndex,
    pub blobs: Vec<u8>,
    pub success: bool,
    pub tx_hash: TxHash,
    pub tx_ctx: Option<TxContext>,
    pub onchain_effects: Vec<OnchainEffect>,
    pub program_outputs: Vec<u8>,
}

/// An output as a mathematical value.
pub struct HyleOutputView {
    pub version: u32,
    pub initial_state: Seq<u8>,
    pub next_state: Seq<u8>,
    pub identity: Seq<char>,
    pub blob_index: usize,
    pub blobs: Seq<u8>,
    pub success: bool,
    pub tx_hash: Seq<char>,
    pub tx_ctx: Option<TxContextView>,
    pub onchain_effects: Seq<OnchainEffectView>,
    pub program_outputs: Seq<u8>,
}

impl View for HyleOutput {
    type V = HyleOutputView;

    open spec fn view(&self) -> HyleOutputView {
        HyleOutputView {
            version: self.version,
            initial_state: self.initial_state@,
            next_state: self.next_state@,
            identity: self.identity@,
            blob_index: self.blob_index.0,
            blobs: self.blobs@,
            success: self.success,
            tx_hash: self.tx_hash@,
            tx_ctx: ctx_view(self.tx_ctx),
            onchain_effects: self.onchain_effects.deep_view(),
            program_outputs: self.program_outputs@,
        }
    }
}

impl DeepView for HyleOutput {
    type V = HyleOutputView;

    open spec fn deep_view(&self) -> HyleOutputView {
        self@
    }
}

/// The context at the start of `s`: its fields in the order in which they
/// are declared.
pub open spec fn take_ctx(s: Seq<u8>) -> Option<(TxContextView, Seq<u8>)> {
    match take_bytes(s) {
        None => None,
        Some((lane_id, r1)) => match take_text(r1) {
            None => None,
            Some((block_hash, r2)) => match take_u64(r2) {
                None => None,
                Some((block_height, r3)) => match take_u128(r3) {
                    None => None,
                    Some((timestamp, r4)) => match take_u128(r4) {
                        None => None,
                        Some((chain_id, r5)) => Some(
                            (
                                TxContextView {
                                    lane_id,
                                    block_hash,
                                    block_height,
                                    timestamp,
                                    chain_id,
                                },
                                r5,
                            ),
                        ),
                    },
                },
            },
        },
    }
}

/// A context that may be absent: a flag, then the context if it is set.
pub open spec fn take_opt_ctx(s: Seq<u8>) -> Option<(Option<TxContextView>, Seq<u8>)> {
    match take_flag(s) {
        None => None,
        Some((present, rest)) => if present {
            match take_ctx(rest) {
                Some((c, rest2)) => Some((Some(c), rest2)),
                None => None,
            }
        } else {
            Some((None, rest))
        },
    }
}

/// The effect at the start of `s`: a byte that tells the two kinds apart,
/// then the fields.
pub open spec fn take_effect(s: Seq<u8>) -> Option<(OnchainEffectView, Seq<u8>)> {
    match take_u8(s) {
        None => None,
        Some((tag, r0)) => if tag == 0 {
            match take_text(r0) {
                None => None,
                Some((verifier, r1)) => match take_bytes(r1) {
                    None => None,
                    Some((program_id, r2)) => match take_bytes(r2) {
                        None => None,
                        Some((state_commitment, r3)) => match take_text(r3) {
                            None => None,
                            Some((contract_name, r4)) => match take_opt_window(r4) {
                                None => None,
                                Some((timeout_window, r5)) => Some(
                                    (
                                        OnchainEffectView::RegisterContract {
                                            verifier,
                                            program_id,
                                            state_commitment,
                                            contract_name,
                                            timeout_window,
                                        },
                                        r5,
                                    ),
                                ),
                            },
                        },
                    },
                },
            }
        } else if tag == 1 {
            match take_text(r0) {
                Some((name, r1)) => Some((OnchainEffectView::DeleteContract(name), r1)),
                None => None,
            }
        } else {
            None
        },
    }
}

/// `n` effects one after another.
pub open spec fn take_effects(s: Seq<u8>, n: nat) -> Option<(Seq<OnchainEffectView>, Seq<u8>)>
    decreases n,
{
    if n == 0 {
        Some((Seq::empty(), s))
    } else {
        match take_effects(s, (n - 1) as nat) {
            Some((es, rest)) => match take_effect(rest) {
                Some((e, rest2)) => Some((es.push(e), rest2)),
                None => None,
            },
            None => None,
        }
    }
}

/// The effects at the start of `s`, behind their number.
pub open spec fn take_effect_list(s: Seq<u8>) -> Option<(Seq<OnchainEffectView>, Seq<u8>)> {
    match take_u32(s) {
        Some((n, rest)) => take_effects(rest, n as nat),
        None => None,
    }
}

/// The first six fields of an output, and what follows them.
pub open spec fn take_output_head(s: Seq<u8>) -> Option<(HyleOutputView, Seq<u8>)> {
    match take_u32(s) {
        None => None,
        Some((version, r1)) => match take_bytes(r1) {
            None => None,
            Some((initial_state, r2)) => match take_bytes(r2) {
                None => None,
                Some((next_state, r3)) => match take_text(r3) {
                    None => None,
                    Some((identity, r4)) => match take_u64(r4) {
                        None => None,
                        Some((index, r5)) => if index > usize::MAX {
                            None
                        } else {
                            match take_bytes(r5) {
                                None => None,
                                Some((blobs, r6)) => Some(
                                    (
                                        HyleOutputView {
                                            version,
                                            initial_state,
                                            next_state,
                                            identity,
                                            blob_index: index as usize,
                                            blobs,
                                            success: false,
                                            tx_hash: Seq::empty(),
                                            tx_ctx: None,
                                            onchain_effects: Seq::empty(),
                                            program_outputs: Seq::empty(),
                                        },
                                        r6,
                                    ),
                                ),
                            }
                        },
                    },
                },
            },
        },
    }
}

/// The output at the start of `s`: its fields in the order in which they
/// are declared.
pub open spec fn take_output(s: Seq<u8>) -> Option<(HyleOutputView, Seq<u8>)> {
    match take_output_head(s) {
        None => None,
        Some((head, r6)) => match take_flag(r6) {
            None => None,
            Some((success, r7)) => match take_text(r7) {
                None => None,
                Some((tx_hash, r8)) => match take_opt_ctx(r8) {
                    None => None,
                    Some((tx_ctx, r9)) => match take_effect_list(r9) {
                        None => None,
                        Some((onchain_effects, r10)) => match take_bytes(r10) {
                            None => None,
                            Some((program_outputs, r11)) => Some(
                                (
                                    HyleOutputView {
                                        success,
                                        tx_hash,
                                        tx_ctx,
                                        onchain_effects,
                                        program_outputs,
                                        ..head
                                    },
                                    r11,
                                ),
                            ),
                        },
                    },
                },
            },
        },
    }
}

/// `n` outputs one after another.
pub open spec fn take_outputs(s: Seq<u8>, n: nat) -> Option<(Seq<HyleOutputView>, Seq<u8>)>
    decreases n,
{
    if n == 0 {
        Some((Seq::empty(), s))
    } else {
        match take_outputs(s, (n - 1) as nat) {
            Some((os, rest)) => match take_output(rest) {
                Some((o, rest2)) => Some((os.push(o), rest2)),
                None => None,
            },
            None => None,
        }
    }
}

/// The list of outputs that `data` is: the outputs behind their number, and
/// nothing more.
pub open spec fn outputs_in(data: Seq<u8>) -> Option<Seq<HyleOutputView>> {
    match take_u32(data) {
        None => None,
        Some((n, rest)) => match take_outputs(rest, n as nat) {
            Some((os, end)) => if end.len() == 0 {
                Some(os)
            } else {
                None
            },
            None => None,
        },
    }
}

/// Where fewer effects cannot be read, more cannot be read either.
proof fn lemma_take_effects_none(s: Seq<u8>, m: nat, n: nat)
    requires
        m <= n,
        take_effects(s, m) is None,
    ensures
        take_effects(s, n) is None,
    decreases n,
{
    if m < n {
        lemma_take_effects_none(s, m, (n - 1) as nat);
    }
}

/// Where fewer outputs cannot be read, more cannot be read either.
proof fn lemma_take_outputs_none(s: Seq<u8>, m: nat, n: nat)
    requires
        m <= n,
        take_outputs(s, m) is None,
    ensures
        take_outputs(s, n) is None,
    decreases n,
{
    if m < n {
        lemma_take_outputs_none(s, m, (n - 1) as nat);
    }
}

/// Reads a context that may be absent.
fn read_opt_ctx(c: &mut Cursor) -> (r: Option<Option<TxContext>>)
    requires
        old(c).wf(),
    ensures
        final(c).wf(),
        match take_opt_ctx(old(c).rest()) {
            Some((v, rest)) => r is Some && ctx_view(r->Some_0) == v && final(c).rest() == rest,
            None => r is None,
        },
{
    let present = match c.flag() {
        Some(b) => b,
        None => {
            return None;
        },
    };
    if !present {
        return Some(None);
    }
    let lane_id = match c.bytes() {
        Some(v) => v,
        None => {
            return None;
        },
    };
    let block_hash = match c.text() {
        Some(v) => v,
        None => {
            return None;
        },
    };
    let block_height = match c.u64() {
        Some(v) => v,
        None => {
            return None;
        },
    };
    let timestamp = match c.u128() {
        Some(v) => v,
        None => {
            return None;
        },
    };
    let chain_id = match c.u128() {
        Some(v) => v,
        None => {
            return None;
        },
    };
    Some(
        Some(
            TxContext {
                lane_id: LaneId(ValidatorPublicKey(lane_id)),
                block_hash,
                block_height: BlockHeight(block_height),
                timestamp,
                chain_id,
            },
        ),
    )
}

/// Reads an effect.
fn read_effect(c: &mut Cursor) -> (r: Option<OnchainEffect>)
    requires
        old(c).wf(),
    ensures
        final(c).wf(),
        match take_effect(old(c).rest()) {
            Some((v, rest)) => r is Some && r->Some_0@ == v && final(c).rest() == rest,
            None => r is None,
        },
{
    let tag = match c.u8() {
        Some(t) => t,
        None => {
            return None;
        },
    };
    if tag == 0 {
        let verifier = match c.text() {
            Some(v) => v,
            None => {
                return None;
            },
        };
        let program_id = match c.bytes() {
            Some(v) => v,
            None => {
                return None;
            },
        };
        let state_commitment = match c.bytes() {
            Some(v) => v,
            None => {
                return None;
            },
        };
        let contract_name = match c.text() {
            Some(v) => v,
            None => {
                return None;
            },
        };
        let timeout_window = match read_opt_window(c) {
            Some(v) => v,
            None => {
                return None;
            },
        };
        Some(
            OnchainEffect::RegisterContract(
                RegisterContractEffect {
                    verifier: Verifier(verifier),
                    program_id: ProgramId(program_id),
                    state_commitment: StateCommitment(state_commitment),
                    contract_name: ContractName(contract_name),
                    timeout_window,
                },
            ),
        )
    } else if tag == 1 {
        match c.text() {
            Some(name) => Some(OnchainEffect::DeleteContract(ContractName(name))),
            None => None,
        }
    } else {
        None
    }
}

/// Reads effects that stand behind their number.
fn read_effect_list(c: &mut Cursor) -> (r: Option<Vec<OnchainEffect>>)
    requires
        old(c).wf(),
    ensures
        final(c).wf(),
        match take_effect_list(old(c).rest()) {
            Some((v, rest)) => r is Some && r->Some_0.deep_view() == v && final(c).rest() == rest,
            None => r is None,
        },
{
    let n: u32 = match c.u32() {
        Some(n) => n,
        None => {
            return None;
        },
    };
    let ghost start = c.rest();
    let ghost whole = take_effect_list(old(c).rest());
    let mut list: Vec<OnchainEffect> = Vec::new();
    let mut i: u32 = 0;
    assert(list.deep_view() =~= Seq::<OnchainEffectView>::empty());
    while i < n
        invariant
            c.wf(),
            i <= n,
            whole == take_effect_list(old(c).rest()),
            whole == take_effects(start, n as nat),
            take_effects(start, i as nat) == Some((list.deep_view(), c.rest())),
        decreases n - i,
    {
        let ghost before = list.deep_view();
        match read_effect(c) {
            Some(e) => {
                list.push(e);
                proof {
                    assert(list.deep_view() =~= before.push(e@));
                }
            },
            None => {
                proof {
                    assert(take_effects(start, (i + 1) as nat) is None);
                    lemma_take_effects_none(start, (i + 1) as nat, n as nat);
                }
                return None;
            },
        }
        i += 1;
    }
    Some(list)
}

/// Reads an output.
fn read_output(c: &mut Cursor) -> (r: Option<HyleOutput>)
    requires
        old(c).wf(),
    ensures
        final(c).wf(),
        match take_output(old(c).rest()) {
            Some((v, rest)) => r is Some && r->Some_0@ == v && final(c).rest() == rest,
            None => r is None,
        },
{
    let version = match c.u32() {
        Some(v) => v,
        None => {
            return None;
        },
    };
    let initial_state = match c.bytes() {
        Some(v) => v,
        None => {
            return None;
        },
    };
    let next_state = match c.bytes() {
        Some(v) => v,
        None => {
            return None;
        },
    };
    let identity = match c.text() {
        Some(v) => v,
        None => {
            return None;
        },
    };
    let index = match c.u64() {
        Some(v) => v,
        None => {
            return None;
        },
    };
    if index > usize::MAX as u64 {
        return None;
    }
    let blobs = match c.bytes() {
        Some(v) => v,
        None => {
            return None;
        },
    };
    let success = match c.flag() {
        Some(v) => v,
        None => {
            return None;
        },
    };
    let tx_hash = match c.text() {
        Some(v) => v,
        None => {
            return None;
        },
    };
    let tx_ctx = match read_opt_ctx(c) {
        Some(v) => v,
        None => {
            return None;
        },
    };
    let onchain_effects = match read_effect_list(c) {
        Some(v) => v,
        None => {
            return None;
        },
    };
    let program_outputs = match c.bytes() {
        Some(v) => v,
        None => {
            return None;
        },
    };
    Some(
        HyleOutput {
            version,
            initial_state: StateCommitment(initial_state),
            next_state: StateCommitment(next_state),
            identity: Identity(identity),
            blob_index: BlobIndex(index as usize),
            blobs,
            success,
            tx_hash: TxHash(tx_hash),
            tx_ctx,
            onchain_effects,
            program_outputs,
        },
    )
}

/// The list of outputs that `data` carries.
pub fn decode_outputs(data: &[u8]) -> (r: Option<Vec<HyleOutput>>)
    ensures
        match outputs_in(data@) {
            Some(v) => r is Some && r->Some_0.deep_view() == v,
            None => r is None,
        },
{
    let mut c = Cursor::new(data);
    let n: u32 = match c.u32() {
        Some(n) => n,
        None => {
            return None;
        },
    };
    let ghost start = c.rest();
    let mut list: Vec<HyleOutput> = Vec::new();
    let mut i: u32 = 0;
    assert(list.deep_view() =~= Seq::<HyleOutputView>::empty());
    while i < n
        invariant
            c.wf(),
            i <= n,
            take_u32(data@) == Some((n, start)),
            take_outputs(start, i as nat) == Some((list.deep_view(), c.rest())),
        decreases n - i,
    {
        let ghost before = list.deep_view();
        match read_output(&mut c) {
            Some(o) => {
                list.push(o);
                proof {
                    assert(list.deep_view() =~= before.push(o@));
                }
            },
            None => {
                proof {
                    assert(take_outputs(start, (i + 1) as nat) is None);
                    lemma_take_outputs_none(start, (i + 1) as nat, n as nat);
                }
                return None;
            },
        }
        i += 1;
    }
    if c.done() {
        Some(list)
    } else {
        None
    }
}

} // verus!
