//! Contracts as the registry records them, the actions that change the
//! registry, and how a blob carries such an action.

use crate::codec::{
    enc_bytes, enc_flag, enc_text, enc_u64, lemma_take_bytes, lemma_take_flag, lemma_take_text,
    lemma_take_u64, lemma_take_u8, put_bytes, put_flag, put_text, put_u64, put_u8, take_bytes,
    take_flag, take_text, take_u32, take_u64, take_u8, Cursor,
};
use crate::model::{
    BlobIndex, BlockHeight, ContractName, ProgramId, StateCommitment, Verifier,
};
use crate::text::utf8;
use vstd::prelude::*;

verus! {

/// For how many blocks a transaction on a contract may wait for its proofs.
#[derive(Debug, Clone, Copy, PartialEq, Eq)]
pub enum TimeoutWindow {
    NoTimeout,
    Timeout(BlockHeight),
}

impl Default for TimeoutWindow {
    fn default() -> (r: Self)
        ensures
            r == default_timeout_window(),
    {
        TimeoutWindow::Timeout(BlockHeight(100))
    }
}

/// The window of a contract that names none: a hundred blocks.
pub open spec fn default_timeout_window() -> TimeoutWindow {
    TimeoutWindow::Timeout(BlockHeight(100))
}

/// A contract as the registry records it.
#[derive(Debug, PartialEq, Eq)]
pub struct Contract {
    pub name: ContractName,
    pub program_id: ProgramId,
    pub state: StateCommitment,
    pub verifier: Verifier,
    pub timeout_window: TimeoutWindow,
}

/// A contract as a mathematical value.
pub struct ContractView {
    pub name: Seq<char>,
    pub program_id: Seq<u8>,
    pub state: Seq<u8>,
    pub verifier: Seq<char>,
    pub timeout_window: TimeoutWindow,
}

impl View for Contract {
    type V = ContractView;

    open spec fn view(&self) -> ContractView {
        ContractView {
            name: self.name@,
            program_id: self.program_id@,
            state: self.state@,
            verifier: self.verifier@,
            timeout_window: self.timeout_window,
        }
    }
}

impl Clone for Contract {
    fn clone(&self) -> (r: Self)
        ensures
            r@ == self@,
    {
        Contract {
            name: self.name.clone(),
            program_id: self.program_id.clone(),
            state: self.state.clone(),
            verifier: self.verifier.clone(),
            timeout_window: self.timeout_window,
        }
    }
}

/// Asks to register a contract.
#[derive(Debug, PartialEq, Eq)]
pub struct RegisterContractAction {
    pub verifier: Verifier,
    pub program_id: ProgramId,
    pub state_commitment: StateCommitment,
    pub contract_name: ContractName,
    pub timeout_window: Option<TimeoutWindow>,
    pub constructor_metadata: Option<Vec<u8>>,
}

/// A registration as a mathematical value.
pub struct RegisterView {
    pub verifier: Seq<char>,
    pub program_id: Seq<u8>,
    pub state_commitment: Seq<u8>,
    pub contract_name: Seq<char>,
    pub timeout_window: Option<TimeoutWindow>,
    pub constructor_metadata: Option<Seq<u8>>,
}

/// Optional bytes as a mathematical value.
pub open spec fn opt_bytes_view(b: Option<Vec<u8>>) -> Option<Seq<u8>> {
    match b {
        Some(v) => Some(v@),
        None => None,
    }
}

impl View for RegisterContractAction {
    type V = RegisterView;

    open spec fn view(&self) -> RegisterView {
        RegisterView {
            verifier: self.verifier@,
            program_id: self.program_id@,
            state_commitment: self.state_commitment@,
            contract_name: self.contract_name@,
            timeout_window: self.timeout_window,
            constructor_metadata: opt_bytes_view(self.constructor_metadata),
        }
    }
}

/// Asks to delete a contract.
#[derive(Debug, PartialEq, Eq)]
pub struct DeleteContractAction {
    pub contract_name: ContractName,
}

/// Asks to give a contract another program.
#[derive(Debug, PartialEq, Eq)]
pub struct UpdateContractProgramIdAction {
    pub contract_name: ContractName,
    pub program_id: ProgramId,
}

/// Asks to give a contract another timeout window.
#[derive(Debug, PartialEq, Eq)]
pub struct UpdateContractTimeoutWindowAction {
    pub contract_name: ContractName,
    pub timeout_window: TimeoutWindow,
}

/// The blobs that a blob calls and is called by, which stand before what it
/// carries for its contract.
#[derive(Debug, PartialEq, Eq)]
pub struct BlobLinks {
    pub caller: Option<BlobIndex>,
    pub callees: Option<Vec<BlobIndex>>,
}

/// The links of a blob as a mathematical value.
pub struct LinksView {
    pub caller: Option<usize>,
    pub callees: Option<Seq<usize>>,
}

impl View for BlobLinks {
    type V = LinksView;

    open spec fn view(&self) -> LinksView {
        LinksView {
            caller: match self.caller {
                Some(i) => Some(i.0),
                None => None,
            },
            callees: match self.callees {
                Some(v) => Some(Seq::new(v@.len(), |i: int| v@[i].0)),
                None => None,
            },
        }
    }
}

/// The index of a blob at the start of `s`: a 64-bit number that this machine
/// can hold as an index.
pub open spec fn take_index(s: Seq<u8>) -> Option<(usize, Seq<u8>)> {
    match take_u64(s) {
        Some((v, rest)) => if v <= usize::MAX {
            Some((v as usize, rest))
        } else {
            None
        },
        None => None,
    }
}

/// `n` indices one after another.
pub open spec fn take_indices(s: Seq<u8>, n: nat) -> Option<(Seq<usize>, Seq<u8>)>
    decreases n,
{
    if n == 0 {
        Some((Seq::empty(), s))
    } else {
        match take_indices(s, (n - 1) as nat) {
            Some((vs, rest)) => match take_index(rest) {
                Some((v, rest2)) => Some((vs.push(v), rest2)),
                None => None,
            },
            None => None,
        }
    }
}

/// The links at the start of `s`: the caller, if the flag before it is set,
/// then the callees behind their number, if the flag before them is set.
pub open spec fn take_links(s: Seq<u8>) -> Option<(LinksView, Seq<u8>)> {
    match take_flag(s) {
        None => None,
        Some((has_caller, r1)) => {
            let caller = if has_caller {
                take_index(r1)
            } else {
                Some((0usize, r1))
            };
            match caller {
                None => None,
                Some((c, r2)) => match take_flag(r2) {
                    None => None,
                    Some((has_callees, r3)) => if has_callees {
                        match take_u32(r3) {
                            None => None,
                            Some((n, r4)) => match take_indices(r4, n as nat) {
                                None => None,
                                Some((vs, r5)) => Some(
                                    (
                                        LinksView {
                                            caller: if has_caller {
                                                Some(c)
                                            } else {
                                                None
                                            },
                                            callees: Some(vs),
                                        },
                                        r5,
                                    ),
                                ),
                            },
                        }
                    } else {
                        Some(
                            (
                                LinksView {
                                    caller: if has_caller {
                                        Some(c)
                                    } else {
                                        None
                                    },
                                    callees: None,
                                },
                                r3,
                            ),
                        )
                    },
                },
            }
        },
    }
}

/// Reads the index of a blob.
fn read_index(c: &mut Cursor) -> (r: Option<BlobIndex>)
    requires
        old(c).wf(),
    ensures
        final(c).wf(),
        match take_index(old(c).rest()) {
            Some((v, rest)) => r == Some(BlobIndex(v)) && final(c).rest() == rest,
            None => r is None,
        },
{
    match c.u64() {
        Some(v) => if v <= usize::MAX as u64 {
            Some(BlobIndex(v as usize))
        } else {
            None
        },
        None => None,
    }
}

/// Reads the links of a blob.
pub fn read_links(c: &mut Cursor) -> (r: Option<BlobLinks>)
    requires
        old(c).wf(),
    ensures
        final(c).wf(),
        match take_links(old(c).rest()) {
            Some((v, rest)) => r is Some && r->Some_0@ == v && final(c).rest() == rest,
            None => r is None,
        },
{
    let has_caller = match c.flag() {
        Some(b) => b,
        None => {
            return None;
        },
    };
    let caller: Option<BlobIndex> = if has_caller {
        match read_index(c) {
            Some(i) => Some(i),
            None => {
                return None;
            },
        }
    } else {
        None
    };
    let has_callees = match c.flag() {
        Some(b) => b,
        None => {
            return None;
        },
    };
    if !has_callees {
        return Some(BlobLinks { caller, callees: None });
    }
    let n: u32 = match c.u32() {
        Some(n) => n,
        None => {
            return None;
        },
    };
    let ghost start = c.rest();
    let ghost whole = take_links(old(c).rest());
    let ghost caller_view = match caller {
        Some(i) => Some(i.0),
        None => None,
    };
    let mut list: Vec<BlobIndex> = Vec::new();
    let mut i: u32 = 0;
    while i < n
        invariant
            c.wf(),
            i <= n,
            whole == take_links(old(c).rest()),
            whole == match take_indices(start, n as nat) {
                None => None,
                Some((vs, rest)) => Some((LinksView { caller: caller_view, callees: Some(vs) }, rest)),
            },
            take_indices(start, i as nat) == Some(
                (Seq::new(list@.len(), |k: int| list@[k].0), c.rest()),
            ),
        decreases n - i,
    {
        let ghost before = Seq::new(list@.len(), |k: int| list@[k].0);
        match read_index(c) {
            Some(v) => {
                list.push(v);
                proof {
                    assert(Seq::new(list@.len(), |k: int| list@[k].0) =~= before.push(v.0));
                }
            },
            None => {
                proof {
                    assert(take_indices(start, (i + 1) as nat) is None);
                    lemma_take_indices_none(start, (i + 1) as nat, n as nat);
                }
                return None;
            },
        }
        i += 1;
    }
    Some(BlobLinks { caller, callees: Some(list) })
}

/// Where fewer indices cannot be read, more cannot be read either.
proof fn lemma_take_indices_none(s: Seq<u8>, m: nat, n: nat)
    requires
        m <= n,
        take_indices(s, m) is None,
    ensures
        take_indices(s, n) is None,
    decreases n,
{
    if m < n {
        lemma_take_indices_none(s, m, (n - 1) as nat);
    }
}

/// The timeout window at the start of `s`: a byte that tells the two kinds
/// apart, then the number of blocks where there is one.
pub open spec fn take_window(s: Seq<u8>) -> Option<(TimeoutWindow, Seq<u8>)> {
    match take_u8(s) {
        None => None,
        Some((tag, rest)) => if tag == 0 {
            Some((TimeoutWindow::NoTimeout, rest))
        } else if tag == 1 {
            match take_u64(rest) {
                Some((h, rest2)) => Some((TimeoutWindow::Timeout(BlockHeight(h)), rest2)),
                None => None,
            }
        } else {
            None
        },
    }
}

/// A timeout window that may be absent: a flag, then the window if it is set.
pub open spec fn take_opt_window(s: Seq<u8>) -> Option<(Option<TimeoutWindow>, Seq<u8>)> {
    match take_flag(s) {
        None => None,
        Some((present, rest)) => if present {
            match take_window(rest) {
                Some((w, rest2)) => Some((Some(w), rest2)),
                None => None,
            }
        } else {
            Some((None, rest))
        },
    }
}

/// A byte string that may be absent: a flag, then the byte string if it is set.
pub open spec fn take_opt_bytes(s: Seq<u8>) -> Option<(Option<Seq<u8>>, Seq<u8>)> {
    match take_flag(s) {
        None => None,
        Some((present, rest)) => if present {
            match take_bytes(rest) {
                Some((b, rest2)) => Some((Some(b), rest2)),
                None => None,
            }
        } else {
            Some((None, rest))
        },
    }
}

/// The registration at the start of `s`: its fields in the order in which
/// they are declared.
pub open spec fn take_register(s: Seq<u8>) -> Option<(RegisterView, Seq<u8>)> {
    match take_text(s) {
        None => None,
        Some((verifier, r1)) => match take_bytes(r1) {
            None => None,
            Some((program_id, r2)) => match take_bytes(r2) {
                None => None,
                Some((state_commitment, r3)) => match take_text(r3) {
                    None => None,
                    Some((contract_name, r4)) => match take_opt_window(r4) {
                        None => None,
                        Some((timeout_window, r5)) => match take_opt_bytes(r5) {
                            None => None,
                            Some((constructor_metadata, r6)) => Some(
                                (
                                    RegisterView {
                                        verifier,
                                        program_id,
                                        state_commitment,
                                        contract_name,
                                        timeout_window,
                                        constructor_metadata,
                                    },
                                    r6,
                                ),
                            ),
                        },
                    },
                },
            },
        },
    }
}

/// What is left of a blob's data behind its links, if it starts with links.
pub open spec fn behind_links(data: Seq<u8>) -> Option<Seq<u8>> {
    match take_links(data) {
        Some((_, rest)) => Some(rest),
        None => None,
    }
}

/// The registration that `data` carries, if it carries one and nothing more.
pub open spec fn register_in(data: Seq<u8>) -> Option<RegisterView> {
    match behind_links(data) {
        None => None,
        Some(rest) => match take_register(rest) {
            Some((v, end)) => if end.len() == 0 {
                Some(v)
            } else {
                None
            },
            None => None,
        },
    }
}

/// The name of the contract that `data` asks to delete, if it asks for that
/// and nothing more.
pub open spec fn delete_in(data: Seq<u8>) -> Option<Seq<char>> {
    match behind_links(data) {
        None => None,
        Some(rest) => match take_text(rest) {
            Some((name, end)) => if end.len() == 0 {
                Some(name)
            } else {
                None
            },
            None => None,
        },
    }
}

/// The contract and the program that `data` asks to give it, if it asks for
/// that and nothing more.
pub open spec fn program_update_in(data: Seq<u8>) -> Option<(Seq<char>, Seq<u8>)> {
    match behind_links(data) {
        None => None,
        Some(rest) => match take_text(rest) {
            None => None,
            Some((name, r1)) => match take_bytes(r1) {
                Some((program_id, end)) => if end.len() == 0 {
                    Some((name, program_id))
                } else {
                    None
                },
                None => None,
            },
        },
    }
}

/// The contract and the timeout window that `data` asks to give it, if it
/// asks for that and nothing more.
pub open spec fn window_update_in(data: Seq<u8>) -> Option<(Seq<char>, TimeoutWindow)> {
    match behind_links(data) {
        None => None,
        Some(rest) => match take_text(rest) {
            None => None,
            Some((name, r1)) => match take_window(r1) {
                Some((w, end)) => if end.len() == 0 {
                    Some((name, w))
                } else {
                    None
                },
                None => None,
            },
        },
    }
}

/// Reads a timeout window.
fn read_window(c: &mut Cursor) -> (r: Option<TimeoutWindow>)
    requires
        old(c).wf(),
    ensures
        final(c).wf(),
        match take_window(old(c).rest()) {
            Some((v, rest)) => r == Some(v) && final(c).rest() == rest,
            None => r is None,
        },
{
    match c.u8() {
        None => None,
        Some(tag) => if tag == 0 {
            Some(TimeoutWindow::NoTimeout)
        } else if tag == 1 {
            match c.u64() {
                Some(h) => Some(TimeoutWindow::Timeout(BlockHeight(h))),
                None => None,
            }
        } else {
            None
        },
    }
}

/// Reads a timeout window that may be absent.
pub fn read_opt_window(c: &mut Cursor) -> (r: Option<Option<TimeoutWindow>>)
    requires
        old(c).wf(),
    ensures
        final(c).wf(),
        match take_opt_window(old(c).rest()) {
            Some((v, rest)) => r == Some(v) && final(c).rest() == rest,
            None => r is None,
        },
{
    let present = match c.flag() {
        Some(b) => b,
        None => {
            return None;
        },
    };
    if !present {
        return Some(None);
    }
    match read_window(c) {
        Some(w) => Some(Some(w)),
        None => None,
    }
}

/// Reads a registration.
fn read_register(c: &mut Cursor) -> (r: Option<RegisterContractAction>)
    requires
        old(c).wf(),
    ensures
        final(c).wf(),
        match take_register(old(c).rest()) {
            Some((v, rest)) => r is Some && r->Some_0@ == v && final(c).rest() == rest,
            None => r is None,
        },
{
    let verifier = match c.text() {
        Some(v) => v,
        None => {
            return None;
        },
    };
    let program_id = match c.bytes() {
        Some(v) => v,
        None => {
            return None;
        },
    };
    let state_commitment = match c.bytes() {
        Some(v) => v,
        None => {
            return None;
        },
    };
    let contract_name = match c.text() {
        Some(v) => v,
        None => {
            return None;
        },
    };
    let timeout_window: Option<TimeoutWindow> = match read_opt_window(c) {
        Some(w) => w,
        None => {
            return None;
        },
    };
    let has_metadata = match c.flag() {
        Some(v) => v,
        None => {
            return None;
        },
    };
    let constructor_metadata: Option<Vec<u8>> = if has_metadata {
        match c.bytes() {
            Some(b) => Some(b),
            None => {
                return None;
            },
        }
    } else {
        None
    };
    Some(
        RegisterContractAction {
            verifier: Verifier(verifier),
            program_id: ProgramId(program_id),
            state_commitment: StateCommitment(state_commitment),
            contract_name: ContractName(contract_name),
            timeout_window,
            constructor_metadata,
        },
    )
}

/// The registration that the data of a blob carries.
pub fn decode_register(data: &[u8]) -> (r: Option<RegisterContractAction>)
    ensures
        match register_in(data@) {
            Some(v) => r is Some && r->Some_0@ == v,
            None => r is None,
        },
{
    let mut c = Cursor::new(data);
    if read_links(&mut c).is_none() {
        return None;
    }
    match read_register(&mut c) {
        Some(v) => if c.done() {
            Some(v)
        } else {
            None
        },
        None => None,
    }
}

/// The deletion that the data of a blob carries.
pub fn decode_delete(data: &[u8]) -> (r: Option<DeleteContractAction>)
    ensures
        match delete_in(data@) {
            Some(name) => r is Some && r->Some_0.contract_name@ == name,
            None => r is None,
        },
{
    let mut c = Cursor::new(data);
    if read_links(&mut c).is_none() {
        return None;
    }
    match c.text() {
        Some(name) => if c.done() {
            Some(DeleteContractAction { contract_name: ContractName(name) })
        } else {
            None
        },
        None => None,
    }
}

/// The change of program that the data of a blob carries.
pub fn decode_program_update(data: &[u8]) -> (r: Option<UpdateContractProgramIdAction>)
    ensures
        match program_update_in(data@) {
            Some((name, program_id)) => r is Some && r->Some_0.contract_name@ == name
                && r->Some_0.program_id@ == program_id,
            None => r is None,
        },
{
    let mut c = Cursor::new(data);
    if read_links(&mut c).is_none() {
        return None;
    }
    let name = match c.text() {
        Some(v) => v,
        None => {
            return None;
        },
    };
    match c.bytes() {
        Some(program_id) => if c.done() {
            Some(
                UpdateContractProgramIdAction {
                    contract_name: ContractName(name),
                    program_id: ProgramId(program_id),
                },
            )
        } else {
            None
        },
        None => None,
    }
}

/// The change of timeout window that the data of a blob carries.
pub fn decode_window_update(data: &[u8]) -> (r: Option<UpdateContractTimeoutWindowAction>)
    ensures
        match window_update_in(data@) {
            Some((name, w)) => r is Some && r->Some_0.contract_name@ == name
                && r->Some_0.timeout_window == w,
            None => r is None,
        },
{
    let mut c = Cursor::new(data);
    if read_links(&mut c).is_none() {
        return None;
    }
    let name = match c.text() {
        Some(v) => v,
        None => {
            return None;
        },
    };
    match read_window(&mut c) {
        Some(w) => if c.done() {
            Some(
                UpdateContractTimeoutWindowAction {
                    contract_name: ContractName(name),
                    timeout_window: w,
                },
            )
        } else {
            None
        },
        None => None,
    }
}

/// A timeout window as bytes.
pub open spec fn enc_window(w: TimeoutWindow) -> Seq<u8> {
    match w {
        TimeoutWindow::NoTimeout => seq![0u8],
        TimeoutWindow::Timeout(h) => seq![1u8] + enc_u64(h.0),
    }
}

/// A timeout window that may be absent as bytes.
pub open spec fn enc_opt_window(w: Option<TimeoutWindow>) -> Seq<u8> {
    match w {
        None => enc_flag(false),
        Some(w) => enc_flag(true) + enc_window(w),
    }
}

/// A byte string that may be absent as bytes.
pub open spec fn enc_opt_bytes(b: Option<Seq<u8>>) -> Seq<u8> {
    match b {
        None => enc_flag(false),
        Some(b) => enc_flag(true) + enc_bytes(b),
    }
}

/// A registration as bytes.
pub open spec fn enc_register(v: RegisterView) -> Seq<u8> {
    enc_text(v.verifier) + enc_bytes(v.program_id) + enc_bytes(v.state_commitment) + enc_text(
        v.contract_name,
    ) + enc_opt_window(v.timeout_window) + enc_opt_bytes(v.constructor_metadata)
}

/// The links of a blob that calls no blob and is called by none.
pub open spec fn no_links() -> Seq<u8> {
    enc_flag(false) + enc_flag(false)
}

/// The data of the blob that carries the registration `v`.
pub open spec fn register_blob(v: RegisterView) -> Seq<u8> {
    no_links() + enc_register(v)
}

/// Whether the lengths of a registration's fields fit the 32 bits that the
/// layout has for a length.
pub open spec fn register_fits(v: RegisterView) -> bool {
    &&& utf8(v.verifier).len() <= u32::MAX
    &&& v.program_id.len() <= u32::MAX
    &&& v.state_commitment.len() <= u32::MAX
    &&& utf8(v.contract_name).len() <= u32::MAX
    &&& (v.constructor_metadata matches Some(b) ==> b.len() <= u32::MAX)
}

/// A timeout window that was written is the window that is read.
pub proof fn lemma_take_window(w: TimeoutWindow, rest: Seq<u8>)
    ensures
        take_window(enc_window(w) + rest) == Some((w, rest)),
{
    match w {
        TimeoutWindow::NoTimeout => {
            lemma_take_u8(0u8, rest);
        },
        TimeoutWindow::Timeout(h) => {
            lemma_take_u8(1u8, enc_u64(h.0) + rest);
            assert(enc_window(w) + rest =~= seq![1u8] + (enc_u64(h.0) + rest));
            lemma_take_u64(h.0, rest);
        },
    }
}

/// A timeout window that may be absent and was written is what is read.
pub proof fn lemma_take_opt_window(w: Option<TimeoutWindow>, rest: Seq<u8>)
    ensures
        take_opt_window(enc_opt_window(w) + rest) == Some((w, rest)),
{
    match w {
        None => {
            lemma_take_flag(false, rest);
        },
        Some(x) => {
            lemma_take_flag(true, enc_window(x) + rest);
            assert(enc_opt_window(w) + rest =~= enc_flag(true) + (enc_window(x) + rest));
            lemma_take_window(x, rest);
        },
    }
}

/// A byte string that may be absent and was written is what is read.
pub proof fn lemma_take_opt_bytes(b: Option<Seq<u8>>, rest: Seq<u8>)
    requires
        b matches Some(x) ==> x.len() <= u32::MAX,
    ensures
        take_opt_bytes(enc_opt_bytes(b) + rest) == Some((b, rest)),
{
    match b {
        None => {
            lemma_take_flag(false, rest);
        },
        Some(x) => {
            lemma_take_flag(true, enc_bytes(x) + rest);
            assert(enc_opt_bytes(b) + rest =~= enc_flag(true) + (enc_bytes(x) + rest));
            lemma_take_bytes(x, rest);
        },
    }
}

/// Links that say that a blob calls no blob and is called by none are read as such.
pub proof fn lemma_take_no_links(rest: Seq<u8>)
    ensures
        take_links(no_links() + rest) == Some((LinksView { caller: None, callees: None }, rest)),
{
    lemma_take_flag(false, enc_flag(false) + rest);
    assert(no_links() + rest =~= enc_flag(false) + (enc_flag(false) + rest));
    lemma_take_flag(false, rest);
}

/// A registration that was written is the registration that is read.
pub proof fn lemma_take_register(v: RegisterView, rest: Seq<u8>)
    requires
        register_fits(v),
    ensures
        take_register(enc_register(v) + rest) == Some((v, rest)),
{
    let f = enc_opt_bytes(v.constructor_metadata) + rest;
    let e = enc_opt_window(v.timeout_window) + f;
    let d = enc_text(v.contract_name) + e;
    let c = enc_bytes(v.state_commitment) + d;
    let b = enc_bytes(v.program_id) + c;
    assert(enc_register(v) + rest =~= enc_text(v.verifier) + b);
    lemma_take_text(v.verifier, b);
    lemma_take_bytes(v.program_id, c);
    lemma_take_bytes(v.state_commitment, d);
    lemma_take_text(v.contract_name, e);
    lemma_take_opt_window(v.timeout_window, f);
    lemma_take_opt_bytes(v.constructor_metadata, rest);
}

/// The blob that carries a registration is read as that registration.
pub proof fn lemma_register_round_trip(v: RegisterView)
    requires
        register_fits(v),
    ensures
        register_in(register_blob(v)) == Some(v),
{
    lemma_take_no_links(enc_register(v));
    lemma_take_register(v, Seq::empty());
    assert(enc_register(v) + Seq::<u8>::empty() =~= enc_register(v));
}

/// Writes a timeout window.
fn put_window(out: &mut Vec<u8>, w: TimeoutWindow)
    ensures
        final(out)@ == old(out)@ + enc_window(w),
{
    match w {
        TimeoutWindow::NoTimeout => {
            put_u8(out, 0u8);
        },
        TimeoutWindow::Timeout(h) => {
            put_u8(out, 1u8);
            put_u64(out, h.0);
            assert(out@ =~= old(out)@ + enc_window(w));
        },
    }
}

/// The data of the blob that carries `action`, where the lengths of its
/// fields fit the layout.
pub fn encode_register(action: &RegisterContractAction) -> (r: Option<Vec<u8>>)
    ensures
        r is Some == register_fits(action@),
        r matches Some(b) ==> b@ == register_blob(action@),
{
    let mut out: Vec<u8> = Vec::new();
    put_flag(&mut out, false);
    put_flag(&mut out, false);
    if !put_text(&mut out, action.verifier.0.as_str()) {
        return None;
    }
    if !put_bytes(&mut out, action.program_id.0.as_slice()) {
        return None;
    }
    if !put_bytes(&mut out, action.state_commitment.0.as_slice()) {
        return None;
    }
    if !put_text(&mut out, action.contract_name.0.as_str()) {
        return None;
    }
    match action.timeout_window {
        None => {
            put_flag(&mut out, false);
        },
        Some(w) => {
            put_flag(&mut out, true);
            put_window(&mut out, w);
        },
    }
    let ghost before = out@;
    assert(before =~= no_links() + enc_text(action@.verifier) + enc_bytes(action@.program_id)
        + enc_bytes(action@.state_commitment) + enc_text(action@.contract_name) + enc_opt_window(
        action@.timeout_window,
    ));
    match &action.constructor_metadata {
        None => {
            put_flag(&mut out, false);
        },
        Some(b) => {
            put_flag(&mut out, true);
            if !put_bytes(&mut out, b.as_slice()) {
                return None;
            }
            assert(out@ =~= before + enc_opt_bytes(action@.constructor_metadata));
        },
    }
    assert(out@ =~= register_blob(action@));
    Some(out)
}

/// The data of the blob that asks to delete the contract `name`.
pub open spec fn delete_blob(name: Seq<char>) -> Seq<u8> {
    no_links() + enc_text(name)
}

/// The data of the blob that asks to give the contract `name` the program
/// `program_id`.
pub open spec fn program_update_blob(name: Seq<char>, program_id: Seq<u8>) -> Seq<u8> {
    no_links() + enc_text(name) + enc_bytes(program_id)
}

/// The data of the blob that asks to give the contract `name` the timeout
/// window `w`.
pub open spec fn window_update_blob(name: Seq<char>, w: TimeoutWindow) -> Seq<u8> {
    no_links() + enc_text(name) + enc_window(w)
}

/// The blob that carries a deletion is read as that deletion.
pub proof fn lemma_delete_round_trip(name: Seq<char>)
    requires
        utf8(name).len() <= u32::MAX,
    ensures
        delete_in(delete_blob(name)) == Some(name),
{
    lemma_take_no_links(enc_text(name));
    lemma_take_text(name, Seq::empty());
    assert(enc_text(name) + Seq::<u8>::empty() =~= enc_text(name));
}

/// The blob that carries a change of program is read as that change.
pub proof fn lemma_program_update_round_trip(name: Seq<char>, program_id: Seq<u8>)
    requires
        utf8(name).len() <= u32::MAX,
        program_id.len() <= u32::MAX,
    ensures
        program_update_in(program_update_blob(name, program_id)) == Some((name, program_id)),
{
    assert(program_update_blob(name, program_id) =~= no_links() + (enc_text(name) + enc_bytes(
        program_id,
    )));
    lemma_take_no_links(enc_text(name) + enc_bytes(program_id));
    lemma_take_text(name, enc_bytes(program_id));
    lemma_take_bytes(program_id, Seq::empty());
    assert(enc_bytes(program_id) + Seq::<u8>::empty() =~= enc_bytes(program_id));
}

/// The blob that carries a change of timeout window is read as that change.
pub proof fn lemma_window_update_round_trip(name: Seq<char>, w: TimeoutWindow)
    requires
        utf8(name).len() <= u32::MAX,
    ensures
        window_update_in(window_update_blob(name, w)) == Some((name, w)),
{
    assert(window_update_blob(name, w) =~= no_links() + (enc_text(name) + enc_window(w)));
    lemma_take_no_links(enc_text(name) + enc_window(w));
    lemma_take_text(name, enc_window(w));
    lemma_take_window(w, Seq::empty());
    assert(enc_window(w) + Seq::<u8>::empty() =~= enc_window(w));
}

/// The data of the blob that carries `action`, where the name of its
/// contract fits the layout.
pub fn encode_delete(action: &DeleteContractAction) -> (r: Option<Vec<u8>>)
    ensures
        r is Some == (utf8(action.contract_name@).len() <= u32::MAX),
        r matches Some(b) ==> b@ == delete_blob(action.contract_name@),
{
    let mut out: Vec<u8> = Vec::new();
    put_flag(&mut out, false);
    put_flag(&mut out, false);
    if !put_text(&mut out, action.contract_name.0.as_str()) {
        return None;
    }
    assert(out@ =~= delete_blob(action.contract_name@));
    Some(out)
}

/// The data of the blob that carries `action`, where the lengths of its
/// fields fit the layout.
pub fn encode_program_update(action: &UpdateContractProgramIdAction) -> (r: Option<Vec<u8>>)
    ensures
        r is Some == (utf8(action.contract_name@).len() <= u32::MAX && action.program_id@.len()
            <= u32::MAX),
        r matches Some(b) ==> b@ == program_update_blob(action.contract_name@, action.program_id@),
{
    let mut out: Vec<u8> = Vec::new();
    put_flag(&mut out, false);
    put_flag(&mut out, false);
    if !put_text(&mut out, action.contract_name.0.as_str()) {
        return None;
    }
    if !put_bytes(&mut out, action.program_id.0.as_slice()) {
        return None;
    }
    assert(out@ =~= program_update_blob(action.contract_name@, action.program_id@));
    Some(out)
}

/// The data of the blob that carries `action`, where the name of its
/// contract fits the layout.
pub fn encode_window_update(action: &UpdateContractTimeoutWindowAction) -> (r: Option<Vec<u8>>)
    ensures
        r is Some == (utf8(action.contract_name@).len() <= u32::MAX),
        r matches Some(b) ==> b@ == window_update_blob(
            action.contract_name@,
            action.timeout_window,
        ),
{
    let mut out: Vec<u8> = Vec::new();
    put_flag(&mut out, false);
    put_flag(&mut out, false);
    if !put_text(&mut out, action.contract_name.0.as_str()) {
        return None;
    }
    put_window(&mut out, action.timeout_window);
    assert(out@ =~= window_update_blob(action.contract_name@, action.timeout_window));
    Some(out)
}

/// Data that is read as a registration is read as no other action: not as a
/// deletion, nor as a change of program or of timeout window.
pub proof fn lemma_registration_is_nothing_else(data: Seq<u8>)
    requires
        register_in(data) is Some,
    ensures
        delete_in(data) is None,
        program_update_in(data) is None,
        window_update_in(data) is None,
{
    let rest = behind_links(data)->Some_0;
    let (verifier, r1) = take_text(rest)->Some_0;
    let (program_id, r2) = take_bytes(r1)->Some_0;
    let (state, r3) = take_bytes(r2)->Some_0;
    let (name, r4) = take_text(r3)->Some_0;
    let (window, r5) = take_opt_window(r4)->Some_0;
    assert(r5.len() >= 1);
    assert(r4.len() >= r5.len() + 1);
    assert(r3.len() >= r4.len() + 4);
    assert(r2.len() >= r3.len() + 4);
    assert(r1.len() >= r2.len() + 4);
    assert(r1.len() >= 14);
    match take_window(r1) {
        Some((w, end)) => {
            assert(end.len() >= r1.len() - 9);
        },
        None => {},
    }
}

/// Data that is read as a deletion is read as no other action.
pub proof fn lemma_deletion_is_nothing_else(data: Seq<u8>)
    requires
        delete_in(data) is Some,
    ensures
        register_in(data) is None,
        program_update_in(data) is None,
        window_update_in(data) is None,
{
}

} // verus!
