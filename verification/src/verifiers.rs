//! The checks that turn a proof, or a natively verified blob, into the outputs
//! that consensus applies.

use crate::codec::{take_bytes, take_fixed, take_text, Cursor};
use crate::crypto::{
    bls_check, bls_outcome, secp256k1_check, secp256k1_outcome, sha3_256, sha3_256_of,
    SignatureFailure,
};
use crate::model::{
    flat, flatten_blobs, Blob, BlobIndex, Identity, ProgramId, ProofData, StateCommitment, TxHash,
    Verifier,
};
use crate::output::{decode_outputs, outputs_in, HyleOutput, HyleOutputView, OnchainEffectView};
use crate::seqs::reversed;
use crate::text::{bytes_eq, utf8};
use vstd::prelude::*;
use vstd::string::StringSliceAdditionalSpecFns;

verus! {

/// The tag of the verifier that reads a canned list of outputs.
pub const TEST: &'static str = "test";

/// The tag of the RISC Zero verifier.
pub const RISC0_1: &'static str = "risc0-1";

/// The tag of the Noir verifier.
pub const NOIR: &'static str = "noir";

/// The tag of the SP1 verifier.
pub const SP1_4: &'static str = "sp1-4";

/// Why a proof, or a program identifier, is refused.
#[derive(Debug, Clone, Copy, PartialEq, Eq)]
pub enum VerifierError {
    /// No verifier goes by the tag.
    UnknownVerifier,
    /// The verifier refused the proof.
    ProofRejected,
    /// The journal of the proof holds no outputs.
    ProofDecodeError,
    /// The program identifier is not one of its verifier.
    InvalidProgramId,
}

/// Whether `program_id` can name a program to `verifier`: a RISC Zero image
/// identifier has 32 bytes, and the other verifiers take any.
pub open spec fn program_id_ok(verifier: Seq<char>, program_id: Seq<u8>) -> bool {
    verifier == RISC0_1@ ==> program_id.len() == 32
}

/// Checks that `program_id` can name a program to `verifier`.
pub fn validate_program_id(verifier: &Verifier, program_id: &ProgramId) -> (r: Result<
    (),
    VerifierError,
>)
    ensures
        r is Ok == program_id_ok(verifier@, program_id@),
        r is Err ==> r == Err::<(), VerifierError>(VerifierError::InvalidProgramId),
{
    if verifier.is(RISC0_1) && program_id.0.len() != 32 {
        Err(VerifierError::InvalidProgramId)
    } else {
        Ok(())
    }
}

/// The verifiers that the node runs itself.
#[derive(Debug, Clone, Copy, PartialEq, Eq)]
pub enum NativeVerifiers {
    Blst,
    Sha3_256,
    Secp256k1,
}

/// The name of a native verifier: the tag of the contracts that it checks.
pub open spec fn native_name(v: NativeVerifiers) -> Seq<char> {
    match v {
        NativeVerifiers::Blst => "blst"@,
        NativeVerifiers::Sha3_256 => "sha3_256"@,
        NativeVerifiers::Secp256k1 => "secp256k1"@,
    }
}

impl NativeVerifiers {
    /// The name of the verifier.
    pub fn name(&self) -> (r: &'static str)
        ensures
            r@ == native_name(*self),
    {
        match self {
            NativeVerifiers::Blst => "blst",
            NativeVerifiers::Sha3_256 => "sha3_256",
            NativeVerifiers::Secp256k1 => "secp256k1",
        }
    }

    /// The program of the contract of the verifier: the bytes of its name.
    pub fn program_id(&self) -> (r: ProgramId)
        ensures
            r@ == utf8(native_name(*self)),
    {
        let mut bytes: Vec<u8> = Vec::new();
        bytes.extend_from_slice(self.name().as_bytes());
        assert(bytes@ =~= utf8(native_name(*self)));
        ProgramId(bytes)
    }
}

/// The native verifier that goes by the tag `verifier`, if one does.
pub fn native_verifier(verifier: &Verifier) -> (r: Option<NativeVerifiers>)
    ensures
        r matches Some(v) ==> verifier@ == native_name(v),
        r is None ==> forall|v: NativeVerifiers| verifier@ != native_name(v),
{
    if verifier.is("blst") {
        Some(NativeVerifiers::Blst)
    } else if verifier.is("sha3_256") {
        Some(NativeVerifiers::Sha3_256)
    } else if verifier.is("secp256k1") {
        Some(NativeVerifiers::Secp256k1)
    } else {
        None
    }
}

/// The domain separation tag under which BLS signatures are made.
pub const BLS_DST: &'static str = "BLS_SIG_BLS12381G2_XMD:SHA-256_SSWU_RO_NUL_";

/// Why a natively verified blob cannot be checked at all.
#[derive(Debug, Clone, Copy, PartialEq, Eq)]
pub enum NativeError {
    /// The blob does not have the shape that its verifier reads.
    InvalidBlob,
    /// The blob holds no public key of the scheme.
    InvalidPublicKey,
    /// The blob holds no signature of the scheme.
    InvalidSignature,
}

/// What a blob for the BLS verifier carries.
#[derive(Debug, PartialEq, Eq)]
pub struct BlstSignatureBlob {
    pub identity: Identity,
    pub data: Vec<u8>,
    pub signature: Vec<u8>,
    pub public_key: Vec<u8>,
}

/// What a blob for the SHA3-256 verifier carries.
#[derive(Debug, PartialEq, Eq)]
pub struct ShaBlob {
    pub identity: Identity,
    pub data: Vec<u8>,
    pub sha: Vec<u8>,
}

/// What a blob for the secp256k1 verifier carries: a digest, a signature in
/// compact form and a compressed public key.
#[derive(Debug, PartialEq, Eq)]
pub struct Secp256k1Blob {
    pub identity: Identity,
    pub data: [u8; 32],
    pub signature: [u8; 64],
    pub public_key: [u8; 33],
}

/// A signed blob as a mathematical value.
pub struct SignedBlobView {
    pub identity: Seq<char>,
    pub data: Seq<u8>,
    pub signature: Seq<u8>,
    pub public_key: Seq<u8>,
}

/// A hashed blob as a mathematical value.
pub struct ShaBlobView {
    pub identity: Seq<char>,
    pub data: Seq<u8>,
    pub sha: Seq<u8>,
}

impl View for BlstSignatureBlob {
    type V = SignedBlobView;

    open spec fn view(&self) -> SignedBlobView {
        SignedBlobView {
            identity: self.identity@,
            data: self.data@,
            signature: self.signature@,
            public_key: self.public_key@,
        }
    }
}

impl View for ShaBlob {
    type V = ShaBlobView;

    open spec fn view(&self) -> ShaBlobView {
        ShaBlobView { identity: self.identity@, data: self.data@, sha: self.sha@ }
    }
}

impl View for Secp256k1Blob {
    type V = SignedBlobView;

    open spec fn view(&self) -> SignedBlobView {
        SignedBlobView {
            identity: self.identity@,
            data: self.data@,
            signature: self.signature@,
            public_key: self.public_key@,
        }
    }
}

/// The BLS blob that `data` is: an identity, then the signed data, the
/// signature and the public key, each behind its length, and nothing more.
pub open spec fn blst_blob_in(data: Seq<u8>) -> Option<SignedBlobView> {
    match take_text(data) {
        None => None,
        Some((identity, r1)) => match take_bytes(r1) {
            None => None,
            Some((signed, r2)) => match take_bytes(r2) {
                None => None,
                Some((signature, r3)) => match take_bytes(r3) {
                    None => None,
                    Some((public_key, end)) => if end.len() == 0 {
                        Some(SignedBlobView { identity, data: signed, signature, public_key })
                    } else {
                        None
                    },
                },
            },
        },
    }
}

/// The SHA3-256 blob that `data` is: an identity, then the hashed data and
/// the digest, each behind its length, and nothing more.
pub open spec fn sha_blob_in(data: Seq<u8>) -> Option<ShaBlobView> {
    match take_text(data) {
        None => None,
        Some((identity, r1)) => match take_bytes(r1) {
            None => None,
            Some((hashed, r2)) => match take_bytes(r2) {
                None => None,
                Some((sha, end)) => if end.len() == 0 {
                    Some(ShaBlobView { identity, data: hashed, sha })
                } else {
                    None
                },
            },
        },
    }
}

/// The secp256k1 blob that `data` is: an identity, then a digest of 32
/// bytes, a signature of 64 and a public key of 33, and nothing more.
pub open spec fn secp256k1_blob_in(data: Seq<u8>) -> Option<SignedBlobView> {
    match take_text(data) {
        None => None,
        Some((identity, r1)) => match take_fixed(r1, 32) {
            None => None,
            Some((digest, r2)) => match take_fixed(r2, 64) {
                None => None,
                Some((signature, r3)) => match take_fixed(r3, 33) {
                    None => None,
                    Some((public_key, end)) => if end.len() == 0 {
                        Some(SignedBlobView { identity, data: digest, signature, public_key })
                    } else {
                        None
                    },
                },
            },
        },
    }
}

/// The bytes of `v` as an array.
fn to_array<const N: usize>(v: &[u8]) -> (r: [u8; N])
    requires
        v@.len() == N,
    ensures
        r@ == v@,
{
    let mut out: [u8; N] = [0u8;N];
    let mut i: usize = 0;
    while i < N
        invariant
            i <= N,
            v@.len() == N,
            forall|k: int| 0 <= k < i ==> out@[k] == v@[k],
        decreases N - i,
    {
        out[i] = v[i];
        i += 1;
    }
    assert(out@ =~= v@);
    out
}

/// The BLS blob that the data of a blob carries.
pub fn decode_blst_blob(data: &[u8]) -> (r: Option<BlstSignatureBlob>)
    ensures
        match blst_blob_in(data@) {
            Some(v) => r is Some && r->Some_0@ == v,
            None => r is None,
        },
{
    let mut c = Cursor::new(data);
    let identity = match c.text() {
        Some(v) => v,
        None => {
            return None;
        },
    };
    let signed = match c.bytes() {
        Some(v) => v,
        None => {
            return None;
        },
    };
    let signature = match c.bytes() {
        Some(v) => v,
        None => {
            return None;
        },
    };
    let public_key = match c.bytes() {
        Some(v) => v,
        None => {
            return None;
        },
    };
    if !c.done() {
        return None;
    }
    Some(BlstSignatureBlob { identity: Identity(identity), data: signed, signature, public_key })
}

/// The SHA3-256 blob that the data of a blob carries.
pub fn decode_sha_blob(data: &[u8]) -> (r: Option<ShaBlob>)
    ensures
        match sha_blob_in(data@) {
            Some(v) => r is Some && r->Some_0@ == v,
            None => r is None,
        },
{
    let mut c = Cursor::new(data);
    let identity = match c.text() {
        Some(v) => v,
        None => {
            return None;
        },
    };
    let hashed = match c.bytes() {
        Some(v) => v,
        None => {
            return None;
        },
    };
    let sha = match c.bytes() {
        Some(v) => v,
        None => {
            return None;
        },
    };
    if !c.done() {
        return None;
    }
    Some(ShaBlob { identity: Identity(identity), data: hashed, sha })
}

/// The secp256k1 blob that the data of a blob carries.
pub fn decode_secp256k1_blob(data: &[u8]) -> (r: Option<Secp256k1Blob>)
    ensures
        match secp256k1_blob_in(data@) {
            Some(v) => r is Some && r->Some_0@ == v,
            None => r is None,
        },
{
    let mut c = Cursor::new(data);
    let identity = match c.text() {
        Some(v) => v,
        None => {
            return None;
        },
    };
    let digest = match c.fixed(32) {
        Some(v) => v,
        None => {
            return None;
        },
    };
    let signature = match c.fixed(64) {
        Some(v) => v,
        None => {
            return None;
        },
    };
    let public_key = match c.fixed(33) {
        Some(v) => v,
        None => {
            return None;
        },
    };
    if !c.done() {
        return None;
    }
    Some(
        Secp256k1Blob {
            identity: Identity(identity),
            data: to_array::<32>(digest.as_slice()),
            signature: to_array::<64>(signature.as_slice()),
            public_key: to_array::<33>(public_key.as_slice()),
        },
    )
}

/// What a check of a signature means for its blob: the identity of the blob
/// with the verdict, or why there is no verdict.
pub open spec fn judged(identity: Seq<char>, outcome: Result<bool, SignatureFailure>) -> Result<
    (Seq<char>, bool),
    NativeError,
> {
    match outcome {
        Ok(valid) => Ok((identity, valid)),
        Err(SignatureFailure::InvalidPublicKey) => Err(NativeError::InvalidPublicKey),
        Err(SignatureFailure::InvalidSignature) => Err(NativeError::InvalidSignature),
    }
}

/// What the native verifier makes of the data of a blob: the identity that
/// the blob names and whether its hash or signature is right, or why the blob
/// cannot be checked. A BLS signature is over the data followed by the bytes
/// of the identity, without augmentation, and is taken only where signature
/// and key are in their groups.
pub open spec fn native_checked(verifier: NativeVerifiers, data: Seq<u8>) -> Result<
    (Seq<char>, bool),
    NativeError,
> {
    match verifier {
        NativeVerifiers::Blst => match blst_blob_in(data) {
            None => Err(NativeError::InvalidBlob),
            Some(b) => judged(
                b.identity,
                bls_outcome(
                    b.public_key,
                    b.signature,
                    b.data + utf8(b.identity),
                    utf8(BLS_DST@),
                    Seq::empty(),
                    true,
                ),
            ),
        },
        NativeVerifiers::Sha3_256 => match sha_blob_in(data) {
            None => Err(NativeError::InvalidBlob),
            Some(b) => Ok((b.identity, sha3_256_of(b.data) == b.sha)),
        },
        NativeVerifiers::Secp256k1 => match secp256k1_blob_in(data) {
            None => Err(NativeError::InvalidBlob),
            Some(b) => judged(b.identity, secp256k1_outcome(b.public_key, b.signature, b.data)),
        },
    }
}

/// Whether a check ended as `expected`.
pub open spec fn checked_as(
    r: Result<(Identity, bool), NativeError>,
    expected: Result<(Seq<char>, bool), NativeError>,
) -> bool {
    match expected {
        Ok((identity, valid)) => r is Ok && r->Ok_0.0@ == identity && r->Ok_0.1 == valid,
        Err(e) => r is Err && r->Err_0 == e,
    }
}

/// Turns the outcome of a signature check into the verdict on the blob of
/// `identity`.
pub fn judge_signature(identity: Identity, outcome: Result<bool, SignatureFailure>) -> (r: Result<
    (Identity, bool),
    NativeError,
>)
    ensures
        checked_as(r, judged(identity@, outcome)),
{
    match outcome {
        Ok(valid) => Ok((identity, valid)),
        Err(SignatureFailure::InvalidPublicKey) => Err(NativeError::InvalidPublicKey),
        Err(SignatureFailure::InvalidSignature) => Err(NativeError::InvalidSignature),
    }
}

/// The verdict on a hashed blob, given the digest of its data: the blob is
/// right where the digest is, byte for byte, the one that it names.
pub fn judge_sha(blob: ShaBlob, digest: &[u8]) -> (r: (Identity, bool))
    ensures
        r.0 == blob.identity,
        r.1 == (digest@ == blob.sha@),
{
    let same = bytes_eq(digest, blob.sha.as_slice());
    (blob.identity, same)
}

/// Checks a blob with the native verifier that its contract names.
pub fn verify_native_impl(blob: &Blob, verifier: NativeVerifiers) -> (r: Result<
    (Identity, bool),
    NativeError,
>)
    ensures
        checked_as(r, native_checked(verifier, blob.data@)),
{
    let data = blob.data.0.as_slice();
    match verifier {
        NativeVerifiers::Blst => {
            match decode_blst_blob(data) {
                None => Err(NativeError::InvalidBlob),
                Some(b) => {
                    let mut message: Vec<u8> = Vec::new();
                    message.extend_from_slice(b.data.as_slice());
                    message.extend_from_slice(b.identity.0.as_str().as_bytes());
                    assert(message@ =~= b.data@ + utf8(b.identity@));
                    let no_augmentation: Vec<u8> = Vec::new();
                    let outcome = bls_check(
                        b.public_key.as_slice(),
                        b.signature.as_slice(),
                        message.as_slice(),
                        BLS_DST.as_bytes(),
                        no_augmentation.as_slice(),
                        true,
                    );
                    judge_signature(b.identity, outcome)
                },
            }
        },
        NativeVerifiers::Sha3_256 => {
            match decode_sha_blob(data) {
                None => Err(NativeError::InvalidBlob),
                Some(b) => {
                    let digest = sha3_256(b.data.as_slice());
                    Ok(judge_sha(b, digest.as_slice()))
                },
            }
        },
        NativeVerifiers::Secp256k1 => {
            match decode_secp256k1_blob(data) {
                None => Err(NativeError::InvalidBlob),
                Some(b) => {
                    let outcome = secp256k1_check(
                        b.public_key.as_slice(),
                        b.signature.as_slice(),
                        &b.data,
                    );
                    judge_signature(b.identity, outcome)
                },
            }
        },
    }
}

/// The output of a native verifier for the blob at `index`: the blob
/// succeeded in the name of its identity where the check says so; a blob that
/// failed, or could not be checked, has failed in the name of nobody. Either
/// way the states are empty and nothing is set off.
pub open spec fn native_output_view(
    tx_hash: Seq<char>,
    index: usize,
    blobs: Seq<u8>,
    checked: Result<(Seq<char>, bool), NativeError>,
) -> HyleOutputView {
    let success = checked is Ok && checked->Ok_0.1;
    HyleOutputView {
        version: 1,
        initial_state: Seq::empty(),
        next_state: Seq::empty(),
        identity: if success {
            checked->Ok_0.0
        } else {
            Seq::empty()
        },
        blob_index: index,
        blobs,
        success,
        tx_hash,
        tx_ctx: None,
        onchain_effects: Seq::empty(),
        program_outputs: Seq::empty(),
    }
}

/// The output of a native verifier, given what its check said.
pub fn native_output(
    tx_hash: TxHash,
    index: BlobIndex,
    blobs: &[Blob],
    checked: Result<(Identity, bool), NativeError>,
) -> (r: HyleOutput)
    ensures
        forall|expected: Result<(Seq<char>, bool), NativeError>|
            checked_as(checked, expected) ==> r@ == native_output_view(
                tx_hash@,
                index.0,
                flat(blobs.deep_view()),
                expected,
            ),
{
    let (identity, success) = match checked {
        Ok((identity, true)) => (identity, true),
        _ => (Identity::default(), false),
    };
    let out = HyleOutput {
        version: 1,
        initial_state: StateCommitment::default(),
        next_state: StateCommitment::default(),
        identity,
        blob_index: index,
        blobs: flatten_blobs(blobs),
        success,
        tx_hash,
        tx_ctx: None,
        onchain_effects: Vec::new(),
        program_outputs: Vec::new(),
    };
    assert(out.onchain_effects.deep_view() =~= Seq::<OnchainEffectView>::empty());
    out
}

/// Checks the blob at `index` with a native verifier and makes its output.
/// The index is one of `blobs`.
pub fn verify_native(tx_hash: TxHash, index: BlobIndex, blobs: &[Blob], verifier: NativeVerifiers) -> (r:
    HyleOutput)
    requires
        index.0 < blobs@.len(),
    ensures
        r@ == native_output_view(
            tx_hash@,
            index.0,
            flat(blobs.deep_view()),
            native_checked(verifier, blobs@[index.0 as int].data@),
        ),
{
    let checked = verify_native_impl(&blobs[index.0], verifier);
    native_output(tx_hash, index, blobs, checked)
}

/// What the host of the verifiers is asked to do with a proof.
#[derive(Debug, Clone, Copy, PartialEq, Eq)]
pub enum ProofTask {
    /// Run the RISC Zero verifier on the proof and the program, and keep the journal.
    RunRisc0,
    /// Run the Noir verifier on the proof and the program.
    RunNoir,
    /// Run the SP1 verifier on the proof and the program.
    RunSp1,
    /// Decode the journal as one output.
    DecodeJournalAsOutput,
    /// Decode the journal as a list of byte strings, and each of them as an output.
    DecodeJournalAsParts,
    /// Decode the journal as a list of pairs of a program and a journal, and
    /// each of these journals as an output.
    DecodeJournalAsEntries,
}

/// Where the check of a proof stands: at a task for the host, or at its end.
#[derive(Debug, PartialEq, Eq)]
pub enum ProofStep {
    Ask(ProofTask),
    Done(Result<Vec<HyleOutput>, VerifierError>),
}

/// Where the check of a recursive proof stands.
#[derive(Debug, PartialEq, Eq)]
pub enum RecursiveProofStep {
    Ask(ProofTask),
    Done(Result<(Vec<ProgramId>, Vec<HyleOutput>), VerifierError>),
}

/// The task with which the check of a proof starts, by the tag of its
/// verifier, where the check is for the host to go on with.
pub open spec fn first_task(verifier: Seq<char>) -> Option<ProofTask> {
    if verifier == RISC0_1@ {
        Some(ProofTask::RunRisc0)
    } else if verifier == NOIR@ {
        Some(ProofTask::RunNoir)
    } else if verifier == SP1_4@ {
        Some(ProofTask::RunSp1)
    } else {
        None
    }
}

/// Starts the check of a proof for `verifier`. The proof of the verifier
/// `test` is itself a list of outputs, which is the result; the other
/// verifiers are for the host to run; a tag that names no verifier ends the check.
pub fn verify_proof(proof: &ProofData, verifier: &Verifier) -> (r: ProofStep)
    ensures
        verifier@ == TEST@ ==> match outputs_in(proof.0@) {
            Some(v) => r matches ProofStep::Done(Ok(list)) && list.deep_view() == v,
            None => r == ProofStep::Done(Err(VerifierError::ProofDecodeError)),
        },
        verifier@ != TEST@ ==> r == match first_task(verifier@) {
            Some(task) => ProofStep::Ask(task),
            None => ProofStep::Done(Err(VerifierError::UnknownVerifier)),
        },
{
    if verifier.is(TEST) {
        match decode_outputs(proof.0.as_slice()) {
            Some(list) => ProofStep::Done(Ok(list)),
            None => ProofStep::Done(Err(VerifierError::ProofDecodeError)),
        }
    } else if verifier.is(RISC0_1) {
        ProofStep::Ask(ProofTask::RunRisc0)
    } else if verifier.is(NOIR) {
        ProofStep::Ask(ProofTask::RunNoir)
    } else if verifier.is(SP1_4) {
        ProofStep::Ask(ProofTask::RunSp1)
    } else {
        ProofStep::Done(Err(VerifierError::UnknownVerifier))
    }
}

/// Goes on after the host ran the Noir or the SP1 verifier, which gives a
/// list of outputs or none.
pub fn proof_after_outputs(outputs: Option<Vec<HyleOutput>>) -> (r: ProofStep)
    ensures
        r == match outputs {
            Some(v) => ProofStep::Done(Ok(v)),
            None => ProofStep::Done(Err(VerifierError::ProofDecodeError)),
        },
{
    match outputs {
        Some(v) => ProofStep::Done(Ok(v)),
        None => ProofStep::Done(Err(VerifierError::ProofDecodeError)),
    }
}

/// Goes on after the RISC Zero verifier accepted or refused the proof: the
/// journal of an accepted proof is first read as one output.
pub fn proof_after_risc0(accepted: bool) -> (r: ProofStep)
    ensures
        r == if accepted {
            ProofStep::Ask(ProofTask::DecodeJournalAsOutput)
        } else {
            ProofStep::Done(Err(VerifierError::ProofRejected))
        },
{
    if accepted {
        ProofStep::Ask(ProofTask::DecodeJournalAsOutput)
    } else {
        ProofStep::Done(Err(VerifierError::ProofRejected))
    }
}

/// Goes on after the journal was read as one output: that output alone is
/// the result; a journal that is no single output is read as parts.
pub fn proof_after_single(output: Option<HyleOutput>) -> (r: ProofStep)
    ensures
        match output {
            Some(h) => r matches ProofStep::Done(Ok(v)) && v@ == seq![h],
            None => r == ProofStep::Ask(ProofTask::DecodeJournalAsParts),
        },
{
    match output {
        Some(h) => {
            let mut v: Vec<HyleOutput> = Vec::new();
            v.push(h);
            ProofStep::Done(Ok(v))
        },
        None => ProofStep::Ask(ProofTask::DecodeJournalAsParts),
    }
}

/// Whether every part was decoded.
pub open spec fn all_decoded(parts: Seq<Option<HyleOutput>>) -> bool {
    forall|i: int| 0 <= i < parts.len() ==> (#[trigger] parts[i]) is Some
}

/// The outputs of the parts, in the order of the parts.
pub open spec fn decoded_parts(parts: Seq<Option<HyleOutput>>) -> Seq<HyleOutput> {
    Seq::new(parts.len(), |i: int| parts[i]->Some_0)
}

/// The outputs of the parts, in their order, if every part was decoded.
fn unwrap_parts(parts: Vec<Option<HyleOutput>>) -> (r: Option<Vec<HyleOutput>>)
    ensures
        r is Some == all_decoded(parts@),
        r matches Some(v) ==> v@ == decoded_parts(parts@),
{
    let ghost all = parts@;
    let mut stack = reversed(parts);
    let mut out: Vec<HyleOutput> = Vec::new();
    while stack.len() > 0
        invariant
            all == parts@,
            stack@.len() + out@.len() == all.len(),
            forall|k: int| 0 <= k < stack@.len() ==> stack@[k] == all[all.len() - 1 - k],
            forall|k: int| 0 <= k < out@.len() ==> (#[trigger] all[k]) == Some(out@[k]),
        decreases stack.len(),
    {
        let ghost n = out@.len();
        match stack.pop() {
            Some(Some(h)) => {
                assert(all[n as int] == Some(h));
                out.push(h);
            },
            _ => {
                assert(all[n as int] is None);
                return None;
            },
        }
    }
    proof {
        assert forall|i: int| 0 <= i < all.len() implies (#[trigger] all[i]) is Some by {
            assert(all[i] == Some(out@[i]));
        }
        assert(out@ =~= decoded_parts(all));
    }
    Some(out)
}

/// Ends the check after the journal was read as parts: the outputs of the
/// parts in their order, where the journal is a list of parts and each part
/// is an output.
pub fn proof_after_parts(parts: Option<Vec<Option<HyleOutput>>>) -> (r: ProofStep)
    ensures
        match parts {
            Some(ps) if all_decoded(ps@) => r matches ProofStep::Done(Ok(v)) && v@ == decoded_parts(
                ps@,
            ),
            _ => r == ProofStep::Done(Err(VerifierError::ProofDecodeError)),
        },
{
    match parts {
        None => ProofStep::Done(Err(VerifierError::ProofDecodeError)),
        Some(ps) => match unwrap_parts(ps) {
            Some(v) => ProofStep::Done(Ok(v)),
            None => ProofStep::Done(Err(VerifierError::ProofDecodeError)),
        },
    }
}

/// Starts the check of a recursive proof: only RISC Zero proves recursively.
pub fn verify_recursive_proof(verifier: &Verifier) -> (r: RecursiveProofStep)
    ensures
        r == if verifier@ == RISC0_1@ {
            RecursiveProofStep::Ask(ProofTask::RunRisc0)
        } else {
            RecursiveProofStep::Done(Err(VerifierError::UnknownVerifier))
        },
{
    if verifier.is(RISC0_1) {
        RecursiveProofStep::Ask(ProofTask::RunRisc0)
    } else {
        RecursiveProofStep::Done(Err(VerifierError::UnknownVerifier))
    }
}

/// Goes on after the RISC Zero verifier accepted or refused a recursive proof.
pub fn recursive_proof_after_risc0(accepted: bool) -> (r: RecursiveProofStep)
    ensures
        r == if accepted {
            RecursiveProofStep::Ask(ProofTask::DecodeJournalAsEntries)
        } else {
            RecursiveProofStep::Done(Err(VerifierError::ProofRejected))
        },
{
    if accepted {
        RecursiveProofStep::Ask(ProofTask::DecodeJournalAsEntries)
    } else {
        RecursiveProofStep::Done(Err(VerifierError::ProofRejected))
    }
}

/// Whether the journal of every entry was decoded.
pub open spec fn all_entries_decoded(entries: Seq<(ProgramId, Option<HyleOutput>)>) -> bool {
    forall|i: int| 0 <= i < entries.len() ==> (#[trigger] entries[i]).1 is Some
}

/// The programs of the entries and the outputs of their journals, both in
/// the order of the entries, if the journal of every entry was decoded.
fn split_entries(entries: Vec<(ProgramId, Option<HyleOutput>)>) -> (r: Option<
    (Vec<ProgramId>, Vec<HyleOutput>),
>)
    ensures
        r is Some == all_entries_decoded(entries@),
        r matches Some((programs, outputs)) ==> programs@ == Seq::new(
            entries@.len(),
            |i: int| entries@[i].0,
        ) && outputs@ == Seq::new(entries@.len(), |i: int| entries@[i].1->Some_0),
{
    let ghost all = entries@;
    let mut stack = reversed(entries);
    let mut programs: Vec<ProgramId> = Vec::new();
    let mut outputs: Vec<HyleOutput> = Vec::new();
    while stack.len() > 0
        invariant
            all == entries@,
            stack@.len() + programs@.len() == all.len(),
            programs@.len() == outputs@.len(),
            forall|k: int| 0 <= k < stack@.len() ==> stack@[k] == all[all.len() - 1 - k],
            forall|k: int|
                0 <= k < programs@.len() ==> (#[trigger] all[k]) == (
                    programs@[k],
                    Some(outputs@[k]),
                ),
        decreases stack.len(),
    {
        let ghost n = programs@.len();
        match stack.pop() {
            Some((program, Some(h))) => {
                assert(all[n as int] == (program, Some(h)));
                programs.push(program);
                outputs.push(h);
            },
            _ => {
                assert(all[n as int].1 is None);
                return None;
            },
        }
    }
    proof {
        assert forall|i: int| 0 <= i < all.len() implies (#[trigger] all[i]).1 is Some by {
            assert(all[i] == (programs@[i], Some(outputs@[i])));
        }
        assert(programs@ =~= Seq::new(all.len(), |i: int| all[i].0));
        assert(outputs@ =~= Seq::new(all.len(), |i: int| all[i].1->Some_0));
    }
    Some((programs, outputs))
}

/// Ends the check of a recursive proof after its journal was read as
/// entries: the programs of the entries and the outputs of their journals,
/// both in the order of the entries, where the journal is a list of entries
/// and each of their journals is an output.
pub fn recursive_proof_after_entries(entries: Option<Vec<(ProgramId, Option<HyleOutput>)>>) -> (r:
    RecursiveProofStep)
    ensures
        match entries {
            Some(es) if all_entries_decoded(es@) => r matches RecursiveProofStep::Done(
                Ok((programs, outputs)),
            ) && programs@ == Seq::new(es@.len(), |i: int| es@[i].0) && outputs@ == Seq::new(
                es@.len(),
                |i: int| es@[i].1->Some_0,
            ),
            _ => r == RecursiveProofStep::Done(Err(VerifierError::ProofDecodeError)),
        },
{
    match entries {
        None => RecursiveProofStep::Done(Err(VerifierError::ProofDecodeError)),
        Some(es) => match split_entries(es) {
            Some(pair) => RecursiveProofStep::Done(Ok(pair)),
            None => RecursiveProofStep::Done(Err(VerifierError::ProofDecodeError)),
        },
    }
}

} // verus!
