use hyle::hash::{blob_hash, hash_bytes, hex_of};
use hyle::model::{
    flatten_blobs, Blob, BlobData, BlobIndex, BlobTransaction, BlockHeight, ContractName, Identity,
    LaneId, ProgramId, ProofData, StateCommitment, TxHash, ValidatorPublicKey, Verifier,
};
use hyle::contract::TimeoutWindow;
use hyle::output::{
    decode_outputs, HyleOutput, OnchainEffect, RegisterContractEffect, TxContext,
};
use hyle::verifiers::{
    decode_blst_blob, decode_secp256k1_blob, decode_sha_blob, judge_sha, judge_signature,
    native_output, native_verifier, proof_after_outputs, proof_after_parts, proof_after_risc0,
    proof_after_single, recursive_proof_after_entries, recursive_proof_after_risc0,
    validate_program_id, verify_native, verify_native_impl, verify_proof, verify_recursive_proof,
    NativeError, NativeVerifiers, ProofStep, ProofTask, RecursiveProofStep, ShaBlob,
    VerifierError, BLS_DST,
};
use hyle::crypto::SignatureFailure;
use sha3::Digest;

fn blob(contract: &str, data: Vec<u8>) -> Blob {
    Blob {
        contract_name: ContractName(contract.to_string()),
        data: BlobData(data),
    }
}

fn sha_blob(identity: &str, data: &[u8], sha: Vec<u8>) -> Blob {
    blob(
        "sha3_256",
        borsh::to_vec(&(identity.to_string(), data.to_vec(), sha)).unwrap(),
    )
}

fn output(tag: u8) -> HyleOutput {
    HyleOutput {
        version: 1,
        initial_state: StateCommitment(vec![tag]),
        next_state: StateCommitment(vec![tag, tag]),
        identity: Identity(format!("id{tag}@test")),
        blob_index: BlobIndex(tag as usize),
        blobs: vec![tag; 3],
        success: true,
        tx_hash: TxHash(format!("tx{tag}")),
        tx_ctx: None,
        onchain_effects: vec![],
        program_outputs: vec![],
    }
}

fn secp_parts(digest: [u8; 32]) -> ([u8; 33], [u8; 64]) {
    let secp = secp256k1::Secp256k1::new();
    let sk = secp256k1::SecretKey::from_slice(&[0xcd; 32]).unwrap();
    let pk = secp256k1::PublicKey::from_secret_key(&secp, &sk);
    let sig = secp.sign_ecdsa(&secp256k1::Message::from_digest(digest), &sk);
    (pk.serialize(), sig.serialize_compact())
}

fn secp_blob(identity: &str, digest: [u8; 32], pk: [u8; 33], sig: [u8; 64]) -> Blob {
    let mut data = borsh::to_vec(&identity.to_string()).unwrap();
    data.extend_from_slice(&digest);
    data.extend_from_slice(&sig);
    data.extend_from_slice(&pk);
    blob("secp256k1", data)
}

#[test]
fn sha3_blob_with_right_digest_succeeds() {
    let sha = sha3::Sha3_256::digest(b"hello").to_vec();
    let blobs = vec![
        blob("other", vec![1, 2]),
        sha_blob("alice@sha3_256", b"hello", sha),
    ];
    let out = verify_native(
        TxHash("abc".to_string()),
        BlobIndex(1),
        &blobs,
        NativeVerifiers::Sha3_256,
    );
    assert!(out.success);
    assert_eq!(out.identity, Identity("alice@sha3_256".to_string()));
    assert_eq!(out.version, 1);
    assert_eq!(out.initial_state, StateCommitment(vec![]));
    assert_eq!(out.next_state, StateCommitment(vec![]));
    assert_eq!(out.blob_index, BlobIndex(1));
    assert_eq!(out.tx_hash, TxHash("abc".to_string()));
    assert_eq!(out.tx_ctx, None);
    assert!(out.onchain_effects.is_empty());
    assert!(out.program_outputs.is_empty());
    assert_eq!(out.blobs, flatten_blobs(&blobs));
}

#[test]
fn sha3_blob_with_wrong_digest_fails() {
    let mut sha = sha3::Sha3_256::digest(b"hello").to_vec();
    sha[31] ^= 1;
    let blobs = vec![sha_blob("alice@sha3_256", b"hello", sha)];
    assert_eq!(
        verify_native_impl(&blobs[0], NativeVerifiers::Sha3_256),
        Ok((Identity("alice@sha3_256".to_string()), false))
    );
    let out = verify_native(
        TxHash("abc".to_string()),
        BlobIndex(0),
        &blobs,
        NativeVerifiers::Sha3_256,
    );
    assert!(!out.success);
    assert_eq!(out.identity, Identity::default());
    assert_eq!(out.identity, Identity(String::new()));
}

#[test]
fn sha3_digest_must_match_byte_for_byte() {
    let sha = sha3::Sha3_256::digest(b"hello").to_vec();
    let short = sha_blob("a@b", b"hello", sha[..31].to_vec());
    assert_eq!(
        verify_native_impl(&short, NativeVerifiers::Sha3_256),
        Ok((Identity("a@b".to_string()), false))
    );
    let data_as_digest = sha_blob("a@b", b"hello", b"hello".to_vec());
    assert_eq!(
        verify_native_impl(&data_as_digest, NativeVerifiers::Sha3_256),
        Ok((Identity("a@b".to_string()), false))
    );
}

#[test]
fn known_digests() {
    assert_eq!(
        hash_bytes(b""),
        "a7ffc6f8bf1ed76651c14756a061d662f580ff4de43b49fa82d80a4b80f8434a"
    );
    assert_eq!(
        hash_bytes(b"hello"),
        "3338be694f50c5f338814986cdf0686453a888b84f424d792af4b9202398f392"
    );
    assert_eq!(hex_of(&[0x00, 0x0f, 0xa5, 0xff]), "000fa5ff");
    assert_eq!(hex_of(&[]), "");
}

#[test]
fn transaction_hash() {
    let a = blob("c1", vec![1, 2, 3]);
    let b = blob("c2", vec![]);
    let mut pre_a = b"c1".to_vec();
    pre_a.extend_from_slice(&[1, 2, 3]);
    assert_eq!(blob_hash(&a), hex_of(&sha3::Sha3_256::digest(&pre_a)));
    let mut pre = b"alice@x".to_vec();
    pre.extend_from_slice(blob_hash(&a).as_bytes());
    pre.extend_from_slice(blob_hash(&b).as_bytes());
    let tx = BlobTransaction::new(Identity("alice@x".to_string()), vec![a, b]);
    assert_eq!(tx.hashed(), TxHash(hex_of(&sha3::Sha3_256::digest(&pre))));
    let empty = BlobTransaction::new(Identity(String::new()), vec![]);
    assert_eq!(
        empty.hashed(),
        TxHash("a7ffc6f8bf1ed76651c14756a061d662f580ff4de43b49fa82d80a4b80f8434a".to_string())
    );
}

#[test]
fn secp256k1_blob_with_right_signature_succeeds() {
    let digest = [0x42u8; 32];
    let (pk, sig) = secp_parts(digest);
    let blobs = vec![secp_blob("bob@secp256k1", digest, pk, sig)];
    let decoded = decode_secp256k1_blob(&blobs[0].data.0).unwrap();
    assert_eq!(decoded.data, digest);
    assert_eq!(decoded.public_key, pk);
    assert_eq!(decoded.signature, sig);
    let out = verify_native(
        TxHash("t".to_string()),
        BlobIndex(0),
        &blobs,
        NativeVerifiers::Secp256k1,
    );
    assert!(out.success);
    assert_eq!(out.identity, Identity("bob@secp256k1".to_string()));
}

#[test]
fn secp256k1_blob_with_tampered_signature_fails() {
    let digest = [0x42u8; 32];
    let (pk, mut sig) = secp_parts(digest);
    sig[10] ^= 0x01;
    let blobs = vec![secp_blob("bob@secp256k1", digest, pk, sig)];
    let out = verify_native(
        TxHash("t".to_string()),
        BlobIndex(0),
        &blobs,
        NativeVerifiers::Secp256k1,
    );
    assert!(!out.success);
    assert_eq!(out.identity, Identity::default());
    assert_eq!(out.initial_state, StateCommitment::default());
    assert_eq!(out.next_state, StateCommitment::default());
    assert!(out.onchain_effects.is_empty());
}

#[test]
fn secp256k1_blob_with_other_digest_fails() {
    let (pk, sig) = secp_parts([0x42u8; 32]);
    let other = secp_blob("bob@secp256k1", [0x43u8; 32], pk, sig);
    assert_eq!(
        verify_native_impl(&other, NativeVerifiers::Secp256k1),
        Ok((Identity("bob@secp256k1".to_string()), false))
    );
}

#[test]
fn secp256k1_blob_with_bad_key_or_signature_cannot_be_checked() {
    let digest = [0x42u8; 32];
    let (pk, sig) = secp_parts(digest);
    let bad_key = secp_blob("bob@secp256k1", digest, [0u8; 33], sig);
    assert_eq!(
        verify_native_impl(&bad_key, NativeVerifiers::Secp256k1),
        Err(NativeError::InvalidPublicKey)
    );
    let bad_sig = secp_blob("bob@secp256k1", digest, pk, [0xff; 64]);
    assert_eq!(
        verify_native_impl(&bad_sig, NativeVerifiers::Secp256k1),
        Err(NativeError::InvalidSignature)
    );
    let out = verify_native(
        TxHash("t".to_string()),
        BlobIndex(0),
        &[bad_sig],
        NativeVerifiers::Secp256k1,
    );
    assert!(!out.success);
    assert_eq!(out.identity, Identity::default());
}

fn bls_blob(identity: &str, data: &[u8], signed: &[u8]) -> Blob {
    let sk = blst::min_pk::SecretKey::key_gen(&[7u8; 32], &[]).unwrap();
    let pk = sk.sk_to_pk();
    let sig = sk.sign(signed, BLS_DST.as_bytes(), &[]);
    blob(
        "blst",
        borsh::to_vec(&(
            identity.to_string(),
            data.to_vec(),
            sig.compress().to_vec(),
            pk.compress().to_vec(),
        ))
        .unwrap(),
    )
}

#[test]
fn bls_blob_signed_over_data_and_identity_succeeds() {
    let good = bls_blob("carol@blst", b"payload", b"payloadcarol@blst");
    assert!(decode_blst_blob(&good.data.0).is_some());
    assert_eq!(
        verify_native_impl(&good, NativeVerifiers::Blst),
        Ok((Identity("carol@blst".to_string()), true))
    );
    let out = verify_native(
        TxHash("t".to_string()),
        BlobIndex(0),
        &[good],
        NativeVerifiers::Blst,
    );
    assert!(out.success);
    assert_eq!(out.identity, Identity("carol@blst".to_string()));
}

#[test]
fn bls_blob_signed_over_something_else_fails() {
    let only_data = bls_blob("carol@blst", b"payload", b"payload");
    assert_eq!(
        verify_native_impl(&only_data, NativeVerifiers::Blst),
        Ok((Identity("carol@blst".to_string()), false))
    );
    let garbage = blob(
        "blst",
        borsh::to_vec(&("carol@blst".to_string(), vec![1u8], vec![2u8; 96], vec![3u8; 48]))
            .unwrap(),
    );
    assert_eq!(
        verify_native_impl(&garbage, NativeVerifiers::Blst),
        Err(NativeError::InvalidPublicKey)
    );
}

#[test]
fn blob_of_wrong_shape_cannot_be_checked() {
    let nothing = blob("sha3_256", vec![]);
    for verifier in [
        NativeVerifiers::Blst,
        NativeVerifiers::Sha3_256,
        NativeVerifiers::Secp256k1,
    ] {
        assert_eq!(
            verify_native_impl(&nothing, verifier),
            Err(NativeError::InvalidBlob)
        );
    }
    let mut long = borsh::to_vec(&("a@b".to_string(), vec![1u8], vec![2u8])).unwrap();
    assert!(decode_sha_blob(&long).is_some());
    long.push(0);
    assert!(decode_sha_blob(&long).is_none());
    let out = verify_native(
        TxHash("t".to_string()),
        BlobIndex(0),
        &[nothing],
        NativeVerifiers::Sha3_256,
    );
    assert!(!out.success);
    assert_eq!(out.identity, Identity::default());
}

#[test]
fn verdicts() {
    let id = || Identity("x@y".to_string());
    assert_eq!(judge_signature(id(), Ok(true)), Ok((id(), true)));
    assert_eq!(judge_signature(id(), Ok(false)), Ok((id(), false)));
    assert_eq!(
        judge_signature(id(), Err(SignatureFailure::InvalidPublicKey)),
        Err(NativeError::InvalidPublicKey)
    );
    assert_eq!(
        judge_signature(id(), Err(SignatureFailure::InvalidSignature)),
        Err(NativeError::InvalidSignature)
    );
    let sha = ShaBlob {
        identity: id(),
        data: vec![1],
        sha: vec![9, 9],
    };
    assert_eq!(judge_sha(sha, &[9, 9]), (id(), true));
    let sha = ShaBlob {
        identity: id(),
        data: vec![1],
        sha: vec![9, 9],
    };
    assert_eq!(judge_sha(sha, &[9, 8]), (id(), false));
    let blobs = vec![blob("a", vec![1]), blob("bc", vec![2, 3])];
    let out = native_output(
        TxHash("h".to_string()),
        BlobIndex(1),
        &blobs,
        Ok((id(), false)),
    );
    assert!(!out.success);
    assert_eq!(out.identity, Identity::default());
    assert_eq!(out.blobs, vec![b'a', 1, b'b', b'c', 2, 3]);
}

fn proof_of(bytes: &[u8]) -> ProofData {
    ProofData(bytes.to_vec())
}

#[test]
fn verifier_tags() {
    assert_eq!(
        verify_proof(&proof_of(&[]), &Verifier("risc0-1".to_string())),
        ProofStep::Ask(ProofTask::RunRisc0)
    );
    assert_eq!(
        verify_proof(&proof_of(&[]), &Verifier("noir".to_string())),
        ProofStep::Ask(ProofTask::RunNoir)
    );
    assert_eq!(
        verify_proof(&proof_of(&[]), &Verifier("sp1-4".to_string())),
        ProofStep::Ask(ProofTask::RunSp1)
    );
    for unknown in ["", "risc0", "risc0-2", "Test", "blst"] {
        assert_eq!(
            verify_proof(&proof_of(&[0, 0, 0, 0]), &Verifier(unknown.to_string())),
            ProofStep::Done(Err(VerifierError::UnknownVerifier))
        );
    }
    assert_eq!(
        verify_recursive_proof(&Verifier("risc0-1".to_string())),
        RecursiveProofStep::Ask(ProofTask::RunRisc0)
    );
    assert_eq!(
        verify_recursive_proof(&Verifier("noir".to_string())),
        RecursiveProofStep::Done(Err(VerifierError::UnknownVerifier))
    );
}

type WireContext = (Vec<u8>, String, u64, u128, u128);
type WireOutput = (
    (u32, Vec<u8>, Vec<u8>, String, u64, Vec<u8>),
    (bool, String, Option<WireContext>),
    Vec<u8>,
);

/// An output as the bytes that borsh writes for it, with the effects given as bytes.
fn wire(head: WireOutput, effects: &[Vec<u8>]) -> Vec<u8> {
    let mut bytes = borsh::to_vec(&(head.0, head.1)).unwrap();
    bytes.extend_from_slice(&(effects.len() as u32).to_le_bytes());
    for e in effects {
        bytes.extend_from_slice(e);
    }
    bytes.extend_from_slice(&borsh::to_vec(&head.2).unwrap());
    bytes
}

fn canned() -> (Vec<u8>, Vec<HyleOutput>) {
    let first = wire(
        (
            (1, vec![1], vec![2, 3], "alice@x".to_string(), 2, vec![9, 9]),
            (true, "abcd".to_string(), None),
            vec![7],
        ),
        &[],
    );
    let register = borsh::to_vec(&(
        0u8,
        "risc0-1".to_string(),
        vec![5u8; 32],
        vec![6u8],
        "new".to_string(),
        (1u8, 1u8, 12u64),
    ))
    .unwrap();
    let delete = borsh::to_vec(&(1u8, "old".to_string())).unwrap();
    let second = wire(
        (
            (7, vec![], vec![], "".to_string(), 0, vec![]),
            (
                false,
                "".to_string(),
                Some((vec![4, 4], "block".to_string(), 10, 1 << 70, 3)),
            ),
            vec![],
        ),
        &[register, delete],
    );
    let mut bytes = 2u32.to_le_bytes().to_vec();
    bytes.extend_from_slice(&first);
    bytes.extend_from_slice(&second);
    let outputs = vec![
        HyleOutput {
            version: 1,
            initial_state: StateCommitment(vec![1]),
            next_state: StateCommitment(vec![2, 3]),
            identity: Identity("alice@x".to_string()),
            blob_index: BlobIndex(2),
            blobs: vec![9, 9],
            success: true,
            tx_hash: TxHash("abcd".to_string()),
            tx_ctx: None,
            onchain_effects: vec![],
            program_outputs: vec![7],
        },
        HyleOutput {
            version: 7,
            initial_state: StateCommitment(vec![]),
            next_state: StateCommitment(vec![]),
            identity: Identity(String::new()),
            blob_index: BlobIndex(0),
            blobs: vec![],
            success: false,
            tx_hash: TxHash(String::new()),
            tx_ctx: Some(TxContext {
                lane_id: LaneId(ValidatorPublicKey(vec![4, 4])),
                block_hash: "block".to_string(),
                block_height: BlockHeight(10),
                timestamp: 1 << 70,
                chain_id: 3,
            }),
            onchain_effects: vec![
                OnchainEffect::RegisterContract(RegisterContractEffect {
                    verifier: Verifier("risc0-1".to_string()),
                    program_id: ProgramId(vec![5; 32]),
                    state_commitment: StateCommitment(vec![6]),
                    contract_name: ContractName("new".to_string()),
                    timeout_window: Some(TimeoutWindow::Timeout(BlockHeight(12))),
                }),
                OnchainEffect::DeleteContract(ContractName("old".to_string())),
            ],
            program_outputs: vec![],
        },
    ];
    (bytes, outputs)
}

#[test]
fn a_test_proof_is_a_list_of_outputs() {
    let (bytes, outputs) = canned();
    assert_eq!(decode_outputs(&bytes), Some(outputs.clone()));
    assert_eq!(
        verify_proof(&proof_of(&bytes), &Verifier("test".to_string())),
        ProofStep::Done(Ok(outputs))
    );
    assert_eq!(
        verify_proof(&proof_of(&[0, 0, 0, 0]), &Verifier("test".to_string())),
        ProofStep::Done(Ok(vec![]))
    );
}

#[test]
fn a_test_proof_that_is_no_list_of_outputs_is_refused() {
    let (bytes, _) = canned();
    let test = Verifier("test".to_string());
    let refused = ProofStep::Done(Err(VerifierError::ProofDecodeError));
    assert_eq!(verify_proof(&proof_of(&[]), &test), refused);
    assert_eq!(verify_proof(&proof_of(&bytes[..bytes.len() - 1]), &test), refused);
    let mut longer = bytes.clone();
    longer.push(0);
    assert_eq!(verify_proof(&proof_of(&longer), &test), refused);
    let mut three = bytes.clone();
    three[0] = 3;
    assert_eq!(verify_proof(&proof_of(&three), &test), refused);
    let mut one = bytes;
    one[0] = 1;
    assert_eq!(verify_proof(&proof_of(&one), &test), refused);
}

#[test]
fn journal_of_one_output_gives_that_output() {
    assert_eq!(
        proof_after_risc0(true),
        ProofStep::Ask(ProofTask::DecodeJournalAsOutput)
    );
    assert_eq!(
        proof_after_risc0(false),
        ProofStep::Done(Err(VerifierError::ProofRejected))
    );
    assert_eq!(
        proof_after_single(Some(output(1))),
        ProofStep::Done(Ok(vec![output(1)]))
    );
    assert_eq!(
        proof_after_single(None),
        ProofStep::Ask(ProofTask::DecodeJournalAsParts)
    );
}

#[test]
fn journal_of_parts_gives_the_outputs_in_order() {
    assert_eq!(
        proof_after_parts(Some(vec![Some(output(1)), Some(output(2)), Some(output(3))])),
        ProofStep::Done(Ok(vec![output(1), output(2), output(3)]))
    );
    assert_eq!(
        proof_after_parts(Some(vec![])),
        ProofStep::Done(Ok(vec![]))
    );
    assert_eq!(
        proof_after_parts(Some(vec![Some(output(1)), None, Some(output(3))])),
        ProofStep::Done(Err(VerifierError::ProofDecodeError))
    );
    assert_eq!(
        proof_after_parts(None),
        ProofStep::Done(Err(VerifierError::ProofDecodeError))
    );
    assert_eq!(
        proof_after_outputs(Some(vec![output(4), output(5)])),
        ProofStep::Done(Ok(vec![output(4), output(5)]))
    );
    assert_eq!(
        proof_after_outputs(None),
        ProofStep::Done(Err(VerifierError::ProofDecodeError))
    );
}

#[test]
fn recursive_journal_gives_programs_and_outputs_in_order() {
    assert_eq!(
        recursive_proof_after_risc0(true),
        RecursiveProofStep::Ask(ProofTask::DecodeJournalAsEntries)
    );
    assert_eq!(
        recursive_proof_after_risc0(false),
        RecursiveProofStep::Done(Err(VerifierError::ProofRejected))
    );
    let entries = vec![
        (ProgramId(vec![1; 32]), Some(output(1))),
        (ProgramId(vec![2; 32]), Some(output(2))),
    ];
    assert_eq!(
        recursive_proof_after_entries(Some(entries)),
        RecursiveProofStep::Done(Ok((
            vec![ProgramId(vec![1; 32]), ProgramId(vec![2; 32])],
            vec![output(1), output(2)]
        )))
    );
    let broken = vec![
        (ProgramId(vec![1; 32]), Some(output(1))),
        (ProgramId(vec![2; 32]), None),
    ];
    assert_eq!(
        recursive_proof_after_entries(Some(broken)),
        RecursiveProofStep::Done(Err(VerifierError::ProofDecodeError))
    );
    assert_eq!(
        recursive_proof_after_entries(None),
        RecursiveProofStep::Done(Err(VerifierError::ProofDecodeError))
    );
}

#[test]
fn program_ids() {
    let risc0 = Verifier("risc0-1".to_string());
    assert_eq!(validate_program_id(&risc0, &ProgramId(vec![0; 32])), Ok(()));
    assert_eq!(
        validate_program_id(&risc0, &ProgramId(vec![0; 31])),
        Err(VerifierError::InvalidProgramId)
    );
    assert_eq!(
        validate_program_id(&risc0, &ProgramId(vec![])),
        Err(VerifierError::InvalidProgramId)
    );
    for native in ["blst", "sha3_256", "secp256k1", "hyle", "noir", "test"] {
        assert_eq!(
            validate_program_id(&Verifier(native.to_string()), &ProgramId(vec![1, 2, 3])),
            Ok(())
        );
    }
    assert_eq!(
        native_verifier(&Verifier("blst".to_string())),
        Some(NativeVerifiers::Blst)
    );
    assert_eq!(
        native_verifier(&Verifier("sha3_256".to_string())),
        Some(NativeVerifiers::Sha3_256)
    );
    assert_eq!(
        native_verifier(&Verifier("secp256k1".to_string())),
        Some(NativeVerifiers::Secp256k1)
    );
    assert_eq!(native_verifier(&Verifier("risc0-1".to_string())), None);
    assert_eq!(NativeVerifiers::Sha3_256.program_id(), ProgramId(b"sha3_256".to_vec()));
    assert_eq!(NativeVerifiers::Blst.name(), "blst");
}
