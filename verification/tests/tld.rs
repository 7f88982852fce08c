use hyle::assoc::AssocMap;
use hyle::contract::{
    decode_delete, decode_program_update, decode_register, decode_window_update, encode_delete,
    encode_program_update, encode_register, encode_window_update, Contract, DeleteContractAction,
    RegisterContractAction, TimeoutWindow, UpdateContractProgramIdAction,
    UpdateContractTimeoutWindowAction,
};
use hyle::model::{
    Blob, BlobData, BlobTransaction, BlockHeight, ContractName, Identity, ProgramId,
    StateCommitment, Verifier,
};
use hyle::tld::{
    handle_blob_for_hyle_tld, handle_delete_blob, handle_register_blob,
    handle_update_program_id_blob, handle_update_timeout_window_blob, validate_contract_name,
    validate_hyle_contract_blobs, ContractChanges, ContractStatus, Contracts,
    ModifiedContractFields, SideEffect, TldError, HYLI_TLD_ID,
};

fn no_links() -> (Option<u64>, Option<Vec<u64>>) {
    (None, None)
}

fn register_data(name: &str, verifier: &str, program_id: Vec<u8>) -> Vec<u8> {
    borsh::to_vec(&(
        no_links(),
        verifier.to_string(),
        program_id,
        vec![7u8, 7, 7],
        name.to_string(),
        None::<u8>,
        None::<Vec<u8>>,
    ))
    .unwrap()
}

fn delete_data(name: &str) -> Vec<u8> {
    borsh::to_vec(&(no_links(), name.to_string())).unwrap()
}

fn program_update_data(name: &str, program_id: Vec<u8>) -> Vec<u8> {
    borsh::to_vec(&(no_links(), name.to_string(), program_id)).unwrap()
}

fn window_update_data(name: &str, blocks: Option<u64>) -> Vec<u8> {
    match blocks {
        None => borsh::to_vec(&(no_links(), name.to_string(), 0u8)).unwrap(),
        Some(n) => borsh::to_vec(&(no_links(), name.to_string(), 1u8, n)).unwrap(),
    }
}

fn hyle_blob(data: Vec<u8>) -> Blob {
    Blob {
        contract_name: ContractName("hyle".to_string()),
        data: BlobData(data),
    }
}

fn contract(name: &str) -> Contract {
    Contract {
        name: ContractName(name.to_string()),
        program_id: ProgramId(vec![1, 2, 3]),
        state: StateCommitment(vec![4, 5]),
        verifier: Verifier("test".to_string()),
        timeout_window: TimeoutWindow::Timeout(BlockHeight(30)),
    }
}

fn registry(names: &[&str]) -> Contracts {
    let mut contracts: Contracts = AssocMap::new();
    for name in names {
        contracts.insert(ContractName(name.to_string()), contract(name));
    }
    contracts
}

fn name(text: &str) -> ContractName {
    ContractName(text.to_string())
}

#[test]
fn register_twice_in_one_batch_fails() {
    let contracts = registry(&[]);
    let mut changes: ContractChanges = AssocMap::new();
    let blob = hyle_blob(register_data("foo", "test", vec![9, 9]));
    assert_eq!(
        handle_blob_for_hyle_tld(&contracts, &mut changes, &blob),
        Ok(())
    );
    assert_eq!(
        handle_blob_for_hyle_tld(&contracts, &mut changes, &blob),
        Err(TldError::ContractAlreadyRegistered)
    );
    assert_eq!(changes.len(), 1);
}

#[test]
fn register_records_the_contract() {
    let contracts = registry(&[]);
    let mut changes: ContractChanges = AssocMap::new();
    let data = borsh::to_vec(&(
        no_links(),
        "risc0-1".to_string(),
        vec![3u8; 32],
        vec![1u8, 2],
        "foo.hyle".to_string(),
        (1u8, 1u8, 77u64),
        Some(vec![5u8, 6]),
    ))
    .unwrap();
    assert_eq!(
        handle_blob_for_hyle_tld(&contracts, &mut changes, &hyle_blob(data)),
        Ok(())
    );
    let change = changes.get(&name("foo.hyle")).unwrap();
    assert_eq!(
        change.0,
        ContractStatus::Updated(Contract {
            name: name("foo.hyle"),
            program_id: ProgramId(vec![3u8; 32]),
            state: StateCommitment(vec![1, 2]),
            verifier: Verifier("risc0-1".to_string()),
            timeout_window: TimeoutWindow::Timeout(BlockHeight(77)),
        })
    );
    assert_eq!(change.1, ModifiedContractFields::all());
    assert_eq!(change.2, vec![SideEffect::Register(Some(vec![5, 6]))]);
}

#[test]
fn register_without_window_gets_a_hundred_blocks() {
    let contracts = registry(&[]);
    let mut changes: ContractChanges = AssocMap::new();
    let blob = hyle_blob(register_data("foo", "test", vec![]));
    handle_blob_for_hyle_tld(&contracts, &mut changes, &blob).unwrap();
    match &changes.get(&name("foo")).unwrap().0 {
        ContractStatus::Updated(c) => {
            assert_eq!(c.timeout_window, TimeoutWindow::Timeout(BlockHeight(100)))
        }
        ContractStatus::Deleted => panic!("registered contract is deleted"),
    }
    assert_eq!(
        TimeoutWindow::default(),
        TimeoutWindow::Timeout(BlockHeight(100))
    );
}

#[test]
fn register_of_existing_contract_fails() {
    let contracts = registry(&["foo"]);
    let mut changes: ContractChanges = AssocMap::new();
    let blob = hyle_blob(register_data("foo", "test", vec![]));
    assert_eq!(
        handle_blob_for_hyle_tld(&contracts, &mut changes, &blob),
        Err(TldError::ContractAlreadyRegistered)
    );
    assert_eq!(changes.len(), 0);
}

#[test]
fn register_of_existing_hyle_fails() {
    let contracts = registry(&["hyle"]);
    let mut changes: ContractChanges = AssocMap::new();
    let blob = hyle_blob(register_data("hyle", "hyle", vec![0, 0, 0, 0]));
    assert_eq!(
        handle_blob_for_hyle_tld(&contracts, &mut changes, &blob),
        Err(TldError::ContractAlreadyRegistered)
    );
    assert_eq!(changes.len(), 0);
}

#[test]
fn register_of_hyle_itself_passes_once() {
    let contracts = registry(&[]);
    let mut changes: ContractChanges = AssocMap::new();
    let blob = hyle_blob(register_data("hyle", "hyle", vec![0, 0, 0, 0]));
    assert_eq!(
        handle_blob_for_hyle_tld(&contracts, &mut changes, &blob),
        Ok(())
    );
    assert_eq!(
        handle_blob_for_hyle_tld(&contracts, &mut changes, &blob),
        Err(TldError::ContractAlreadyRegistered)
    );
}

#[test]
fn register_checks_the_name() {
    let contracts = registry(&[]);
    for bad in ["", ".hyle", "a.b.hyle", "a.b", "foo.hyle.", "hyle.foo", "a..hyle"] {
        let mut changes: ContractChanges = AssocMap::new();
        let blob = hyle_blob(register_data(bad, "test", vec![]));
        assert_eq!(
            handle_blob_for_hyle_tld(&contracts, &mut changes, &blob),
            Err(TldError::InvalidContractName),
            "{bad}"
        );
    }
    for good in ["foo", "foo.hyle", "risc0-recursion", "sha3_256", "é.hyle", "日本"] {
        let mut changes: ContractChanges = AssocMap::new();
        let blob = hyle_blob(register_data(good, "test", vec![]));
        assert_eq!(
            handle_blob_for_hyle_tld(&contracts, &mut changes, &blob),
            Ok(()),
            "{good}"
        );
    }
}

#[test]
fn contract_names() {
    assert!(validate_contract_name(&name("foo")));
    assert!(validate_contract_name(&name("foo.hyle")));
    assert!(validate_contract_name(&name("hyle")));
    assert!(!validate_contract_name(&name("")));
    assert!(!validate_contract_name(&name(".")));
    assert!(!validate_contract_name(&name(".hyle")));
    assert!(!validate_contract_name(&name("foo.bar")));
    assert!(!validate_contract_name(&name("a.b.hyle")));
    assert!(!validate_contract_name(&name("fooxhyle.")));
}

#[test]
fn register_checks_the_program() {
    let contracts = registry(&[]);
    let mut changes: ContractChanges = AssocMap::new();
    let short = hyle_blob(register_data("foo", "risc0-1", vec![1, 2, 3]));
    assert_eq!(
        handle_blob_for_hyle_tld(&contracts, &mut changes, &short),
        Err(TldError::InvalidProgramId)
    );
    let right = hyle_blob(register_data("foo", "risc0-1", vec![1u8; 32]));
    assert_eq!(
        handle_blob_for_hyle_tld(&contracts, &mut changes, &right),
        Ok(())
    );
}

#[test]
fn register_checks_the_size_of_the_state_commitment() {
    let contracts = registry(&[]);
    let mut changes: ContractChanges = AssocMap::new();
    let mut reg = decode_register(&register_data("foo", "test", vec![])).unwrap();
    reg.state_commitment = StateCommitment(vec![0; 10 * 1024 * 1024 + 1]);
    assert_eq!(
        handle_register_blob(&contracts, &mut changes, &reg),
        Err(TldError::StateCommitmentTooLarge)
    );
    reg.state_commitment = StateCommitment(vec![0; 10 * 1024 * 1024]);
    assert_eq!(handle_register_blob(&contracts, &mut changes, &reg), Ok(()));
}

#[test]
fn delete_hyle_fails_and_delete_foo_succeeds() {
    let contracts = registry(&["hyle", "foo"]);
    let mut changes: ContractChanges = AssocMap::new();
    assert_eq!(
        handle_blob_for_hyle_tld(&contracts, &mut changes, &hyle_blob(delete_data("hyle"))),
        Err(TldError::CannotDeleteHyle)
    );
    assert_eq!(changes.len(), 0);

    let tx = BlobTransaction::new(
        Identity(HYLI_TLD_ID.to_string()),
        vec![hyle_blob(delete_data("foo"))],
    );
    assert_eq!(validate_hyle_contract_blobs(&tx), Ok(()));
    assert_eq!(
        handle_blob_for_hyle_tld(&contracts, &mut changes, &tx.blobs[0]),
        Ok(())
    );
    let change = changes.get(&name("foo")).unwrap();
    assert_eq!(change.0, ContractStatus::Deleted);
    assert_eq!(change.1, ModifiedContractFields::all());
    assert_eq!(change.2, vec![SideEffect::Delete]);
}

#[test]
fn delete_of_unknown_contract_fails() {
    let contracts = registry(&["foo"]);
    let mut changes: ContractChanges = AssocMap::new();
    assert_eq!(
        handle_blob_for_hyle_tld(&contracts, &mut changes, &hyle_blob(delete_data("bar"))),
        Err(TldError::ContractNotRegistered)
    );
}

#[test]
fn update_program_id_from_stranger_is_unauthorized() {
    let tx = BlobTransaction::new(
        Identity("alice@x".to_string()),
        vec![hyle_blob(program_update_data("foo", vec![8, 8]))],
    );
    assert_eq!(
        validate_hyle_contract_blobs(&tx),
        Err(TldError::UnauthorizedTldAction)
    );
}

#[test]
fn privileged_actions_need_the_wallet() {
    for data in [
        delete_data("foo"),
        program_update_data("foo", vec![1]),
        window_update_data("foo", Some(3)),
        window_update_data("foo", None),
    ] {
        let stranger = BlobTransaction::new(
            Identity("bob@hydentity".to_string()),
            vec![hyle_blob(data.clone())],
        );
        assert_eq!(
            validate_hyle_contract_blobs(&stranger),
            Err(TldError::UnauthorizedTldAction)
        );
        let wallet =
            BlobTransaction::new(Identity("hyli@wallet".to_string()), vec![hyle_blob(data)]);
        assert_eq!(validate_hyle_contract_blobs(&wallet), Ok(()));
    }
}

#[test]
fn register_is_open_to_all() {
    let tx = BlobTransaction::new(
        Identity("alice@x".to_string()),
        vec![hyle_blob(register_data("foo", "test", vec![]))],
    );
    assert_eq!(validate_hyle_contract_blobs(&tx), Ok(()));
}

#[test]
fn other_blobs_for_hyle_are_unsupported() {
    let tx = BlobTransaction::new(
        Identity("hyli@wallet".to_string()),
        vec![hyle_blob(vec![1, 2, 3])],
    );
    assert_eq!(
        validate_hyle_contract_blobs(&tx),
        Err(TldError::UnsupportedAction)
    );
    let elsewhere = BlobTransaction::new(
        Identity("alice@x".to_string()),
        vec![Blob {
            contract_name: name("hyllar"),
            data: BlobData(vec![1, 2, 3]),
        }],
    );
    assert_eq!(validate_hyle_contract_blobs(&elsewhere), Ok(()));
    let empty = BlobTransaction::new(Identity("alice@x".to_string()), vec![]);
    assert_eq!(validate_hyle_contract_blobs(&empty), Ok(()));
}

#[test]
fn first_refused_blob_decides() {
    let tx = BlobTransaction::new(
        Identity("alice@x".to_string()),
        vec![
            hyle_blob(register_data("foo", "test", vec![])),
            hyle_blob(vec![0xff]),
            hyle_blob(delete_data("foo")),
        ],
    );
    assert_eq!(
        validate_hyle_contract_blobs(&tx),
        Err(TldError::UnsupportedAction)
    );
}

#[test]
fn invalid_blob_is_refused() {
    let contracts = registry(&[]);
    let mut changes: ContractChanges = AssocMap::new();
    for data in [vec![], vec![0], vec![0, 0], vec![2, 0], vec![0, 0, 1, 0, 0, 0]] {
        assert_eq!(
            handle_blob_for_hyle_tld(&contracts, &mut changes, &hyle_blob(data)),
            Err(TldError::InvalidBlob)
        );
    }
    let mut trailing = delete_data("foo");
    trailing.push(0);
    trailing.push(9);
    assert_eq!(
        handle_blob_for_hyle_tld(&contracts, &mut changes, &hyle_blob(trailing)),
        Err(TldError::InvalidBlob)
    );
}

#[test]
fn update_program_id_of_existing_contract() {
    let contracts = registry(&["foo"]);
    let mut changes: ContractChanges = AssocMap::new();
    let blob = hyle_blob(program_update_data("foo", vec![8, 8]));
    assert_eq!(
        handle_blob_for_hyle_tld(&contracts, &mut changes, &blob),
        Ok(())
    );
    let change = changes.get(&name("foo")).unwrap();
    let mut expected = contract("foo");
    expected.program_id = ProgramId(vec![8, 8]);
    assert_eq!(change.0, ContractStatus::Updated(expected));
    assert_eq!(
        change.1,
        ModifiedContractFields {
            program_id: true,
            state: false,
            verifier: false,
            timeout_window: false
        }
    );
    assert_eq!(change.2, vec![SideEffect::UpdateProgramId]);
}

#[test]
fn updates_merge_with_earlier_changes() {
    let contracts = registry(&[]);
    let mut changes: ContractChanges = AssocMap::new();
    handle_blob_for_hyle_tld(
        &contracts,
        &mut changes,
        &hyle_blob(register_data("foo", "test", vec![1])),
    )
    .unwrap();
    handle_blob_for_hyle_tld(
        &contracts,
        &mut changes,
        &hyle_blob(program_update_data("foo", vec![2])),
    )
    .unwrap();
    handle_blob_for_hyle_tld(
        &contracts,
        &mut changes,
        &hyle_blob(window_update_data("foo", None)),
    )
    .unwrap();
    assert_eq!(changes.len(), 1);
    let change = changes.get(&name("foo")).unwrap();
    match &change.0 {
        ContractStatus::Updated(c) => {
            assert_eq!(c.program_id, ProgramId(vec![2]));
            assert_eq!(c.timeout_window, TimeoutWindow::NoTimeout);
            assert_eq!(c.state, StateCommitment(vec![7, 7, 7]));
        }
        ContractStatus::Deleted => panic!("updated contract is deleted"),
    }
    assert_eq!(change.1, ModifiedContractFields::all());
    assert_eq!(
        change.2,
        vec![
            SideEffect::Register(None),
            SideEffect::UpdateProgramId,
            SideEffect::UpdateTimeoutWindow
        ]
    );
}

#[test]
fn update_after_delete_keeps_the_deletion() {
    let contracts = registry(&["foo"]);
    let mut changes: ContractChanges = AssocMap::new();
    handle_blob_for_hyle_tld(&contracts, &mut changes, &hyle_blob(delete_data("foo"))).unwrap();
    handle_blob_for_hyle_tld(
        &contracts,
        &mut changes,
        &hyle_blob(window_update_data("foo", Some(5))),
    )
    .unwrap();
    let change = changes.get(&name("foo")).unwrap();
    assert_eq!(change.0, ContractStatus::Deleted);
    assert_eq!(
        change.2,
        vec![SideEffect::Delete, SideEffect::UpdateTimeoutWindow]
    );
}

#[test]
fn update_of_hyle_or_of_unknown_contract_fails() {
    let contracts = registry(&["hyle"]);
    let mut changes: ContractChanges = AssocMap::new();
    assert_eq!(
        handle_blob_for_hyle_tld(
            &contracts,
            &mut changes,
            &hyle_blob(program_update_data("hyle", vec![1]))
        ),
        Err(TldError::CannotUpdateHyle)
    );
    assert_eq!(
        handle_blob_for_hyle_tld(
            &contracts,
            &mut changes,
            &hyle_blob(window_update_data("hyle", None))
        ),
        Err(TldError::CannotUpdateHyle)
    );
    assert_eq!(
        handle_blob_for_hyle_tld(
            &contracts,
            &mut changes,
            &hyle_blob(program_update_data("foo", vec![1]))
        ),
        Err(TldError::ContractNotFound)
    );
    assert_eq!(
        handle_blob_for_hyle_tld(
            &contracts,
            &mut changes,
            &hyle_blob(window_update_data("foo", Some(1)))
        ),
        Err(TldError::ContractNotFound)
    );
    assert_eq!(changes.len(), 0);
}

#[test]
fn handlers_take_decoded_actions() {
    let contracts = registry(&["foo"]);
    let mut changes: ContractChanges = AssocMap::new();
    let reg = decode_register(&register_data("bar", "test", vec![])).unwrap();
    assert_eq!(handle_register_blob(&contracts, &mut changes, &reg), Ok(()));
    let del = decode_delete(&delete_data("bar")).unwrap();
    assert_eq!(handle_delete_blob(&contracts, &mut changes, &del), Ok(()));
    let upd = decode_program_update(&program_update_data("foo", vec![4])).unwrap();
    assert_eq!(
        handle_update_program_id_blob(&contracts, &mut changes, &upd),
        Ok(())
    );
    let win = decode_window_update(&window_update_data("foo", Some(9))).unwrap();
    assert_eq!(win.timeout_window, TimeoutWindow::Timeout(BlockHeight(9)));
    assert_eq!(
        handle_update_timeout_window_blob(&contracts, &mut changes, &win),
        Ok(())
    );
    assert_eq!(changes.len(), 2);
}

#[test]
fn encoded_registration_is_what_borsh_writes() {
    let action = RegisterContractAction {
        verifier: Verifier("risc0-1".to_string()),
        program_id: ProgramId(vec![1, 2, 3]),
        state_commitment: StateCommitment(vec![]),
        contract_name: name("héllo.hyle"),
        timeout_window: Some(TimeoutWindow::Timeout(BlockHeight(0x0102030405060708))),
        constructor_metadata: Some(vec![0xaa; 300]),
    };
    let expected = borsh::to_vec(&(
        no_links(),
        "risc0-1".to_string(),
        vec![1u8, 2, 3],
        Vec::<u8>::new(),
        "héllo.hyle".to_string(),
        (1u8, 1u8, 0x0102030405060708u64),
        Some(vec![0xaau8; 300]),
    ))
    .unwrap();
    let encoded = encode_register(&action).unwrap();
    assert_eq!(encoded, expected);
    assert_eq!(decode_register(&encoded), Some(action));
}

#[test]
fn links_before_the_action_are_read() {
    let data = borsh::to_vec(&(
        Some(3u64),
        Some(vec![1u64, 2, 5]),
        "foo".to_string(),
    ))
    .unwrap();
    assert_eq!(
        decode_delete(&data).map(|d| d.contract_name),
        Some(name("foo"))
    );
    let cut = &data[..data.len() - 1];
    assert_eq!(decode_delete(cut), None);
}

#[test]
fn text_must_be_utf8() {
    let mut data = vec![0u8, 0, 2, 0, 0, 0, 0xff, 0xfe];
    assert_eq!(decode_delete(&data), None);
    data[6] = b'o';
    data[7] = b'k';
    assert_eq!(decode_delete(&data).map(|d| d.contract_name), Some(name("ok")));
}

#[test]
fn encoded_actions_are_what_borsh_writes() {
    let delete = DeleteContractAction {
        contract_name: name("foo"),
    };
    assert_eq!(encode_delete(&delete), Some(delete_data("foo")));
    assert_eq!(decode_delete(&delete_data("foo")), Some(delete));

    let update = UpdateContractProgramIdAction {
        contract_name: name("foo"),
        program_id: ProgramId(vec![1, 2, 3]),
    };
    assert_eq!(
        encode_program_update(&update),
        Some(program_update_data("foo", vec![1, 2, 3]))
    );
    assert_eq!(
        decode_program_update(&program_update_data("foo", vec![1, 2, 3])),
        Some(update)
    );

    for (window, blocks) in [
        (TimeoutWindow::NoTimeout, None),
        (TimeoutWindow::Timeout(BlockHeight(0)), Some(0)),
        (TimeoutWindow::Timeout(BlockHeight(u64::MAX)), Some(u64::MAX)),
    ] {
        let update = UpdateContractTimeoutWindowAction {
            contract_name: name("foo"),
            timeout_window: window,
        };
        assert_eq!(
            encode_window_update(&update),
            Some(window_update_data("foo", blocks))
        );
        assert_eq!(
            decode_window_update(&window_update_data("foo", blocks)),
            Some(update)
        );
    }
}

#[test]
fn an_action_is_read_as_one_kind_only() {
    let all = [
        register_data("foo", "test", vec![1, 2, 3]),
        delete_data("foo"),
        program_update_data("foo", vec![1, 0, 0, 0, 0]),
        program_update_data("foo", vec![]),
        window_update_data("foo", None),
        window_update_data("foo", Some(5)),
    ];
    for data in &all {
        let kinds = [
            decode_register(data).is_some(),
            decode_delete(data).is_some(),
            decode_program_update(data).is_some(),
            decode_window_update(data).is_some(),
        ];
        assert_eq!(kinds.iter().filter(|k| **k).count(), 1, "{data:?}");
    }
}
