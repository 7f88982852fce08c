use hyle::client::{
    encode_identity_action, register_identity, verify_identity, AccountInfo, ClientError,
    Hydentity, IdentityAction, ProvableBlobTx,
};
use hyle::codec::{
    put_bytes, put_fixed, put_flag, put_text, put_u128, put_u32, put_u64, put_u8, Cursor,
};
use hyle::config::Config;
use hyle::contract::{read_links, BlobLinks, DeleteContractAction, RegisterContractAction};
use hyle::guest::{
    as_hyle_output, check_caller_callees, fail, init_raw, init_with_caller, parse_blob,
    parse_structured_blob, ContractInput, Digestable, RunResult,
};
use hyle::model::{
    flatten_blobs, Blob, BlobData, BlobIndex, ContractName, Identity, StateCommitment, TxHash,
};
use hyle::output::{OnchainEffect, TxContext};
use hyle::text::{bytes_eq, chars_of, lex_at_most, str_eq};

fn blob(contract: &str, data: Vec<u8>) -> Blob {
    Blob {
        contract_name: ContractName(contract.to_string()),
        data: BlobData(data),
    }
}

fn linked(contract: &str, caller: Option<u64>, callees: Option<Vec<u64>>) -> Blob {
    blob(
        contract,
        borsh::to_vec(&(caller, callees, "payload".to_string())).unwrap(),
    )
}

fn input(index: usize, blobs: Vec<Blob>) -> ContractInput {
    ContractInput {
        state: vec![1, 2, 3],
        identity: Identity("alice@hydentity".to_string()),
        index: BlobIndex(index),
        blobs,
        tx_hash: TxHash("deadbeef".to_string()),
        tx_ctx: None,
        private_input: vec![],
    }
}

fn links(caller: Option<usize>, callees: Option<Vec<usize>>) -> BlobLinks {
    BlobLinks {
        caller: caller.map(BlobIndex),
        callees: callees.map(|c| c.into_iter().map(BlobIndex).collect()),
    }
}

#[test]
fn a_failed_contract_keeps_its_state() {
    let blobs = vec![blob("a", vec![1]), blob("b", vec![2, 3])];
    let flat = flatten_blobs(&blobs);
    let out = fail(input(1, blobs), StateCommitment(vec![9, 9]), "it broke");
    assert_eq!(out.version, 1);
    assert_eq!(out.initial_state, StateCommitment(vec![9, 9]));
    assert_eq!(out.next_state, StateCommitment(vec![9, 9]));
    assert_eq!(out.identity, Identity("alice@hydentity".to_string()));
    assert_eq!(out.blob_index, BlobIndex(1));
    assert_eq!(out.blobs, flat);
    assert_eq!(out.blobs, vec![b'a', 1, b'b', 2, 3]);
    assert!(!out.success);
    assert_eq!(out.tx_hash, TxHash("deadbeef".to_string()));
    assert_eq!(out.tx_ctx, None);
    assert!(out.onchain_effects.is_empty());
    assert_eq!(out.program_outputs, b"it broke".to_vec());
}

#[test]
fn the_output_of_a_contract() {
    let effect = OnchainEffect::DeleteContract(ContractName("old".to_string()));
    let mut res: RunResult<StateCommitment> = Ok((
        "done".to_string(),
        StateCommitment(vec![2]),
        vec![OnchainEffect::DeleteContract(ContractName("old".to_string()))],
    ));
    let out = as_hyle_output(
        StateCommitment(vec![1]),
        input(0, vec![blob("a", vec![])]),
        &mut res,
    );
    assert!(out.success);
    assert_eq!(out.initial_state, StateCommitment(vec![1]));
    assert_eq!(out.next_state, StateCommitment(vec![2]));
    assert_eq!(out.program_outputs, b"done".to_vec());
    assert_eq!(out.onchain_effects, vec![effect]);
    assert_eq!(res, Ok((String::new(), StateCommitment(vec![2]), vec![])));

    let mut failed: RunResult<StateCommitment> = Err("no".to_string());
    let out = as_hyle_output(
        StateCommitment(vec![1]),
        input(0, vec![blob("a", vec![])]),
        &mut failed,
    );
    assert!(!out.success);
    assert_eq!(out.next_state, StateCommitment(vec![1]));
    assert_eq!(out.program_outputs, b"no".to_vec());
    assert_eq!(failed, Err("no".to_string()));
    assert_eq!(StateCommitment(vec![4]).as_digest(), StateCommitment(vec![4]));
    let _ = TxContext {
        lane_id: hyle::model::LaneId(hyle::model::ValidatorPublicKey(vec![])),
        block_hash: String::new(),
        block_height: hyle::model::BlockHeight(0),
        timestamp: 0,
        chain_id: 0,
    };
}

#[test]
fn a_blob_that_nobody_calls_acts_for_the_sender() {
    let i = input(0, vec![linked("a", None, None)]);
    assert_eq!(
        check_caller_callees(&i, &links(None, None)),
        Ok(Identity("alice@hydentity".to_string()))
    );
}

#[test]
fn a_called_blob_acts_for_the_contract_of_its_caller() {
    let blobs = vec![
        linked("caller", None, Some(vec![1, 2])),
        linked("callee", Some(0), None),
        linked("other", Some(0), None),
    ];
    let i = input(1, blobs);
    assert_eq!(
        check_caller_callees(&i, &links(Some(0), None)),
        Ok(Identity("caller".to_string()))
    );
    let blobs = vec![
        linked("caller", None, None),
        linked("callee", Some(0), None),
    ];
    assert_eq!(
        check_caller_callees(&input(1, blobs), &links(Some(0), None)),
        Ok(Identity("caller".to_string()))
    );
}

#[test]
fn a_caller_that_does_not_name_the_blob_is_refused() {
    let blobs = vec![
        linked("caller", None, Some(vec![2])),
        linked("callee", Some(0), None),
        linked("other", Some(0), None),
    ];
    assert_eq!(
        check_caller_callees(&input(1, blobs), &links(Some(0), None)),
        Err("Incorrect Caller for this blob".to_string())
    );
}

#[test]
fn a_callee_that_does_not_name_the_blob_is_refused() {
    let blobs = vec![
        linked("caller", None, Some(vec![1, 2])),
        linked("callee", Some(0), None),
        linked("other", Some(1), None),
    ];
    assert_eq!(
        check_caller_callees(&input(0, blobs), &links(None, Some(vec![1, 2]))),
        Err("One Callee does not have this blob as caller".to_string())
    );
    let blobs = vec![
        linked("caller", None, Some(vec![1, 2])),
        linked("callee", Some(0), None),
        linked("other", Some(0), None),
    ];
    assert_eq!(
        check_caller_callees(&input(0, blobs), &links(None, Some(vec![1, 2]))),
        Ok(Identity("alice@hydentity".to_string()))
    );
    let blobs = vec![
        linked("caller", None, Some(vec![1])),
        linked("callee", None, None),
    ];
    assert_eq!(
        check_caller_callees(&input(0, blobs), &links(None, Some(vec![1]))),
        Err("One Callee does not have this blob as caller".to_string())
    );
}

#[test]
fn nothing_behind_a_callee_that_disagrees_is_read() {
    let blobs = vec![
        linked("caller", None, Some(vec![1, 7, 2])),
        linked("callee", None, None),
        blob("unreadable", vec![9]),
    ];
    assert_eq!(
        check_caller_callees(&input(0, blobs), &links(None, Some(vec![1, 7, 2]))),
        Err("One Callee does not have this blob as caller".to_string())
    );
    let blobs = vec![
        linked("this", Some(2), Some(vec![1])),
        linked("callee", Some(5), None),
        blob("unreadable caller", vec![9]),
    ];
    assert_eq!(
        check_caller_callees(&input(0, blobs), &links(Some(2), Some(vec![1]))),
        Err("One Callee does not have this blob as caller".to_string())
    );
    let blobs = vec![
        linked("this", Some(9), Some(vec![1])),
        linked("callee", None, None),
    ];
    assert_eq!(
        check_caller_callees(&input(0, blobs), &links(Some(9), Some(vec![1]))),
        Err("One Callee does not have this blob as caller".to_string())
    );
}

#[test]
fn blobs_are_read_by_their_index() {
    let delete = borsh::to_vec(&(None::<u64>, None::<Vec<u64>>, "foo".to_string())).unwrap();
    let blobs = vec![blob("x", vec![1]), blob("hyle", delete)];
    assert_eq!(
        parse_blob::<DeleteContractAction>(&blobs, &BlobIndex(1)),
        Some(DeleteContractAction {
            contract_name: ContractName("foo".to_string())
        })
    );
    assert_eq!(parse_blob::<DeleteContractAction>(&blobs, &BlobIndex(0)), None);
    assert_eq!(parse_blob::<DeleteContractAction>(&blobs, &BlobIndex(2)), None);
    assert_eq!(parse_blob::<RegisterContractAction>(&blobs, &BlobIndex(1)), None);

    let structured = parse_structured_blob::<DeleteContractAction>(&blobs, &BlobIndex(1)).unwrap();
    assert_eq!(structured.contract_name, ContractName("hyle".to_string()));
    assert_eq!(structured.links, links(None, None));
    assert_eq!(structured.parameters.contract_name, ContractName("foo".to_string()));
    assert!(parse_structured_blob::<DeleteContractAction>(&blobs, &BlobIndex(7)).is_none());

    let (same, parsed) = init_raw::<DeleteContractAction>(input(1, blobs));
    assert_eq!(same.index, BlobIndex(1));
    assert!(parsed.is_some());
}

#[test]
fn a_contract_starts_with_its_blob_and_its_caller() {
    let delete = borsh::to_vec(&(Some(0u64), None::<Vec<u64>>, "foo".to_string())).unwrap();
    let blobs = vec![linked("wallet", None, Some(vec![1])), blob("hyle", delete)];
    let (same, parsed, caller) =
        init_with_caller::<DeleteContractAction>(input(1, blobs)).unwrap();
    assert_eq!(same.index, BlobIndex(1));
    assert_eq!(parsed.links, links(Some(0), None));
    assert_eq!(caller, Identity("wallet".to_string()));
    assert_eq!(
        init_with_caller::<DeleteContractAction>(input(3, vec![])),
        Err("Failed to parse input blob".to_string())
    );
}

#[test]
fn links_are_what_borsh_writes() {
    for (caller, callees) in [
        (None, None),
        (Some(7u64), None),
        (None, Some(vec![])),
        (Some(0), Some(vec![1u64, 2, 300, u32::MAX as u64])),
    ] {
        let data = borsh::to_vec(&(caller, callees.clone(), 0xabu8)).unwrap();
        let mut c = Cursor::new(&data);
        let read = read_links(&mut c).unwrap();
        assert_eq!(
            read,
            links(
                caller.map(|c| c as usize),
                callees.map(|c| c.into_iter().map(|i| i as usize).collect())
            )
        );
        assert_eq!(c.remaining(), vec![0xab]);
        assert_eq!(c.u8(), Some(0xab));
        assert!(c.done());
    }
    let mut c = Cursor::new(&[1, 1, 2, 3]);
    assert_eq!(read_links(&mut c), None);
    let mut c = Cursor::new(&[0, 1, 2, 0, 0, 0, 1, 0, 0, 0, 0, 0, 0, 0]);
    assert_eq!(read_links(&mut c), None);
}

#[test]
fn numbers_and_texts_are_what_borsh_writes() {
    let mut out = vec![];
    put_u32(&mut out, 0x01020304);
    put_u64(&mut out, u64::MAX - 1);
    put_u128(&mut out, 1 << 100);
    assert!(put_text(&mut out, "grüß"));
    assert!(put_bytes(&mut out, &[9, 8, 7]));
    let expected = borsh::to_vec(&(
        0x01020304u32,
        u64::MAX - 1,
        1u128 << 100,
        "grüß".to_string(),
        vec![9u8, 8, 7],
    ))
    .unwrap();
    assert_eq!(out, expected);
    let mut c = Cursor::new(&out);
    assert_eq!(c.u32(), Some(0x01020304));
    assert_eq!(c.u64(), Some(u64::MAX - 1));
    assert_eq!(c.u128(), Some(1 << 100));
    assert_eq!(c.text(), Some("grüß".to_string()));
    assert_eq!(c.bytes(), Some(vec![9, 8, 7]));
    assert!(c.done());
    assert_eq!(c.u8(), None);
    assert_eq!(c.flag(), None);
    let mut c = Cursor::new(&[2, 0, 1]);
    assert_eq!(c.flag(), None);
    let mut c = Cursor::new(&[0, 1]);
    assert_eq!(c.flag(), Some(false));
    assert_eq!(c.flag(), Some(true));
    let mut c = Cursor::new(&[5, 0, 0, 0, 1, 2]);
    assert_eq!(c.bytes(), None);
    let mut c = Cursor::new(&[1, 2, 3]);
    assert_eq!(c.fixed(2), Some(vec![1, 2]));
    assert_eq!(c.fixed(2), None);
    let mut out = vec![];
    put_flag(&mut out, true);
    put_flag(&mut out, false);
    put_u8(&mut out, 0xfe);
    put_fixed(&mut out, &[1, 2, 3]);
    assert_eq!(out, borsh::to_vec(&(true, false, 0xfeu8, [1u8, 2, 3])).unwrap());
}

#[test]
fn identity_actions_are_what_borsh_writes() {
    let register = IdentityAction::RegisterIdentity {
        account: "bob@hydentity".to_string(),
    };
    assert_eq!(
        encode_identity_action(&register).unwrap(),
        borsh::to_vec(&(None::<u64>, None::<Vec<u64>>, 0u8, "bob@hydentity".to_string())).unwrap()
    );
    let verify = IdentityAction::VerifyIdentity {
        account: "bob@hydentity".to_string(),
        nonce: 5,
    };
    assert_eq!(
        encode_identity_action(&verify).unwrap(),
        borsh::to_vec(&(
            None::<u64>,
            None::<Vec<u64>>,
            1u8,
            "bob@hydentity".to_string(),
            5u128
        ))
        .unwrap()
    );
    let info = IdentityAction::GetIdentityInfo {
        account: "bob".to_string(),
    };
    assert_eq!(
        encode_identity_action(&info).unwrap(),
        borsh::to_vec(&(None::<u64>, None::<Vec<u64>>, 2u8, "bob".to_string())).unwrap()
    );
}

#[test]
fn a_client_registers_and_verifies_its_identity() {
    let mut tx = ProvableBlobTx::new(Identity("bob@hydentity".to_string()));
    assert_eq!(
        register_identity(
            &mut tx,
            ContractName("hydentity".to_string()),
            "password".to_string()
        ),
        Ok(())
    );
    assert_eq!(tx.blobs.len(), 1);
    assert_eq!(tx.blobs[0].contract_name, ContractName("hydentity".to_string()));
    assert_eq!(
        tx.blobs[0].data.0,
        borsh::to_vec(&(None::<u64>, None::<Vec<u64>>, 0u8, "bob@hydentity".to_string())).unwrap()
    );
    assert_eq!(tx.private_inputs, vec![b"password".to_vec()]);

    let mut state = Hydentity::new();
    assert_eq!(
        verify_identity(
            &mut tx,
            ContractName("hydentity".to_string()),
            &state,
            "password".to_string()
        ),
        Err(ClientError::IdentityNotFound)
    );
    assert_eq!(tx.blobs.len(), 1);
    state.set_account(
        "bob@hydentity".to_string(),
        AccountInfo {
            hash: "h".to_string(),
            nonce: 3,
        },
    );
    assert_eq!(state.get_nonce("bob@hydentity"), Ok(3));
    assert_eq!(state.get_nonce("eve@hydentity"), Err(ClientError::IdentityNotFound));
    assert_eq!(
        verify_identity(
            &mut tx,
            ContractName("hydentity".to_string()),
            &state,
            "secret".to_string()
        ),
        Ok(())
    );
    assert_eq!(
        tx.blobs[1].data.0,
        borsh::to_vec(&(
            None::<u64>,
            None::<Vec<u64>>,
            1u8,
            "bob@hydentity".to_string(),
            3u128
        ))
        .unwrap()
    );
    assert_eq!(tx.private_inputs[1], b"secret".to_vec());
    tx.add_action(ContractName("x".to_string()), vec![1], None);
    assert_eq!(tx.private_inputs[2], Vec::<u8>::new());
}

#[test]
fn texts_and_bytes_are_compared() {
    assert!(bytes_eq(&[], &[]));
    assert!(bytes_eq(&[1, 2], &[1, 2]));
    assert!(!bytes_eq(&[1, 2], &[1, 3]));
    assert!(!bytes_eq(&[1, 2], &[1]));
    assert!(str_eq("héllo", "héllo"));
    assert!(!str_eq("hello", "hellO"));
    assert_eq!(chars_of("a.b"), vec!['a', '.', 'b']);
    assert_eq!(chars_of("é日"), vec!['é', '日']);
    assert_eq!(chars_of(""), Vec::<char>::new());
    let ordered: [&[u8]; 6] = [&[], &[0], &[0, 0], &[0, 1], &[1], &[1, 0]];
    for (i, a) in ordered.iter().enumerate() {
        for (j, b) in ordered.iter().enumerate() {
            assert_eq!(lex_at_most(a, b), i <= j, "{a:?} {b:?}");
            assert_eq!(lex_at_most(a, b), a <= b);
        }
    }
}

#[test]
fn the_address_of_a_configuration() {
    assert_eq!(Config::new("127.0.0.1:4321".to_string()).addr(), "127.0.0.1:4321");
}
