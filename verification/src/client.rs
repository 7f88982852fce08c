//! What a client of the contract of identities puts into a transaction.

use crate::assoc::AssocMap;
use crate::codec::{
    enc_text, enc_u128, lemma_take_text, lemma_take_u128, lemma_take_u8, put_flag, put_text,
    put_u128, put_u8, take_text, take_u128, take_u8,
};
use crate::contract::no_links;
use crate::model::{Blob, BlobData, BlobView, ContractName, Identity};
use crate::text::utf8;
use vstd::prelude::*;

verus! {

/// Why a client cannot add an action to its transaction.
#[derive(Debug, Clone, Copy, PartialEq, Eq)]
pub enum ClientError {
    /// The contract of identities does not know the sender.
    IdentityNotFound,
    /// A field is longer than the layout of blobs has room for.
    FieldTooLong,
}

/// What is asked of the contract of identities.
#[derive(Debug, PartialEq, Eq)]
pub enum IdentityAction {
    RegisterIdentity { account: String },
    VerifyIdentity { account: String, nonce: u128 },
    GetIdentityInfo { account: String },
}

/// An action on identities as a mathematical value.
pub enum IdentityActionView {
    RegisterIdentity { account: Seq<char> },
    VerifyIdentity { account: Seq<char>, nonce: u128 },
    GetIdentityInfo { account: Seq<char> },
}

impl View for IdentityAction {
    type V = IdentityActionView;

    open spec fn view(&self) -> IdentityActionView {
        match self {
            IdentityAction::RegisterIdentity { account } => IdentityActionView::RegisterIdentity {
                account: account@,
            },
            IdentityAction::VerifyIdentity { account, nonce } => IdentityActionView::VerifyIdentity {
                account: account@,
                nonce: *nonce,
            },
            IdentityAction::GetIdentityInfo { account } => IdentityActionView::GetIdentityInfo {
                account: account@,
            },
        }
    }
}

/// An action on identities as bytes: a byte that tells the kinds apart, then
/// the fields.
pub open spec fn enc_identity_action(a: IdentityActionView) -> Seq<u8> {
    match a {
        IdentityActionView::RegisterIdentity { account } => seq![0u8] + enc_text(account),
        IdentityActionView::VerifyIdentity { account, nonce } => seq![1u8] + enc_text(account)
            + enc_u128(nonce),
        IdentityActionView::GetIdentityInfo { account } => seq![2u8] + enc_text(account),
    }
}

/// The account of an action.
pub open spec fn account_of(a: IdentityActionView) -> Seq<char> {
    match a {
        IdentityActionView::RegisterIdentity { account } => account,
        IdentityActionView::VerifyIdentity { account, .. } => account,
        IdentityActionView::GetIdentityInfo { account } => account,
    }
}

/// The action on identities at the start of `s`, and what follows it.
pub open spec fn take_identity_action(s: Seq<u8>) -> Option<(IdentityActionView, Seq<u8>)> {
    match take_u8(s) {
        None => None,
        Some((tag, r1)) => match take_text(r1) {
            None => None,
            Some((account, r2)) => if tag == 0 {
                Some((IdentityActionView::RegisterIdentity { account }, r2))
            } else if tag == 1 {
                match take_u128(r2) {
                    Some((nonce, r3)) => Some(
                        (IdentityActionView::VerifyIdentity { account, nonce }, r3),
                    ),
                    None => None,
                }
            } else if tag == 2 {
                Some((IdentityActionView::GetIdentityInfo { account }, r2))
            } else {
                None
            },
        },
    }
}

/// An action on identities that was written is the action that is read.
pub proof fn lemma_take_identity_action(a: IdentityActionView, rest: Seq<u8>)
    requires
        utf8(account_of(a)).len() <= u32::MAX,
    ensures
        take_identity_action(enc_identity_action(a) + rest) == Some((a, rest)),
{
    match a {
        IdentityActionView::RegisterIdentity { account } => {
            assert(enc_identity_action(a) + rest =~= seq![0u8] + (enc_text(account) + rest));
            lemma_take_u8(0u8, enc_text(account) + rest);
            lemma_take_text(account, rest);
        },
        IdentityActionView::VerifyIdentity { account, nonce } => {
            assert(enc_identity_action(a) + rest =~= seq![1u8] + (enc_text(account) + (enc_u128(
                nonce,
            ) + rest)));
            lemma_take_u8(1u8, enc_text(account) + (enc_u128(nonce) + rest));
            lemma_take_text(account, enc_u128(nonce) + rest);
            lemma_take_u128(nonce, rest);
        },
        IdentityActionView::GetIdentityInfo { account } => {
            assert(enc_identity_action(a) + rest =~= seq![2u8] + (enc_text(account) + rest));
            lemma_take_u8(2u8, enc_text(account) + rest);
            lemma_take_text(account, rest);
        },
    }
}

/// The data of the blob that carries the action `a`, where its account fits
/// the layout.
pub fn encode_identity_action(a: &IdentityAction) -> (r: Option<Vec<u8>>)
    ensures
        r is Some == (utf8(account_of(a@)).len() <= u32::MAX),
        r matches Some(b) ==> b@ == no_links() + enc_identity_action(a@),
{
    let mut out: Vec<u8> = Vec::new();
    put_flag(&mut out, false);
    put_flag(&mut out, false);
    match a {
        IdentityAction::RegisterIdentity { account } => {
            put_u8(&mut out, 0u8);
            if !put_text(&mut out, account.as_str()) {
                return None;
            }
        },
        IdentityAction::VerifyIdentity { account, nonce } => {
            put_u8(&mut out, 1u8);
            if !put_text(&mut out, account.as_str()) {
                return None;
            }
            put_u128(&mut out, *nonce);
        },
        IdentityAction::GetIdentityInfo { account } => {
            put_u8(&mut out, 2u8);
            if !put_text(&mut out, account.as_str()) {
                return None;
            }
        },
    }
    assert(out@ =~= no_links() + enc_identity_action(a@));
    Some(out)
}

/// Whether `after` is `before` with one more private input behind it: the
/// bytes of `input`, or none where there is no input.
pub open spec fn added_private_input(
    before: Seq<Vec<u8>>,
    after: Seq<Vec<u8>>,
    input: Option<Vec<u8>>,
) -> bool {
    &&& after.len() == before.len() + 1
    &&& forall|i: int| 0 <= i < before.len() ==> after[i] == before[i]
    &&& after.last()@ == match input {
        Some(p) => p@,
        None => Seq::empty(),
    }
}

/// Whether `after` is `before` with the blob `blob` behind it, and with
/// `private` as what its contract is given in private.
pub open spec fn added_blob(
    before: ProvableBlobTx,
    after: ProvableBlobTx,
    blob: BlobView,
    private: Seq<u8>,
) -> bool {
    &&& after.identity == before.identity
    &&& after.blobs.deep_view() == before.blobs.deep_view().push(blob)
    &&& after.private_inputs@.len() == before.private_inputs@.len() + 1
    &&& forall|i: int|
        0 <= i < before.private_inputs@.len() ==> after.private_inputs@[i]
            == before.private_inputs@[i]
    &&& after.private_inputs@.last()@ == private
}

/// A transaction in the making: its blobs, and for each blob what its
/// contract is given in private to prove it.
#[derive(Debug, PartialEq, Eq)]
pub struct ProvableBlobTx {
    pub identity: Identity,
    pub blobs: Vec<Blob>,
    pub private_inputs: Vec<Vec<u8>>,
}

impl ProvableBlobTx {
    /// A transaction of `identity` without blobs.
    pub fn new(identity: Identity) -> (r: Self)
        ensures
            r.identity == identity,
            r.blobs@.len() == 0,
            r.private_inputs@.len() == 0,
    {
        ProvableBlobTx { identity, blobs: Vec::new(), private_inputs: Vec::new() }
    }

    /// Adds a blob for `contract_name` that carries `data`, with what the
    /// contract is given in private: nothing, where nothing is named.
    pub fn add_action(&mut self, contract_name: ContractName, data: Vec<u8>, private_input: Option<
        Vec<u8>,
    >)
        ensures
            final(self).identity == old(self).identity,
            final(self).blobs.deep_view() == old(self).blobs.deep_view().push(
                BlobView { contract_name: contract_name@, data: data@ },
            ),
            added_private_input(old(self).private_inputs@, final(self).private_inputs@, private_input),
    {
        self.blobs.push(Blob { contract_name, data: BlobData(data) });
        assert(self.blobs.deep_view() =~= old(self).blobs.deep_view().push(
            BlobView { contract_name: contract_name@, data: data@ },
        ));
        match private_input {
            Some(p) => {
                self.private_inputs.push(p);
            },
            None => {
                self.private_inputs.push(Vec::new());
            },
        }
    }
}

/// What the contract of identities holds for one account.
#[derive(Debug, PartialEq, Eq)]
pub struct AccountInfo {
    pub hash: String,
    pub nonce: u128,
}

/// What the contract of identities knows: for each account, how often it
/// has shown itself.
pub struct Hydentity {
    identities: AssocMap<String, AccountInfo>,
}

impl Hydentity {
    /// No account occurs twice.
    pub closed spec fn wf(&self) -> bool {
        self.identities.wf()
    }

    /// The accounts.
    pub closed spec fn accounts(&self) -> Map<Seq<char>, AccountInfo> {
        self.identities@
    }

    /// A state without accounts.
    pub fn new() -> (r: Self)
        ensures
            r.wf(),
            r.accounts() == Map::<Seq<char>, AccountInfo>::empty(),
    {
        Hydentity { identities: AssocMap::new() }
    }

    /// Sets what is held for `account`.
    pub fn set_account(&mut self, account: String, info: AccountInfo)
        requires
            old(self).wf(),
        ensures
            final(self).wf(),
            final(self).accounts() == old(self).accounts().insert(account@, info),
    {
        self.identities.insert(account, info);
    }

    /// How often `account` has shown itself, if the contract knows it.
    pub fn get_nonce(&self, account: &str) -> (r: Result<u128, ClientError>)
        requires
            self.wf(),
        ensures
            match r {
                Ok(n) => self.accounts().contains_key(account@) && n == self.accounts()[account@].nonce,
                Err(e) => !self.accounts().contains_key(account@) && e
                    == ClientError::IdentityNotFound,
            },
    {
        match self.identities.get(&account.to_string()) {
            Some(info) => Ok(info.nonce),
            None => Err(ClientError::IdentityNotFound),
        }
    }
}

/// The bytes of `password`.
fn password_bytes(password: &String) -> (r: Vec<u8>)
    ensures
        r@ == utf8(password@),
{
    let mut out: Vec<u8> = Vec::new();
    out.extend_from_slice(password.as_str().as_bytes());
    assert(out@ =~= utf8(password@));
    out
}

/// The blob by which `account` shows itself for the time after `nonce` times.
pub open spec fn verification_blob(contract_name: Seq<char>, account: Seq<char>, nonce: u128) -> BlobView {
    BlobView {
        contract_name,
        data: no_links() + enc_identity_action(
            IdentityActionView::VerifyIdentity { account, nonce },
        ),
    }
}

/// The blob by which `account` registers itself.
pub open spec fn registration_blob(contract_name: Seq<char>, account: Seq<char>) -> BlobView {
    BlobView {
        contract_name,
        data: no_links() + enc_identity_action(IdentityActionView::RegisterIdentity { account }),
    }
}

/// Adds to `builder` the blob by which its sender shows the contract of
/// identities that it is who it says: with the number of times that it has
/// done so before, and its password in private. Fails, and adds nothing, for a
/// sender that the contract does not know, or whose name is too long.
pub fn verify_identity(
    builder: &mut ProvableBlobTx,
    contract_name: ContractName,
    state: &Hydentity,
    password: String,
) -> (r: Result<(), ClientError>)
    requires
        state.wf(),
    ensures
        r == if !state.accounts().contains_key(old(builder).identity@) {
            Err::<(), ClientError>(ClientError::IdentityNotFound)
        } else if utf8(old(builder).identity@).len() > u32::MAX {
            Err::<(), ClientError>(ClientError::FieldTooLong)
        } else {
            Ok::<(), ClientError>(())
        },
        r is Err ==> *final(builder) == *old(builder),
        r is Ok ==> added_blob(
            *old(builder),
            *final(builder),
            verification_blob(
                contract_name@,
                old(builder).identity@,
                state.accounts()[old(builder).identity@].nonce,
            ),
            utf8(password@),
        ),
{
    let nonce = match state.get_nonce(builder.identity.0.as_str()) {
        Ok(n) => n,
        Err(e) => {
            return Err(e);
        },
    };
    let action = IdentityAction::VerifyIdentity { account: builder.identity.0.clone(), nonce };
    let data = match encode_identity_action(&action) {
        Some(d) => d,
        None => {
            return Err(ClientError::FieldTooLong);
        },
    };
    builder.add_action(contract_name, data, Some(password_bytes(&password)));
    Ok(())
}

/// Adds to `builder` the blob by which its sender registers with the
/// contract of identities, with its password in private. Fails, and adds
/// nothing, for a sender whose name is too long.
pub fn register_identity(builder: &mut ProvableBlobTx, contract_name: ContractName, password: String) -> (r:
    Result<(), ClientError>)
    ensures
        r == if utf8(old(builder).identity@).len() > u32::MAX {
            Err::<(), ClientError>(ClientError::FieldTooLong)
        } else {
            Ok::<(), ClientError>(())
        },
        r is Err ==> *final(builder) == *old(builder),
        r is Ok ==> added_blob(
            *old(builder),
            *final(builder),
            registration_blob(contract_name@, old(builder).identity@),
            utf8(password@),
        ),
{
    let action = IdentityAction::RegisterIdentity { account: builder.identity.0.clone() };
    let data = match encode_identity_action(&action) {
        Some(d) => d,
        None => {
            return Err(ClientError::FieldTooLong);
        },
    };
    builder.add_action(contract_name, data, Some(password_bytes(&password)));
    Ok(())
}

} // verus!
