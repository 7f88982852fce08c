//! The values that travel through the node: names, identities, blobs,
//! transactions and the outputs that verifiers produce.

use crate::assoc::Key;
use crate::text::{bytes_eq, str_eq, utf8};
use vstd::prelude::*;
use vstd::string::StringSliceAdditionalSpecFns;

verus! {

impl Key for String {
    type Id = Seq<char>;

    open spec fn id(&self) -> Seq<char> {
        self@
    }

    fn same(&self, other: &Self) -> (r: bool) {
        str_eq(self.as_str(), other.as_str())
    }
}

/// The name of a contract.
#[derive(Debug, PartialEq, Eq)]
pub struct ContractName(pub String);

impl View for ContractName {
    type V = Seq<char>;

    open spec fn view(&self) -> Seq<char> {
        self.0@
    }
}

impl DeepView for ContractName {
    type V = Seq<char>;

    open spec fn deep_view(&self) -> Seq<char> {
        self.0@
    }
}

impl Clone for ContractName {
    fn clone(&self) -> (r: Self)
        ensures
            r@ == self@,
    {
        ContractName(self.0.clone())
    }
}

impl Key for ContractName {
    type Id = Seq<char>;

    open spec fn id(&self) -> Seq<char> {
        self.0@
    }

    fn same(&self, other: &Self) -> (r: bool) {
        str_eq(self.0.as_str(), other.0.as_str())
    }
}

impl ContractName {
    /// The contract name with the given text.
    pub fn new(name: &str) -> (r: Self)
        ensures
            r@ == name@,
    {
        ContractName(name.to_string())
    }

    /// Whether the name is the given text.
    pub fn is(&self, name: &str) -> (r: bool)
        ensures
            r == (self@ == name@),
    {
        str_eq(self.0.as_str(), name)
    }
}

/// Who sends a transaction: an account name, then `@`, then the contract that knows it.
#[derive(Debug, PartialEq, Eq)]
pub struct Identity(pub String);

impl View for Identity {
    type V = Seq<char>;

    open spec fn view(&self) -> Seq<char> {
        self.0@
    }
}

impl DeepView for Identity {
    type V = Seq<char>;

    open spec fn deep_view(&self) -> Seq<char> {
        self.0@
    }
}

impl Clone for Identity {
    fn clone(&self) -> (r: Self)
        ensures
            r@ == self@,
    {
        Identity(self.0.clone())
    }
}

impl Default for Identity {
    fn default() -> (r: Self)
        ensures
            r@ == Seq::<char>::empty(),
    {
        Identity(String::new())
    }
}

impl Key for Identity {
    type Id = Seq<char>;

    open spec fn id(&self) -> Seq<char> {
        self.0@
    }

    fn same(&self, other: &Self) -> (r: bool) {
        str_eq(self.0.as_str(), other.0.as_str())
    }
}

impl Identity {
    /// The identity with the given text.
    pub fn new(name: &str) -> (r: Self)
        ensures
            r@ == name@,
    {
        Identity(name.to_string())
    }

    /// Whether the identity is the given text.
    pub fn is(&self, name: &str) -> (r: bool)
        ensures
            r == (self@ == name@),
    {
        str_eq(self.0.as_str(), name)
    }
}

/// The tag of the scheme that checks a contract's proofs.
#[derive(Debug, PartialEq, Eq)]
pub struct Verifier(pub String);

impl View for Verifier {
    type V = Seq<char>;

    open spec fn view(&self) -> Seq<char> {
        self.0@
    }
}

impl Clone for Verifier {
    fn clone(&self) -> (r: Self)
        ensures
            r@ == self@,
    {
        Verifier(self.0.clone())
    }
}

impl Verifier {
    /// The verifier with the given tag.
    pub fn new(tag: &str) -> (r: Self)
        ensures
            r@ == tag@,
    {
        Verifier(tag.to_string())
    }

    /// Whether the tag is the given text.
    pub fn is(&self, tag: &str) -> (r: bool)
        ensures
            r == (self@ == tag@),
    {
        str_eq(self.0.as_str(), tag)
    }
}

/// The bytes that name a program to its verifier.
#[derive(Debug, PartialEq, Eq)]
pub struct ProgramId(pub Vec<u8>);

impl View for ProgramId {
    type V = Seq<u8>;

    open spec fn view(&self) -> Seq<u8> {
        self.0@
    }
}

impl Clone for ProgramId {
    fn clone(&self) -> (r: Self)
        ensures
            r@ == self@,
    {
        ProgramId(self.0.clone())
    }
}

/// The digest that stands for a contract's state.
#[derive(Debug, PartialEq, Eq)]
pub struct StateCommitment(pub Vec<u8>);

impl View for StateCommitment {
    type V = Seq<u8>;

    open spec fn view(&self) -> Seq<u8> {
        self.0@
    }
}

impl Clone for StateCommitment {
    fn clone(&self) -> (r: Self)
        ensures
            r@ == self@,
    {
        StateCommitment(self.0.clone())
    }
}

impl Default for StateCommitment {
    fn default() -> (r: Self)
        ensures
            r@ == Seq::<u8>::empty(),
    {
        StateCommitment(Vec::new())
    }
}

/// The bytes of a proof.
#[derive(Debug, Clone, PartialEq, Eq)]
pub struct ProofData(pub Vec<u8>);

impl Default for ProofData {
    fn default() -> (r: Self)
        ensures
            r.0@ == Seq::<u8>::empty(),
    {
        ProofData(Vec::new())
    }
}

/// The hash of a proof, in hexadecimal.
#[derive(Debug, Clone, PartialEq, Eq)]
pub struct ProofDataHash(pub String);

/// The hash of a transaction, in hexadecimal.
#[derive(Debug, PartialEq, Eq)]
pub struct TxHash(pub String);

impl View for TxHash {
    type V = Seq<char>;

    open spec fn view(&self) -> Seq<char> {
        self.0@
    }
}

impl Clone for TxHash {
    fn clone(&self) -> (r: Self)
        ensures
            r@ == self@,
    {
        TxHash(self.0.clone())
    }
}

impl Default for TxHash {
    fn default() -> (r: Self)
        ensures
            r@ == Seq::<char>::empty(),
    {
        TxHash(String::new())
    }
}

/// The place of a blob in its transaction.
#[derive(Debug, Clone, Copy, PartialEq, Eq)]
pub struct BlobIndex(pub usize);

/// The height of a block.
#[derive(Debug, Clone, Copy, PartialEq, Eq)]
pub struct BlockHeight(pub u64);

/// The public key of a validator.
#[derive(Debug, PartialEq, Eq)]
pub struct ValidatorPublicKey(pub Vec<u8>);

impl View for ValidatorPublicKey {
    type V = Seq<u8>;

    open spec fn view(&self) -> Seq<u8> {
        self.0@
    }
}

impl DeepView for ValidatorPublicKey {
    type V = Seq<u8>;

    open spec fn deep_view(&self) -> Seq<u8> {
        self.0@
    }
}

impl Clone for ValidatorPublicKey {
    fn clone(&self) -> (r: Self)
        ensures
            r@ == self@,
    {
        ValidatorPublicKey(self.0.clone())
    }
}

impl Key for ValidatorPublicKey {
    type Id = Seq<u8>;

    open spec fn id(&self) -> Seq<u8> {
        self.0@
    }

    fn same(&self, other: &Self) -> (r: bool) {
        bytes_eq(self.0.as_slice(), other.0.as_slice())
    }
}

/// The lane of a validator in the mempool.
#[derive(Debug, Clone, PartialEq, Eq)]
pub struct LaneId(pub ValidatorPublicKey);

/// The number of bytes that a lane has carried so far.
#[derive(Debug, Clone, Copy, PartialEq, Eq)]
pub struct LaneBytesSize(pub u64);

/// What a blob carries.
#[derive(Debug, PartialEq, Eq)]
pub struct BlobData(pub Vec<u8>);

impl View for BlobData {
    type V = Seq<u8>;

    open spec fn view(&self) -> Seq<u8> {
        self.0@
    }
}

impl Clone for BlobData {
    fn clone(&self) -> (r: Self)
        ensures
            r@ == self@,
    {
        BlobData(self.0.clone())
    }
}

/// One unit of a transaction, addressed to one contract.
#[derive(Debug, PartialEq, Eq)]
pub struct Blob {
    pub contract_name: ContractName,
    pub data: BlobData,
}

/// A blob as a mathematical value.
pub struct BlobView {
    pub contract_name: Seq<char>,
    pub data: Seq<u8>,
}

impl View for Blob {
    type V = BlobView;

    open spec fn view(&self) -> BlobView {
        BlobView { contract_name: self.contract_name@, data: self.data@ }
    }
}

impl DeepView for Blob {
    type V = BlobView;

    open spec fn deep_view(&self) -> BlobView {
        self@
    }
}

impl Clone for Blob {
    fn clone(&self) -> (r: Self)
        ensures
            r@ == self@,
    {
        Blob { contract_name: self.contract_name.clone(), data: self.data.clone() }
    }
}

/// A transaction that carries blobs.
#[derive(Debug, Clone, PartialEq, Eq)]
pub struct BlobTransaction {
    pub identity: Identity,
    pub blobs: Vec<Blob>,
}

/// A blob transaction as a mathematical value.
pub struct BlobTransactionView {
    pub identity: Seq<char>,
    pub blobs: Seq<BlobView>,
}

impl View for BlobTransaction {
    type V = BlobTransactionView;

    open spec fn view(&self) -> BlobTransactionView {
        BlobTransactionView { identity: self.identity@, blobs: self.blobs.deep_view() }
    }
}

impl BlobTransaction {
    /// The transaction of `identity` that carries `blobs`.
    pub fn new(identity: Identity, blobs: Vec<Blob>) -> (r: Self)
        ensures
            r.identity == identity,
            r.blobs == blobs,
    {
        BlobTransaction { identity, blobs }
    }
}

/// The blobs of a transaction as one byte string: for each blob in turn, the
/// bytes of its contract's name, then its data.
pub open spec fn flat(blobs: Seq<BlobView>) -> Seq<u8>
    decreases blobs.len(),
{
    if blobs.len() == 0 {
        Seq::empty()
    } else {
        flat(blobs.drop_last()) + utf8(blobs.last().contract_name) + blobs.last().data
    }
}

/// The blobs of a transaction as one byte string.
pub fn flatten_blobs(blobs: &[Blob]) -> (r: Vec<u8>)
    ensures
        r@ == flat(blobs.deep_view()),
{
    let mut out: Vec<u8> = Vec::new();
    let mut i: usize = 0;
    while i < blobs.len()
        invariant
            i <= blobs.len(),
            out@ == flat(blobs.deep_view().take(i as int)),
        decreases blobs.len() - i,
    {
        let ghost before = out@;
        out.extend_from_slice(blobs[i].contract_name.0.as_str().as_bytes());
        out.extend_from_slice(blobs[i].data.0.as_slice());
        proof {
            let all = blobs.deep_view();
            assert(all.take(i as int + 1).drop_last() =~= all.take(i as int));
            assert(all.take(i as int + 1).last() == blobs@[i as int]@);
            assert(out@ =~= before + utf8(blobs@[i as int].contract_name@) + blobs@[i as int].data@);
        }
        i += 1;
    }
    proof {
        assert(blobs.deep_view().take(i as int) =~= blobs.deep_view());
    }
    out
}

} // verus!
