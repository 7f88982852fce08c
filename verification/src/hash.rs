//! The hashes by which transactions, blobs and proofs are named: SHA3-256
//! digests in lower-case hexadecimal.

use crate::crypto::{sha3_256, sha3_256_of};
use crate::model::{Blob, BlobTransaction, BlobView, TxHash};
use crate::text::utf8;
use vstd::prelude::*;
use vstd::string::{StringExecFns, StringSliceAdditionalSpecFns};

verus! {

/// The hexadecimal digit of a number below sixteen.
pub open spec fn hex_digit(n: int) -> char {
    if n == 0 {
        '0'
    } else if n == 1 {
        '1'
    } else if n == 2 {
        '2'
    } else if n == 3 {
        '3'
    } else if n == 4 {
        '4'
    } else if n == 5 {
        '5'
    } else if n == 6 {
        '6'
    } else if n == 7 {
        '7'
    } else if n == 8 {
        '8'
    } else if n == 9 {
        '9'
    } else if n == 10 {
        'a'
    } else if n == 11 {
        'b'
    } else if n == 12 {
        'c'
    } else if n == 13 {
        'd'
    } else if n == 14 {
        'e'
    } else {
        'f'
    }
}

/// Bytes in hexadecimal: two digits for each byte, the high one first.
pub open spec fn hex(bytes: Seq<u8>) -> Seq<char>
    decreases bytes.len(),
{
    if bytes.len() == 0 {
        Seq::empty()
    } else {
        hex(bytes.drop_last()).push(hex_digit(bytes.last() as int / 16)).push(
            hex_digit(bytes.last() as int % 16),
        )
    }
}

/// The digit of a number below sixteen, as a text of one character.
fn digit_text(n: u8) -> (r: &'static str)
    requires
        n < 16,
    ensures
        r@ == seq![hex_digit(n as int)],
{
    proof {
        reveal_strlit("0");
        reveal_strlit("1");
        reveal_strlit("2");
        reveal_strlit("3");
        reveal_strlit("4");
        reveal_strlit("5");
        reveal_strlit("6");
        reveal_strlit("7");
        reveal_strlit("8");
        reveal_strlit("9");
        reveal_strlit("a");
        reveal_strlit("b");
        reveal_strlit("c");
        reveal_strlit("d");
        reveal_strlit("e");
        reveal_strlit("f");
    }
    let r = if n == 0 {
        "0"
    } else if n == 1 {
        "1"
    } else if n == 2 {
        "2"
    } else if n == 3 {
        "3"
    } else if n == 4 {
        "4"
    } else if n == 5 {
        "5"
    } else if n == 6 {
        "6"
    } else if n == 7 {
        "7"
    } else if n == 8 {
        "8"
    } else if n == 9 {
        "9"
    } else if n == 10 {
        "a"
    } else if n == 11 {
        "b"
    } else if n == 12 {
        "c"
    } else if n == 13 {
        "d"
    } else if n == 14 {
        "e"
    } else {
        "f"
    };
    assert(r@ =~= seq![hex_digit(n as int)]);
    r
}

/// Bytes in hexadecimal.
pub fn hex_of(bytes: &[u8]) -> (r: String)
    ensures
        r@ == hex(bytes@),
{
    let mut out = String::new();
    let mut i: usize = 0;
    while i < bytes.len()
        invariant
            i <= bytes.len(),
            out@ == hex(bytes@.take(i as int)),
        decreases bytes.len() - i,
    {
        let b: u8 = bytes[i];
        let ghost before = out@;
        out.append(digit_text(b / 16));
        out.append(digit_text(b % 16));
        proof {
            assert(bytes@.take(i as int + 1).drop_last() =~= bytes@.take(i as int));
            assert(bytes@.take(i as int + 1).last() == b);
            assert(out@ =~= before.push(hex_digit(b as int / 16)).push(hex_digit(b as int % 16)));
        }
        i += 1;
    }
    proof {
        assert(bytes@.take(i as int) =~= bytes@);
    }
    out
}

/// The hash of `bytes`: their SHA3-256 digest in hexadecimal.
pub open spec fn hash_text(bytes: Seq<u8>) -> Seq<char> {
    hex(sha3_256_of(bytes))
}

/// What is hashed of a blob: the bytes of its contract's name, then its data.
pub open spec fn blob_preimage(blob: BlobView) -> Seq<u8> {
    utf8(blob.contract_name) + blob.data
}

/// The hashes of blobs, as bytes, one after another.
pub open spec fn blob_hashes(blobs: Seq<BlobView>) -> Seq<u8>
    decreases blobs.len(),
{
    if blobs.len() == 0 {
        Seq::empty()
    } else {
        blob_hashes(blobs.drop_last()) + utf8(hash_text(blob_preimage(blobs.last())))
    }
}

/// The hash of a blob transaction: of the bytes of its identity, then the
/// hashes of its blobs.
pub open spec fn tx_hash_text(identity: Seq<char>, blobs: Seq<BlobView>) -> Seq<char> {
    hash_text(utf8(identity) + blob_hashes(blobs))
}

/// The hash of `bytes`.
pub fn hash_bytes(bytes: &[u8]) -> (r: String)
    ensures
        r@ == hash_text(bytes@),
{
    let digest = sha3_256(bytes);
    hex_of(digest.as_slice())
}

/// The hash of a blob.
pub fn blob_hash(blob: &Blob) -> (r: String)
    ensures
        r@ == hash_text(blob_preimage(blob@)),
{
    let mut pre: Vec<u8> = Vec::new();
    pre.extend_from_slice(blob.contract_name.0.as_str().as_bytes());
    pre.extend_from_slice(blob.data.0.as_slice());
    assert(pre@ =~= blob_preimage(blob@));
    hash_bytes(pre.as_slice())
}

impl BlobTransaction {
    /// The hash of the transaction.
    pub fn hashed(&self) -> (r: TxHash)
        ensures
            r@ == tx_hash_text(self@.identity, self@.blobs),
    {
        let mut pre: Vec<u8> = Vec::new();
        pre.extend_from_slice(self.identity.0.as_str().as_bytes());
        let ghost all = self@.blobs;
        let mut i: usize = 0;
        assert(pre@ =~= utf8(self@.identity) + blob_hashes(all.take(0)));
        while i < self.blobs.len()
            invariant
                i <= self.blobs.len(),
                all == self@.blobs,
                pre@ == utf8(self@.identity) + blob_hashes(all.take(i as int)),
            decreases self.blobs.len() - i,
        {
            let h = blob_hash(&self.blobs[i]);
            let ghost before = pre@;
            pre.extend_from_slice(h.as_str().as_bytes());
            proof {
                assert(all.take(i as int + 1).drop_last() =~= all.take(i as int));
                assert(all.take(i as int + 1).last() == self.blobs@[i as int]@);
                assert(pre@ =~= utf8(self@.identity) + blob_hashes(all.take(i as int + 1)));
            }
            i += 1;
        }
        proof {
            assert(all.take(i as int) =~= all);
        }
        TxHash(hash_bytes(pre.as_slice()))
    }
}

} // verus!
