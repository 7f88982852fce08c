//! The runtime kernel of a blockchain node: its typed bus and the supervisor of
//! its modules, the construction of the first block, the checks on proofs and on
//! natively verified blobs, and the registry of contracts.

pub mod assoc;
pub mod bus;
pub mod client;
pub mod codec;
pub mod config;
pub mod contract;
pub mod crypto;
pub mod fees;
pub mod genesis;
pub mod guest;
pub mod hash;
pub mod model;
pub mod output;
pub mod seqs;
pub mod signal;
pub mod staking;
pub mod supervisor;
pub mod text;
pub mod tld;
pub mod verifiers;
