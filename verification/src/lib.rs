//! Load generation for EVM-compatible chains: the dispatcher's decisions,
//! the plans that feed it, and the key handling around them.

pub mod blocks;
pub mod client;
pub mod commands;
pub mod coordination;
pub mod dispatcher;
pub mod error;
pub mod etl;
pub mod funding;
pub mod hexfmt;
pub mod keys;
pub mod nonce;
pub mod overflow;
pub mod pool;
pub mod rpc;
pub mod smooth;
pub mod tasks;
pub mod text;
pub mod trace;
pub mod types;
pub mod u256;
pub mod utils;

pub use crate::client::TestClient;
pub use crate::keys::one_eth_key;
use crate::types::{Address, H256};
use crate::u256::U256;
use vstd::prelude::*;

verus! {

/// Seconds between blocks where a run names no other value.
pub const BLOCK_TIME: u64 = 16;

/// Status of a transfer whose receipt reported success.
pub const STATUS_SUCCESS: u64 = 1;

/// Status of a transfer that was sent again after a failed submission.
pub const STATUS_RETRIED: u64 = 97;

/// Status of a transfer that could not be signed.
pub const STATUS_SIGN_FAILED: u64 = 98;

/// Status of a transfer of which nothing is known yet.
pub const STATUS_PENDING: u64 = 99;

/// An account: its checksummed address and its private key, both in hex.
#[derive(Debug, Clone, Eq, PartialEq)]
pub struct KeyPair {
    /// `0x` and forty hex digits, in mixed case.
    pub address: String,
    /// Sixty-four hex digits.
    pub private: String,
}

/// What became of one transfer.
#[derive(Debug, Clone, Copy, PartialEq, Eq)]
pub struct TxMetric {
    /// The recipient.
    pub to: Address,
    /// The value sent, in wei.
    pub amount: U256,
    /// The transaction's hash, once a submission returned one.
    pub hash: Option<H256>,
    /// One of the `STATUS_` codes.
    pub status: u64,
    /// Seconds spent waiting for the receipt.
    pub wait: u64,
}

impl TxMetric {
    /// The metric of a transfer before anything was tried.
    pub open spec fn fresh(to: Address, amount: U256) -> TxMetric {
        TxMetric { to, amount, hash: None, status: STATUS_PENDING, wait: 0 }
    }

    /// The metric of a transfer before anything was tried.
    pub fn new(to: Address, amount: U256) -> (r: TxMetric)
        ensures
            r == TxMetric::fresh(to, amount),
    {
        TxMetric { to, amount, hash: None, status: STATUS_PENDING, wait: 0 }
    }
}

/// What became of the transfers of one source account.
#[derive(Debug, Clone)]
pub struct TransferMetrics {
    /// The source account.
    pub from: Address,
    /// The number of transfers.
    pub total: u64,
    /// How many of them a receipt confirmed.
    pub succeed: u64,
    /// One metric for each transfer, in the order given.
    pub txs: Vec<TxMetric>,
}

impl TransferMetrics {
    /// There is one metric for each transfer, and no more successes than
    /// transfers.
    pub open spec fn wf(&self) -> bool {
        &&& self.total == self.txs@.len()
        &&& self.succeed <= self.total
    }
}

/// What the signer needs to know of a transfer.
#[derive(Debug, Clone, Copy, PartialEq, Eq)]
pub struct TransactionParameters {
    /// The recipient.
    pub to: Address,
    /// The value to send, in wei.
    pub value: U256,
    /// The chain's id, where the node gave one.
    pub chain_id: Option<u64>,
    /// The gas price, where the node gave one.
    pub gas_price: Option<U256>,
    /// The sender's nonce.
    pub nonce: U256,
}

/// One contract to deploy.
#[derive(Debug, Clone, PartialEq, Eq)]
pub struct DeployJsonObj {
    /// Where the contract's code is.
    pub code_path: String,
    /// Where the contract's interface is.
    pub abi_path: String,
    /// The private key that signs, in hex.
    pub sec_key: String,
    /// The gas limit.
    pub gas: u32,
    /// The gas price.
    pub gas_price: u32,
    /// The arguments of the constructor.
    pub args: String,
}

/// The contracts to deploy.
#[derive(Debug, Clone, PartialEq, Eq)]
pub struct DeployJson {
    /// The contracts, in the order to deploy them.
    pub deploy_obj: Vec<DeployJsonObj>,
}

/// One call of a contract.
#[derive(Debug, Clone, PartialEq, Eq)]
pub struct CallJsonObj {
    /// The contract's address.
    pub contract_addr: String,
    /// Where the contract's interface is.
    pub abi_path: String,
    /// The private key that signs, in hex.
    pub sec_key: String,
    /// The gas limit.
    pub gas: u32,
    /// The gas price.
    pub gas_price: u32,
    /// The arguments of the call.
    pub args: String,
}

/// The calls to make.
#[derive(Debug, Clone, PartialEq, Eq)]
pub struct CallJson {
    /// The calls, in the order to make them.
    pub call_obj: Vec<CallJsonObj>,
}

/// One query of a contract.
#[derive(Debug, Clone, PartialEq, Eq)]
pub struct QueryJson {
    /// The contract's address.
    pub contract_addr: String,
    /// Where the contract's interface is.
    pub abi_path: String,
    /// The arguments of the query.
    pub args: String,
}

} // verus!
