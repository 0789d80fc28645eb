//! What a test client holds besides its connection: the root account, the
//! overflow flag, and the settings of its requests.

use crate::dispatcher::{initial, valid, wait_time_of, Dispatcher};
use crate::error::{classify, message_view, parse_error, Error};
use crate::hexfmt::hex_bytes;
use crate::keys::{address_bytes, extract_keypair, secp256k1_public, spells_secret, SecretKey};
use crate::overflow::OverflowFlag;
use crate::rpc::{
    timeout_secs, Order, ReceiptWait, Retry, RetryState, BLOCK_INTERVAL, DEFAULT_TIMEOUT,
    NONCE_INTERVAL,
};
use crate::text::trimmed;
use crate::types::Address;
use crate::u256::U256;
use crate::utils::{is_absolute_url, parses_as_url};
use crate::TransactionParameters;
use vstd::prelude::*;

verus! {

/// The node that is asked where a run names none.
pub const WEB3_SRV: &'static str = "https://prod-testnet.prod.findora.org:8545";

/// The address of the contract whose code is read to see whether the node
/// is alive.
pub const FRC20_ADDRESS: u64 = 0x1000;

/// Why a client could not be set up.
#[derive(Clone, Copy, Debug, PartialEq, Eq)]
pub enum SetupError {
    /// The node's address is no absolute URL.
    BadUrl,
    /// The secret is no private key in hex.
    BadSecret,
}

/// What a test client holds besides its connection.
#[derive(Debug)]
pub struct TestClient {
    /// The node's address.
    pub url: String,
    /// Seconds that one request may take.
    pub timeout: u64,
    /// The key of the root account.
    pub root_sk: SecretKey,
    /// The address of the root account.
    pub root_addr: Address,
    /// The flag that the workers of this client share.
    pub overflow_flag: OverflowFlag,
}

/// What a node says of itself and its chain.
#[derive(Debug, Clone, PartialEq, Eq)]
pub struct NetworkInfo {
    /// The chain's id.
    pub chain_id: U256,
    /// The height of the latest block.
    pub block_number: u64,
    /// The gas price.
    pub gas_price: U256,
    /// The code at [`FRC20_ADDRESS`], where the node gave it.
    pub frc20_code: Option<Vec<u8>>,
}

/// The node's address as text: the one given, or [`WEB3_SRV`].
pub open spec fn url_of(url: Option<String>) -> Seq<char> {
    match url {
        Some(u) => u@,
        None => WEB3_SRV@,
    }
}

impl TestClient {
    /// A client of the node at `url`, or at [`WEB3_SRV`] where none is
    /// given, whose requests may take `timeout` seconds, three where none
    /// is given. `secret` is the root account's private key in hex, as the
    /// secret file holds it.
    pub fn setup(url: Option<String>, timeout: Option<u64>, secret: &str) -> (r: core::result::Result<
        TestClient,
        SetupError,
    >)
        ensures
            match r {
                Ok(client) => {
                    &&& is_absolute_url(url_of(url))
                    &&& spells_secret(trimmed(secret@))
                    &&& client.url@ == url_of(url)
                    &&& client.timeout == match timeout {
                        Some(t) => t,
                        None => DEFAULT_TIMEOUT,
                    }
                    &&& client.root_sk.bytes@ == hex_bytes(trimmed(secret@))
                    &&& client.root_addr.bytes@ == address_bytes(
                        secp256k1_public(client.root_sk.bytes@),
                    )
                },
                Err(SetupError::BadUrl) => !is_absolute_url(url_of(url)),
                Err(SetupError::BadSecret) => is_absolute_url(url_of(url)) && !spells_secret(
                    trimmed(secret@),
                ),
            },
    {
        let url = match url {
            Some(u) => u,
            None => String::from_str(WEB3_SRV),
        };
        if !parses_as_url(url.as_str()) {
            return Err(SetupError::BadUrl);
        }
        match extract_keypair(secret) {
            None => Err(SetupError::BadSecret),
            Some((root_sk, root_addr)) => Ok(
                TestClient {
                    url,
                    timeout: timeout_secs(timeout),
                    root_sk,
                    root_addr,
                    overflow_flag: OverflowFlag::new(),
                },
            ),
        }
    }

    /// The failure that a node's message tells of.
    pub fn parse_error(&self, message: Option<&str>) -> (e: Error)
        ensures
            e@ == classify(message_view(message)),
    {
        parse_error(message)
    }

    /// Whether worker `id` has to wait now: another worker probes.
    pub fn check_wait_overflow(&self, id: usize) -> bool {
        self.overflow_flag.check_wait_overflow(id)
    }

    /// The requests for a pending nonce: every `interval` seconds, five
    /// where none is given, `times` of them at most, without end where none
    /// is given; `times` of zero allows one request.
    pub fn pending_nonce_inner(&self, interval: Option<u64>, times: Option<u64>) -> (r: Retry)
        ensures
            r == (Retry {
                interval: match interval {
                    Some(i) => i,
                    None => NONCE_INTERVAL,
                },
                times,
                order: Order::WaitThenDecide,
                tries: 1,
                state: RetryState::Ask,
            }),
    {
        Retry::for_nonce(interval, times)
    }

    /// The requests for a pending nonce: every five seconds, without end.
    pub fn pending_nonce(&self) -> (r: Retry)
        ensures
            r == (Retry {
                interval: NONCE_INTERVAL,
                times: None,
                order: Order::WaitThenDecide,
                tries: 1,
                state: RetryState::Ask,
            }),
    {
        self.pending_nonce_inner(None, None)
    }

    /// The requests for a block: every `interval` seconds, one where none
    /// is given, `times` of them at most, without end where none is given;
    /// `times` of zero allows one request.
    pub fn block_with_tx_hashes_inner(
        &self,
        interval: Option<u64>,
        times: Option<u64>,
    ) -> (r: Retry)
        ensures
            r == (Retry {
                interval: match interval {
                    Some(i) => i,
                    None => BLOCK_INTERVAL,
                },
                times,
                order: Order::DecideThenWait,
                tries: 1,
                state: RetryState::Ask,
            }),
    {
        Retry::for_block(interval, times)
    }

    /// The requests for a block, every second and without end.
    pub fn block_with_tx_hashes(&self) -> (r: Retry)
        ensures
            r == (Retry {
                interval: BLOCK_INTERVAL,
                times: None,
                order: Order::DecideThenWait,
                tries: 1,
                state: RetryState::Ask,
            }),
    {
        Retry::for_block(None, None)
    }

    /// The wait for one receipt, of `times` requests at most.
    pub fn wait_for_tx_receipt(&self, times: u64) -> (w: ReceiptWait)
        requires
            1 <= times < u64::MAX,
        ensures
            w == (ReceiptWait { times, left: times }),
            w.wf(),
    {
        ReceiptWait::new(times)
    }

    /// The account that sends: the one given, or the root account.
    pub fn source_or_root(&self, source: Option<(SecretKey, Address)>) -> (r: (SecretKey, Address))
        ensures
            r == match source {
                Some(s) => s,
                None => (self.root_sk, self.root_addr),
            },
    {
        match source {
            Some(s) => s,
            None => (self.root_sk, self.root_addr),
        }
    }

    /// The key that signs and the dispatcher of worker `id`, which sends
    /// from `source`, or from the root account where none is given, to each
    /// of `targets` in turn.
    pub fn distribution(
        &self,
        id: usize,
        source: Option<(SecretKey, Address)>,
        targets: Vec<(Address, U256)>,
        block_time: &Option<u64>,
        need_wait: bool,
        need_retry: bool,
    ) -> (r: (SecretKey, Dispatcher))
        requires
            id != 0,
            4 * targets.len() + 4 <= u64::MAX,
            wait_time_of(*block_time) < u64::MAX,
        ensures
            r.0 == match source {
                Some(s) => s.0,
                None => self.root_sk,
            },
            r.1@ == initial(
                id,
                match source {
                    Some(s) => s.1,
                    None => self.root_addr,
                },
                targets@,
                wait_time_of(*block_time) as u64,
                need_wait,
                need_retry,
            ),
            valid(r.1@),
    {
        let (key, address) = self.source_or_root(source);
        (key, Dispatcher::new(id, address, targets, *block_time, need_wait, need_retry))
    }

    /// What the signer needs to know of the one transfer `target`.
    pub fn distribution_simple(
        &self,
        target: &(Address, U256),
        chain_id: Option<u64>,
        gas_price: Option<U256>,
        nonce: U256,
    ) -> (p: TransactionParameters)
        ensures
            p == (TransactionParameters {
                to: target.0,
                value: target.1,
                chain_id,
                gas_price,
                nonce,
            }),
    {
        TransactionParameters { to: target.0, value: target.1, chain_id, gas_price, nonce }
    }
}

} // verus!
