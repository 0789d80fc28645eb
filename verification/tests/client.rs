use feth::client::{SetupError, TestClient, WEB3_SRV};
use feth::dispatcher::{Action, Phase};
use feth::error::Error;
use feth::keys::SecretKey;
use feth::rpc::{Retry, RetryStep};
use feth::types::Address;
use feth::u256::U256;
use feth::TransactionParameters;

const SECRET: &str = "1ab42cc412b618bdea3a599e3c9bae199ebf030895b039e9db1e30dafb12b727";

fn root() -> Address {
    Address::parse("0x9858EfFD232B4033E47d90003D41EC34EcaEda94").unwrap()
}

#[test]
fn a_client_knows_its_root_account() {
    let c = TestClient::setup(Some("http://localhost:8545".to_string()), Some(7), SECRET).unwrap();
    assert_eq!(c.url, "http://localhost:8545");
    assert_eq!(c.timeout, 7);
    assert_eq!(c.root_addr, root());
    assert_eq!(hex::encode(c.root_sk.bytes), SECRET);
    assert_eq!(c.overflow_flag.load(), 0);
}

#[test]
fn the_defaults_are_the_public_test_node_and_three_seconds() {
    let c = TestClient::setup(None, None, &format!("{}\n", SECRET)).unwrap();
    assert_eq!(c.url, WEB3_SRV);
    assert_eq!(c.url, "https://prod-testnet.prod.findora.org:8545");
    assert_eq!(c.timeout, 3);
}

#[test]
fn a_bad_url_or_secret_gives_no_client() {
    assert_eq!(
        TestClient::setup(Some("not a url".to_string()), None, SECRET).unwrap_err(),
        SetupError::BadUrl
    );
    assert_eq!(
        TestClient::setup(Some(String::new()), None, SECRET).unwrap_err(),
        SetupError::BadUrl
    );
    assert_eq!(TestClient::setup(None, None, "").unwrap_err(), SetupError::BadSecret);
    assert_eq!(TestClient::setup(None, None, "zz").unwrap_err(), SetupError::BadSecret);
    assert_eq!(
        TestClient::setup(Some("nothing".to_string()), None, "zz").unwrap_err(),
        SetupError::BadUrl
    );
}

#[test]
fn the_client_classifies_messages() {
    let c = TestClient::setup(None, None, SECRET).unwrap();
    assert!(matches!(c.parse_error(Some("x broadcast_tx_sync y")), Error::SyncTx));
    assert!(matches!(c.parse_error(None), Error::Unknown(m) if m == "empty error"));
}

#[test]
fn the_client_says_when_a_worker_must_wait() {
    let c = TestClient::setup(None, None, SECRET).unwrap();
    assert!(!c.check_wait_overflow(1));
    assert!(c.overflow_flag.try_acquire(2));
    assert!(c.check_wait_overflow(1));
    assert!(!c.check_wait_overflow(2));
    assert!(c.overflow_flag.try_release(2));
    assert!(!c.check_wait_overflow(1));
}

#[test]
fn a_distribution_sends_from_the_root_unless_told_otherwise() {
    let c = TestClient::setup(None, None, SECRET).unwrap();
    let targets = vec![(Address { bytes: [1; 20] }, U256::from_u64(5))];
    let (key, d) = c.distribution(1, None, targets.clone(), &Some(2), true, true);
    assert_eq!(key, c.root_sk);
    assert_eq!(d.phase(), Phase::FetchChainId);
    assert!(matches!(d.action(), Action::FetchChainId));

    let other = (SecretKey { bytes: [3; 32] }, Address { bytes: [4; 20] });
    let (key, mut d) = c.distribution(2, Some(other), vec![], &None, false, false);
    assert_eq!(key, other.0);
    d.handle(feth::dispatcher::Event::ChainId(None));
    d.handle(feth::dispatcher::Event::GasPrice(None));
    d.handle(feth::dispatcher::Event::Nonce(Some(U256::zero())));
    assert_eq!(d.metrics().unwrap().from, other.1);
    assert_eq!(c.source_or_root(None), (c.root_sk, c.root_addr));
    assert_eq!(c.source_or_root(Some(other)), other);
}

#[test]
fn a_simple_distribution_is_one_transfer() {
    let c = TestClient::setup(None, None, SECRET).unwrap();
    let p = c.distribution_simple(
        &(Address { bytes: [1; 20] }, U256::from_u64(5)),
        Some(9),
        None,
        U256::from_u64(3),
    );
    assert_eq!(
        p,
        TransactionParameters {
            to: Address { bytes: [1; 20] },
            value: U256::from_u64(5),
            chain_id: Some(9),
            gas_price: None,
            nonce: U256::from_u64(3),
        }
    );
}

#[test]
fn the_client_names_its_series_of_requests() {
    let c = TestClient::setup(None, None, SECRET).unwrap();
    assert_eq!(c.pending_nonce(), Retry::for_nonce(Some(5), None));
    assert_eq!(c.pending_nonce(), c.pending_nonce_inner(None, None));
    assert_eq!(c.pending_nonce().step(), RetryStep::Ask);
    assert_eq!(c.pending_nonce().interval, 5);
    assert_eq!(c.pending_nonce().times, None);
    assert_eq!(c.pending_nonce_inner(None, Some(2)), Retry::for_nonce(None, Some(2)));
    assert_eq!(c.pending_nonce_inner(None, Some(2)).interval, 5);
    assert_eq!(c.block_with_tx_hashes(), Retry::for_block(None, None));
    assert_eq!(c.block_with_tx_hashes().interval, 1);
    assert_eq!(c.block_with_tx_hashes_inner(Some(4), Some(2)), Retry::for_block(Some(4), Some(2)));
    let mut wait = c.wait_for_tx_receipt(2);
    assert_eq!(wait.received(), 1);
    assert!(wait.missed());
    assert_eq!(wait.received(), 2);
    assert!(!wait.missed());
    assert_eq!(wait.expired(), 0);
}
